//! The vault: where a node keeps its objects and the fragments of its files, on disk.
use vstd::prelude::*;
use crate::key::Key;
use crate::paths::{join, path_join};

verus! {

/// The name of the vault's database file.
pub const DEFAULT_VAULT_DATABASE_NAME: &'static str = "vault.db3";

/// The name of the directory of fragments in the vault.
pub const FRAGMENT_DIR_NAME: &'static str = "fragments";

/// The name of the directory of files being put together in the vault.
pub const TEMP_DIR_NAME: &'static str = "temp";

/// Why a fragment was refused.
#[derive(Debug, Clone, Copy, PartialEq, Eq, Structural)]
pub enum FragmentError {
    /// The fragment's key is not the one it was expected to have.
    IntegrityCheckFailed,
}

/// A node's storage of objects and file fragments, in the directory `vault_dir_path`.
#[derive(Debug)]
pub struct Vault {
    vault_dir_path: String,
}

/// A stored fragment: its key, where it lies, and how many bytes it holds.
#[derive(Debug)]
pub struct FragmentInfo {
    pub hash: Key,
    pub path: String,
    pub size: u64,
}

impl FragmentInfo {
    /// The record of the fragment `hash` at `path`, of `size` bytes.
    pub fn new(hash: Key, path: &str, size: u64) -> (r: FragmentInfo)
        ensures
            r.hash@ == hash@,
            r.path@ == path@,
            r.size == size,
    {
        FragmentInfo { hash, path: path.to_owned(), size }
    }
}

impl Vault {
    /// The vault's directory.
    pub closed spec fn dir(&self) -> Seq<char> {
        self.vault_dir_path@
    }

    /// The vault in the directory `vault_dir_path`.
    pub fn at(vault_dir_path: &str) -> (r: Vault)
        ensures
            r.dir() == vault_dir_path@,
    {
        Vault { vault_dir_path: vault_dir_path.to_owned() }
    }

    /// The directory of fragments of the vault in `vault_dir_path`.
    pub fn fragment_dir_path(vault_dir_path: &str) -> (r: String)
        ensures
            r@ == path_join(vault_dir_path@, FRAGMENT_DIR_NAME@),
    {
        join(vault_dir_path, FRAGMENT_DIR_NAME)
    }

    /// The directory of files being put together, in the vault in `vault_dir_path`.
    pub fn temp_dir_path(vault_dir_path: &str) -> (r: String)
        ensures
            r@ == path_join(vault_dir_path@, TEMP_DIR_NAME@),
    {
        join(vault_dir_path, TEMP_DIR_NAME)
    }

    /// The database file of the vault in `base_path`.
    pub fn default_db_path(base_path: &str) -> (r: String)
        ensures
            r@ == path_join(base_path@, DEFAULT_VAULT_DATABASE_NAME@),
    {
        join(base_path, DEFAULT_VAULT_DATABASE_NAME)
    }

    /// The key of a fragment with the bytes `content`: their BLAKE3 digest. Where a key was
    /// expected, the fragment is refused unless its key is that one.
    pub fn fragment_key(content: &[u8], expected: Option<Key>) -> (r: Result<Key, FragmentError>)
        ensures
            match expected {
                None => r matches Ok(k) && k@ == crate::hashing::blake3_digest(content@),
                Some(e) => if e@ == crate::hashing::blake3_digest(content@) {
                    r matches Ok(k) && k@ == e@
                } else {
                    r == Err::<Key, FragmentError>(FragmentError::IntegrityCheckFailed)
                },
            },
    {
        let digest = crate::hashing::blake3_hash(content);
        let key = Key::from_bytes(digest);
        match expected {
            None => Ok(key),
            Some(e) => {
                if e.eq(&key) {
                    Ok(key)
                } else {
                    Err(FragmentError::IntegrityCheckFailed)
                }
            },
        }
    }

    /// Where the fragment `hash` lies in this vault: its key's Base58 text, in the directory of
    /// fragments.
    pub fn fragment_path(&self, hash: &Key) -> (r: String)
        ensures
            r@ == path_join(
                path_join(self.dir(), FRAGMENT_DIR_NAME@),
                crate::base58::base58_text(hash@),
            ),
    {
        let dir = Self::fragment_dir_path(self.vault_dir_path.as_str());
        let name = hash.as_base58();
        join(dir.as_str(), name.as_str())
    }
}

} // verus!

verus! {

/// Why the vault refused an object.
#[derive(Debug, Clone, Copy, PartialEq, Eq, Structural)]
pub enum VaultError {
    /// Only signed objects are stored.
    NotSigned,
    /// The object's bytes do not hold an object of its type.
    Malformed(crate::proto::ProtoError),
    /// Objects of this type are not stored.
    Unsupported,
}

/// How the first vault keeps an object of a type it stores.
#[derive(Debug, Clone, Copy, PartialEq, Eq, Structural)]
pub enum StoredKind {
    /// In the table of typed objects.
    Typed,
    /// In the table of pins.
    Pin,
}

impl Vault {
    /// The form in which an object is stored: it must be a signed object, and it is kept as
    /// read (its layout written anew).
    pub fn object_to_store(object: crate::proto::TypedObject) -> (r: Result<
        crate::proto::TypedObject,
        VaultError,
    >)
        requires
            object.uuid != crate::proto::GroupObject::UUID,
        ensures
            match crate::parser::parse_typed_spec(object@) {
                Ok(crate::parser::ObjectEnumV::Signed(s)) => r matches Ok(t) && t.uuid
                    == crate::proto::SignedObject::UUID && t.data@ == crate::proto::enc_signed(s),
                Ok(_) => r == Err::<crate::proto::TypedObject, VaultError>(VaultError::NotSigned),
                Err(e) => r == Err::<crate::proto::TypedObject, VaultError>(VaultError::Malformed(e)),
            },
    {
        match crate::parser::parse_typed(object) {
            Ok(crate::parser::ObjectEnum::Signed(s)) => Ok(s.into_typed()),
            Ok(_) => Err(VaultError::NotSigned),
            Err(e) => Err(VaultError::Malformed(e)),
        }
    }
}

impl Vault {
    /// What storing `object` under an identifier comes to, where `stored_count` objects are
    /// stored there already: nothing where one is (objects never change, so the first one
    /// stays); else the form in which it is stored, as `object_to_store` gives it.
    pub fn store_decision(stored_count: usize, object: crate::proto::TypedObject) -> (r: Result<
        Option<crate::proto::TypedObject>,
        VaultError,
    >)
        requires
            stored_count == 0 ==> object.uuid != crate::proto::GroupObject::UUID,
        ensures
            stored_count != 0 ==> r == Ok::<Option<crate::proto::TypedObject>, VaultError>(None),
            stored_count == 0 ==> match crate::parser::parse_typed_spec(object@) {
                Ok(crate::parser::ObjectEnumV::Signed(s)) => r matches Ok(Some(t)) && t.uuid
                    == crate::proto::SignedObject::UUID && t.data@ == crate::proto::enc_signed(s),
                Ok(_) => r == Err::<Option<crate::proto::TypedObject>, VaultError>(
                    VaultError::NotSigned,
                ),
                Err(e) => r == Err::<Option<crate::proto::TypedObject>, VaultError>(
                    VaultError::Malformed(e),
                ),
            },
    {
        if stored_count != 0 {
            return Ok(None);
        }
        match Vault::object_to_store(object) {
            Ok(t) => Ok(Some(t)),
            Err(e) => Err(e),
        }
    }
}

/// The type identifier under which the first vault records `object` beside its hash: `None`
/// for the empty object, which it keeps nothing of; refused for the types it does not store
/// (only typed objects and pins are stored).
pub fn stored_type_id(object: &crate::parser::ObjectEnum) -> (r: Result<Option<u128>, VaultError>)
    ensures
        match object@ {
            crate::parser::ObjectEnumV::Empty => r == Ok::<Option<u128>, VaultError>(None),
            crate::parser::ObjectEnumV::Typed(_) => r == Ok::<Option<u128>, VaultError>(
                Some(crate::proto::TypedObject::UUID),
            ),
            crate::parser::ObjectEnumV::Pin(_) => r == Ok::<Option<u128>, VaultError>(
                Some(crate::proto::PinObject::UUID),
            ),
            _ => r == Err::<Option<u128>, VaultError>(VaultError::Unsupported),
        },
{
    match object {
        crate::parser::ObjectEnum::Empty(_) => Ok(None),
        crate::parser::ObjectEnum::Typed(_) => Ok(Some(crate::proto::TypedObject::UUID)),
        crate::parser::ObjectEnum::Pin(_) => Ok(Some(crate::proto::PinObject::UUID)),
        _ => Err(VaultError::Unsupported),
    }
}

/// The table the first vault loads an object from, by the type identifier recorded beside its
/// hash; refused for any identifier but those of typed objects and pins.
pub fn stored_kind(type_id: u128) -> (r: Result<StoredKind, VaultError>)
    ensures
        type_id == crate::proto::TypedObject::UUID ==> r == Ok::<StoredKind, VaultError>(
            StoredKind::Typed,
        ),
        type_id == crate::proto::PinObject::UUID ==> r == Ok::<StoredKind, VaultError>(
            StoredKind::Pin,
        ),
        type_id != crate::proto::TypedObject::UUID && type_id != crate::proto::PinObject::UUID
            ==> r == Err::<StoredKind, VaultError>(VaultError::Unsupported),
{
    if type_id == crate::proto::TypedObject::UUID {
        Ok(StoredKind::Typed)
    } else if type_id == crate::proto::PinObject::UUID {
        Ok(StoredKind::Pin)
    } else {
        Err(VaultError::Unsupported)
    }
}

/// A pin as the vault records it: from the pinned object to the signed object that holds the
/// pin, with an optional relation.
#[derive(Debug, Clone, Copy)]
pub struct PinRecord {
    pub main_object_hash: crate::proto::Hash,
    pub from_object_hash: crate::proto::Hash,
    pub relation_object_hash: Option<crate::proto::Hash>,
}

/// The pin `p` is from `from` (where given), with the relation `relation` (where given), and
/// its main object is among `scope` (where given).
pub open spec fn pin_matches(
    p: PinRecord,
    scope: Option<Seq<Seq<u8>>>,
    from: Option<Seq<u8>>,
    relation: Option<Seq<u8>>,
) -> bool {
    &&& (scope matches Some(s) ==> s.contains(p.main_object_hash.bytes@))
    &&& (from matches Some(f) ==> p.from_object_hash.bytes@ == f)
    &&& (relation matches Some(r) ==> crate::proto::opt_hash_view(p.relation_object_hash) == Some(r))
}

fn same_opt_hash(a: &Option<crate::proto::Hash>, b: &crate::proto::Hash) -> (r: bool)
    ensures
        r == (crate::proto::opt_hash_view(*a) == Some(b.bytes@)),
{
    match a {
        Some(h) => *h == *b,
        None => false,
    }
}

/// The main objects of the pins that match, each once.
pub fn matching_pins(
    pins: &Vec<PinRecord>,
    main_object_hashes: &Option<Vec<crate::proto::Hash>>,
    from_object_hash: &Option<crate::proto::Hash>,
    relation_object_hash: &Option<crate::proto::Hash>,
) -> (r: Vec<crate::proto::Hash>)
    ensures
        crate::modules::hashes_view(r@).no_duplicates(),
        forall|h: Seq<u8>|
            crate::modules::hashes_view(r@).contains(h) <==> exists|i: int|
                0 <= i < pins@.len() && pin_matches(
                    #[trigger] pins@[i],
                    crate::modules::matched_view(*main_object_hashes),
                    crate::proto::opt_hash_view(*from_object_hash),
                    crate::proto::opt_hash_view(*relation_object_hash),
                ) && pins@[i].main_object_hash.bytes@ == h,
{
    let ghost scope = crate::modules::matched_view(*main_object_hashes);
    let ghost from = crate::proto::opt_hash_view(*from_object_hash);
    let ghost rel = crate::proto::opt_hash_view(*relation_object_hash);
    let mut out: Vec<crate::proto::Hash> = Vec::new();
    let mut i: usize = 0;
    while i < pins.len()
        invariant
            i <= pins@.len(),
            scope == crate::modules::matched_view(*main_object_hashes),
            from == crate::proto::opt_hash_view(*from_object_hash),
            rel == crate::proto::opt_hash_view(*relation_object_hash),
            crate::modules::hashes_view(out@).no_duplicates(),
            forall|h: Seq<u8>|
                crate::modules::hashes_view(out@).contains(h) <==> exists|k: int|
                    0 <= k < i && pin_matches(#[trigger] pins@[k], scope, from, rel)
                        && pins@[k].main_object_hash.bytes@ == h,
        decreases pins.len() - i,
    {
        let p = pins[i];
        let in_scope = match main_object_hashes {
            Some(v) => crate::runner::contains_hash(v, &p.main_object_hash),
            None => true,
        };
        let from_ok = match from_object_hash {
            Some(f) => p.from_object_hash == *f,
            None => true,
        };
        let rel_ok = match relation_object_hash {
            Some(r) => same_opt_hash(&p.relation_object_hash, r),
            None => true,
        };
        let ghost before = out@;
        if in_scope && from_ok && rel_ok {
            crate::modules::push_unique(&mut out, p.main_object_hash);
        }
        proof {
            assert(pin_matches(p, scope, from, rel) == (in_scope && from_ok && rel_ok));
            assert forall|h: Seq<u8>|
                crate::modules::hashes_view(out@).contains(h) <==> exists|k: int|
                    0 <= k < i + 1 && pin_matches(#[trigger] pins@[k], scope, from, rel)
                        && pins@[k].main_object_hash.bytes@ == h by {
                if crate::modules::hashes_view(out@).contains(h) {
                    if crate::modules::hashes_view(before).contains(h) {
                        let k = choose|k: int|
                            0 <= k < i && pin_matches(#[trigger] pins@[k], scope, from, rel)
                                && pins@[k].main_object_hash.bytes@ == h;
                    } else {
                        assert(crate::modules::hashes_view(out@).to_set().contains(h));
                        assert(h == p.main_object_hash.bytes@);
                        assert(pins@[i as int] == p);
                    }
                }
                if exists|k: int|
                    0 <= k < i + 1 && pin_matches(#[trigger] pins@[k], scope, from, rel)
                        && pins@[k].main_object_hash.bytes@ == h {
                    let k = choose|k: int|
                        0 <= k < i + 1 && pin_matches(#[trigger] pins@[k], scope, from, rel)
                            && pins@[k].main_object_hash.bytes@ == h;
                    if k < i {
                        assert(crate::modules::hashes_view(before).contains(h));
                        assert(crate::modules::hashes_view(before).to_set().contains(h));
                        assert(crate::modules::hashes_view(out@).to_set().contains(h));
                    } else {
                        assert(pins@[k] == p);
                        assert(crate::modules::hashes_view(out@).to_set().contains(h));
                    }
                }
            }
        }
        i = i + 1;
    }
    out
}

} // verus!
