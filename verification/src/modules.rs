//! Modules: the handlers that know what to do with each type of object when it is published,
//! stored or queried. An object of a wrapping type (a signed object, a pin) is unwrapped and its
//! inner object is handed to the module of its own type, until no module continues.
use vstd::prelude::*;
use crate::hashing::blake3_digest;
use crate::parser::{parse_typed, parse_typed_spec, ObjectEnum, ObjectEnumV};
use crate::proto::{
    enc_signed, enc_typed, parse_typed_at, GroupObject, PinObject, PlainFileObject,
    ProtoError, SignedObject, SimpleIDQuery, TypedObject, TypedObjectV,
};
use crate::wire::{parse_bytes, parse_uuid};

verus! {

/// The identifier of an object: the BLAKE3 digest of its layout.
pub open spec fn object_id(t: TypedObjectV) -> Seq<u8> {
    blake3_digest(enc_typed(t))
}

/// The objects inside an object are shorter than it.
pub proof fn lemma_parse_typed_shrinks(b: Seq<u8>, pos: int)
    requires
        0 <= pos,
        parse_typed_at(b, pos) is Some,
    ensures
        parse_typed_at(b, pos) matches Some((o, _)) && o.data.len() < b.len(),
{
    let (u, p) = parse_uuid(b, pos).unwrap();
    assert(p > pos);
}

/// Why a module refused an object.
#[derive(Debug, Clone, Copy, PartialEq, Eq, Structural)]
pub enum ModuleError {
    /// The object's bytes do not hold an object of its type.
    Proto(ProtoError),
    /// The object is not of the type the module handles.
    WrongObject,
    /// The outermost stored object must be signed.
    NotSigned,
    /// No module handles the type of the object.
    NoModule,
}

/// The kinds of module there are.
#[derive(Debug, Clone, Copy, PartialEq, Eq, Structural)]
pub enum ModuleKind {
    NoAction,
    PlainFile,
    SimpleIDQuery,
    Signed,
    Pin,
}

/// A module that does nothing with any object.
#[derive(Debug, Clone, Copy)]
pub struct NoActionModule {}

/// The module of plain files.
#[derive(Debug, Clone, Copy)]
pub struct PlainFileObjectModule {}

/// The module of queries for an object by its identifier.
#[derive(Debug, Clone, Copy)]
pub struct SimpleIDQueryModule {}

/// The module of signed objects.
#[derive(Debug, Clone, Copy)]
pub struct SignedObjectModule {}

/// The module of pins.
#[derive(Debug, Clone, Copy)]
pub struct PinObjectModule {}

/// A pin to record in the vault when an object is stored: the pinned object, the outermost
/// signed object, and the relation.
#[derive(Debug, Clone, Copy)]
pub struct PinToStore {
    pub from_object_hash: crate::proto::Hash,
    pub main_object_hash: crate::proto::Hash,
    pub relation_object_hash: Option<crate::proto::Hash>,
}

/// What the modules carry from one to the next when an object is stored.
#[derive(Debug)]
pub struct ModuleStoreParams {
    pub signed_objects_hashes: Vec<crate::proto::Hash>,
    pub object: Option<TypedObject>,
}

/// The type identifiers for which a module of `kind` registers.
pub open spec fn registered_uuids(kind: ModuleKind) -> Seq<u128> {
    match kind {
        ModuleKind::NoAction => seq![],
        ModuleKind::PlainFile => seq![PlainFileObject::UUID],
        ModuleKind::SimpleIDQuery => seq![SimpleIDQuery::UUID],
        ModuleKind::Signed => seq![SignedObject::UUID],
        ModuleKind::Pin => seq![PinObject::UUID],
    }
}

/// What the module `kind` does when `obj` is published: the object to hand on, if any, and the
/// identifiers of the places where the object is to be put.
pub open spec fn publish_step(kind: ModuleKind, obj: TypedObjectV) -> Result<
    (Option<TypedObjectV>, Seq<Seq<u8>>),
    ModuleError,
> {
    match kind {
        ModuleKind::NoAction => Ok((None, seq![])),
        _ => match parse_typed_spec(obj) {
            Err(e) => Err(ModuleError::Proto(e)),
            Ok(v) => match (kind, v) {
                (ModuleKind::PlainFile, ObjectEnumV::PlainFile(_)) => Ok((None, seq![])),
                (ModuleKind::SimpleIDQuery, ObjectEnumV::SimpleIDQuery(_)) => Ok((None, seq![])),
                (ModuleKind::Signed, ObjectEnumV::Signed(s)) => Ok(
                    (
                        Some(s.object),
                        seq![object_id(TypedObjectV { uuid: SignedObject::UUID, data: enc_signed(s) })],
                    ),
                ),
                (ModuleKind::Pin, ObjectEnumV::Pin(p)) => Ok((Some(p.object), seq![p.pinned_id])),
                _ => Err(ModuleError::WrongObject),
            },
        },
    }
}

/// What the module `kind` does when `obj` is stored, with the hashes of the signed objects
/// around it: the object to hand on, the hashes after it, and the pin to record, if any.
pub open spec fn store_step(kind: ModuleKind, obj: TypedObjectV, hashes: Seq<Seq<u8>>) -> Result<
    (Option<TypedObjectV>, Seq<Seq<u8>>, Option<(Seq<u8>, Seq<u8>, Option<Seq<u8>>)>),
    ModuleError,
> {
    match kind {
        ModuleKind::NoAction => Ok((None, hashes, None)),
        _ => match parse_typed_spec(obj) {
            Err(e) => Err(ModuleError::Proto(e)),
            Ok(v) => match (kind, v) {
                (ModuleKind::PlainFile, ObjectEnumV::PlainFile(_)) => Ok((None, hashes, None)),
                (ModuleKind::SimpleIDQuery, ObjectEnumV::SimpleIDQuery(_)) => Ok(
                    (None, hashes, None),
                ),
                (ModuleKind::Signed, ObjectEnumV::Signed(s)) => Ok(
                    (Some(s.object), hashes.push(object_id(obj)), None),
                ),
                (ModuleKind::Pin, ObjectEnumV::Pin(p)) => Ok(
                    (Some(p.object), hashes, Some((p.pinned_id, hashes[0], p.relation))),
                ),
                _ => Err(ModuleError::WrongObject),
            },
        },
    }
}

/// An object that the module `kind` hands on is shorter than the one it was given.
pub proof fn lemma_steps_shrink(kind: ModuleKind, obj: TypedObjectV, hashes: Seq<Seq<u8>>)
    ensures
        publish_step(kind, obj) matches Ok((Some(inner), _)) ==> inner.data.len() < obj.data.len(),
        store_step(kind, obj, hashes) matches Ok((Some(inner), _, _)) ==> inner.data.len()
            < obj.data.len(),
{
    if obj.uuid == SignedObject::UUID && parse_typed_at(obj.data, 0) is Some {
        lemma_parse_typed_shrinks(obj.data, 0);
    }
    if obj.uuid == PinObject::UUID {
        if let Ok(ObjectEnumV::Pin(p)) = parse_typed_spec(obj) {
            let (h, q1) = crate::wire::parse_fixed(obj.data, 0, 32).unwrap();
            let (r, q2) = crate::proto::parse_opt_hash(obj.data, q1).unwrap();
            lemma_parse_typed_shrinks(obj.data, q2);
        }
    }
}

impl NoActionModule {
    /// The object goes no further and is put nowhere.
    pub fn publish(&self, object: TypedObject) -> (r: Result<
        (Option<TypedObject>, Option<Vec<crate::proto::Hash>>),
        ModuleError,
    >)
        ensures
            r matches Ok((o, p)) && o is None && p is None,
    {
        Ok((None, None))
    }

    /// The object goes no further.
    pub fn register_module(&self) -> (r: Vec<u128>)
        ensures
            r@ == registered_uuids(ModuleKind::NoAction),
    {
        Vec::new()
    }
}

impl PlainFileObjectModule {
    /// The type identifiers this module handles.
    pub fn register_module(&self) -> (r: Vec<u128>)
        ensures
            r@ == registered_uuids(ModuleKind::PlainFile),
    {
        let mut v = Vec::new();
        v.push(PlainFileObject::UUID);
        v
    }
}

impl SimpleIDQueryModule {
    /// The type identifiers this module handles.
    pub fn register_module(&self) -> (r: Vec<u128>)
        ensures
            r@ == registered_uuids(ModuleKind::SimpleIDQuery),
    {
        let mut v = Vec::new();
        v.push(SimpleIDQuery::UUID);
        v
    }
}

impl SignedObjectModule {
    /// The type identifiers this module handles.
    pub fn register_module(&self) -> (r: Vec<u128>)
        ensures
            r@ == registered_uuids(ModuleKind::Signed),
    {
        let mut v = Vec::new();
        v.push(SignedObject::UUID);
        v
    }
}

impl PinObjectModule {
    /// The type identifiers this module handles.
    pub fn register_module(&self) -> (r: Vec<u128>)
        ensures
            r@ == registered_uuids(ModuleKind::Pin),
    {
        let mut v = Vec::new();
        v.push(PinObject::UUID);
        v
    }
}

/// What an optional object holds.
pub open spec fn opt_obj_view(o: Option<TypedObject>) -> Option<TypedObjectV> {
    match o {
        Some(t) => Some(t@),
        None => None,
    }
}

/// The hashes' bytes.
pub open spec fn hashes_view(h: Seq<crate::proto::Hash>) -> Seq<Seq<u8>> {
    h.map_values(|x: crate::proto::Hash| x.bytes@)
}

/// What the module `kind` does when `object` is published.
pub fn publish_with(kind: ModuleKind, object: TypedObject) -> (r: Result<
    (Option<TypedObject>, Vec<crate::proto::Hash>),
    ModuleError,
>)
    requires
        object.uuid != GroupObject::UUID,
    ensures
        match publish_step(kind, object@) {
            Ok((so, sp)) => r matches Ok((o, p)) && opt_obj_view(o) == so && hashes_view(p@) == sp,
            Err(se) => r matches Err(e) && e == se,
        },
{
    if let ModuleKind::NoAction = kind {
        return Ok((None, Vec::new()));
    }
    match parse_typed(object) {
        Err(e) => Err(ModuleError::Proto(e)),
        Ok(v) => match (kind, v) {
            (ModuleKind::PlainFile, ObjectEnum::PlainFile(_)) => Ok((None, Vec::new())),
            (ModuleKind::SimpleIDQuery, ObjectEnum::SimpleIDQuery(_)) => Ok((None, Vec::new())),
            (ModuleKind::Signed, ObjectEnum::Signed(s)) => {
                let typed = s.into_typed();
                let h = match crate::proto::Hash::try_from_typed_object(&typed) {
                    Ok(h) => h,
                    Err(e) => {
                        return Err(ModuleError::Proto(e));
                    },
                };
                let mut places = Vec::new();
                places.push(h);
                proof {
                    assert(hashes_view(places@) =~= seq![h.bytes@]);
                }
                Ok((Some(s.object), places))
            },
            (ModuleKind::Pin, ObjectEnum::Pin(p)) => {
                let mut places = Vec::new();
                places.push(p.pinned_id);
                proof {
                    assert(hashes_view(places@) =~= seq![p.pinned_id.bytes@]);
                }
                Ok((Some(p.object), places))
            },
            _ => Err(ModuleError::WrongObject),
        },
    }
}

} // verus!

verus! {

/// Adds `h` to `v` unless a hash with the same bytes is already there.
pub fn push_unique(v: &mut Vec<crate::proto::Hash>, h: crate::proto::Hash)
    requires
        hashes_view(old(v)@).no_duplicates(),
    ensures
        hashes_view(final(v)@).no_duplicates(),
        hashes_view(final(v)@).to_set() == hashes_view(old(v)@).to_set().insert(h.bytes@),
        hashes_view(old(v)@).contains(h.bytes@) ==> final(v)@ == old(v)@,
        !hashes_view(old(v)@).contains(h.bytes@) ==> final(v)@ == old(v)@.push(h),
{
    let mut i: usize = 0;
    while i < v.len()
        invariant
            i <= v@.len(),
            v@ == old(v)@,
            hashes_view(old(v)@).no_duplicates(),
            forall|j: int| 0 <= j < i ==> v@[j].bytes@ != h.bytes@,
        decreases v.len() - i,
    {
        if v[i] == h {
            proof {
                assert(hashes_view(v@)[i as int] == h.bytes@);
                assert(hashes_view(v@).to_set() =~= hashes_view(v@).to_set().insert(h.bytes@));
            }
            return;
        }
        i = i + 1;
    }
    proof {
        assert(!hashes_view(v@).contains(h.bytes@)) by {
            if hashes_view(v@).contains(h.bytes@) {
                let k = choose|k: int| 0 <= k < hashes_view(v@).len() && hashes_view(v@)[k] == h.bytes@;
                assert(v@[k].bytes@ == h.bytes@);
            }
        }
    }
    v.push(h);
    proof {
        assert(hashes_view(v@) =~= hashes_view(old(v)@).push(h.bytes@));
        hashes_view(old(v)@).lemma_push_to_set_commute(h.bytes@);
    }
}

} // verus!

verus! {

/// The module installed for the type `u`: the last one installed for it.
pub open spec fn module_for(s: Seq<(u128, ModuleKind)>, u: u128) -> Option<ModuleKind>
    decreases s.len(),
{
    if s.len() == 0 {
        None
    } else if s.last().0 == u {
        Some(s.last().1)
    } else {
        module_for(s.drop_last(), u)
    }
}

/// The places where publishing `obj` puts it, along the chain of modules that unwrap it.
pub open spec fn publish_places(s: Seq<(u128, ModuleKind)>, obj: TypedObjectV) -> Result<
    Set<Seq<u8>>,
    ModuleError,
>
    decreases obj.data.len(),
{
    match module_for(s, obj.uuid) {
        None => Ok(Set::empty()),
        Some(k) => match publish_step(k, obj) {
            Err(e) => Err(e),
            Ok((next, places)) => match next {
                None => Ok(places.to_set()),
                Some(inner) => if inner.data.len() < obj.data.len() {
                    match publish_places(s, inner) {
                        Ok(rest) => Ok(places.to_set().union(rest)),
                        Err(e) => Err(e),
                    }
                } else {
                    Ok(places.to_set())
                },
            },
        },
    }
}

/// A pin to record, as bytes: the pinned object, the outermost signed object, the relation.
pub type PinV = (Seq<u8>, Seq<u8>, Option<Seq<u8>>);

/// The pins that storing `obj` records, along the chain of modules that unwrap it, with the
/// hashes of the signed objects around it; an error where a module refuses, where the
/// outermost object is not signed, or where no module handles an object of the chain.
pub open spec fn store_run(s: Seq<(u128, ModuleKind)>, obj: TypedObjectV, hashes: Seq<Seq<u8>>) -> Result<
    Seq<PinV>,
    ModuleError,
>
    decreases obj.data.len(),
{
    match module_for(s, obj.uuid) {
        None => Err(ModuleError::NoModule),
        Some(k) => match store_step(k, obj, hashes) {
            Err(e) => Err(e),
            Ok((next, h2, pin)) => if h2.len() == 0 {
                Err(ModuleError::NotSigned)
            } else {
                let here: Seq<PinV> = match pin {
                    Some(p) => seq![p],
                    None => seq![],
                };
                match next {
                    None => Ok(here),
                    Some(inner) => if inner.data.len() < obj.data.len() {
                        match store_run(s, inner, h2) {
                            Ok(rest) => Ok(here + rest),
                            Err(e) => Err(e),
                        }
                    } else {
                        Err(ModuleError::NoModule)
                    },
                }
            },
        },
    }
}

/// Storing `obj` would take the first signed object's hash where there is none: the pin
/// module is the first to handle it.
pub open spec fn store_starts_with_pin(s: Seq<(u128, ModuleKind)>, obj: TypedObjectV) -> bool {
    module_for(s, obj.uuid) == Some(ModuleKind::Pin) && parse_typed_spec(obj) matches Ok(
        ObjectEnumV::Pin(_),
    )
}

/// What a pin to store holds.
pub open spec fn pin_view(p: PinToStore) -> PinV {
    (
        p.from_object_hash.bytes@,
        p.main_object_hash.bytes@,
        match p.relation_object_hash {
            Some(h) => Some(h.bytes@),
            None => None,
        },
    )
}

/// The installed modules, by the type of object each handles.
#[derive(Debug)]
pub struct Modules {
    installed_modules: Vec<(u128, ModuleKind)>,
}

impl Modules {
    /// The installed modules, in the order of installation.
    pub closed spec fn installed(&self) -> Seq<(u128, ModuleKind)> {
        self.installed_modules@
    }

    /// Each module is installed for the type it registers.
    pub closed spec fn wf(&self) -> bool {
        forall|i: int|
            0 <= i < self.installed_modules@.len() ==> registered_uuids(
                #[trigger] self.installed_modules@[i].1,
            ) == seq![self.installed_modules@[i].0]
    }

    proof fn lemma_found_is_registered(&self, u: u128)
        requires
            self.wf(),
        ensures
            module_for(self.installed(), u) matches Some(k) ==> registered_uuids(k) == seq![u],
    {
        self.lemma_found_is_registered_in(self.installed_modules@, u);
    }

    proof fn lemma_found_is_registered_in(&self, s: Seq<(u128, ModuleKind)>, u: u128)
        requires
            forall|i: int| 0 <= i < s.len() ==> registered_uuids(#[trigger] s[i].1) == seq![s[i].0],
        ensures
            module_for(s, u) matches Some(k) ==> registered_uuids(k) == seq![u],
        decreases s.len(),
    {
        if s.len() > 0 && s.last().0 != u {
            let t = s.drop_last();
            assert forall|i: int| 0 <= i < t.len() implies registered_uuids(#[trigger] t[i].1)
                == seq![t[i].0] by {
                assert(t[i] == s[i]);
            }
            self.lemma_found_is_registered_in(t, u);
        }
    }

    /// No module installed.
    pub fn new() -> (r: Modules)
        ensures
            r.wf(),
            r.installed().len() == 0,
    {
        Modules { installed_modules: Vec::new() }
    }

    /// Installs the module `kind` for each type it registers; it replaces the module installed
    /// before for that type.
    pub fn install_module(&mut self, kind: ModuleKind)
        requires
            old(self).wf(),
        ensures
            final(self).wf(),
            final(self).installed() == old(self).installed() + registered_uuids(kind).map_values(
                |u: u128| (u, kind),
            ),
    {
        let uuids = match kind {
            ModuleKind::NoAction => NoActionModule {}.register_module(),
            ModuleKind::PlainFile => PlainFileObjectModule {}.register_module(),
            ModuleKind::SimpleIDQuery => SimpleIDQueryModule {}.register_module(),
            ModuleKind::Signed => SignedObjectModule {}.register_module(),
            ModuleKind::Pin => PinObjectModule {}.register_module(),
        };
        let ghost before = self.installed_modules@;
        let mut i: usize = 0;
        while i < uuids.len()
            invariant
                i <= uuids@.len(),
                uuids@ == registered_uuids(kind),
                self.installed_modules@ == before + uuids@.take(i as int).map_values(
                    |u: u128| (u, kind),
                ),
                forall|j: int|
                    0 <= j < before.len() ==> registered_uuids(#[trigger] before[j].1) == seq![
                        before[j].0,
                    ],
            decreases uuids.len() - i,
        {
            self.installed_modules.push((uuids[i], kind));
            i = i + 1;
            proof {
                assert(uuids@.take(i as int) =~= uuids@.take(i - 1).push(uuids@[i - 1]));
                assert(self.installed_modules@ =~= before + uuids@.take(i as int).map_values(
                    |u: u128| (u, kind),
                ));
            }
        }
        proof {
            assert(uuids@.take(uuids@.len() as int) =~= uuids@);
            let s = self.installed_modules@;
            assert forall|j: int| 0 <= j < s.len() implies registered_uuids(#[trigger] s[j].1)
                == seq![s[j].0] by {
                if j >= before.len() {
                    assert(uuids@.len() <= 1);
                    assert(s[j] == (uuids@[j - before.len()], kind));
                }
            }
        }
    }

    /// The modules of signed objects, of queries by identifier and of plain files.
    pub fn install_default(&mut self)
        requires
            old(self).wf(),
        ensures
            final(self).wf(),
            final(self).installed() == old(self).installed() + seq![
                (SignedObject::UUID, ModuleKind::Signed),
                (SimpleIDQuery::UUID, ModuleKind::SimpleIDQuery),
                (PlainFileObject::UUID, ModuleKind::PlainFile),
            ],
    {
        self.install_module(ModuleKind::Signed);
        self.install_module(ModuleKind::SimpleIDQuery);
        self.install_module(ModuleKind::PlainFile);
        proof {
            assert(self.installed() =~= old(self).installed() + seq![
                (SignedObject::UUID, ModuleKind::Signed),
                (SimpleIDQuery::UUID, ModuleKind::SimpleIDQuery),
                (PlainFileObject::UUID, ModuleKind::PlainFile),
            ]);
        }
    }

    /// The module installed for the type `u`.
    pub fn module_for(&self, u: u128) -> (r: Option<ModuleKind>)
        ensures
            r == module_for(self.installed(), u),
    {
        let s = &self.installed_modules;
        let mut i: usize = s.len();
        proof {
            assert(s@.take(s@.len() as int) =~= s@);
        }
        while i > 0
            invariant
                i <= s@.len(),
                s@ == self.installed(),
                module_for(s@, u) == module_for(s@.take(i as int), u),
            decreases i,
        {
            proof {
                assert(s@.take(i as int).drop_last() =~= s@.take(i - 1));
                assert(s@.take(i as int).last() == s@[i - 1]);
            }
            if s[i - 1].0 == u {
                proof {
                    let t = s@.take(i as int);
                    assert(t.len() > 0 && t.last().0 == u);
                    assert(module_for(t, u) == Some(t.last().1));
                }
                return Some(s[i - 1].1);
            }
            i = i - 1;
        }
        None
    }
}

} // verus!

verus! {

/// Adds to `v` each hash of `more` that it does not hold yet.
pub fn extend_unique(v: &mut Vec<crate::proto::Hash>, more: &Vec<crate::proto::Hash>)
    requires
        hashes_view(old(v)@).no_duplicates(),
    ensures
        hashes_view(final(v)@).no_duplicates(),
        hashes_view(final(v)@).to_set() == hashes_view(old(v)@).to_set().union(
            hashes_view(more@).to_set(),
        ),
{
    let mut j: usize = 0;
    while j < more.len()
        invariant
            j <= more@.len(),
            hashes_view(v@).no_duplicates(),
            hashes_view(v@).to_set() == hashes_view(old(v)@).to_set().union(
                hashes_view(more@.take(j as int)).to_set(),
            ),
        decreases more.len() - j,
    {
        push_unique(v, more[j]);
        proof {
            assert(more@.take(j + 1) =~= more@.take(j as int).push(more@[j as int]));
            assert(hashes_view(more@.take(j + 1)) =~= hashes_view(more@.take(j as int)).push(
                more@[j as int].bytes@,
            ));
            hashes_view(more@.take(j as int)).lemma_push_to_set_commute(more@[j as int].bytes@);
            assert(hashes_view(v@).to_set() =~= hashes_view(old(v)@).to_set().union(
                hashes_view(more@.take(j + 1)).to_set(),
            ));
        }
        j = j + 1;
    }
    proof {
        assert(more@.take(more@.len() as int) =~= more@);
    }
}

/// `acc` joined with what the rest of a chain gives.
pub open spec fn join_places(acc: Set<Seq<u8>>, rest: Result<Set<Seq<u8>>, ModuleError>) -> Result<
    Set<Seq<u8>>,
    ModuleError,
> {
    match rest {
        Ok(s) => Ok(acc.union(s)),
        Err(e) => Err(e),
    }
}

impl Modules {
    /// Publishes `object`: hands it from module to module, each unwrapping it, and gathers the
    /// places where it is to be put, each once.
    pub fn publish(&self, object: TypedObject) -> (r: Result<Vec<crate::proto::Hash>, ModuleError>)
        requires
            self.wf(),
        ensures
            match publish_places(self.installed(), object@) {
                Ok(set) => r matches Ok(v) && hashes_view(v@).to_set() == set && hashes_view(
                    v@,
                ).no_duplicates(),
                Err(e) => r matches Err(e2) && e2 == e,
            },
    {
        let ghost orig = object@;
        let mut obj = object;
        let mut places: Vec<crate::proto::Hash> = Vec::new();
        proof {
            assert(hashes_view(places@).to_set() =~= Set::empty());
            assert(Set::<Seq<u8>>::empty().union(Set::empty()) =~= Set::<Seq<u8>>::empty());
            match publish_places(self.installed(), orig) {
                Ok(s) => assert(Set::<Seq<u8>>::empty().union(s) =~= s),
                Err(_) => {},
            }
        }
        loop
            invariant
                self.wf(),
                object@ == orig,
                hashes_view(places@).no_duplicates(),
                publish_places(self.installed(), orig) == join_places(
                    hashes_view(places@).to_set(),
                    publish_places(self.installed(), obj@),
                ),
            decreases obj.data.len(),
        {
            let ghost before = hashes_view(places@).to_set();
            match self.module_for(obj.uuid) {
                None => {
                    proof {
                        assert(publish_places(self.installed(), obj@) == Ok::<
                            Set<Seq<u8>>,
                            ModuleError,
                        >(Set::empty()));
                        assert(before.union(Set::empty()) =~= before);
                        assert(publish_places(self.installed(), orig) == Ok::<
                            Set<Seq<u8>>,
                            ModuleError,
                        >(before));
                    }
                    return Ok(places);
                },
                Some(k) => {
                    proof {
                        self.lemma_found_is_registered(obj.uuid);
                        lemma_steps_shrink(k, obj@, seq![]);
                        assert(registered_uuids(k)[0] == obj.uuid);
                        match k {
                            ModuleKind::NoAction => {
                                assert(registered_uuids(k).len() == 0);
                                assert(seq![obj.uuid].len() == 1);
                            },
                            ModuleKind::PlainFile => assert(obj.uuid == PlainFileObject::UUID),
                            ModuleKind::SimpleIDQuery => assert(obj.uuid == SimpleIDQuery::UUID),
                            ModuleKind::Signed => assert(obj.uuid == SignedObject::UUID),
                            ModuleKind::Pin => assert(obj.uuid == PinObject::UUID),
                        }
                        assert(obj.uuid != GroupObject::UUID);
                    }
                    let ghost prev = obj@;
                    match publish_with(k, obj) {
                        Err(e) => {
                            return Err(e);
                        },
                        Ok((next, ps)) => {
                            extend_unique(&mut places, &ps);
                            match next {
                                None => {
                                    proof {
                                        assert(publish_places(self.installed(), prev) == Ok::<
                                            Set<Seq<u8>>,
                                            ModuleError,
                                        >(hashes_view(ps@).to_set()));
                                    }
                                    return Ok(places);
                                },
                                Some(inner) => {
                                    proof {
                                        let here = hashes_view(ps@).to_set();
                                        match publish_places(self.installed(), inner@) {
                                            Ok(rest) => {
                                                assert(before.union(here.union(rest)) =~= before.union(
                                                    here,
                                                ).union(rest));
                                            },
                                            Err(_) => {},
                                        }
                                    }
                                    obj = inner;
                                },
                            }
                        },
                    }
                },
            }
        }
    }
}

} // verus!

verus! {

/// What an optional pin to store holds.
pub open spec fn opt_pin_view(p: Option<PinToStore>) -> Option<PinV> {
    match p {
        Some(x) => Some(pin_view(x)),
        None => None,
    }
}

/// What the module `kind` does when `object` is stored, with `hashes` the hashes of the signed
/// objects around it: hands on the inner object, if any, and says which pin to record.
pub fn store_with(kind: ModuleKind, object: TypedObject, hashes: &mut Vec<crate::proto::Hash>) -> (r:
    Result<(Option<TypedObject>, Option<PinToStore>), ModuleError>)
    requires
        object.uuid != GroupObject::UUID,
        (kind == ModuleKind::Pin && (parse_typed_spec(object@) matches Ok(ObjectEnumV::Pin(_))))
            ==> old(hashes)@.len() > 0,
    ensures
        match store_step(kind, object@, hashes_view(old(hashes)@)) {
            Ok((next, h2, pin)) => r matches Ok((o, p)) && opt_obj_view(o) == next && hashes_view(
                final(hashes)@,
            ) == h2 && opt_pin_view(p) == pin,
            Err(e) => r matches Err(e2) && e2 == e,
        },
{
    if let ModuleKind::NoAction = kind {
        return Ok((None, None));
    }
    let id = match crate::proto::Hash::try_from_typed_object(&object) {
        Ok(h) => h,
        Err(e) => {
            return Err(ModuleError::Proto(e));
        },
    };
    let ghost obj = object@;
    match parse_typed(object) {
        Err(e) => Err(ModuleError::Proto(e)),
        Ok(v) => match (kind, v) {
            (ModuleKind::PlainFile, ObjectEnum::PlainFile(_)) => Ok((None, None)),
            (ModuleKind::SimpleIDQuery, ObjectEnum::SimpleIDQuery(_)) => Ok((None, None)),
            (ModuleKind::Signed, ObjectEnum::Signed(s)) => {
                hashes.push(id);
                proof {
                    assert(hashes_view(hashes@) =~= hashes_view(old(hashes)@).push(object_id(obj)));
                }
                Ok((Some(s.object), None))
            },
            (ModuleKind::Pin, ObjectEnum::Pin(p)) => {
                let main = hashes[0];
                let pin = PinToStore {
                    from_object_hash: p.pinned_id,
                    main_object_hash: main,
                    relation_object_hash: p.relation,
                };
                Ok((Some(p.object), Some(pin)))
            },
            _ => Err(ModuleError::WrongObject),
        },
    }
}

/// `acc` followed by what the rest of a chain gives.
pub open spec fn join_pins(acc: Seq<PinV>, rest: Result<Seq<PinV>, ModuleError>) -> Result<
    Seq<PinV>,
    ModuleError,
> {
    match rest {
        Ok(s) => Ok(acc + s),
        Err(e) => Err(e),
    }
}

impl Modules {
    /// Stores `object`: hands it from module to module, each unwrapping it, and gathers the pins
    /// to record. The outermost object must be signed. Where no module handles an object of the
    /// chain, this is an error.
    pub fn store(&self, object: TypedObject) -> (r: Result<Vec<PinToStore>, ModuleError>)
        requires
            self.wf(),
            !store_starts_with_pin(self.installed(), object@),
        ensures
            match store_run(self.installed(), object@, seq![]) {
                Ok(pins) => r matches Ok(v) && v@.map_values(|p: PinToStore| pin_view(p)) == pins,
                Err(e) => r matches Err(e2) && e2 == e,
            },
    {
        let ghost orig = object@;
        let mut obj = object;
        let mut hashes: Vec<crate::proto::Hash> = Vec::new();
        let mut pins: Vec<PinToStore> = Vec::new();
        proof {
            assert(hashes_view(hashes@) =~= Seq::<Seq<u8>>::empty());
            match store_run(self.installed(), orig, seq![]) {
                Ok(s) => assert(Seq::<PinV>::empty() + s =~= s),
                Err(_) => {},
            }
        }
        loop
            invariant
                self.wf(),
                object@ == orig,
                !store_starts_with_pin(self.installed(), orig),
                hashes@.len() == 0 ==> obj@ == orig,
                store_run(self.installed(), orig, seq![]) == join_pins(
                    pins@.map_values(|p: PinToStore| pin_view(p)),
                    store_run(self.installed(), obj@, hashes_view(hashes@)),
                ),
            decreases obj.data.len(),
        {
            let ghost acc = pins@.map_values(|p: PinToStore| pin_view(p));
            let ghost hv = hashes_view(hashes@);
            let ghost prev = obj@;
            match self.module_for(obj.uuid) {
                None => {
                    return Err(ModuleError::NoModule);
                },
                Some(k) => {
                    proof {
                        self.lemma_found_is_registered(obj.uuid);
                        lemma_steps_shrink(k, obj@, hv);
                        assert(registered_uuids(k)[0] == obj.uuid);
                        match k {
                            ModuleKind::NoAction => {
                                assert(registered_uuids(k).len() == 0);
                                assert(seq![obj.uuid].len() == 1);
                            },
                            ModuleKind::PlainFile => assert(obj.uuid == PlainFileObject::UUID),
                            ModuleKind::SimpleIDQuery => assert(obj.uuid == SimpleIDQuery::UUID),
                            ModuleKind::Signed => assert(obj.uuid == SignedObject::UUID),
                            ModuleKind::Pin => assert(obj.uuid == PinObject::UUID),
                        }
                    }
                    match store_with(k, obj, &mut hashes) {
                        Err(e) => {
                            return Err(e);
                        },
                        Ok((next, pin)) => {
                            if hashes.len() == 0 {
                                return Err(ModuleError::NotSigned);
                            }
                            let ghost here: Seq<PinV> = match pin {
                                Some(p) => seq![pin_view(p)],
                                None => seq![],
                            };
                            match pin {
                                Some(p) => {
                                    pins.push(p);
                                },
                                None => {},
                            }
                            proof {
                                assert(pins@.map_values(|p: PinToStore| pin_view(p)) =~= acc + here);
                            }
                            match next {
                                None => {
                                    proof {
                                        assert(acc + here + Seq::<PinV>::empty() =~= acc + here);
                                    }
                                    return Ok(pins);
                                },
                                Some(inner) => {
                                    proof {
                                        match store_run(self.installed(), inner@, hashes_view(
                                            hashes@,
                                        )) {
                                            Ok(rest) => {
                                                assert(acc + (here + rest) =~= acc + here + rest);
                                            },
                                            Err(_) => {},
                                        }
                                    }
                                    obj = inner;
                                },
                            }
                        },
                    }
                },
            }
        }
    }
}

} // verus!

verus! {

/// What the modules carry from one to the next when a query is answered: the query object
/// still to handle, the identifiers matched so far (`None`: no module has matched yet), and
/// the objects to answer with.
#[derive(Debug)]
pub struct ModuleQueryParams {
    pub object: Option<TypedObject>,
    pub matched_object_id: Option<Vec<crate::proto::Hash>>,
    pub return_objects: Vec<TypedObject>,
}

/// What checking the key of a public key encoded as `public` against the signed object `s`
/// gives: whether the signature holds, or why it cannot be checked.
pub open spec fn key_check(public: Seq<u8>, s: crate::proto::SignedObjectV) -> Result<bool, ProtoError> {
    match parse_bytes(public, 0) {
        None => Err(ProtoError::Malformed),
        Some((pk, _)) => match crate::identity::signature_check(
            pk,
            enc_typed(s.object),
            s.signature,
        ) {
            None => Err(ProtoError::InvalidPublicKey),
            Some(b) => Ok(b),
        },
    }
}

/// A signed object whose inner object is a group object (which cannot be read).
pub open spec fn wraps_group(obj: TypedObjectV) -> bool {
    parse_typed_spec(obj) matches Ok(ObjectEnumV::Signed(s)) && s.object.uuid == GroupObject::UUID
}

/// What the signed-object module makes of a query `obj`: it must be a signed request to delete
/// an object; `None` where the request's signature does not hold, else the request.
pub open spec fn delete_request(obj: TypedObjectV) -> Result<
    Option<crate::proto::DeleteObjectQueryV>,
    ModuleError,
> {
    match parse_typed_spec(obj) {
        Err(e) => Err(ModuleError::Proto(e)),
        Ok(ObjectEnumV::Signed(s)) => match parse_typed_spec(s.object) {
            Err(e) => Err(ModuleError::Proto(e)),
            Ok(ObjectEnumV::DeleteObject(del)) => match key_check(del.verification_key_ed25519, s) {
                Err(e) => Err(ModuleError::Proto(e)),
                Ok(false) => Ok(None),
                Ok(true) => Ok(Some(del)),
            },
            Ok(_) => Err(ModuleError::WrongObject),
        },
        Ok(_) => Err(ModuleError::WrongObject),
    }
}

/// Whether the stored object `stored` may be deleted on the request `del`: it must be a signed
/// object whose signature holds under the request's key.
pub open spec fn delete_allowed(del: crate::proto::DeleteObjectQueryV, stored: Option<TypedObjectV>) -> Result<
    bool,
    ModuleError,
> {
    match stored {
        None => Ok(false),
        Some(t) => match parse_typed_spec(t) {
            Err(e) => Err(ModuleError::Proto(e)),
            Ok(ObjectEnumV::Signed(s)) => match key_check(del.verification_key_ed25519, s) {
                Err(e) => Err(ModuleError::Proto(e)),
                Ok(b) => Ok(b),
            },
            Ok(_) => Ok(false),
        },
    }
}

/// The answer object of an outcome.
pub open spec fn result_object(ok: bool) -> TypedObjectV {
    TypedObjectV {
        uuid: crate::proto::ResultObject::UUID,
        data: crate::proto::enc_result(
            if ok {
                Ok(())
            } else {
                Err(())
            },
        ),
    }
}

/// The answer object of an outcome.
pub fn make_result_object(ok: bool) -> (t: TypedObject)
    ensures
        t@ == result_object(ok),
{
    let r = if ok {
        crate::proto::ResultObject { result: Ok(()) }
    } else {
        crate::proto::ResultObject { result: Err(()) }
    };
    r.into_typed()
}

/// What the signed-object module decided of a delete request.
#[derive(Debug)]
pub enum SignedQueryStep {
    /// The request's signature does not hold: the answer says so and nothing is deleted.
    Rejected(ModuleQueryParams),
    /// The request is signed by its key: the stored object it names is to be looked up.
    LookUp(ModuleQueryParams, crate::proto::DeleteObjectQuery),
}

impl NoActionModule {
    /// The query goes no further.
    pub fn query(&self, params: ModuleQueryParams) -> (r: ModuleQueryParams)
        ensures
            r.object is None,
            r.matched_object_id == params.matched_object_id,
            r.return_objects@ == params.return_objects@,
    {
        ModuleQueryParams {
            object: None,
            matched_object_id: params.matched_object_id,
            return_objects: params.return_objects,
        }
    }
}

impl PlainFileObjectModule {
    /// A plain file is no query: it goes no further and matches nothing more.
    pub fn query(&self, params: ModuleQueryParams) -> (r: Result<ModuleQueryParams, ModuleError>)
        requires
            params.object matches Some(o) && o.uuid != GroupObject::UUID,
        ensures
            match parse_typed_spec(params.object.unwrap()@) {
                Ok(ObjectEnumV::PlainFile(_)) => r matches Ok(p) && p.object is None
                    && p.matched_object_id == params.matched_object_id && p.return_objects@
                    == params.return_objects@,
                Ok(_) => r == Err::<ModuleQueryParams, ModuleError>(ModuleError::WrongObject),
                Err(e) => r == Err::<ModuleQueryParams, ModuleError>(ModuleError::Proto(e)),
            },
    {
        let ModuleQueryParams { object, matched_object_id, return_objects } = params;
        match object {
            None => Err(ModuleError::WrongObject),
            Some(o) => match parse_typed(o) {
                Err(e) => Err(ModuleError::Proto(e)),
                Ok(ObjectEnum::PlainFile(_)) => Ok(
                    ModuleQueryParams { object: None, matched_object_id, return_objects },
                ),
                Ok(_) => Err(ModuleError::WrongObject),
            },
        }
    }
}

impl SimpleIDQueryModule {
    /// A query for one identifier matches exactly that identifier.
    pub fn query(&self, params: ModuleQueryParams) -> (r: Result<ModuleQueryParams, ModuleError>)
        requires
            params.object matches Some(o) && o.uuid != GroupObject::UUID,
        ensures
            match parse_typed_spec(params.object.unwrap()@) {
                Ok(ObjectEnumV::SimpleIDQuery(id)) => r matches Ok(p) && p.object is None
                    && p.return_objects@ == params.return_objects@ && (
                p.matched_object_id matches Some(m) && hashes_view(m@) == seq![id]),
                Ok(_) => r == Err::<ModuleQueryParams, ModuleError>(ModuleError::WrongObject),
                Err(e) => r == Err::<ModuleQueryParams, ModuleError>(ModuleError::Proto(e)),
            },
    {
        let ModuleQueryParams { object, matched_object_id, return_objects } = params;
        match object {
            None => Err(ModuleError::WrongObject),
            Some(o) => match parse_typed(o) {
                Err(e) => Err(ModuleError::Proto(e)),
                Ok(ObjectEnum::SimpleIDQuery(q)) => {
                    let mut m = Vec::new();
                    m.push(q.id);
                    proof {
                        assert(hashes_view(m@) =~= seq![q.id.bytes@]);
                    }
                    Ok(ModuleQueryParams { object: None, matched_object_id: Some(m), return_objects })
                },
                Ok(_) => Err(ModuleError::WrongObject),
            },
        }
    }
}

impl SignedObjectModule {
    /// Reads a query that is a signed request to delete an object, and checks the request's
    /// signature under the key it names.
    pub fn query(&self, params: ModuleQueryParams) -> (r: Result<SignedQueryStep, ModuleError>)
        requires
            params.object matches Some(o) && o.uuid != GroupObject::UUID && !wraps_group(o@),
        ensures
            match delete_request(params.object.unwrap()@) {
                Err(e) => r matches Err(e2) && e2 == e,
                Ok(None) => r matches Ok(SignedQueryStep::Rejected(p)) && p.object is None
                    && p.matched_object_id == params.matched_object_id && p.return_objects@.len()
                    == params.return_objects@.len() + 1 && p.return_objects@.take(
                    params.return_objects@.len() as int,
                ) == params.return_objects@ && p.return_objects@.last()@ == result_object(false),
                Ok(Some(del)) => r matches Ok(SignedQueryStep::LookUp(p, d)) && d@ == del
                    && p.object is None && p.matched_object_id == params.matched_object_id
                    && p.return_objects@ == params.return_objects@,
            },
    {
        let ModuleQueryParams { object, matched_object_id, return_objects } = params;
        let o = match object {
            None => {
                return Err(ModuleError::WrongObject);
            },
            Some(o) => o,
        };
        let signed = match parse_typed(o) {
            Err(e) => {
                return Err(ModuleError::Proto(e));
            },
            Ok(ObjectEnum::Signed(s)) => s,
            Ok(_) => {
                return Err(ModuleError::WrongObject);
            },
        };
        let inner = signed.object.clone();
        let del = match parse_typed(inner) {
            Err(e) => {
                return Err(ModuleError::Proto(e));
            },
            Ok(ObjectEnum::DeleteObject(d)) => d,
            Ok(_) => {
                return Err(ModuleError::WrongObject);
            },
        };
        match signed.verify_ed25519(&del.verification_key_ed25519) {
            Err(e) => Err(ModuleError::Proto(e)),
            Ok(false) => {
                let mut return_objects = return_objects;
                let ghost before = return_objects@;
                return_objects.push(make_result_object(false));
                proof {
                    assert(return_objects@.take(before.len() as int) =~= before);
                }
                Ok(
                    SignedQueryStep::Rejected(
                        ModuleQueryParams { object: None, matched_object_id, return_objects },
                    ),
                )
            },
            Ok(true) => Ok(
                SignedQueryStep::LookUp(
                    ModuleQueryParams { object: None, matched_object_id, return_objects },
                    del,
                ),
            ),
        }
    }

    /// Finishes a delete request once the stored object it names has been looked up: the
    /// object is to be deleted (its identifier is returned) only where it is a signed object
    /// whose signature holds under the request's key; the answer says which.
    pub fn finish_delete(
        params: ModuleQueryParams,
        del: &crate::proto::DeleteObjectQuery,
        stored: Option<TypedObject>,
    ) -> (r: Result<(ModuleQueryParams, Option<crate::proto::Hash>), ModuleError>)
        requires
            stored matches Some(t) ==> (t.uuid != GroupObject::UUID && !wraps_group(t@)),
        ensures
            match delete_allowed(del@, opt_obj_view(stored)) {
                Err(e) => r matches Err(e2) && e2 == e,
                Ok(b) => r matches Ok((p, d)) && (b ==> (d matches Some(h) && h.bytes@ == del@.id))
                    && (!b ==> d is None) && p.object is None && p.matched_object_id
                    == params.matched_object_id && p.return_objects@ == params.return_objects@.push(
                    p.return_objects@.last(),
                ) && p.return_objects@.last()@ == result_object(b),
            },
    {
        let allowed = match stored {
            None => false,
            Some(t) => match parse_typed(t) {
                Err(e) => {
                    return Err(ModuleError::Proto(e));
                },
                Ok(ObjectEnum::Signed(s)) => match s.verify_ed25519(&del.verification_key_ed25519) {
                    Err(e) => {
                        return Err(ModuleError::Proto(e));
                    },
                    Ok(b) => b,
                },
                Ok(_) => false,
            },
        };
        let ModuleQueryParams { object: _, matched_object_id, return_objects } = params;
        let mut return_objects = return_objects;
        return_objects.push(make_result_object(allowed));
        let target = if allowed {
            Some(del.id)
        } else {
            None
        };
        Ok((ModuleQueryParams { object: None, matched_object_id, return_objects }, target))
    }
}

/// Only an object signed under the key of a delete request is ever deleted on it.
pub proof fn lemma_delete_only_owner(
    del: crate::proto::DeleteObjectQueryV,
    stored: TypedObjectV,
)
    requires
        delete_allowed(del, Some(stored)) == Ok::<bool, ModuleError>(true),
    ensures
        parse_typed_spec(stored) matches Ok(ObjectEnumV::Signed(s)) && parse_bytes(
            del.verification_key_ed25519,
            0,
        ) matches Some((pk, _)) && crate::identity::signature_check(
            pk,
            enc_typed(s.object),
            s.signature,
        ) == Some(true),
{
}

} // verus!

verus! {

/// The matched identifiers, as bytes.
pub open spec fn matched_view(m: Option<Vec<crate::proto::Hash>>) -> Option<Seq<Seq<u8>>> {
    match m {
        Some(v) => Some(hashes_view(v@)),
        None => None,
    }
}

/// What answering a query does next.
#[derive(Debug)]
pub enum QueryStep {
    /// The query is answered by the objects with these identifiers.
    Done(Vec<crate::proto::Hash>),
    /// Hand the query on to the module of its next object.
    Continue(ModuleQueryParams),
    /// Look the object of this delete request up in the vault, then finish it with
    /// `SignedObjectModule::finish_delete`.
    LookUpForDelete(ModuleQueryParams, crate::proto::DeleteObjectQuery),
    /// Find in the vault the pins from `from` (with the relation, among `main` where it is
    /// given), then finish with `PinObjectModule::finish_query`.
    MatchPins {
        params: ModuleQueryParams,
        main: Option<Vec<crate::proto::Hash>>,
        from: crate::proto::Hash,
        relation: Option<crate::proto::Hash>,
    },
}

/// The step after a module that left no object and the matches `m`: the query ends with no
/// object where `m` is an empty match, and goes on otherwise.
pub open spec fn ends_or_goes_on(
    r: Result<QueryStep, ModuleError>,
    m: Option<Vec<crate::proto::Hash>>,
    answers: Seq<TypedObjectV>,
) -> bool {
    if m matches Some(v) && v@.len() == 0 {
        r matches Ok(QueryStep::Done(w)) && w@.len() == 0
    } else {
        r matches Ok(QueryStep::Continue(p)) && p.object is None && p.matched_object_id == m
            && objects_view(p.return_objects@) == answers
    }
}

/// What the objects hold.
pub open spec fn objects_view(s: Seq<TypedObject>) -> Seq<TypedObjectV> {
    s.map_values(|t: TypedObject| t@)
}

/// What comes after a module answered: an empty match ends the query with no object.
pub fn after_module(params: ModuleQueryParams) -> (r: QueryStep)
    ensures
        (params.matched_object_id matches Some(m) && m@.len() == 0) ==> (r matches QueryStep::Done(
            v,
        ) && v@.len() == 0),
        !(params.matched_object_id matches Some(m) && m@.len() == 0) ==> (r matches QueryStep::Continue(
            p,
        ) && p.object == params.object && p.matched_object_id == params.matched_object_id
            && p.return_objects@ == params.return_objects@),
{
    let empty = match &params.matched_object_id {
        Some(m) => m.len() == 0,
        None => false,
    };
    if empty {
        QueryStep::Done(Vec::new())
    } else {
        QueryStep::Continue(params)
    }
}

impl PinObjectModule {
    /// Finishes a pin query once the vault found the matching pins: they are what the query
    /// matches so far, and the pin's inner object goes on.
    pub fn finish_query(params: ModuleQueryParams, matching: Vec<crate::proto::Hash>) -> (r:
        ModuleQueryParams)
        ensures
            r.object == params.object,
            r.matched_object_id == Some(matching),
            r.return_objects@ == params.return_objects@,
    {
        ModuleQueryParams {
            object: params.object,
            matched_object_id: Some(matching),
            return_objects: params.return_objects,
        }
    }
}

impl Modules {
    /// The start of answering the query `object`: nothing matched, nothing to answer yet.
    pub fn query_start(object: TypedObject) -> (r: ModuleQueryParams)
        ensures
            opt_obj_view(r.object) == Some(object@),
            r.matched_object_id is None,
            r.return_objects@.len() == 0,
    {
        ModuleQueryParams { object: Some(object), matched_object_id: None, return_objects: Vec::new() }
    }

    /// One step of answering a query: the module of the query's object handles it. With no
    /// object left, the query is answered by what it matched. Where no module handles the
    /// object, this is an error.
    pub fn query_step(&self, params: ModuleQueryParams) -> (r: Result<QueryStep, ModuleError>)
        requires
            self.wf(),
            params.object matches Some(o) ==> !wraps_group(o@),
        ensures
            params.object is None ==> (r matches Ok(QueryStep::Done(v)) && match params.matched_object_id {
                Some(m) => v@ == m@,
                None => v@.len() == 0,
            }),
            params.object matches Some(o) ==> match module_for(self.installed(), o.uuid) {
                None => r == Err::<QueryStep, ModuleError>(ModuleError::NoModule),
                Some(ModuleKind::SimpleIDQuery) => match parse_typed_spec(o@) {
                    Ok(ObjectEnumV::SimpleIDQuery(id)) => r matches Ok(QueryStep::Continue(p))
                        && p.object is None && matched_view(p.matched_object_id) == Some(seq![id])
                        && p.return_objects@ == params.return_objects@,
                    _ => r is Err,
                },
                Some(ModuleKind::Signed) => match delete_request(o@) {
                    Err(e) => r == Err::<QueryStep, ModuleError>(e),
                    Ok(Some(del)) => r matches Ok(QueryStep::LookUpForDelete(p, d)) && d@ == del
                        && p.object is None && p.matched_object_id == params.matched_object_id
                        && p.return_objects@ == params.return_objects@,
                    Ok(None) => ends_or_goes_on(
                        r,
                        params.matched_object_id,
                        objects_view(params.return_objects@).push(result_object(false)),
                    ),
                },
                Some(ModuleKind::Pin) => match parse_typed_spec(o@) {
                    Ok(ObjectEnumV::Pin(pin)) => r matches Ok(QueryStep::MatchPins { params: p, main, from, relation })
                        && opt_obj_view(p.object) == Some(pin.object) && from.bytes@ == pin.pinned_id
                        && crate::proto::opt_hash_view(relation) == pin.relation && main
                        == params.matched_object_id && p.return_objects@ == params.return_objects@,
                    Ok(_) => r == Err::<QueryStep, ModuleError>(ModuleError::WrongObject),
                    Err(e) => r == Err::<QueryStep, ModuleError>(ModuleError::Proto(e)),
                },
                Some(ModuleKind::NoAction) => ends_or_goes_on(
                    r,
                    params.matched_object_id,
                    objects_view(params.return_objects@),
                ),
                Some(ModuleKind::PlainFile) => match parse_typed_spec(o@) {
                    Ok(ObjectEnumV::PlainFile(_)) => ends_or_goes_on(
                        r,
                        params.matched_object_id,
                        objects_view(params.return_objects@),
                    ),
                    Ok(_) => r == Err::<QueryStep, ModuleError>(ModuleError::WrongObject),
                    Err(e) => r == Err::<QueryStep, ModuleError>(ModuleError::Proto(e)),
                },
            },
    {
        let o = match &params.object {
            None => {
                let ModuleQueryParams { object: _, matched_object_id, return_objects: _ } = params;
                return Ok(
                    QueryStep::Done(
                        match matched_object_id {
                            Some(m) => m,
                            None => Vec::new(),
                        },
                    ),
                );
            },
            Some(o) => o,
        };
        let kind = match self.module_for(o.uuid) {
            None => {
                return Err(ModuleError::NoModule);
            },
            Some(k) => k,
        };
        proof {
            self.lemma_found_is_registered(o.uuid);
            assert(registered_uuids(kind)[0] == o.uuid);
            match kind {
                ModuleKind::NoAction => {
                    assert(registered_uuids(kind).len() == 0);
                    assert(seq![o.uuid].len() == 1);
                },
                ModuleKind::PlainFile => assert(o.uuid == PlainFileObject::UUID),
                ModuleKind::SimpleIDQuery => assert(o.uuid == SimpleIDQuery::UUID),
                ModuleKind::Signed => assert(o.uuid == SignedObject::UUID),
                ModuleKind::Pin => assert(o.uuid == PinObject::UUID),
            }
        }
        match kind {
            ModuleKind::NoAction => {
                let m = NoActionModule {};
                Ok(after_module(m.query(params)))
            },
            ModuleKind::PlainFile => {
                let m = PlainFileObjectModule {};
                match m.query(params) {
                Ok(p) => Ok(after_module(p)),
                Err(e) => Err(e),
            }},
            ModuleKind::SimpleIDQuery => {
                let m = SimpleIDQueryModule {};
                match m.query(params) {
                Ok(p) => {
                    proof {
                        assert(p.matched_object_id matches Some(v) && hashes_view(v@).len() == v@.len());
                    }
                    Ok(after_module(p))
                },
                Err(e) => Err(e),
            }},
            ModuleKind::Signed => {
                let ghost before = params.return_objects@;
                let m = SignedObjectModule {};
                match m.query(params) {
                Ok(SignedQueryStep::Rejected(p)) => {
                    proof {
                        let after = p.return_objects@;
                        assert forall|i: int| 0 <= i < before.len() implies after[i] == before[i] by {
                            assert(after.take(before.len() as int)[i] == after[i]);
                        }
                        assert(objects_view(after) =~= objects_view(before).push(result_object(false)));
                    }
                    Ok(after_module(p))
                },
                Ok(SignedQueryStep::LookUp(p, d)) => Ok(QueryStep::LookUpForDelete(p, d)),
                Err(e) => Err(e),
            }},
            ModuleKind::Pin => {
                let ModuleQueryParams { object, matched_object_id, return_objects } = params;
                let obj = match object {
                    Some(x) => x,
                    None => {
                        return Err(ModuleError::WrongObject);
                    },
                };
                match parse_typed(obj) {
                    Err(e) => Err(ModuleError::Proto(e)),
                    Ok(ObjectEnum::Pin(pin)) => Ok(
                        QueryStep::MatchPins {
                            params: ModuleQueryParams {
                                object: Some(pin.object),
                                matched_object_id: None,
                                return_objects,
                            },
                            main: matched_object_id,
                            from: pin.pinned_id,
                            relation: pin.relation,
                        },
                    ),
                    Ok(_) => Err(ModuleError::WrongObject),
                }
            },
        }
    }
}

} // verus!

verus! {

impl NoActionModule {
    /// The object goes no further; the hashes stay as they are.
    pub fn store(&self, params: ModuleStoreParams) -> (r: ModuleStoreParams)
        ensures
            r.object is None,
            r.signed_objects_hashes@ == params.signed_objects_hashes@,
    {
        ModuleStoreParams { object: None, signed_objects_hashes: params.signed_objects_hashes }
    }
}

impl PlainFileObjectModule {
    /// A plain file goes no further and is put nowhere.
    pub fn publish(&self, object: TypedObject) -> (r: Result<
        (Option<TypedObject>, Vec<crate::proto::Hash>),
        ModuleError,
    >)
        requires
            object.uuid != GroupObject::UUID,
        ensures
            match publish_step(ModuleKind::PlainFile, object@) {
                Ok((so, sp)) => r matches Ok((o, p)) && opt_obj_view(o) == so && hashes_view(p@)
                    == sp,
                Err(se) => r matches Err(e) && e == se,
            },
    {
        publish_with(ModuleKind::PlainFile, object)
    }

    /// A plain file is stored as it is: nothing is handed on.
    pub fn store(&self, object: TypedObject, hashes: &mut Vec<crate::proto::Hash>) -> (r: Result<
        (Option<TypedObject>, Option<PinToStore>),
        ModuleError,
    >)
        requires
            object.uuid != GroupObject::UUID,
        ensures
            match store_step(ModuleKind::PlainFile, object@, hashes_view(old(hashes)@)) {
                Ok((next, h2, pin)) => r matches Ok((o, p)) && opt_obj_view(o) == next
                    && hashes_view(final(hashes)@) == h2 && opt_pin_view(p) == pin,
                Err(e) => r matches Err(e2) && e2 == e,
            },
    {
        store_with(ModuleKind::PlainFile, object, hashes)
    }
}

impl SimpleIDQueryModule {
    /// A query goes no further and is put nowhere.
    pub fn publish(&self, object: TypedObject) -> (r: Result<
        (Option<TypedObject>, Vec<crate::proto::Hash>),
        ModuleError,
    >)
        requires
            object.uuid != GroupObject::UUID,
        ensures
            match publish_step(ModuleKind::SimpleIDQuery, object@) {
                Ok((so, sp)) => r matches Ok((o, p)) && opt_obj_view(o) == so && hashes_view(p@)
                    == sp,
                Err(se) => r matches Err(e) && e == se,
            },
    {
        publish_with(ModuleKind::SimpleIDQuery, object)
    }

    /// A query is stored as it is: nothing is handed on.
    pub fn store(&self, object: TypedObject, hashes: &mut Vec<crate::proto::Hash>) -> (r: Result<
        (Option<TypedObject>, Option<PinToStore>),
        ModuleError,
    >)
        requires
            object.uuid != GroupObject::UUID,
        ensures
            match store_step(ModuleKind::SimpleIDQuery, object@, hashes_view(old(hashes)@)) {
                Ok((next, h2, pin)) => r matches Ok((o, p)) && opt_obj_view(o) == next
                    && hashes_view(final(hashes)@) == h2 && opt_pin_view(p) == pin,
                Err(e) => r matches Err(e2) && e2 == e,
            },
    {
        store_with(ModuleKind::SimpleIDQuery, object, hashes)
    }
}

impl SignedObjectModule {
    /// A signed object is put at its own identifier, and its inner object goes on.
    pub fn publish(&self, object: TypedObject) -> (r: Result<
        (Option<TypedObject>, Vec<crate::proto::Hash>),
        ModuleError,
    >)
        requires
            object.uuid != GroupObject::UUID,
        ensures
            match publish_step(ModuleKind::Signed, object@) {
                Ok((so, sp)) => r matches Ok((o, p)) && opt_obj_view(o) == so && hashes_view(p@)
                    == sp,
                Err(se) => r matches Err(e) && e == se,
            },
    {
        publish_with(ModuleKind::Signed, object)
    }

    /// A signed object adds its identifier to the hashes, and its inner object goes on.
    pub fn store(&self, object: TypedObject, hashes: &mut Vec<crate::proto::Hash>) -> (r: Result<
        (Option<TypedObject>, Option<PinToStore>),
        ModuleError,
    >)
        requires
            object.uuid != GroupObject::UUID,
        ensures
            match store_step(ModuleKind::Signed, object@, hashes_view(old(hashes)@)) {
                Ok((next, h2, pin)) => r matches Ok((o, p)) && opt_obj_view(o) == next
                    && hashes_view(final(hashes)@) == h2 && opt_pin_view(p) == pin,
                Err(e) => r matches Err(e2) && e2 == e,
            },
    {
        store_with(ModuleKind::Signed, object, hashes)
    }
}

impl PinObjectModule {
    /// A pin is put at the object it pins, and its inner object goes on.
    pub fn publish(&self, object: TypedObject) -> (r: Result<
        (Option<TypedObject>, Vec<crate::proto::Hash>),
        ModuleError,
    >)
        requires
            object.uuid != GroupObject::UUID,
        ensures
            match publish_step(ModuleKind::Pin, object@) {
                Ok((so, sp)) => r matches Ok((o, p)) && opt_obj_view(o) == so && hashes_view(p@)
                    == sp,
                Err(se) => r matches Err(e) && e == se,
            },
    {
        publish_with(ModuleKind::Pin, object)
    }

    /// A pin, stored inside a signed object, is to be recorded from the pinned object to the
    /// signed one; its inner object goes on.
    pub fn store(&self, object: TypedObject, hashes: &mut Vec<crate::proto::Hash>) -> (r: Result<
        (Option<TypedObject>, Option<PinToStore>),
        ModuleError,
    >)
        requires
            object.uuid != GroupObject::UUID,
            (parse_typed_spec(object@) matches Ok(ObjectEnumV::Pin(_))) ==> old(hashes)@.len() > 0,
        ensures
            match store_step(ModuleKind::Pin, object@, hashes_view(old(hashes)@)) {
                Ok((next, h2, pin)) => r matches Ok((o, p)) && opt_obj_view(o) == next
                    && hashes_view(final(hashes)@) == h2 && opt_pin_view(p) == pin,
                Err(e) => r matches Err(e2) && e2 == e,
            },
    {
        store_with(ModuleKind::Pin, object, hashes)
    }
}

} // verus!

verus! {

/// Whether `object` is a group object, or a signed object around one (neither can be read).
pub fn holds_group(object: &TypedObject) -> (r: bool)
    ensures
        r == (object.uuid == GroupObject::UUID || wraps_group(object@)),
{
    if object.uuid == GroupObject::UUID {
        return true;
    }
    match parse_typed(object.clone()) {
        Ok(ObjectEnum::Signed(s)) => s.object.uuid == GroupObject::UUID,
        _ => false,
    }
}

} // verus!

verus! {

/// Only a signed object can be stored: the outermost object of every chain that the modules
/// accept is a signed object, read by the module of signed objects.
pub proof fn lemma_store_requires_signature(s: Seq<(u128, ModuleKind)>, obj: TypedObjectV)
    requires
        store_run(s, obj, seq![]) is Ok,
    ensures
        module_for(s, obj.uuid) == Some(ModuleKind::Signed),
        parse_typed_spec(obj) matches Ok(ObjectEnumV::Signed(_)),
{
    let k = module_for(s, obj.uuid).unwrap();
    match store_step(k, obj, seq![]) {
        Ok((_, h2, _)) => {
            if k != ModuleKind::Signed {
                assert(h2.len() == 0);
            }
        },
        Err(_) => {},
    }
}

} // verus!

verus! {

/// Publishing a signed object puts it, among other places, at its own identifier.
pub proof fn lemma_signed_published_at_own_id(s: Seq<(u128, ModuleKind)>, obj: TypedObjectV)
    requires
        module_for(s, obj.uuid) == Some(ModuleKind::Signed),
        publish_places(s, obj) is Ok,
    ensures
        parse_typed_spec(obj) matches Ok(ObjectEnumV::Signed(sig)) && (publish_places(
            s,
            obj,
        ) matches Ok(set) && set.contains(
            object_id(TypedObjectV { uuid: SignedObject::UUID, data: enc_signed(sig) }),
        )),
{
    lemma_steps_shrink(ModuleKind::Signed, obj, seq![]);
    if let Ok(ObjectEnumV::Signed(sig)) = parse_typed_spec(obj) {
        let id = object_id(TypedObjectV { uuid: SignedObject::UUID, data: enc_signed(sig) });
        assert(seq![id].to_set().contains(id)) by {
            assert(seq![id][0] == id);
        }
    }
}

} // verus!
