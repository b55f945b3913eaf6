//! The decisions a node makes while it fetches, deletes and publishes objects in the network.
//! The node asks its swarm for each step; these functions say what to ask next and what the
//! answers amount to. Peers are named by the text of their identifiers.
use vstd::prelude::*;
use crate::modules::object_id;
use crate::paths::string_eq;
use crate::proto::{TypedObject, TypedObjectV};

verus! {

/// The texts of the strings.
pub open spec fn texts(s: Seq<String>) -> Seq<Seq<char>> {
    s.map_values(|x: String| x@)
}

/// The peers, each once.
pub fn dedup_peers(peers: &Vec<String>) -> (r: Vec<String>)
    ensures
        texts(r@).no_duplicates(),
        texts(r@).to_set() == texts(peers@).to_set(),
{
    let mut out: Vec<String> = Vec::new();
    let mut i: usize = 0;
    while i < peers.len()
        invariant
            i <= peers@.len(),
            texts(out@).no_duplicates(),
            texts(out@).to_set() == texts(peers@.take(i as int)).to_set(),
        decreases peers.len() - i,
    {
        let p = &peers[i];
        let seen = crate::paths::contains_path(&out, p);
        proof {
            assert(peers@.take(i + 1) =~= peers@.take(i as int).push(peers@[i as int]));
            assert(texts(peers@.take(i + 1)) =~= texts(peers@.take(i as int)).push(p@));
            texts(peers@.take(i as int)).lemma_push_to_set_commute(p@);
        }
        if !seen {
            let ghost before = out@;
            out.push(p.clone());
            proof {
                assert(texts(out@) =~= texts(before).push(p@));
                texts(before).lemma_push_to_set_commute(p@);
                assert(!texts(before).contains(p@)) by {
                    if texts(before).contains(p@) {
                        let k = choose|k: int| 0 <= k < texts(before).len() && texts(before)[k] == p@;
                        assert(before[k]@ == p@);
                    }
                }
            }
        } else {
            proof {
                let k = choose|k: int| 0 <= k < out@.len() && #[trigger] out@[k]@ == p@;
                assert(texts(out@)[k] == p@);
                assert(texts(out@).to_set().insert(p@) =~= texts(out@).to_set());
            }
        }
        i = i + 1;
    }
    proof {
        assert(peers@.take(peers@.len() as int) =~= peers@);
    }
    out
}

/// What a finished query for providers tells of itself: how long it ran and how many requests
/// it made.
#[derive(Debug, Clone, Copy)]
pub struct DaemonQueryStats {
    pub query_duration: std::time::Duration,
    pub total_requests: u32,
}

/// The figures of a query whose duration is `duration` (if known) and that made
/// `total_requests` requests: none where the duration is not known.
pub open spec fn stats_of(duration: Option<std::time::Duration>, total_requests: u32) -> Option<
    DaemonQueryStats,
> {
    match duration {
        Some(d) => Some(DaemonQueryStats { query_duration: d, total_requests }),
        None => None,
    }
}

/// The figures of a query, as they are handed on with its outcome: none where its duration is
/// not known.
pub fn query_stats(duration: Option<std::time::Duration>, total_requests: u32) -> (r: Option<
    DaemonQueryStats,
>)
    ensures
        r == stats_of(duration, total_requests),
{
    match duration {
        Some(d) => Some(DaemonQueryStats { query_duration: d, total_requests }),
        None => None,
    }
}

/// Why an object could not be fetched.
#[derive(Debug, Clone, Copy, PartialEq, Eq, Structural)]
pub enum FetchError {
    /// No peer provides the object.
    NoProviders,
    /// Every provider failed, or gave an object that is not the one asked for.
    AllFailed,
    /// An answer did not come in time; the fetch is abandoned.
    TimedOut,
}

/// What to do next while fetching an object.
#[derive(Debug)]
pub enum FetchAction {
    /// Ask this peer for the object.
    Ask(String),
    /// The object was fetched, and it is the one asked for; with it go the figures of the query
    /// that found its providers.
    Done(TypedObject, Option<DaemonQueryStats>),
    /// The object could not be fetched.
    Fail(FetchError),
}

/// The fetch of the object with identifier `target` from its providers, one after the other.
#[derive(Debug)]
pub struct Fetch {
    target: crate::proto::Hash,
    providers: Vec<String>,
    next: usize,
    stats: Option<DaemonQueryStats>,
}

impl Fetch {
    /// The identifier fetched.
    pub closed spec fn target(&self) -> Seq<u8> {
        self.target.bytes@
    }

    /// The providers, each once, in the order in which they are asked.
    pub closed spec fn providers(&self) -> Seq<Seq<char>> {
        texts(self.providers@)
    }

    /// The figures of the query that found the providers.
    pub closed spec fn stats(&self) -> Option<DaemonQueryStats> {
        self.stats
    }

    /// How many providers have been asked.
    pub closed spec fn asked(&self) -> nat {
        self.next as nat
    }

    /// The providers are each there once, and the one asked last is the one answering.
    pub closed spec fn wf(&self) -> bool {
        &&& texts(self.providers@).no_duplicates()
        &&& 1 <= self.next <= self.providers@.len()
    }

    /// Starts fetching `target` from `providers`, which the query with figures `stats` found:
    /// the first provider is asked first; with no provider the fetch fails.
    pub fn start(target: crate::proto::Hash, providers: &Vec<String>, stats: Option<DaemonQueryStats>) -> (r: (
        Fetch,
        FetchAction,
    ))
        ensures
            r.0.target() == target.bytes@,
            r.0.stats() == stats,
            r.0.providers().no_duplicates(),
            r.0.providers().to_set() == texts(providers@).to_set(),
            providers@.len() == 0 ==> r.1 matches FetchAction::Fail(FetchError::NoProviders),
            providers@.len() > 0 ==> (r.0.wf() && r.0.asked() == 1 && (r.1 matches FetchAction::Ask(
                p,
            ) && p@ == r.0.providers()[0])),
    {
        let unique = dedup_peers(providers);
        if unique.len() == 0 {
            proof {
                if providers@.len() > 0 {
                    assert(texts(providers@)[0] == providers@[0]@);
                    assert(texts(providers@).contains(providers@[0]@));
                    assert(texts(providers@).to_set().contains(providers@[0]@));
                    assert(texts(unique@) =~= Seq::<Seq<char>>::empty());
                    assert(!texts(unique@).contains(providers@[0]@));
                }
            }
            return (
                Fetch { target, providers: unique, next: 0, stats },
                FetchAction::Fail(FetchError::NoProviders),
            );
        }
        let first = unique[0].clone();
        proof {
            if providers@.len() == 0 {
                assert(texts(providers@) =~= Seq::<Seq<char>>::empty());
                assert(texts(unique@)[0] == unique@[0]@);
                assert(texts(unique@).contains(unique@[0]@));
                assert(texts(unique@).to_set().contains(unique@[0]@));
                assert(!texts(providers@).contains(unique@[0]@));
            }
        }
        (Fetch { target, providers: unique, next: 1, stats }, FetchAction::Ask(first))
    }

    /// The answer of the provider asked last: the object it gave, if any. The object is kept
    /// only where its identifier is the one asked for; else the next provider is asked, and
    /// when none is left the fetch fails.
    pub fn on_answer(&mut self, answer: Option<TypedObject>) -> (r: FetchAction)
        requires
            old(self).wf(),
        ensures
            final(self).target() == old(self).target(),
            final(self).providers() == old(self).providers(),
            final(self).stats() == old(self).stats(),
            match answer {
                Some(obj) => object_id(obj@) == old(self).target() ==> (final(self).asked()
                    == old(self).asked() && (r matches FetchAction::Done(o, st) && o@ == obj@
                    && st == old(self).stats())),
                None => true,
            },
            !(answer matches Some(obj) && object_id(obj@) == old(self).target()) ==> (if old(
                self,
            ).asked() < old(self).providers().len() {
                final(self).asked() == old(self).asked() + 1 && final(self).wf() && (
                r matches FetchAction::Ask(p) && p@ == old(self).providers()[old(self).asked() as int])
            } else {
                final(self).asked() == old(self).asked() && (r matches FetchAction::Fail(
                    FetchError::AllFailed,
                ))
            }),
            r matches FetchAction::Done(o, _) ==> object_id(o@) == old(self).target(),
    {
        if let Some(obj) = answer {
            let ghost v = obj@;
            match crate::proto::Hash::try_from_typed_object(&obj) {
                Ok(h) => {
                    if h == self.target {
                        return FetchAction::Done(obj, self.stats);
                    }
                },
                Err(_) => {},
            }
        }
        if self.next < self.providers.len() {
            let p = self.providers[self.next].clone();
            self.next = self.next + 1;
            FetchAction::Ask(p)
        } else {
            FetchAction::Fail(FetchError::AllFailed)
        }
    }

    /// The provider asked last did not answer in time: the fetch is abandoned, with nothing
    /// kept.
    pub fn on_timeout(&self) -> (r: FetchAction)
        ensures
            r matches FetchAction::Fail(FetchError::TimedOut),
    {
        FetchAction::Fail(FetchError::TimedOut)
    }
}

} // verus!

verus! {

/// The providers other than `me`, in their order.
pub open spec fn others(ps: Seq<Seq<char>>, me: Seq<char>) -> Seq<Seq<char>>
    decreases ps.len(),
{
    if ps.len() == 0 {
        seq![]
    } else {
        let r = others(ps.drop_last(), me);
        if ps.last() == me {
            r
        } else {
            r.push(ps.last())
        }
    }
}

/// Who a delete request goes to: whether this node (`me`) provides the object itself (it then
/// stops providing it), and the other providers, in their order, which are asked to delete it.
pub fn delete_targets(me: &String, providers: &Vec<String>) -> (r: (bool, Vec<String>))
    ensures
        r.0 == texts(providers@).contains(me@),
        texts(r.1@) == others(texts(providers@), me@),
{
    let mut myself = false;
    let mut rest: Vec<String> = Vec::new();
    let mut i: usize = 0;
    while i < providers.len()
        invariant
            i <= providers@.len(),
            myself == texts(providers@.take(i as int)).contains(me@),
            texts(rest@) == others(texts(providers@.take(i as int)), me@),
        decreases providers.len() - i,
    {
        let ghost t = texts(providers@.take(i as int));
        proof {
            assert(texts(providers@.take(i + 1)) =~= t.push(providers@[i as int]@));
            assert(t.push(providers@[i as int]@).drop_last() =~= t);
        }
        if string_eq(&providers[i], me) {
            myself = true;
            proof {
                assert(t.push(me@)[t.len() as int] == me@);
            }
        } else {
            let ghost before = rest@;
            rest.push(providers[i].clone());
            proof {
                assert(texts(rest@) =~= texts(before).push(providers@[i as int]@));
                assert(t.push(providers@[i as int]@).contains(me@) == t.contains(me@)) by {
                    if t.push(providers@[i as int]@).contains(me@) {
                        let k = choose|k: int|
                            0 <= k < t.len() + 1 && t.push(providers@[i as int]@)[k] == me@;
                        if k < t.len() {
                            assert(t[k] == me@);
                        }
                    }
                    if t.contains(me@) {
                        let k = choose|k: int| 0 <= k < t.len() && t[k] == me@;
                        assert(t.push(providers@[i as int]@)[k] == me@);
                    }
                }
            }
        }
        i = i + 1;
    }
    proof {
        assert(providers@.take(providers@.len() as int) =~= providers@);
    }
    (myself, rest)
}

/// How a provider answered a request to delete an object.
#[derive(Debug, Clone, Copy)]
pub enum DeleteReply {
    /// The request could not be sent or answered.
    Unreachable,
    /// The provider answered with this outcome.
    Answered(crate::proto::ResultObject),
    /// No answer came in time.
    TimedOut,
}

/// What became of this node's own copy during a delete.
#[derive(Debug, Clone, Copy, PartialEq, Eq, Structural)]
pub enum OwnCopy {
    /// This node does not provide the object.
    NotProvided,
    /// This node was told to stop providing it (whether or not that step reported success).
    StoppedProviding,
    /// The request to stop providing it got no answer in time.
    TimedOut,
}

/// Why a delete was abandoned.
#[derive(Debug, Clone, Copy, PartialEq, Eq, Structural)]
pub enum DeleteError {
    /// An answer did not come in time.
    TimedOut,
}

/// Whether a reply says the object was deleted.
pub open spec fn reply_deleted(r: DeleteReply) -> bool {
    r matches DeleteReply::Answered(o) && o.result is Ok
}

/// How many replies say the object was deleted.
pub open spec fn count_deleted(rs: Seq<DeleteReply>) -> nat
    decreases rs.len(),
{
    if rs.len() == 0 {
        0
    } else {
        count_deleted(rs.drop_last()) + if reply_deleted(rs.last()) {
            1nat
        } else {
            0nat
        }
    }
}

/// What deleting an object from the network achieved.
#[derive(Debug, Clone, Copy, PartialEq, Eq, Structural)]
pub struct ObjectDeleted {
    pub deleted_myself: bool,
    pub deleted_count: u32,
    pub failed_count: u32,
}

/// Some reply came too late.
pub open spec fn some_timed_out(rs: Seq<DeleteReply>) -> bool {
    exists|i: int| 0 <= i < rs.len() && #[trigger] rs[i] matches DeleteReply::TimedOut
}

/// What a delete achieved: abandoned where any answer, this node's own included, came too
/// late; else whether this node stopped providing the object, how many providers say they
/// deleted it, and how many did not.
pub fn tally_delete(own: OwnCopy, replies: &Vec<DeleteReply>) -> (r: Result<ObjectDeleted, DeleteError>)
    requires
        replies@.len() <= u32::MAX,
    ensures
        (own == OwnCopy::TimedOut || some_timed_out(replies@)) ==> r == Err::<
            ObjectDeleted,
            DeleteError,
        >(DeleteError::TimedOut),
        !(own == OwnCopy::TimedOut || some_timed_out(replies@)) ==> (r matches Ok(d)
            && d.deleted_myself == (own == OwnCopy::StoppedProviding) && d.deleted_count
            == count_deleted(replies@) && d.deleted_count + d.failed_count == replies@.len()),
{
    if let OwnCopy::TimedOut = own {
        return Err(DeleteError::TimedOut);
    }
    let deleted_myself = match own {
        OwnCopy::StoppedProviding => true,
        _ => false,
    };
    let mut deleted: u32 = 0;
    let mut failed: u32 = 0;
    let mut i: usize = 0;
    while i < replies.len()
        invariant
            i <= replies@.len(),
            replies@.len() <= u32::MAX,
            deleted == count_deleted(replies@.take(i as int)),
            deleted + failed == i,
            !some_timed_out(replies@.take(i as int)),
        decreases replies.len() - i,
    {
        proof {
            assert(replies@.take(i + 1).drop_last() =~= replies@.take(i as int));
        }
        match replies[i] {
            DeleteReply::Answered(o) => match o.result {
                Ok(_) => {
                    deleted = deleted + 1;
                },
                Err(_) => {
                    failed = failed + 1;
                },
            },
            DeleteReply::Unreachable => {
                failed = failed + 1;
            },
            DeleteReply::TimedOut => {
                proof {
                    assert(replies@[i as int] matches DeleteReply::TimedOut);
                }
                return Err(DeleteError::TimedOut);
            },
        }
        proof {
            assert forall|k: int| 0 <= k < i + 1 implies !(#[trigger] replies@.take(i + 1)[k] matches DeleteReply::TimedOut) by {
                if k < i {
                    assert(replies@.take(i + 1)[k] == replies@.take(i as int)[k]);
                }
            }
        }
        i = i + 1;
    }
    proof {
        assert(replies@.take(replies@.len() as int) =~= replies@);
    }
    Ok(ObjectDeleted { deleted_myself, deleted_count: deleted, failed_count: failed })
}

/// The number of nodes an object is published to, at most.
pub const KAD_K_PARAMETER: u32 = 20;

/// The count of nodes that accepted a published object.
#[derive(Debug, Clone, Copy)]
pub struct PublishTally {
    successes: u32,
}

impl PublishTally {
    /// How many nodes accepted the object.
    pub closed spec fn count(&self) -> nat {
        self.successes as nat
    }

    /// No node has accepted the object yet.
    pub fn new() -> (r: PublishTally)
        ensures
            r.count() == 0,
    {
        PublishTally { successes: 0 }
    }

    /// Counts the answer of a node asked to store the object (`None` where it did not answer);
    /// says whether to go on asking: not once enough nodes have accepted.
    pub fn on_reply(&mut self, reply: Option<crate::proto::ResultObject>) -> (go_on: bool)
        requires
            old(self).count() < KAD_K_PARAMETER,
        ensures
            final(self).count() == old(self).count() + if reply matches Some(o) && o.result is Ok {
                1nat
            } else {
                0nat
            },
            go_on == (final(self).count() < KAD_K_PARAMETER),
    {
        if let Some(o) = reply {
            if let Ok(_) = o.result {
                self.successes = self.successes + 1;
            }
        }
        self.successes < KAD_K_PARAMETER
    }

    /// The object counts as published once some node accepted it.
    pub fn published(&self) -> (r: bool)
        ensures
            r == (self.count() >= 1),
    {
        self.successes >= 1
    }
}

/// How a peer answered the request to store a published object.
#[derive(Debug, Clone, Copy)]
pub enum PublishReply {
    /// The peer answered with this outcome.
    Answered(crate::proto::ResultObject),
    /// The request failed, or its answer was lost.
    NoAnswer,
    /// No answer came in time.
    TimedOut,
}

/// Why a publication failed.
#[derive(Debug, Clone, Copy, PartialEq, Eq, Structural)]
pub enum PublishError {
    /// No peer accepted the object.
    NotPublished,
    /// An answer did not come in time; the publication is abandoned.
    TimedOut,
}

impl PublishError {
    /// The message this failure is reported with.
    pub fn message(&self) -> (r: String)
        ensures
            *self == PublishError::NotPublished ==> r@ == "Could not publish file"@,
            *self == PublishError::TimedOut ==> r@ == "deadline has elapsed"@,
    {
        match self {
            PublishError::NotPublished => "Could not publish file".to_string(),
            PublishError::TimedOut => "deadline has elapsed".to_string(),
        }
    }
}

/// The number of peers that accepted the object, from `count` on, as the replies `rs` come in
/// order: asking stops once enough peers accepted it, and the whole publication is abandoned
/// (`None`) at a reply that came too late before that.
pub open spec fn publish_run(rs: Seq<PublishReply>, count: nat) -> Option<nat>
    decreases rs.len(),
{
    if count >= KAD_K_PARAMETER || rs.len() == 0 {
        Some(count)
    } else {
        match rs[0] {
            PublishReply::TimedOut => None,
            PublishReply::Answered(o) => publish_run(
                rs.drop_first(),
                if o.result is Ok {
                    count + 1
                } else {
                    count
                },
            ),
            PublishReply::NoAnswer => publish_run(rs.drop_first(), count),
        }
    }
}

/// How many of the replies accept the object.
pub open spec fn accepted(rs: Seq<PublishReply>) -> nat
    decreases rs.len(),
{
    if rs.len() == 0 {
        0
    } else {
        (if rs[0] matches PublishReply::Answered(o) && o.result is Ok {
            1nat
        } else {
            0nat
        }) + accepted(rs.drop_first())
    }
}

/// Some reply at `j` came too late while fewer than enough peers (counting `c` already) had
/// accepted the object.
pub open spec fn late_before_enough(rs: Seq<PublishReply>, c: nat, j: int) -> bool {
    0 <= j < rs.len() && rs[j] is TimedOut && c + accepted(rs.take(j)) < KAD_K_PARAMETER
}

proof fn lemma_publish_run_counts(rs: Seq<PublishReply>, c: nat)
    requires
        c <= KAD_K_PARAMETER,
    ensures
        (exists|j: int| #[trigger] late_before_enough(rs, c, j)) ==> publish_run(rs, c) is None,
        (forall|j: int| !#[trigger] late_before_enough(rs, c, j)) ==> publish_run(rs, c) == Some(
            if c + accepted(rs) < KAD_K_PARAMETER {
                c + accepted(rs)
            } else {
                KAD_K_PARAMETER as nat
            },
        ),
    decreases rs.len(),
{
    if c >= KAD_K_PARAMETER {
        assert forall|j: int| !#[trigger] late_before_enough(rs, c, j) by {}
    } else if rs.len() == 0 {
        assert forall|j: int| !#[trigger] late_before_enough(rs, c, j) by {}
    } else {
        let rest = rs.drop_first();
        let a0: nat = if rs[0] matches PublishReply::Answered(o) && o.result is Ok {
            1nat
        } else {
            0nat
        };
        assert(rs.take(0) =~= Seq::<PublishReply>::empty());
        if rs[0] is TimedOut {
            assert(late_before_enough(rs, c, 0));
        } else {
            let c2 = c + a0;
            lemma_publish_run_counts(rest, c2);
            assert forall|j: int| 1 <= j <= rs.len() implies accepted(#[trigger] rs.take(j)) == a0
                + accepted(rest.take(j - 1)) by {
                assert(rs.take(j).drop_first() =~= rest.take(j - 1));
                assert(rs.take(j)[0] == rs[0]);
            }
            assert forall|j: int| #[trigger] late_before_enough(rs, c, j) <==> (j >= 1
                && late_before_enough(rest, c2, j - 1)) by {
                if 1 <= j < rs.len() {
                    assert(rest[j - 1] == rs[j]);
                }
            }
            if exists|j: int| #[trigger] late_before_enough(rs, c, j) {
                let j = choose|j: int| #[trigger] late_before_enough(rs, c, j);
                assert(late_before_enough(rest, c2, j - 1));
            } else {
                assert forall|j: int| !#[trigger] late_before_enough(rest, c2, j) by {
                    if late_before_enough(rest, c2, j) {
                        assert(late_before_enough(rs, c, j + 1));
                    }
                }
            }
        }
    }
}

/// What publishing comes to, by the replies in the order the peers were asked: where some
/// reply came too late while fewer than `KAD_K_PARAMETER` peers had accepted the object, the
/// publication is abandoned, however many peers accepted before it; else it counts the peers
/// that accepted, up to `KAD_K_PARAMETER`.
pub proof fn lemma_late_reply_abandons_publication(rs: Seq<PublishReply>)
    ensures
        (exists|j: int|
            0 <= j < rs.len() && rs[j] is TimedOut && #[trigger] accepted(rs.take(j))
                < KAD_K_PARAMETER) ==> publish_run(rs, 0) is None,
        (forall|j: int|
            0 <= j < rs.len() && rs[j] is TimedOut ==> #[trigger] accepted(rs.take(j))
                >= KAD_K_PARAMETER) ==> publish_run(rs, 0) == Some(
            if accepted(rs) < KAD_K_PARAMETER {
                accepted(rs)
            } else {
                KAD_K_PARAMETER as nat
            },
        ),
{
    lemma_publish_run_counts(rs, 0);
    if exists|j: int|
        0 <= j < rs.len() && rs[j] is TimedOut && #[trigger] accepted(rs.take(j)) < KAD_K_PARAMETER {
        let j = choose|j: int|
            0 <= j < rs.len() && rs[j] is TimedOut && #[trigger] accepted(rs.take(j))
                < KAD_K_PARAMETER;
        assert(late_before_enough(rs, 0, j));
    }
    if forall|j: int|
        0 <= j < rs.len() && rs[j] is TimedOut ==> #[trigger] accepted(rs.take(j))
            >= KAD_K_PARAMETER {
        assert forall|j: int| !#[trigger] late_before_enough(rs, 0, j) by {
            if 0 <= j < rs.len() && rs[j] is TimedOut {
                assert(accepted(rs.take(j)) >= KAD_K_PARAMETER);
            }
        }
    }
}

/// The outcome of publishing `object`, given the replies of the peers asked to store it, in
/// the order they were asked: the Base58 text of the object's identifier where some peer
/// accepted it; `NotPublished` where none did; `TimedOut` where an answer came too late
/// before enough peers had accepted it. Replies after the last one needed are not read.
pub fn publish_outcome(object: &TypedObject, replies: &Vec<PublishReply>) -> (r: Result<
    String,
    PublishError,
>)
    ensures
        match publish_run(replies@, 0) {
            None => r == Err::<String, PublishError>(PublishError::TimedOut),
            Some(n) => if n >= 1 {
                r matches Ok(t) && t@ == crate::base58::base58_text(object_id(object@))
            } else {
                r == Err::<String, PublishError>(PublishError::NotPublished)
            },
        },
        (exists|j: int|
            0 <= j < replies@.len() && replies@[j] is TimedOut && #[trigger] accepted(
                replies@.take(j),
            ) < KAD_K_PARAMETER) ==> r == Err::<String, PublishError>(PublishError::TimedOut),
        (forall|j: int|
            0 <= j < replies@.len() && replies@[j] is TimedOut ==> #[trigger] accepted(
                replies@.take(j),
            ) >= KAD_K_PARAMETER) ==> (if accepted(replies@) >= 1 {
            r matches Ok(t) && t@ == crate::base58::base58_text(object_id(object@))
        } else {
            r == Err::<String, PublishError>(PublishError::NotPublished)
        }),
{
    proof {
        lemma_late_reply_abandons_publication(replies@);
    }
    let mut tally = PublishTally::new();
    let mut go_on = true;
    let mut i: usize = 0;
    proof {
        assert(replies@.skip(0) =~= replies@);
    }
    while i < replies.len() && go_on
        invariant
            i <= replies@.len(),
            go_on == (tally.count() < KAD_K_PARAMETER),
            tally.count() <= KAD_K_PARAMETER,
            publish_run(replies@, 0) == publish_run(replies@.skip(i as int), tally.count()),
        decreases replies.len() - i,
    {
        let ghost rest = replies@.skip(i as int);
        proof {
            assert(rest[0] == replies@[i as int]);
            assert(rest.drop_first() =~= replies@.skip(i + 1));
        }
        match replies[i] {
            PublishReply::TimedOut => {
                proof {
                    lemma_late_reply_abandons_publication(replies@);
                }
                return Err(PublishError::TimedOut);
            },
            PublishReply::Answered(o) => {
                go_on = tally.on_reply(Some(o));
            },
            PublishReply::NoAnswer => {
                go_on = tally.on_reply(None);
            },
        }
        i = i + 1;
    }
    proof {
        if i == replies.len() {
            assert(replies@.skip(i as int).len() == 0);
        }
    }
    if tally.published() {
        let h = crate::proto::Hash::try_from_typed_object(object);
        match h {
            Ok(h) => Ok(h.to_string()),
            Err(_) => Err(PublishError::NotPublished),
        }
    } else {
        Err(PublishError::NotPublished)
    }
}

/// Whether the peer `peer` asked to store an object is this node itself (`me`), which then
/// also provides the object.
pub fn is_self(me: &String, peer: &String) -> (r: bool)
    ensures
        r == (me@ == peer@),
{
    string_eq(me, peer)
}

} // verus!

verus! {

/// The providers gathered so far by the queries for providers that are still open, by query.
#[derive(Debug)]
pub struct ProviderQueries {
    pending: std::collections::HashMap<u64, Vec<String>>,
}

impl ProviderQueries {
    /// The open queries and the providers each has gathered.
    pub closed spec fn view_map(&self) -> Map<u64, Seq<Seq<char>>> {
        Map::new(|k: u64| self.pending@.contains_key(k), |k: u64| texts(self.pending@[k]@))
    }

    /// No query open.
    pub fn new() -> (r: ProviderQueries)
        ensures
            r.view_map() == Map::<u64, Seq<Seq<char>>>::empty(),
    {
        let r = ProviderQueries { pending: std::collections::HashMap::new() };
        proof {
            assert(r.view_map() =~= Map::<u64, Seq<Seq<char>>>::empty());
        }
        r
    }

    /// Opens the query `id`, with no provider yet.
    pub fn start(&mut self, id: u64)
        ensures
            final(self).view_map() == old(self).view_map().insert(id, seq![]),
    {
        broadcast use vstd::std_specs::hash::group_hash_axioms;

        self.pending.insert(id, Vec::new());
        proof {
            assert(texts(Seq::<String>::empty()) =~= seq![]);
            assert(self.view_map() =~= old(self).view_map().insert(id, seq![]));
        }
    }

    /// Some providers were found for the query `id`, which so far ran for `duration` (if
    /// known) and made `total_requests` requests. They are added to those it gathered; on the
    /// last step the query closes, and all it gathered is returned with its figures. An empty
    /// step, or a step of a query that is not open, changes nothing.
    pub fn on_found(
        &mut self,
        id: u64,
        providers: Vec<String>,
        last: bool,
        duration: Option<std::time::Duration>,
        total_requests: u32,
    ) -> (r: Option<(Vec<String>, Option<DaemonQueryStats>)>)
        ensures
            (providers@.len() == 0 || !old(self).view_map().contains_key(id)) ==> (r is None
                && final(self).view_map() == old(self).view_map()),
            (providers@.len() > 0 && old(self).view_map().contains_key(id)) ==> {
                let all = old(self).view_map()[id] + texts(providers@);
                if last {
                    r matches Some(v) && texts(v.0@) == all && v.1 == stats_of(
                        duration,
                        total_requests,
                    ) && final(self).view_map() == old(self).view_map().remove(id)
                } else {
                    r is None && final(self).view_map() == old(self).view_map().insert(id, all)
                }
            },
    {
        broadcast use vstd::std_specs::hash::group_hash_axioms;

        let stats = query_stats(duration, total_requests);
        if providers.len() == 0 {
            return None;
        }
        match self.pending.remove(&id) {
            None => {
                proof {
                    assert(self.view_map() =~= old(self).view_map());
                }
                None
            },
            Some(nodes) => {
                let mut nodes = nodes;
                let mut more = providers;
                let ghost a = nodes@;
                let ghost b = more@;
                nodes.append(&mut more);
                proof {
                    assert(texts(nodes@) =~= texts(a) + texts(b));
                }
                if !last {
                    self.pending.insert(id, nodes);
                    proof {
                        assert(self.view_map() =~= old(self).view_map().insert(
                            id,
                            old(self).view_map()[id] + texts(b),
                        ));
                    }
                    None
                } else {
                    proof {
                        assert(self.view_map() =~= old(self).view_map().remove(id));
                    }
                    Some((nodes, stats))
                }
            },
        }
    }

    /// The query `id` finished with nothing more found, after running for `duration` (if
    /// known) and making `total_requests` requests: it closes, and what it gathered is returned
    /// with its figures (`None` where it was not open).
    pub fn on_finished(
        &mut self,
        id: u64,
        duration: Option<std::time::Duration>,
        total_requests: u32,
    ) -> (r: Option<(Vec<String>, Option<DaemonQueryStats>)>)
        ensures
            final(self).view_map() == old(self).view_map().remove(id),
            match r {
                Some(v) => old(self).view_map().contains_key(id) && texts(v.0@) == old(
                    self,
                ).view_map()[id] && v.1 == stats_of(duration, total_requests),
                None => !old(self).view_map().contains_key(id),
            },
    {
        broadcast use vstd::std_specs::hash::group_hash_axioms;

        let stats = query_stats(duration, total_requests);
        let r = self.pending.remove(&id);
        proof {
            assert(self.view_map() =~= old(self).view_map().remove(id));
        }
        match r {
            Some(nodes) => Some((nodes, stats)),
            None => None,
        }
    }
}

} // verus!

verus! {

/// Why no file could be taken out of a downloaded object.
#[derive(Debug, Clone, Copy, PartialEq, Eq, Structural)]
pub enum CascadeError {
    /// An object of the cascade could not be read.
    Unreadable(crate::proto::ProtoError),
    /// An object of the cascade is neither signed nor a file.
    Unsupported,
}

/// The cascade of `obj` holds a group object somewhere (which cannot be read).
pub open spec fn cascade_meets_group(obj: TypedObjectV) -> bool
    decreases obj.data.len(),
{
    if obj.uuid == crate::proto::GroupObject::UUID {
        true
    } else {
        match crate::parser::parse_typed_spec(obj) {
            Ok(crate::parser::ObjectEnumV::Signed(s)) => if s.object.data.len() < obj.data.len() {
                cascade_meets_group(s.object)
            } else {
                false
            },
            _ => false,
        }
    }
}

/// The file inside `obj`: signed objects are unwrapped until a file shows.
pub open spec fn file_in(obj: TypedObjectV) -> Result<crate::proto::PlainFileObjectV, CascadeError>
    decreases obj.data.len(),
{
    match crate::parser::parse_typed_spec(obj) {
        Err(e) => Err(CascadeError::Unreadable(e)),
        Ok(crate::parser::ObjectEnumV::Signed(s)) => if s.object.data.len() < obj.data.len() {
            file_in(s.object)
        } else {
            Err(CascadeError::Unsupported)
        },
        Ok(crate::parser::ObjectEnumV::PlainFile(f)) => Ok(f),
        Ok(_) => Err(CascadeError::Unsupported),
    }
}

/// Whether the cascade of `object` holds a group object somewhere.
pub fn cascade_has_group(object: &TypedObject) -> (r: bool)
    ensures
        r == cascade_meets_group(object@),
    decreases object.data.len(),
{
    if object.uuid == crate::proto::GroupObject::UUID {
        return true;
    }
    match crate::parser::parse_typed(object.clone()) {
        Ok(crate::parser::ObjectEnum::Signed(s)) => {
            proof {
                crate::modules::lemma_parse_typed_shrinks(object.data@, 0);
            }
            cascade_has_group(&s.object)
        },
        _ => false,
    }
}

/// The file inside a downloaded object, whose signed wrappings are taken off one by one.
pub fn unwrap_to_file(object: TypedObject) -> (r: Result<crate::proto::PlainFileObject, CascadeError>)
    requires
        !cascade_meets_group(object@),
    ensures
        match file_in(object@) {
            Ok(f) => r matches Ok(g) && g@ == f,
            Err(e) => r matches Err(e2) && e2 == e,
        },
    decreases object.data.len(),
{
    let ghost v = object@;
    match crate::parser::parse_typed(object) {
        Err(e) => Err(CascadeError::Unreadable(e)),
        Ok(crate::parser::ObjectEnum::Signed(s)) => {
            proof {
                crate::modules::lemma_parse_typed_shrinks(v.data, 0);
            }
            unwrap_to_file(s.object)
        },
        Ok(crate::parser::ObjectEnum::PlainFile(f)) => Ok(f),
        Ok(_) => Err(CascadeError::Unsupported),
    }
}

} // verus!
