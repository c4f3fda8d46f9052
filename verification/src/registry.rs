use crate::peer::{Peer, PeerError};
use crate::ping::PingResult;
use crate::sampling;
use std::collections::HashMap;
use std::time::Duration;
use vstd::prelude::*;
use vstd::std_specs::hash::spec_keys_iter;
use vstd::std_specs::iter::IteratorSpec;

verus! {

broadcast use vstd::std_specs::hash::group_hash_axioms;

/// The members of a group, keyed by their id, together with the settings of
/// the failure detector: how long a probe may take and how many other
/// members are asked to probe a member that did not answer.
#[derive(Debug)]
pub struct Registry<M> {
    members: HashMap<usize, M>,
    ping_timeout: Duration,
    k: usize,
}

impl<M> View for Registry<M> {
    type V = Map<usize, M>;

    /// The members, by id.
    closed spec fn view(&self) -> Map<usize, M> {
        self.members@
    }
}

impl<M: Clone> Clone for Registry<M> {
    /// A registry with the same ids, each holding a clone of its member,
    /// and the same settings.
    fn clone(&self) -> (r: Self)
        ensures
            r@.dom() == self@.dom(),
            r.same_settings(self),
    {
        Registry { members: self.members.clone(), ping_timeout: self.ping_timeout, k: self.k }
    }
}

impl<M> Registry<M> {
    /// The timeout handed to every probe.
    pub closed spec fn timeout(&self) -> Duration {
        self.ping_timeout
    }

    /// How many members are asked to probe a member that did not answer.
    pub closed spec fn sample_size(&self) -> nat {
        self.k as nat
    }

    /// A registry holds finitely many members.
    pub proof fn lemma_finite(&self)
        ensures
            self@.dom().finite(),
    {
    }

    /// The settings are the same in both registries.
    pub open spec fn same_settings(&self, other: &Self) -> bool {
        self.timeout() == other.timeout() && self.sample_size() == other.sample_size()
    }
}

/// What `pick_random` returns for a given walk of the ids and a given draw
/// in `0..ids.len()`: the walk is skipped `draw - 1` steps and the next id
/// is taken, so a draw of 0 or 1 gives the first id and a draw of `d > 1`
/// the id at position `d - 1`; nothing when there are no ids. With two ids
/// or more, the last id of the walk is never picked by a draw below the
/// number of ids.
pub open spec fn picked_by_draw(ids: Seq<usize>, draw: int) -> Option<usize> {
    if ids.len() == 0 {
        None
    } else if draw == 0 {
        Some(ids[0])
    } else {
        Some(ids[draw - 1])
    }
}

/// The choice that `pick_random` makes once the ids have been walked and the
/// random draw has been taken: see `picked_by_draw`. A draw above the number
/// of ids is refused, as it would run past the end of the walk.
pub fn pick_with_draw(ids: &Vec<usize>, draw: usize) -> (r: Option<usize>)
    requires
        ids.len() > 0 ==> draw <= ids.len(),
    ensures
        r == picked_by_draw(ids@, draw as int),
        ids.len() == 0 ==> r is None,
        ids.len() > 0 && draw == 0 ==> r == Some(ids@[0]),
        ids.len() > 0 && draw >= 1 ==> r == Some(ids@[draw - 1]),
{
    if ids.len() == 0 {
        None
    } else if draw == 0 {
        Some(ids[0])
    } else {
        Some(ids[draw - 1])
    }
}

/// What one round of failure detection did: which member was probed, how
/// it answered directly and through other members, the verdict, and, when
/// it is declared failed, what each remaining member replied when told.
///
/// Every answer reported here is one that the peers' own calls gave: see
/// `round_trace`, which ties the direct answer to a `ping` of the probed
/// member, each response to a `ping_request` made by that helper on it, and
/// each announcement result to an `announce_failure` on that member.
#[derive(Debug)]
pub struct CheckOutcome {
    /// The member that was probed.
    pub id: usize,
    /// The answer to the direct probe.
    pub direct: PingResult,
    /// The members that were asked to probe it, after it had not answered
    /// the direct probe; empty when it answered directly.
    pub helpers: Vec<usize>,
    /// What each of `helpers`, in the same order, got from it.
    pub responses: Vec<PingResult>,
    /// Whether the member is taken to be alive: `Pong` when it answered a
    /// probe, the direct one or one sent on its behalf; `Pang` otherwise.
    pub result: PingResult,
    /// The members that were told of its failure, each once, with what
    /// each announcement returned. Empty when the member answered.
    pub announcements: Vec<(usize, Result<(), PeerError>)>,
}

/// The ids of a list of announcements, in order.
pub open spec fn announced_ids(announcements: Seq<(usize, Result<(), PeerError>)>) -> Seq<usize> {
    announcements.map_values(|a: (usize, Result<(), PeerError>)| a.0)
}

/// The smaller of `a` and `b`.
pub open spec fn min_nat(a: nat, b: nat) -> nat {
    if a <= b { a } else { b }
}

/// The ids that a member that did not answer directly is handed to for
/// indirect probes: `k` members, or all when there are fewer, all different,
/// and never the member itself (`others` are the members without it).
pub open spec fn valid_helpers<M>(others: Map<usize, M>, k: nat, helpers: Seq<usize>) -> bool {
    &&& helpers.len() == min_nat(k, others.len())
    &&& helpers.no_duplicates()
    &&& forall|i: int| 0 <= i < helpers.len() ==> others.contains_key(#[trigger] helpers[i])
}

/// Whether one of the answers is a success.
pub open spec fn any_pong(responses: Seq<PingResult>) -> bool {
    exists|i: int| 0 <= i < responses.len() && (#[trigger] responses[i]) is Pong
}

/// The verdict on a probed member, from the answer to the direct probe and
/// the answers got on its behalf: it answered if any of them is a success.
pub open spec fn round_verdict(direct: PingResult, responses: Seq<PingResult>) -> PingResult {
    if direct is Pong || any_pong(responses) {
        PingResult::Pong
    } else {
        PingResult::Pang
    }
}

/// The calls behind a round that probed `o.id`: `targets` are the states
/// the probed member went through and `mid` the other members once the
/// probes were over. The probed member was pinged once, with `timeout`, and
/// gave the reported direct answer; each helper, in order, made one
/// `ping_request` on it with `timeout` and gave the reported response; no
/// other member was touched by the probes. A member that answered is put
/// back as the probes left it; otherwise each remaining member was told of
/// its failure once, by `announce_failure` with the probed member as target,
/// with the reported result.
pub open spec fn round_trace<M: Peer>(
    before: Map<usize, M>,
    after: Map<usize, M>,
    timeout: Duration,
    o: CheckOutcome,
    targets: Seq<M>,
    mid: Map<usize, M>,
) -> bool {
    &&& targets.len() == o.helpers@.len() + 2
    &&& targets[0] == before[o.id]
    &&& M::probed(targets[0], timeout, targets[1], o.direct)
    &&& mid.dom() == before.dom().remove(o.id)
    &&& forall|i: int|
        0 <= i < o.helpers@.len() ==> M::probed_for(
            before[#[trigger] o.helpers@[i]],
            targets[i + 1],
            timeout,
            mid[o.helpers@[i]],
            targets[i + 2],
            o.responses@[i],
        )
    &&& forall|x: usize| #[trigger] mid.contains_key(x) && !o.helpers@.contains(x) ==> mid[x] == before[x]
    &&& (o.result is Pong ==> after == mid.insert(o.id, targets.last()))
    &&& (o.result is Pang ==> after.dom() == mid.dom())
    &&& (o.result is Pang ==> forall|i: int|
        0 <= i < o.announcements@.len() ==> M::told_failure(
            mid[#[trigger] o.announcements@[i].0],
            targets.last(),
            after[o.announcements@[i].0],
            o.announcements@[i].1,
        ))
}

/// How one round of failure detection relates the members before it, the
/// members after it, and what it reports, for a sample size `k` and a probe
/// timeout `timeout`: a round on an empty group does nothing; otherwise one
/// member is probed. If it does not answer the direct probe, `k` of the
/// other members (all, when there are fewer) are asked to probe it. It is
/// kept if it answered any probe, and removed, with no other change to the
/// set of members, if it did not; the answers reported are those of the
/// calls described by `round_trace`.
pub open spec fn round_effect<M: Peer>(
    before: Map<usize, M>,
    after: Map<usize, M>,
    k: nat,
    timeout: Duration,
    outcome: Option<CheckOutcome>,
) -> bool {
    match outcome {
        None => before.len() == 0 && after == before,
        Some(o) => {
            &&& before.len() > 0
            &&& before.contains_key(o.id)
            &&& (o.direct is Pong ==> o.helpers@.len() == 0)
            &&& (o.direct is Pang ==> valid_helpers(before.remove(o.id), k, o.helpers@))
            &&& o.responses@.len() == o.helpers@.len()
            &&& o.result == round_verdict(o.direct, o.responses@)
            &&& (o.result is Pong ==> after.dom() == before.dom() && o.announcements@.len() == 0)
            &&& (o.result is Pong ==> forall|x: usize|
                #[trigger] before.contains_key(x) && x != o.id && !o.helpers@.contains(x) ==> after[x] == before[x])
            &&& (o.result is Pang ==> after.dom() == before.dom().remove(o.id))
            &&& (o.result is Pang ==> announced_ids(o.announcements@).no_duplicates())
            &&& (o.result is Pang ==> announced_ids(o.announcements@).to_set() == after.dom())
            &&& exists|targets: Seq<M>, mid: Map<usize, M>| #[trigger] round_trace(before, after, timeout, o, targets, mid)
        },
    }
}

/// The verdict on a member that did not answer a direct probe, given the
/// answers of the members that were asked to probe it: `Pong` as soon as one
/// of them got an answer, `Pang` when none did (or none was asked).
pub fn combine_responses(responses: &Vec<PingResult>) -> (r: PingResult)
    ensures
        r is Pong <==> any_pong(responses@),
{
    let mut i: usize = 0;
    while i < responses.len()
        invariant
            i <= responses@.len(),
            forall|j: int| 0 <= j < i ==> (#[trigger] responses@[j]) is Pang,
        decreases responses@.len() - i,
    {
        if responses[i].answered() {
            return PingResult::Pong;
        }
        i += 1;
    }
    PingResult::Pang
}

impl<M: Peer> Registry<M> {
    /// An empty registry with the given probe timeout and sample size.
    pub fn new(ping_timeout: Duration, k: usize) -> (r: Self)
        ensures
            r@ == Map::<usize, M>::empty(),
            r.timeout() == ping_timeout,
            r.sample_size() == k,
    {
        Registry { members: HashMap::new(), ping_timeout, k }
    }

    /// Adds `member` under `id`, replacing any member that had that id.
    pub fn add(&mut self, id: usize, member: M)
        ensures
            final(self)@ == old(self)@.insert(id, member),
            final(self).same_settings(old(self)),
    {
        self.members.insert(id, member);
    }

    /// Removes the member with `id` and hands it back, if there was one.
    pub fn remove(&mut self, id: &usize) -> (r: Option<M>)
        ensures
            final(self)@ == old(self)@.remove(*id),
            final(self).same_settings(old(self)),
            r == (if old(self)@.contains_key(*id) {
                Some(old(self)@[*id])
            } else {
                None::<M>
            }),
    {
        self.members.remove(id)
    }

    /// The ids of the members, in the order in which the map is walked.
    fn member_ids(&self) -> (ids: Vec<usize>)
        ensures
            ids@.no_duplicates(),
            ids@.to_set() == self@.dom(),
            ids@.len() == self@.len(),
    {
        let mut ids: Vec<usize> = Vec::new();
        for k in it: self.members.keys()
            invariant
                it.seq() == spec_keys_iter(&self.members).remaining(),
                ids@.len() == it.index(),
                forall|i: int| 0 <= i < it.index() ==> ids@[i] == *it.seq()[i],
        {
            ids.push(*k);
        }
        proof {
            let walk = spec_keys_iter(&self.members).remaining();
            assert(ids@ =~= walk.unref());
        }
        ids
    }

    /// A member chosen at random, or nothing when the registry is empty.
    pub fn pick_random(&self) -> (r: Option<usize>)
        ensures
            r is None <==> self@.len() == 0,
            r matches Some(id) ==> self@.contains_key(id),
    {
        let ids = self.member_ids();
        if ids.len() == 0 {
            None
        } else {
            let mut rng = sampling::thread_rng();
            let draw = sampling::gen_index(&mut rng, ids.len());
            let r = pick_with_draw(&ids, draw);
            proof {
                let id = r->0;
                assert(ids@.contains(id));
                assert(ids@.to_set().contains(id));
            }
            r
        }
    }

    /// Up to `k` members, all different: as many as there are when there
    /// are fewer than `k`. Which ones is left to the order in which the map
    /// is walked.
    pub fn pick_k_random(&self) -> (r: Vec<usize>)
        ensures
            valid_helpers(self@, self.sample_size(), r@),
    {
        let ids = self.member_ids();
        let mut r: Vec<usize> = Vec::new();
        let mut i: usize = 0;
        while i < ids.len() && i < self.k
            invariant
                i <= ids@.len(),
                ids@.len() == self@.len(),
                i <= self.k,
                r@ == ids@.take(i as int),
            decreases ids@.len() - i,
        {
            r.push(ids[i]);
            proof {
                assert(ids@.take(i as int).push(ids@[i as int]) =~= ids@.take(i + 1));
            }
            i += 1;
        }
        proof {
            assert forall|a: int, b: int| 0 <= a < r@.len() && 0 <= b < r@.len() && a != b implies r@[a] != r@[b] by {
                assert(r@[a] == ids@[a] && r@[b] == ids@[b]);
            }
            assert forall|a: int| 0 <= a < r@.len() implies self@.contains_key(#[trigger] r@[a]) by {
                assert(r@[a] == ids@[a]);
                assert(ids@.contains(ids@[a]));
                assert(ids@.to_set().contains(ids@[a]));
            }
        }
        r
    }

    /// Tells every member that `failed_member` has failed, each one once.
    /// The set of members is unchanged; each member may update itself while
    /// it is told. Returns, for every member in the order they were told,
    /// its id and what the announcement returned.
    pub fn broadcast_failure(&mut self, failed_member: &mut M) -> (announcements: Vec<(usize, Result<(), PeerError>)>)
        ensures
            final(self)@.dom() == old(self)@.dom(),
            final(self).same_settings(old(self)),
            *final(failed_member) == *old(failed_member),
            announced_ids(announcements@).no_duplicates(),
            announced_ids(announcements@).to_set() == old(self)@.dom(),
            forall|i: int|
                0 <= i < announcements@.len() ==> M::told_failure(
                    old(self)@[#[trigger] announcements@[i].0],
                    *old(failed_member),
                    final(self)@[announcements@[i].0],
                    announcements@[i].1,
                ),
    {
        let ghost dom0 = self@.dom();
        let ids = self.member_ids();
        let mut announcements: Vec<(usize, Result<(), PeerError>)> = Vec::new();
        let mut i: usize = 0;
        while i < ids.len()
            invariant
                i <= ids@.len(),
                ids@.to_set() == dom0,
                self@.dom() == dom0,
                self.same_settings(old(self)),
                announcements@.len() == i,
                announced_ids(announcements@) == ids@.take(i as int),
                ids@.no_duplicates(),
                *failed_member == *old(failed_member),
                forall|j: int|
                    0 <= j < i ==> M::told_failure(
                        old(self)@[#[trigger] ids@[j]],
                        *old(failed_member),
                        self@[ids@[j]],
                        announcements@[j].1,
                    ),
                forall|j: int| i <= j < ids@.len() ==> self@[#[trigger] ids@[j]] == old(self)@[ids@[j]],
            decreases ids@.len() - i,
        {
            let id = ids[i];
            proof {
                assert(ids@.contains(id));
                assert(ids@.to_set().contains(id));
            }
            let mut m = self.members.remove(&id).unwrap();
            let res = m.announce_failure(&*failed_member);
            self.members.insert(id, m);
            proof {
                assert(self@.dom() =~= dom0);
            }
            let ghost prev = announcements@;
            announcements.push((id, res));
            proof {
                assert forall|j: int| 0 <= j < ids@.len() && j != i implies #[trigger] ids@[j] != id by {}
                assert forall|j: int| 0 <= j < i + 1 implies #[trigger] announced_ids(announcements@)[j]
                    == ids@.take(i + 1)[j] by {
                    if j < i {
                        assert(announcements@[j] == prev[j]);
                        assert(announced_ids(prev)[j] == ids@.take(i as int)[j]);
                    }
                }
                assert(announced_ids(announcements@) =~= ids@.take(i + 1));
            }
            i += 1;
        }
        proof {
            assert(ids@.take(ids@.len() as int) =~= ids@);
            assert forall|j: int| 0 <= j < announcements@.len() implies M::told_failure(
                old(self)@[#[trigger] announcements@[j].0],
                *old(failed_member),
                self@[announcements@[j].0],
                announcements@[j].1,
            ) by {
                assert(announced_ids(announcements@)[j] == ids@[j]);
            }
        }
        announcements
    }

    /// One round of failure detection. A member is picked at random and
    /// taken out of the group while it is tested: it is probed directly, and
    /// if it does not answer, up to `k` of the remaining members are asked to
    /// probe it. A member that answered, directly or through another, is put
    /// back; one that did not stays out, and its failure is announced to all
    /// remaining members. Nothing happens when the group is empty.
    pub fn perform_periodic_check(&mut self) -> (outcome: Option<CheckOutcome>)
        ensures
            round_effect(old(self)@, final(self)@, old(self).sample_size(), old(self).timeout(), outcome),
            final(self).same_settings(old(self)),
    {
        match self.pick_random() {
            None => None,
            Some(id) => {
                let mut removed = self.members.remove(&id).unwrap();
                let (direct, helpers, responses, targets) = self.test_member(&mut removed);
                let ghost mid = self@;
                let result = if direct.answered() {
                    PingResult::Pong
                } else {
                    combine_responses(&responses)
                };
                proof {
                    assert forall|i: int| 0 <= i < helpers@.len() implies
                        #[trigger] old(self)@.remove(id)[helpers@[i]] == old(self)@[helpers@[i]] by {
                        if direct is Pang {
                            assert(old(self)@.remove(id).contains_key(helpers@[i]));
                        }
                    }
                    assert(mid.dom() =~= old(self)@.dom().remove(id));
                }
                match result {
                    PingResult::Pong => {
                        self.members.insert(id, removed);
                        proof {
                            assert(self@.dom() =~= old(self)@.dom());
                        }
                        let outcome = CheckOutcome { id, direct, helpers, responses, result, announcements: Vec::new() };
                        proof {
                            assert(round_trace(old(self)@, self@, old(self).timeout(), outcome, targets@, mid));
                        }
                        Some(outcome)
                    },
                    PingResult::Pang => {
                        let announcements = self.broadcast_failure(&mut removed);
                        let outcome = CheckOutcome { id, direct, helpers, responses, result, announcements };
                        proof {
                            assert(round_trace(old(self)@, self@, old(self).timeout(), outcome, targets@, mid));
                        }
                        Some(outcome)
                    },
                }
            },
        }
    }

    /// Probes `mj` directly, with the registry's timeout, and, if it does
    /// not answer, through the other members; returns the direct answer, the
    /// members that were asked, their answers, and the states `mj` went
    /// through, one for the direct probe and one for each probe on its
    /// behalf. The set of members is unchanged.
    fn test_member(&mut self, mj: &mut M) -> (r: (PingResult, Vec<usize>, Vec<PingResult>, Ghost<Seq<M>>))
        ensures
            final(self)@.dom() == old(self)@.dom(),
            final(self).same_settings(old(self)),
            r.0 is Pong ==> r.1@.len() == 0,
            r.0 is Pang ==> valid_helpers(old(self)@, old(self).sample_size(), r.1@),
            r.2@.len() == r.1@.len(),
            forall|x: usize|
                #[trigger] old(self)@.contains_key(x) && !r.1@.contains(x) ==> final(self)@[x] == old(self)@[x],
            r.3@.len() == r.1@.len() + 2,
            r.3@[0] == *old(mj),
            r.3@.last() == *final(mj),
            M::probed(r.3@[0], old(self).timeout(), r.3@[1], r.0),
            forall|i: int|
                0 <= i < r.1@.len() ==> M::probed_for(
                    old(self)@[#[trigger] r.1@[i]],
                    r.3@[i + 1],
                    old(self).timeout(),
                    final(self)@[r.1@[i]],
                    r.3@[i + 2],
                    r.2@[i],
                ),
    {
        let ghost mj0 = *mj;
        let direct = mj.ping(self.ping_timeout);
        match direct {
            PingResult::Pong => {
                let ghost t = seq![mj0, *mj];
                let trace: Ghost<Seq<M>> = Ghost(t);
                (direct, Vec::new(), Vec::new(), trace)
            },
            PingResult::Pang => {
                let ghost mj1 = *mj;
                let (helpers, responses, targets) = self.try_neighbours(mj);
                proof {
                    let all = seq![mj0] + targets@;
                    assert(all[0] == mj0);
                    assert(all[1] == mj1);
                    assert forall|i: int| 0 <= i < helpers@.len() implies M::probed_for(
                        old(self)@[#[trigger] helpers@[i]],
                        all[i + 1],
                        old(self).timeout(),
                        self@[helpers@[i]],
                        all[i + 2],
                        responses@[i],
                    ) by {
                        assert(all[i + 1] == targets@[i]);
                        assert(all[i + 2] == targets@[i + 1]);
                    }
                }
                let ghost t = seq![mj0] + targets@;
                let trace: Ghost<Seq<M>> = Ghost(t);
                (direct, helpers, responses, trace)
            },
        }
    }

    /// Asks up to `k` members, each one once, to probe `mj`; returns the
    /// members that were asked and their answers, in the same order, and
    /// the states `mj` went through: each helper made one `ping_request`
    /// with `mj` as target and the registry's timeout, and nothing else
    /// changed. The set of members is unchanged.
    fn try_neighbours(&mut self, mj: &mut M) -> (r: (Vec<usize>, Vec<PingResult>, Ghost<Seq<M>>))
        ensures
            final(self)@.dom() == old(self)@.dom(),
            final(self).same_settings(old(self)),
            valid_helpers(old(self)@, old(self).sample_size(), r.0@),
            r.1@.len() == r.0@.len(),
            forall|x: usize|
                #[trigger] old(self)@.contains_key(x) && !r.0@.contains(x) ==> final(self)@[x] == old(self)@[x],
            r.2@.len() == r.0@.len() + 1,
            r.2@[0] == *old(mj),
            r.2@.last() == *final(mj),
            forall|i: int|
                0 <= i < r.0@.len() ==> M::probed_for(
                    old(self)@[#[trigger] r.0@[i]],
                    r.2@[i],
                    old(self).timeout(),
                    final(self)@[r.0@[i]],
                    r.2@[i + 1],
                    r.1@[i],
                ),
    {
        let timeout = self.ping_timeout;
        let neighbours = self.pick_k_random();
        let ghost dom0 = self@.dom();
        let ghost mut targets: Seq<M> = Seq::empty().push(*mj);
        let mut responses: Vec<PingResult> = Vec::new();
        let mut i: usize = 0;
        while i < neighbours.len()
            invariant
                i <= neighbours@.len(),
                responses@.len() == i,
                forall|j: int| 0 <= j < neighbours@.len() ==> dom0.contains(#[trigger] neighbours@[j]),
                valid_helpers(old(self)@, old(self).sample_size(), neighbours@),
                self@.dom() == dom0,
                self.same_settings(old(self)),
                timeout == old(self).timeout(),
                dom0 == old(self)@.dom(),
                forall|x: usize|
                    #[trigger] old(self)@.contains_key(x) && !neighbours@.contains(x) ==> self@[x] == old(self)@[x],
                forall|j: int| i <= j < neighbours@.len() ==> self@[#[trigger] neighbours@[j]] == old(self)@[neighbours@[j]],
                targets.len() == i + 1,
                targets[0] == *old(mj),
                targets[i as int] == *mj,
                forall|j: int|
                    0 <= j < i ==> M::probed_for(
                        old(self)@[#[trigger] neighbours@[j]],
                        targets[j],
                        timeout,
                        self@[neighbours@[j]],
                        targets[j + 1],
                        responses@[j],
                    ),
            decreases neighbours@.len() - i,
        {
            let id = neighbours[i];
            proof {
                assert(neighbours@.contains(id));
                assert forall|j: int| 0 <= j < neighbours@.len() && j != i implies #[trigger] neighbours@[j] != id by {}
            }
            let mut n = self.members.remove(&id).unwrap();
            let answer = n.ping_request(mj, timeout);
            self.members.insert(id, n);
            proof {
                assert(self@.dom() =~= dom0);
                targets = targets.push(*mj);
            }
            responses.push(answer);
            i += 1;
        }
        let trace: Ghost<Seq<M>> = Ghost(targets);
        (neighbours, responses, trace)
    }
}

/// Adding a member and then removing it by its id hands back that member,
/// and, when the id was not in use, leaves the members as they were.
pub proof fn lemma_add_then_remove<M>(before: Map<usize, M>, id: usize, member: M)
    ensures
        before.insert(id, member).contains_key(id),
        before.insert(id, member)[id] == member,
        before.insert(id, member).remove(id) == before.remove(id),
        !before.contains_key(id) ==> before.insert(id, member).remove(id) == before,
{
    assert(before.insert(id, member).remove(id) =~= before.remove(id));
    if !before.contains_key(id) {
        assert(before.remove(id) =~= before);
    }
}

/// A round of failure detection never adds a member and removes at most
/// one: the probed member, and only when it did not answer. Every other
/// member is still there afterwards, and, when a member is removed, each of
/// them is told of it once.
pub proof fn lemma_round_removes_at_most_the_probed<M: Peer>(
    before: Map<usize, M>,
    after: Map<usize, M>,
    k: nat,
    timeout: Duration,
    outcome: Option<CheckOutcome>,
)
    requires
        before.dom().finite(),
        round_effect(before, after, k, timeout, outcome),
    ensures
        after.dom().subset_of(before.dom()),
        after.len() <= before.len() <= after.len() + 1,
        forall|x: usize|
            #[trigger] before.contains_key(x) && !(outcome matches Some(o) && o.id == x) ==> after.contains_key(x),
        outcome matches Some(o) ==> (after.contains_key(o.id) <==> o.result is Pong),
        outcome matches Some(o) ==> (o.result is Pang <==> after.len() + 1 == before.len()),
        outcome matches Some(o) ==> (o.result is Pang ==> o.announcements@.len() == after.len()),
{
    match outcome {
        None => {},
        Some(o) => {
            if o.result is Pang {
                announced_ids(o.announcements@).unique_seq_to_set();
                assert(after.dom() == before.dom().remove(o.id));
                assert(after.dom().len() + 1 == before.dom().len());
            } else {
                assert(after.dom() == before.dom());
            }
        },
    }
}

/// The members asked to probe a member that did not answer directly are
/// other members of the group: never the probed member itself, never one
/// twice, and `k` of them, or all others when there are fewer. A member is
/// declared failed only when all of them were asked and none got an answer.
pub proof fn lemma_helpers_are_other_members<M: Peer>(
    before: Map<usize, M>,
    after: Map<usize, M>,
    k: nat,
    timeout: Duration,
    outcome: Option<CheckOutcome>,
)
    requires
        before.dom().finite(),
        round_effect(before, after, k, timeout, outcome),
    ensures
        outcome matches Some(o) ==> forall|i: int|
            0 <= i < o.helpers@.len() ==> #[trigger] o.helpers@[i] != o.id && before.contains_key(o.helpers@[i]),
        outcome matches Some(o) ==> o.helpers@.no_duplicates(),
        outcome matches Some(o) ==> (o.result is Pang ==> o.helpers@.len() == min_nat(k, (before.len() - 1) as nat)),
        outcome matches Some(o) ==> (o.result is Pang ==> forall|i: int|
            0 <= i < o.responses@.len() ==> #[trigger] o.responses@[i] is Pang),
{
    match outcome {
        None => {},
        Some(o) => {
            assert forall|i: int| 0 <= i < o.helpers@.len() implies #[trigger] o.helpers@[i] != o.id
                && before.contains_key(o.helpers@[i]) by {
                assert(before.remove(o.id).contains_key(o.helpers@[i]));
            }
            if o.result is Pang {
                assert(before.remove(o.id).dom() == before.dom().remove(o.id));
            }
        },
    }
}

/// A draw `d` between 1 and the number of ids picks the id at position
/// `d - 1` of the walk, whatever the number of ids; so over distinct ids,
/// distinct draws of at least 1 pick distinct members, and the draws in
/// `0..n` reach `n - 1` different members of a group of `n >= 2`: all but
/// the last of the walk.
pub proof fn lemma_draw_selects_position(ids: Seq<usize>, d1: int, d2: int)
    requires
        ids.no_duplicates(),
        ids.len() >= 2,
        1 <= d1 <= ids.len(),
        1 <= d2 <= ids.len(),
    ensures
        picked_by_draw(ids, d1) == Some(ids[d1 - 1]),
        picked_by_draw(ids, 0) == picked_by_draw(ids, 1),
        d1 != d2 ==> picked_by_draw(ids, d1) != picked_by_draw(ids, d2),
        d1 < ids.len() ==> picked_by_draw(ids, d1) != Some(ids.last()),
{
}

} // verus!
