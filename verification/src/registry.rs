//! The tuner registry: the set of tuner names currently bound to a live
//! session, and the selection policy that allocates a free tuner.
//!
//! All allocation attempts in the server are serialized by a single lock
//! around one `TunerRegistry` value; the contracts here describe what each
//! critical section does to the set of active names.

use crate::mirakurun_conf::Tuner;
use vstd::prelude::*;

verus! {

/// A tuner is eligible for a request of type `channel_type` when it
/// supports that type, is not disabled, and is not already allocated.
pub open spec fn eligible(t: Tuner, channel_type: Seq<char>, active: Seq<Seq<char>>) -> bool {
    &&& t.types.deep_view().contains(channel_type)
    &&& !t.is_disabled
    &&& !active.contains(t.name@)
}

/// Index of the first tuner at or after `i` that is eligible, scanning in
/// catalog declaration order; `None` when no tuner from `i` on is eligible.
pub open spec fn first_eligible_from(
    tuners: Seq<Tuner>,
    channel_type: Seq<char>,
    active: Seq<Seq<char>>,
    i: int,
) -> Option<int>
    decreases tuners.len() - i when 0 <= i <= tuners.len()
{
    if i == tuners.len() {
        None
    } else if eligible(tuners[i], channel_type, active) {
        Some(i)
    } else {
        first_eligible_from(tuners, channel_type, active, i + 1)
    }
}

/// The tuner the selection policy picks: the first eligible one in
/// catalog declaration order.
pub open spec fn first_eligible(
    tuners: Seq<Tuner>,
    channel_type: Seq<char>,
    active: Seq<Seq<char>>,
) -> Option<int> {
    first_eligible_from(tuners, channel_type, active, 0)
}

/// The set of tuner names currently bound to an active session.
pub struct TunerRegistry {
    active: Vec<String>,
}

impl TunerRegistry {
    /// The names of the currently allocated tuners, in allocation order.
    pub closed spec fn names(&self) -> Seq<Seq<char>> {
        self.active.deep_view()
    }

    /// A name is bound to at most one live session at a time.
    pub open spec fn wf(&self) -> bool {
        forall|i: int, j: int|
            0 <= i < j < self.names().len() ==> self.names()[i] != self.names()[j]
    }

    /// The empty registry that exists at process start.
    pub fn new() -> (r: Self)
        ensures
            r.names().len() == 0,
            r.wf(),
    {
        let r = TunerRegistry { active: Vec::new() };
        proof {
            assert(r.names() =~= Seq::<Seq<char>>::empty());
        }
        r
    }

    /// Whether `name` is currently allocated.
    #[verifier::loop_isolation(false)]
    pub fn contains_name(&self, name: &String) -> (r: bool)
        ensures
            r == self.names().contains(name@),
    {
        let mut i: usize = 0;
        while i < self.active.len()
            invariant
                0 <= i <= self.active.len(),
                self.names().len() == self.active.len(),
                forall|j: int| 0 <= j < i ==> self.names()[j] != name@,
            decreases self.active.len() - i,
        {
            proof {
                assert(self.names()[i as int] == self.active@[i as int]@);
            }
            if self.active[i].eq(name) {
                return true;
            }
            i = i + 1;
        }
        false
    }

    /// One atomic allocation attempt: scan the catalog's tuners for the
    /// first one that supports `channel_type`, is not disabled and is not
    /// already allocated; if one exists, record its name as allocated and
    /// return its index in the catalog.
    #[verifier::loop_isolation(false)]
    pub fn try_allocate(&mut self, tuners: &Vec<Tuner>, channel_type: &String) -> (r: Option<
        usize,
    >)
        requires
            old(self).wf(),
        ensures
            final(self).wf(),
            match r {
                Some(i) => {
                    &&& first_eligible(tuners@, channel_type@, old(self).names()) == Some(
                        i as int,
                    )
                    &&& i < tuners@.len()
                    &&& final(self).names() == old(self).names().push(tuners@[i as int].name@)
                },
                None => {
                    &&& first_eligible(tuners@, channel_type@, old(self).names()) is None
                    &&& *final(self) == *old(self)
                },
            },
    {
        let ghost active0 = self.names();
        let mut i: usize = 0;
        while i < tuners.len()
            invariant
                0 <= i <= tuners@.len(),
                *self == *old(self),
                active0 == self.names(),
                self.wf(),
                first_eligible_from(tuners@, channel_type@, active0, 0)
                    == first_eligible_from(tuners@, channel_type@, active0, i as int),
            decreases tuners@.len() - i,
        {
            let t = &tuners[i];
            if !t.is_disabled && contains_string(&t.types, channel_type)
                && !self.contains_name(&t.name) {
                proof {
                    assert(eligible(tuners@[i as int], channel_type@, active0));
                }
                let ghost pre = self.names();
                self.active.push(t.name.clone());
                proof {
                    assert(self.names() =~= pre.push(tuners@[i as int].name@));
                    assert(forall|j: int|
                        0 <= j < pre.len() ==> self.names()[j] == pre[j]);
                    assert(!pre.contains(tuners@[i as int].name@));
                    assert forall|a: int, b: int|
                        0 <= a < b < self.names().len() implies self.names()[a]
                        != self.names()[b] by {
                        if b == pre.len() {
                            assert(self.names()[a] == pre[a]);
                            assert(pre.contains(pre[a]));
                        }
                    }
                }
                return Some(i);
            }
            proof {
                assert(!eligible(tuners@[i as int], channel_type@, active0));
            }
            i = i + 1;
        }
        None
    }

    /// Frees a tuner: removes `name` from the set of allocated names.
    /// Releasing a name that is not allocated is a no-op, so a session's
    /// cleanup may run defensively more than once without harm.
    #[verifier::loop_isolation(false)]
    pub fn release(&mut self, name: &String)
        requires
            old(self).wf(),
        ensures
            final(self).wf(),
            !final(self).names().contains(name@),
            forall|m: Seq<char>|
                m != name@ ==> (final(self).names().contains(m) == old(
                    self,
                ).names().contains(m)),
            old(self).names().contains(name@) ==> final(self).names().len() == old(
                self,
            ).names().len() - 1,
            !old(self).names().contains(name@) ==> *final(self) == *old(self),
    {
        let ghost names0 = self.names();
        let mut i: usize = 0;
        while i < self.active.len()
            invariant
                0 <= i <= self.active.len(),
                *self == *old(self),
                names0 == self.names(),
                self.wf(),
                self.names().len() == self.active.len(),
                forall|j: int| 0 <= j < i ==> self.names()[j] != name@,
            decreases self.active.len() - i,
        {
            proof {
                assert(self.names()[i as int] == self.active@[i as int]@);
            }
            if self.active[i].eq(name) {
                proof {
                    assert(self.names()[i as int] == name@);
                    assert(names0.contains(name@));
                }
                self.active.remove(i);
                proof {
                    assert(self.names() =~= names0.subrange(0, i as int) + names0.subrange(
                        i as int + 1,
                        names0.len() as int,
                    ));
                    assert forall|m: Seq<char>| m != name@ implies (self.names().contains(m)
                        == names0.contains(m)) by {
                        if self.names().contains(m) {
                            let k = choose|k: int|
                                0 <= k < self.names().len() && self.names()[k] == m;
                            if k < i {
                                assert(names0[k] == m);
                            } else {
                                assert(names0[k + 1] == m);
                            }
                        }
                        if names0.contains(m) {
                            let k = choose|k: int|
                                0 <= k < names0.len() && names0[k] == m;
                            if k < i {
                                assert(self.names()[k] == m);
                            } else {
                                assert(names0[i as int] == name@);
                                assert(k != i);
                                assert(self.names()[k - 1] == m);
                            }
                        }
                    }
                    assert forall|m: Seq<char>| self.names().contains(m) implies m != name@ by {
                        let k = choose|k: int|
                            0 <= k < self.names().len() && self.names()[k] == m;
                        if k < i {
                            assert(names0[k] == m);
                        } else {
                            assert(names0[k + 1] == m);
                            assert(names0[i as int] == name@);
                        }
                    }
                }
                return ;
            }
            i = i + 1;
        }
        proof {
            assert(forall|j: int| 0 <= j < names0.len() ==> names0[j] != name@);
            assert(!names0.contains(name@));
        }
    }
}

/// Whether `items` holds a string equal to `target`.
#[verifier::loop_isolation(false)]
pub fn contains_string(items: &Vec<String>, target: &String) -> (r: bool)
    ensures
        r == items.deep_view().contains(target@),
{
    let mut i: usize = 0;
    while i < items.len()
        invariant
            0 <= i <= items@.len(),
            items.deep_view().len() == items@.len(),
            forall|j: int| 0 <= j < i ==> items.deep_view()[j] != target@,
        decreases items@.len() - i,
    {
        proof {
            assert(items.deep_view()[i as int] == items@[i as int]@);
        }
        if items[i].eq(target) {
            return true;
        }
        i = i + 1;
    }
    false
}

/// What the selection policy guarantees of its result: the chosen index is
/// the first eligible one, and everything before it is ineligible.
pub proof fn lemma_first_eligible_from_spec(
    tuners: Seq<Tuner>,
    channel_type: Seq<char>,
    active: Seq<Seq<char>>,
    i: int,
)
    requires
        0 <= i <= tuners.len(),
    ensures
        match first_eligible_from(tuners, channel_type, active, i) {
            Some(k) => {
                &&& i <= k < tuners.len()
                &&& eligible(tuners[k], channel_type, active)
                &&& forall|j: int| i <= j < k ==> !eligible(tuners[j], channel_type, active)
            },
            None => forall|j: int|
                i <= j < tuners.len() ==> !eligible(tuners[j], channel_type, active),
        },
    decreases tuners.len() - i,
{
    if i < tuners.len() && !eligible(tuners[i], channel_type, active) {
        lemma_first_eligible_from_spec(tuners, channel_type, active, i + 1);
    }
}

/// An allocation never picks a tuner that is already bound: the name the
/// policy selects is absent from the set of active names. Together with
/// the registry's well-formedness this keeps every allocated name unique,
/// so with N tuners of a type at most N sessions ever stream that type.
pub proof fn lemma_allocation_is_fresh(
    tuners: Seq<Tuner>,
    channel_type: Seq<char>,
    active: Seq<Seq<char>>,
    i: int,
)
    requires
        first_eligible(tuners, channel_type, active) == Some(i),
    ensures
        0 <= i < tuners.len(),
        !active.contains(tuners[i].name@),
        !tuners[i].is_disabled,
        tuners[i].types.deep_view().contains(channel_type),
    decreases tuners.len(),
{
    lemma_first_eligible_from_spec(tuners, channel_type, active, 0);
}

/// Two allocations with no release in between never pick the same tuner
/// name: the first allocation records its name, and the second selects
/// only among tuners whose name is not recorded.
pub proof fn lemma_consecutive_allocations_distinct(
    tuners: Seq<Tuner>,
    type1: Seq<char>,
    type2: Seq<char>,
    active: Seq<Seq<char>>,
    i: int,
    j: int,
)
    requires
        first_eligible(tuners, type1, active) == Some(i),
        first_eligible(tuners, type2, active.push(tuners[i].name@)) == Some(j),
    ensures
        tuners[j].name@ != tuners[i].name@,
{
    lemma_allocation_is_fresh(tuners, type1, active, i);
    lemma_allocation_is_fresh(tuners, type2, active.push(tuners[i].name@), j);
    assert(active.push(tuners[i].name@)[active.len() as int] == tuners[i].name@);
    assert(active.push(tuners[i].name@).contains(tuners[i].name@));
}

/// The catalog tuners able to serve a given channel type.
pub open spec fn supporting_tuners(tuners: Seq<Tuner>, channel_type: Seq<char>) -> Set<int> {
    Set::new(
        |k: int|
            0 <= k < tuners.len() && tuners[k].types.deep_view().contains(channel_type),
    )
}

/// With N catalog tuners supporting a type, at most N sessions ever
/// stream that type simultaneously: each such session is bound to a
/// supporting tuner, no two of them to the same tuner name, so they
/// number at most the supporting tuners themselves.
pub proof fn lemma_at_most_n_streaming(
    tuners: Seq<Tuner>,
    channel_type: Seq<char>,
    bound: Seq<int>,
)
    requires
        forall|a: int|
            0 <= a < bound.len() ==> 0 <= #[trigger] bound[a] < tuners.len()
                && tuners[bound[a]].types.deep_view().contains(channel_type),
        forall|a: int, b: int|
            0 <= a < b < bound.len() ==> tuners[bound[a]].name@ != tuners[bound[b]].name@,
    ensures
        bound.len() <= supporting_tuners(tuners, channel_type).len(),
{
    assert forall|a: int, b: int|
        0 <= a < bound.len() && 0 <= b < bound.len() && a != b implies bound[a] != bound[b] by {
        if a < b {
            assert(tuners[bound[a]].name@ != tuners[bound[b]].name@);
        } else {
            assert(tuners[bound[b]].name@ != tuners[bound[a]].name@);
        }
    }
    assert(bound.no_duplicates());
    bound.unique_seq_to_set();
    let sup = supporting_tuners(tuners, channel_type);
    let all = vstd::set_lib::set_int_range(0, tuners.len() as int);
    vstd::set_lib::lemma_int_range(0, tuners.len() as int);
    assert(sup.subset_of(all));
    vstd::set_lib::lemma_len_subset(sup, all);
    assert(bound.to_set().subset_of(sup));
    vstd::set_lib::lemma_len_subset(bound.to_set(), sup);
}

/// A freed tuner becomes eligible again: as soon as some supporting,
/// non-disabled tuner's name is not among the active names - in
/// particular right after `release` removed it - an allocation attempt
/// for that type succeeds.
pub proof fn lemma_release_makes_eligible(
    tuners: Seq<Tuner>,
    channel_type: Seq<char>,
    active: Seq<Seq<char>>,
    i: int,
)
    requires
        0 <= i < tuners.len(),
        tuners[i].types.deep_view().contains(channel_type),
        !tuners[i].is_disabled,
        !active.contains(tuners[i].name@),
    ensures
        first_eligible(tuners, channel_type, active) is Some,
{
    lemma_first_eligible_from_spec(tuners, channel_type, active, 0);
    assert(eligible(tuners[i], channel_type, active));
}

} // verus!
