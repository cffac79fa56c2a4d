//! The registry: every dispatch group recorded so far, each with the
//! variants registered under its key.

use vstd::prelude::*;
use vstd::string::StringExecFns;
use crate::dispatch::{has_arity, Dispatcher, DispatcherView};
use crate::variant::{VariantRecord, VariantView};

verus! {

/// Whether `groups` holds a group under `key`.
pub open spec fn has_group(groups: Seq<DispatcherView>, key: Seq<char>) -> bool {
    exists|i: int| 0 <= i < groups.len() && (#[trigger] groups[i]).name == key
}

/// The position of the group under `key`, where there is one.
pub open spec fn group_of(groups: Seq<DispatcherView>, key: Seq<char>) -> int {
    choose|i: int| 0 <= i < groups.len() && (#[trigger] groups[i]).name == key
}

/// Whether a variant of `arity` parameters is recorded under `key`.
pub open spec fn recorded(groups: Seq<DispatcherView>, key: Seq<char>, arity: nat) -> bool {
    exists|i: int|
        0 <= i < groups.len() && (#[trigger] groups[i]).name == key && has_arity(
            groups[i].arms,
            arity,
        )
}

/// No two groups share a key.
pub open spec fn distinct_keys(groups: Seq<DispatcherView>) -> bool {
    forall|i: int, j: int|
        0 <= i < j < groups.len() ==> (#[trigger] groups[i]).name != (#[trigger] groups[j]).name
}

/// Keys are unique, and within a group no two variants share an arity.
pub open spec fn groups_wf(groups: Seq<DispatcherView>) -> bool {
    &&& distinct_keys(groups)
    &&& forall|i: int| 0 <= i < groups.len() ==> (#[trigger] groups[i]).wf()
}

/// `groups` with `variant` added under `key`: at the end of the group of
/// that key, or in a new last group where the key is new.
pub open spec fn with_variant(
    groups: Seq<DispatcherView>,
    key: Seq<char>,
    variant: VariantView,
) -> Seq<DispatcherView> {
    if has_group(groups, key) {
        let i = group_of(groups, key);
        groups.update(i, DispatcherView { name: key, arms: groups[i].arms.push(variant) })
    } else {
        groups.push(DispatcherView { name: key, arms: seq![variant] })
    }
}

/// The values of the dispatchers of `groups`, in order.
pub open spec fn dispatcher_views(groups: Seq<Dispatcher>) -> Seq<DispatcherView> {
    Seq::new(groups.len(), |i: int| groups[i]@)
}

/// The state shared by registration and emission. Groups stand in the order
/// in which their keys were first registered, variants in the order of their
/// registration.
pub struct Registry {
    groups: Vec<Dispatcher>,
}

impl View for Registry {
    type V = Seq<DispatcherView>;

    closed spec fn view(&self) -> Seq<DispatcherView> {
        dispatcher_views(self.groups@)
    }
}

impl Registry {
    /// Keys are unique, and within a group no two variants share an arity.
    pub open spec fn wf(&self) -> bool {
        groups_wf(self@)
    }

    /// A registry without any group.
    pub fn new() -> (r: Registry)
        ensures
            r.wf(),
            r@ == Seq::<DispatcherView>::empty(),
    {
        let r = Registry { groups: Vec::new() };
        proof {
            assert(r@ =~= Seq::<DispatcherView>::empty());
        }
        r
    }

    /// The number of dispatch groups.
    pub fn len(&self) -> (n: usize)
        ensures
            n == self@.len(),
    {
        self.groups.len()
    }

    /// Whether no variant is recorded.
    pub fn is_empty(&self) -> (b: bool)
        ensures
            b == (self@.len() == 0),
    {
        self.groups.len() == 0
    }

    /// The position of the group under `key`.
    fn position(&self, key: &String) -> (r: Option<usize>)
        ensures
            r is Some <==> has_group(self@, key@),
            r matches Some(i) ==> i < self@.len() && self@[i as int].name == key@,
    {
        let mut i: usize = 0;
        while i < self.groups.len()
            invariant
                i <= self.groups.len(),
                forall|k: int| 0 <= k < i ==> (#[trigger] self@[k]).name != key@,
            decreases self.groups.len() - i,
        {
            assert(self@[i as int].name == self.groups@[i as int].name@);
            if self.groups[i].name == *key {
                return Some(i);
            }
            i = i + 1;
        }
        None
    }

    /// Whether a variant of `arity` parameters is recorded under `key`.
    pub fn contains(&self, key: &str, arity: usize) -> (b: bool)
        requires
            self.wf(),
        ensures
            b == recorded(self@, key@, arity as nat),
    {
        let key = String::from_str(key);
        match self.position(&key) {
            Some(i) => {
                let found = self.groups[i].resolve(arity).is_some();
                proof {
                    lemma_recorded_at(self@, key@, arity as nat, i as int);
                }
                found
            },
            None => {
                proof {
                    lemma_recorded_has_group(self@, key@, arity as nat);
                }
                false
            },
        }
    }

    /// Records `record` under `key` unless a variant of the same arity is
    /// already there. Returns whether the record was added.
    pub fn insert(&mut self, key: String, record: VariantRecord) -> (added: bool)
        requires
            old(self).wf(),
            record.wf(),
        ensures
            final(self).wf(),
            added == !recorded(old(self)@, key@, record@.arity),
            added ==> final(self)@ == with_variant(old(self)@, key@, record@),
            !added ==> final(self)@ == old(self)@,
    {
        let ghost before = self@;
        match self.position(&key) {
            Some(i) => {
                proof {
                    lemma_recorded_at(before, key@, record@.arity, i as int);
                    lemma_unique_position(before, key@, i as int);
                }
                if self.groups[i].resolve(record.arity).is_some() {
                    return false;
                }
                let mut group = self.groups.remove(i);
                let ghost arms_before = group@.arms;
                group.arms.push(record);
                proof {
                    assert(group@.arms =~= arms_before.push(record@));
                    assert(before[i as int].wf());
                    assert(group@.wf()) by {
                        assert forall|a: int, b: int| 0 <= a < b < group@.arms.len() implies (
                        #[trigger] group@.arms[a]).arity != (#[trigger] group@.arms[b]).arity by {
                            if b < arms_before.len() {
                                assert(arms_before[a].arity != arms_before[b].arity);
                            } else {
                                assert(arms_before[a].arity != record@.arity);
                            }
                        }
                    }
                }
                self.groups.insert(i, group);
                proof {
                    assert(self@ =~= with_variant(before, key@, record@));
                    assert(distinct_keys(self@)) by {
                        assert forall|a: int, b: int| 0 <= a < b < self@.len() implies (
                        #[trigger] self@[a]).name != (#[trigger] self@[b]).name by {
                            assert(before[a].name != before[b].name);
                        }
                    }
                    assert forall|a: int| 0 <= a < self@.len() implies (#[trigger] self@[a]).wf() by {
                        if a != i {
                            assert(before[a].wf());
                        }
                    }
                }
                true
            },
            None => {
                proof {
                    lemma_recorded_has_group(before, key@, record@.arity);
                }
                let mut arms: Vec<VariantRecord> = Vec::new();
                arms.push(record);
                let group = Dispatcher { name: key, arms };
                proof {
                    assert(group@.arms =~= seq![record@]);
                }
                self.groups.push(group);
                proof {
                    assert(self@ =~= with_variant(before, key@, record@));
                    assert(distinct_keys(self@)) by {
                        assert forall|a: int, b: int| 0 <= a < b < self@.len() implies (
                        #[trigger] self@[a]).name != (#[trigger] self@[b]).name by {
                            if b < before.len() {
                                assert(before[a].name != before[b].name);
                            } else {
                                assert(before[a].name != key@);
                            }
                        }
                    }
                    assert forall|a: int| 0 <= a < self@.len() implies (#[trigger] self@[a]).wf() by {
                        if a < before.len() {
                            assert(before[a].wf());
                        }
                    }
                }
                true
            },
        }
    }

    /// Hands out every group and leaves the registry empty.
    pub fn drain(&mut self) -> (groups: Vec<Dispatcher>)
        requires
            old(self).wf(),
        ensures
            final(self).wf(),
            final(self)@ == Seq::<DispatcherView>::empty(),
            dispatcher_views(groups@) == old(self)@,
            forall|i: int| 0 <= i < groups@.len() ==> (#[trigger] groups@[i]).wf(),
    {
        let mut groups: Vec<Dispatcher> = Vec::new();
        core::mem::swap(&mut self.groups, &mut groups);
        proof {
            assert(self@ =~= Seq::<DispatcherView>::empty());
            assert forall|i: int| 0 <= i < groups@.len() implies (#[trigger] groups@[i]).wf() by {
                assert(old(self)@[i].wf());
            }
        }
        groups
    }
}

/// A variant is recorded only under a key that has a group.
pub proof fn lemma_recorded_has_group(groups: Seq<DispatcherView>, key: Seq<char>, arity: nat)
    ensures
        recorded(groups, key, arity) ==> has_group(groups, key),
{
    if recorded(groups, key, arity) {
        let k = choose|k: int|
            0 <= k < groups.len() && (#[trigger] groups[k]).name == key && has_arity(
                groups[k].arms,
                arity,
            );
        assert(groups[k].name == key);
    }
}

/// Where keys are distinct, a variant is recorded under a key exactly when
/// the one group of that key has an arm of its arity.
pub proof fn lemma_recorded_at(groups: Seq<DispatcherView>, key: Seq<char>, arity: nat, i: int)
    requires
        distinct_keys(groups),
        0 <= i < groups.len(),
        groups[i].name == key,
    ensures
        recorded(groups, key, arity) <==> has_arity(groups[i].arms, arity),
{
    if recorded(groups, key, arity) {
        let k = choose|k: int|
            0 <= k < groups.len() && (#[trigger] groups[k]).name == key && has_arity(
                groups[k].arms,
                arity,
            );
        if k < i {
            assert(groups[k].name != groups[i].name);
        } else if i < k {
            assert(groups[i].name != groups[k].name);
        }
    }
    if has_arity(groups[i].arms, arity) {
        assert(groups[i].name == key && has_arity(groups[i].arms, arity));
    }
}

/// Where keys are distinct, the group under a key stands at one position.
pub proof fn lemma_unique_position(groups: Seq<DispatcherView>, key: Seq<char>, i: int)
    requires
        distinct_keys(groups),
        0 <= i < groups.len(),
        groups[i].name == key,
    ensures
        has_group(groups, key),
        group_of(groups, key) == i,
{
    let j = group_of(groups, key);
    if j < i {
        assert(groups[j].name != groups[i].name);
    } else if i < j {
        assert(groups[i].name != groups[j].name);
    }
}

} // verus!
