//! What holds of registration and emission over whole sequences of calls.

use vstd::prelude::*;
use crate::dispatch::{distinct_arities, first_with_arity, has_arity, DispatcherView};
use crate::registry::{
    distinct_keys, group_of, groups_wf, has_group, lemma_unique_position, recorded, with_variant,
};
use crate::variant::VariantView;

verus! {

/// The variants recorded under `key`, in the order of their registration;
/// none where the key has no group.
pub open spec fn arms_under(groups: Seq<DispatcherView>, key: Seq<char>) -> Seq<VariantView> {
    if has_group(groups, key) {
        groups[group_of(groups, key)].arms
    } else {
        Seq::empty()
    }
}

/// The arm that a call of `key` with `argc` arguments is routed to.
pub open spec fn routed(groups: Seq<DispatcherView>, key: Seq<char>, argc: nat) -> Option<
    VariantView,
> {
    first_with_arity(arms_under(groups, key), argc)
}

/// Where keys are distinct, a variant is recorded under a key exactly when
/// one of the arms under that key has its arity.
pub proof fn lemma_recorded_under(groups: Seq<DispatcherView>, key: Seq<char>, arity: nat)
    requires
        distinct_keys(groups),
    ensures
        recorded(groups, key, arity) <==> has_arity(arms_under(groups, key), arity),
{
    if has_group(groups, key) {
        let i = group_of(groups, key);
        crate::registry::lemma_recorded_at(groups, key, arity, i);
    } else {
        crate::registry::lemma_recorded_has_group(groups, key, arity);
        assert(!has_arity(Seq::<VariantView>::empty(), arity));
    }
}

/// Adding a variant under a key appends it to the arms under that key and
/// leaves the arms under every other key as they were.
pub proof fn lemma_with_variant(groups: Seq<DispatcherView>, key: Seq<char>, variant: VariantView)
    requires
        distinct_keys(groups),
    ensures
        distinct_keys(with_variant(groups, key, variant)),
        has_group(with_variant(groups, key, variant), key),
        arms_under(with_variant(groups, key, variant), key) == arms_under(groups, key).push(
            variant,
        ),
        forall|other: Seq<char>|
            other != key ==> #[trigger] arms_under(with_variant(groups, key, variant), other)
                == arms_under(groups, other),
        forall|other: Seq<char>|
            other != key ==> (#[trigger] has_group(with_variant(groups, key, variant), other)
                <==> has_group(groups, other)),
{
    let after = with_variant(groups, key, variant);
    let at: int = if has_group(groups, key) {
        group_of(groups, key)
    } else {
        groups.len() as int
    };
    assert(0 <= at < after.len() && after[at].name == key);
    assert forall|i: int, j: int| 0 <= i < j < after.len() implies (#[trigger] after[i]).name != (
    #[trigger] after[j]).name by {
        if j < groups.len() {
            assert(groups[i].name != groups[j].name);
        } else {
            assert(groups[i].name == after[i].name);
        }
    }
    lemma_unique_position(after, key, at);
    assert(arms_under(after, key) =~= arms_under(groups, key).push(variant));
    assert forall|other: Seq<char>| other != key implies (#[trigger] has_group(after, other)
        <==> has_group(groups, other)) by {
        if has_group(after, other) {
            let i = group_of(after, other);
            assert(i != at);
            assert(groups[i].name == other);
        }
        if has_group(groups, other) {
            let i = group_of(groups, other);
            assert(after[i].name == other);
        }
    }
    assert forall|other: Seq<char>| other != key implies #[trigger] arms_under(after, other)
        == arms_under(groups, other) by {
        if has_group(groups, other) {
            let i = group_of(groups, other);
            assert(after[i].name == other);
            lemma_unique_position(after, other, i);
        }
    }
}

/// An arm of a given arity is among `arms` with `variant` appended exactly
/// when it was among `arms` or `variant` has that arity.
pub proof fn lemma_has_arity_push(arms: Seq<VariantView>, variant: VariantView, arity: nat)
    ensures
        has_arity(arms.push(variant), arity) <==> has_arity(arms, arity) || variant.arity == arity,
{
    let after = arms.push(variant);
    if has_arity(arms, arity) {
        let i = choose|i: int| 0 <= i < arms.len() && (#[trigger] arms[i]).arity == arity;
        assert(after[i].arity == arity);
    }
    if variant.arity == arity {
        assert(after[arms.len() as int].arity == arity);
    }
    if has_arity(after, arity) {
        let i = choose|i: int| 0 <= i < after.len() && (#[trigger] after[i]).arity == arity;
        if i < arms.len() {
            assert(arms[i].arity == arity);
        }
    }
}

/// Appending an arm changes the routing of its own arity only, and of that
/// only where no earlier arm had it.
pub proof fn lemma_first_with_arity_push(arms: Seq<VariantView>, variant: VariantView, argc: nat)
    ensures
        first_with_arity(arms.push(variant), argc) == if has_arity(arms, argc) {
            first_with_arity(arms, argc)
        } else if variant.arity == argc {
            Some(variant)
        } else {
            None
        },
    decreases arms.len(),
{
    let after = arms.push(variant);
    if arms.len() == 0 {
        assert(!has_arity(arms, argc));
        assert(after.drop_first() =~= arms);
    } else if arms[0].arity == argc {
        assert(has_arity(arms, argc));
    } else {
        let rest = arms.drop_first();
        assert(after.drop_first() =~= rest.push(variant));
        lemma_first_with_arity_push(rest, variant, argc);
        if has_arity(arms, argc) {
            let i = choose|i: int| 0 <= i < arms.len() && (#[trigger] arms[i]).arity == argc;
            assert(rest[i - 1].arity == argc);
        }
        if has_arity(rest, argc) {
            let i = choose|i: int| 0 <= i < rest.len() && (#[trigger] rest[i]).arity == argc;
            assert(arms[i + 1].arity == argc);
        }
    }
}

/// Adding a well-formed variant whose arity is new under its key keeps the
/// registry well formed.
pub proof fn lemma_with_variant_wf(
    groups: Seq<DispatcherView>,
    key: Seq<char>,
    variant: VariantView,
)
    requires
        groups_wf(groups),
        variant.wf(),
        !recorded(groups, key, variant.arity),
    ensures
        groups_wf(with_variant(groups, key, variant)),
{
    let after = with_variant(groups, key, variant);
    lemma_with_variant(groups, key, variant);
    lemma_recorded_under(groups, key, variant.arity);
    let at: int = if has_group(groups, key) {
        group_of(groups, key)
    } else {
        groups.len() as int
    };
    let before_arms = arms_under(groups, key);
    assert forall|i: int| 0 <= i < after.len() implies (#[trigger] after[i]).wf() by {
        if i == at {
            let arms = after[i].arms;
            assert(arms =~= before_arms.push(variant));
            if has_group(groups, key) {
                assert(groups[at].wf());
            }
            assert forall|a: int| 0 <= a < arms.len() implies (#[trigger] arms[a]).wf() by {
                if a < before_arms.len() {
                    assert(before_arms[a].wf());
                }
            }
            assert forall|a: int, b: int| 0 <= a < b < arms.len() implies (#[trigger] arms[a]).arity
                != (#[trigger] arms[b]).arity by {
                if b < before_arms.len() {
                    assert(before_arms[a].arity != before_arms[b].arity);
                } else {
                    assert(before_arms[a].arity != variant.arity);
                }
            }
        } else {
            assert(groups[i].wf());
        }
    }
}

/// One registration: a variant and the key it is registered under.
pub struct Registration {
    pub key: Seq<char>,
    pub variant: VariantView,
}

/// The registry after the registration `r` was attempted: unchanged where a
/// variant of the same arity is recorded under the key, with the variant
/// added where not.
pub open spec fn registered(groups: Seq<DispatcherView>, r: Registration) -> Seq<DispatcherView> {
    if recorded(groups, r.key, r.variant.arity) {
        groups
    } else {
        with_variant(groups, r.key, r.variant)
    }
}

/// The registry after the registrations of `rs` were attempted in order.
pub open spec fn after_all(groups: Seq<DispatcherView>, rs: Seq<Registration>) -> Seq<
    DispatcherView,
>
    decreases rs.len(),
{
    if rs.len() == 0 {
        groups
    } else {
        registered(after_all(groups, rs.drop_last()), rs.last())
    }
}

/// Every variant of `rs` is well formed.
pub open spec fn all_wf(rs: Seq<Registration>) -> bool {
    forall|i: int| 0 <= i < rs.len() ==> (#[trigger] rs[i]).variant.wf()
}

/// Whether one of the first `n` registrations of `rs` is under `key` and of
/// `arity` parameters.
pub open spec fn attempted(rs: Seq<Registration>, n: int, key: Seq<char>, arity: nat) -> bool {
    exists|i: int|
        0 <= i < n && i < rs.len() && (#[trigger] rs[i]).key == key && rs[i].variant.arity
            == arity
}

/// One attempted registration keeps the registry well formed; after it a
/// variant is recorded exactly when it was recorded before or has the key
/// and the arity of the registration.
pub proof fn lemma_registered(groups: Seq<DispatcherView>, r: Registration)
    requires
        groups_wf(groups),
        r.variant.wf(),
    ensures
        groups_wf(registered(groups, r)),
        forall|key: Seq<char>, arity: nat| #[trigger]
            recorded(registered(groups, r), key, arity) <==> recorded(groups, key, arity) || (key
                == r.key && arity == r.variant.arity),
{
    let after = registered(groups, r);
    if !recorded(groups, r.key, r.variant.arity) {
        lemma_with_variant_wf(groups, r.key, r.variant);
        lemma_with_variant(groups, r.key, r.variant);
    }
    assert forall|key: Seq<char>, arity: nat| #[trigger]
        recorded(after, key, arity) <==> recorded(groups, key, arity) || (key == r.key && arity
            == r.variant.arity) by {
        if !recorded(groups, r.key, r.variant.arity) {
            lemma_recorded_under(groups, key, arity);
            lemma_recorded_under(after, key, arity);
            if key == r.key {
                lemma_has_arity_push(arms_under(groups, key), r.variant, arity);
            } else {
                assert(arms_under(after, key) == arms_under(groups, key));
            }
        }
    }
}

/// Any sequence of attempted registrations keeps the registry well formed.
/// After it a variant is recorded under a key exactly when it was recorded
/// before or one of the registrations was under that key and of that arity.
pub proof fn lemma_recorded_after_all(groups: Seq<DispatcherView>, rs: Seq<Registration>)
    requires
        groups_wf(groups),
        all_wf(rs),
    ensures
        groups_wf(after_all(groups, rs)),
        forall|key: Seq<char>, arity: nat| #[trigger]
            recorded(after_all(groups, rs), key, arity) <==> recorded(groups, key, arity)
                || attempted(rs, rs.len() as int, key, arity),
    decreases rs.len(),
{
    if rs.len() == 0 {
    } else {
        let init = rs.drop_last();
        let last = rs.last();
        assert(last.variant.wf());
        assert forall|i: int| 0 <= i < init.len() implies (#[trigger] init[i]).variant.wf() by {
            assert(rs[i].variant.wf());
        }
        lemma_recorded_after_all(groups, init);
        lemma_registered(after_all(groups, init), last);
        assert forall|key: Seq<char>, arity: nat| #[trigger]
            recorded(after_all(groups, rs), key, arity) <==> recorded(groups, key, arity)
                || attempted(rs, rs.len() as int, key, arity) by {
            if attempted(init, init.len() as int, key, arity) {
                let i = choose|i: int|
                    0 <= i < init.len() && (#[trigger] init[i]).key == key && init[i].variant.arity
                        == arity;
                assert(rs[i].key == key && rs[i].variant.arity == arity);
            }
            if key == last.key && arity == last.variant.arity {
                assert(rs[rs.len() - 1].key == key);
            }
            if attempted(rs, rs.len() as int, key, arity) {
                let i = choose|i: int|
                    0 <= i < rs.len() && (#[trigger] rs[i]).key == key && rs[i].variant.arity
                        == arity;
                if i < init.len() {
                    assert(init[i].key == key && init[i].variant.arity == arity);
                }
            }
        }
    }
}

/// Whether the registration `r` is refused in the registry `groups`.
pub open spec fn rejected(groups: Seq<DispatcherView>, r: Registration) -> bool {
    recorded(groups, r.key, r.variant.arity)
}

/// Arity uniqueness, first half. In any sequence of registrations, one that
/// follows a registration under the same key and of the same arity is
/// refused, whatever was registered in between.
pub proof fn law_equal_arity_is_rejected(
    groups: Seq<DispatcherView>,
    rs: Seq<Registration>,
    i: int,
    j: int,
)
    requires
        groups_wf(groups),
        all_wf(rs),
        0 <= i < j < rs.len(),
        rs[i].key == rs[j].key,
        rs[i].variant.arity == rs[j].variant.arity,
    ensures
        rejected(after_all(groups, rs.take(j)), rs[j]),
{
    let earlier = rs.take(j);
    assert forall|k: int| 0 <= k < earlier.len() implies (#[trigger] earlier[k]).variant.wf() by {
        assert(rs[k].variant.wf());
    }
    lemma_recorded_after_all(groups, earlier);
    assert(earlier[i].key == rs[j].key && earlier[i].variant.arity == rs[j].variant.arity);
    assert(attempted(earlier, earlier.len() as int, rs[j].key, rs[j].variant.arity));
}

/// Arity uniqueness, second half. A registration is accepted where no
/// variant of its arity was recorded under its key at the start and none of
/// the registrations before it was under its key and of its arity.
pub proof fn law_distinct_arities_are_accepted(
    groups: Seq<DispatcherView>,
    rs: Seq<Registration>,
    j: int,
)
    requires
        groups_wf(groups),
        all_wf(rs),
        0 <= j < rs.len(),
        !recorded(groups, rs[j].key, rs[j].variant.arity),
        forall|i: int|
            0 <= i < j ==> !((#[trigger] rs[i]).key == rs[j].key && rs[i].variant.arity
                == rs[j].variant.arity),
    ensures
        !rejected(after_all(groups, rs.take(j)), rs[j]),
{
    let earlier = rs.take(j);
    assert forall|k: int| 0 <= k < earlier.len() implies (#[trigger] earlier[k]).variant.wf() by {
        assert(rs[k].variant.wf());
    }
    lemma_recorded_after_all(groups, earlier);
    if attempted(earlier, earlier.len() as int, rs[j].key, rs[j].variant.arity) {
        let i = choose|i: int|
            0 <= i < earlier.len() && (#[trigger] earlier[i]).key == rs[j].key
                && earlier[i].variant.arity == rs[j].variant.arity;
        assert(rs[i].key == rs[j].key && rs[i].variant.arity == rs[j].variant.arity);
    }
}

/// Idempotent drain. What an emission leaves emits nothing: no dispatcher
/// and no text.
pub proof fn law_second_emission_is_empty(groups: Seq<DispatcherView>)
    ensures
        crate::emitted(crate::after_emission(groups)).len() == 0,
        crate::macros_text(crate::emitted(crate::after_emission(groups))) == Seq::<char>::empty(),
{
    let left = crate::emitted(crate::after_emission(groups));
    assert(Seq::new(left.len(), |i: int| left[i].text()) =~= Seq::<Seq<char>>::empty());
}

/// A prefix of well-formed registrations is well formed.
pub proof fn lemma_all_wf_take(rs: Seq<Registration>, n: int)
    requires
        all_wf(rs),
        0 <= n <= rs.len(),
    ensures
        all_wf(rs.take(n)),
{
    let prefix = rs.take(n);
    assert forall|k: int| 0 <= k < prefix.len() implies (#[trigger] prefix[k]).variant.wf() by {
        assert(rs[k].variant.wf());
    }
}

/// One attempted registration appends its variant to the arms under its key
/// where it is accepted, and changes no other arms.
pub proof fn lemma_registered_arms(groups: Seq<DispatcherView>, r: Registration, key: Seq<char>)
    requires
        groups_wf(groups),
    ensures
        arms_under(registered(groups, r), key) == if key == r.key && !rejected(groups, r) {
            arms_under(groups, key).push(r.variant)
        } else {
            arms_under(groups, key)
        },
{
    if !rejected(groups, r) {
        lemma_with_variant(groups, r.key, r.variant);
        if key != r.key {
            assert(arms_under(with_variant(groups, r.key, r.variant), key) == arms_under(
                groups,
                key,
            ));
        }
    }
}

/// Whether `arm` is the variant of a registration of `rs` under `key`.
pub open spec fn registered_in(rs: Seq<Registration>, key: Seq<char>, arm: VariantView) -> bool {
    exists|i: int| 0 <= i < rs.len() && (#[trigger] rs[i]).key == key && rs[i].variant == arm
}

/// Every arm under a key after a sequence of registrations was there before
/// or is the variant of one of the registrations under that key.
pub proof fn lemma_arms_after_all(
    groups: Seq<DispatcherView>,
    rs: Seq<Registration>,
    key: Seq<char>,
)
    requires
        groups_wf(groups),
        all_wf(rs),
    ensures
        forall|n: int|
            0 <= n < arms_under(after_all(groups, rs), key).len() ==> arms_under(
                groups,
                key,
            ).contains(#[trigger] arms_under(after_all(groups, rs), key)[n]) || registered_in(
                rs,
                key,
                arms_under(after_all(groups, rs), key)[n],
            ),
    decreases rs.len(),
{
    let arms = arms_under(after_all(groups, rs), key);
    if rs.len() == 0 {
        assert forall|n: int| 0 <= n < arms.len() implies arms_under(groups, key).contains(
            #[trigger] arms[n],
        ) by {}
    } else {
        let init = rs.drop_last();
        let last = rs.last();
        lemma_all_wf_take(rs, rs.len() - 1);
        assert(init =~= rs.take(rs.len() - 1));
        lemma_arms_after_all(groups, init, key);
        lemma_recorded_after_all(groups, init);
        let middle = after_all(groups, init);
        lemma_registered_arms(middle, last, key);
        let before = arms_under(middle, key);
        assert forall|n: int| 0 <= n < arms.len() implies arms_under(groups, key).contains(
            #[trigger] arms[n],
        ) || registered_in(rs, key, arms[n]) by {
            if n < before.len() {
                assert(arms[n] == before[n]);
                if registered_in(init, key, before[n]) {
                    let i = choose|i: int|
                        0 <= i < init.len() && (#[trigger] init[i]).key == key && init[i].variant
                            == before[n];
                    assert(rs[i].key == key && rs[i].variant == arms[n]);
                }
            } else {
                assert(arms[n] == last.variant);
                assert(rs[rs.len() - 1].key == key && rs[rs.len() - 1].variant == arms[n]);
            }
        }
    }
}

/// One attempted registration leaves the routing of every arity that was
/// recorded as it was, and routes its own arity to its variant where it is
/// accepted.
pub proof fn lemma_routing_step(
    groups: Seq<DispatcherView>,
    r: Registration,
    key: Seq<char>,
    argc: nat,
)
    requires
        groups_wf(groups),
    ensures
        recorded(groups, key, argc) ==> routed(registered(groups, r), key, argc) == routed(
            groups,
            key,
            argc,
        ),
        !rejected(groups, r) ==> routed(registered(groups, r), r.key, r.variant.arity) == Some(
            r.variant,
        ),
{
    lemma_registered_arms(groups, r, key);
    lemma_registered_arms(groups, r, r.key);
    lemma_recorded_under(groups, key, argc);
    lemma_recorded_under(groups, r.key, r.variant.arity);
    lemma_first_with_arity_push(arms_under(groups, key), r.variant, argc);
    lemma_first_with_arity_push(arms_under(groups, r.key), r.variant, r.variant.arity);
}

/// Once a registration is accepted, calls of its arity are routed to its
/// variant after every later registration.
proof fn lemma_routed_prefix(groups: Seq<DispatcherView>, rs: Seq<Registration>, j: int, n: int)
    requires
        groups_wf(groups),
        all_wf(rs),
        0 <= j < n <= rs.len(),
        !rejected(after_all(groups, rs.take(j)), rs[j]),
    ensures
        groups_wf(after_all(groups, rs.take(n))),
        recorded(after_all(groups, rs.take(n)), rs[j].key, rs[j].variant.arity),
        routed(after_all(groups, rs.take(n)), rs[j].key, rs[j].variant.arity) == Some(
            rs[j].variant,
        ),
    decreases n - j,
{
    let prefix = rs.take(n);
    let init = rs.take(n - 1);
    assert(prefix.drop_last() =~= init);
    assert(prefix.last() == rs[n - 1]);
    lemma_all_wf_take(rs, n - 1);
    lemma_all_wf_take(rs, n);
    lemma_recorded_after_all(groups, init);
    lemma_recorded_after_all(groups, prefix);
    let middle = after_all(groups, init);
    assert(rs[n - 1].variant.wf());
    lemma_registered(middle, rs[n - 1]);
    lemma_routing_step(middle, rs[n - 1], rs[j].key, rs[j].variant.arity);
    if n == j + 1 {
        assert(recorded(registered(middle, rs[j]), rs[j].key, rs[j].variant.arity));
    } else {
        lemma_routed_prefix(groups, rs, j, n - 1);
        assert(recorded(registered(middle, rs[n - 1]), rs[j].key, rs[j].variant.arity));
    }
}

/// Independent arms. After any sequence of registrations, a call with as
/// many arguments as an accepted registration has parameters is routed to
/// the variant of that registration: no other arm, registered before or
/// after, stands in its way.
pub proof fn law_accepted_variant_is_routed(
    groups: Seq<DispatcherView>,
    rs: Seq<Registration>,
    j: int,
)
    requires
        groups_wf(groups),
        all_wf(rs),
        0 <= j < rs.len(),
        !rejected(after_all(groups, rs.take(j)), rs[j]),
    ensures
        routed(after_all(groups, rs), rs[j].key, rs[j].variant.arity) == Some(rs[j].variant),
{
    lemma_routed_prefix(groups, rs, j, rs.len() as int);
    assert(rs.take(rs.len() as int) =~= rs);
}

/// Isolation across batches. After an emission, whatever the registry held
/// before it: a registration is refused exactly when an earlier one of the
/// new batch was under its key and of its arity, and every arm of every
/// dispatcher of the next emission is the variant of a registration of the
/// new batch under the dispatcher's name.
pub proof fn law_batches_are_isolated(first: Seq<DispatcherView>, rs: Seq<Registration>)
    requires
        all_wf(rs),
    ensures
        forall|j: int|
            0 <= j < rs.len() ==> (rejected(
                after_all(crate::after_emission(first), rs.take(j)),
                #[trigger] rs[j],
            ) <==> attempted(rs, j, rs[j].key, rs[j].variant.arity)),
        forall|n: int, m: int|
            #![trigger crate::emitted(after_all(crate::after_emission(first), rs))[n].arms[m]]
            0 <= n < crate::emitted(after_all(crate::after_emission(first), rs)).len() && 0 <= m
                < crate::emitted(after_all(crate::after_emission(first), rs))[n].arms.len()
                ==> registered_in(
                rs,
                crate::emitted(after_all(crate::after_emission(first), rs))[n].name,
                crate::emitted(after_all(crate::after_emission(first), rs))[n].arms[m],
            ),
{
    let start = crate::after_emission(first);
    assert(groups_wf(start));
    assert forall|j: int| 0 <= j < rs.len() implies (rejected(
        after_all(start, rs.take(j)),
        #[trigger] rs[j],
    ) <==> attempted(rs, j, rs[j].key, rs[j].variant.arity)) by {
        let earlier = rs.take(j);
        let key = rs[j].key;
        let arity = rs[j].variant.arity;
        lemma_all_wf_take(rs, j);
        lemma_recorded_after_all(start, earlier);
        assert(!recorded(start, key, arity));
        if attempted(earlier, earlier.len() as int, key, arity) {
            let i = choose|i: int|
                0 <= i < earlier.len() && (#[trigger] earlier[i]).key == key
                    && earlier[i].variant.arity == arity;
            assert(rs[i].key == key && rs[i].variant.arity == arity);
        }
        if attempted(rs, j, key, arity) {
            let i = choose|i: int|
                0 <= i < j && i < rs.len() && (#[trigger] rs[i]).key == key && rs[i].variant.arity
                    == arity;
            assert(earlier[i].key == key && earlier[i].variant.arity == arity);
        }
    }
    let last = crate::emitted(after_all(start, rs));
    lemma_recorded_after_all(start, rs);
    assert forall|n: int, m: int| 0 <= n < last.len() && 0 <= m < last[n].arms.len() implies
        registered_in(rs, last[n].name, #[trigger] last[n].arms[m]) by {
        let key = last[n].name;
        lemma_unique_position(last, key, n);
        lemma_arms_after_all(start, rs, key);
        assert(arms_under(last, key)[m] == last[n].arms[m]);
        assert(arms_under(start, key) =~= Seq::<VariantView>::empty());
    }
}

/// Collision-free renaming. The variants of one name at different arities
/// carry different internal names.
pub proof fn law_internal_names_are_distinct(name: Seq<char>, a: nat, b: nat)
    requires
        a != b,
    ensures
        crate::registrar::internal_name_text(name, a) != crate::registrar::internal_name_text(
            name,
            b,
        ),
{
    let prefix = name + "_"@;
    let first = crate::registrar::internal_name_text(name, a);
    let second = crate::registrar::internal_name_text(name, b);
    if first == second {
        assert(first.skip(prefix.len() as int) =~= crate::text::decimal_text(a));
        assert(second.skip(prefix.len() as int) =~= crate::text::decimal_text(b));
        crate::text::lemma_decimal_text_injective(a, b);
    }
}

/// Reachable arms. In a well-formed dispatcher a call with as many arguments
/// as an arm has parameters is routed to that arm and to no other.
pub proof fn law_every_arm_is_selected_by_its_arity(dispatcher: DispatcherView, k: int)
    requires
        dispatcher.wf(),
        0 <= k < dispatcher.arms.len(),
    ensures
        dispatcher.selected(dispatcher.arms[k].arity) == Some(dispatcher.arms[k]),
{
    assert(distinct_arities(dispatcher.arms));
    crate::dispatch::lemma_selected_by_own_arity(dispatcher.arms, k);
}

} // verus!
