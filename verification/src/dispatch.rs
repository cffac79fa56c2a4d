//! Dispatchers: one per logical name, with one arm per recorded arity.

use vstd::prelude::*;
use vstd::string::StringExecFns;
use crate::text::{decimal, decimal_text, join, joined, texts};
use crate::variant::{VariantRecord, VariantView};

verus! {

/// The values of the records of `records`, in order.
pub open spec fn variant_views(records: Seq<VariantRecord>) -> Seq<VariantView> {
    Seq::new(records.len(), |i: int| records[i]@)
}

/// Whether some arm of `arms` takes exactly `argc` arguments.
pub open spec fn has_arity(arms: Seq<VariantView>, argc: nat) -> bool {
    exists|i: int| 0 <= i < arms.len() && (#[trigger] arms[i]).arity == argc
}

/// The first arm of `arms` that takes exactly `argc` arguments.
pub open spec fn first_with_arity(arms: Seq<VariantView>, argc: nat) -> Option<VariantView>
    decreases arms.len(),
{
    if arms.len() == 0 {
        None
    } else if arms[0].arity == argc {
        Some(arms[0])
    } else {
        first_with_arity(arms.drop_first(), argc)
    }
}

/// No two arms of `arms` take the same number of arguments.
pub open spec fn distinct_arities(arms: Seq<VariantView>) -> bool {
    forall|i: int, j: int|
        0 <= i < j < arms.len() ==> (#[trigger] arms[i]).arity != (#[trigger] arms[j]).arity
}

/// The name that stands for the argument at position `i` inside an arm.
pub open spec fn metavariable(i: nat) -> Seq<char> {
    "$arg_"@ + decimal_text(i)
}

/// The metavariables of positions `0` to `n - 1`.
pub open spec fn metavariables(n: nat) -> Seq<Seq<char>> {
    Seq::new(n, |i: int| metavariable(i as nat))
}

/// The matcher of an arm of `n` arguments: each metavariable bound to one
/// expression.
pub open spec fn matcher_text(n: nat) -> Seq<char> {
    joined(Seq::new(n, |i: int| metavariable(i as nat) + ":expr"@), ", "@)
}

/// One arm: a matcher for exactly `arm.arity` arguments and the call it
/// stands for.
pub open spec fn arm_text(arm: VariantView) -> Seq<char> {
    "("@ + matcher_text(arm.arity) + ") => ("@ + arm.call_text(metavariables(arm.arity)) + ")"@
}

/// The dispatch construct of one logical name.
#[derive(Debug, PartialEq, Eq)]
pub struct Dispatcher {
    /// The logical name, which is the dispatch group's key.
    pub name: String,
    /// One arm for each recorded variant.
    pub arms: Vec<VariantRecord>,
}

/// The mathematical value of a [`Dispatcher`].
pub struct DispatcherView {
    pub name: Seq<char>,
    pub arms: Seq<VariantView>,
}

impl DispatcherView {
    /// There is at least one arm, every arm is well formed, and the arms
    /// exclude each other by arity.
    pub open spec fn wf(self) -> bool {
        &&& self.arms.len() > 0
        &&& forall|i: int| 0 <= i < self.arms.len() ==> (#[trigger] self.arms[i]).wf()
        &&& distinct_arities(self.arms)
    }

    /// The arm that a call with `argc` arguments is routed to.
    pub open spec fn selected(self, argc: nat) -> Option<VariantView> {
        first_with_arity(self.arms, argc)
    }

    /// The call that an invocation with the argument texts `args` stands
    /// for, if an arm takes that many arguments.
    pub open spec fn expansion(self, args: Seq<Seq<char>>) -> Option<Seq<char>> {
        match self.selected(args.len()) {
            Some(arm) => Some(arm.call_text(args)),
            None => None,
        }
    }

    /// The dispatch construct as source text.
    pub open spec fn text(self) -> Seq<char> {
        "macro_rules! "@ + self.name + " { "@ + joined(
            Seq::new(self.arms.len(), |i: int| arm_text(self.arms[i])),
            "; "@,
        ) + " }"@
    }
}

impl View for Dispatcher {
    type V = DispatcherView;

    open spec fn view(&self) -> DispatcherView {
        DispatcherView { name: self.name@, arms: variant_views(self.arms@) }
    }
}

/// What `first_with_arity` finds is an arm of that arity, and it finds one
/// whenever there is one.
pub proof fn lemma_first_with_arity(arms: Seq<VariantView>, argc: nat)
    ensures
        first_with_arity(arms, argc) is Some <==> has_arity(arms, argc),
        first_with_arity(arms, argc) matches Some(arm) ==> arm.arity == argc && arms.contains(arm),
    decreases arms.len(),
{
    if arms.len() == 0 {
    } else if arms[0].arity == argc {
        assert(arms.contains(arms[0]));
    } else {
        let rest = arms.drop_first();
        lemma_first_with_arity(rest, argc);
        if has_arity(rest, argc) {
            let i = choose|i: int| 0 <= i < rest.len() && (#[trigger] rest[i]).arity == argc;
            assert(arms[i + 1].arity == argc);
        }
        if has_arity(arms, argc) {
            let i = choose|i: int| 0 <= i < arms.len() && (#[trigger] arms[i]).arity == argc;
            assert(rest[i - 1].arity == argc);
        }
        if let Some(arm) = first_with_arity(rest, argc) {
            let i = choose|i: int| 0 <= i < rest.len() && rest[i] == arm;
            assert(arms[i + 1] == arm);
        }
    }
}

/// Where arities are distinct, an arm is selected by its own arity.
pub proof fn lemma_selected_by_own_arity(arms: Seq<VariantView>, k: int)
    requires
        distinct_arities(arms),
        0 <= k < arms.len(),
    ensures
        first_with_arity(arms, arms[k].arity) == Some(arms[k]),
    decreases arms.len(),
{
    if k == 0 {
    } else {
        let rest = arms.drop_first();
        assert(arms[0].arity != arms[k].arity);
        assert forall|i: int, j: int| 0 <= i < j < rest.len() implies (#[trigger] rest[i]).arity
            != (#[trigger] rest[j]).arity by {
            assert(arms[i + 1].arity != arms[j + 1].arity);
        }
        lemma_selected_by_own_arity(rest, k - 1);
    }
}

/// Writes the metavariables of positions `0` to `n - 1`.
fn metavariable_names(n: usize) -> (r: Vec<String>)
    ensures
        r@.len() == n,
        forall|k: int| 0 <= k < n ==> (#[trigger] r@[k])@ == metavariable(k as nat),
        texts(r@) == metavariables(n as nat),
{
    let mut r: Vec<String> = Vec::new();
    let mut i: usize = 0;
    while i < n
        invariant
            i <= n,
            r@.len() == i,
            forall|k: int| 0 <= k < i ==> (#[trigger] r@[k])@ == metavariable(k as nat),
        decreases n - i,
    {
        let mut name = String::from_str("$arg_");
        name.append(decimal(i).as_str());
        r.push(name);
        i = i + 1;
    }
    proof {
        assert(texts(r@) =~= metavariables(n as nat));
    }
    r
}

/// Writes the matcher of an arm of `n` arguments.
fn matcher(names: &Vec<String>) -> (r: String)
    ensures
        r@ == joined(Seq::new(names@.len(), |i: int| names@[i]@ + ":expr"@), ", "@),
{
    let mut bound: Vec<String> = Vec::new();
    let mut i: usize = 0;
    while i < names.len()
        invariant
            i <= names.len(),
            bound@.len() == i,
            forall|k: int| 0 <= k < i ==> (#[trigger] bound@[k])@ == names@[k]@ + ":expr"@,
        decreases names.len() - i,
    {
        let mut fragment = names[i].clone();
        fragment.append(":expr");
        bound.push(fragment);
        i = i + 1;
    }
    proof {
        assert(texts(bound@) =~= Seq::new(names@.len(), |i: int| names@[i]@ + ":expr"@));
    }
    join(&bound, ", ")
}

/// Writes one arm.
pub fn render_arm(arm: &VariantRecord) -> (r: String)
    requires
        arm.wf(),
    ensures
        r@ == arm_text(arm@),
{
    let names = metavariable_names(arm.arity);
    proof {
        assert(Seq::new(names@.len(), |i: int| names@[i]@ + ":expr"@) =~= Seq::new(
            arm@.arity,
            |i: int| metavariable(i as nat) + ":expr"@,
        ));
    }
    let mut r = String::from_str("(");
    r.append(matcher(&names).as_str());
    r.append(") => (");
    r.append(arm.call(&names).as_str());
    r.append(")");
    r
}

impl Dispatcher {
    /// There is at least one arm, every arm is well formed, and the arms
    /// exclude each other by arity.
    pub open spec fn wf(&self) -> bool {
        self@.wf()
    }

    /// The arm that a call with `argc` arguments is routed to: the one arm of
    /// that arity, or none where the name has no variant of that arity.
    pub fn resolve(&self, argc: usize) -> (r: Option<&VariantRecord>)
        ensures
            r is Some <==> has_arity(self@.arms, argc as nat),
            r matches Some(arm) ==> arm@.arity == argc && self@.arms.contains(arm@),
            match r {
                Some(arm) => self@.selected(argc as nat) == Some(arm@),
                None => self@.selected(argc as nat) is None,
            },
    {
        let ghost arms = self@.arms;
        let mut i: usize = 0;
        proof {
            assert(arms.skip(0) =~= arms);
        }
        while i < self.arms.len()
            invariant
                i <= self.arms.len(),
                arms == self@.arms,
                first_with_arity(arms, argc as nat) == first_with_arity(
                    arms.skip(i as int),
                    argc as nat,
                ),
            decreases self.arms.len() - i,
        {
            proof {
                assert(arms.skip(i as int).drop_first() =~= arms.skip(i + 1));
                assert(arms.skip(i as int)[0] == self.arms@[i as int]@);
            }
            if self.arms[i].arity == argc {
                proof {
                    lemma_first_with_arity(arms, argc as nat);
                }
                return Some(&self.arms[i]);
            }
            i = i + 1;
        }
        proof {
            lemma_first_with_arity(arms, argc as nat);
        }
        None
    }

    /// Rewrites an invocation with the argument texts `args` into the call
    /// of the variant that takes that many arguments. `None` where the name
    /// has no variant of that arity.
    pub fn expand(&self, args: &Vec<String>) -> (r: Option<String>)
        requires
            self.wf(),
        ensures
            r is Some <==> has_arity(self@.arms, args@.len()),
            match r {
                Some(call) => self@.expansion(texts(args@)) == Some(call@),
                None => self@.expansion(texts(args@)) is None,
            },
    {
        match self.resolve(args.len()) {
            Some(arm) => {
                proof {
                    let i = choose|i: int| 0 <= i < self@.arms.len() && self@.arms[i] == arm@;
                    assert(self@.arms[i].wf());
                }
                Some(arm.call(args))
            },
            None => None,
        }
    }

    /// Writes the dispatch construct as source text.
    pub fn render(&self) -> (r: String)
        requires
            self.wf(),
        ensures
            r@ == self@.text(),
    {
        let mut arms: Vec<String> = Vec::new();
        let mut i: usize = 0;
        while i < self.arms.len()
            invariant
                i <= self.arms.len(),
                self.wf(),
                arms@.len() == i,
                forall|k: int| 0 <= k < i ==> (#[trigger] arms@[k])@ == arm_text(self@.arms[k]),
            decreases self.arms.len() - i,
        {
            proof {
                assert(self@.arms[i as int].wf());
            }
            arms.push(render_arm(&self.arms[i]));
            i = i + 1;
        }
        proof {
            assert(texts(arms@) =~= Seq::new(
                self@.arms.len(),
                |i: int| arm_text(self@.arms[i]),
            ));
        }
        let mut r = String::from_str("macro_rules! ");
        r.append(self.name.as_str());
        r.append(" { ");
        r.append(join(&arms, "; ").as_str());
        r.append(" }");
        r
    }
}

} // verus!
