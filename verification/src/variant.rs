//! One overloaded declaration as the registry records it, and the shape of
//! a call to it.

use vstd::prelude::*;
use vstd::string::StringExecFns;
use crate::text::{join, joined, texts};

verus! {

/// How a variant is invoked.
#[derive(Debug, PartialEq, Eq)]
pub enum CallingConvention {
    /// A plain function: `name(args...)`.
    FreeFunction,
    /// A method whose first parameter binds the receiver: the first argument
    /// of the call becomes the receiver, `receiver.name(rest...)`.
    InstanceMethod,
    /// A function of the named type that takes no receiver:
    /// `Type::name(args...)`.
    TypeConstructor(String),
}

/// The mathematical value of a [`CallingConvention`].
pub enum ConventionView {
    FreeFunction,
    InstanceMethod,
    TypeConstructor(Seq<char>),
}

impl View for CallingConvention {
    type V = ConventionView;

    open spec fn view(&self) -> ConventionView {
        match self {
            CallingConvention::FreeFunction => ConventionView::FreeFunction,
            CallingConvention::InstanceMethod => ConventionView::InstanceMethod,
            CallingConvention::TypeConstructor(owner) => ConventionView::TypeConstructor(owner@),
        }
    }
}

impl Clone for CallingConvention {
    fn clone(&self) -> (r: Self)
        ensures
            r@ == self@,
    {
        match self {
            CallingConvention::FreeFunction => CallingConvention::FreeFunction,
            CallingConvention::InstanceMethod => CallingConvention::InstanceMethod,
            CallingConvention::TypeConstructor(owner) => CallingConvention::TypeConstructor(
                owner.clone(),
            ),
        }
    }
}

/// One variant of an overloaded name.
#[derive(Debug, PartialEq, Eq)]
pub struct VariantRecord {
    /// The name the declaration carries after renaming.
    pub internal_name: String,
    /// The number of declared parameters, a receiver included.
    pub arity: usize,
    /// How the variant is invoked.
    pub convention: CallingConvention,
}

/// The mathematical value of a [`VariantRecord`].
pub struct VariantView {
    pub internal_name: Seq<char>,
    pub arity: nat,
    pub convention: ConventionView,
}

impl VariantView {
    /// A method has at least the parameter that binds its receiver.
    pub open spec fn wf(self) -> bool {
        self.convention is InstanceMethod ==> self.arity >= 1
    }

    /// The text of a call of this variant with the argument texts `args`,
    /// one for each declared parameter.
    pub open spec fn call_text(self, args: Seq<Seq<char>>) -> Seq<char>
        recommends
            self.wf(),
            args.len() == self.arity,
    {
        match self.convention {
            ConventionView::FreeFunction => self.internal_name + "("@ + joined(args, ", "@) + ")"@,
            ConventionView::TypeConstructor(owner) => owner + "::"@ + self.internal_name + "("@
                + joined(args, ", "@) + ")"@,
            ConventionView::InstanceMethod => args[0] + "."@ + self.internal_name + "("@ + joined(
                args.skip(1),
                ", "@,
            ) + ")"@,
        }
    }
}

impl View for VariantRecord {
    type V = VariantView;

    open spec fn view(&self) -> VariantView {
        VariantView {
            internal_name: self.internal_name@,
            arity: self.arity as nat,
            convention: self.convention@,
        }
    }
}

impl Clone for VariantRecord {
    fn clone(&self) -> (r: Self)
        ensures
            r@ == self@,
    {
        VariantRecord {
            internal_name: self.internal_name.clone(),
            arity: self.arity,
            convention: self.convention.clone(),
        }
    }
}

impl VariantRecord {
    /// A method has at least the parameter that binds its receiver.
    pub open spec fn wf(&self) -> bool {
        self@.wf()
    }

    /// Writes a call of this variant with the argument texts `args`.
    pub fn call(&self, args: &Vec<String>) -> (r: String)
        requires
            self.wf(),
            args.len() == self.arity,
        ensures
            r@ == self@.call_text(texts(args@)),
    {
        match &self.convention {
            CallingConvention::FreeFunction => {
                let mut r = self.internal_name.clone();
                r.append("(");
                r.append(join(args, ", ").as_str());
                r.append(")");
                r
            },
            CallingConvention::TypeConstructor(owner) => {
                let mut r = owner.clone();
                r.append("::");
                r.append(self.internal_name.as_str());
                r.append("(");
                r.append(join(args, ", ").as_str());
                r.append(")");
                r
            },
            CallingConvention::InstanceMethod => {
                let mut rest: Vec<String> = Vec::new();
                let mut i: usize = 1;
                while i < args.len()
                    invariant
                        1 <= i <= args.len(),
                        rest@ =~= args@.skip(1).take(i - 1),
                    decreases args.len() - i,
                {
                    rest.push(args[i].clone());
                    i = i + 1;
                }
                proof {
                    assert(rest@ =~= args@.skip(1));
                    assert(texts(rest@) =~= texts(args@).skip(1));
                }
                let mut r = args[0].clone();
                r.append(".");
                r.append(self.internal_name.as_str());
                r.append("(");
                r.append(join(&rest, ", ").as_str());
                r.append(")");
                r
            },
        }
    }
}

} // verus!
