//! Registration: the identity of one declaration, the check for a clash of
//! arity, and the entry in the registry.

use vstd::prelude::*;
use vstd::string::StringExecFns;
use crate::registry::{recorded, with_variant, Registry};
use crate::syntax::{Signature, SignatureView};
use crate::text::{decimal, decimal_text};
use crate::variant::{CallingConvention, ConventionView, VariantRecord, VariantView};

verus! {

/// Why a declaration was not registered.
#[derive(Debug, PartialEq, Eq)]
pub enum OverloadError {
    /// The source is not one function declaration that can be written back
    /// under its internal name; the parser's message.
    MalformedDeclaration { message: String },
    /// The context is not one type name; the parser's message.
    MalformedContext { message: String },
    /// A variant of the same arity is already registered under the same
    /// key.
    DuplicateArity { name: String, arity: usize },
}

/// The mathematical value of an [`OverloadError`].
pub enum ErrorView {
    MalformedDeclaration { message: Seq<char> },
    MalformedContext { message: Seq<char> },
    DuplicateArity { name: Seq<char>, arity: nat },
}

impl ErrorView {
    /// The message that reports this error.
    pub open spec fn message_text(self) -> Seq<char> {
        match self {
            ErrorView::MalformedDeclaration { message } => message,
            ErrorView::MalformedContext { message } => message,
            ErrorView::DuplicateArity { name, arity } => "Function "@ + name + " with "@
                + decimal_text(arity) + " arguments already exists"@,
        }
    }
}

impl View for OverloadError {
    type V = ErrorView;

    open spec fn view(&self) -> ErrorView {
        match self {
            OverloadError::MalformedDeclaration { message } => ErrorView::MalformedDeclaration {
                message: message@,
            },
            OverloadError::MalformedContext { message } => ErrorView::MalformedContext {
                message: message@,
            },
            OverloadError::DuplicateArity { name, arity } => ErrorView::DuplicateArity {
                name: name@,
                arity: *arity as nat,
            },
        }
    }
}

impl OverloadError {
    /// Writes the message that reports this error. A clash of arity names
    /// the function and the arity; the other errors carry the message of the
    /// parser.
    pub fn message(&self) -> (r: String)
        ensures
            r@ == self@.message_text(),
    {
        match self {
            OverloadError::MalformedDeclaration { message } => message.clone(),
            OverloadError::MalformedContext { message } => message.clone(),
            OverloadError::DuplicateArity { name, arity } => {
                let mut r = String::from_str("Function ");
                r.append(name.as_str());
                r.append(" with ");
                r.append(decimal(*arity).as_str());
                r.append(" arguments already exists");
                r
            },
        }
    }
}

/// The internal name of the variant of `name` with `arity` parameters.
pub open spec fn internal_name_text(name: Seq<char>, arity: nat) -> Seq<char> {
    name + "_"@ + decimal_text(arity)
}

/// The key of the dispatch group of `name`: the name itself, or the type
/// name, an underscore and the name where the declaration belongs to a type.
pub open spec fn group_key_text(context: Option<Seq<char>>, name: Seq<char>) -> Seq<char> {
    match context {
        None => name,
        Some(owner) => owner + "_"@ + name,
    }
}

/// How a declaration is invoked: as a plain function without a context; with
/// one, as a method if its first parameter binds a receiver and as a
/// function of the type if not.
pub open spec fn convention_of(context: Option<Seq<char>>, has_receiver: bool) -> ConventionView {
    match context {
        None => ConventionView::FreeFunction,
        Some(owner) => if has_receiver {
            ConventionView::InstanceMethod
        } else {
            ConventionView::TypeConstructor(owner)
        },
    }
}

/// The record of the declaration `signature` in the context `context`.
pub open spec fn variant_of(signature: SignatureView, context: Option<Seq<char>>) -> VariantView {
    VariantView {
        internal_name: internal_name_text(signature.name, signature.arity),
        arity: signature.arity,
        convention: convention_of(context, signature.has_receiver),
    }
}

/// The text of `context`, where there is one.
pub open spec fn context_text(context: Option<&str>) -> Option<Seq<char>> {
    match context {
        None => None,
        Some(owner) => Some(owner@),
    }
}

/// Writes the internal name of the variant of `name` with `arity`
/// parameters.
pub fn internal_name(name: &str, arity: usize) -> (r: String)
    ensures
        r@ == internal_name_text(name@, arity as nat),
{
    let mut r = String::from_str(name);
    r.append("_");
    r.append(decimal(arity).as_str());
    r
}

/// Writes the key of the dispatch group of `name`.
pub fn group_key(context: Option<&str>, name: &str) -> (r: String)
    ensures
        r@ == group_key_text(context_text(context), name@),
{
    match context {
        None => String::from_str(name),
        Some(owner) => {
            let mut r = String::from_str(owner);
            r.append("_");
            r.append(name);
            r
        },
    }
}

/// Tells how a declaration is invoked.
pub fn classify(context: Option<&str>, has_receiver: bool) -> (r: CallingConvention)
    ensures
        r@ == convention_of(context_text(context), has_receiver),
{
    match context {
        None => CallingConvention::FreeFunction,
        Some(owner) => if has_receiver {
            CallingConvention::InstanceMethod
        } else {
            CallingConvention::TypeConstructor(String::from_str(owner))
        },
    }
}

/// Registers the declaration `signature`, declared in the type `context` if
/// there is one, and returns its internal name. Fails, and leaves the
/// registry as it was, exactly when a variant of the same arity is already
/// recorded under the declaration's key.
pub fn register(registry: &mut Registry, signature: &Signature, context: Option<&str>) -> (r:
    Result<String, OverloadError>)
    requires
        old(registry).wf(),
        signature.wf(),
    ensures
        final(registry).wf(),
        r is Err <==> recorded(
            old(registry)@,
            group_key_text(context_text(context), signature@.name),
            signature@.arity,
        ),
        match r {
            Ok(name) => {
                &&& name@ == internal_name_text(signature@.name, signature@.arity)
                &&& final(registry)@ == with_variant(
                    old(registry)@,
                    group_key_text(context_text(context), signature@.name),
                    variant_of(signature@, context_text(context)),
                )
            },
            Err(error) => {
                &&& error@ == (ErrorView::DuplicateArity {
                    name: signature@.name,
                    arity: signature@.arity,
                })
                &&& final(registry)@ == old(registry)@
            },
        },
{
    let name = internal_name(signature.name.as_str(), signature.arity);
    let record = VariantRecord {
        internal_name: name.clone(),
        arity: signature.arity,
        convention: classify(context, signature.has_receiver),
    };
    let key = group_key(context, signature.name.as_str());
    if registry.insert(key, record) {
        Ok(name)
    } else {
        Err(OverloadError::DuplicateArity { name: signature.name.clone(), arity: signature.arity })
    }
}

} // verus!
