//! Overloading by argument count.
//!
//! Several declarations may share one logical name as long as they differ in
//! the number of their parameters. Each declaration is registered under its
//! dispatch group and renamed to an internal name made of its own name and
//! its arity. Once a scope is complete, one dispatcher per group routes a
//! call to the variant whose arity is the number of arguments at the call.

pub mod dispatch;
pub mod laws;
pub mod registrar;
pub mod registry;
pub mod syntax;
pub mod text;
pub mod variant;

use vstd::prelude::*;
use vstd::string::StringExecFns;
use crate::dispatch::{Dispatcher, DispatcherView};
use crate::registrar::{
    context_text, group_key_text, internal_name, internal_name_text, register, variant_of,
    ErrorView, OverloadError,
};
use crate::registry::{dispatcher_views, recorded, with_variant, Registry};
use crate::syntax::{
    parse_identifier, parse_signature, parsed_identifier, parsed_signature, rename_declaration,
    renamed_declaration, Context, ContextView, Signature, SignatureView,
};
use crate::text::{join, joined, texts};

verus! {

/// The value of what was read of a declaration: its signature, or the
/// parser's message.
pub open spec fn signature_view(signature: Result<Signature, String>) -> Result<
    SignatureView,
    Seq<char>,
> {
    match signature {
        Ok(declared) => Ok(declared@),
        Err(message) => Err(message@),
    }
}

/// The message for a declaration that reads but cannot be written under its
/// internal name.
pub open spec fn unwritable_text() -> Seq<char> {
    "the declaration cannot be written under its internal name"@
}

/// The text of a string, where there is one.
pub open spec fn text_view(text: Option<String>) -> Option<Seq<char>> {
    match text {
        Some(text) => Some(text@),
        None => None,
    }
}

/// What a registration returns, and the registry it leaves.
pub struct Outcome {
    pub result: Result<Seq<char>, ErrorView>,
    pub registry: Seq<DispatcherView>,
}

/// The outcome of registering a declaration that reads as `signature` and
/// prints as `rewritten` under its internal name, in the type `owner` if
/// there is one: a clash of arity is reported and changes nothing; without
/// one the variant is recorded and the rewritten declaration returned.
pub open spec fn registration_outcome(
    before: Seq<DispatcherView>,
    signature: SignatureView,
    owner: Option<Seq<char>>,
    rewritten: Seq<char>,
) -> Outcome {
    let key = group_key_text(owner, signature.name);
    if recorded(before, key, signature.arity) {
        Outcome {
            result: Err(
                ErrorView::DuplicateArity { name: signature.name, arity: signature.arity },
            ),
            registry: before,
        }
    } else {
        Outcome {
            result: Ok(rewritten),
            registry: with_variant(before, key, variant_of(signature, owner)),
        }
    }
}

/// The outcome of registering a declaration from what was read of it:
/// `signature` of the declaration itself, `rewritten` of the declaration
/// under its internal name, `context` of the type it belongs to. A
/// declaration that could not be read is reported first, then one that
/// could not be rewritten, then a context that is no type name, then a clash
/// of arity; the registry changes only where none of these occurs.
pub open spec fn parsed_outcome(
    before: Seq<DispatcherView>,
    signature: Result<SignatureView, Seq<char>>,
    rewritten: Option<Seq<char>>,
    context: ContextView,
) -> Outcome {
    match signature {
        Err(message) => Outcome {
            result: Err(ErrorView::MalformedDeclaration { message }),
            registry: before,
        },
        Ok(signature) => match rewritten {
            None => Outcome {
                result: Err(ErrorView::MalformedDeclaration { message: unwritable_text() }),
                registry: before,
            },
            Some(rewritten) => match context {
                ContextView::Absent => registration_outcome(before, signature, None, rewritten),
                ContextView::Type(owner) => registration_outcome(
                    before,
                    signature,
                    Some(owner),
                    rewritten,
                ),
                ContextView::Malformed(message) => Outcome {
                    result: Err(ErrorView::MalformedContext { message }),
                    registry: before,
                },
            },
        },
    }
}

/// What is read of the context text `context`.
pub open spec fn parsed_context(context: Option<Seq<char>>) -> ContextView {
    match context {
        None => ContextView::Absent,
        Some(text) => match parsed_identifier(text) {
            Ok(owner) => ContextView::Type(owner),
            Err(message) => ContextView::Malformed(message),
        },
    }
}

/// The declaration `function` under its internal name, where it can be read
/// and rewritten.
pub open spec fn rewritten_declaration(function: Seq<char>) -> Option<Seq<char>> {
    match parsed_signature(function) {
        Ok(signature) => renamed_declaration(
            function,
            internal_name_text(signature.name, signature.arity),
        ),
        Err(_) => None,
    }
}

/// The outcome of `overload` on the source text `function` with the context
/// text `context`.
pub open spec fn overload_outcome(
    before: Seq<DispatcherView>,
    context: Option<Seq<char>>,
    function: Seq<char>,
) -> Outcome {
    parsed_outcome(
        before,
        parsed_signature(function),
        rewritten_declaration(function),
        parsed_context(context),
    )
}

/// The dispatchers that an emission hands out: one for each group, in the
/// order in which the groups were first registered.
pub open spec fn emitted(groups: Seq<DispatcherView>) -> Seq<DispatcherView> {
    groups
}

/// The registry that an emission leaves: without any group, whatever it
/// held.
pub open spec fn after_emission(groups: Seq<DispatcherView>) -> Seq<DispatcherView> {
    Seq::empty()
}

/// Every dispatch construct of `groups`, one per line.
pub open spec fn macros_text(groups: Seq<DispatcherView>) -> Seq<char> {
    joined(Seq::new(groups.len(), |i: int| groups[i].text()), "\n"@)
}

/// Registers a declaration from what was read of it and returns the
/// declaration under its internal name.
pub fn overload_parsed(
    registry: &mut Registry,
    signature: Result<Signature, String>,
    rewritten: Option<String>,
    context: Context,
) -> (r: Result<String, OverloadError>)
    requires
        old(registry).wf(),
        signature matches Ok(declared) ==> declared.wf(),
    ensures
        final(registry).wf(),
        final(registry)@ == parsed_outcome(
            old(registry)@,
            signature_view(signature),
            text_view(rewritten),
            context@,
        ).registry,
        match r {
            Ok(text) => parsed_outcome(
                old(registry)@,
                signature_view(signature),
                text_view(rewritten),
                context@,
            ).result == Ok::<Seq<char>, ErrorView>(text@),
            Err(error) => parsed_outcome(
                old(registry)@,
                signature_view(signature),
                text_view(rewritten),
                context@,
            ).result == Err::<Seq<char>, ErrorView>(error@),
        },
{
    let signature = match signature {
        Ok(signature) => signature,
        Err(message) => {
            return Err(OverloadError::MalformedDeclaration { message });
        },
    };
    let rewritten = match rewritten {
        Some(rewritten) => rewritten,
        None => {
            return Err(
                OverloadError::MalformedDeclaration {
                    message: String::from_str(
                        "the declaration cannot be written under its internal name",
                    ),
                },
            );
        },
    };
    let registered = match context {
        Context::Absent => register(registry, &signature, None),
        Context::Type(owner) => register(registry, &signature, Some(owner.as_str())),
        Context::Malformed(message) => {
            return Err(OverloadError::MalformedContext { message });
        },
    };
    match registered {
        Ok(_) => Ok(rewritten),
        Err(error) => Err(error),
    }
}

/// Registers the function declaration `function`, declared in the type named
/// by `context` if there is one, and returns the declaration under its
/// internal name.
pub fn overload(registry: &mut Registry, context: Option<&str>, function: &str) -> (r: Result<
    String,
    OverloadError,
>)
    requires
        old(registry).wf(),
    ensures
        final(registry).wf(),
        final(registry)@ == overload_outcome(
            old(registry)@,
            context_text(context),
            function@,
        ).registry,
        match r {
            Ok(text) => overload_outcome(old(registry)@, context_text(context), function@).result
                == Ok::<Seq<char>, ErrorView>(text@),
            Err(error) => overload_outcome(
                old(registry)@,
                context_text(context),
                function@,
            ).result == Err::<Seq<char>, ErrorView>(error@),
        },
{
    let signature = parse_signature(function);
    let rewritten = match &signature {
        Ok(declared) => {
            let name = internal_name(declared.name.as_str(), declared.arity);
            rename_declaration(function, name.as_str())
        },
        Err(_) => None,
    };
    let context = match context {
        None => Context::Absent,
        Some(text) => match parse_identifier(text) {
            Ok(owner) => Context::Type(owner),
            Err(message) => Context::Malformed(message),
        },
    };
    overload_parsed(registry, signature, rewritten, context)
}

/// Hands out one dispatcher for each dispatch group, in the order in which
/// the groups were first registered, and leaves the registry empty.
pub fn generate(registry: &mut Registry) -> (dispatchers: Vec<Dispatcher>)
    requires
        old(registry).wf(),
    ensures
        final(registry).wf(),
        final(registry)@ == after_emission(old(registry)@),
        dispatcher_views(dispatchers@) == emitted(old(registry)@),
        forall|i: int| 0 <= i < dispatchers@.len() ==> (#[trigger] dispatchers@[i]).wf(),
{
    registry.drain()
}

/// Writes every dispatcher of `dispatchers`, one per line.
pub fn render_all(dispatchers: &Vec<Dispatcher>) -> (r: String)
    requires
        forall|i: int| 0 <= i < dispatchers@.len() ==> (#[trigger] dispatchers@[i]).wf(),
    ensures
        r@ == macros_text(dispatcher_views(dispatchers@)),
{
    let mut lines: Vec<String> = Vec::new();
    let mut i: usize = 0;
    while i < dispatchers.len()
        invariant
            i <= dispatchers.len(),
            forall|k: int| 0 <= k < dispatchers@.len() ==> (#[trigger] dispatchers@[k]).wf(),
            lines@.len() == i,
            forall|k: int| 0 <= k < i ==> (#[trigger] lines@[k])@ == dispatchers@[k]@.text(),
        decreases dispatchers.len() - i,
    {
        lines.push(dispatchers[i].render());
        i = i + 1;
    }
    proof {
        let groups = dispatcher_views(dispatchers@);
        assert(texts(lines@) =~= Seq::new(groups.len(), |i: int| groups[i].text()));
    }
    join(&lines, "\n")
}

/// Emits the dispatch construct of every dispatch group recorded so far and
/// leaves the registry empty. With nothing recorded the text is empty.
pub fn macros(registry: &mut Registry) -> (r: String)
    requires
        old(registry).wf(),
    ensures
        final(registry).wf(),
        final(registry)@ == after_emission(old(registry)@),
        r@ == macros_text(emitted(old(registry)@)),
{
    let dispatchers = generate(registry);
    render_all(&dispatchers)
}

} // verus!
