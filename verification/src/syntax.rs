//! The host language's syntax, as far as registration needs it: reading a
//! function declaration, reading a type name, and writing a declaration back
//! under another name. Parsing and printing are `syn`'s; nothing here is
//! proved of them, and the contracts below are what the rest of the library
//! relies on.
//!
//! Each contract says that the result depends on the text alone. That rests
//! on how the crate is built: `syn` and `quote` are taken without their
//! `proc-macro` feature, so `proc-macro2` is built without it too, and then
//! lexes and prints with its own implementation and never with the
//! compiler's. Inside a macro expansion the same text therefore reads and
//! prints as it does anywhere else. With the feature on this would not hold.

use vstd::prelude::*;

verus! {

/// What registration reads of a function declaration.
#[derive(Debug, PartialEq, Eq)]
pub struct Signature {
    /// The declared name.
    pub name: String,
    /// The number of declared parameters, a receiver included.
    pub arity: usize,
    /// Whether the first parameter binds a receiver.
    pub has_receiver: bool,
}

/// The mathematical value of a [`Signature`].
pub struct SignatureView {
    pub name: Seq<char>,
    pub arity: nat,
    pub has_receiver: bool,
}

impl SignatureView {
    /// A receiver is itself a parameter.
    pub open spec fn wf(self) -> bool {
        self.has_receiver ==> self.arity >= 1
    }
}

impl View for Signature {
    type V = SignatureView;

    open spec fn view(&self) -> SignatureView {
        SignatureView {
            name: self.name@,
            arity: self.arity as nat,
            has_receiver: self.has_receiver,
        }
    }
}

impl Signature {
    /// A receiver is itself a parameter.
    pub open spec fn wf(&self) -> bool {
        self@.wf()
    }
}

/// What was read of the context of a declaration.
#[derive(Debug, PartialEq, Eq)]
pub enum Context {
    /// No context was given: the declaration belongs to no type.
    Absent,
    /// A context was given and is not one type name; the parser's message.
    Malformed(String),
    /// The declaration belongs to the type of this name.
    Type(String),
}

/// The mathematical value of a [`Context`].
pub enum ContextView {
    Absent,
    Malformed(Seq<char>),
    Type(Seq<char>),
}

impl View for Context {
    type V = ContextView;

    open spec fn view(&self) -> ContextView {
        match self {
            Context::Absent => ContextView::Absent,
            Context::Malformed(message) => ContextView::Malformed(message@),
            Context::Type(owner) => ContextView::Type(owner@),
        }
    }
}

// The signature that `syn` reads from `source` as one function item, or
// `syn`'s message where `source` is not exactly one function item. The name
// is as written in `source`: nothing normalises it.
pub uninterp spec fn parsed_signature(source: Seq<char>) -> Result<SignatureView, Seq<char>>;

// The identifier that `syn` reads from `source`, or `syn`'s message where
// `source` is not exactly one identifier or is a reserved word.
pub uninterp spec fn parsed_identifier(source: Seq<char>) -> Result<Seq<char>, Seq<char>>;

// The function item of `source` as `syn` prints it once its name is replaced
// by the identifier `name`, or `None` where either does not parse. The text
// is `proc-macro2`'s own rendering of the tokens, not the compiler's.
pub uninterp spec fn renamed_declaration(source: Seq<char>, name: Seq<char>) -> Option<Seq<char>>;

/// Reads `source` as one function item with `syn::parse_str::<syn::ItemFn>`
/// and hands back its name, the length of its parameter list and whether
/// `syn::Signature::receiver` finds a receiver; where `syn` refuses the
/// text, the message of its error. Trusted: the result is a function of
/// `source` alone, and a receiver, which `syn` accepts in first place only,
/// counts among the parameters.
#[verifier::external_body]
pub(crate) fn parse_signature(source: &str) -> (r: Result<Signature, String>)
    ensures
        match r {
            Ok(signature) => parsed_signature(source@) == Ok::<SignatureView, Seq<char>>(
                signature@,
            ),
            Err(message) => parsed_signature(source@) == Err::<SignatureView, Seq<char>>(
                message@,
            ),
        },
        r matches Ok(signature) ==> signature.wf(),
{
    match syn::parse_str::<syn::ItemFn>(source) {
        Ok(item) => Ok(
            Signature {
                name: item.sig.ident.to_string(),
                arity: item.sig.inputs.len(),
                has_receiver: item.sig.receiver().is_some(),
            },
        ),
        Err(error) => Err(error.to_string()),
    }
}

/// Reads `source` as one identifier with `syn::parse_str::<syn::Ident>` and
/// hands back its text; where `syn` refuses the text, the message of its
/// error. Trusted: the result is a function of `source` alone.
#[verifier::external_body]
pub(crate) fn parse_identifier(source: &str) -> (r: Result<String, String>)
    ensures
        match r {
            Ok(identifier) => parsed_identifier(source@) == Ok::<Seq<char>, Seq<char>>(
                identifier@,
            ),
            Err(message) => parsed_identifier(source@) == Err::<Seq<char>, Seq<char>>(message@),
        },
{
    match syn::parse_str::<syn::Ident>(source) {
        Ok(identifier) => Ok(identifier.to_string()),
        Err(error) => Err(error.to_string()),
    }
}

/// Reads `source` as one function item and `name` as one identifier, both
/// with `syn::parse_str`, puts the identifier in the place of the item's
/// name and prints the item with `quote::ToTokens::to_token_stream`.
/// Trusted: the result is a function of `source` and `name` alone.
#[verifier::external_body]
pub(crate) fn rename_declaration(source: &str, name: &str) -> (r: Option<String>)
    ensures
        match r {
            Some(text) => renamed_declaration(source@, name@) == Some(text@),
            None => renamed_declaration(source@, name@) is None,
        },
{
    match (syn::parse_str::<syn::ItemFn>(source), syn::parse_str::<syn::Ident>(name)) {
        (Ok(mut item), Ok(identifier)) => {
            item.sig.ident = identifier;
            Some(quote::ToTokens::to_token_stream(&item).to_string())
        },
        _ => None,
    }
}

} // verus!
