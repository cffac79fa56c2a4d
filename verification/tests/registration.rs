use overfn::registrar::{classify, group_key, internal_name, register, OverloadError};
use overfn::registry::Registry;
use overfn::syntax::Signature;
use overfn::variant::{CallingConvention, VariantRecord};
use overfn::{generate, macros, overload};

fn signature(name: &str, arity: usize, has_receiver: bool) -> Signature {
    Signature { name: name.to_string(), arity, has_receiver }
}

fn renamed_name(rewritten: &str) -> String {
    syn::parse_str::<syn::ItemFn>(rewritten).unwrap().sig.ident.to_string()
}

#[test]
fn internal_names_append_the_arity() {
    assert_eq!(internal_name("foo", 2), "foo_2");
    assert_eq!(internal_name("add", 0), "add_0");
    assert_eq!(internal_name("add", 10), "add_10");
    assert_eq!(internal_name("add", 907), "add_907");
    assert_eq!(internal_name("f", usize::MAX), format!("f_{}", usize::MAX));
}

#[test]
fn group_keys_join_type_and_name() {
    assert_eq!(group_key(None, "add"), "add");
    assert_eq!(group_key(Some("Test"), "new"), "Test_new");
}

#[test]
fn conventions_follow_context_and_receiver() {
    assert_eq!(classify(None, false), CallingConvention::FreeFunction);
    assert_eq!(classify(None, true), CallingConvention::FreeFunction);
    assert_eq!(classify(Some("Test"), true), CallingConvention::InstanceMethod);
    assert_eq!(
        classify(Some("Test"), false),
        CallingConvention::TypeConstructor("Test".to_string())
    );
}

#[test]
fn equal_arity_under_one_key_is_rejected_on_the_second() {
    let mut registry = Registry::new();
    assert_eq!(register(&mut registry, &signature("add", 2, false), None), Ok("add_2".to_string()));
    assert_eq!(
        register(&mut registry, &signature("add", 2, false), None),
        Err(OverloadError::DuplicateArity { name: "add".to_string(), arity: 2 })
    );
    assert_eq!(registry.len(), 1);
    assert!(registry.contains("add", 2));
    let dispatchers = generate(&mut registry);
    assert_eq!(dispatchers[0].arms.len(), 1);
}

#[test]
fn distinct_arities_under_one_key_never_clash() {
    let mut registry = Registry::new();
    for arity in [3usize, 0, 7, 1, 2] {
        assert_eq!(
            register(&mut registry, &signature("add", arity, false), None),
            Ok(format!("add_{}", arity))
        );
    }
    assert_eq!(registry.len(), 1);
    for arity in [0usize, 1, 2, 3, 7] {
        assert!(registry.contains("add", arity));
    }
    assert!(!registry.contains("add", 4));
}

#[test]
fn equal_arity_under_different_keys_does_not_clash() {
    let mut registry = Registry::new();
    assert!(register(&mut registry, &signature("add", 1, false), None).is_ok());
    assert!(register(&mut registry, &signature("sub", 1, false), None).is_ok());
    assert!(register(&mut registry, &signature("add", 1, false), Some("Test")).is_ok());
    assert_eq!(registry.len(), 3);
}

#[test]
fn a_free_function_and_a_method_may_share_a_key() {
    let mut registry = Registry::new();
    assert!(register(&mut registry, &signature("Test_new", 1, false), None).is_ok());
    assert_eq!(
        register(&mut registry, &signature("new", 1, false), Some("Test")),
        Err(OverloadError::DuplicateArity { name: "new".to_string(), arity: 1 })
    );
    assert_eq!(register(&mut registry, &signature("new", 2, false), Some("Test")), Ok("new_2".to_string()));
    let dispatchers = generate(&mut registry);
    assert_eq!(dispatchers.len(), 1);
    assert_eq!(dispatchers[0].name, "Test_new");
    assert_eq!(
        dispatchers[0].arms,
        vec![
            VariantRecord {
                internal_name: "Test_new_1".to_string(),
                arity: 1,
                convention: CallingConvention::FreeFunction,
            },
            VariantRecord {
                internal_name: "new_2".to_string(),
                arity: 2,
                convention: CallingConvention::TypeConstructor("Test".to_string()),
            },
        ]
    );
}

#[test]
fn the_duplicate_message_names_function_and_arity() {
    let error = OverloadError::DuplicateArity { name: "add".to_string(), arity: 2 };
    assert_eq!(error.message(), "Function add with 2 arguments already exists");
    let error = OverloadError::MalformedContext { message: "expected identifier".to_string() };
    assert_eq!(error.message(), "expected identifier");
    let error = OverloadError::MalformedDeclaration { message: "expected `fn`".to_string() };
    assert_eq!(error.message(), "expected `fn`");
}

#[test]
fn overload_renames_the_declaration_and_keeps_the_rest() {
    let mut registry = Registry::new();
    let source = "pub fn add(left: usize, right: usize) -> usize { left + right }";
    let rewritten = overload(&mut registry, None, source).unwrap();
    assert_ne!(rewritten, source);
    assert_eq!(renamed_name(&rewritten), "add_2");
    let expected = syn::parse_str::<syn::ItemFn>(
        "pub fn add_2(left: usize, right: usize) -> usize { left + right }",
    )
    .unwrap();
    assert_eq!(rewritten, quote::ToTokens::to_token_stream(&expected).to_string());
}

#[test]
fn overload_writes_the_tokens_one_space_apart() {
    let mut registry = Registry::new();
    let source = "pub fn add(left:usize,right:usize)->usize{left+right}";
    assert_eq!(
        overload(&mut registry, None, source),
        Ok("pub fn add_2 (left : usize , right : usize) -> usize { left + right }".to_string())
    );
}

#[test]
fn overload_takes_a_name_as_it_is_written() {
    let mut registry = Registry::new();
    let rewritten = overload(&mut registry, None, "fn e\u{301}(a: usize) {}").unwrap();
    assert_eq!(renamed_name(&rewritten), "e\u{301}_1");
    assert!(registry.contains("e\u{301}", 1));
    assert!(!registry.contains("\u{e9}", 1));
}

#[test]
fn overload_counts_the_receiver_as_a_parameter() {
    let mut registry = Registry::new();
    let rewritten =
        overload(&mut registry, Some("Test"), "fn test(&self, other: usize) -> usize { other }")
            .unwrap();
    assert_eq!(renamed_name(&rewritten), "test_2");
    let rewritten = overload(&mut registry, Some("Test"), "fn test(self) {}").unwrap();
    assert_eq!(renamed_name(&rewritten), "test_1");
    let rewritten = overload(&mut registry, Some("Test"), "fn new() -> Self { Self(0) }").unwrap();
    assert_eq!(renamed_name(&rewritten), "new_0");
    let dispatchers = generate(&mut registry);
    assert_eq!(dispatchers.len(), 2);
    assert_eq!(dispatchers[0].name, "Test_test");
    assert_eq!(dispatchers[0].arms[0].convention, CallingConvention::InstanceMethod);
    assert_eq!(dispatchers[0].arms[0].arity, 2);
    assert_eq!(dispatchers[0].arms[1].convention, CallingConvention::InstanceMethod);
    assert_eq!(dispatchers[1].name, "Test_new");
    assert_eq!(
        dispatchers[1].arms[0].convention,
        CallingConvention::TypeConstructor("Test".to_string())
    );
    assert_eq!(dispatchers[1].arms[0].arity, 0);
}

#[test]
fn overload_reads_the_context_as_one_identifier() {
    let mut registry = Registry::new();
    overload(&mut registry, Some(" Test "), "fn new(a: usize) -> Self { Self(a) }").unwrap();
    let dispatchers = generate(&mut registry);
    assert_eq!(dispatchers[0].name, "Test_new");
    assert_eq!(
        dispatchers[0].arms[0].convention,
        CallingConvention::TypeConstructor("Test".to_string())
    );
}

#[test]
fn overload_rejects_a_second_declaration_of_the_same_arity() {
    let mut registry = Registry::new();
    overload(&mut registry, None, "fn add(item: usize) -> usize { 10 + item }").unwrap();
    assert_eq!(
        overload(&mut registry, None, "fn add(other: u8) -> u8 { other }"),
        Err(OverloadError::DuplicateArity { name: "add".to_string(), arity: 1 })
    );
    assert!(overload(&mut registry, None, "fn add(a: u8, b: u8) -> u8 { a + b }").is_ok());
    let dispatchers = generate(&mut registry);
    assert_eq!(dispatchers.len(), 1);
    assert_eq!(dispatchers[0].arms.len(), 2);
}

fn declaration_error(source: &str) -> String {
    let mut registry = Registry::new();
    match overload(&mut registry, None, source) {
        Err(OverloadError::MalformedDeclaration { message }) => {
            assert!(registry.is_empty());
            message
        }
        other => panic!("expected a malformed declaration, got {:?}", other),
    }
}

fn context_error(context: &str) -> String {
    let mut registry = Registry::new();
    match overload(&mut registry, Some(context), "fn new(a: usize) -> Self { Self(a) }") {
        Err(OverloadError::MalformedContext { message }) => {
            assert!(registry.is_empty());
            message
        }
        other => panic!("expected a malformed context, got {:?}", other),
    }
}

#[test]
fn overload_rejects_what_is_not_a_function() {
    assert_eq!(declaration_error("struct Test(usize);"), "expected `fn`");
    assert_eq!(declaration_error(""), "unexpected end of input, expected `fn`");
    assert_eq!(declaration_error("fn add("), "cannot parse string into token stream");
    assert_eq!(declaration_error("fn add() {} fn sub() {}"), "unexpected token");
}

#[test]
fn overload_rejects_a_context_that_is_no_type_name() {
    assert_eq!(context_error("Test, Other"), "unexpected token");
    assert_eq!(context_error("1"), "expected identifier");
    assert_eq!(context_error(""), "unexpected end of input, expected identifier");
    assert_eq!(context_error("Self"), "expected identifier, found keyword `Self`");
}

#[test]
fn overload_reports_the_declaration_before_the_context() {
    let mut registry = Registry::new();
    assert_eq!(
        overload(&mut registry, Some("1"), "struct Test(usize);"),
        Err(OverloadError::MalformedDeclaration { message: "expected `fn`".to_string() })
    );
}

#[test]
fn overload_keeps_a_raw_name_raw() {
    let mut registry = Registry::new();
    let rewritten = overload(&mut registry, None, "fn r#try(a: usize) -> usize { a }").unwrap();
    assert_eq!(renamed_name(&rewritten), "r#try_1");
    assert!(registry.contains("r#try", 1));
}

#[test]
fn macros_on_an_empty_registry_emits_nothing() {
    let mut registry = Registry::new();
    assert_eq!(macros(&mut registry), "");
    assert!(generate(&mut registry).is_empty());
}
