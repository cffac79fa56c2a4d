use overfn::overload_parsed;
use overfn::registrar::OverloadError;
use overfn::registry::Registry;
use overfn::syntax::{Context, Signature};

fn add(arity: usize) -> Result<Signature, String> {
    Ok(Signature { name: "add".to_string(), arity, has_receiver: false })
}

fn unread(message: &str) -> Result<Signature, String> {
    Err(message.to_string())
}

fn malformed(message: &str) -> Context {
    Context::Malformed(message.to_string())
}

fn text(rewritten: &str) -> Option<String> {
    Some(rewritten.to_string())
}

#[test]
fn a_read_declaration_is_recorded_and_returned_rewritten() {
    let mut registry = Registry::new();
    assert_eq!(
        overload_parsed(&mut registry, add(1), text("fn add_1(a: u8) {}"), Context::Absent),
        Ok("fn add_1(a: u8) {}".to_string())
    );
    assert!(registry.contains("add", 1));
    assert_eq!(
        overload_parsed(
            &mut registry,
            add(1),
            text("fn add_1(a: u8) {}"),
            Context::Type("Test".to_string())
        ),
        Ok("fn add_1(a: u8) {}".to_string())
    );
    assert!(registry.contains("Test_add", 1));
    assert_eq!(registry.len(), 2);
}

#[test]
fn an_unread_declaration_is_reported_before_anything_else() {
    let mut registry = Registry::new();
    let expected = Err(OverloadError::MalformedDeclaration { message: "no `fn`".to_string() });
    assert_eq!(overload_parsed(&mut registry, unread("no `fn`"), None, Context::Absent), expected);
    assert_eq!(
        overload_parsed(&mut registry, unread("no `fn`"), text("fn add_1() {}"), malformed("no")),
        expected
    );
    assert!(registry.is_empty());
}

#[test]
fn an_unwritten_declaration_is_reported_before_the_context() {
    let mut registry = Registry::new();
    assert_eq!(
        overload_parsed(&mut registry, add(1), None, malformed("no type")),
        Err(OverloadError::MalformedDeclaration {
            message: "the declaration cannot be written under its internal name".to_string()
        })
    );
    assert!(registry.is_empty());
}

#[test]
fn a_malformed_context_is_reported_before_a_clash() {
    let mut registry = Registry::new();
    assert!(overload_parsed(&mut registry, add(2), text("fn add_2() {}"), Context::Absent).is_ok());
    let expected = Err(OverloadError::MalformedContext { message: "no type".to_string() });
    assert_eq!(
        overload_parsed(&mut registry, add(2), text("fn add_2() {}"), malformed("no type")),
        expected
    );
    assert_eq!(
        overload_parsed(&mut registry, add(3), text("fn add_3() {}"), malformed("no type")),
        expected
    );
    assert!(!registry.contains("add", 3));
    assert_eq!(registry.len(), 1);
}

#[test]
fn a_clash_of_arity_changes_nothing() {
    let mut registry = Registry::new();
    assert!(overload_parsed(&mut registry, add(2), text("first"), Context::Absent).is_ok());
    assert_eq!(
        overload_parsed(&mut registry, add(2), text("second"), Context::Absent),
        Err(OverloadError::DuplicateArity { name: "add".to_string(), arity: 2 })
    );
    let dispatchers = overfn::generate(&mut registry);
    assert_eq!(dispatchers.len(), 1);
    assert_eq!(dispatchers[0].arms.len(), 1);
    assert_eq!(dispatchers[0].arms[0].internal_name, "add_2");
}
