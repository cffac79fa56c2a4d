use overfn::dispatch::{render_arm, Dispatcher};
use overfn::registry::Registry;
use overfn::text::{decimal, join};
use overfn::variant::{CallingConvention, VariantRecord};
use overfn::{generate, macros, overload, render_all};

fn variant(name: &str, arity: usize, convention: CallingConvention) -> VariantRecord {
    VariantRecord { internal_name: name.to_string(), arity, convention }
}

#[test]
fn decimal_writes_numerals_without_leading_zeros() {
    assert_eq!(decimal(0), "0");
    assert_eq!(decimal(7), "7");
    assert_eq!(decimal(10), "10");
    assert_eq!(decimal(1234567890), "1234567890");
    assert_eq!(decimal(usize::MAX), usize::MAX.to_string());
}

#[test]
fn join_puts_the_separator_between_neighbours() {
    assert_eq!(join(&vec![], ", "), "");
    assert_eq!(join(&vec!["a".to_string()], ", "), "a");
    assert_eq!(join(&vec!["a".to_string(), "b".to_string(), "c".to_string()], ", "), "a, b, c");
    assert_eq!(join(&vec!["".to_string(), "".to_string()], ";"), ";");
}

#[test]
fn arms_bind_one_expression_per_parameter() {
    assert_eq!(render_arm(&variant("f_0", 0, CallingConvention::FreeFunction)), "() => (f_0())");
    assert_eq!(
        render_arm(&variant("f_1", 1, CallingConvention::FreeFunction)),
        "($arg_0:expr) => (f_1($arg_0))"
    );
    assert_eq!(
        render_arm(&variant("new_2", 2, CallingConvention::TypeConstructor("Test".to_string()))),
        "($arg_0:expr, $arg_1:expr) => (Test::new_2($arg_0, $arg_1))"
    );
    assert_eq!(
        render_arm(&variant("test_1", 1, CallingConvention::InstanceMethod)),
        "($arg_0:expr) => ($arg_0.test_1())"
    );
    assert_eq!(
        render_arm(&variant("test_3", 3, CallingConvention::InstanceMethod)),
        "($arg_0:expr, $arg_1:expr, $arg_2:expr) => ($arg_0.test_3($arg_1, $arg_2))"
    );
}

#[test]
fn an_arm_of_eleven_parameters_numbers_them_in_decimal() {
    let text = render_arm(&variant("f_11", 11, CallingConvention::FreeFunction));
    assert!(text.starts_with("($arg_0:expr, $arg_1:expr, "));
    assert!(text.contains("$arg_9:expr, $arg_10:expr) => (f_11($arg_0, "));
    assert!(text.ends_with("$arg_9, $arg_10))"));
}

#[test]
fn a_dispatcher_is_written_as_one_macro() {
    let dispatcher = Dispatcher {
        name: "add".to_string(),
        arms: vec![
            variant("add_1", 1, CallingConvention::FreeFunction),
            variant("add_2", 2, CallingConvention::FreeFunction),
        ],
    };
    assert_eq!(
        dispatcher.render(),
        "macro_rules! add { ($arg_0:expr) => (add_1($arg_0)); \
         ($arg_0:expr, $arg_1:expr) => (add_2($arg_0, $arg_1)) }"
    );
}

#[test]
fn macros_emits_one_dispatcher_per_key() {
    let mut registry = Registry::new();
    overload(&mut registry, None, "fn add(item: usize) -> usize { 10 + item }").unwrap();
    overload(&mut registry, Some("Test"), "fn new(a: usize) -> Self { Self { a, b: 0 } }")
        .unwrap();
    overload(&mut registry, None, "fn add(left: usize, right: usize) -> usize { left + right }")
        .unwrap();
    overload(&mut registry, Some("Test"), "fn test(&self, other: usize) -> usize { other }")
        .unwrap();
    let text = macros(&mut registry);
    assert_eq!(
        text,
        "macro_rules! add { ($arg_0:expr) => (add_1($arg_0)); \
         ($arg_0:expr, $arg_1:expr) => (add_2($arg_0, $arg_1)) }\n\
         macro_rules! Test_new { ($arg_0:expr) => (Test::new_1($arg_0)) }\n\
         macro_rules! Test_test { ($arg_0:expr, $arg_1:expr) => ($arg_0.test_2($arg_1)) }"
    );
    assert!(registry.is_empty());
}

#[test]
fn the_emitted_text_is_a_sequence_of_macro_definitions() {
    let mut registry = Registry::new();
    overload(&mut registry, None, "fn add(item: usize) -> usize { 10 + item }").unwrap();
    overload(&mut registry, None, "fn add(left: usize, right: usize) -> usize { left + right }")
        .unwrap();
    overload(&mut registry, Some("Test"), "fn test(&self) -> usize { self.0 }").unwrap();
    let file = syn::parse_str::<syn::File>(&macros(&mut registry)).unwrap();
    assert_eq!(file.items.len(), 2);
    let mut names: Vec<String> = Vec::new();
    for item in &file.items {
        match item {
            syn::Item::Macro(definition) => {
                assert!(definition.mac.path.is_ident("macro_rules"));
                names.push(definition.ident.as_ref().unwrap().to_string());
            }
            _ => panic!("expected a macro definition"),
        }
    }
    assert_eq!(names, vec!["add".to_string(), "Test_test".to_string()]);
}

#[test]
fn a_second_emission_without_registrations_emits_nothing() {
    let mut registry = Registry::new();
    overload(&mut registry, None, "fn add(item: usize) -> usize { 10 + item }").unwrap();
    assert_ne!(macros(&mut registry), "");
    assert_eq!(macros(&mut registry), "");
    assert!(generate(&mut registry).is_empty());
}

#[test]
fn batches_do_not_see_each_other() {
    let mut registry = Registry::new();
    overload(&mut registry, None, "fn a(x: usize) -> usize { x }").unwrap();
    let first = generate(&mut registry);
    assert_eq!(first.len(), 1);
    assert_eq!(first[0].name, "a");

    overload(&mut registry, None, "fn b(x: usize) -> usize { x }").unwrap();
    assert!(overload(&mut registry, None, "fn a(x: usize) -> usize { x }").is_ok());
    let second = generate(&mut registry);
    assert_eq!(second.len(), 2);
    assert_eq!(second[0].name, "b");
    assert_eq!(second[1].name, "a");
    assert_eq!(render_all(&first), "macro_rules! a { ($arg_0:expr) => (a_1($arg_0)) }");
}
