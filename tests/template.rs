use challenge_script::template_string;

#[test]
fn test_simple_template() {
    let context = vec![("a", "Hello"), ("b", "World")];

    let result = template_string("{{a}}, {{b}}!", &context);

    assert_eq!(result, "Hello, World!");
}

#[test]
fn test_template_replaces_all_instances() {
    let context = vec![("a", "Hello"), ("b", "World")];

    let result = template_string("{{a}}? {{a}}!", &context);

    assert_eq!(result, "Hello? Hello!");
}

#[test]
fn test_ignores_nonexistent_template() {
    let context = vec![("a", "Hello"), ("b", "World")];

    let result = template_string("{{a}}? {{c}}!", &context);

    assert_eq!(result, "Hello? {{c}}!");
}

#[test]
fn template_single_binding_leaves_unknown_placeholder() {
    let context = vec![("a", "Hello")];
    assert_eq!(template_string("{{a}}? {{c}}!", &context), "Hello? {{c}}!");
    assert_eq!(template_string("{{a}}? {{a}}!", &context), "Hello? Hello!");
}

#[test]
fn template_replacement_of_other_length() {
    let context = vec![("a", "x"), ("long", "a much longer value")];
    assert_eq!(
        template_string("[{{a}}{{a}}] {{long}} {{a}}", &context),
        "[xx] a much longer value x"
    );
}

#[test]
fn template_does_not_rescan_replaced_text() {
    let context = vec![("a", "{{a}}{{a}}")];
    assert_eq!(template_string("{{a}}", &context), "{{a}}{{a}}");
}

#[test]
fn template_empty_inputs() {
    let none: Vec<(&str, &str)> = vec![];
    assert_eq!(template_string("{{a}}", &none), "{{a}}");
    assert_eq!(template_string("", &vec![("a", "b")]), "");
    assert_eq!(template_string("{{a}", &vec![("a", "b")]), "{{a}");
    assert_eq!(template_string("é{{a}}ü", &vec![("a", "ß")]), "éßü");
}

#[test]
fn template_inserted_placeholder_is_not_expanded() {
    let ab = vec![("a", "{{b}}"), ("b", "X")];
    assert_eq!(template_string("{{a}} {{b}}", &ab), "{{b}} X");
    let ba = vec![("b", "X"), ("a", "{{b}}")];
    assert_eq!(template_string("{{a}} {{b}}", &ba), "{{b}} X");
    let cyclic = vec![("case", "{{part}}"), ("part", "{{case}}")];
    assert_eq!(template_string("{{part}}-{{case}}", &cyclic), "{{case}}-{{part}}");
}

#[test]
fn template_first_entry_of_a_key_wins() {
    let twice = vec![("a", "first"), ("a", "second")];
    assert_eq!(template_string("{{a}}", &twice), "first");
}
