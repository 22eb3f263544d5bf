use cg::argument::{Argument, Value};
use cg::entry::{DefaultValue, Entry, ErrorKind, SourceFormatter, Transformable};
use cg::name::Name;
use cg::order::{Convertible, OrderedEntries};
use cg::tools::{Args, Grepper};

#[test]
fn grep_build_pattern_only() {
    // pattern supplied, no target: the build succeeds with just the pattern
    let schema = Grepper::new();
    let input = Args { regex_pattern: String::from("TODO"), file: None, casei: None };
    let tokens = schema.generate(&input).unwrap();
    assert_eq!(tokens, vec![String::from("TODO")]);
}

#[test]
fn grep_build_missing_pattern_fails() {
    // the same schema with no pattern value: the mandatory positional at
    // index zero reports itself missing
    let schema = Grepper::new();
    let mut bundle = OrderedEntries::new();
    bundle.insert(schema.regex_pattern).unwrap();
    bundle.insert(schema.file).unwrap();
    let err = bundle.conform_all().unwrap_err();
    assert!(matches!(err.kind, ErrorKind::MissingMandatory(Name::Blank(0))));
}

#[test]
fn grep_build_with_default_path() {
    // the path entry carries a constant default instead of skip: an absent
    // target is replaced by "-"
    let mut schema = Grepper::new();
    schema.file = Entry {
        defaults_to: DefaultValue::Default(Argument::PathPattern(Some(String::from("-")))),
        source: SourceFormatter::Default,
        target_name: Name::Blank(1),
        target_type: Argument::PathPattern(None),
    };
    let input = Args { regex_pattern: String::from("TODO"), file: None, casei: None };
    let tokens = schema.generate(&input).unwrap();
    assert_eq!(tokens, vec![String::from("TODO"), String::from("-")]);
}

#[test]
fn grep_build_with_flag() {
    // the flag's own token and its value appear after all positionals
    let schema = Grepper::new();
    let input = Args {
        regex_pattern: String::from("TODO"),
        file: Some(String::from("src")),
        casei: Some(true),
    };
    let tokens = schema.generate(&input).unwrap();
    assert_eq!(
        tokens,
        vec![String::from("TODO"), String::from("src"), String::from("-i"), String::from("true")]
    );
}

#[test]
fn grep_build_flag_without_path() {
    let schema = Grepper::new();
    let input = Args { regex_pattern: String::from("TODO"), file: None, casei: Some(true) };
    let tokens = schema.generate(&input).unwrap();
    assert_eq!(tokens, vec![String::from("TODO"), String::from("-i"), String::from("true")]);
}

#[test]
fn grep_populate_orders_entries() {
    let schema = Grepper::new();
    let input = Args {
        regex_pattern: String::from("p"),
        file: Some(String::from("dir")),
        casei: Some(false),
    };
    let bundle = schema.populate(&input).unwrap();
    assert_eq!(bundle.len(), 3);
    let entries = bundle.into_vec();
    assert!(matches!(entries[0].target_name, Name::Blank(0)));
    assert!(matches!(entries[1].target_name, Name::Blank(1)));
    assert!(matches!(entries[2].target_name, Name::Short('i')));
}

#[test]
fn grep_duplicate_name_is_rejected() {
    // a schema whose entries collide on a name fails to populate
    let mut schema = Grepper::new();
    schema.file.target_name = Name::Blank(0);
    let input = Args { regex_pattern: String::from("p"), file: None, casei: None };
    let err = schema.generate(&input).unwrap_err();
    assert!(matches!(err.kind, ErrorKind::DuplicateName(Name::Blank(0))));
}

#[test]
fn grep_undefined_entry_is_dropped() {
    // an entry set aside with an undefined name takes no part in the build
    let mut schema = Grepper::new();
    schema.casei = Entry::ignore();
    let input = Args { regex_pattern: String::from("p"), file: None, casei: None };
    let tokens = schema.generate(&input).unwrap();
    assert_eq!(tokens, vec![String::from("p")]);
}

#[test]
fn grep_false_flag_still_appears() {
    // a present boolean serializes even when false; vanishing flags are a
    // default-policy matter, not a boolean-false one
    let schema = Grepper::new();
    let input = Args { regex_pattern: String::from("p"), file: None, casei: Some(false) };
    let tokens = schema.generate(&input).unwrap();
    assert_eq!(tokens, vec![String::from("p"), String::from("-i"), String::from("false")]);
}

#[test]
fn optional_vectorization_flattens() {
    let v = vec![String::from("x"), String::from("y")];
    let tokens = cg::argument::optional_vectorization(Some(v));
    assert_eq!(tokens, vec![String::from("x"), String::from("y")]);
    let none: Option<Vec<String>> = None;
    assert!(cg::argument::optional_vectorization(none).is_empty());
}

#[test]
fn bool_token_is_lowercase() {
    assert_eq!(cg::argument::bool_token(true), String::from("true"));
    assert_eq!(cg::argument::bool_token(false), String::from("false"));
}
