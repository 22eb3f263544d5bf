use cg::argument::{Argument, Value};
use cg::entry::{DefaultValue, Entry, ErrorKind, SourceFormatter, Transformable};
use cg::name::Name;
use cg::order::OrderedEntries;

fn text_entry(index: u8, defaults_to: DefaultValue) -> Entry {
    Entry {
        defaults_to,
        source: SourceFormatter::Default,
        target_name: Name::Blank(index),
        target_type: Argument::Text(None),
    }
}

#[test]
fn conform_filled_ignores_policy() {
    // a mandatory entry that was filled never reports a missing value
    let mut e = text_entry(0, DefaultValue::Mandatory);
    e.fill(&Value::Text(String::from("TODO"))).unwrap();
    let tokens = e.conform().unwrap();
    assert_eq!(tokens, vec![String::from("TODO")]);
}

#[test]
fn conform_filled_ignores_constant_default() {
    let mut e = text_entry(0, DefaultValue::Default(Argument::Text(Some(String::from("fallback")))));
    e.fill(&Value::Text(String::from("given"))).unwrap();
    let tokens = e.conform().unwrap();
    assert_eq!(tokens, vec![String::from("given")]);
}

#[test]
fn conform_unfilled_skip_contributes_nothing() {
    let e = text_entry(1, DefaultValue::Skip);
    let tokens = e.conform().unwrap();
    assert!(tokens.is_empty());
}

#[test]
fn conform_unfilled_mandatory_fails_with_name() {
    let e = text_entry(0, DefaultValue::Mandatory);
    let err = e.conform().unwrap_err();
    assert!(matches!(err.kind, ErrorKind::MissingMandatory(Name::Blank(0))));
}

#[test]
fn conform_unfilled_default_serializes_constant() {
    let e = Entry {
        defaults_to: DefaultValue::Default(Argument::PathPattern(Some(String::from("-")))),
        source: SourceFormatter::Default,
        target_name: Name::Blank(1),
        target_type: Argument::PathPattern(None),
    };
    let tokens = e.conform().unwrap();
    assert_eq!(tokens, vec![String::from("-")]);
}

#[test]
fn boolean_false_still_serializes() {
    let mut e = Entry {
        defaults_to: DefaultValue::Skip,
        source: SourceFormatter::Default,
        target_name: Name::Short('i'),
        target_type: Argument::BooleanFlag(None),
    };
    e.fill(&Value::Bool(false)).unwrap();
    let tokens = e.generate();
    assert_eq!(tokens, vec![String::from("false")]);
}

#[test]
fn collection_serialization_preserves_order() {
    // a 3-element path collection yields exactly 3 tokens in original order
    let paths = vec![String::from("a"), String::from("b/c"), String::from("d")];
    let arg = Argument::CollectionPathPattern(Some(paths.clone()));
    let tokens = arg.generate();
    assert_eq!(tokens, paths);
}

#[test]
fn empty_collection_yields_no_tokens() {
    let arg = Argument::CollectionText(Some(Vec::new()));
    assert!(arg.generate().is_empty());
}

#[test]
fn fill_mismatch_reports_type_mismatch() {
    // a text value must never be accepted into a path target
    let mut e = Entry {
        defaults_to: DefaultValue::Skip,
        source: SourceFormatter::Default,
        target_name: Name::Blank(1),
        target_type: Argument::PathPattern(None),
    };
    let err = e.fill(&Value::Text(String::from("not-a-path"))).unwrap_err();
    assert!(matches!(err.kind, ErrorKind::TypeMismatch));
}

#[test]
fn fill_path_into_text_narrows() {
    let mut e = text_entry(0, DefaultValue::Skip);
    e.fill(&Value::Path(String::from("src/lib.rs"))).unwrap();
    assert_eq!(e.conform().unwrap(), vec![String::from("src/lib.rs")]);
}

#[test]
fn fill_replaces_prior_payload() {
    let mut e = text_entry(0, DefaultValue::Skip);
    e.fill(&Value::Text(String::from("first"))).unwrap();
    e.fill(&Value::Text(String::from("second"))).unwrap();
    assert_eq!(e.conform().unwrap(), vec![String::from("second")]);
}

#[test]
fn short_name_prepends_rendered_flag() {
    let tokens = Name::Short('i').name(vec![String::from("true")]);
    assert_eq!(tokens, vec![String::from("-i"), String::from("true")]);
}

#[test]
fn long_name_prepends_rendered_flag() {
    let tokens = Name::Long(String::from("exclude")).name(vec![String::from("target")]);
    assert_eq!(tokens, vec![String::from("--exclude"), String::from("target")]);
}

#[test]
fn blank_name_passes_tokens_through() {
    let tokens = Name::Blank(3).name(vec![String::from("x")]);
    assert_eq!(tokens, vec![String::from("x")]);
}

#[test]
fn flag_with_no_value_contributes_nothing() {
    let tokens = Name::Short('i').name(Vec::new());
    assert!(tokens.is_empty());
}

#[test]
fn undefined_name_contributes_nothing() {
    let tokens = Name::Undefined.name(vec![String::from("x")]);
    assert!(tokens.is_empty());
}

#[test]
fn name_order_is_strict_and_total() {
    let blank0 = Name::Blank(0);
    let blank1 = Name::Blank(1);
    let short_a = Name::Short('a');
    let short_b = Name::Short('b');
    let long_a = Name::Long(String::from("alpha"));
    let long_b = Name::Long(String::from("alphabet"));
    // irreflexive
    assert!(!blank0.lt(&blank0));
    assert!(!long_a.lt(&long_a));
    // positionals by index, before shorts, shorts by character, before longs
    assert!(blank0.lt(&blank1));
    assert!(!blank1.lt(&blank0));
    assert!(blank1.lt(&short_a));
    assert!(short_a.lt(&short_b));
    assert!(short_b.lt(&long_a));
    // longs lexicographically: a proper prefix sorts first
    assert!(long_a.lt(&long_b));
    assert!(!long_b.lt(&long_a));
    // equality only between like names
    assert!(blank0.same(&Name::Blank(0)));
    assert!(!blank0.same(&blank1));
    assert!(!blank0.same(&short_a));
    assert!(long_a.same(&Name::Long(String::from("alpha"))));
}

#[test]
fn insertion_orders_entries_regardless_of_fill_order() {
    // insert flag first, positionals out of order: the walk is still
    // positional(0), positional(1), flag
    let mut bundle = OrderedEntries::new();
    let flag = Entry {
        defaults_to: DefaultValue::Skip,
        source: SourceFormatter::Default,
        target_name: Name::Short('i'),
        target_type: Argument::BooleanFlag(Some(true)),
    };
    let mut second = text_entry(1, DefaultValue::Skip);
    second.fill(&Value::Text(String::from("later"))).unwrap();
    let mut first = text_entry(0, DefaultValue::Skip);
    first.fill(&Value::Text(String::from("sooner"))).unwrap();
    bundle.insert(flag).unwrap();
    bundle.insert(second).unwrap();
    bundle.insert(first).unwrap();
    let tokens = bundle.conform_all().unwrap();
    assert_eq!(
        tokens,
        vec![
            String::from("sooner"),
            String::from("later"),
            String::from("-i"),
            String::from("true"),
        ]
    );
}

#[test]
fn insertion_is_idempotent_on_sorted_input() {
    // re-inserting an already ordered set reproduces the same order
    let mut bundle = OrderedEntries::new();
    for i in 0..3u8 {
        let mut e = text_entry(i, DefaultValue::Skip);
        e.fill(&Value::Text(format!("v{}", i))).unwrap();
        bundle.insert(e).unwrap();
    }
    let entries = bundle.into_vec();
    let mut again = OrderedEntries::new();
    let mut names: Vec<u8> = Vec::new();
    for e in entries {
        if let Name::Blank(i) = e.target_name {
            names.push(i);
        }
        again.insert(e).unwrap();
    }
    assert_eq!(names, vec![0, 1, 2]);
    let tokens = again.conform_all().unwrap();
    assert_eq!(tokens, vec![String::from("v0"), String::from("v1"), String::from("v2")]);
}

#[test]
fn duplicate_name_is_rejected() {
    let mut bundle = OrderedEntries::new();
    bundle.insert(text_entry(0, DefaultValue::Skip)).unwrap();
    let err = bundle.insert(text_entry(0, DefaultValue::Mandatory)).unwrap_err();
    assert!(matches!(err.kind, ErrorKind::DuplicateName(Name::Blank(0))));
    assert_eq!(bundle.len(), 1);
}

#[test]
fn transform_runs_the_whole_pipeline() {
    let e = Entry {
        defaults_to: DefaultValue::Skip,
        source: SourceFormatter::Default,
        target_name: Name::Short('i'),
        target_type: Argument::BooleanFlag(None),
    };
    let tokens = e.transform(&Value::Bool(true)).unwrap();
    assert_eq!(tokens, vec![String::from("-i"), String::from("true")]);
}
