use cg::argument::{Argument, Value};
use cg::entry::{DefaultValue, Entry, ErrorKind, Transformable};
use cg::name::Name;

#[test]
fn parse_name_positional() {
    let (name, next) = Name::parse("#0!{pattern}[str]").unwrap();
    assert!(matches!(name, Name::Blank(0)));
    assert_eq!(next, 2);
}

#[test]
fn parse_name_three_digits() {
    let (name, next) = Name::parse("#255{x}").unwrap();
    assert!(matches!(name, Name::Blank(255)));
    assert_eq!(next, 4);
}

#[test]
fn parse_name_index_too_large() {
    assert!(Name::parse("#256{x}").is_none());
    assert!(Name::parse("#1000{x}").is_none());
}

#[test]
fn parse_name_short() {
    let (name, next) = Name::parse("-i{casei}").unwrap();
    assert!(matches!(name, Name::Short('i')));
    assert_eq!(next, 2);
}

#[test]
fn parse_name_long() {
    let (name, next) = Name::parse("--exclude{skipped}[path]").unwrap();
    match name {
        Name::Long(s) => assert_eq!(s, String::from("exclude")),
        _ => panic!("expected a long name"),
    }
    assert_eq!(next, 9);
}

#[test]
fn parse_name_rejects_bad_heads() {
    assert!(Name::parse("").is_none());
    assert!(Name::parse("#").is_none());
    assert!(Name::parse("#x").is_none());
    assert!(Name::parse("-1{x}").is_none());
    assert!(Name::parse("--{x}").is_none());
    assert!(Name::parse("pattern").is_none());
}

#[test]
fn parse_entry_mandatory_text() {
    let (entry, tag) = Entry::parse("#0!{pattern}[str]").unwrap();
    assert!(matches!(entry.target_name, Name::Blank(0)));
    assert!(matches!(entry.defaults_to, DefaultValue::Mandatory));
    assert!(matches!(entry.target_type, Argument::Text(None)));
    assert_eq!(tag, String::from("pattern"));
}

#[test]
fn parse_entry_default_path() {
    let (entry, tag) = Entry::parse("#1<->{path}[path]").unwrap();
    assert!(matches!(entry.target_name, Name::Blank(1)));
    match entry.defaults_to {
        DefaultValue::Default(Argument::PathPattern(Some(p))) => {
            assert_eq!(p, String::from("-"));
        },
        _ => panic!("expected a constant path default"),
    }
    assert!(matches!(entry.target_type, Argument::PathPattern(None)));
    assert_eq!(tag, String::from("path"));
}

#[test]
fn parse_entry_boolean_flag() {
    let (entry, tag) = Entry::parse("-i{casei}").unwrap();
    assert!(matches!(entry.target_name, Name::Short('i')));
    assert!(matches!(entry.defaults_to, DefaultValue::Skip));
    assert!(matches!(entry.target_type, Argument::BooleanFlag(None)));
    assert_eq!(tag, String::from("casei"));
}

#[test]
fn parse_entry_boolean_constant_default() {
    let (entry, _) = Entry::parse("-i<true>{casei}").unwrap();
    assert!(matches!(
        entry.defaults_to,
        DefaultValue::Default(Argument::BooleanFlag(Some(true)))
    ));
    let (entry, _) = Entry::parse("-i<false>{casei}").unwrap();
    assert!(matches!(
        entry.defaults_to,
        DefaultValue::Default(Argument::BooleanFlag(Some(false)))
    ));
}

#[test]
fn parse_entry_rejects_bad_descriptors() {
    // no source part
    assert!(matches!(
        Entry::parse("#0!").unwrap_err().kind,
        ErrorKind::UnparsableSchemaDescriptor
    ));
    // empty source tag
    assert!(matches!(
        Entry::parse("#0!{}[str]").unwrap_err().kind,
        ErrorKind::UnparsableSchemaDescriptor
    ));
    // unknown kind word
    assert!(matches!(
        Entry::parse("#0!{pattern}[bogus]").unwrap_err().kind,
        ErrorKind::UnparsableSchemaDescriptor
    ));
    // unterminated constant default
    assert!(matches!(
        Entry::parse("#1<-{path}[path]").unwrap_err().kind,
        ErrorKind::UnparsableSchemaDescriptor
    ));
    // a boolean entry's constant must be true or false
    assert!(matches!(
        Entry::parse("-i<maybe>{casei}").unwrap_err().kind,
        ErrorKind::UnparsableSchemaDescriptor
    ));
    // trailing text past the kind part
    assert!(matches!(
        Entry::parse("#0!{pattern}[str]x").unwrap_err().kind,
        ErrorKind::UnparsableSchemaDescriptor
    ));
}

#[test]
fn parsed_entry_joins_the_pipeline() {
    let (entry, _) = Entry::parse("#0!{pattern}[str]").unwrap();
    let tokens = entry.transform(&Value::Text(String::from("TODO"))).unwrap();
    assert_eq!(tokens, vec![String::from("TODO")]);
}
