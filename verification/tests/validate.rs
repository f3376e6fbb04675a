use argen::codegen::{Spec, ValidationError};
use argen::item::{CType, NonPositionalItem, PositionalItem};

fn pos(c_var: &str, c_type: CType, help_name: &str) -> PositionalItem {
    PositionalItem {
        c_var: c_var.to_string(),
        c_type,
        help_name: help_name.to_string(),
        help_descr: None,
        required: None,
        default: None,
        multi: None,
    }
}

fn opt(c_var: &str, c_type: CType, long: &str) -> NonPositionalItem {
    NonPositionalItem {
        c_var: c_var.to_string(),
        c_type,
        long: long.to_string(),
        help_name: None,
        help_descr: None,
        aliases: None,
        short: None,
        required: None,
        default: None,
        flag: None,
    }
}

#[test]
fn valid_spec_passes() {
    let mut p = pos("name", CType::Chars, "name");
    p.required = Some(true);
    let mut o = opt("verbose", CType::Int, "verbose");
    o.flag = Some(true);
    let s = Spec { positional: vec![p], non_positional: vec![o] };
    assert!(s.validate().is_ok());
}

#[test]
fn empty_spec_passes() {
    let s = Spec { positional: vec![], non_positional: vec![] };
    assert!(s.validate().is_ok());
}

#[test]
fn bad_ident_positional() {
    let p = pos("9bad", CType::Chars, "nine");
    let s = Spec { positional: vec![p], non_positional: vec![] };
    match s.validate() {
        Err(ValidationError::BadIdent(param, ident)) => {
            assert_eq!(param, "nine");
            assert_eq!(ident, "9bad");
        }
        other => panic!("expected BadIdent, got {:?}", other),
    }
}

#[test]
fn bad_ident_message() {
    let p = pos("9bad", CType::Chars, "nine");
    let s = Spec { positional: vec![p], non_positional: vec![] };
    let e = s.validate().unwrap_err();
    assert_eq!(e.message(), "in param nine: invalid c variable \"9bad\"");
}

#[test]
fn invalid_long_message() {
    let o = opt("out", CType::Chars, "out file");
    let s = Spec { positional: vec![], non_positional: vec![o] };
    let e = s.validate().unwrap_err();
    assert_eq!(e.message(), "invalid argument long: \"out file\"");
}

#[test]
fn ordering_error_message() {
    let first = pos("a", CType::Chars, "a");
    let mut second = pos("b", CType::Chars, "b");
    second.required = Some(true);
    let s = Spec { positional: vec![first, second], non_positional: vec![] };
    let e = s.validate().unwrap_err();
    assert_eq!(
        e.message(),
        "in param b: required positional argument cannot come after a non-required one"
    );
}

#[test]
fn decoder_error_message_passes_through() {
    let e = ValidationError::TomlError("unexpected end of input".to_string());
    assert_eq!(e.message(), "unexpected end of input");
}

#[test]
fn required_positional_with_default_rejected() {
    let mut p = pos("name", CType::Chars, "name");
    p.required = Some(true);
    p.default = Some("x".to_string());
    let s = Spec { positional: vec![p], non_positional: vec![] };
    assert!(matches!(
        s.validate(),
        Err(ValidationError::RequiredHasDefault(_))
    ));
}

#[test]
fn multi_int_rejected() {
    let mut p = pos("nums", CType::Int, "nums");
    p.multi = Some(true);
    let s = Spec { positional: vec![p], non_positional: vec![] };
    assert!(matches!(s.validate(), Err(ValidationError::MultiNotChars(_))));
}

#[test]
fn long_with_space_rejected() {
    let o = opt("out", CType::Chars, "out file");
    let s = Spec { positional: vec![], non_positional: vec![o] };
    match s.validate() {
        Err(ValidationError::InvalidLong(long)) => assert_eq!(long, "out file"),
        other => panic!("expected InvalidLong, got {:?}", other),
    }
}

#[test]
fn short_of_two_chars_rejected() {
    let mut o = opt("out", CType::Chars, "out");
    o.short = Some("xy".to_string());
    let s = Spec { positional: vec![], non_positional: vec![o] };
    match s.validate() {
        Err(ValidationError::InvalidShort(param, short)) => {
            assert_eq!(param, "out");
            assert_eq!(short, "xy");
        }
        other => panic!("expected InvalidShort, got {:?}", other),
    }
}

#[test]
fn alias_with_space_rejected() {
    let mut o = opt("out", CType::Chars, "out");
    o.aliases = Some(vec!["fine".to_string(), "not fine".to_string()]);
    let s = Spec { positional: vec![], non_positional: vec![o] };
    match s.validate() {
        Err(ValidationError::InvalidAlias(param, alias)) => {
            assert_eq!(param, "out");
            assert_eq!(alias, "not fine");
        }
        other => panic!("expected InvalidAlias, got {:?}", other),
    }
}

#[test]
fn flag_of_chars_rejected() {
    let mut o = opt("verbose", CType::Chars, "verbose");
    o.flag = Some(true);
    let s = Spec { positional: vec![], non_positional: vec![o] };
    assert!(matches!(s.validate(), Err(ValidationError::FlagMustBeInt(_))));
}

#[test]
fn flag_with_default_rejected() {
    let mut o = opt("verbose", CType::Int, "verbose");
    o.flag = Some(true);
    o.default = Some("1".to_string());
    let s = Spec { positional: vec![], non_positional: vec![o] };
    assert!(matches!(
        s.validate(),
        Err(ValidationError::FlagHasDefault(_))
    ));
}

#[test]
fn required_flag_rejected() {
    let mut o = opt("verbose", CType::Int, "verbose");
    o.flag = Some(true);
    o.required = Some(true);
    let s = Spec { positional: vec![], non_positional: vec![o] };
    assert!(matches!(
        s.validate(),
        Err(ValidationError::FlagCannotBeRequired(_))
    ));
}

#[test]
fn required_option_with_default_rejected() {
    let mut o = opt("out", CType::Chars, "out");
    o.required = Some(true);
    o.default = Some("a.txt".to_string());
    let s = Spec { positional: vec![], non_positional: vec![o] };
    assert!(matches!(
        s.validate(),
        Err(ValidationError::RequiredHasDefault(_))
    ));
}

#[test]
fn required_after_optional_rejected() {
    let first = pos("a", CType::Chars, "a");
    let mut second = pos("b", CType::Chars, "b");
    second.required = Some(true);
    let s = Spec { positional: vec![first, second], non_positional: vec![] };
    match s.validate() {
        Err(ValidationError::RequiredPositionalGoesBeforeOptionPositional(param)) => {
            assert_eq!(param, "b");
        }
        other => panic!("expected ordering error, got {:?}", other),
    }
}

#[test]
fn required_after_optional_rejected_with_other_items_around() {
    let mut first = pos("a", CType::Int, "a");
    first.default = Some("7".to_string());
    let mut second = pos("b", CType::Chars, "b");
    second.required = Some(true);
    let o = opt("quiet", CType::Int, "quiet");
    let s = Spec { positional: vec![first, second], non_positional: vec![o] };
    assert!(matches!(
        s.validate(),
        Err(ValidationError::RequiredPositionalGoesBeforeOptionPositional(_))
    ));
}

#[test]
fn multi_not_last_rejected() {
    let mut first = pos("files", CType::Chars, "files");
    first.multi = Some(true);
    let second = pos("other", CType::Chars, "other");
    let s = Spec { positional: vec![first, second], non_positional: vec![] };
    match s.validate() {
        Err(ValidationError::MultiMustBeLast(param)) => assert_eq!(param, "files"),
        other => panic!("expected MultiMustBeLast, got {:?}", other),
    }
}

#[test]
fn multi_last_accepted() {
    let first = pos("other", CType::Chars, "other");
    let mut second = pos("files", CType::Chars, "files");
    second.multi = Some(true);
    let s = Spec { positional: vec![first, second], non_positional: vec![] };
    assert!(s.validate().is_ok());
}

#[test]
fn fail_fast_returns_first_error() {
    // The first item's own check fails before the second item's ordering
    // violation is ever reached.
    let bad = pos("not ok", CType::Chars, "first");
    let mut second = pos("b", CType::Chars, "b");
    second.required = Some(true);
    let s = Spec { positional: vec![bad, second], non_positional: vec![] };
    assert!(matches!(s.validate(), Err(ValidationError::BadIdent(_, _))));
}

#[test]
fn positional_checked_before_options() {
    let mut p = pos("name", CType::Chars, "name");
    p.multi = Some(true);
    p.c_type = CType::Int;
    let o = opt("bad var", CType::Chars, "long");
    let s = Spec { positional: vec![p], non_positional: vec![o] };
    assert!(matches!(s.validate(), Err(ValidationError::MultiNotChars(_))));
}
