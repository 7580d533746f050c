use generic_new::attributes::{directive_kind, ident_is, UserAttribute};
use generic_new::error::{DirectiveKind, GenerateError};

#[test]
fn attributes_parse_ignore() {
    let parsed = UserAttribute::parse("ignore").unwrap();
    println!("{parsed:?}");
    assert!(matches!(parsed.0, UserAttribute::Ignore));
    assert_eq!(parsed.1, "");
}

#[test]
fn parse_input_type() {
    let parsed = UserAttribute::parse("ty = impl IntoIterator<Item = usize>").unwrap();
    println!("{parsed:?}");
    assert!(matches!(parsed.0, UserAttribute::InputType(_)));
    assert_eq!(
        parsed.0,
        UserAttribute::InputType("impl IntoIterator < Item = usize >".to_string())
    );
    assert_eq!(parsed.1, "");
}

#[test]
fn parse_converter() {
    let parsed = UserAttribute::parse("converter = |t| { t.to_vec() }").unwrap();
    println!("{parsed:?}");
    assert!(matches!(parsed.0, UserAttribute::Converter(_)));
    assert_eq!(parsed.1, "");
}

#[test]
fn dont_parse_unknown() {
    let res = UserAttribute::parse("foo");
    println!("{res:?}");
    assert!(res.is_err());
    assert_eq!(
        res,
        Err(GenerateError::UnrecognizedDirective("foo".to_string()))
    );
}

#[test]
fn ident_is_looks_at_the_first_identifier_only() {
    assert!(ident_is("ignore", "ignore"));
    assert!(ident_is("ignore, ty = u8", "ignore"));
    assert!(!ident_is("ty = u8", "ignore"));
    assert!(!ident_is("= ignore", "ignore"));
    assert!(!ident_is("", "ignore"));
}

#[test]
fn parse_hands_back_what_follows_the_directive() {
    let (attribute, rest) = UserAttribute::parse("ignore, ty = u8").unwrap();
    assert_eq!(attribute, UserAttribute::Ignore);
    assert_eq!(rest, ", ty = u8");
    let (attribute, rest) = UserAttribute::parse("ty = Vec<u8>, converter = f").unwrap();
    assert_eq!(attribute, UserAttribute::InputType("Vec < u8 >".to_string()));
    assert_eq!(rest, ", converter = f");
    let (attribute, rest) = UserAttribute::parse("converter = |a, b| a + b, ignore").unwrap();
    assert_eq!(
        attribute,
        UserAttribute::Converter("| a , b | a + b".to_string())
    );
    assert_eq!(rest, ", ignore");
}

#[test]
fn keyword_without_payload_is_malformed() {
    assert_eq!(
        UserAttribute::parse("ty"),
        Err(GenerateError::MalformedDirective)
    );
    assert_eq!(
        UserAttribute::parse("ty ="),
        Err(GenerateError::MalformedDirective)
    );
    assert_eq!(
        UserAttribute::parse("ty usize"),
        Err(GenerateError::MalformedDirective)
    );
    assert_eq!(
        UserAttribute::parse("converter"),
        Err(GenerateError::MalformedDirective)
    );
    assert_eq!(
        UserAttribute::parse("converter = ,"),
        Err(GenerateError::MalformedDirective)
    );
}

#[test]
fn what_is_no_identifier_is_unrecognized() {
    assert_eq!(
        UserAttribute::parse("= ignore"),
        Err(GenerateError::UnrecognizedDirective("=".to_string()))
    );
    assert_eq!(
        UserAttribute::parse(""),
        Err(GenerateError::UnrecognizedDirective("".to_string()))
    );
    assert_eq!(
        UserAttribute::parse("(a, b) = c"),
        Err(GenerateError::UnrecognizedDirective("(a , b)".to_string()))
    );
    assert_eq!(
        UserAttribute::parse("type = u8"),
        Err(GenerateError::UnrecognizedDirective("type".to_string()))
    );
    assert_eq!(
        UserAttribute::parse("\"ignore\""),
        Err(GenerateError::UnrecognizedDirective("\"ignore\"".to_string()))
    );
    assert_eq!(
        UserAttribute::parse("'"),
        Err(GenerateError::UnrecognizedDirective("'".to_string()))
    );
    assert_eq!(
        UserAttribute::parse("input_type = u8"),
        Err(GenerateError::UnrecognizedDirective(
            "input_type".to_string()
        ))
    );
}

#[test]
fn three_keywords_and_no_other() {
    assert_eq!(directive_kind("ignore"), Some(DirectiveKind::Ignore));
    assert_eq!(directive_kind("ty"), Some(DirectiveKind::InputType));
    assert_eq!(directive_kind("converter"), Some(DirectiveKind::Converter));
    assert_eq!(directive_kind("input_type"), None);
    assert_eq!(directive_kind("transform"), None);
    assert_eq!(directive_kind("Ignore"), None);
    assert_eq!(directive_kind(""), None);
}

#[test]
fn every_literal_is_read() {
    assert_eq!(
        UserAttribute::parse("converter = c\"x\""),
        Ok((UserAttribute::Converter("c\"x\"".to_string()), "".to_string()))
    );
    assert_eq!(
        UserAttribute::parse("converter = cr#\"x\"#, ignore"),
        Ok((
            UserAttribute::Converter("cr#\"x\"#".to_string()),
            ", ignore".to_string()
        ))
    );
    assert_eq!(
        UserAttribute::parse("ty = Foo<c\"x\">"),
        Ok((
            UserAttribute::InputType("Foo < c\"x\" >".to_string()),
            "".to_string()
        ))
    );
    assert_eq!(
        UserAttribute::parse("ty = [u8; c\"x\"]"),
        Ok((
            UserAttribute::InputType("[u8 ; c\"x\"]".to_string()),
            "".to_string()
        ))
    );
    assert_eq!(
        UserAttribute::parse("converter = (/*ERROR*/)"),
        Ok((
            UserAttribute::Converter("(/*ERROR*/)".to_string()),
            "".to_string()
        ))
    );
    assert_eq!(
        UserAttribute::parse("ty = [u8; (/*ERROR*/)]"),
        Ok((
            UserAttribute::InputType("[u8 ; (/*ERROR*/)]".to_string()),
            "".to_string()
        ))
    );
    assert_eq!(
        UserAttribute::parse("converter = 1e"),
        Ok((UserAttribute::Converter("1e".to_string()), "".to_string()))
    );
    assert_eq!(
        UserAttribute::parse("converter = \"a\"b"),
        Ok((UserAttribute::Converter("\"a\"b".to_string()), "".to_string()))
    );
}

#[test]
fn text_that_is_no_tokens_is_unrecognized_whole() {
    assert_eq!(
        UserAttribute::parse("converter = 0x"),
        Err(GenerateError::UnrecognizedDirective(
            "converter = 0x".to_string()
        ))
    );
    assert_eq!(
        UserAttribute::parse("ignore )"),
        Err(GenerateError::UnrecognizedDirective("ignore )".to_string()))
    );
}
