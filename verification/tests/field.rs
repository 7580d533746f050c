use generic_new::config::UserConfig;
use generic_new::error::{Diagnostic, GenerateError};
use generic_new::field::{
    generic_new_blocks, input_name, magic_field_config, magic_rule, make_field_configs,
    plan_field, user_config, Attribute, FieldConfig, FieldDeclaration, FieldType, TypeArgument,
    TypeArguments, TypeName, TypePath,
};
use generic_new::text::{decimal_text, get_string_length, text_eq};

const AS_REF_STR: &str = "impl ::std::convert::AsRef<::std::primitive::str>";
const STRING_FROM: &str =
    "|s| ::std::string::String::from(::std::convert::AsRef::<::std::primitive::str>::as_ref(&s))";
const AS_REF_PATH: &str = "impl ::std::convert::AsRef<::std::path::Path>";
const PATH_BUF_FROM: &str =
    "|s| ::std::path::PathBuf::from(::std::convert::AsRef::<::std::path::Path>::as_ref(&s))";
const DRAIN: &str = "|i| { let mut v = std::vec::Vec::new(); for item in i { v.push(item) } v }";

fn name(ident: &str, arguments: TypeArguments) -> TypeName {
    TypeName {
        ident: ident.to_string(),
        arguments,
    }
}

fn single(text: &str, ident: &str, arguments: TypeArguments) -> FieldType {
    FieldType {
        text: text.to_string(),
        path: Some(TypePath {
            qualified: false,
            global: false,
            segments: vec![name(ident, arguments)],
        }),
    }
}

fn plain(text: &str) -> FieldType {
    single(text, text, TypeArguments::Empty)
}

fn vec_of(item: &str) -> FieldType {
    single(
        &format!("Vec < {item} >"),
        "Vec",
        TypeArguments::AngleBracketed(vec![TypeArgument::Type(item.to_string())]),
    )
}

fn block(arguments: &str) -> Attribute {
    Attribute {
        name: Some("generic_new".to_string()),
        arguments: Some(arguments.to_string()),
    }
}

fn field(field_name: Option<&str>, ty: FieldType, attributes: Vec<Attribute>) -> FieldDeclaration {
    FieldDeclaration {
        name: field_name.map(str::to_string),
        ty,
        attributes,
    }
}

fn config(input_type: &str, input_name: &str, struct_name: Option<&str>, transform: &str) -> FieldConfig {
    FieldConfig {
        input_type: input_type.to_string(),
        input_name: input_name.to_string(),
        struct_name: struct_name.map(str::to_string),
        transform: transform.to_string(),
    }
}

fn tokens(text: &str) -> String {
    text.parse::<proc_macro2::TokenStream>().unwrap().to_string()
}

#[test]
fn plain_field_is_taken_as_declared() {
    let f = field(Some("count"), plain("usize"), vec![]);
    assert_eq!(
        make_field_configs(&vec![f]),
        Ok(vec![config("usize", "count", Some("count"), "|i| i")])
    );
}

#[test]
fn string_field_takes_text() {
    let f = field(Some("s"), plain("String"), vec![]);
    assert_eq!(
        make_field_configs(&vec![f]),
        Ok(vec![config(AS_REF_STR, "s", Some("s"), STRING_FROM)])
    );
    let transform = |s| ::std::string::String::from(::std::convert::AsRef::<::std::primitive::str>::as_ref(&s));
    assert_eq!(transform("hello"), String::from("hello"));
    assert_eq!(
        tokens(STRING_FROM),
        tokens("|s| ::std::string::String::from(::std::convert::AsRef::<::std::primitive::str>::as_ref(&s))")
    );
}

#[test]
fn vec_field_takes_an_iterable_and_keeps_its_order() {
    let f = field(Some("v"), vec_of("u64"), vec![]);
    assert_eq!(
        make_field_configs(&vec![f]),
        Ok(vec![config(
            "impl ::std::iter::IntoIterator<Item = u64>",
            "v",
            Some("v"),
            DRAIN
        )])
    );
    let transform = |i| {
        let mut v = std::vec::Vec::new();
        for item in i {
            v.push(item)
        }
        v
    };
    let stored: Vec<u64> = transform([1u64, 2, 3]);
    assert_eq!(stored, vec![1, 2, 3]);
    assert_eq!(stored.len(), 3);
}

#[test]
fn path_buf_field_takes_a_path() {
    let f = field(None, plain("PathBuf"), vec![]);
    assert_eq!(
        make_field_configs(&vec![f]),
        Ok(vec![config(AS_REF_PATH, "arg0", None, PATH_BUF_FROM)])
    );
    let with_arguments = name("PathBuf", TypeArguments::Parenthesized);
    assert_eq!(
        magic_rule(&with_arguments),
        Some((AS_REF_PATH.to_string(), PATH_BUF_FROM.to_string()))
    );
    let transform = |s| ::std::path::PathBuf::from(::std::convert::AsRef::<::std::path::Path>::as_ref(&s));
    assert_eq!(transform("a/b"), std::path::PathBuf::from("a/b"));
}

#[test]
fn rules_match_exact_shapes_only() {
    assert_eq!(magic_rule(&name("string", TypeArguments::Empty)), None);
    assert_eq!(magic_rule(&name("Str", TypeArguments::Empty)), None);
    assert_eq!(
        magic_rule(&name(
            "String",
            TypeArguments::AngleBracketed(vec![TypeArgument::Type("u8".to_string())])
        )),
        None
    );
    assert_eq!(magic_rule(&name("Vec", TypeArguments::Empty)), None);
    assert_eq!(magic_rule(&name("Vec", TypeArguments::Parenthesized)), None);
    assert_eq!(
        magic_rule(&name("Vec", TypeArguments::AngleBracketed(vec![]))),
        None
    );
    assert_eq!(
        magic_rule(&name(
            "Vec",
            TypeArguments::AngleBracketed(vec![TypeArgument::Other])
        )),
        None
    );
    assert_eq!(
        magic_rule(&name(
            "Vec",
            TypeArguments::AngleBracketed(vec![
                TypeArgument::Type("u8".to_string()),
                TypeArgument::Type("A".to_string())
            ])
        )),
        None
    );
    assert_eq!(
        magic_rule(&name(
            "Vec",
            TypeArguments::AngleBracketed(vec![TypeArgument::Type("PathBuf".to_string())])
        )),
        Some((
            "impl ::std::iter::IntoIterator<Item = PathBuf>".to_string(),
            DRAIN.to_string()
        ))
    );
}

#[test]
fn only_a_single_name_is_looked_up() {
    let segments = vec![
        name("std", TypeArguments::Empty),
        name("string", TypeArguments::Empty),
        name("String", TypeArguments::Empty),
    ];
    let long = FieldType {
        text: "std::string::String".to_string(),
        path: Some(TypePath {
            qualified: false,
            global: false,
            segments,
        }),
    };
    let global = FieldType {
        text: "::String".to_string(),
        path: Some(TypePath {
            qualified: false,
            global: true,
            segments: vec![name("String", TypeArguments::Empty)],
        }),
    };
    let qualified = FieldType {
        text: "<T>::String".to_string(),
        path: Some(TypePath {
            qualified: true,
            global: false,
            segments: vec![name("String", TypeArguments::Empty)],
        }),
    };
    let reference = FieldType {
        text: "&'static str".to_string(),
        path: None,
    };
    for ty in [long, global, qualified, reference] {
        let f = field(Some("x"), ty.clone(), vec![]);
        assert_eq!(magic_field_config(&f, "x".to_string()), None);
        assert_eq!(
            plan_field(&f, 0, None),
            config(&ty.text, "x", Some("x"), "|i| i")
        );
    }
}

#[test]
fn ignore_turns_the_rules_off() {
    for ty in [plain("String"), vec_of("u8"), plain("PathBuf"), plain("usize")] {
        let ignored = field(Some("x"), ty.clone(), vec![block("ignore")]);
        assert_eq!(
            make_field_configs(&vec![ignored.clone()]),
            Ok(vec![config(&ty.text, "x", Some("x"), "|i| i")])
        );
        assert_eq!(
            plan_field(&ignored, 0, Some(UserConfig::Ignore)),
            config(&ty.text, "x", Some("x"), "|i| i")
        );
    }
}

#[test]
fn custom_override_wins_over_the_rules() {
    let f = field(
        Some("s"),
        plain("String"),
        vec![block("ty = u8, converter = |b| format!(\"{b}\")")],
    );
    assert_eq!(
        make_field_configs(&vec![f.clone()]),
        Ok(vec![config(
            "u8",
            "s",
            Some("s"),
            "| b | format ! (\"{b}\")"
        )])
    );
    assert_eq!(
        plan_field(
            &f,
            3,
            Some(UserConfig::Custom("T2".to_string(), "f".to_string()))
        ),
        config("T2", "s", Some("s"), "f")
    );
}

#[test]
fn empty_block_leaves_the_rules_on() {
    let f = field(Some("s"), plain("String"), vec![block("")]);
    assert_eq!(user_config(&f), Ok(Some(UserConfig::Nothing)));
    assert_eq!(
        make_field_configs(&vec![f]),
        Ok(vec![config(AS_REF_STR, "s", Some("s"), STRING_FROM)])
    );
}

#[test]
fn positional_fields_are_named_by_position() {
    let fields = vec![
        field(None, plain("usize"), vec![]),
        field(None, plain("String"), vec![]),
        field(None, plain("u8"), vec![block("ignore")]),
    ];
    assert_eq!(
        make_field_configs(&fields),
        Ok(vec![
            config("usize", "arg0", None, "|i| i"),
            config(AS_REF_STR, "arg1", None, STRING_FROM),
            config("u8", "arg2", None, "|i| i"),
        ])
    );
    let nameless = field(None, plain("u8"), vec![]);
    assert_eq!(input_name(&nameless, 0), "arg0");
    assert_eq!(input_name(&nameless, 10), "arg10");
    assert_eq!(input_name(&nameless, 1234), "arg1234");
    let named = field(Some("x"), plain("u8"), vec![]);
    assert_eq!(input_name(&named, 7), "x");
}

#[test]
fn decimal_text_writes_every_digit() {
    assert_eq!(decimal_text(0), "0");
    assert_eq!(decimal_text(9), "9");
    assert_eq!(decimal_text(10), "10");
    assert_eq!(decimal_text(1234567890), "1234567890");
    assert_eq!(decimal_text(usize::MAX), usize::MAX.to_string());
}

#[test]
fn two_blocks_on_one_field_are_turned_down() {
    let f = field(
        Some("x"),
        plain("usize"),
        vec![block("ignore"), block("ignore")],
    );
    assert_eq!(user_config(&f), Err(GenerateError::DuplicateAnnotation));
    let unreadable = field(Some("x"), plain("usize"), vec![block("foo"), block("")]);
    assert_eq!(
        user_config(&unreadable),
        Err(GenerateError::DuplicateAnnotation)
    );
}

#[test]
fn other_attributes_are_passed_over() {
    let doc = Attribute {
        name: Some("doc".to_string()),
        arguments: None,
    };
    let serde = Attribute {
        name: Some("serde".to_string()),
        arguments: Some("skip".to_string()),
    };
    let pathless = Attribute {
        name: None,
        arguments: Some("ignore".to_string()),
    };
    let f = field(
        Some("s"),
        plain("String"),
        vec![doc.clone(), block("ignore"), serde.clone(), pathless],
    );
    assert_eq!(generic_new_blocks(&f), vec![Some("ignore".to_string())]);
    assert_eq!(user_config(&f), Ok(Some(UserConfig::Ignore)));
    let none = field(Some("s"), plain("String"), vec![doc, serde]);
    assert_eq!(generic_new_blocks(&none), vec![]);
    assert_eq!(user_config(&none), Ok(None));
}

#[test]
fn block_without_brackets_is_malformed() {
    let bare = Attribute {
        name: Some("generic_new".to_string()),
        arguments: None,
    };
    let f = field(Some("bar"), plain("usize"), vec![bare]);
    assert_eq!(user_config(&f), Err(GenerateError::MalformedDirective));
    assert_eq!(
        make_field_configs(&vec![f]),
        Err(Diagnostic {
            field: Some(0),
            error: GenerateError::MalformedDirective
        })
    );
}

#[test]
fn first_failing_field_is_reported() {
    let fields = vec![
        field(Some("a"), plain("String"), vec![]),
        field(Some("b"), plain("u8"), vec![block("ty = u8")]),
        field(Some("c"), plain("u8"), vec![block("ignore"), block("ignore")]),
    ];
    assert_eq!(
        make_field_configs(&fields),
        Err(Diagnostic {
            field: Some(1),
            error: GenerateError::IncompleteOverride
        })
    );
    assert_eq!(make_field_configs(&vec![]), Ok(vec![]));
}

#[test]
fn parts_of_a_plan_are_written_out() {
    let named = config("impl Into<usize>", "u", Some("u"), "|u| Into::into(u)");
    assert_eq!(named.input(), "u: impl Into<usize>");
    assert_eq!(named.transform(), "let u = (|u| Into::into(u))(u)");
    assert_eq!(named.output(), "u: u");
    let positional = config("usize", "arg1", None, "|i| i");
    assert_eq!(positional.input(), "arg1: usize");
    assert_eq!(positional.transform(), "let arg1 = (|i| i)(arg1)");
    assert_eq!(positional.output(), "arg1");
}

#[test]
fn text_helpers() {
    assert_eq!(get_string_length("hello"), 5);
    assert_eq!(get_string_length(""), 0);
    assert_eq!(get_string_length("h\u{e9}"), 3);
    assert!(text_eq(&"ty".to_string(), "ty"));
    assert!(!text_eq(&"ty".to_string(), "t"));
}
