use turbo_kubb::command::{ArgumentType, ArgumentValue, Error, Example, ParsedArgument};
use turbo_kubb::configuration::Config;
use turbo_kubb::handler::Handler;

#[test]
fn value_constructors_carry_their_tag() {
    assert!(matches!(ArgumentValue::new_string("hi".to_string()), ArgumentValue::String(s) if s == "hi"));
    assert!(matches!(ArgumentValue::new_number(-3), ArgumentValue::Number(-3)));
    assert!(matches!(ArgumentValue::new_enum("on".to_string()), ArgumentValue::Enum(s) if s == "on"));
    assert!(matches!(ArgumentValue::new_user(9), ArgumentValue::User(9)));
}

#[test]
fn parsed_argument_keeps_name_and_value() {
    let p = ParsedArgument::new("count".to_string(), ArgumentValue::new_number(4));
    assert_eq!(p.name, "count");
    assert!(matches!(p.value, ArgumentValue::Number(4)));
}

#[test]
fn example_keeps_its_fields() {
    let e = Example::new(vec!["7".to_string()], "roll seven dice".to_string());
    assert_eq!(e.arguments, vec!["7".to_string()]);
    assert_eq!(e.description, "roll seven dice");
}

#[test]
fn parsing_arg_error_wraps_the_offender() {
    let err = Error::new_parsing_arg("n".to_string(), ArgumentType::number(), "abc".to_string());
    match err {
        Error::ParsingArgError(e) => {
            assert_eq!(e.name, "n");
            assert!(matches!(e.type_, ArgumentType::Number));
            assert_eq!(e.received, "abc");
        }
        _ => panic!("expected a parsing-argument error"),
    }
}

#[test]
fn type_constructors_build_each_kind() {
    assert!(matches!(ArgumentType::string(), ArgumentType::String));
    assert!(matches!(ArgumentType::number(), ArgumentType::Number));
    let t = ArgumentType::enum_("lang".to_string(), vec!["en".to_string(), "fr".to_string()]);
    match t {
        ArgumentType::Enum(e) => {
            assert_eq!(e.name, "lang");
            assert_eq!(e.variants, vec!["en".to_string(), "fr".to_string()]);
        }
        _ => panic!("expected the enumerated kind"),
    }
}

#[test]
fn supporting_types_construct() {
    let _h = Handler::new();
    let _c = Config::new();
    let _id: turbo_kubb::Id = 42;
}
