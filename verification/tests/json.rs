//! JSON texts and what they hold.

use taarof_app::json::{parse_json, Json};

#[test]
fn numbers_are_printed_again() {
    for (text, printed) in [("100", "100"), ("1E2", "100.0"), ("-0.50", "-0.5")] {
        assert_eq!(parse_json(text), Some(Json::Number(printed.into())));
    }
}

#[test]
fn objects_stand_in_the_order_of_their_keys() {
    assert_eq!(
        parse_json(r#"{"b":[null,true],"a":"x"}"#),
        Some(Json::Object(vec![
            ("a".into(), Json::Text("x".into())),
            ("b".into(), Json::Array(vec![Json::Null, Json::Bool(true)])),
        ]))
    );
    assert_eq!(parse_json("{"), None);
}
