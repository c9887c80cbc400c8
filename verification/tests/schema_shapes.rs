use workflow_engine::schema::{Case, Field, Json, Member, Unrepresentable, ValueType};

/// The document as compact text, entries in the order they are held.
fn text(json: &Json) -> String {
    match json {
        Json::Null => "null".to_string(),
        Json::String(s) => format!("{s:?}"),
        Json::Array(items) => {
            let items: Vec<String> = items.iter().map(text).collect();
            format!("[{}]", items.join(","))
        }
        Json::Object(members) => {
            let members: Vec<String> = members
                .iter()
                .map(|Member { key, value }| format!("{key:?}:{}", text(value)))
                .collect();
            format!("{{{}}}", members.join(","))
        }
    }
}

fn schema(ty: ValueType) -> String {
    text(&ty.to_json_schema().unwrap())
}

#[test]
fn booleans_numbers_and_strings() {
    assert_eq!(schema(ValueType::Bool), r#"{"type":"boolean"}"#);
    assert_eq!(schema(ValueType::Char), r#"{"type":"string"}"#);
    assert_eq!(schema(ValueType::String), r#"{"type":"string"}"#);
    assert_eq!(schema(ValueType::Float32), r#"{"type":"number"}"#);
    assert_eq!(schema(ValueType::Float64), r#"{"type":"number"}"#);
}

#[test]
fn integers_carry_their_signedness() {
    for ty in [ValueType::S8, ValueType::S16, ValueType::S32, ValueType::S64] {
        assert_eq!(schema(ty), r#"{"type":"integer","format":"int"}"#);
    }
    for ty in [ValueType::U8, ValueType::U16, ValueType::U32, ValueType::U64] {
        assert_eq!(schema(ty), r#"{"type":"integer","format":"uint"}"#);
    }
}

#[test]
fn enum_lists_its_cases() {
    let ty = ValueType::Enum(vec!["red".to_string(), "green".to_string()]);
    assert_eq!(schema(ty), r#"{"type":"string","enum":["red","green"]}"#);
    assert_eq!(schema(ValueType::Enum(vec![])), r#"{"type":"string","enum":[]}"#);
}

#[test]
fn flags_are_an_object_of_booleans() {
    let ty = ValueType::Flags(vec!["read".to_string(), "write".to_string()]);
    assert_eq!(
        schema(ty),
        r#"{"type":"object","properties":{"read":{"type":"boolean"},"write":{"type":"boolean"}}}"#
    );
}

#[test]
fn list_describes_its_items() {
    let ty = ValueType::List(Box::new(ValueType::U8));
    assert_eq!(schema(ty), r#"{"type":"array","items":{"type":"integer","format":"uint"}}"#);
}

#[test]
fn option_is_null_or_the_inner_type() {
    let ty = ValueType::Option(Box::new(ValueType::String));
    assert_eq!(schema(ty), r#"{"anyOf":[{"type":"null"},{"type":"string"}]}"#);
}

#[test]
fn record_is_an_object_of_its_fields() {
    let ty = ValueType::Record(vec![
        Field { name: "x".to_string(), ty: ValueType::S32 },
        Field { name: "label".to_string(), ty: ValueType::String },
    ]);
    assert_eq!(
        schema(ty),
        r#"{"type":"object","properties":{"x":{"type":"integer","format":"int"},"label":{"type":"string"}}}"#
    );
}

#[test]
fn tuple_has_prefix_items() {
    let ty = ValueType::Tuple(vec![ValueType::Bool, ValueType::Char]);
    assert_eq!(
        schema(ty),
        r#"{"type":"array","prefixItems":[{"type":"boolean"},{"type":"string"}]}"#
    );
}

#[test]
fn result_has_ok_and_err() {
    let ty = ValueType::Result(Some(Box::new(ValueType::U32)), None);
    assert_eq!(
        schema(ty),
        r#"{"type":"object","properties":{"Ok":{"type":"integer","format":"uint"},"Err":null}}"#
    );
    assert_eq!(
        schema(ValueType::Result(None, Some(Box::new(ValueType::String)))),
        r#"{"type":"object","properties":{"Ok":null,"Err":{"type":"string"}}}"#
    );
}

#[test]
fn variant_is_one_of_its_titled_cases() {
    let ty = ValueType::Variant(vec![
        Case { name: "some".to_string(), ty: Some(ValueType::Bool) },
        Case { name: "none".to_string(), ty: None },
    ]);
    assert_eq!(
        schema(ty),
        r#"{"oneOf":[{"title":"some","allOf":[{"type":"boolean"}]},{"title":"none"}]}"#
    );
}

#[test]
fn nesting_goes_all_the_way_down() {
    let ty = ValueType::List(Box::new(ValueType::Option(Box::new(ValueType::Tuple(vec![
        ValueType::Record(vec![Field { name: "f".to_string(), ty: ValueType::Flags(vec![]) }]),
    ])))));
    assert_eq!(
        schema(ty),
        concat_all(&[
            r#"{"type":"array","items":{"anyOf":[{"type":"null"},"#,
            r#"{"type":"array","prefixItems":[{"type":"object","properties":{"f":"#,
            r#"{"type":"object","properties":{}}}}]}]}}"#,
        ])
    );
}

fn concat_all(parts: &[&str]) -> String {
    parts.iter().map(|p| p.to_string()).collect()
}

#[test]
fn handles_have_no_schema() {
    assert_eq!(ValueType::Own.to_json_schema().unwrap_err(), Unrepresentable);
    assert_eq!(ValueType::Borrow.to_json_schema().unwrap_err(), Unrepresentable);
}

#[test]
fn a_handle_anywhere_inside_spoils_the_type() {
    let spoiled = [
        ValueType::List(Box::new(ValueType::Own)),
        ValueType::Option(Box::new(ValueType::Borrow)),
        ValueType::Tuple(vec![ValueType::Bool, ValueType::Own]),
        ValueType::Record(vec![Field { name: "h".to_string(), ty: ValueType::Own }]),
        ValueType::Variant(vec![Case { name: "h".to_string(), ty: Some(ValueType::Borrow) }]),
        ValueType::Result(None, Some(Box::new(ValueType::Own))),
        ValueType::Result(Some(Box::new(ValueType::Own)), None),
    ];
    for ty in spoiled {
        assert!(ty.to_json_schema().is_err());
    }
}

#[test]
fn json_builders_keep_what_they_are_given() {
    assert_eq!(text(&Json::string("a\"b")), r#""a\"b""#);
    assert_eq!(text(&Json::array(vec![Json::Null, Json::string("x")])), r#"[null,"x"]"#);
    let object = Json::object(vec![
        Member { key: "b".to_string(), value: Json::Null },
        Member { key: "a".to_string(), value: Json::Null },
    ]);
    assert_eq!(text(&object), r#"{"b":null,"a":null}"#);
}
