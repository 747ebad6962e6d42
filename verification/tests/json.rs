use doorman::json::Json;

fn text(s: &str) -> Json {
    Json::Text(s.to_string())
}

fn object(members: Vec<(&str, Json)>) -> Json {
    Json::Object(members.into_iter().map(|(k, v)| (k.to_string(), v)).collect())
}

#[test]
fn parses_every_kind_of_value() {
    assert_eq!(Json::parse("null"), Some(Json::Null));
    assert_eq!(Json::parse("true"), Some(Json::Bool(true)));
    assert_eq!(Json::parse("-12"), Some(Json::Number(Some(-12))));
    assert_eq!(Json::parse("9223372036854775807"), Some(Json::Number(Some(i64::MAX))));
    assert_eq!(Json::parse("9223372036854775808"), Some(Json::Number(None)));
    assert_eq!(Json::parse("1.5"), Some(Json::Number(None)));
    assert_eq!(Json::parse("\"a\\nb\""), Some(text("a\nb")));
    assert_eq!(
        Json::parse(" [1, [], {\"k\": null}] "),
        Some(Json::Array(vec![
            Json::Number(Some(1)),
            Json::Array(vec![]),
            object(vec![("k", Json::Null)]),
        ]))
    );
}

#[test]
fn rejects_what_is_no_json() {
    assert_eq!(Json::parse(""), None);
    assert_eq!(Json::parse("{"), None);
    assert_eq!(Json::parse("{} {}"), None);
    assert_eq!(Json::parse("nul"), None);
}

#[test]
fn keeps_the_members_of_an_object_in_order() {
    assert_eq!(
        Json::parse("{\"b\": 1, \"a\": 2}"),
        Some(object(vec![("b", Json::Number(Some(1))), ("a", Json::Number(Some(2)))]))
    );
}

#[test]
fn a_repeated_key_keeps_its_last_value() {
    assert_eq!(
        Json::parse("{\"a\": 1, \"b\": 2, \"a\": 3}"),
        Some(object(vec![("a", Json::Number(Some(3))), ("b", Json::Number(Some(2)))]))
    );
}

#[test]
fn finds_members_by_key() {
    let document = object(vec![("a", Json::Bool(true)), ("b", text("x"))]);
    assert_eq!(document.member("a"), Some(&Json::Bool(true)));
    assert_eq!(document.member("b"), Some(&text("x")));
    assert_eq!(document.member("c"), None);
    assert_eq!(text("a").member("a"), None);
    assert_eq!(Json::Array(vec![]).member("a"), None);
}

#[test]
fn writes_json() {
    let document = Json::Array(vec![object(vec![
        ("name", text("a\"b")),
        ("n", Json::Number(Some(-3))),
        ("none", Json::Null),
        ("flag", Json::Bool(false)),
        ("lost", Json::Number(None)),
    ])]);
    assert_eq!(
        document.to_json(),
        Some("[{\"name\":\"a\\\"b\",\"n\":-3,\"none\":null,\"flag\":false,\"lost\":null}]".to_string())
    );
    assert_eq!(Json::Array(vec![]).to_json(), Some("[]".to_string()));
}

#[test]
fn writes_yaml() {
    let document = Json::Array(vec![object(vec![
        ("name", text("alice")),
        ("n", Json::Number(Some(2))),
        ("none", Json::Null),
    ])]);
    assert_eq!(document.to_yaml(), Some("- name: alice\n  n: 2\n  none: null\n".to_string()));
    assert_eq!(Json::Array(vec![]).to_yaml(), Some("[]\n".to_string()));
}

#[test]
fn what_is_written_reads_back() {
    let document = object(vec![
        ("list", Json::Array(vec![Json::Number(Some(1)), text("two"), Json::Null])),
        ("inner", object(vec![("deep", Json::Bool(true))])),
    ]);
    let written = document.to_json().unwrap();
    assert_eq!(Json::parse(&written), Some(document));
}
