use sto::json::{member, parse, quote, render, render_array, render_object, Json};
use sto::resource::{decode_all, decode_list, decode_resource, encode_all, encode_resource, Resource};
use sto::human::Human;
use sto::text::join_strings;

fn strings(items: &[&str]) -> Vec<String> {
    items.iter().map(|s| s.to_string()).collect()
}

#[test]
fn join_puts_the_separator_between_neighbours_only() {
    assert_eq!(join_strings(&strings(&[]), ","), "");
    assert_eq!(join_strings(&strings(&["a"]), ","), "a");
    assert_eq!(join_strings(&strings(&["a", "b", "c"]), ", "), "a, b, c");
    assert_eq!(join_strings(&strings(&["", ""]), "-"), "-");
}

#[test]
fn member_finds_the_first_member_of_that_name() {
    let members = vec![
        ("a".to_string(), "1".to_string()),
        ("b".to_string(), "2".to_string()),
        ("a".to_string(), "3".to_string()),
    ];
    assert_eq!(member(&members, "a"), Some(&"1".to_string()));
    assert_eq!(member(&members, "b"), Some(&"2".to_string()));
    assert_eq!(member(&members, "c"), None);
    assert_eq!(member(&Vec::new(), "a"), None);
}

#[test]
fn render_writes_compact_json() {
    assert_eq!(render(&Json::Null), Some("null".to_string()));
    assert_eq!(render(&Json::Bool(true)), Some("true".to_string()));
    assert_eq!(render(&Json::Bool(false)), Some("false".to_string()));
    assert_eq!(render(&Json::Number("1.5".to_string())), Some("1.5".to_string()));
    assert_eq!(render(&Json::Text("a\"b".to_string())), Some("\"a\\\"b\"".to_string()));
    assert_eq!(render(&Json::Array(strings(&["1", "[2]"]))), Some("[1,[2]]".to_string()));
    assert_eq!(render_array(&strings(&[])), "[]");
    assert_eq!(
        render_object(&vec![
            ("k 1".to_string(), "true".to_string()),
            ("k\n2".to_string(), "{}".to_string()),
        ]),
        Some("{\"k 1\":true,\"k\\n2\":{}}".to_string())
    );
    assert_eq!(render_object(&Vec::new()), Some("{}".to_string()));
}

#[test]
fn resources_are_tagged_single_or_list() {
    let alice = Human { name: "Alice".to_string() };
    let bob = Human { name: "Bob".to_string() };
    assert_eq!(
        encode_resource(&Resource::Single(alice.clone())),
        Some("{\"Single\":{\"name\":\"Alice\"}}".to_string())
    );
    assert_eq!(
        encode_resource(&Resource::List(vec![alice.clone(), bob.clone()])),
        Some("{\"List\":[{\"name\":\"Alice\"},{\"name\":\"Bob\"}]}".to_string())
    );
    assert_eq!(
        encode_resource(&Resource::<Human>::List(vec![])),
        Some("{\"List\":[]}".to_string())
    );
    assert_eq!(
        decode_resource::<Human>("{\"Single\":{\"name\":\"Alice\"}}"),
        Some(Resource::Single(alice.clone()))
    );
    assert_eq!(
        decode_resource::<Human>(" {\"List\": [ {\"name\":\"Alice\"} , {\"name\":\"Bob\"} ] } "),
        Some(Resource::List(vec![alice.clone(), bob.clone()]))
    );
    assert_eq!(decode_resource::<Human>("{\"List\":[]}"), Some(Resource::List(vec![])));
    assert_eq!(decode_resource::<Human>("{\"List\":[{\"name\":\"Alice\"},7]}"), None);
    assert_eq!(decode_resource::<Human>("[]"), None);
    assert_eq!(
        decode_list::<Human>("[{\"name\":\"Alice\"},{\"name\":\"Bob\"}]"),
        Some(vec![alice.clone(), bob.clone()])
    );
    assert_eq!(decode_list::<Human>("{\"name\":\"Alice\"}"), None);
    assert_eq!(
        decode_all::<Human>(&strings(&["{\"name\":\"Alice\"}", "{\"name\":\"Bob\"}"])),
        Some(vec![alice.clone(), bob.clone()])
    );
    assert_eq!(decode_all::<Human>(&strings(&["{\"name\":\"Alice\"}", "x"])), None);
    assert_eq!(
        encode_all(&vec![alice, bob]),
        Some(strings(&["{\"name\":\"Alice\"}", "{\"name\":\"Bob\"}"]))
    );
}

#[test]
fn parse_reads_one_level_of_a_value() {
    assert_eq!(parse(" null "), Some(Json::Null));
    assert_eq!(parse("true"), Some(Json::Bool(true)));
    assert_eq!(parse("false"), Some(Json::Bool(false)));
    assert_eq!(parse("12"), Some(Json::Number("12".to_string())));
    assert_eq!(parse("-0.50"), Some(Json::Number("-0.5".to_string())));
    assert_eq!(parse("\"a\\nb\\u0041\""), Some(Json::Text("a\nbA".to_string())));
    assert_eq!(
        parse("[1, [2, 3], {\"k\": null}, \"s\"]"),
        Some(Json::Array(strings(&["1", "[2,3]", "{\"k\":null}", "\"s\""])))
    );
    assert_eq!(
        parse("{\"b\": [1, 2], \"a\": \"x\"}"),
        Some(Json::Object(vec![
            ("a".to_string(), "\"x\"".to_string()),
            ("b".to_string(), "[1,2]".to_string()),
        ]))
    );
    assert_eq!(
        parse("{\"k\": 1, \"k\": 2}"),
        Some(Json::Object(vec![("k".to_string(), "2".to_string())]))
    );
    assert_eq!(parse("[]"), Some(Json::Array(vec![])));
    assert_eq!(parse("{}"), Some(Json::Object(vec![])));
}

#[test]
fn parse_refuses_what_is_not_one_json_value() {
    assert_eq!(parse(""), None);
    assert_eq!(parse("{bad json"), None);
    assert_eq!(parse("1 2"), None);
    assert_eq!(parse("[1,]"), None);
    assert_eq!(parse("'a'"), None);
    assert_eq!(parse("nul"), None);
}

#[test]
fn quote_writes_a_json_string() {
    assert_eq!(quote("Alice"), Some("\"Alice\"".to_string()));
    assert_eq!(quote(""), Some("\"\"".to_string()));
    assert_eq!(quote("a\"b\\c\n"), Some("\"a\\\"b\\\\c\\n\"".to_string()));
    assert_eq!(quote("é"), Some("\"é\"".to_string()));
}
