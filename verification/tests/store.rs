use sto::document::Document;
use sto::error::DatabaseError;
use sto::human::Human;
use sto::resource::{Payload, Resource};
use sto::store::{Database, DB_FILE, IN_MEMORY};

fn human(name: &str) -> Human {
    Human {
        name: name.to_string(),
    }
}

fn names(db: &Database<Human>, key: &str) -> Vec<String> {
    match db.read(key) {
        Some(Resource::List(list)) => list.into_iter().map(|h| h.name).collect(),
        other => panic!("expected a list, found {:?}", other),
    }
}

#[test]
fn create_then_read_gives_the_resource_back() {
    let mut db = Database::new(Some(""));
    db.create("k".to_string(), Resource::Single(human("Alice")));
    assert_eq!(db.read("k"), Some(Resource::Single(human("Alice"))));
    assert_eq!(db.read("other"), None);
}

#[test]
fn update_after_create_keeps_only_the_later_resource() {
    let mut db = Database::new(Some(""));
    db.create("k".to_string(), Resource::Single(human("Alice")));
    db.update("k".to_string(), Resource::List(vec![human("Bob")]));
    assert_eq!(db.read("k"), Some(Resource::List(vec![human("Bob")])));
    assert_eq!(db.snapshot().unwrap(), "{\"k\":{\"List\":[{\"name\":\"Bob\"}]}}");
}

#[test]
fn create_on_a_key_that_is_there_overwrites_it() {
    let mut db = Database::new(Some(""));
    db.create("k".to_string(), Resource::Single(human("Alice")));
    db.create("k".to_string(), Resource::Single(human("Bob")));
    assert_eq!(db.read("k"), Some(Resource::Single(human("Bob"))));
}

#[test]
fn update_on_a_key_that_is_not_there_creates_it() {
    let mut db = Database::new(Some(""));
    db.update("k".to_string(), Resource::Single(human("Alice")));
    assert_eq!(db.read("k"), Some(Resource::Single(human("Alice"))));
}

#[test]
fn delete_makes_the_key_absent_and_accepts_an_absent_key() {
    let mut db = Database::new(Some(""));
    db.create("k".to_string(), Resource::Single(human("Alice")));
    db.create("l".to_string(), Resource::Single(human("Bob")));
    db.delete("k");
    assert_eq!(db.read("k"), None);
    assert_eq!(db.read("l"), Some(Resource::Single(human("Bob"))));
    db.delete("k");
    db.delete("never");
    assert_eq!(db.read("l"), Some(Resource::Single(human("Bob"))));
}

#[test]
fn append_puts_the_new_items_behind_the_old_in_order() {
    let mut db = Database::new(Some(""));
    db.create("humans".to_string(), Resource::List(vec![human("Alice")]));
    db.append_to_list("humans", vec![human("Bob"), human("Carol")])
        .unwrap();
    assert_eq!(names(&db, "humans"), vec!["Alice", "Bob", "Carol"]);
    db.append_to_list("humans", vec![]).unwrap();
    assert_eq!(names(&db, "humans"), vec!["Alice", "Bob", "Carol"]);
}

#[test]
fn remove_drops_every_equal_element() {
    let mut db = Database::new(Some(""));
    db.create(
        "humans".to_string(),
        Resource::List(vec![human("Alice"), human("Bob"), human("Alice")]),
    );
    db.remove_from_list("humans", human("Alice")).unwrap();
    assert_eq!(names(&db, "humans"), vec!["Bob"]);
}

#[test]
fn remove_without_a_match_succeeds_and_changes_nothing() {
    let mut db = Database::new(Some(""));
    db.create(
        "humans".to_string(),
        Resource::List(vec![human("Alice"), human("Bob")]),
    );
    assert_eq!(db.remove_from_list("humans", human("Zed")), Ok(()));
    assert_eq!(names(&db, "humans"), vec!["Alice", "Bob"]);
}

#[test]
fn list_operations_on_a_missing_key_report_key_not_found() {
    let mut db: Database<Human> = Database::new(Some(""));
    assert_eq!(
        db.append_to_list("nobody", vec![human("Bob")]),
        Err(DatabaseError::KeyNotFound("nobody".to_string()))
    );
    assert_eq!(
        db.remove_from_list("nobody", human("Bob")),
        Err(DatabaseError::KeyNotFound("nobody".to_string()))
    );
    assert_eq!(db.read("nobody"), None);
    assert_eq!(db.snapshot().unwrap(), "{}");
}

#[test]
fn list_operations_on_a_single_report_the_type_and_change_nothing() {
    let mut db = Database::new(Some("file.json"));
    db.create("one".to_string(), Resource::Single(human("Alice")));
    db.mark_saved();
    assert_eq!(
        db.append_to_list("one", vec![human("Bob")]),
        Err(DatabaseError::InvalidResourceType("one".to_string()))
    );
    assert_eq!(
        db.remove_from_list("one", human("Alice")),
        Err(DatabaseError::InvalidResourceType("one".to_string()))
    );
    assert_eq!(db.read("one"), Some(Resource::Single(human("Alice"))));
    assert!(!db.needs_save());
}

#[test]
fn a_store_in_a_file_owes_a_save_after_each_change_and_only_then() {
    let mut db = Database::new(Some("file.json"));
    assert_eq!(db.file_path(), "file.json");
    assert!(!db.needs_save());
    db.create("k".to_string(), Resource::List(vec![human("Alice")]));
    assert!(db.needs_save());
    db.mark_saved();
    assert_eq!(db.read("k"), Some(Resource::List(vec![human("Alice")])));
    assert!(!db.needs_save());
    db.append_to_list("k", vec![human("Bob")]).unwrap();
    assert!(db.needs_save());
    db.mark_saved();
    db.remove_from_list("k", human("Bob")).unwrap();
    assert!(db.needs_save());
    db.mark_saved();
    db.update("k".to_string(), Resource::Single(human("Carol")));
    assert!(db.needs_save());
    db.mark_saved();
    db.delete("k");
    assert!(db.needs_save());
}

#[test]
fn a_store_in_memory_never_owes_a_save() {
    assert_eq!(IN_MEMORY, "");
    let mut db = Database::new(Some(IN_MEMORY));
    assert_eq!(db.file_path(), "");
    db.create("k".to_string(), Resource::List(vec![human("Alice")]));
    assert!(!db.needs_save());
    db.append_to_list("k", vec![human("Bob")]).unwrap();
    assert!(!db.needs_save());
    db.delete("k");
    assert!(!db.needs_save());
}

#[test]
fn a_store_without_a_path_is_kept_in_the_default_file() {
    let db: Database<Human> = Database::new(None);
    assert_eq!(db.file_path(), DB_FILE);
    assert_eq!(DB_FILE, "db.json");
}

#[test]
fn snapshot_lists_the_entries_in_the_order_their_keys_came() {
    let mut db = Database::new(Some(""));
    db.create("b".to_string(), Resource::Single(human("Bob")));
    db.create("a".to_string(), Resource::List(vec![human("Alice"), human("Al")]));
    db.create("b".to_string(), Resource::Single(human("Bea")));
    db.create("c".to_string(), Resource::List(vec![]));
    assert_eq!(
        db.snapshot().unwrap(),
        "{\"b\":{\"Single\":{\"name\":\"Bea\"}},\"a\":{\"List\":[{\"name\":\"Alice\"},{\"name\":\"Al\"}]},\"c\":{\"List\":[]}}"
    );
    db.delete("a");
    assert_eq!(
        db.snapshot().unwrap(),
        "{\"b\":{\"Single\":{\"name\":\"Bea\"}},\"c\":{\"List\":[]}}"
    );
}

#[test]
fn snapshot_quotes_keys_and_names_as_json_does() {
    let mut db = Database::new(Some(""));
    db.create(
        "a \"b\"".to_string(),
        Resource::Single(human("line\nbreak \\ tab\t")),
    );
    assert_eq!(
        db.snapshot().unwrap(),
        "{\"a \\\"b\\\"\":{\"Single\":{\"name\":\"line\\nbreak \\\\ tab\\t\"}}}"
    );
}

#[test]
fn load_reads_back_what_snapshot_wrote() {
    let mut db = Database::new(Some("file.json"));
    db.create("b".to_string(), Resource::Single(human("Bob \"the\" builder")));
    db.create("a".to_string(), Resource::List(vec![human("Alice"), human("Al")]));
    let text = db.snapshot().unwrap();
    let loaded: Database<Human> = Database::load(Some("file.json"), &text);
    assert_eq!(
        loaded.read("b"),
        Some(Resource::Single(human("Bob \"the\" builder")))
    );
    assert_eq!(
        loaded.read("a"),
        Some(Resource::List(vec![human("Alice"), human("Al")]))
    );
    assert!(!loaded.needs_save());
    assert_eq!(loaded.file_path(), "file.json");
}

#[test]
fn load_of_a_broken_snapshot_gives_an_empty_store() {
    let broken: Database<Human> = Database::load(Some("f"), "{\"a\":{\"Single\":{\"name\":");
    assert_eq!(broken.snapshot().unwrap(), "{}");
    let not_an_object: Database<Human> = Database::load(Some("f"), "[1,2]");
    assert_eq!(not_an_object.snapshot().unwrap(), "{}");
    let one_bad_member: Database<Human> = Database::load(
        Some("f"),
        "{\"a\":{\"Single\":{\"name\":\"Alice\"}},\"b\":{\"Pair\":[]}}",
    );
    assert_eq!(one_bad_member.read("a"), None);
    assert_eq!(one_bad_member.snapshot().unwrap(), "{}");
    let empty: Database<Human> = Database::load(None, "");
    assert_eq!(empty.snapshot().unwrap(), "{}");
    assert_eq!(empty.file_path(), DB_FILE);
}

#[test]
fn load_takes_any_json_for_documents() {
    let db: Database<Document> = Database::load(
        Some(""),
        " { \"n\" : {\"Single\": [1, 2.5, null, true, \"x\", {\"b\": 1, \"a\": 2}]} } ",
    );
    match db.read("n") {
        Some(Resource::Single(doc)) => {
            assert_eq!(doc.as_str(), "[1,2.5,null,true,\"x\",{\"a\":2,\"b\":1}]")
        }
        other => panic!("expected a single document, found {:?}", other),
    }
}

#[test]
fn creates_on_distinct_keys_all_take_effect_in_any_order() {
    let count = 50;
    let mut forward = Database::new(Some(""));
    for i in 0..count {
        forward.create(format!("key{}", i), Resource::Single(human(&format!("h{}", i))));
    }
    let mut backward = Database::new(Some(""));
    for i in (0..count).rev() {
        backward.create(format!("key{}", i), Resource::Single(human(&format!("h{}", i))));
    }
    for i in 0..count {
        let wanted = Some(Resource::Single(human(&format!("h{}", i))));
        assert_eq!(forward.read(&format!("key{}", i)), wanted);
        assert_eq!(backward.read(&format!("key{}", i)), wanted);
    }
}

#[test]
fn human_codec_reads_and_writes_the_name() {
    assert_eq!(Human::decode("{\"name\":\"Alice\"}"), Some(human("Alice")));
    assert_eq!(
        Human::decode(" { \"age\": 3, \"name\" : \"A\\u0042\" } "),
        Some(human("AB"))
    );
    assert_eq!(Human::decode("{\"name\":5}"), None);
    assert_eq!(Human::decode("{\"nom\":\"Alice\"}"), None);
    assert_eq!(Human::decode("\"Alice\""), None);
    assert_eq!(Human::decode("{\"name\":\"Alice\""), None);
    assert_eq!(
        human("A \"quoted\" name").encode(),
        Some("{\"name\":\"A \\\"quoted\\\" name\"}".to_string())
    );
    assert!(human("a").same(&human("a")));
    assert!(!human("a").same(&human("b")));
    assert_eq!(human("a").duplicate(), human("a"));
}

#[test]
fn document_codec_keeps_the_compact_text() {
    let doc = Document::decode(" { \"b\" : [ 1 , \"two\" ] , \"a\" : null } ").unwrap();
    assert_eq!(doc.as_str(), "{\"a\":null,\"b\":[1,\"two\"]}");
    assert_eq!(doc.encode(), Some("{\"a\":null,\"b\":[1,\"two\"]}".to_string()));
    assert_eq!(Document::decode("true").unwrap().as_str(), "true");
    assert_eq!(Document::decode("false").unwrap().as_str(), "false");
    assert_eq!(Document::decode("null").unwrap().as_str(), "null");
    assert_eq!(Document::decode("-12.50").unwrap().as_str(), "-12.5");
    assert_eq!(Document::decode("\"a\\tb\"").unwrap().as_str(), "\"a\\tb\"");
    assert_eq!(Document::decode("[]").unwrap().as_str(), "[]");
    assert_eq!(Document::decode("{}").unwrap().as_str(), "{}");
    assert_eq!(Document::decode("{bad"), None);
    assert_eq!(Document::decode(""), None);
    let other = Document::decode("{\"a\":null,\"b\":[1,\"two\"]}").unwrap();
    assert!(doc.same(&other));
    assert!(!doc.same(&Document::decode("1").unwrap()));
    assert_eq!(doc.duplicate(), doc);
}

#[test]
fn resources_are_equal_when_kind_values_and_order_agree() {
    let single = Resource::Single(human("Alice"));
    let list = Resource::List(vec![human("Alice"), human("Bob")]);
    assert!(single.same(&Resource::Single(human("Alice"))));
    assert!(!single.same(&Resource::Single(human("Bob"))));
    assert!(!single.same(&Resource::List(vec![human("Alice")])));
    assert!(!Resource::List(vec![human("Alice")]).same(&single));
    assert!(list.same(&Resource::List(vec![human("Alice"), human("Bob")])));
    assert!(!list.same(&Resource::List(vec![human("Bob"), human("Alice")])));
    assert!(!list.same(&Resource::List(vec![human("Alice")])));
    assert!(Resource::<Human>::List(vec![]).same(&Resource::List(vec![])));
    assert_eq!(list.duplicate(), list);
    assert_eq!(single.duplicate(), single);
}
