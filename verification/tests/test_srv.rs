use sto::document::Document;
use sto::human::Human;
use sto::resource::Payload;
use sto::server::{Action, Event, Phase, Server};
use sto::store::Database;

fn setup_test_server<T: Payload>() -> Server<T> {
    let db = Database::<T>::new(Some(""));
    let mut server = Server::new(db);
    assert_eq!(server.step(Event::Start), Action::Listen);
    assert_eq!(server.current_phase(), Phase::Running);
    server
}

fn send_and_verify<T: Payload>(server: &mut Server<T>, message: &str, expected_response: &str) {
    let action = server.step(Event::Datagram(message.as_bytes().to_vec()));
    assert_eq!(action, Action::Reply(expected_response.to_string()));
}

#[test]
fn test_create_human() {
    let mut server = setup_test_server::<Human>();

    send_and_verify(
        &mut server,
        "CREATE test_human {\"Single\":{\"name\":\"Alice\"}}",
        "Created successfully",
    );

    server.shutdown();
}

#[test]
fn test_read_human() {
    let mut server = setup_test_server::<Human>();

    send_and_verify(
        &mut server,
        "CREATE test_human {\"Single\":{\"name\":\"Alice\"}}",
        "Created successfully",
    );

    send_and_verify(
        &mut server,
        "READ test_human",
        "{\"Single\":{\"name\":\"Alice\"}}",
    );

    server.shutdown();
}

#[test]
fn test_create_animal() {
    let mut server = setup_test_server::<Document>();

    send_and_verify(
        &mut server,
        "CREATE test_animal {\"Single\":{\"name\":\"Buddy\",\"species\":\"Dog\"}}",
        "Created successfully",
    );

    server.shutdown();
}

#[test]
fn test_read_animal() {
    let mut server = setup_test_server::<Document>();

    send_and_verify(
        &mut server,
        "CREATE test_animal {\"Single\":{\"name\":\"Buddy\",\"species\":\"Dog\"}}",
        "Created successfully",
    );

    send_and_verify(
        &mut server,
        "READ test_animal",
        "{\"Single\":{\"name\":\"Buddy\",\"species\":\"Dog\"}}",
    );

    server.shutdown();
}

#[test]
fn test_create_human_list() {
    let mut server = setup_test_server::<Human>();

    send_and_verify(
        &mut server,
        "CREATE humans_list {\"List\":[{\"name\":\"Alice\"}]}",
        "Created successfully",
    );

    server.shutdown();
}

#[test]
fn test_append_human_list() {
    let mut server = setup_test_server::<Human>();

    send_and_verify(
        &mut server,
        "CREATE humans_list {\"List\":[{\"name\":\"Alice\"}]}",
        "Created successfully",
    );

    send_and_verify(
        &mut server,
        "APPEND humans_list [{\"name\":\"Bob\"}]",
        "Appended successfully",
    );

    server.shutdown();
}

#[test]
fn test_read_human_list_after_append() {
    let mut server = setup_test_server::<Human>();

    send_and_verify(
        &mut server,
        "CREATE humans_list {\"List\":[{\"name\":\"Alice\"}]}",
        "Created successfully",
    );

    send_and_verify(
        &mut server,
        "APPEND humans_list [{\"name\":\"Bob\"}]",
        "Appended successfully",
    );

    send_and_verify(
        &mut server,
        "READ humans_list",
        "{\"List\":[{\"name\":\"Alice\"},{\"name\":\"Bob\"}]}",
    );

    server.shutdown();
}

#[test]
fn test_remove_human_list() {
    let mut server = setup_test_server::<Human>();

    send_and_verify(
        &mut server,
        "CREATE humans_list {\"List\":[{\"name\":\"Alice\"},{\"name\":\"Bob\"}]}",
        "Created successfully",
    );

    send_and_verify(
        &mut server,
        "REMOVE humans_list {\"name\":\"Bob\"}",
        "Removed successfully",
    );

    server.shutdown();
}

#[test]
fn test_read_human_list_after_remove() {
    let mut server = setup_test_server::<Human>();

    send_and_verify(
        &mut server,
        "CREATE humans_list {\"List\":[{\"name\":\"Alice\"},{\"name\":\"Bob\"}]}",
        "Created successfully",
    );

    send_and_verify(
        &mut server,
        "REMOVE humans_list {\"name\":\"Bob\"}",
        "Removed successfully",
    );

    send_and_verify(
        &mut server,
        "READ humans_list",
        "{\"List\":[{\"name\":\"Alice\"}]}",
    );

    server.shutdown();
}
