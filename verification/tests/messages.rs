use notes_api::handler::{create_error_reply, db_error_reply, status_word, Envelope};
use notes_api::model::{to_note_response, NoteModel};
use notes_api::strutil::{str_contains, str_eq, str_lt};

#[test]
fn duplicate_key_message_conflicts() {
    let reply = create_error_reply("error returned from database: Duplicate entry 'x' for key 'PRIMARY'");
    assert_eq!(reply.status, 409);
    match reply.body {
        Envelope::Failure { message } => assert_eq!(message, "Note already exists"),
        _ => panic!("expected a failure envelope"),
    }
}

#[test]
fn other_storage_message_is_internal() {
    let reply = create_error_reply("connection reset");
    assert_eq!(reply.status, 500);
    match reply.body {
        Envelope::Failure { message } => {
            assert_eq!(message, "Database error: connection reset");
        }
        _ => panic!("expected a failure envelope"),
    }
}

#[test]
fn storage_failure_reply() {
    let reply = db_error_reply("pool timed out");
    assert_eq!(reply.status, 500);
    assert_eq!(status_word(&reply.body), "error");
    match reply.body {
        Envelope::Failure { message } => assert_eq!(message, "Database error: pool timed out"),
        _ => panic!("expected a failure envelope"),
    }
}

#[test]
fn narrow_integer_flag_becomes_bool() {
    let row = NoteModel {
        id: "i".to_string(),
        title: "t".to_string(),
        content: "c".to_string(),
        is_published: 0,
        created_at: 5,
        updated_at: 6,
    };
    let resp = to_note_response(&row);
    assert!(!resp.is_published);
    assert_eq!(resp.id, "i");
    assert_eq!(resp.title, "t");
    assert_eq!(resp.content, "c");
    assert_eq!(resp.created_at, 5);
    assert_eq!(resp.updated_at, 6);

    let row = NoteModel {
        is_published: 1,
        ..row
    };
    assert!(to_note_response(&row).is_published);
}

#[test]
fn string_order_and_search() {
    assert!(str_lt("abc", "abd"));
    assert!(str_lt("ab", "abc"));
    assert!(!str_lt("abc", "abc"));
    assert!(!str_lt("b", "abc"));
    assert!(str_eq("same", "same"));
    assert!(!str_eq("same", "samf"));
    assert!(str_contains("a Duplicate entry happened", "Duplicate entry"));
    assert!(!str_contains("duplicate entry", "Duplicate entry"));
    assert!(str_contains("anything", ""));
}
