use notes_api::handler::{
    create_note, create_note_with_id, delete_note, get_note, health_check, list_notes,
    page_params, status_word, update_note, Envelope,
};
use notes_api::schema::{CreateNoteSchema, FilterOptions, UpdateNoteSchema};
use notes_api::store::NoteStore;

fn payload(title: &str, content: &str) -> CreateNoteSchema {
    CreateNoteSchema {
        title: title.to_string(),
        content: content.to_string(),
        is_published: None,
    }
}

fn created(store: &mut NoteStore, id: &str, title: &str, content: &str, now: i64) {
    let reply = create_note_with_id(store, &payload(title, content), id.to_string(), now);
    assert_eq!(reply.status, 201);
}

#[test]
fn create_concrete_scenario() {
    let mut store = NoteStore::new();
    let reply = create_note(&mut store, &payload("A", "B"), 1000);
    assert_eq!(reply.status, 201);
    assert_eq!(status_word(&reply.body), "ok");
    match reply.body {
        Envelope::Data { note } => {
            assert_eq!(note.id.len(), 36);
            assert_eq!(note.title, "A");
            assert_eq!(note.content, "B");
            assert!(!note.is_published);
            assert_eq!(note.created_at, 1000);
            assert_eq!(note.updated_at, 1000);
        }
        _ => panic!("expected a data envelope"),
    }
    assert_eq!(store.len(), 1);
}

#[test]
fn create_then_get_matches() {
    let mut store = NoteStore::new();
    created(&mut store, "id-1", "first title", "first content", 42);
    let reply = get_note(&store, "id-1");
    assert_eq!(reply.status, 200);
    match reply.body {
        Envelope::Data { note } => {
            assert_eq!(note.id, "id-1");
            assert_eq!(note.title, "first title");
            assert_eq!(note.content, "first content");
            assert!(!note.is_published);
            assert_eq!(note.created_at, note.updated_at);
        }
        _ => panic!("expected a data envelope"),
    }
}

#[test]
fn second_page_of_three_notes() {
    let mut store = NoteStore::new();
    created(&mut store, "a", "t1", "c1", 1);
    created(&mut store, "c", "t3", "c3", 3);
    created(&mut store, "b", "t2", "c2", 2);
    let filter = FilterOptions {
        page: Some(2),
        limit: Some(1),
    };
    let reply = list_notes(&store, &filter);
    assert_eq!(reply.status, 200);
    match reply.body {
        Envelope::NoteList { count, notes } => {
            assert_eq!(count, 1);
            assert_eq!(notes.len(), 1);
            assert_eq!(notes[0].id, "b");
            assert_eq!(notes[0].title, "t2");
        }
        _ => panic!("expected a listing envelope"),
    }
}

#[test]
fn listing_in_id_order() {
    let mut store = NoteStore::new();
    created(&mut store, "c", "t3", "c3", 3);
    created(&mut store, "a", "t1", "c1", 1);
    created(&mut store, "b", "t2", "c2", 2);
    let filter = FilterOptions {
        page: None,
        limit: None,
    };
    let reply = list_notes(&store, &filter);
    match reply.body {
        Envelope::NoteList { count, notes } => {
            assert_eq!(count, 3);
            let ids: Vec<&str> = notes.iter().map(|n| n.id.as_str()).collect();
            assert_eq!(ids, vec!["a", "b", "c"]);
        }
        _ => panic!("expected a listing envelope"),
    }
}

#[test]
fn listing_empty_store() {
    let store = NoteStore::new();
    let filter = FilterOptions {
        page: None,
        limit: None,
    };
    let reply = list_notes(&store, &filter);
    assert_eq!(reply.status, 200);
    match reply.body {
        Envelope::NoteList { count, notes } => {
            assert_eq!(count, 0);
            assert!(notes.is_empty());
        }
        _ => panic!("expected a listing envelope"),
    }
}

#[test]
fn listing_past_the_end() {
    let mut store = NoteStore::new();
    created(&mut store, "a", "t1", "c1", 1);
    created(&mut store, "b", "t2", "c2", 2);
    created(&mut store, "c", "t3", "c3", 3);
    let filter = FilterOptions {
        page: Some(5),
        limit: Some(2),
    };
    let reply = list_notes(&store, &filter);
    match reply.body {
        Envelope::NoteList { count, notes } => {
            assert_eq!(count, 0);
            assert!(notes.is_empty());
        }
        _ => panic!("expected a listing envelope"),
    }
}

#[test]
fn page_params_defaults() {
    let filter = FilterOptions {
        page: None,
        limit: None,
    };
    assert_eq!(page_params(&filter), (10, 0));
    let filter = FilterOptions {
        page: Some(3),
        limit: Some(5),
    };
    assert_eq!(page_params(&filter), (5, 10));
}

#[test]
fn update_with_only_content() {
    let mut store = NoteStore::new();
    created(&mut store, "n1", "keep me", "old content", 10);
    let patch = UpdateNoteSchema {
        title: None,
        content: Some("new content".to_string()),
        is_published: None,
    };
    let reply = update_note(&mut store, "n1", &patch, 20);
    assert_eq!(reply.status, 200);
    match reply.body {
        Envelope::Data { note } => {
            assert_eq!(note.title, "keep me");
            assert_eq!(note.content, "new content");
            assert!(!note.is_published);
            assert_eq!(note.created_at, 10);
            assert_eq!(note.updated_at, 20);
        }
        _ => panic!("expected a data envelope"),
    }
}

#[test]
fn update_sets_publication_flag() {
    let mut store = NoteStore::new();
    created(&mut store, "n1", "t", "c", 10);
    let patch = UpdateNoteSchema {
        title: None,
        content: None,
        is_published: Some(true),
    };
    let reply = update_note(&mut store, "n1", &patch, 20);
    assert_eq!(reply.status, 200);
    match reply.body {
        Envelope::Data { note } => {
            assert!(note.is_published);
            assert_eq!(note.title, "t");
            assert_eq!(note.content, "c");
        }
        _ => panic!("expected a data envelope"),
    }
}

#[test]
fn update_nonexistent_creates_nothing() {
    let mut store = NoteStore::new();
    created(&mut store, "n1", "t", "c", 10);
    let patch = UpdateNoteSchema {
        title: Some("x".to_string()),
        content: None,
        is_published: None,
    };
    let reply = update_note(&mut store, "ghost-id", &patch, 20);
    assert_eq!(reply.status, 404);
    match reply.body {
        Envelope::Failure { message } => {
            assert_eq!(message, "Note with ID ghost-id not found");
        }
        _ => panic!("expected a failure envelope"),
    }
    assert_eq!(store.len(), 1);
    assert_eq!(get_note(&store, "ghost-id").status, 404);
}

#[test]
fn delete_twice() {
    let mut store = NoteStore::new();
    created(&mut store, "n1", "t", "c", 10);
    let first = delete_note(&mut store, "n1");
    assert_eq!(first.status, 200);
    match first.body {
        Envelope::Notice { message } => {
            assert_eq!(message, "Note deleted successfully");
        }
        _ => panic!("expected a confirmation envelope"),
    }
    let second = delete_note(&mut store, "n1");
    assert_eq!(second.status, 404);
    assert_eq!(store.len(), 0);
}

#[test]
fn duplicate_id_conflicts() {
    let mut store = NoteStore::new();
    created(&mut store, "same-id", "t1", "c1", 10);
    let reply = create_note_with_id(&mut store, &payload("t2", "c2"), "same-id".to_string(), 20);
    assert_eq!(reply.status, 409);
    match reply.body {
        Envelope::Failure { message } => {
            assert_eq!(message, "Note already exists");
        }
        _ => panic!("expected a failure envelope"),
    }
    assert_eq!(store.len(), 1);
    match get_note(&store, "same-id").body {
        Envelope::Data { note } => assert_eq!(note.title, "t1"),
        _ => panic!("expected a data envelope"),
    }
}

#[test]
fn health_check_payload() {
    let body = health_check();
    assert_eq!(status_word(&body), "success");
    match body {
        Envelope::Success { message } => assert_eq!(message, "API Services"),
        _ => panic!("expected a success envelope"),
    }
}
