use file_reader::dispatch::dispatch;
use file_reader::results::project;
use file_reader::store::{Upload, UploadStore};
use file_reader::task::{FileReadTask, ReadOutcome, TaskFailure, TaskStatus};

#[test]
fn completion_order_wins() {
    // Two files, completing in the order b, a: the store lists b first.
    let mut store = UploadStore::new();
    let names = vec!["a.txt".to_string(), "b.txt".to_string()];
    let mut tasks = dispatch(&mut store, &names);
    assert_eq!(tasks.len(), 2);
    let mut b = tasks.pop().unwrap();
    let mut a = tasks.pop().unwrap();
    assert!(b.complete(&mut store, ReadOutcome::Bytes(b"world".to_vec())).is_ok());
    assert!(a.complete(&mut store, ReadOutcome::Bytes(b"hello".to_vec())).is_ok());
    let snap = store.snapshot();
    assert_eq!(snap.len(), 2);
    assert_eq!(snap[0].name, "b.txt");
    assert_eq!(snap[0].content, "world");
    assert_eq!(snap[1].name, "a.txt");
    assert_eq!(snap[1].content, "hello");
}

#[test]
fn invalid_utf8_is_dropped() {
    // A file whose bytes are not UTF-8 leaves the store empty and reports
    // a decode failure for the caller to log.
    let mut store = UploadStore::new();
    let names = vec!["bad.bin".to_string()];
    let mut tasks = dispatch(&mut store, &names);
    let r = tasks[0].complete(&mut store, ReadOutcome::Bytes(vec![0xff, 0xfe, 0x00]));
    assert_eq!(r, Err(TaskFailure::DecodeError));
    assert_eq!(tasks[0].status(), TaskStatus::Failed);
    assert!(store.snapshot().is_empty());
}

#[test]
fn stale_task_appends_after_clear() {
    // Documented hazard: a task carries no batch identifier, so a task that
    // completes after a newer clear still appends its row.
    let mut store = UploadStore::new();
    let names = vec!["late.txt".to_string()];
    let mut tasks = dispatch(&mut store, &names);
    store.clear();
    assert!(store.snapshot().is_empty());
    assert!(tasks[0].complete(&mut store, ReadOutcome::Bytes(b"late".to_vec())).is_ok());
    let snap = store.snapshot();
    assert_eq!(snap.len(), 1);
    assert_eq!(snap[0].name, "late.txt");
    assert_eq!(snap[0].content, "late");
}

#[test]
fn all_orders_give_all_uploads() {
    // Three valid files under several completion orders: always three
    // uploads, position j paired with the file that completed j-th, and
    // every file present.
    let names = vec!["x.txt".to_string(), "y.txt".to_string(), "z.txt".to_string()];
    let contents: Vec<&[u8]> = vec![b"one", b"two", b"three"];
    let orders: Vec<Vec<usize>> = vec![
        vec![0, 1, 2],
        vec![2, 1, 0],
        vec![1, 2, 0],
        vec![2, 0, 1],
    ];
    for order in orders {
        let mut store = UploadStore::new();
        let mut tasks = dispatch(&mut store, &names);
        for &i in &order {
            let r = tasks[i].complete(&mut store, ReadOutcome::Bytes(contents[i].to_vec()));
            assert!(r.is_ok());
        }
        let snap = store.snapshot();
        assert_eq!(snap.len(), 3);
        for (j, &i) in order.iter().enumerate() {
            assert_eq!(snap[j].name, names[i]);
            assert_eq!(snap[j].content, String::from_utf8(contents[i].to_vec()).unwrap());
        }
        for name in &names {
            assert!(snap.iter().any(|u| &u.name == name));
        }
    }
}

#[test]
fn clear_empties_store() {
    let mut store = UploadStore::new();
    store.append(Upload { name: "n".to_string(), content: "c".to_string() });
    store.append(Upload { name: "m".to_string(), content: "d".to_string() });
    assert_eq!(store.len(), 2);
    store.clear();
    assert_eq!(store.len(), 0);
    assert!(store.snapshot().is_empty());
    // Clearing an already empty store keeps it empty.
    store.clear();
    assert!(store.snapshot().is_empty());
}

#[test]
fn selection_resets_batch_synchronously() {
    let mut store = UploadStore::new();
    let old_names = vec!["old.txt".to_string()];
    let mut old_tasks = dispatch(&mut store, &old_names);
    old_tasks[0]
        .complete(&mut store, ReadOutcome::Bytes(b"old".to_vec()))
        .unwrap();
    assert_eq!(store.len(), 1);
    let new_names = vec!["new1.txt".to_string(), "new2.txt".to_string()];
    let tasks = dispatch(&mut store, &new_names);
    // The store is empty immediately after dispatch, before any new task
    // resolves.
    assert_eq!(store.len(), 0);
    assert_eq!(tasks.len(), 2);
    assert!(tasks.iter().all(|t| t.status() == TaskStatus::Pending));
    assert_eq!(tasks[0].name().as_str(), "new1.txt");
    assert_eq!(tasks[1].name().as_str(), "new2.txt");
}

#[test]
fn one_bad_file_leaves_the_rest() {
    // Of three files one is invalid: the store ends with exactly the two
    // valid uploads and the bad file's failure is reported.
    let mut store = UploadStore::new();
    let names = vec!["a.txt".to_string(), "bad.bin".to_string(), "c.txt".to_string()];
    let mut tasks = dispatch(&mut store, &names);
    assert!(tasks[0]
        .complete(&mut store, ReadOutcome::Bytes(b"alpha".to_vec()))
        .is_ok());
    // An overlong encoding of NUL is not valid UTF-8.
    let r = tasks[1].complete(&mut store, ReadOutcome::Bytes(vec![0xc0, 0x80]));
    assert_eq!(r, Err(TaskFailure::DecodeError));
    assert!(tasks[2]
        .complete(&mut store, ReadOutcome::Bytes(b"gamma".to_vec()))
        .is_ok());
    let snap = store.snapshot();
    assert_eq!(snap.len(), 2);
    assert_eq!(snap[0].name, "a.txt");
    assert_eq!(snap[0].content, "alpha");
    assert_eq!(snap[1].name, "c.txt");
    assert_eq!(snap[1].content, "gamma");
}

#[test]
fn read_failure_is_reported_and_isolated() {
    // A failed read appends nothing and does not disturb the other tasks.
    let mut store = UploadStore::new();
    let names = vec!["gone.txt".to_string(), "ok.txt".to_string()];
    let mut tasks = dispatch(&mut store, &names);
    let r = tasks[0].complete(&mut store, ReadOutcome::ReadFailed);
    assert_eq!(r, Err(TaskFailure::ReadError));
    assert_eq!(tasks[0].status(), TaskStatus::Failed);
    assert!(tasks[1]
        .complete(&mut store, ReadOutcome::Bytes(b"fine".to_vec()))
        .is_ok());
    let snap = store.snapshot();
    assert_eq!(snap.len(), 1);
    assert_eq!(snap[0].name, "ok.txt");
    assert_eq!(snap[0].content, "fine");
}

#[test]
fn projection_is_idempotent() {
    let mut store = UploadStore::new();
    store.append(Upload { name: "p.txt".to_string(), content: "pp".to_string() });
    store.append(Upload { name: "q.txt".to_string(), content: "qq".to_string() });
    let r1 = project(store.snapshot());
    let r2 = project(store.snapshot());
    assert_eq!(r1.len(), r2.len());
    for (x, y) in r1.iter().zip(r2.iter()) {
        assert_eq!(x.name, y.name);
        assert_eq!(x.content, y.content);
    }
}

#[test]
fn projection_preserves_order_and_fields() {
    let mut store = UploadStore::new();
    store.append(Upload { name: "first".to_string(), content: "1".to_string() });
    store.append(Upload { name: "second".to_string(), content: "2".to_string() });
    let rows = project(store.snapshot());
    assert_eq!(rows.len(), 2);
    assert_eq!(rows[0].name, "first");
    assert_eq!(rows[0].content, "1");
    assert_eq!(rows[1].name, "second");
    assert_eq!(rows[1].content, "2");
}

#[test]
fn projection_of_empty_store_is_empty() {
    let store = UploadStore::new();
    let rows = project(store.snapshot());
    assert!(rows.is_empty());
}

#[test]
fn empty_selection_leaves_store_cleared() {
    let mut store = UploadStore::new();
    store.append(Upload { name: "n".to_string(), content: "c".to_string() });
    let names: Vec<String> = Vec::new();
    let tasks = dispatch(&mut store, &names);
    assert!(tasks.is_empty());
    assert_eq!(store.len(), 0);
}

#[test]
fn empty_file_decodes_to_empty_content() {
    let mut store = UploadStore::new();
    let names = vec!["empty.txt".to_string()];
    let mut tasks = dispatch(&mut store, &names);
    assert!(tasks[0].complete(&mut store, ReadOutcome::Bytes(Vec::new())).is_ok());
    let snap = store.snapshot();
    assert_eq!(snap.len(), 1);
    assert_eq!(snap[0].name, "empty.txt");
    assert_eq!(snap[0].content, "");
}

#[test]
fn multibyte_utf8_decodes_to_text() {
    // Non-ASCII content comes out as the decoded characters, not as the raw
    // bytes reinterpreted one-for-one.
    let mut store = UploadStore::new();
    let names = vec!["uni.txt".to_string()];
    let mut tasks = dispatch(&mut store, &names);
    let text = "h\u{e9}llo \u{2713}";
    let bytes = text.as_bytes().to_vec();
    assert!(bytes.len() > text.chars().count());
    assert!(tasks[0].complete(&mut store, ReadOutcome::Bytes(bytes)).is_ok());
    let snap = store.snapshot();
    assert_eq!(snap[0].content, text);
    assert_eq!(snap[0].content.chars().count(), 7);
}

#[test]
fn truncated_and_stray_sequences_are_rejected() {
    let cases: Vec<Vec<u8>> = vec![
        vec![0x80],             // stray continuation byte
        vec![0xe2, 0x28],       // wrong continuation after a 3-byte lead
        vec![0xf0, 0x9f, 0x98], // truncated 4-byte sequence
        vec![0xed, 0xa0, 0x80], // surrogate half
    ];
    for bytes in cases {
        let mut store = UploadStore::new();
        let names = vec!["bad.bin".to_string()];
        let mut tasks = dispatch(&mut store, &names);
        let r = tasks[0].complete(&mut store, ReadOutcome::Bytes(bytes));
        assert_eq!(r, Err(TaskFailure::DecodeError));
        assert!(store.snapshot().is_empty());
    }
}

#[test]
fn task_starts_pending_and_records_outcome() {
    let mut store = UploadStore::new();
    let t = FileReadTask::new("f.txt".to_string());
    assert_eq!(t.status(), TaskStatus::Pending);
    assert_eq!(t.name().as_str(), "f.txt");
    let mut t = t;
    assert!(t.complete(&mut store, ReadOutcome::Bytes(b"data".to_vec())).is_ok());
    assert_eq!(t.status(), TaskStatus::Succeeded);
    assert_eq!(t.name().as_str(), "f.txt");
}
