use yamaf::config::Config;
use yamaf::errors::YamafError;
use yamaf::pipeline::{Field, process_fields};
use yamaf::store::MemStore;
use yamaf::upload::{FileWrite, Uploader};

fn cfg_open(max: usize) -> Config {
    Config {
        root_dir: "/var/files".to_string(),
        key: None,
        external_host: "files.example".to_string(),
        external_protocol: "http".to_string(),
        max_filesize: max,
    }
}

fn cfg_keyed(max: usize, key: &str) -> Config {
    let mut c = cfg_open(max);
    c.key = Some(key.to_string());
    c
}

fn file_field(name: &str, chunks: Vec<Vec<u8>>) -> Field {
    Field::File { name: Some(name.to_string()), chunks }
}

#[test]
fn upload_at_exact_ceiling_succeeds() {
    let cfg = cfg_open(8);
    let mut store = MemStore::new();
    let fields = vec![file_field("a.bin", vec![vec![1, 2, 3, 4, 5], vec![6, 7, 8]])];
    let recs = process_fields(&cfg, fields, &mut store).expect("exact ceiling must fit");
    assert_eq!(recs.len(), 1);
    assert_eq!(recs[0].size, 8);
    assert_eq!(store.files.len(), 1);
    assert_eq!(store.files[0].content, vec![1, 2, 3, 4, 5, 6, 7, 8]);
}

#[test]
fn upload_one_byte_past_ceiling_fails_and_stores_nothing() {
    let cfg = cfg_open(8);
    let mut store = MemStore::new();
    let fields = vec![file_field("a.bin", vec![vec![1, 2, 3, 4, 5], vec![6, 7, 8, 9]])];
    let err = process_fields(&cfg, fields, &mut store).expect_err("must pass the ceiling");
    match &err {
        YamafError::FileTooBig(name) => assert!(name.ends_with("-a.bin")),
        other => panic!("expected FileTooBig, got {:?}", other),
    }
    assert_eq!(err.status_code(), 413);
    assert_eq!(store.files.len(), 0);
}

#[test]
fn too_big_message_names_the_file() {
    let e = YamafError::FileTooBig("x.bin".to_string());
    assert_eq!(e.status_code(), 413);
    assert_eq!(e.message(), "File x.bin is too big!");
}

#[test]
fn correct_key_then_file_succeeds() {
    let cfg = cfg_keyed(100, "sesame");
    let mut store = MemStore::new();
    let fields = vec![
        Field::Key(b"sesame".to_vec()),
        file_field("doc.txt", vec![b"hello".to_vec()]),
    ];
    let recs = process_fields(&cfg, fields, &mut store).expect("authorised upload must succeed");
    assert_eq!(recs.len(), 1);
    assert_eq!(recs[0].size, 5);
    assert_eq!(store.files.len(), 1);
    assert_eq!(store.files[0].content, b"hello".to_vec());
}

#[test]
fn file_before_key_is_missing_key() {
    let cfg = cfg_keyed(100, "sesame");
    let mut store = MemStore::new();
    let fields = vec![
        file_field("doc.txt", vec![b"hello".to_vec()]),
        Field::Key(b"sesame".to_vec()),
    ];
    let err = process_fields(&cfg, fields, &mut store).expect_err("file before key must fail");
    assert_eq!(err.status_code(), 400);
    assert_eq!(err.message(), "Missing key");
    assert_eq!(store.files.len(), 0);
}

#[test]
fn wrong_key_fails_whole_request_and_persists_nothing() {
    let cfg = cfg_keyed(100, "sesame");
    let mut store = MemStore::new();
    let fields = vec![
        Field::Key(b"open up".to_vec()),
        file_field("doc.txt", vec![b"hello".to_vec()]),
    ];
    let err = process_fields(&cfg, fields, &mut store).expect_err("wrong key must fail");
    assert_eq!(err.status_code(), 400);
    assert_eq!(err.message(), "Wrong key");
    assert_eq!(store.files.len(), 0);
}

#[test]
fn key_bytes_that_are_not_utf8_are_internal_error() {
    let cfg = cfg_keyed(100, "sesame");
    let mut store = MemStore::new();
    let fields = vec![Field::Key(vec![0xff, 0xfe])];
    let err = process_fields(&cfg, fields, &mut store).expect_err("bad encoding must fail");
    assert_eq!(err.status_code(), 500);
    assert_eq!(err.message(), "Invalid key format");
    assert_eq!(store.files.len(), 0);
}

#[test]
fn zero_file_fields_is_no_files_uploaded() {
    let cfg = cfg_open(100);
    let mut store = MemStore::new();
    let fields = vec![Field::Key(Vec::new()), Field::Ignored];
    let err = process_fields(&cfg, fields, &mut store).expect_err("no files must fail");
    assert_eq!(err.status_code(), 400);
    assert_eq!(err.message(), "No files uploaded");
    assert_eq!(store.files.len(), 0);
}

#[test]
fn unknown_fields_are_ignored_and_multiple_files_accepted() {
    let cfg = cfg_open(100);
    let mut store = MemStore::new();
    let fields = vec![
        Field::Ignored,
        file_field("a.txt", vec![b"aa".to_vec()]),
        Field::Ignored,
        Field::File { name: None, chunks: vec![b"bbb".to_vec()] },
    ];
    let recs = process_fields(&cfg, fields, &mut store).expect("both files must be written");
    assert_eq!(recs.len(), 2);
    assert_eq!(recs[0].size, 2);
    assert_eq!(recs[1].size, 3);
    assert!(recs[1].name.ends_with("-upload"));
    assert_eq!(store.files.len(), 2);
}

#[test]
fn earlier_files_stay_when_a_later_field_fails() {
    let cfg = cfg_open(4);
    let mut store = MemStore::new();
    let fields = vec![
        file_field("ok.txt", vec![b"fine".to_vec()]),
        file_field("big.txt", vec![b"too long".to_vec()]),
    ];
    let err = process_fields(&cfg, fields, &mut store).expect_err("second file passes ceiling");
    assert_eq!(err.status_code(), 413);
    assert_eq!(store.files.len(), 1);
    assert_eq!(store.files[0].content, b"fine".to_vec());
}

#[test]
fn uploader_steps_enforce_key_and_counting() {
    let cfg = cfg_keyed(10, "k");
    let mut up = Uploader::new();
    assert!(up.on_file_start(&cfg).is_err());
    assert!(up.on_key(&cfg, &b"k".to_vec()).is_ok());
    assert!(up.on_file_start(&cfg).is_ok());

    let mut fw = FileWrite::begin("n".to_string());
    assert!(fw.add_chunk(&cfg, 10).is_ok());
    assert_eq!(fw.written, 10);
    let err = fw.add_chunk(&cfg, 1).expect_err("past the ceiling");
    assert_eq!(err.status_code(), 413);

    let none = up.finish().expect_err("nothing written");
    assert_eq!(none.message(), "No files uploaded");
}
