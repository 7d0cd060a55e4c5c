use yamaf::config::{Config, file_url};
use yamaf::errors::YamafError;
use yamaf::download::{plan_download, serve_from_store};
use yamaf::pipeline::{Field, process_fields};
use yamaf::store::MemStore;

fn cfg_open(max: usize) -> Config {
    Config {
        root_dir: "/var/files".to_string(),
        key: None,
        external_host: "files.example".to_string(),
        external_protocol: "https".to_string(),
        max_filesize: max,
    }
}

#[test]
fn download_of_never_uploaded_name_is_not_found() {
    let store = MemStore::new();
    let err = serve_from_store(&store, &"nothing-here.txt".to_string())
        .expect_err("empty store serves nothing");
    assert!(matches!(err, YamafError::FileNotFound));
    assert_eq!(err.status_code(), 404);
    assert_eq!(err.message(), "File Not Found!");
}

#[test]
fn download_of_uploaded_name_is_200_with_exact_length() {
    let cfg = cfg_open(100);
    let mut store = MemStore::new();
    let payload = b"exactly these bytes".to_vec();
    let fields = vec![Field::File {
        name: Some("data.txt".to_string()),
        chunks: vec![payload.clone()],
    }];
    let recs = process_fields(&cfg, fields, &mut store).expect("upload succeeds");
    let (plan, body) = serve_from_store(&store, &recs[0].name).expect("uploaded name serves");
    assert_eq!(plan.status, 200);
    assert_eq!(plan.content_length, recs[0].size as u64);
    assert_eq!(plan.content_length, payload.len() as u64);
    assert_eq!(body, payload);
}

#[test]
fn round_trip_preserves_bytes_exactly() {
    let cfg = cfg_open(1000);
    let mut store = MemStore::new();
    let payload: Vec<u8> = (0u16..256).map(|b| b as u8).collect();
    let fields = vec![Field::File {
        name: Some("all-bytes.bin".to_string()),
        chunks: vec![payload[..100].to_vec(), payload[100..].to_vec()],
    }];
    let recs = process_fields(&cfg, fields, &mut store).expect("upload succeeds");
    let (_, body) = serve_from_store(&store, &recs[0].name).expect("uploaded name serves");
    assert_eq!(body, payload);
}

#[test]
fn content_type_is_guessed_from_extension() {
    let plan = plan_download("notes.txt", 3);
    assert_eq!(plan.content_type, "text/plain");
    let plan = plan_download("img.png", 3);
    assert_eq!(plan.content_type, "image/png");
    assert_eq!(plan.accept_ranges, "bytes");
    assert_eq!(plan.status, 200);
    assert_eq!(plan.content_length, 3);
}

#[test]
fn unknown_extension_falls_back_to_octet_stream() {
    let plan = plan_download("mystery.zzyzx", 9);
    assert_eq!(plan.content_type, "application/octet-stream");
    let plan = plan_download("no-extension", 9);
    assert_eq!(plan.content_type, "application/octet-stream");
}

#[test]
fn file_url_joins_protocol_host_and_name() {
    let cfg = cfg_open(10);
    let url = file_url(&cfg, "abcd-report.pdf");
    assert_eq!(url, "https://files.example/abcd-report.pdf");
}

#[test]
fn later_write_of_same_name_shadows_earlier() {
    let mut store = MemStore::new();
    store.put("same".to_string(), b"old".to_vec());
    store.put("same".to_string(), b"new".to_vec());
    let (plan, body) = serve_from_store(&store, &"same".to_string()).expect("name exists");
    assert_eq!(body, b"new".to_vec());
    assert_eq!(plan.content_length, 3);
}
