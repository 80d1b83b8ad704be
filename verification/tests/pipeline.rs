//! End-to-end scenarios for the upload and download pipelines, driven
//! against the store model.

use upload_gateway::gateway::{
    cache_directive_value, download, upload, upload_url_for, GatewayError, PutOutcome,
};
use upload_gateway::keys::temp_key_for;
use upload_gateway::store::StoreModel;

const OCTET: &[u8] = b"application/octet-stream";

fn chunks_of(parts: &[&[u8]]) -> Vec<Vec<u8>> {
    let mut v: Vec<Vec<u8>> = Vec::new();
    for p in parts {
        v.push(p.to_vec());
    }
    v
}

const HELLO_WORLD_HEX: &[u8] =
    b"b94d27b9934d3e08a52e52d7da7dabfac484efe37a5380ee9088f7ace2efcde9";
const EMPTY_HEX: &[u8] = b"e3b0c44298fc1c149afbf4c8996fb92427ae41e4649b934ca495991b7852b855";

#[test]
fn round_trip_hello_world() {
    let mut store = StoreModel::empty();
    let chunks = chunks_of(&[b"hello world"]);
    let filename = Some(b"a.txt".to_vec());
    let token = b"token-one".to_vec();
    let r = upload(
        &mut store,
        &chunks,
        &filename,
        &OCTET.to_vec(),
        &token,
        PutOutcome::Completed,
        true,
        true,
    );
    let key = r.unwrap();
    let mut expected_key = HELLO_WORLD_HEX.to_vec();
    expected_key.extend_from_slice(b".txt");
    assert_eq!(key, expected_key);

    let url = upload_url_for(&key);
    let mut expected_url = b"/uploads/".to_vec();
    expected_url.extend_from_slice(&expected_key);
    assert_eq!(url, expected_url);

    let body = download(&store, &key).unwrap();
    assert_eq!(body.bytes, b"hello world".to_vec());
    assert_eq!(body.content_type, OCTET.to_vec());

    assert_eq!(cache_directive_value(), b"max-age=31536000".to_vec());
}

#[test]
fn determinism_same_content_twice() {
    let mut store = StoreModel::empty();
    let chunks = chunks_of(&[b"he", b"llo"]);
    let filename = Some(b"x.dat".to_vec());
    let t1 = b"token-a".to_vec();
    let t2 = b"token-b".to_vec();
    let k1 = upload(
        &mut store,
        &chunks,
        &filename,
        &OCTET.to_vec(),
        &t1,
        PutOutcome::Completed,
        true,
        true,
    )
    .unwrap();
    let body1 = download(&store, &k1).unwrap();
    assert_eq!(body1.bytes, b"hello".to_vec());
    let k2 = upload(
        &mut store,
        &chunks,
        &filename,
        &OCTET.to_vec(),
        &t2,
        PutOutcome::Completed,
        true,
        true,
    )
    .unwrap();
    assert_eq!(k1, k2);
    let body2 = download(&store, &k2).unwrap();
    assert_eq!(body2.bytes, b"hello".to_vec());
}

#[test]
fn content_addressing() {
    let mut store = StoreModel::empty();
    let no_name: Option<Vec<u8>> = None;
    let k_one = upload(
        &mut store,
        &chunks_of(&[b"one"]),
        &no_name,
        &OCTET.to_vec(),
        &b"t1".to_vec(),
        PutOutcome::Completed,
        true,
        true,
    )
    .unwrap();
    let k_two = upload(
        &mut store,
        &chunks_of(&[b"two"]),
        &no_name,
        &OCTET.to_vec(),
        &b"t2".to_vec(),
        PutOutcome::Completed,
        true,
        true,
    )
    .unwrap();
    assert_ne!(k_one, k_two);

    // Same content under different filenames with the same extension: the
    // identical key.
    let k_a = upload(
        &mut store,
        &chunks_of(&[b"payload"]),
        &Some(b"a.bin".to_vec()),
        &OCTET.to_vec(),
        &b"t3".to_vec(),
        PutOutcome::Completed,
        true,
        true,
    )
    .unwrap();
    let k_b = upload(
        &mut store,
        &chunks_of(&[b"payload"]),
        &Some(b"b.bin".to_vec()),
        &OCTET.to_vec(),
        &b"t4".to_vec(),
        PutOutcome::Completed,
        true,
        true,
    )
    .unwrap();
    assert_eq!(k_a, k_b);

    // Different extensions: only the suffix past the digest may differ.
    let k_c = upload(
        &mut store,
        &chunks_of(&[b"payload"]),
        &Some(b"a.txt".to_vec()),
        &OCTET.to_vec(),
        &b"t5".to_vec(),
        PutOutcome::Completed,
        true,
        true,
    )
    .unwrap();
    assert_ne!(k_a, k_c);
    assert_eq!(k_a[..64], k_c[..64]);
}

#[test]
fn extension_handling() {
    let mut store = StoreModel::empty();
    let content = chunks_of(&[b"hello world"]);
    let k_pdf = upload(
        &mut store,
        &content,
        &Some(b"report.PDF".to_vec()),
        &OCTET.to_vec(),
        &b"t1".to_vec(),
        PutOutcome::Completed,
        true,
        true,
    )
    .unwrap();
    let mut expected = HELLO_WORLD_HEX.to_vec();
    expected.extend_from_slice(b".pdf");
    assert_eq!(k_pdf, expected);

    let k_bare = upload(
        &mut store,
        &content,
        &Some(b"report".to_vec()),
        &OCTET.to_vec(),
        &b"t2".to_vec(),
        PutOutcome::Completed,
        true,
        true,
    )
    .unwrap();
    assert_eq!(k_bare, HELLO_WORLD_HEX.to_vec());

    let no_name: Option<Vec<u8>> = None;
    let k_none = upload(
        &mut store,
        &content,
        &no_name,
        &OCTET.to_vec(),
        &b"t3".to_vec(),
        PutOutcome::Completed,
        true,
        true,
    )
    .unwrap();
    assert_eq!(k_none, HELLO_WORLD_HEX.to_vec());
}

#[test]
fn empty_input() {
    let mut store = StoreModel::empty();
    let no_name: Option<Vec<u8>> = None;
    let k = upload(
        &mut store,
        &chunks_of(&[]),
        &no_name,
        &OCTET.to_vec(),
        &b"t1".to_vec(),
        PutOutcome::Completed,
        true,
        true,
    )
    .unwrap();
    assert_eq!(k, EMPTY_HEX.to_vec());
    assert_eq!(download(&store, &k).unwrap().bytes, Vec::<u8>::new());

    // One empty chunk is the same stream.
    let k2 = upload(
        &mut store,
        &chunks_of(&[b""]),
        &no_name,
        &OCTET.to_vec(),
        &b"t2".to_vec(),
        PutOutcome::Completed,
        true,
        true,
    )
    .unwrap();
    assert_eq!(k2, EMPTY_HEX.to_vec());
}

#[test]
fn temp_cleanup_on_success() {
    let mut store = StoreModel::empty();
    let token = b"cleanup-token".to_vec();
    let tmp = temp_key_for(&token);
    let r = upload(
        &mut store,
        &chunks_of(&[b"data"]),
        &None,
        &OCTET.to_vec(),
        &token,
        PutOutcome::Completed,
        true,
        true,
    );
    assert!(r.is_ok());
    assert!(store.get_object(&tmp).is_none());
}

#[test]
fn temp_cleanup_on_copy_failure() {
    let mut store = StoreModel::empty();
    let token = b"cleanup-token".to_vec();
    let tmp = temp_key_for(&token);
    let r = upload(
        &mut store,
        &chunks_of(&[b"data"]),
        &None,
        &OCTET.to_vec(),
        &token,
        PutOutcome::Completed,
        false,
        true,
    );
    assert_eq!(r, Err(GatewayError::StoreError));
    assert!(store.get_object(&tmp).is_none());
}

#[test]
fn temp_cleanup_on_write_failure() {
    let mut store = StoreModel::empty();
    let token = b"cleanup-token".to_vec();
    let tmp = temp_key_for(&token);
    let r = upload(
        &mut store,
        &chunks_of(&[b"data"]),
        &None,
        &OCTET.to_vec(),
        &token,
        PutOutcome::StoreFailed,
        true,
        true,
    );
    assert_eq!(r, Err(GatewayError::StoreError));
    assert!(store.get_object(&tmp).is_none());

    let r2 = upload(
        &mut store,
        &chunks_of(&[b"data"]),
        &None,
        &OCTET.to_vec(),
        &token,
        PutOutcome::StreamFailed,
        true,
        true,
    );
    assert_eq!(r2, Err(GatewayError::StreamError));
    assert!(store.get_object(&tmp).is_none());
}

#[test]
fn delete_failure_does_not_mask_success() {
    let mut store = StoreModel::empty();
    let token = b"sticky-token".to_vec();
    let r = upload(
        &mut store,
        &chunks_of(&[b"data"]),
        &None,
        &OCTET.to_vec(),
        &token,
        PutOutcome::Completed,
        true,
        false,
    );
    let key = r.unwrap();
    assert_eq!(download(&store, &key).unwrap().bytes, b"data".to_vec());
}

#[test]
fn not_found_passthrough() {
    let store = StoreModel::empty();
    let r = download(&store, &b"never-written".to_vec());
    assert_eq!(r, Err(GatewayError::NotFound));
}

#[test]
fn idempotent_overwrite() {
    let mut store = StoreModel::empty();
    let chunks = chunks_of(&[b"shared content"]);
    let no_name: Option<Vec<u8>> = None;
    let k1 = upload(
        &mut store,
        &chunks,
        &no_name,
        &OCTET.to_vec(),
        &b"racer-one".to_vec(),
        PutOutcome::Completed,
        true,
        true,
    )
    .unwrap();
    let k2 = upload(
        &mut store,
        &chunks,
        &no_name,
        &OCTET.to_vec(),
        &b"racer-two".to_vec(),
        PutOutcome::Completed,
        true,
        true,
    )
    .unwrap();
    assert_eq!(k1, k2);
    assert_eq!(download(&store, &k2).unwrap().bytes, b"shared content".to_vec());
}
