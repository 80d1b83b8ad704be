//! Unit tests for key derivation, the digest accumulator, error shaping
//! and the store model.

use upload_gateway::digest::DigestAcc;
use upload_gateway::gateway::{
    download_error_for, status_code_for, upload_url_for, GatewayError, StoreFault,
};
use upload_gateway::keys::{extension_of, final_key_for, fresh_token, temp_key_for};
use upload_gateway::store::{ObjectRecord, StoreModel};

fn record(bytes: &[u8]) -> ObjectRecord {
    ObjectRecord { bytes: bytes.to_vec(), content_type: b"text/plain".to_vec() }
}

#[test]
fn extension_cases() {
    assert_eq!(
        extension_of(&b"report.PDF".to_vec()),
        Some(b"PDF".to_vec())
    );
    assert_eq!(extension_of(&b"report".to_vec()), None);
    assert_eq!(extension_of(&b".gitignore".to_vec()), None);
    assert_eq!(extension_of(&b"a/b.TXT".to_vec()), Some(b"TXT".to_vec()));
    assert_eq!(
        extension_of(&b"archive.tar.gz".to_vec()),
        Some(b"gz".to_vec())
    );
    assert_eq!(extension_of(&b"trailing.".to_vec()), Some(b"".to_vec()));
    assert_eq!(extension_of(&b"..".to_vec()), None);
    assert_eq!(extension_of(&b"".to_vec()), None);
    assert_eq!(extension_of(&b"dir.ext/plain".to_vec()), None);
}

#[test]
fn final_key_exact_hex() {
    let digest = vec![0u8, 255u8];
    assert_eq!(final_key_for(&digest, &None), b"00ff".to_vec());
    assert_eq!(
        final_key_for(&digest, &Some(b"X.TXT".to_vec())),
        b"00ff.txt".to_vec()
    );
    let digest2 = vec![0x12u8, 0x34u8, 0xabu8, 0xcdu8];
    assert_eq!(final_key_for(&digest2, &None), b"1234abcd".to_vec());
}

#[test]
fn digest_streaming_matches_one_shot() {
    let mut one_shot = DigestAcc::new();
    one_shot.update(&b"abc".to_vec());
    let d1 = one_shot.finish();

    let mut streamed = DigestAcc::new();
    streamed.update(&b"ab".to_vec());
    streamed.update(&b"c".to_vec());
    let d2 = streamed.finish();

    assert_eq!(d1, d2);
    assert_eq!(
        final_key_for(&d1, &None),
        b"ba7816bf8f01cfea414140de5dae2223b00361a396177a9cb410ff61f20015ad".to_vec()
    );
}

#[test]
fn digest_of_nothing() {
    let acc = DigestAcc::new();
    let d = acc.finish();
    assert_eq!(d.len(), 32);
    assert_eq!(
        final_key_for(&d, &None),
        b"e3b0c44298fc1c149afbf4c8996fb92427ae41e4649b934ca495991b7852b855".to_vec()
    );
}

#[test]
fn token_and_temp_key_shape() {
    let t = fresh_token();
    assert_eq!(t.len(), 36);
    for b in &t {
        let hex_digit = (b'0'..=b'9').contains(b) || (b'a'..=b'f').contains(b);
        assert!(hex_digit || *b == b'-');
    }
    let t2 = fresh_token();
    assert_ne!(t, t2);

    assert_eq!(temp_key_for(&b"abc".to_vec()), b"tmp/abc.bin".to_vec());
    let k = temp_key_for(&t);
    assert_eq!(&k[..4], b"tmp/");
    assert_eq!(&k[k.len() - 4..], b".bin");
}

#[test]
fn status_codes() {
    assert_eq!(status_code_for(&GatewayError::ClientError), 400);
    assert_eq!(status_code_for(&GatewayError::NotFound), 404);
    assert_eq!(status_code_for(&GatewayError::StoreError), 500);
    assert_eq!(status_code_for(&GatewayError::StreamError), 500);
}

#[test]
fn download_fault_mapping() {
    assert_eq!(
        download_error_for(&StoreFault::HttpStatus(404)),
        GatewayError::NotFound
    );
    assert_eq!(
        download_error_for(&StoreFault::HttpStatus(500)),
        GatewayError::StoreError
    );
    assert_eq!(
        download_error_for(&StoreFault::HttpStatus(403)),
        GatewayError::StoreError
    );
    assert_eq!(
        download_error_for(&StoreFault::Connection),
        GatewayError::StoreError
    );
}

#[test]
fn upload_url_shape() {
    assert_eq!(
        upload_url_for(&b"k.txt".to_vec()),
        b"/uploads/k.txt".to_vec()
    );
}

#[test]
fn store_model_operations() {
    let mut store = StoreModel::empty();
    let k1 = b"alpha".to_vec();
    let k2 = b"beta".to_vec();
    assert!(store.get_object(&k1).is_none());

    store.put_object(&k1, record(b"first"));
    assert_eq!(store.get_object(&k1), Some(record(b"first")));

    // Overwrite wins.
    store.put_object(&k1, record(b"second"));
    assert_eq!(store.get_object(&k1), Some(record(b"second")));

    // Copy duplicates the record, content type included, under the
    // destination key.
    assert!(store.copy_object(&k1, &k2));
    assert_eq!(store.get_object(&k2), Some(record(b"second")));

    // Copying from a missing key changes nothing and says so.
    assert!(!store.copy_object(&b"missing".to_vec(), &k2));
    assert_eq!(store.get_object(&k2), Some(record(b"second")));

    store.delete_object(&k1);
    assert!(store.get_object(&k1).is_none());
    assert_eq!(store.get_object(&k2), Some(record(b"second")));
}
