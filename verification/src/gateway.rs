//! The upload and download pipelines. An upload hashes its chunks in
//! lockstep with the bytes written to a temporary object, promotes the
//! object to its content-addressed key once the stream is complete, and
//! removes the temporary object on every path. A download reads a key back
//! and keeps a missing object distinct from a store failure.

use vstd::prelude::*;
use crate::digest::{sha256_of, DigestAcc};
use crate::hexcode::hex_of;
use crate::keys::{
    append_bytes, final_key_for, final_key_spec, hint_ext, hint_view, lemma_extension_decides_key,
    lemma_final_key_injective, lemma_temp_key_not_final_key, temp_key_for, temp_key_spec, SLASH,
};
use crate::store::{copy_bytes, ObjectRecord, StoreModel};

verus! {

/// The client-visible outcomes a failure collapses to: backend detail is
/// logged where it arises and never crosses this boundary.
#[derive(Clone, Copy, Debug, PartialEq, Eq, Structural)]
pub enum GatewayError {
    /// The request itself was malformed.
    ClientError,
    /// The requested key is absent from the store.
    NotFound,
    /// The backing store failed during a write, copy, delete or read.
    StoreError,
    /// The inbound byte stream failed or ended early.
    StreamError,
}

/// What the streamed write to the temporary object reported.
#[derive(Clone, Copy, Debug, PartialEq, Eq, Structural)]
pub enum PutOutcome {
    /// The stream was drained and the object written in full.
    Completed,
    /// The store failed during the write.
    StoreFailed,
    /// The inbound stream failed or ended early during the write.
    StreamFailed,
}

/// The views of a list of chunks.
pub open spec fn views_of(chunks: Seq<Vec<u8>>) -> Seq<Seq<u8>> {
    chunks.map_values(|c: Vec<u8>| c@)
}

/// The concatenation of a list of byte sequences, in order.
pub open spec fn concat_of(chunks: Seq<Seq<u8>>) -> Seq<u8>
    decreases chunks.len(),
{
    if chunks.len() == 0 {
        Seq::<u8>::empty()
    } else {
        concat_of(chunks.drop_last()) + chunks.last()
    }
}

/// The content of an upload: its chunks, concatenated in arrival order.
pub open spec fn content_of(chunks: Seq<Vec<u8>>) -> Seq<u8> {
    concat_of(views_of(chunks))
}

/// The final key an upload of this content with this filename hint yields.
pub open spec fn upload_key(content: Seq<u8>, filename: Option<Seq<u8>>) -> Seq<u8> {
    final_key_spec(sha256_of(content), filename)
}

/// A successful upload's whole effect on the store: the content appears
/// under its content-addressed key, still carrying the declared content
/// type, and nothing else changes.
pub open spec fn upload_effect(
    m: Map<Seq<u8>, (Seq<u8>, Seq<u8>)>,
    content: Seq<u8>,
    mimetype: Seq<u8>,
    filename: Option<Seq<u8>>,
) -> Map<Seq<u8>, (Seq<u8>, Seq<u8>)> {
    m.insert(upload_key(content, filename), (content, mimetype))
}

/// Run one upload against the store: write the chunks to the temporary key
/// named by `token` while hashing them in lockstep, promote the temporary
/// object to the digest-derived key, and delete the temporary object
/// whatever happened before. `put`, `copy_ok` and `delete_ok` are what the
/// store reported for the three operations; the delete's own outcome never
/// changes the reported result.
pub fn upload(
    store: &mut StoreModel,
    chunks: &Vec<Vec<u8>>,
    filename: &Option<Vec<u8>>,
    mimetype: &Vec<u8>,
    token: &Vec<u8>,
    put: PutOutcome,
    copy_ok: bool,
    delete_ok: bool,
) -> (r: Result<Vec<u8>, GatewayError>)
    requires
        !old(store)@.contains_key(temp_key_spec(token@)),
    ensures
        r is Ok <==> (put == PutOutcome::Completed && copy_ok),
        (match r {
            Result::Ok(k) => k@ == upload_key(content_of(chunks@), hint_view(*filename)),
            Result::Err(_) => true,
        }),
        put == PutOutcome::StoreFailed ==> r == Result::<Vec<u8>, GatewayError>::Err(
            GatewayError::StoreError,
        ),
        put == PutOutcome::StreamFailed ==> r == Result::<Vec<u8>, GatewayError>::Err(
            GatewayError::StreamError,
        ),
        (put == PutOutcome::Completed && !copy_ok) ==> r == Result::<Vec<u8>, GatewayError>::Err(
            GatewayError::StoreError,
        ),
        delete_ok ==> !final(store)@.contains_key(temp_key_spec(token@)),
        put != PutOutcome::Completed ==> final(store)@ == old(store)@,
        (put == PutOutcome::Completed && copy_ok && delete_ok) ==> final(store)@ == upload_effect(
            old(store)@,
            content_of(chunks@),
            mimetype@,
            hint_view(*filename),
        ),
        (put == PutOutcome::Completed && !copy_ok && delete_ok) ==> final(store)@ == old(store)@,
        (put == PutOutcome::Completed && copy_ok && !delete_ok) ==> final(store)@ == upload_effect(
            old(store)@.insert(temp_key_spec(token@), (content_of(chunks@), mimetype@)),
            content_of(chunks@),
            mimetype@,
            hint_view(*filename),
        ),
        (put == PutOutcome::Completed && !copy_ok && !delete_ok) ==> final(store)@ == old(
            store,
        )@.insert(temp_key_spec(token@), (content_of(chunks@), mimetype@)),
{
    let tmp = temp_key_for(token);
    match put {
        PutOutcome::StoreFailed => {
            if delete_ok {
                store.delete_object(&tmp);
                assert(store@ =~= old(store)@);
            }
            Err(GatewayError::StoreError)
        },
        PutOutcome::StreamFailed => {
            if delete_ok {
                store.delete_object(&tmp);
                assert(store@ =~= old(store)@);
            }
            Err(GatewayError::StreamError)
        },
        PutOutcome::Completed => {
            let mut acc = DigestAcc::new();
            let mut data: Vec<u8> = Vec::new();
            let mut i: usize = 0;
            proof {
                assert(views_of(chunks@).take(0) =~= Seq::<Seq<u8>>::empty());
            }
            while i < chunks.len()
                invariant
                    i <= chunks@.len(),
                    acc@ == concat_of(views_of(chunks@).take(i as int)),
                    data@ == acc@,
                decreases chunks@.len() - i,
            {
                let c = &chunks[i];
                acc.update(c);
                append_bytes(&mut data, c);
                proof {
                    assert(views_of(chunks@).take(i as int + 1).drop_last() =~= views_of(
                        chunks@,
                    ).take(i as int));
                    assert(views_of(chunks@).take(i as int + 1).last() == chunks@[i as int]@);
                }
                i += 1;
            }
            proof {
                assert(views_of(chunks@).take(chunks@.len() as int) =~= views_of(chunks@));
            }
            let record = ObjectRecord { bytes: data, content_type: copy_bytes(mimetype) };
            store.put_object(&tmp, record);
            let digest = acc.finish();
            let key = final_key_for(&digest, filename);
            proof {
                lemma_temp_key_not_final_key(token@, digest@, hint_view(*filename));
            }
            let mut result: Result<Vec<u8>, GatewayError> = Err(GatewayError::StoreError);
            if copy_ok {
                let ok = store.copy_object(&tmp, &key);
                assert(ok);
                result = Ok(key);
            }
            if delete_ok {
                store.delete_object(&tmp);
            }
            proof {
                if copy_ok && delete_ok {
                    assert(store@ =~= upload_effect(
                        old(store)@,
                        content_of(chunks@),
                        mimetype@,
                        hint_view(*filename),
                    ));
                }
                if !copy_ok && delete_ok {
                    assert(store@ =~= old(store)@);
                }
            }
            result
        },
    }
}

/// Read a key back from the store: the stored record, byte for byte, when
/// the key is present, and a NotFound outcome — never a generic failure —
/// when it is not.
pub fn download(store: &StoreModel, key: &Vec<u8>) -> (r: Result<ObjectRecord, GatewayError>)
    ensures
        (match r {
            Result::Ok(v) => store@.contains_key(key@) && v@ == store@[key@],
            Result::Err(e) => !store@.contains_key(key@) && e == GatewayError::NotFound,
        }),
{
    match store.get_object(key) {
        Some(v) => Ok(v),
        None => Err(GatewayError::NotFound),
    }
}

/// What the remote store reported when a read failed.
#[derive(Clone, Copy, Debug, PartialEq, Eq, Structural)]
pub enum StoreFault {
    /// The store answered with this HTTP status code.
    HttpStatus(u16),
    /// The store could not be reached or answered out of protocol.
    Connection,
}

/// How a store fault seen during a download surfaces: a missing object is
/// NotFound, everything else a generic store failure.
pub open spec fn download_error_spec(f: StoreFault) -> GatewayError {
    match f {
        StoreFault::HttpStatus(code) => if code == 404 {
            GatewayError::NotFound
        } else {
            GatewayError::StoreError
        },
        StoreFault::Connection => GatewayError::StoreError,
    }
}

/// Collapse a store fault seen during a download to its client-visible
/// outcome.
pub fn download_error_for(f: &StoreFault) -> (e: GatewayError)
    ensures
        e == download_error_spec(*f),
{
    match f {
        StoreFault::HttpStatus(code) => {
            if *code == 404 {
                GatewayError::NotFound
            } else {
                GatewayError::StoreError
            }
        },
        StoreFault::Connection => GatewayError::StoreError,
    }
}

/// The HTTP status each outcome surfaces as.
pub open spec fn status_code_spec(e: GatewayError) -> u16 {
    match e {
        GatewayError::ClientError => 400,
        GatewayError::NotFound => 404,
        GatewayError::StoreError => 500,
        GatewayError::StreamError => 500,
    }
}

/// The HTTP status an error surfaces as; no internal detail leaks with it.
pub fn status_code_for(e: &GatewayError) -> (c: u16)
    ensures
        c == status_code_spec(*e),
{
    match e {
        GatewayError::ClientError => 400,
        GatewayError::NotFound => 404,
        GatewayError::StoreError => 500,
        GatewayError::StreamError => 500,
    }
}

/// The path prefix stored keys are served back under: `/uploads/`.
pub open spec fn uploads_prefix() -> Seq<u8> {
    seq![SLASH, 117u8, 112u8, 108u8, 111u8, 97u8, 100u8, 115u8, SLASH]
}

/// The path a stored key is served back under.
pub fn upload_url_for(key: &Vec<u8>) -> (u: Vec<u8>)
    ensures
        u@ == uploads_prefix() + key@,
{
    let mut u: Vec<u8> = Vec::new();
    u.push(SLASH);
    u.push(117);
    u.push(112);
    u.push(108);
    u.push(111);
    u.push(97);
    u.push(100);
    u.push(115);
    u.push(SLASH);
    append_bytes(&mut u, key);
    assert(u@ =~= uploads_prefix() + key@);
    u
}

/// The cache directive downloads are served with: keys are
/// content-addressed and so immutable, which makes a year-long lifetime
/// safe. `max-age=31536000`.
pub open spec fn cache_directive() -> Seq<u8> {
    seq![
        109u8,
        97u8,
        120u8,
        45u8,
        97u8,
        103u8,
        101u8,
        61u8,
        51u8,
        49u8,
        53u8,
        51u8,
        54u8,
        48u8,
        48u8,
        48u8,
    ]
}

/// Build the cache directive value.
pub fn cache_directive_value() -> (v: Vec<u8>)
    ensures
        v@ == cache_directive(),
{
    let mut v: Vec<u8> = Vec::new();
    v.push(109);
    v.push(97);
    v.push(120);
    v.push(45);
    v.push(97);
    v.push(103);
    v.push(101);
    v.push(61);
    v.push(51);
    v.push(49);
    v.push(53);
    v.push(51);
    v.push(54);
    v.push(48);
    v.push(48);
    v.push(48);
    assert(v@ =~= cache_directive());
    v
}

/// Law: uploading content that is already stored under its key changes
/// nothing — a second upload of the same content with the same hint is an
/// idempotent overwrite, both uploads name the same key, and that key holds
/// the content.
pub proof fn lemma_upload_idempotent(
    m: Map<Seq<u8>, (Seq<u8>, Seq<u8>)>,
    content: Seq<u8>,
    mimetype: Seq<u8>,
    filename: Option<Seq<u8>>,
)
    ensures
        upload_effect(upload_effect(m, content, mimetype, filename), content, mimetype, filename)
            == upload_effect(m, content, mimetype, filename),
        upload_effect(m, content, mimetype, filename).contains_key(
            upload_key(content, filename),
        ),
        upload_effect(m, content, mimetype, filename)[upload_key(content, filename)] == (
            content,
            mimetype,
        ),
{
    assert(upload_effect(
        upload_effect(m, content, mimetype, filename),
        content,
        mimetype,
        filename,
    ) =~= upload_effect(m, content, mimetype, filename));
}

/// Law: content addressing — contents whose digests differ upload to
/// different keys, whatever the filename hints say. A digest collision is
/// assumed away by the first premise; the second carries SHA-256's fixed
/// output length, which the accumulator's contract supplies at every call
/// site.
pub proof fn lemma_content_addressed(
    b1: Seq<u8>,
    b2: Seq<u8>,
    f1: Option<Seq<u8>>,
    f2: Option<Seq<u8>>,
)
    requires
        sha256_of(b1).len() == sha256_of(b2).len(),
        sha256_of(b1) != sha256_of(b2),
    ensures
        upload_key(b1, f1) != upload_key(b2, f2),
{
    lemma_final_key_injective(sha256_of(b1), sha256_of(b2), f1, f2);
}

/// Law: one content, one key — filename hints with equal extensions yield
/// the identical key, and whatever the hints, the digest part of the key is
/// the same.
pub proof fn lemma_same_content_same_key(b: Seq<u8>, f1: Option<Seq<u8>>, f2: Option<Seq<u8>>)
    ensures
        hint_ext(f1) == hint_ext(f2) ==> upload_key(b, f1) == upload_key(b, f2),
        upload_key(b, f1).subrange(0, hex_of(sha256_of(b)).len() as int) == upload_key(
            b,
            f2,
        ).subrange(0, hex_of(sha256_of(b)).len() as int),
{
    lemma_extension_decides_key(sha256_of(b), f1, f2);
}

} // verus!
