//! Derivation of storage keys: the temporary key a fresh upload writes to,
//! and the content-addressed final key built from a digest and the optional
//! extension of a client-supplied filename hint.

use vstd::prelude::*;
use crate::hexcode::{
    hex_encode_bytes, hex_of, is_hex_digit_byte, lemma_hex_of_injective, lemma_hex_of_is_hex,
    lemma_hex_of_len,
};

verus! {

/// ASCII '-'
pub const HYPHEN: u8 = 45;

/// ASCII '.'
pub const DOT: u8 = 46;

/// ASCII '/'
pub const SLASH: u8 = 47;

/// ASCII 'A'
pub const UPPER_A: u8 = 65;

/// ASCII 'Z'
pub const UPPER_Z: u8 = 90;

/// ASCII lowercasing of one byte: uppercase letters move down, everything
/// else is unchanged.
pub open spec fn lower_byte(b: u8) -> u8 {
    if UPPER_A <= b && b <= UPPER_Z {
        (b + 32) as u8
    } else {
        b
    }
}

/// ASCII lowercasing of a byte sequence, pointwise.
pub open spec fn lower(s: Seq<u8>) -> Seq<u8> {
    s.map_values(|b: u8| lower_byte(b))
}

/// ASCII-lowercase a byte string.
pub fn lower_bytes(s: &Vec<u8>) -> (r: Vec<u8>)
    ensures
        r@ == lower(s@),
{
    let mut r: Vec<u8> = Vec::new();
    let mut i: usize = 0;
    assert(r@ =~= lower(s@).take(0));
    while i < s.len()
        invariant
            i <= s.len(),
            r@ == lower(s@).take(i as int),
        decreases s.len() - i,
    {
        let b = s[i];
        let lb: u8 = if UPPER_A <= b && b <= UPPER_Z {
            b + 32
        } else {
            b
        };
        r.push(lb);
        assert(r@ =~= lower(s@).take(i as int + 1));
        i += 1;
    }
    assert(r@ =~= lower(s@));
    r
}

/// Append the bytes of `src` to `dst`.
pub fn append_bytes(dst: &mut Vec<u8>, src: &Vec<u8>)
    ensures
        final(dst)@ == old(dst)@ + src@,
{
    let mut j: usize = 0;
    assert(dst@ =~= old(dst)@ + src@.take(0));
    while j < src.len()
        invariant
            j <= src.len(),
            dst@ == old(dst)@ + src@.take(j as int),
        decreases src.len() - j,
    {
        dst.push(src[j]);
        assert(dst@ =~= old(dst)@ + src@.take(j as int + 1));
        j += 1;
    }
    assert(dst@ =~= old(dst)@ + src@);
}

/// The index of the last occurrence of `c` in `s`, if any.
pub open spec fn spec_rfind(s: Seq<u8>, c: u8) -> Option<int>
    decreases s.len(),
{
    if s.len() == 0 {
        Option::None
    } else if s[s.len() - 1] == c {
        Option::Some(s.len() - 1)
    } else {
        spec_rfind(s.drop_last(), c)
    }
}

/// Search `s` backwards for the byte `c`.
fn rfind_byte(s: &Vec<u8>, c: u8) -> (r: Option<usize>)
    ensures
        match r {
            Option::Some(i) => i < s@.len() && spec_rfind(s@, c) == Option::Some(i as int),
            Option::None => spec_rfind(s@, c) is None,
        },
{
    let mut i: usize = s.len();
    assert(s@.take(s@.len() as int) =~= s@);
    while i > 0
        invariant
            i <= s.len(),
            spec_rfind(s@, c) == spec_rfind(s@.take(i as int), c),
        decreases i,
    {
        if s[i - 1] == c {
            assert(s@.take(i as int).last() == s@[i as int - 1]);
            return Some(i - 1);
        }
        assert(s@.take(i as int).drop_last() =~= s@.take(i as int - 1));
        i -= 1;
    }
    None
}

/// Copy of `s[from..to]`.
fn subvec(s: &Vec<u8>, from: usize, to: usize) -> (r: Vec<u8>)
    requires
        from <= to <= s@.len(),
    ensures
        r@ == s@.subrange(from as int, to as int),
{
    let mut r: Vec<u8> = Vec::new();
    let mut j: usize = from;
    assert(r@ =~= s@.subrange(from as int, from as int));
    while j < to
        invariant
            from <= j <= to <= s@.len(),
            r@ == s@.subrange(from as int, j as int),
        decreases to - j,
    {
        r.push(s[j]);
        assert(r@ =~= s@.subrange(from as int, j as int + 1));
        j += 1;
    }
    r
}

/// The final path component of a filename hint: everything after its last
/// slash, or the whole hint when it has none.
pub open spec fn file_name_of(f: Seq<u8>) -> Seq<u8> {
    match spec_rfind(f, SLASH) {
        Option::Some(i) => f.subrange(i + 1, f.len() as int),
        Option::None => f,
    }
}

/// The extension of a filename hint: the part of its final path component
/// after the last dot. Absent when the component has no dot, when its only
/// dot leads it, or when the component is `..`.
pub open spec fn ext_of(f: Seq<u8>) -> Option<Seq<u8>> {
    let n = file_name_of(f);
    if n == seq![DOT, DOT] {
        Option::None
    } else {
        match spec_rfind(n, DOT) {
            Option::None => Option::None,
            Option::Some(i) => if i == 0 {
                Option::None
            } else {
                Option::Some(n.subrange(i + 1, n.len() as int))
            },
        }
    }
}

/// Extract the extension of a filename hint, as `ext_of` describes it.
pub fn extension_of(filename: &Vec<u8>) -> (r: Option<Vec<u8>>)
    ensures
        match r {
            Option::Some(e) => ext_of(filename@) == Option::Some(e@),
            Option::None => ext_of(filename@) is None,
        },
{
    let start: usize = match rfind_byte(filename, SLASH) {
        Some(i) => i + 1,
        None => 0,
    };
    let name = subvec(filename, start, filename.len());
    assert(name@ =~= file_name_of(filename@));
    let is_dot_dot = name.len() == 2 && name[0] == DOT && name[1] == DOT;
    proof {
        if is_dot_dot {
            assert(name@ =~= seq![DOT, DOT]);
        } else if name@ == seq![DOT, DOT] {
            assert(name@.len() == 2 && name@[0] == DOT && name@[1] == DOT);
        }
    }
    if is_dot_dot {
        return None;
    }
    match rfind_byte(&name, DOT) {
        None => None,
        Some(i) => {
            if i == 0 {
                None
            } else {
                Some(subvec(&name, i + 1, name.len()))
            }
        },
    }
}

/// The prefix of every temporary key: `tmp/`.
pub open spec fn tmp_prefix() -> Seq<u8> {
    seq![116u8, 109u8, 112u8, SLASH]
}

/// The suffix of every temporary key: `.bin`.
pub open spec fn bin_suffix() -> Seq<u8> {
    seq![DOT, 98u8, 105u8, 110u8]
}

/// The temporary key that an upload with the given token writes to.
pub open spec fn temp_key_spec(token: Seq<u8>) -> Seq<u8> {
    tmp_prefix() + token + bin_suffix()
}

/// Build the temporary key `tmp/<token>.bin`.
pub fn temp_key_for(token: &Vec<u8>) -> (k: Vec<u8>)
    ensures
        k@ == temp_key_spec(token@),
{
    let mut k: Vec<u8> = Vec::new();
    k.push(116);
    k.push(109);
    k.push(112);
    k.push(SLASH);
    append_bytes(&mut k, token);
    k.push(DOT);
    k.push(98);
    k.push(105);
    k.push(110);
    assert(k@ =~= temp_key_spec(token@));
    k
}

/// A token byte: a lowercase hexadecimal digit or a hyphen.
pub open spec fn is_token_byte(b: u8) -> bool {
    is_hex_digit_byte(b) || b == HYPHEN
}

/// Relies on `uuid::Uuid::new_v4` and its `Display` form: a fresh random
/// 128-bit identifier rendered hyphenated as 36 ASCII bytes, lowercase
/// hexadecimal digits and hyphens. Nothing is assumed about which
/// identifier comes back.
#[verifier::external_body]
fn random_token_bytes() -> (t: Vec<u8>)
    ensures
        t@.len() == 36,
        forall|i: int| 0 <= i < t@.len() ==> is_token_byte(t@[i]),
{
    uuid::Uuid::new_v4().to_string().into_bytes()
}

/// A fresh random token for naming one temporary object.
pub fn fresh_token() -> (t: Vec<u8>)
    ensures
        t@.len() == 36,
        forall|i: int| 0 <= i < t@.len() ==> is_token_byte(t@[i]),
{
    random_token_bytes()
}

/// The name a final key lowercases: the digest in hexadecimal, then a dot
/// and the hint's extension when it has one.
pub open spec fn key_name(digest: Seq<u8>, filename: Option<Seq<u8>>) -> Seq<u8> {
    match filename {
        Option::Some(f) => match ext_of(f) {
            Option::Some(e) => hex_of(digest) + seq![DOT] + e,
            Option::None => hex_of(digest),
        },
        Option::None => hex_of(digest),
    }
}

/// The content-addressed final key: the lowercased hexadecimal digest,
/// with a dot and the lowercased extension when the hint has one.
pub open spec fn final_key_spec(digest: Seq<u8>, filename: Option<Seq<u8>>) -> Seq<u8> {
    lower(key_name(digest, filename))
}

/// The view of an optional filename hint.
pub open spec fn hint_view(filename: Option<Vec<u8>>) -> Option<Seq<u8>> {
    match filename {
        Option::Some(f) => Option::Some(f@),
        Option::None => Option::None,
    }
}

/// The extension an optional filename hint contributes to the final key.
pub open spec fn hint_ext(filename: Option<Seq<u8>>) -> Option<Seq<u8>> {
    match filename {
        Option::Some(f) => ext_of(f),
        Option::None => Option::None,
    }
}

/// Derive the final key for a digest and an optional filename hint.
pub fn final_key_for(digest: &Vec<u8>, filename: &Option<Vec<u8>>) -> (k: Vec<u8>)
    ensures
        k@ == final_key_spec(digest@, hint_view(*filename)),
{
    let mut name = hex_encode_bytes(digest);
    match filename {
        Some(f) => {
            match extension_of(f) {
                Some(e) => {
                    name.push(DOT);
                    append_bytes(&mut name, &e);
                    assert(name@ =~= key_name(digest@, hint_view(*filename)));
                },
                None => {},
            }
        },
        None => {},
    }
    assert(name@ =~= key_name(digest@, hint_view(*filename)));
    lower_bytes(&name)
}

/// A temporary key is never a final key: temporary keys open with `tmp/`,
/// final keys with a hexadecimal digit.
pub proof fn lemma_temp_key_not_final_key(token: Seq<u8>, digest: Seq<u8>, filename: Option<
    Seq<u8>,
>)
    requires
        digest.len() > 0,
    ensures
        temp_key_spec(token) != final_key_spec(digest, filename),
{
    lemma_hex_of_len(digest);
    lemma_hex_of_is_hex(digest, 0);
    let name = key_name(digest, filename);
    assert(name[0] == hex_of(digest)[0]);
    assert(final_key_spec(digest, filename)[0] == lower_byte(name[0]));
    assert(lower_byte(name[0]) == name[0]);
    assert(temp_key_spec(token)[0] == 116);
    assert(temp_key_spec(token)[0] != final_key_spec(digest, filename)[0]);
}

/// Different digests of one length give different final keys, whatever the
/// filename hints: the keys already differ inside their hexadecimal part.
pub proof fn lemma_final_key_injective(
    d1: Seq<u8>,
    d2: Seq<u8>,
    f1: Option<Seq<u8>>,
    f2: Option<Seq<u8>>,
)
    requires
        d1.len() == d2.len(),
        d1 != d2,
    ensures
        final_key_spec(d1, f1) != final_key_spec(d2, f2),
{
    lemma_hex_of_injective(d1, d2);
    lemma_hex_of_len(d1);
    lemma_hex_of_len(d2);
    let h1 = hex_of(d1);
    let h2 = hex_of(d2);
    if forall|j: int| 0 <= j < h1.len() ==> h1[j] == h2[j] {
        assert(h1 =~= h2);
    }
    let j = choose|j: int| 0 <= j < h1.len() && h1[j] != h2[j];
    lemma_hex_of_is_hex(d1, j);
    lemma_hex_of_is_hex(d2, j);
    let n1 = key_name(d1, f1);
    let n2 = key_name(d2, f2);
    assert(n1[j] == h1[j]);
    assert(n2[j] == h2[j]);
    assert(final_key_spec(d1, f1)[j] == lower_byte(n1[j]));
    assert(final_key_spec(d2, f2)[j] == lower_byte(n2[j]));
    assert(lower_byte(h1[j]) == h1[j]);
    assert(lower_byte(h2[j]) == h2[j]);
    assert(final_key_spec(d1, f1)[j] != final_key_spec(d2, f2)[j]);
}

/// Of the whole filename hint only the extension reaches the final key: the
/// digest part is shared, and hints with equal extensions share the key.
pub proof fn lemma_extension_decides_key(
    d: Seq<u8>,
    f1: Option<Seq<u8>>,
    f2: Option<Seq<u8>>,
)
    ensures
        hint_ext(f1) == hint_ext(f2) ==> final_key_spec(d, f1) == final_key_spec(d, f2),
        final_key_spec(d, f1).subrange(0, hex_of(d).len() as int) == final_key_spec(
            d,
            f2,
        ).subrange(0, hex_of(d).len() as int),
{
    lemma_hex_of_len(d);
    if hint_ext(f1) == hint_ext(f2) {
        assert(key_name(d, f1) == key_name(d, f2));
    }
    let l = hex_of(d).len() as int;
    let k1 = final_key_spec(d, f1);
    let k2 = final_key_spec(d, f2);
    assert forall|j: int| 0 <= j < l implies k1[j] == k2[j] by {
        assert(key_name(d, f1)[j] == hex_of(d)[j]);
        assert(key_name(d, f2)[j] == hex_of(d)[j]);
    }
    assert(k1.subrange(0, l) =~= k2.subrange(0, l));
}

} // verus!
