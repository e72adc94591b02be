//! Hashes and their hexadecimal notation: file checks and the offline
//! player UUID.

use vstd::prelude::*;
use md5::Md5;
use sha1::{Digest, Sha1};
use crate::text::{chars_of, slice_range, string_of, str_eq};

verus! {

/// The MD5 digest of `data` (computed by the `md-5` crate).
pub uninterp spec fn md5_digest(data: Seq<u8>) -> Seq<u8>;

/// The SHA-1 digest of `data` (computed by the `sha1` crate).
pub uninterp spec fn sha1_digest(data: Seq<u8>) -> Seq<u8>;

/// `Md5::digest` of the `md-5` crate: the result is the MD5 digest of
/// `data`, 16 bytes long (the output size the crate declares for MD5).
/// Which bytes those are is not stated beyond the name `md5_digest`.
#[verifier::external_body]
fn md5(data: &[u8]) -> (res: Vec<u8>)
    ensures
        res@ == md5_digest(data@),
        res@.len() == 16,
{
    Md5::digest(data).to_vec()
}

/// `Sha1::digest` of the `sha1` crate: the result is the SHA-1 digest of
/// `data`, 20 bytes long (the output size the crate declares for SHA-1).
/// Which bytes those are is not stated beyond the name `sha1_digest`.
#[verifier::external_body]
fn sha1(data: &[u8]) -> (res: Vec<u8>)
    ensures
        res@ == sha1_digest(data@),
        res@.len() == 20,
{
    Sha1::digest(data).to_vec()
}

/// The lowercase hexadecimal digit of `d < 16`.
pub open spec fn hex_digit(d: nat) -> char {
    if d < 10 {
        (d + '0' as nat) as char
    } else {
        (d - 10 + 'a' as nat) as char
    }
}

/// The lowercase hexadecimal notation of `data`, two digits per byte, the
/// high half first.
pub open spec fn hex_lower(data: Seq<u8>) -> Seq<char>
    decreases data.len(),
{
    if data.len() == 0 {
        Seq::empty()
    } else {
        hex_lower(data.drop_last()) + seq![
            hex_digit((data.last() / 16) as nat),
            hex_digit((data.last() % 16) as nat),
        ]
    }
}

/// `hex::encode` of the `hex` crate: each byte becomes two lowercase
/// hexadecimal digits, the high half first.
#[verifier::external_body]
fn hex_encode(data: &[u8]) -> (res: String)
    ensures
        res@ == hex_lower(data@),
{
    hex::encode(data)
}

/// The lowercase hexadecimal SHA-1 digest of `data`, as version
/// manifests and downloads give it.
pub fn sha1_hex(data: &[u8]) -> (res: String)
    ensures
        res@ == hex_lower(sha1_digest(data@)),
{
    let d = sha1(data);
    hex_encode(d.as_slice())
}

/// `expected` is the lowercase hexadecimal notation of `digest`.
pub fn digest_matches(expected: &str, digest: &[u8]) -> (res: bool)
    ensures
        res == (expected@ == hex_lower(digest@)),
{
    let h = hex_encode(digest);
    str_eq(expected, h.as_str())
}

/// `data` has the SHA-1 digest whose lowercase hexadecimal notation is `expected`.
pub fn sha1_matches(expected: &str, data: &[u8]) -> (res: bool)
    ensures
        res == (expected@ == hex_lower(sha1_digest(data@))),
{
    let d = sha1(data);
    digest_matches(expected, d.as_slice())
}

/// The hexadecimal notation of a byte sequence has two digits per byte.
pub proof fn lemma_hex_lower_len(data: Seq<u8>)
    ensures
        hex_lower(data).len() == 2 * data.len(),
    decreases data.len(),
{
    if data.len() > 0 {
        lemma_hex_lower_len(data.drop_last());
    }
}

/// The digits of byte `k` sit at positions `2k` and `2k + 1`.
pub proof fn lemma_hex_lower_index(data: Seq<u8>, k: int)
    requires
        0 <= k < data.len(),
    ensures
        hex_lower(data)[2 * k] == hex_digit((data[k] / 16) as nat),
        hex_lower(data)[2 * k + 1] == hex_digit((data[k] % 16) as nat),
    decreases data.len(),
{
    let init = data.drop_last();
    lemma_hex_lower_len(init);
    if k < data.len() - 1 {
        lemma_hex_lower_index(init, k);
    }
}

/// The bytes of an MD5 digest with the version set to 3 (name based) and
/// the variant set to RFC 4122, as a UUID made from a name has them.
pub open spec fn name_uuid_bytes(d: Seq<u8>) -> Seq<u8> {
    d.update(6, (d[6] & 0x0f) | 0x30).update(8, (d[8] & 0x3f) | 0x80)
}

/// `h` (32 hexadecimal digits) grouped 8-4-4-4-12 with dashes.
pub open spec fn uuid_groups(h: Seq<char>) -> Seq<char> {
    h.subrange(0, 8) + seq!['-'] + h.subrange(8, 12) + seq!['-'] + h.subrange(12, 16) + seq!['-']
        + h.subrange(16, 20) + seq!['-'] + h.subrange(20, 32)
}

/// The UTF-8 bytes of `s`.
pub open spec fn utf8_bytes(s: Seq<char>) -> Seq<u8> {
    vstd::utf8::encode_utf8(s)
}

/// The offline-mode UUID of a player: the name-based UUID of
/// `OfflinePlayer:<name>`, in its usual dashed notation.
pub open spec fn offline_uuid_of(username: Seq<char>) -> Seq<char> {
    uuid_groups(hex_lower(name_uuid_bytes(md5_digest(utf8_bytes("OfflinePlayer:"@ + username)))))
}

/// The name-based UUID made from the MD5 digest `digest` of a name: the
/// version set to 3 and the variant to RFC 4122, in the dashed 8-4-4-4-12
/// notation of 36 characters, whose version digit is `3` and whose variant
/// digit is one of `8`, `9`, `a`, `b`.
pub fn name_uuid_from_digest(digest: &[u8]) -> (res: String)
    requires
        digest@.len() == 16,
    ensures
        res@ == uuid_groups(hex_lower(name_uuid_bytes(digest@))),
        res@.len() == 36,
        res@[8] == '-' && res@[13] == '-' && res@[18] == '-' && res@[23] == '-',
        res@[14] == '3',
        res@[19] == '8' || res@[19] == '9' || res@[19] == 'a' || res@[19] == 'b',
{
    let mut bytes = vstd::slice::slice_to_vec(digest);
    let b6 = bytes[6];
    let b8 = bytes[8];
    bytes.set(6, (b6 & 0x0f) | 0x30);
    bytes.set(8, (b8 & 0x3f) | 0x80);
    let h = hex_encode(bytes.as_slice());
    let hc = chars_of(h.as_str());
    proof {
        lemma_hex_lower_len(bytes@);
        assert(bytes@ == name_uuid_bytes(digest@));
        lemma_hex_lower_index(bytes@, 6);
        lemma_hex_lower_index(bytes@, 8);
        assert(((b6 & 0x0f) | 0x30) / 16 == 3) by (bit_vector);
        assert(8 <= ((b8 & 0x3f) | 0x80) / 16 <= 11) by (bit_vector);
    }
    let mut out = slice_range(hc.as_slice(), 0, 8);
    out.push('-');
    crate::text::extend_chars(&mut out, slice_range(hc.as_slice(), 8, 12).as_slice());
    out.push('-');
    crate::text::extend_chars(&mut out, slice_range(hc.as_slice(), 12, 16).as_slice());
    out.push('-');
    crate::text::extend_chars(&mut out, slice_range(hc.as_slice(), 16, 20).as_slice());
    out.push('-');
    crate::text::extend_chars(&mut out, slice_range(hc.as_slice(), 20, 32).as_slice());
    assert(out@ =~= uuid_groups(hc@));
    string_of(out.as_slice())
}

/// The offline-mode UUID of the player `username`.  It has the dashed
/// 8-4-4-4-12 shape of 36 characters, its version digit is `3` and its
/// variant digit one of `8`, `9`, `a`, `b`.
pub fn offline_uuid(username: &str) -> (res: String)
    ensures
        res@ == offline_uuid_of(username@),
        res@.len() == 36,
        res@[8] == '-' && res@[13] == '-' && res@[18] == '-' && res@[23] == '-',
        res@[14] == '3',
        res@[19] == '8' || res@[19] == '9' || res@[19] == 'a' || res@[19] == 'b',
{
    let mut name = String::from_str("OfflinePlayer:");
    name.append(username);
    let digest = md5(name.as_str().as_bytes());
    name_uuid_from_digest(digest.as_slice())
}

} // verus!
