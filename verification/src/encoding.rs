//! Byte encodings the library relies on: Base64 and gzip.
use vstd::prelude::*;

use flate2::write::GzEncoder;
use flate2::Compression;
use std::io::Write;
use vstd::utf8::{decode_utf8, valid_utf8};

verus! {

#[verifier::external_type_specification]
#[verifier::external_body]
pub struct ExDecodeError(base64::DecodeError);

/// The bytes that Base64 text decodes to under the standard alphabet with
/// padding, or `None` when it is not valid standard Base64.
pub uninterp spec fn base64_standard_decoded(input: Seq<char>) -> Option<Seq<u8>>;

/// Decodes standard Base64.
///
/// Trusted: calls `base64::decode` (base64 0.13, `STANDARD` configuration);
/// what it returns depends on the text alone and is named by
/// `base64_standard_decoded`.
#[verifier::external_body]
pub fn decode_standard(input: &str) -> (res: Result<Vec<u8>, base64::DecodeError>)
    ensures
        match res {
            Ok(v) => base64_standard_decoded(input@) == Some(v@),
            Err(_) => base64_standard_decoded(input@) is None,
        },
{
    base64::decode(input)
}

/// The bytes that Base64 text decodes to under the URL-safe alphabet with
/// padding, or `None` when it is not valid URL-safe Base64.
pub uninterp spec fn base64_url_safe_decoded(input: Seq<char>) -> Option<Seq<u8>>;

/// Decodes URL-safe Base64.
///
/// Trusted: calls `base64::decode_config` with `base64::URL_SAFE` (base64
/// 0.13); what it returns depends on the text alone and is named by
/// `base64_url_safe_decoded`.
#[verifier::external_body]
pub fn decode_url_safe(input: &str) -> (res: Result<Vec<u8>, base64::DecodeError>)
    ensures
        match res {
            Ok(v) => base64_url_safe_decoded(input@) == Some(v@),
            Err(_) => base64_url_safe_decoded(input@) is None,
        },
{
    base64::decode_config(input, base64::URL_SAFE)
}

/// Reads bytes as UTF-8 text.
///
/// Trusted: calls `std::str::from_utf8`, which accepts exactly the valid
/// UTF-8 byte sequences and then hands out the text that they encode.
#[verifier::external_body]
pub fn utf8_text(bytes: &[u8]) -> (res: Option<&str>)
    ensures
        match res {
            Some(s) => valid_utf8(bytes@) && s@ == decode_utf8(bytes@),
            None => !valid_utf8(bytes@),
        },
{
    std::str::from_utf8(bytes).ok()
}

} // verus!

verus! {

/// The gzip stream that `flate2`'s `GzEncoder` writes for `data` at the
/// `fast` compression level, with its default header.
pub uninterp spec fn gzip_fast(data: Seq<u8>) -> Seq<u8>;

/// Compresses `data` into a gzip stream at the fast compression level.
///
/// Trusted: writes `data` into a `flate2::write::GzEncoder` over a `Vec`
/// made with `Compression::fast()` and returns what `finish` hands back.
/// The header holds no time stamp or name, so the output depends on `data`
/// alone and is named by `gzip_fast`. Writing into a `Vec` does not fail.
#[verifier::external_body]
pub fn gzip_compress_fast(data: &[u8]) -> (res: Vec<u8>)
    ensures
        res@ == gzip_fast(data@),
{
    let mut encoder = GzEncoder::new(Vec::with_capacity(data.len()), Compression::fast());
    encoder.write_all(data).unwrap();
    encoder.finish().unwrap()
}

} // verus!

verus! {

/// The big-endian value of a byte sequence.
pub open spec fn be_value(s: Seq<u8>) -> nat
    decreases s.len(),
{
    if s.len() == 0 {
        0
    } else {
        be_value(s.drop_last()) * 256 + (s.last() as nat)
    }
}

/// `256` to the power `n`.
pub open spec fn pow256(n: nat) -> nat
    decreases n,
{
    if n == 0 {
        1
    } else {
        pow256((n - 1) as nat) * 256
    }
}

/// The big-endian value of bytes fits in as many bytes.
pub proof fn lemma_be_value_bound(s: Seq<u8>)
    ensures
        be_value(s) < pow256(s.len()),
    decreases s.len(),
{
    if s.len() > 0 {
        lemma_be_value_bound(s.drop_last());
        let v = be_value(s.drop_last());
        let p = pow256((s.len() - 1) as nat);
        let b = s.last();
        assert(v * 256 + b < p * 256) by (nonlinear_arith)
            requires
                v < p,
                b < 256,
        ;
    }
}

/// Reads `len` bytes of `data` from position `start` as a big-endian number.
pub fn read_be(data: &[u8], start: usize, len: usize) -> (res: u64)
    requires
        len <= 8,
        start + len <= data@.len(),
    ensures
        res as nat == be_value(data@.subrange(start as int, start + len)),
{
    let mut v: u64 = 0;
    let mut i: usize = 0;
    let n = data.len();
    proof {
        assert(pow256(8) == 18446744073709551616) by {
            reveal_with_fuel(pow256, 9);
        }
    }
    while i < len
        invariant
            len <= 8,
            start + len <= data@.len(),
            n == data@.len(),
            0 <= i <= len,
            v as nat == be_value(data@.subrange(start as int, start + i)),
            pow256(8) == 18446744073709551616,
        decreases len - i,
    {
        let ghost s = data@.subrange(start as int, start + i + 1);
        assert(s.drop_last() =~= data@.subrange(start as int, start + i));
        proof {
            lemma_be_value_bound(s);
            lemma_pow256_mono(s.len(), 8);
        }
        v = v * 256 + data[start + i] as u64;
        i = i + 1;
    }
    v
}

/// Powers of 256 grow with the exponent.
pub proof fn lemma_pow256_mono(a: nat, b: nat)
    requires
        a <= b,
    ensures
        pow256(a) <= pow256(b),
    decreases b,
{
    if a < b {
        lemma_pow256_mono(a, (b - 1) as nat);
    }
}

} // verus!
