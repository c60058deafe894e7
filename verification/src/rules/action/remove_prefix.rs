//! Removing a fixed prefix from the path of a request.
use vstd::prelude::*;
use vstd::utf8::{decode_utf8, encode_utf8, encode_utf8_decode_utf8, is_char_boundary};

use crate::http::Request;
use crate::rules::matcher::{byte_prefix, starts_with_bytes};

verus! {

/// Whether comparing `prefix` with the start of `path` cuts the path only at
/// a character boundary (slicing a string inside a character panics): the
/// prefix is longer than the path, or its byte length is a character
/// boundary of the path.
pub open spec fn prefix_cut_ok(path: Seq<char>, prefix: Seq<char>) -> bool {
    encode_utf8(path).len() < encode_utf8(prefix).len()
        || is_char_boundary(encode_utf8(path), encode_utf8(prefix).len() as int)
}

/// The path after removing `prefix`: the text that the rest of the path's
/// bytes encode when they start with the bytes of `prefix`, else the path
/// unchanged.
pub open spec fn path_without_prefix(path: Seq<char>, prefix: Seq<char>) -> Seq<char> {
    if byte_prefix(prefix, path) {
        decode_utf8(encode_utf8(path).skip(encode_utf8(prefix).len() as int))
    } else {
        path
    }
}

/// The bytes of joined texts are the bytes of each, joined.
pub proof fn lemma_encode_concat(a: Seq<char>, b: Seq<char>)
    ensures
        encode_utf8(a + b) == encode_utf8(a) + encode_utf8(b),
    decreases a.len(),
{
    if a.len() == 0 {
        assert(a + b =~= b);
        assert(encode_utf8(a) =~= Seq::<u8>::empty());
        assert(encode_utf8(a) + encode_utf8(b) =~= encode_utf8(b));
    } else {
        assert((a + b).drop_first() =~= a.drop_first() + b);
        assert((a + b)[0] == a[0]);
        lemma_encode_concat(a.drop_first(), b);
        let e = vstd::utf8::encode_scalar(a[0] as u32);
        assert(e + (encode_utf8(a.drop_first()) + encode_utf8(b)) =~= (e + encode_utf8(a.drop_first()))
            + encode_utf8(b));
    }
}

/// Removing a prefix from a path that starts with it leaves the rest of
/// the path.
pub proof fn lemma_remove_prefix_leaves_rest(prefix: Seq<char>, rest: Seq<char>)
    ensures
        path_without_prefix(prefix + rest, prefix) == rest,
{
    lemma_encode_concat(prefix, rest);
    let p = encode_utf8(prefix);
    let t = encode_utf8(prefix + rest);
    assert(t.take(p.len() as int) =~= p);
    assert(t.skip(p.len() as int) =~= encode_utf8(rest));
    encode_utf8_decode_utf8(rest);
}

/// Removes `prefix` from the start of the request's path, if the path
/// starts with it; otherwise the request is left as it is.
pub fn apply_req(req: &mut Request, prefix: &str)
    requires
        prefix_cut_ok(old(req).path@, prefix@),
    ensures
        final(req).path@ == path_without_prefix(old(req).path@, prefix@),
        final(req).protocol == old(req).protocol,
        final(req).method == old(req).method,
        final(req).headers == old(req).headers,
        final(req).body == old(req).body,
{
    let prefix_len = prefix.as_bytes().len();
    let req_path_len = req.path().as_bytes().len();
    if prefix_len > req_path_len {
        return;
    }
    if !starts_with_bytes(req.path(), prefix) {
        return;
    }
    let (_, rest) = req.path().split_at(prefix_len);
    let rest_owned = rest.to_owned();
    proof {
        encode_utf8_decode_utf8(rest@);
    }
    req.set_path(rest_owned.as_str());
}

} // verus!
