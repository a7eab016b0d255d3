//! The inner-message decoder reads only the bytes it needs: what it decodes
//! from some bytes it decodes the same from any longer input that begins with
//! them. Hence no proper prefix of an encoded message decodes.
use vstd::prelude::*;

use super::inner::{
    decode_common, decode_confirm, decode_content, decode_hint, decode_prefix, decode_versions,
    inner_bytes, inner_valid, law_inner_roundtrip, r_text, spec_decode_inner, InnerView,
};
use super::items::{r_bytes, r_fixed, r_key, r_uint};
use crate::cbor::read_head;

verus! {

/// `t` begins with `s`.
pub open spec fn extends(t: Seq<u8>, s: Seq<u8>) -> bool {
    s.len() <= t.len() && t.subrange(0, s.len() as int) == s
}

proof fn lemma_extends_range(t: Seq<u8>, s: Seq<u8>, a: int, b: int)
    requires
        extends(t, s),
        0 <= a <= b <= s.len(),
    ensures
        t.subrange(a, b) == s.subrange(a, b),
{
    assert forall|i: int| 0 <= i < b - a implies t.subrange(a, b)[i] == s.subrange(a, b)[i] by {
        assert(t.subrange(0, s.len() as int)[a + i] == t[a + i]);
    }
    assert(t.subrange(a, b) =~= s.subrange(a, b));
}

proof fn lemma_read_head_ext(t: Seq<u8>, s: Seq<u8>, pos: int)
    requires
        extends(t, s),
        read_head(s, pos) is Some,
    ensures
        read_head(t, pos) == read_head(s, pos),
        read_head(s, pos)->Some_0.2 <= s.len(),
{
    assert(t.subrange(0, s.len() as int)[pos] == t[pos]);
    let b = s[pos];
    let w = crate::cbor::width_of_info(b % 32);
    if w > 0 {
        lemma_extends_range(t, s, pos + 1, pos + 1 + w);
    }
}

proof fn lemma_r_uint_ext(t: Seq<u8>, s: Seq<u8>, pos: int)
    requires
        extends(t, s),
        r_uint(s, pos) is Ok,
    ensures
        r_uint(t, pos) == r_uint(s, pos),
        r_uint(s, pos)->Ok_0.1 <= s.len(),
{
    lemma_read_head_ext(t, s, pos);
}

proof fn lemma_r_key_ext(t: Seq<u8>, s: Seq<u8>, pos: int, key: u64)
    requires
        extends(t, s),
        r_key(s, pos, key) is Ok,
    ensures
        r_key(t, pos, key) == r_key(s, pos, key),
        r_key(s, pos, key)->Ok_0 <= s.len(),
{
    lemma_r_uint_ext(t, s, pos);
}

proof fn lemma_r_fixed_ext(t: Seq<u8>, s: Seq<u8>, pos: int, len: int)
    requires
        extends(t, s),
        r_fixed(s, pos, len) is Ok,
    ensures
        r_fixed(t, pos, len) == r_fixed(s, pos, len),
        r_fixed(s, pos, len)->Ok_0.1 <= s.len(),
{
    lemma_read_head_ext(t, s, pos);
    let (m, n, end) = read_head(s, pos)->Some_0;
    lemma_extends_range(t, s, end, end + n);
    assert(r_bytes(t, pos) == r_bytes(s, pos));
}

proof fn lemma_r_text_ext(t: Seq<u8>, s: Seq<u8>, pos: int)
    requires
        extends(t, s),
        r_text(s, pos) is Ok,
    ensures
        r_text(t, pos) == r_text(s, pos),
        r_text(s, pos)->Ok_0.1 <= s.len(),
{
    lemma_read_head_ext(t, s, pos);
    let (m, n, end) = read_head(s, pos)->Some_0;
    lemma_extends_range(t, s, end, end + n);
}

proof fn lemma_prefix_ext(t: Seq<u8>, s: Seq<u8>)
    requires
        extends(t, s),
        decode_prefix(s) is Ok,
    ensures
        decode_prefix(t) == decode_prefix(s),
        decode_prefix(s)->Ok_0.1 <= s.len(),
{
    reveal(decode_prefix);
    lemma_read_head_ext(t, s, 0);
    let p0 = read_head(s, 0)->Some_0.2;
    lemma_r_key_ext(t, s, p0, 0);
    let p1 = r_key(s, p0, 0)->Ok_0;
    lemma_r_uint_ext(t, s, p1);
    let p2 = r_uint(s, p1)->Ok_0.1;
    lemma_r_key_ext(t, s, p2, 1);
    let p3 = r_key(s, p2, 1)->Ok_0;
    lemma_r_uint_ext(t, s, p3);
}

proof fn lemma_versions_ext(t: Seq<u8>, s: Seq<u8>, p: int)
    requires
        extends(t, s),
        decode_versions(s, p) is Ok,
    ensures
        decode_versions(t, p) == decode_versions(s, p),
        decode_versions(s, p)->Ok_0 <= s.len(),
{
    reveal(decode_versions);
    lemma_r_key_ext(t, s, p, 2);
    let p1 = r_key(s, p, 2)->Ok_0;
    lemma_r_uint_ext(t, s, p1);
    let p2 = r_uint(s, p1)->Ok_0.1;
    lemma_r_key_ext(t, s, p2, 3);
    let p3 = r_key(s, p2, 3)->Ok_0;
    lemma_r_uint_ext(t, s, p3);
}

proof fn lemma_common_ext(t: Seq<u8>, s: Seq<u8>, p: int)
    requires
        extends(t, s),
        decode_common(s, p) is Ok,
    ensures
        decode_common(t, p) == decode_common(s, p),
        decode_common(s, p)->Ok_0.1 <= s.len(),
{
    reveal(decode_common);
    lemma_r_key_ext(t, s, p, 4);
    let p1 = r_key(s, p, 4)->Ok_0;
    lemma_r_fixed_ext(t, s, p1, 16);
    let p2 = r_fixed(s, p1, 16)->Ok_0.1;
    lemma_r_key_ext(t, s, p2, 5);
    let p3 = r_key(s, p2, 5)->Ok_0;
    lemma_r_fixed_ext(t, s, p3, 16);
    let p4 = r_fixed(s, p3, 16)->Ok_0.1;
    lemma_r_key_ext(t, s, p4, 6);
    let p5 = r_key(s, p4, 6)->Ok_0;
    lemma_r_uint_ext(t, s, p5);
    let p6 = r_uint(s, p5)->Ok_0.1;
    lemma_r_key_ext(t, s, p6, 7);
    let p7 = r_key(s, p6, 7)->Ok_0;
    lemma_r_uint_ext(t, s, p7);
    let p8 = r_uint(s, p7)->Ok_0.1;
    lemma_r_key_ext(t, s, p8, 8);
    let p9 = r_key(s, p8, 8)->Ok_0;
    lemma_r_uint_ext(t, s, p9);
}

proof fn lemma_confirm_ext(t: Seq<u8>, s: Seq<u8>, p: int)
    requires
        extends(t, s),
        decode_confirm(s, p) is Ok,
    ensures
        decode_confirm(t, p) == decode_confirm(s, p),
        decode_confirm(s, p)->Ok_0.1 <= s.len(),
{
    reveal(decode_confirm);
    lemma_r_key_ext(t, s, p, 9);
    let p1 = r_key(s, p, 9)->Ok_0;
    lemma_r_fixed_ext(t, s, p1, 16);
    let p2 = r_fixed(s, p1, 16)->Ok_0.1;
    lemma_r_key_ext(t, s, p2, 10);
    let p3 = r_key(s, p2, 10)->Ok_0;
    lemma_r_fixed_ext(t, s, p3, 16);
    let p4 = r_fixed(s, p3, 16)->Ok_0.1;
    lemma_r_key_ext(t, s, p4, 11);
    let p5 = r_key(s, p4, 11)->Ok_0;
    lemma_r_fixed_ext(t, s, p5, 32);
    let p6 = r_fixed(s, p5, 32)->Ok_0.1;
    lemma_r_key_ext(t, s, p6, 12);
    let p7 = r_key(s, p6, 12)->Ok_0;
    lemma_r_fixed_ext(t, s, p7, 32);
}

proof fn lemma_hint_ext(t: Seq<u8>, s: Seq<u8>, p: int)
    requires
        extends(t, s),
        decode_hint(s, p) is Ok,
    ensures
        decode_hint(t, p) == decode_hint(s, p),
        decode_hint(s, p)->Ok_0.1 <= s.len(),
{
    reveal(decode_hint);
    lemma_r_key_ext(t, s, p, 9);
    let p1 = r_key(s, p, 9)->Ok_0;
    lemma_r_uint_ext(t, s, p1);
    let p2 = r_uint(s, p1)->Ok_0.1;
    lemma_r_key_ext(t, s, p2, 10);
    let p3 = r_key(s, p2, 10)->Ok_0;
    lemma_r_fixed_ext(t, s, p3, 16);
}

proof fn lemma_content_ext(t: Seq<u8>, s: Seq<u8>, ct: u64, p: int)
    requires
        extends(t, s),
        decode_content(s, ct, p) is Ok,
    ensures
        decode_content(t, ct, p) == decode_content(s, ct, p),
        decode_content(s, ct, p)->Ok_0.1 <= s.len(),
{
    reveal(decode_content);
    if ct == 0 {
        lemma_r_key_ext(t, s, p, 9);
        let p1 = r_key(s, p, 9)->Ok_0;
        lemma_r_text_ext(t, s, p1);
    } else if ct == 1 || ct == 2 {
        lemma_confirm_ext(t, s, p);
    } else {
        lemma_hint_ext(t, s, p);
    }
}

/// No proper prefix of the encoding of a valid inner message decodes: the
/// decoder stops with an error on every shorter input.
pub proof fn law_inner_prefix_rejected(m: InnerView, k: int)
    requires
        inner_valid(m),
        0 <= k < inner_bytes(m).len(),
    ensures
        spec_decode_inner(inner_bytes(m).take(k)) is Err,
{
    let b = inner_bytes(m);
    let s = b.take(k);
    law_inner_roundtrip(m);
    if spec_decode_inner(s) is Ok {
        reveal(spec_decode_inner);
        assert(b.subrange(0, s.len() as int) =~= s);
        assert(extends(b, s));
        lemma_prefix_ext(b, s);
        let (ct, p) = decode_prefix(s)->Ok_0;
        lemma_versions_ext(b, s, p);
        let p1 = decode_versions(s, p)->Ok_0;
        lemma_common_ext(b, s, p1);
        let q = decode_common(s, p1)->Ok_0.1;
        lemma_content_ext(b, s, ct, q);
        assert(decode_content(b, ct, q)->Ok_0.1 == s.len());
        assert(false);
    }
}

} // verus!
