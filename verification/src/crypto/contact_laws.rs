//! What the contact bundle decoder gives back of the encoder's output.
use vstd::prelude::*;

use super::contact::{
    bundle_versions, decode_invitation_rest, decode_response_rest, invitation_authentic,
    invitation_body, invitation_from, invitation_signed, invite_lens, key_bytes, r_array_version,
    r_fields, r_plain_version, r_version_value, r_versions, response_authentic, response_body,
    response_from, response_lens, response_signed, spec_decode_bundle, version_item, BundleView,
    InvitationView, ResponseView, BUNDLE_VERSION, INVITE_KIND, RESPONSE_KIND, SIGNED_FIELDS,
};
use super::inner::{at, b_item, lemma_at_split, lemma_fixed_at, lemma_uint_at, u_item};
use super::items::{r_key, r_uint};
use super::CryptoError;
use crate::cbor::{head, lemma_read_canonical_head, read_head};

verus! {

/// Keys 5 onward with their byte strings, for the first `k` fields.
pub open spec fn fields_bytes(fs: Seq<Seq<u8>>, k: nat) -> Seq<u8>
    decreases k,
{
    if k == 0 || k > fs.len() {
        Seq::empty()
    } else {
        fields_bytes(fs, (k - 1) as nat) + key_bytes((5 + k - 1) as u64, fs[k - 1])
    }
}

/// Keys 2 onward with their version values, for the first `n` of them.
pub open spec fn versions_bytes(arrays: bool, n: nat) -> Seq<u8>
    decreases n,
{
    if n == 0 {
        Seq::empty()
    } else {
        versions_bytes(arrays, (n - 1) as nat) + u_item((n + 1) as u64) + version_item(arrays)
    }
}

proof fn lemma_version_value_at(s: Seq<u8>, p: int, arrays: bool)
    requires
        at(s, p, version_item(arrays)),
    ensures
        r_version_value(s, p, arrays) == Ok::<int, CryptoError>(p + version_item(arrays).len()),
{
    if arrays {
        lemma_at_split(s, p, head(4, 1), head(0, 1));
        lemma_read_canonical_head(s, p, 4, 1);
        lemma_uint_at(s, p + head(4, 1).len(), 1);
    } else {
        lemma_uint_at(s, p, 1);
    }
}

proof fn lemma_versions_read(s: Seq<u8>, p: int, arrays: bool, n: nat)
    requires
        at(s, p, versions_bytes(arrays, n)),
    ensures
        r_versions(s, p, arrays, n) == Ok::<int, CryptoError>(p + versions_bytes(arrays, n).len()),
    decreases n,
{
    if n > 0 {
        let prev = versions_bytes(arrays, (n - 1) as nat);
        let step = u_item((n + 1) as u64) + version_item(arrays);
        assert(versions_bytes(arrays, n) =~= prev + step);
        lemma_at_split(s, p, prev, step);
        lemma_versions_read(s, p, arrays, (n - 1) as nat);
        lemma_at_split(s, p + prev.len(), u_item((n + 1) as u64), version_item(arrays));
        lemma_uint_at(s, p + prev.len(), (n + 1) as u64);
        lemma_version_value_at(s, p + prev.len() + u_item((n + 1) as u64).len(), arrays);
    }
}

proof fn lemma_fields_read(s: Seq<u8>, q: int, lens: Seq<usize>, fs: Seq<Seq<u8>>, k: nat)
    requires
        lens.len() == fs.len(),
        k <= lens.len(),
        lens.len() < 16,
        forall|j: int| 0 <= j < fs.len() ==> #[trigger] fs[j].len() == lens[j],
        forall|j: int| 0 <= j < fs.len() ==> #[trigger] lens[j] < 256,
        at(s, q, fields_bytes(fs, k)),
    ensures
        r_fields(s, q, lens.take(k as int)) == Ok::<(Seq<Seq<u8>>, int), CryptoError>(
            (fs.take(k as int), q + fields_bytes(fs, k).len()),
        ),
    decreases k,
{
    if k == 0 {
        assert(lens.take(0) =~= Seq::<usize>::empty());
        assert(fs.take(0) =~= Seq::<Seq<u8>>::empty());
    } else {
        let i = k - 1;
        let prev = fields_bytes(fs, i as nat);
        let b = fs[i as int];
        let step = key_bytes((5 + i) as u64, b);
        assert(step =~= u_item((5 + i) as u64) + b_item(b));
        assert(fields_bytes(fs, k) =~= prev + step);
        lemma_at_split(s, q, prev, step);
        lemma_fields_read(s, q, lens, fs, i as nat);
        lemma_at_split(s, q + prev.len(), u_item((5 + i) as u64), b_item(b));
        lemma_uint_at(s, q + prev.len(), (5 + i) as u64);
        lemma_fixed_at(s, q + prev.len() + u_item((5 + i) as u64).len(), b);
        assert(lens.take(k as int).drop_last() =~= lens.take(i as int));
        assert(lens.take(k as int).last() == lens[i as int]);
        assert(fs.take(i as int).push(b) =~= fs.take(k as int));
    }
}

/// The fields of an invitation in key order, keys 5 to 12.
pub open spec fn invitation_fields(v: InvitationView) -> Seq<Seq<u8>> {
    seq![
        v.invitation_id,
        v.signing_identity_key,
        v.curve_identity_key,
        v.one_time_key,
        v.sas_key,
        v.invitation_secret,
        v.inbound_recipient_hint,
        v.signature,
    ]
}

/// The fields of a response in key order, keys 5 to 12.
pub open spec fn response_fields(v: ResponseView) -> Seq<Seq<u8>> {
    seq![
        v.response_id,
        v.invitation_id,
        v.signing_identity_key,
        v.curve_identity_key,
        v.sas_key,
        v.response_secret,
        v.inbound_recipient_hint,
        v.signature,
    ]
}

/// An invitation's fields have the lengths of its format.
pub open spec fn invitation_shaped(v: InvitationView) -> bool {
    forall|j: int| 0 <= j < 8 ==> #[trigger] invitation_fields(v)[j].len() == invite_lens()[j]
}

/// A response's fields have the lengths of its format.
pub open spec fn response_shaped(v: ResponseView) -> bool {
    forall|j: int| 0 <= j < 8 ==> #[trigger] response_fields(v)[j].len() == response_lens()[j]
}

proof fn lemma_fields_unfold(fs: Seq<Seq<u8>>)
    requires
        fs.len() == 8,
    ensures
        fields_bytes(fs, 8) =~= key_bytes(5, fs[0]) + key_bytes(6, fs[1]) + key_bytes(7, fs[2])
            + key_bytes(8, fs[3]) + key_bytes(9, fs[4]) + key_bytes(10, fs[5]) + key_bytes(
            11,
            fs[6],
        ) + key_bytes(12, fs[7]),
{
    reveal_with_fuel(fields_bytes, 9);
}

proof fn lemma_prefix_read(s: Seq<u8>, kind: u64, arrays: bool)
    requires
        kind < 2,
        at(s, 0, head(5, SIGNED_FIELDS) + u_item(0) + u_item(BUNDLE_VERSION) + u_item(1) + u_item(kind)
            + versions_bytes(arrays, 3)),
    ensures
        read_head(s, 0) == Some((5u8, SIGNED_FIELDS, 1int)),
        r_key(s, 1, 0) == Ok::<int, CryptoError>(2),
        r_uint(s, 2) == Ok::<(u64, int), CryptoError>((BUNDLE_VERSION, 3)),
        r_key(s, 3, 1) == Ok::<int, CryptoError>(4),
        r_uint(s, 4) == Ok::<(u64, int), CryptoError>((kind, 5)),
        r_versions(s, 5, arrays, 3) == Ok::<int, CryptoError>(5int + versions_bytes(arrays, 3).len()),
{
    crate::cbor::lemma_head_shape(5, SIGNED_FIELDS);
    crate::cbor::lemma_head_shape(0, 0);
    crate::cbor::lemma_head_shape(0, 1);
    crate::cbor::lemma_head_shape(0, kind);
    let a = head(5, SIGNED_FIELDS);
    let rest1 = u_item(0) + u_item(BUNDLE_VERSION) + u_item(1) + u_item(kind) + versions_bytes(
        arrays,
        3,
    );
    assert(head(5, SIGNED_FIELDS) + u_item(0) + u_item(BUNDLE_VERSION) + u_item(1) + u_item(kind)
        + versions_bytes(arrays, 3) =~= a + rest1);
    lemma_at_split(s, 0, a, rest1);
    lemma_read_canonical_head(s, 0, 5, SIGNED_FIELDS);
    let rest2 = u_item(BUNDLE_VERSION) + u_item(1) + u_item(kind) + versions_bytes(arrays, 3);
    assert(rest1 =~= u_item(0) + rest2);
    lemma_at_split(s, 1, u_item(0), rest2);
    lemma_uint_at(s, 1, 0);
    let rest3 = u_item(1) + u_item(kind) + versions_bytes(arrays, 3);
    assert(rest2 =~= u_item(BUNDLE_VERSION) + rest3);
    lemma_at_split(s, 2, u_item(BUNDLE_VERSION), rest3);
    lemma_uint_at(s, 2, BUNDLE_VERSION);
    let rest4 = u_item(kind) + versions_bytes(arrays, 3);
    assert(rest3 =~= u_item(1) + rest4);
    lemma_at_split(s, 3, u_item(1), rest4);
    lemma_uint_at(s, 3, 1);
    lemma_at_split(s, 4, u_item(kind), versions_bytes(arrays, 3));
    lemma_uint_at(s, 4, kind);
    lemma_versions_read(s, 5, arrays, 3);
}

proof fn lemma_versions_unfold(kind: u64, arrays: bool)
    ensures
        bundle_versions(kind, arrays) =~= u_item(0) + u_item(BUNDLE_VERSION) + u_item(1) + u_item(
            kind,
        ) + versions_bytes(arrays, 3),
{
    reveal_with_fuel(versions_bytes, 4);
}

/// Keys 0 to 4 of a bundle after its map head.
pub open spec fn prefix_bytes(kind: u64, arrays: bool) -> Seq<u8> {
    head(5, SIGNED_FIELDS) + u_item(0) + u_item(BUNDLE_VERSION) + u_item(1) + u_item(kind)
        + versions_bytes(arrays, 3)
}

proof fn lemma_invitation_layout(v: InvitationView)
    ensures
        invitation_signed(v) =~= prefix_bytes(INVITE_KIND, true) + fields_bytes(
            invitation_fields(v),
            8,
        ),
{
    lemma_versions_unfold(INVITE_KIND, true);
    lemma_fields_unfold(invitation_fields(v));
}

#[verifier::rlimit(40)]
proof fn lemma_response_layout(v: ResponseView)
    ensures
        response_signed(v) =~= prefix_bytes(RESPONSE_KIND, false) + fields_bytes(
            response_fields(v),
            8,
        ),
{
    lemma_versions_unfold(RESPONSE_KIND, false);
    lemma_fields_unfold(response_fields(v));
}

/// Reading a bundle laid out as its prefix followed by its fields.
proof fn lemma_bundle_reads(s: Seq<u8>, kind: u64, arrays: bool, lens: Seq<usize>, fs: Seq<Seq<u8>>)
    requires
        kind < 2,
        lens.len() == 8,
        fs.len() == 8,
        forall|j: int| 0 <= j < 8 ==> #[trigger] fs[j].len() == lens[j],
        forall|j: int| 0 <= j < 8 ==> #[trigger] lens[j] < 256,
        s == prefix_bytes(kind, arrays) + fields_bytes(fs, 8),
    ensures
        read_head(s, 0) == Some((5u8, SIGNED_FIELDS, 1int)),
        r_key(s, 1, 0) == Ok::<int, CryptoError>(2),
        r_uint(s, 2) == Ok::<(u64, int), CryptoError>((BUNDLE_VERSION, 3)),
        r_key(s, 3, 1) == Ok::<int, CryptoError>(4),
        r_uint(s, 4) == Ok::<(u64, int), CryptoError>((kind, 5)),
        r_versions(s, 5, arrays, 3) == Ok::<int, CryptoError>(prefix_bytes(kind, arrays).len() as int),
        r_fields(s, prefix_bytes(kind, arrays).len() as int, lens) == Ok::<
            (Seq<Seq<u8>>, int),
            CryptoError,
        >((fs, s.len() as int)),
{
    let pre = prefix_bytes(kind, arrays);
    assert(s.subrange(0, s.len() as int) =~= s);
    lemma_at_split(s, 0, pre, fields_bytes(fs, 8));
    lemma_prefix_read(s, kind, arrays);
    crate::cbor::lemma_head_shape(5, SIGNED_FIELDS);
    crate::cbor::lemma_head_shape(0, 0);
    crate::cbor::lemma_head_shape(0, 1);
    crate::cbor::lemma_head_shape(0, kind);
    lemma_fields_read(s, pre.len() as int, lens, fs, 8);
    assert(lens.take(8) =~= lens);
    assert(fs.take(8) =~= fs);
}

/// Decoding the canonical encoding of an authentic invitation whose fields
/// have the lengths of the format gives the invitation back.
pub proof fn law_invitation_roundtrip(v: InvitationView)
    requires
        invitation_shaped(v),
        invitation_authentic(v),
    ensures
        spec_decode_bundle(invitation_signed(v)) == Ok::<BundleView, CryptoError>(
            BundleView::Invitation(v),
        ),
{
    let s = invitation_signed(v);
    let fs = invitation_fields(v);
    let lens = invite_lens();
    assert forall|j: int| 0 <= j < 8 implies #[trigger] fs[j].len() == lens[j] by {
        assert(invitation_fields(v)[j].len() == invite_lens()[j]);
    }
    assert forall|j: int| 0 <= j < 8 implies #[trigger] lens[j] < 256 by {}
    lemma_invitation_layout(v);
    lemma_bundle_reads(s, INVITE_KIND, true, lens, fs);
    assert(invitation_from(fs) == v);
    let q = prefix_bytes(INVITE_KIND, true).len() as int;
    assert(decode_invitation_rest(s, 5) == Ok::<BundleView, CryptoError>(BundleView::Invitation(v)))
        by {
        reveal(decode_invitation_rest);
    }
    reveal(spec_decode_bundle);
}

/// Decoding the canonical encoding of an authentic response whose fields
/// have the lengths of the format gives the response back.
pub proof fn law_response_roundtrip(v: ResponseView)
    requires
        response_shaped(v),
        response_authentic(v),
    ensures
        spec_decode_bundle(response_signed(v)) == Ok::<BundleView, CryptoError>(
            BundleView::Response(v),
        ),
{
    let s = response_signed(v);
    let fs = response_fields(v);
    let lens = response_lens();
    assert forall|j: int| 0 <= j < 8 implies #[trigger] fs[j].len() == lens[j] by {
        assert(response_fields(v)[j].len() == response_lens()[j]);
    }
    assert forall|j: int| 0 <= j < 8 implies #[trigger] lens[j] < 256 by {}
    lemma_response_layout(v);
    lemma_bundle_reads(s, RESPONSE_KIND, false, lens, fs);
    assert(response_from(fs) == v);
    assert(decode_response_rest(s, 5) == Ok::<BundleView, CryptoError>(BundleView::Response(v)))
        by {
        reveal(decode_response_rest);
    }
    reveal(spec_decode_bundle);
}

/// Whatever the decoder accepts is exactly the canonical encoding of what it
/// returns: no two byte strings decode to the same bundle.
pub proof fn law_bundle_canonical(s: Seq<u8>)
    requires
        spec_decode_bundle(s) is Ok,
    ensures
        match spec_decode_bundle(s) {
            Ok(BundleView::Invitation(v)) => s == invitation_signed(v) && invitation_authentic(v),
            Ok(BundleView::Response(v)) => s == response_signed(v) && response_authentic(v),
            Err(_) => false,
        },
{
    reveal(spec_decode_bundle);
    reveal(decode_invitation_rest);
    reveal(decode_response_rest);
}

} // verus!
