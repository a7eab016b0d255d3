//! Canonical CBOR item heads (RFC 8949, section 4.2.1): the building block of
//! every deterministic binary format in this crate.
use vstd::prelude::*;

verus! {

pub open spec fn pow256(k: nat) -> nat
    decreases k,
{
    if k == 0 {
        1
    } else {
        256 * pow256((k - 1) as nat)
    }
}

/// Unsigned big-endian value of a byte sequence.
pub open spec fn be_value(s: Seq<u8>) -> nat
    decreases s.len(),
{
    if s.len() == 0 {
        0
    } else {
        be_value(s.drop_last()) * 256 + s.last() as nat
    }
}

/// The `k` low-order bytes of `n`, most significant first.
pub open spec fn be_bytes(n: nat, k: nat) -> Seq<u8>
    decreases k,
{
    if k == 0 {
        Seq::empty()
    } else {
        be_bytes(n / 256, (k - 1) as nat).push((n % 256) as u8)
    }
}

/// Number of argument bytes in the shortest head for `n`.
pub open spec fn arg_width(n: u64) -> nat {
    if n < 24 {
        0
    } else if n < 256 {
        1
    } else if n < 65536 {
        2
    } else if n < 0x1_0000_0000 {
        4
    } else {
        8
    }
}

/// Additional-information value of the shortest head for `n`.
pub open spec fn short_info(n: u64) -> u8 {
    if n < 24 {
        n as u8
    } else if n < 256 {
        24
    } else if n < 65536 {
        25
    } else if n < 0x1_0000_0000 {
        26
    } else {
        27
    }
}

/// The shortest (canonical) head of major type `major` with argument `n`.
pub open spec fn head(major: u8, n: u64) -> Seq<u8> {
    seq![(major * 32 + short_info(n)) as u8] + be_bytes(n as nat, arg_width(n))
}

/// Argument bytes announced by additional information `info`; `-1` for the
/// reserved values and the indefinite marker.
pub open spec fn width_of_info(info: u8) -> int {
    if info < 24 {
        0
    } else if info == 24 {
        1
    } else if info == 25 {
        2
    } else if info == 26 {
        4
    } else if info == 27 {
        8
    } else {
        -1
    }
}

/// The head starting at `pos`, in any width: major type, argument and the
/// position after it; `None` when the input ends early or the additional
/// information is reserved or indefinite.
pub open spec fn read_head(s: Seq<u8>, pos: int) -> Option<(u8, u64, int)> {
    if pos < 0 || pos >= s.len() {
        None
    } else {
        let b = s[pos];
        let info = b % 32;
        let w = width_of_info(info);
        if w < 0 || pos + 1 + w > s.len() {
            None
        } else {
            let arg: u64 = if info < 24 {
                info as u64
            } else {
                be_value(s.subrange(pos + 1, pos + 1 + w)) as u64
            };
            Some(((b / 32) as u8, arg, pos + 1 + w))
        }
    }
}

/// The head at `pos` is the canonical head of its own value.
pub open spec fn canonical_at(s: Seq<u8>, pos: int, major: u8, arg: u64, end: int) -> bool {
    s.subrange(pos, end) == head(major, arg)
}

pub proof fn lemma_pow256_facts()
    ensures
        pow256(0) == 1,
        pow256(1) == 256,
        pow256(2) == 65536,
        pow256(4) == 0x1_0000_0000,
        pow256(8) == 0x1_0000_0000_0000_0000,
{
    reveal_with_fuel(pow256, 9);
}

pub proof fn lemma_pow256_monotone(a: nat, b: nat)
    requires
        a <= b,
    ensures
        pow256(a) <= pow256(b),
        pow256(a) >= 1,
    decreases b,
{
    if b > a {
        lemma_pow256_monotone(a, (b - 1) as nat);
    } else if a > 0 {
        lemma_pow256_monotone((a - 1) as nat, (a - 1) as nat);
    }
}

/// The big-endian value of `k` bytes is below `256^k`.
pub proof fn lemma_be_value_bound(s: Seq<u8>)
    ensures
        be_value(s) < pow256(s.len()),
    decreases s.len(),
{
    if s.len() > 0 {
        lemma_be_value_bound(s.drop_last());
    }
}

/// Writing `n` in `k` bytes and reading it back gives `n` when it fits.
pub proof fn lemma_be_roundtrip(n: nat, k: nat)
    requires
        n < pow256(k),
    ensures
        be_bytes(n, k).len() == k,
        be_value(be_bytes(n, k)) == n,
    decreases k,
{
    if k > 0 {
        assert(n / 256 < pow256((k - 1) as nat));
        lemma_be_roundtrip(n / 256, (k - 1) as nat);
        let b = be_bytes(n, k);
        assert(b.drop_last() =~= be_bytes(n / 256, (k - 1) as nat));
    }
}

/// Reading bytes as a number and writing the number back gives the bytes.
pub proof fn lemma_be_bytes_of_value(s: Seq<u8>)
    ensures
        be_bytes(be_value(s), s.len()) == s,
    decreases s.len(),
{
    if s.len() > 0 {
        let d = s.drop_last();
        lemma_be_bytes_of_value(d);
        let v = be_value(s);
        assert(v / 256 == be_value(d));
        assert(v % 256 == s.last());
        assert(be_bytes(v, s.len()) =~= d.push(s.last()));
        assert(d.push(s.last()) =~= s);
    }
}

/// Shape of a canonical head.
pub proof fn lemma_head_shape(major: u8, n: u64)
    requires
        major < 8,
    ensures
        head(major, n).len() == 1 + arg_width(n),
        head(major, n)[0] == major * 32 + short_info(n),
        head(major, n)[0] / 32 == major,
        head(major, n)[0] % 32 == short_info(n),
        width_of_info(short_info(n)) == arg_width(n),
        head(major, n).subrange(1, 1 + arg_width(n) as int) == be_bytes(n as nat, arg_width(n)),
        be_value(be_bytes(n as nat, arg_width(n))) == (if n < 24 { 0 } else { n as nat }),
{
    lemma_pow256_facts();
    if n < 24 {
        assert(be_bytes(n as nat, 0) =~= Seq::<u8>::empty());
    } else {
        let w = arg_width(n);
        assert(n < pow256(w));
        lemma_be_roundtrip(n as nat, w);
    }
    let h = head(major, n);
    assert(h.subrange(1, 1 + arg_width(n) as int) =~= be_bytes(n as nat, arg_width(n)));
}

/// A canonical head placed at `pos` is read back with its major type and value.
pub proof fn lemma_read_canonical_head(s: Seq<u8>, pos: int, major: u8, n: u64)
    requires
        major < 8,
        0 <= pos,
        pos + head(major, n).len() <= s.len(),
        s.subrange(pos, pos + head(major, n).len()) == head(major, n),
    ensures
        read_head(s, pos) == Some((major, n, pos + head(major, n).len())),
        canonical_at(s, pos, major, n, pos + head(major, n).len()),
        s[pos] == head(major, n)[0],
{
    lemma_head_shape(major, n);
    let h = head(major, n);
    assert(s[pos] == s.subrange(pos, pos + h.len())[0]);
    let w = arg_width(n) as int;
    if n >= 24 {
        assert(s.subrange(pos + 1, pos + 1 + w) =~= h.subrange(1, 1 + w));
    }
}

/// Appends the canonical head of `(major, n)`.
pub fn push_head(out: &mut Vec<u8>, major: u8, n: u64)
    requires
        major < 8,
    ensures
        final(out)@ == old(out)@ + head(major, n),
{
    let info: u8;
    let width: usize;
    if n < 24 {
        info = n as u8;
        width = 0;
    } else if n < 256 {
        info = 24;
        width = 1;
    } else if n < 65536 {
        info = 25;
        width = 2;
    } else if n < 0x1_0000_0000 {
        info = 26;
        width = 4;
    } else {
        info = 27;
        width = 8;
    }
    out.push(major * 32 + info);
    push_be(out, n, width);
    assert(final(out)@ =~= old(out)@ + head(major, n));
}

fn push_be(out: &mut Vec<u8>, n: u64, k: usize)
    requires
        k <= 8,
    ensures
        final(out)@ == old(out)@ + be_bytes(n as nat, k as nat),
    decreases k,
{
    if k > 0 {
        push_be(out, n / 256, k - 1);
        out.push((n % 256) as u8);
        assert(final(out)@ =~= old(out)@ + be_bytes(n as nat, k as nat));
    } else {
        assert(final(out)@ =~= old(out)@ + be_bytes(n as nat, k as nat));
    }
}

/// Reads the head at `pos` in any width.
pub fn read_head_at(input: &[u8], pos: usize) -> (result: Option<(u8, u64, usize)>)
    ensures
        match read_head(input@, pos as int) {
            None => result is None,
            Some((m, v, end)) => result == Some((m, v, end as usize)),
        },
{
    if pos >= input.len() {
        return None;
    }
    let b = input[pos];
    let info = b % 32;
    let width: usize = if info < 24 {
        0
    } else if info == 24 {
        1
    } else if info == 25 {
        2
    } else if info == 26 {
        4
    } else if info == 27 {
        8
    } else {
        return None;
    };
    if width > input.len() - pos - 1 {
        return None;
    }
    if info < 24 {
        return Some((b / 32, info as u64, pos + 1));
    }
    let start = pos + 1;
    let stop = start + width;
    let mut acc: u64 = 0;
    let mut i: usize = start;
    proof {
        lemma_pow256_facts();
        assert(input@.subrange(start as int, start as int) =~= Seq::<u8>::empty());
    }
    while i < stop
        invariant
            start == pos + 1,
            stop == start + width,
            width <= 8,
            start + width <= input@.len(),
            start <= i <= start + width,
            acc == be_value(input@.subrange(start as int, i as int)),
            acc < pow256((i - start) as nat),
        decreases start + width - i,
    {
        proof {
            lemma_pow256_monotone((i - start) as nat, 7);
            reveal_with_fuel(pow256, 8);
            let sub = input@.subrange(start as int, i as int + 1);
            assert(sub.drop_last() =~= input@.subrange(start as int, i as int));
        }
        acc = acc * 256 + input[i] as u64;
        i = i + 1;
    }
    Some((b / 32, acc, stop))
}

/// `input[pos..end]` equals the canonical head of `(major, n)`.
pub fn check_canonical(input: &[u8], pos: usize, end: usize, major: u8, n: u64) -> (canonical: bool)
    requires
        pos <= end <= input@.len(),
        major < 8,
    ensures
        canonical == canonical_at(input@, pos as int, major, n, end as int),
{
    let mut expected: Vec<u8> = Vec::new();
    push_head(&mut expected, major, n);
    assert(expected@ =~= head(major, n));
    if expected.len() != end - pos {
        return false;
    }
    let mut i: usize = 0;
    while i < expected.len()
        invariant
            expected@ == head(major, n),
            expected@.len() == end - pos,
            pos <= end <= input@.len(),
            0 <= i <= expected@.len(),
            forall|k: int| 0 <= k < i ==> input@[pos + k] == expected@[k],
        decreases expected@.len() - i,
    {
        if input[pos + i] != expected[i] {
            return false;
        }
        i = i + 1;
    }
    assert(input@.subrange(pos as int, end as int) =~= expected@);
    true
}

/// Equality of two byte slices.
pub fn slices_equal(a: &[u8], b: &[u8]) -> (same: bool)
    ensures
        same == (a@ == b@),
{
    if a.len() != b.len() {
        return false;
    }
    let mut i: usize = 0;
    while i < a.len()
        invariant
            a@.len() == b@.len(),
            0 <= i <= a@.len(),
            forall|k: int| 0 <= k < i ==> a@[k] == b@[k],
        decreases a@.len() - i,
    {
        if a[i] != b[i] {
            return false;
        }
        i = i + 1;
    }
    assert(a@ =~= b@);
    true
}

/// Appends a byte slice.
pub fn push_all(out: &mut Vec<u8>, bytes: &[u8])
    ensures
        final(out)@ == old(out)@ + bytes@,
{
    let mut i: usize = 0;
    while i < bytes.len()
        invariant
            0 <= i <= bytes@.len(),
            out@ == old(out)@ + bytes@.take(i as int),
        decreases bytes@.len() - i,
    {
        out.push(bytes[i]);
        i = i + 1;
        assert(out@ =~= old(out)@ + bytes@.take(i as int));
    }
    assert(bytes@.take(bytes@.len() as int) =~= bytes@);
}

/// Copies `input[start..end]` into a new vector.
pub fn copy_range(input: &[u8], start: usize, end: usize) -> (out: Vec<u8>)
    requires
        start <= end <= input@.len(),
    ensures
        out@ == input@.subrange(start as int, end as int),
{
    let mut out: Vec<u8> = Vec::new();
    let mut i: usize = start;
    while i < end
        invariant
            start <= i <= end <= input@.len(),
            out@ == input@.subrange(start as int, i as int),
        decreases end - i,
    {
        out.push(input[i]);
        i = i + 1;
        assert(out@ =~= input@.subrange(start as int, i as int));
    }
    out
}

} // verus!
