//! OER-style encoding primitives.
//!
//! ILP packets use length-prefixed variable-length fields: the length is one
//! byte `n` when `n < 128`, and otherwise a byte `0x80 | k` followed by the
//! `k`-byte big-endian value of the length, with `k` minimal.  Every field of
//! this protocol is shorter than 65536 bytes, so the canonical prefix never
//! needs more than two length bytes; the readers here reject longer or
//! non-canonical prefixes.

use vstd::prelude::*;

verus! {

/// The canonical OER length prefix for a field of `n` bytes.
pub open spec fn spec_len_prefix(n: int) -> Seq<u8>
    recommends
        0 <= n < 65536,
{
    if n < 128 {
        seq![n as u8]
    } else if n < 256 {
        seq![0x81u8, n as u8]
    } else {
        seq![0x82u8, (n / 256) as u8, (n % 256) as u8]
    }
}

/// A var-octet string: the canonical length prefix, then the bytes.
pub open spec fn spec_var_octet(s: Seq<u8>) -> Seq<u8> {
    spec_len_prefix(s.len() as int) + s
}

/// Reads a canonical length prefix at offset `i` of `s`: the length and the
/// number of prefix bytes, or `None` when the prefix is truncated,
/// non-canonical, or wider than two length bytes.
pub open spec fn spec_parse_len_prefix(s: Seq<u8>, i: int) -> Option<(int, int)>
    recommends
        0 <= i,
{
    if i < s.len() {
        if s[i] < 128 {
            Some((s[i] as int, 1))
        } else if s[i] == 0x81 {
            if i + 1 < s.len() && s[i + 1] >= 128 {
                Some((s[i + 1] as int, 2))
            } else {
                None
            }
        } else if s[i] == 0x82 {
            if i + 2 < s.len() && s[i + 1] >= 1 {
                Some(((s[i + 1] as int) * 256 + (s[i + 2] as int), 3))
            } else {
                None
            }
        } else {
            None
        }
    } else {
        None
    }
}

/// Reading a canonical length prefix recovers the length it was written for.
pub proof fn lemma_parse_len_prefix(s: Seq<u8>, i: int, n: int)
    requires
        0 <= n < 65536,
        0 <= i,
        i + spec_len_prefix(n).len() <= s.len(),
        s.subrange(i, i + spec_len_prefix(n).len() as int) == spec_len_prefix(n),
    ensures
        spec_parse_len_prefix(s, i) == Some((n, spec_len_prefix(n).len() as int)),
{
    let p = spec_len_prefix(n);
    let sub = s.subrange(i, i + p.len() as int);
    if n < 128 {
        assert(s[i] == sub[0]);
    } else if n < 256 {
        assert(s[i] == sub[0] && s[i + 1] == sub[1]);
    } else {
        assert(s[i] == sub[0] && s[i + 1] == sub[1] && s[i + 2] == sub[2]);
        assert(n / 256 >= 1 && n / 256 < 256 && n % 256 < 256);
        assert((n / 256) * 256 + n % 256 == n);
    }
}

/// Reading a var-octet string written at offset `i` recovers its body.
pub proof fn lemma_parse_var_octet(s: Seq<u8>, i: int, body: Seq<u8>)
    requires
        body.len() < 65536,
        0 <= i,
        i + spec_var_octet(body).len() <= s.len(),
        s.subrange(i, i + spec_var_octet(body).len() as int) == spec_var_octet(body),
    ensures
        spec_parse_len_prefix(s, i) == Some(
            (body.len() as int, spec_len_prefix(body.len() as int).len() as int),
        ),
        s.subrange(
            i + spec_len_prefix(body.len() as int).len(),
            i + spec_var_octet(body).len(),
        ) == body,
{
    let n = body.len() as int;
    let p = spec_len_prefix(n);
    let v = spec_var_octet(body);
    assert(s.subrange(i, i + p.len() as int) =~= v.subrange(0, p.len() as int));
    assert(v.subrange(0, p.len() as int) =~= p);
    lemma_parse_len_prefix(s, i, n);
    assert forall|k: int| 0 <= k < body.len() implies s[i + p.len() + k] == body[k] by {
        assert(s.subrange(i, i + v.len() as int)[p.len() + k] == s[i + p.len() + k]);
        assert(v[p.len() + k] == body[k]);
    }
    assert(s.subrange(i + p.len(), i + v.len()) =~= body);
}

/// The eight bytes of `n`, most significant first.
pub open spec fn spec_u64_be(n: u64) -> Seq<u8> {
    seq![
        (n >> 56) as u8,
        (n >> 48) as u8,
        (n >> 40) as u8,
        (n >> 32) as u8,
        (n >> 24) as u8,
        (n >> 16) as u8,
        (n >> 8) as u8,
        n as u8,
    ]
}

/// The value of eight big-endian bytes.
pub open spec fn spec_be_u64(s: Seq<u8>) -> u64
    recommends
        s.len() == 8,
{
    ((s[0] as u64) << 56) | ((s[1] as u64) << 48) | ((s[2] as u64) << 40) | ((s[3] as u64) << 32)
        | ((s[4] as u64) << 24) | ((s[5] as u64) << 16) | ((s[6] as u64) << 8) | (s[7] as u64)
}

/// Reading the eight big-endian bytes of `n` gives back `n`.
pub proof fn lemma_be_u64_round_trip(n: u64)
    ensures
        spec_be_u64(spec_u64_be(n)) == n,
{
    assert((((n >> 56) as u8 as u64) << 56) | (((n >> 48) as u8 as u64) << 48) | (((n >> 40)
        as u8 as u64) << 40) | (((n >> 32) as u8 as u64) << 32) | (((n >> 24) as u8 as u64) << 24)
        | (((n >> 16) as u8 as u64) << 16) | (((n >> 8) as u8 as u64) << 8) | (n as u8 as u64)
        == n) by (bit_vector);
}

/// Appends the canonical length prefix for `n` to `out`.
pub fn write_len_prefix(out: &mut Vec<u8>, n: usize)
    requires
        n < 65536,
    ensures
        final(out)@ == old(out)@ + spec_len_prefix(n as int),
{
    if n < 128 {
        out.push(n as u8);
    } else if n < 256 {
        out.push(0x81);
        out.push(n as u8);
    } else {
        out.push(0x82);
        out.push((n / 256) as u8);
        out.push((n % 256) as u8);
    }
    assert(out@ =~= old(out)@ + spec_len_prefix(n as int));
}

/// Appends the var-octet encoding of `s` to `out`.
pub fn write_var_octet(out: &mut Vec<u8>, s: &Vec<u8>)
    requires
        s@.len() < 65536,
    ensures
        final(out)@ == old(out)@ + spec_var_octet(s@),
{
    write_len_prefix(out, s.len());
    let mut i: usize = 0;
    while i < s.len()
        invariant
            i <= s@.len(),
            s@.len() < 65536,
            out@ == old(out)@ + spec_len_prefix(s@.len() as int) + s@.subrange(0, i as int),
        decreases s@.len() - i,
    {
        out.push(s[i]);
        i = i + 1;
        assert(out@ =~= old(out)@ + spec_len_prefix(s@.len() as int) + s@.subrange(0, i as int));
    }
    assert(s@.subrange(0, s@.len() as int) =~= s@);
    assert(out@ =~= old(out)@ + spec_var_octet(s@));
}

/// Appends all of `s` to `out`.
pub fn append_bytes(out: &mut Vec<u8>, s: &Vec<u8>)
    ensures
        final(out)@ == old(out)@ + s@,
{
    let mut i: usize = 0;
    while i < s.len()
        invariant
            i <= s@.len(),
            out@ == old(out)@ + s@.subrange(0, i as int),
        decreases s@.len() - i,
    {
        out.push(s[i]);
        i = i + 1;
        assert(out@ =~= old(out)@ + s@.subrange(0, i as int));
    }
    assert(out@ =~= old(out)@ + s@);
}

/// The bytes of `s` from `start` (inclusive) to `end` (exclusive), as a new
/// vector.
pub fn subvec(s: &Vec<u8>, start: usize, end: usize) -> (r: Vec<u8>)
    requires
        start <= end,
        end <= s@.len(),
    ensures
        r@ == s@.subrange(start as int, end as int),
{
    let n = s.len();
    assert(s@.len() <= usize::MAX);
    let mut r: Vec<u8> = Vec::new();
    let mut i: usize = start;
    while i < end
        invariant
            start <= i <= end,
            end <= s@.len(),
            s@.len() <= usize::MAX,
            r@ == s@.subrange(start as int, i as int),
        decreases end - i,
    {
        r.push(s[i]);
        i = i + 1;
        assert(r@ =~= s@.subrange(start as int, i as int));
    }
    r
}

/// A copy of the byte vector `s`.
pub fn clone_bytes(s: &Vec<u8>) -> (r: Vec<u8>)
    ensures
        r@ == s@,
{
    let r = subvec(s, 0, s.len());
    assert(s@.subrange(0, s@.len() as int) =~= s@);
    r
}

/// Reads a canonical length prefix at offset `i` of `s`.
pub fn read_len_prefix(s: &Vec<u8>, i: usize) -> (r: Option<(usize, usize)>)
    requires
        i <= s@.len(),
    ensures
        match r {
            Some((n, hl)) => {
                &&& spec_parse_len_prefix(s@, i as int) == Some((n as int, hl as int))
                &&& n < 65536
                &&& 1 <= hl <= 3
                &&& i + hl <= s@.len()
            },
            None => spec_parse_len_prefix(s@, i as int) is None,
        },
{
    if i >= s.len() {
        return None;
    }
    let rem = s.len() - i;
    let b = s[i];
    if b < 128 {
        Some((b as usize, 1))
    } else if b == 0x81 {
        if rem >= 2 && s[i + 1] >= 128 {
            Some((s[i + 1] as usize, 2))
        } else {
            None
        }
    } else if b == 0x82 {
        if rem >= 3 && s[i + 1] >= 1 {
            Some(((s[i + 1] as usize) * 256 + (s[i + 2] as usize), 3))
        } else {
            None
        }
    } else {
        None
    }
}

/// Appends the eight big-endian bytes of `n` to `out`.
pub fn write_u64_be(out: &mut Vec<u8>, n: u64)
    ensures
        final(out)@ == old(out)@ + spec_u64_be(n),
{
    out.push((n >> 56) as u8);
    out.push((n >> 48) as u8);
    out.push((n >> 40) as u8);
    out.push((n >> 32) as u8);
    out.push((n >> 24) as u8);
    out.push((n >> 16) as u8);
    out.push((n >> 8) as u8);
    out.push(n as u8);
    assert(out@ =~= old(out)@ + spec_u64_be(n));
}

/// Reads the eight big-endian bytes at offset `i` of `s`.
pub fn read_u64_be(s: &Vec<u8>, i: usize) -> (r: u64)
    requires
        i + 8 <= s@.len(),
    ensures
        r == spec_be_u64(s@.subrange(i as int, i as int + 8)),
{
    let len = s.len();
    assert(i + 8 <= len);
    let r = ((s[i] as u64) << 56) | ((s[i + 1] as u64) << 48) | ((s[i + 2] as u64) << 40) | ((s[i
        + 3] as u64) << 32) | ((s[i + 4] as u64) << 24) | ((s[i + 5] as u64) << 16) | ((s[i + 6]
        as u64) << 8) | (s[i + 7] as u64);
    proof {
        let sub = s@.subrange(i as int, i as int + 8);
        assert(sub[0] == s@[i as int] && sub[1] == s@[i as int + 1] && sub[2] == s@[i as int + 2]
            && sub[3] == s@[i as int + 3] && sub[4] == s@[i as int + 4] && sub[5] == s@[i as int
            + 5] && sub[6] == s@[i as int + 6] && sub[7] == s@[i as int + 7]);
    }
    r
}

} // verus!
