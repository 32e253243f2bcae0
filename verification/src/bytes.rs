//! Big-endian fields and byte runs, the building blocks of every header.
use vstd::prelude::*;

verus! {

/// `n` zero bytes.
pub open spec fn zeros(n: nat) -> Seq<u8> {
    Seq::new(n, |i: int| 0u8)
}

/// The two bytes of `v`, most significant first.
pub open spec fn u16_bytes(v: u16) -> Seq<u8> {
    seq![(v / 256) as u8, (v % 256) as u8]
}

/// The four bytes of `v`, most significant first.
pub open spec fn u32_bytes(v: u32) -> Seq<u8> {
    seq![
        (v / 0x100_0000) as u8,
        ((v / 0x1_0000) % 256) as u8,
        ((v / 256) % 256) as u8,
        (v % 256) as u8,
    ]
}

/// `s` with the big-endian bytes of `v` at offset `i` in place of what was there.
pub open spec fn with_u16_at(s: Seq<u8>, i: int, v: u16) -> Seq<u8> {
    s.subrange(0, i) + u16_bytes(v) + s.skip(i + 2)
}

/// The big-endian 16-bit field at offset `i` of `s`.
pub open spec fn u16_at(s: Seq<u8>, i: int) -> u16 {
    (s[i] * 256 + s[i + 1]) as u16
}

/// The big-endian 32-bit field at offset `i` of `s`.
pub open spec fn u32_at(s: Seq<u8>, i: int) -> u32 {
    (s[i] * 0x100_0000 + s[i + 1] * 0x1_0000 + s[i + 2] * 256 + s[i + 3]) as u32
}

/// Reading a 16-bit field gives back the value whose bytes were written there.
pub proof fn lemma_u16_round_trip(v: u16, s: Seq<u8>, i: int)
    requires
        0 <= i,
        i + 2 <= s.len(),
        s.subrange(i, i + 2) == u16_bytes(v),
    ensures
        u16_at(s, i) == v,
{
    assert(s[i] == s.subrange(i, i + 2)[0]);
    assert(s[i + 1] == s.subrange(i, i + 2)[1]);
}

/// Reading a 32-bit field gives back the value whose bytes were written there.
pub proof fn lemma_u32_round_trip(v: u32, s: Seq<u8>, i: int)
    requires
        0 <= i,
        i + 4 <= s.len(),
        s.subrange(i, i + 4) == u32_bytes(v),
    ensures
        u32_at(s, i) == v,
{
    assert(s[i] == s.subrange(i, i + 4)[0]);
    assert(s[i + 1] == s.subrange(i, i + 4)[1]);
    assert(s[i + 2] == s.subrange(i, i + 4)[2]);
    assert(s[i + 3] == s.subrange(i, i + 4)[3]);
}

/// A 16-bit field holds `v` exactly when its two bytes are those of `v`.
pub proof fn lemma_u16_at_iff(s: Seq<u8>, i: int, v: u16)
    requires
        0 <= i,
        i + 2 <= s.len(),
    ensures
        (u16_at(s, i) == v) == (s.subrange(i, i + 2) == u16_bytes(v)),
{
    if s.subrange(i, i + 2) == u16_bytes(v) {
        lemma_u16_round_trip(v, s, i);
    }
    if u16_at(s, i) == v {
        let a = s[i] as int;
        let b = s[i + 1] as int;
        assert(0 <= a < 256 && 0 <= b < 256);
        assert(a * 256 + b == v as int);
        assert(a == v as int / 256 && b == v as int % 256) by (nonlinear_arith)
            requires
                0 <= a < 256,
                0 <= b < 256,
                a * 256 + b == v as int,
        ;
        assert(s.subrange(i, i + 2) =~= u16_bytes(v));
    }
}

/// A 32-bit field holds `v` exactly when its four bytes are those of `v`.
pub proof fn lemma_u32_at_iff(s: Seq<u8>, i: int, v: u32)
    requires
        0 <= i,
        i + 4 <= s.len(),
    ensures
        (u32_at(s, i) == v) == (s.subrange(i, i + 4) == u32_bytes(v)),
{
    if s.subrange(i, i + 4) == u32_bytes(v) {
        lemma_u32_round_trip(v, s, i);
    }
    if u32_at(s, i) == v {
        let a = s[i] as int;
        let b = s[i + 1] as int;
        let c = s[i + 2] as int;
        let d = s[i + 3] as int;
        let w = v as int;
        assert(a * 0x100_0000 + b * 0x1_0000 + c * 256 + d == w);
        assert(a == w / 0x100_0000 && b == (w / 0x1_0000) % 256 && c == (w / 256) % 256 && d == w % 256)
            by (nonlinear_arith)
            requires
                0 <= a < 256,
                0 <= b < 256,
                0 <= c < 256,
                0 <= d < 256,
                a * 0x100_0000 + b * 0x1_0000 + c * 256 + d == w,
        ;
        assert(s.subrange(i, i + 4) =~= u32_bytes(v));
    }
}

/// Appends the big-endian bytes of `v`.
pub fn push_u16(buffer: &mut Vec<u8>, v: u16)
    ensures
        final(buffer)@ == old(buffer)@ + u16_bytes(v),
{
    buffer.push((v / 256) as u8);
    buffer.push((v % 256) as u8);
}

/// Appends the big-endian bytes of `v`.
pub fn push_u32(buffer: &mut Vec<u8>, v: u32)
    ensures
        final(buffer)@ == old(buffer)@ + u32_bytes(v),
{
    buffer.push((v / 0x100_0000) as u8);
    buffer.push(((v / 0x1_0000) % 256) as u8);
    buffer.push(((v / 256) % 256) as u8);
    buffer.push((v % 256) as u8);
}

/// Appends `n` zero bytes.
pub fn push_zeros(buffer: &mut Vec<u8>, n: usize)
    ensures
        final(buffer)@ == old(buffer)@ + zeros(n as nat),
{
    let ghost start = buffer@;
    let mut k: usize = 0;
    while k < n
        invariant
            k <= n,
            buffer@ == start + zeros(k as nat),
        decreases n - k,
    {
        buffer.push(0u8);
        k = k + 1;
        assert(buffer@ == start + zeros(k as nat));
    }
}

/// Appends all of `data`.
pub fn push_bytes(buffer: &mut Vec<u8>, data: &[u8])
    ensures
        final(buffer)@ == old(buffer)@ + data@,
{
    let ghost start = buffer@;
    let mut k: usize = 0;
    while k < data.len()
        invariant
            k <= data.len(),
            buffer@ == start + data@.take(k as int),
        decreases data.len() - k,
    {
        buffer.push(data[k]);
        k = k + 1;
        assert(data@.take(k as int) == data@.take(k - 1).push(data@[k - 1]));
    }
    assert(data@.take(data.len() as int) == data@);
}

/// The bytes of `s` from offset `i` on; nothing when `i` is at or past the end.
pub open spec fn bytes_from(s: Seq<u8>, i: int) -> Seq<u8> {
    if i < s.len() {
        s.skip(i)
    } else {
        Seq::empty()
    }
}

/// The bytes of `data` from offset `start` on.
pub fn tail(data: &[u8], start: usize) -> (out: Vec<u8>)
    ensures
        out@ == bytes_from(data@, start as int),
{
    let mut out: Vec<u8> = Vec::new();
    if start < data.len() {
        let mut k: usize = start;
        while k < data.len()
            invariant
                start <= k <= data.len(),
                out@ == data@.subrange(start as int, k as int),
            decreases data.len() - k,
        {
            out.push(data[k]);
            k = k + 1;
        }
        assert(data@.subrange(start as int, data.len() as int) == data@.skip(start as int));
    }
    out
}

/// The bytes of `data` in `[start, end)`.
pub fn slice_range(data: &[u8], start: usize, end: usize) -> (out: Vec<u8>)
    requires
        start <= end <= data.len(),
    ensures
        out@ == data@.subrange(start as int, end as int),
{
    let mut out: Vec<u8> = Vec::new();
    let mut k: usize = start;
    while k < end
        invariant
            start <= k <= end <= data.len(),
            out@ == data@.subrange(start as int, k as int),
        decreases end - k,
    {
        out.push(data[k]);
        k = k + 1;
    }
    out
}

/// The big-endian 16-bit field at offset `i`.
pub fn read_u16(data: &[u8], i: usize) -> (v: u16)
    requires
        i + 2 <= data.len(),
    ensures
        v == u16_at(data@, i as int),
{
    (data[i] as u16) * 256 + (data[i + 1] as u16)
}

/// The big-endian 32-bit field at offset `i`.
pub fn read_u32(data: &[u8], i: usize) -> (v: u32)
    requires
        i + 4 <= data.len(),
    ensures
        v == u32_at(data@, i as int),
{
    (data[i] as u32) * 0x100_0000 + (data[i + 1] as u32) * 0x1_0000 + (data[i + 2] as u32) * 256
        + (data[i + 3] as u32)
}

} // verus!
