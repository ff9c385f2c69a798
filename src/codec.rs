use vstd::prelude::*;
use crate::player::{Rotation, Vec3};

verus! {

/// Little-endian bytes of a `u64`.
pub open spec fn bytes_u64(v: u64) -> Seq<u8> {
    seq![
        v as u8,
        (v >> 8u64) as u8,
        (v >> 16u64) as u8,
        (v >> 24u64) as u8,
        (v >> 32u64) as u8,
        (v >> 40u64) as u8,
        (v >> 48u64) as u8,
        (v >> 56u64) as u8,
    ]
}

/// Little-endian bytes of a `u32`.
pub open spec fn bytes_u32(v: u32) -> Seq<u8> {
    seq![v as u8, (v >> 8u32) as u8, (v >> 16u32) as u8, (v >> 24u32) as u8]
}

/// Two's-complement little-endian bytes of an `i32`.
pub open spec fn bytes_i32(v: i32) -> Seq<u8> {
    bytes_u32(v as u32)
}

pub open spec fn bytes_vec3(p: Vec3) -> Seq<u8> {
    bytes_i32(p.x) + bytes_i32(p.y) + bytes_i32(p.z)
}

pub open spec fn bytes_rotation(r: Rotation) -> Seq<u8> {
    bytes_i32(r.yaw) + bytes_i32(r.pitch)
}

pub open spec fn join_u64(b0: u8, b1: u8, b2: u8, b3: u8, b4: u8, b5: u8, b6: u8, b7: u8) -> u64 {
    (b0 as u64) | ((b1 as u64) << 8u64) | ((b2 as u64) << 16u64) | ((b3 as u64) << 24u64) | ((
    b4 as u64) << 32u64) | ((b5 as u64) << 40u64) | ((b6 as u64) << 48u64) | ((b7 as u64)
        << 56u64)
}

pub open spec fn join_u32(b0: u8, b1: u8, b2: u8, b3: u8) -> u32 {
    (b0 as u32) | ((b1 as u32) << 8u32) | ((b2 as u32) << 16u32) | ((b3 as u32) << 24u32)
}

/// The `u64` stored little-endian at `s[i..i + 8]`.
pub open spec fn u64_at(s: Seq<u8>, i: int) -> u64 {
    join_u64(s[i], s[i + 1], s[i + 2], s[i + 3], s[i + 4], s[i + 5], s[i + 6], s[i + 7])
}

/// The `u32` stored little-endian at `s[i..i + 4]`.
pub open spec fn u32_at(s: Seq<u8>, i: int) -> u32 {
    join_u32(s[i], s[i + 1], s[i + 2], s[i + 3])
}

pub open spec fn i32_at(s: Seq<u8>, i: int) -> i32 {
    u32_at(s, i) as i32
}

pub open spec fn vec3_at(s: Seq<u8>, i: int) -> Vec3 {
    Vec3 { x: i32_at(s, i), y: i32_at(s, i + 4), z: i32_at(s, i + 8) }
}

pub open spec fn rotation_at(s: Seq<u8>, i: int) -> Rotation {
    Rotation { yaw: i32_at(s, i), pitch: i32_at(s, i + 4) }
}

proof fn lemma_join_u64(v: u64)
    ensures
        join_u64(
            v as u8,
            (v >> 8u64) as u8,
            (v >> 16u64) as u8,
            (v >> 24u64) as u8,
            (v >> 32u64) as u8,
            (v >> 40u64) as u8,
            (v >> 48u64) as u8,
            (v >> 56u64) as u8,
        ) == v,
{
    assert((((v as u8) as u64) | ((((v >> 8u64) as u8) as u64) << 8u64) | ((((v >> 16u64) as u8)
        as u64) << 16u64) | ((((v >> 24u64) as u8) as u64) << 24u64) | ((((v >> 32u64) as u8)
        as u64) << 32u64) | ((((v >> 40u64) as u8) as u64) << 40u64) | ((((v >> 48u64) as u8)
        as u64) << 48u64) | ((((v >> 56u64) as u8) as u64) << 56u64)) == v) by (bit_vector);
}

proof fn lemma_join_u32(v: u32)
    ensures
        join_u32(v as u8, (v >> 8u32) as u8, (v >> 16u32) as u8, (v >> 24u32) as u8) == v,
{
    assert((((v as u8) as u32) | ((((v >> 8u32) as u8) as u32) << 8u32) | ((((v >> 16u32) as u8)
        as u32) << 16u32) | ((((v >> 24u32) as u8) as u32) << 24u32)) == v) by (bit_vector);
}

/// Reading back what `bytes_u64` wrote.
pub proof fn lemma_u64_at(s: Seq<u8>, i: int, v: u64)
    requires
        0 <= i,
        i + 8 <= s.len(),
        s.subrange(i, i + 8) == bytes_u64(v),
    ensures
        u64_at(s, i) == v,
{
    assert(s[i] == s.subrange(i, i + 8)[0]);
    assert(s[i + 1] == s.subrange(i, i + 8)[1]);
    assert(s[i + 2] == s.subrange(i, i + 8)[2]);
    assert(s[i + 3] == s.subrange(i, i + 8)[3]);
    assert(s[i + 4] == s.subrange(i, i + 8)[4]);
    assert(s[i + 5] == s.subrange(i, i + 8)[5]);
    assert(s[i + 6] == s.subrange(i, i + 8)[6]);
    assert(s[i + 7] == s.subrange(i, i + 8)[7]);
    lemma_join_u64(v);
}

/// Reading back what `bytes_u32` wrote.
pub proof fn lemma_u32_at(s: Seq<u8>, i: int, v: u32)
    requires
        0 <= i,
        i + 4 <= s.len(),
        s.subrange(i, i + 4) == bytes_u32(v),
    ensures
        u32_at(s, i) == v,
{
    assert(s[i] == s.subrange(i, i + 4)[0]);
    assert(s[i + 1] == s.subrange(i, i + 4)[1]);
    assert(s[i + 2] == s.subrange(i, i + 4)[2]);
    assert(s[i + 3] == s.subrange(i, i + 4)[3]);
    lemma_join_u32(v);
}

/// Reading back what `bytes_i32` wrote.
pub proof fn lemma_i32_at(s: Seq<u8>, i: int, v: i32)
    requires
        0 <= i,
        i + 4 <= s.len(),
        s.subrange(i, i + 4) == bytes_i32(v),
    ensures
        i32_at(s, i) == v,
{
    lemma_u32_at(s, i, v as u32);
    assert((v as u32) as i32 == v) by (bit_vector);
}

pub proof fn lemma_vec3_at(s: Seq<u8>, i: int, p: Vec3)
    requires
        0 <= i,
        i + 12 <= s.len(),
        s.subrange(i, i + 12) == bytes_vec3(p),
    ensures
        vec3_at(s, i) == p,
{
    assert(s.subrange(i, i + 4) =~= s.subrange(i, i + 12).subrange(0, 4));
    assert(s.subrange(i + 4, i + 8) =~= s.subrange(i, i + 12).subrange(4, 8));
    assert(s.subrange(i + 8, i + 12) =~= s.subrange(i, i + 12).subrange(8, 12));
    assert(bytes_vec3(p).subrange(0, 4) =~= bytes_i32(p.x));
    assert(bytes_vec3(p).subrange(4, 8) =~= bytes_i32(p.y));
    assert(bytes_vec3(p).subrange(8, 12) =~= bytes_i32(p.z));
    lemma_i32_at(s, i, p.x);
    lemma_i32_at(s, i + 4, p.y);
    lemma_i32_at(s, i + 8, p.z);
}

pub proof fn lemma_rotation_at(s: Seq<u8>, i: int, r: Rotation)
    requires
        0 <= i,
        i + 8 <= s.len(),
        s.subrange(i, i + 8) == bytes_rotation(r),
    ensures
        rotation_at(s, i) == r,
{
    assert(s.subrange(i, i + 4) =~= s.subrange(i, i + 8).subrange(0, 4));
    assert(s.subrange(i + 4, i + 8) =~= s.subrange(i, i + 8).subrange(4, 8));
    assert(bytes_rotation(r).subrange(0, 4) =~= bytes_i32(r.yaw));
    assert(bytes_rotation(r).subrange(4, 8) =~= bytes_i32(r.pitch));
    lemma_i32_at(s, i, r.yaw);
    lemma_i32_at(s, i + 4, r.pitch);
}

pub fn push_u64(out: &mut Vec<u8>, v: u64)
    ensures
        final(out)@ == old(out)@ + bytes_u64(v),
{
    out.push(v as u8);
    out.push((v >> 8u64) as u8);
    out.push((v >> 16u64) as u8);
    out.push((v >> 24u64) as u8);
    out.push((v >> 32u64) as u8);
    out.push((v >> 40u64) as u8);
    out.push((v >> 48u64) as u8);
    out.push((v >> 56u64) as u8);
    assert(out@ =~= old(out)@ + bytes_u64(v));
}

pub fn push_u32(out: &mut Vec<u8>, v: u32)
    ensures
        final(out)@ == old(out)@ + bytes_u32(v),
{
    out.push(v as u8);
    out.push((v >> 8u32) as u8);
    out.push((v >> 16u32) as u8);
    out.push((v >> 24u32) as u8);
    assert(out@ =~= old(out)@ + bytes_u32(v));
}

pub fn push_vec3(out: &mut Vec<u8>, p: Vec3)
    ensures
        final(out)@ == old(out)@ + bytes_vec3(p),
{
    push_u32(out, p.x as u32);
    push_u32(out, p.y as u32);
    push_u32(out, p.z as u32);
    assert(out@ =~= old(out)@ + bytes_vec3(p));
}

pub fn push_rotation(out: &mut Vec<u8>, r: Rotation)
    ensures
        final(out)@ == old(out)@ + bytes_rotation(r),
{
    push_u32(out, r.yaw as u32);
    push_u32(out, r.pitch as u32);
    assert(out@ =~= old(out)@ + bytes_rotation(r));
}

pub fn push_bytes(out: &mut Vec<u8>, b: &[u8])
    ensures
        final(out)@ == old(out)@ + b@,
{
    let mut i: usize = 0;
    while i < b.len()
        invariant
            i <= b@.len(),
            out@ == old(out)@ + b@.take(i as int),
        decreases b@.len() - i,
    {
        out.push(b[i]);
        assert(b@.take(i + 1) =~= b@.take(i as int).push(b@[i as int]));
        i = i + 1;
    }
    assert(b@.take(i as int) =~= b@);
}

pub fn read_u64(s: &[u8], i: usize) -> (r: u64)
    requires
        i + 8 <= s.len(),
    ensures
        r == u64_at(s@, i as int),
{
    (s[i] as u64) | ((s[i + 1] as u64) << 8u64) | ((s[i + 2] as u64) << 16u64) | ((s[i + 3]
        as u64) << 24u64) | ((s[i + 4] as u64) << 32u64) | ((s[i + 5] as u64) << 40u64) | ((s[i
        + 6] as u64) << 48u64) | ((s[i + 7] as u64) << 56u64)
}

pub fn read_u32(s: &[u8], i: usize) -> (r: u32)
    requires
        i + 4 <= s.len(),
    ensures
        r == u32_at(s@, i as int),
{
    (s[i] as u32) | ((s[i + 1] as u32) << 8u32) | ((s[i + 2] as u32) << 16u32) | ((s[i + 3]
        as u32) << 24u32)
}

pub fn read_vec3(s: &[u8], i: usize) -> (r: Vec3)
    requires
        i + 12 <= s.len(),
    ensures
        r == vec3_at(s@, i as int),
{
    Vec3 {
        x: read_u32(s, i) as i32,
        y: read_u32(s, i + 4) as i32,
        z: read_u32(s, i + 8) as i32,
    }
}

pub fn read_rotation(s: &[u8], i: usize) -> (r: Rotation)
    requires
        i + 8 <= s.len(),
    ensures
        r == rotation_at(s@, i as int),
{
    Rotation { yaw: read_u32(s, i) as i32, pitch: read_u32(s, i + 4) as i32 }
}

/// Copies `s[from..to]` into a fresh vector.
pub fn copy_range(s: &[u8], from: usize, to: usize) -> (r: Vec<u8>)
    requires
        from <= to <= s@.len(),
    ensures
        r@ == s@.subrange(from as int, to as int),
{
    let mut out: Vec<u8> = Vec::new();
    let mut i: usize = from;
    while i < to
        invariant
            from <= i <= to,
            to <= s@.len(),
            out@ == s@.subrange(from as int, i as int),
        decreases to - i,
    {
        out.push(s[i]);
        assert(s@.subrange(from as int, i + 1) =~= s@.subrange(from as int, i as int).push(
            s@[i as int],
        ));
        i = i + 1;
    }
    out
}

} // verus!
