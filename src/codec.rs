use vstd::prelude::*;

verus! {

/// The four little-endian bytes of the low 32 bits of `v` (two's complement for
/// negative values).
pub open spec fn le32(v: int) -> Seq<u8> {
    let u = v % 0x1_0000_0000;
    seq![
        (u % 256) as u8,
        ((u / 256) % 256) as u8,
        ((u / 0x1_0000) % 256) as u8,
        (u / 0x100_0000) as u8,
    ]
}

/// The tag made of four bytes, the first one lowest.
pub open spec fn id_of(a: int, b: int, c: int, d: int) -> int {
    a + 256 * b + 0x1_0000 * c + 0x100_0000 * d
}

/// Packs four bytes into a little-endian tag.
pub fn get_id_u8(a: u8, b: u8, c: u8, d: u8) -> (r: u32)
    ensures
        r == id_of(a as int, b as int, c as int, d as int),
{
    let r = (a as u32) | ((b as u32) << 8u32) | ((c as u32) << 16u32) | ((d as u32) << 24u32);
    assert(r == (a as u32) + 256 * (b as u32) + 0x1_0000 * (c as u32) + 0x100_0000 * (d as u32))
        by (bit_vector)
        requires
            r == (a as u32) | ((b as u32) << 8u32) | ((c as u32) << 16u32) | ((d as u32) << 24u32),
            a < 256, b < 256, c < 256, d < 256,
    ;
    r
}

/// Packs four characters into a tag; each code point is placed 8 bits above the
/// previous one and the bits are or-ed together, so that characters below 256
/// give the same tag as `get_id_u8` on their codes.
pub fn get_id_char(a: char, b: char, c: char, d: char) -> (r: u32)
    ensures
        r == ((a as u32) | ((b as u32) << 8u32) | ((c as u32) << 16u32) | ((d as u32) << 24u32)),
        (a as u32) < 256 && (b as u32) < 256 && (c as u32) < 256 && (d as u32) < 256 ==> r
            == id_of(a as int, b as int, c as int, d as int),
{
    let (ua, ub, uc, ud) = (a as u32, b as u32, c as u32, d as u32);
    let r = ua | (ub << 8u32) | (uc << 16u32) | (ud << 24u32);
    if ua < 256 && ub < 256 && uc < 256 && ud < 256 {
        assert(r == ua + 256 * ub + 0x1_0000 * uc + 0x100_0000 * ud) by (bit_vector)
            requires
                r == ua | (ub << 8u32) | (uc << 16u32) | (ud << 24u32),
                ua < 256, ub < 256, uc < 256, ud < 256,
        ;
    }
    r
}

/// Appends the four little-endian bytes of `v`.
pub fn push_u32(out: &mut Vec<u8>, v: u32)
    ensures
        final(out)@ == old(out)@ + le32(v as int),
{
    out.push((v % 256) as u8);
    out.push(((v / 256) % 256) as u8);
    out.push(((v / 0x1_0000) % 256) as u8);
    out.push((v / 0x100_0000) as u8);
    assert(final(out)@ =~= old(out)@ + le32(v as int));
}

/// Appends the four little-endian bytes of `v` in two's complement.
pub fn push_i32(out: &mut Vec<u8>, v: i32)
    ensures
        final(out)@ == old(out)@ + le32(v as int),
{
    let u: u32 = if v < 0 {
        (v as i64 + 0x1_0000_0000i64) as u32
    } else {
        v as u32
    };
    assert(u as int % 0x1_0000_0000 == v as int % 0x1_0000_0000);
    push_u32(out, u);
}

/// A chunk: its tag, the length of its content, a zero length of children, then
/// the content.
pub open spec fn chunk(tag: int, content: Seq<u8>) -> Seq<u8> {
    le32(tag) + le32(content.len() as int) + le32(0) + content
}

/// Frame exactness: for every chunk, the content size reported before writing
/// (each `get_size` returns the length of the content its `write` frames) is the
/// number of bytes written after the 12-byte frame, and the frame's size field
/// holds exactly that number.
pub proof fn lemma_chunk_frame(tag: int, content: Seq<u8>)
    ensures
        chunk(tag, content).len() == 12 + content.len(),
        chunk(tag, content).subrange(4, 8) == le32(content.len() as int),
        chunk(tag, content).subrange(8, 12) == le32(0),
        chunk(tag, content).subrange(12, 12 + content.len() as int) == content,
{
    assert(chunk(tag, content).subrange(4, 8) =~= le32(content.len() as int));
    assert(chunk(tag, content).subrange(8, 12) =~= le32(0));
    assert(chunk(tag, content).subrange(12, 12 + content.len() as int) =~= content);
}

/// Appends the chunk framing `content` under `tag`.
pub fn write_chunk(out: &mut Vec<u8>, tag: u32, content: &Vec<u8>)
    ensures
        final(out)@ == old(out)@ + chunk(tag as int, content@),
{
    push_u32(out, tag);
    let len: u32 = (content.len() as u64 % 0x1_0000_0000u64) as u32;
    push_u32(out, len);
    assert(le32(len as int) == le32(content@.len() as int));
    push_u32(out, 0);
    push_all(out, content);
}

/// The decimal digits of `n`, most significant first.
pub open spec fn digits(n: nat) -> Seq<u8>
    decreases n,
{
    if n < 10 {
        seq![(48 + n) as u8]
    } else {
        digits(n / 10).push((48 + n % 10) as u8)
    }
}

/// The decimal text of `v`, with a leading `-` when it is negative.
pub open spec fn decimal(v: int) -> Seq<u8> {
    if v < 0 {
        seq![45u8] + digits((-v) as nat)
    } else {
        digits(v as nat)
    }
}

fn push_digits(out: &mut Vec<u8>, n: u64)
    ensures
        final(out)@ == old(out)@ + digits(n as nat),
    decreases n,
{
    if n >= 10 {
        push_digits(out, n / 10);
    }
    out.push((48 + n % 10) as u8);
    assert(final(out)@ =~= old(out)@ + digits(n as nat));
}

/// Appends the decimal text of `v`.
pub fn push_decimal(out: &mut Vec<u8>, v: i64)
    ensures
        final(out)@ == old(out)@ + decimal(v as int),
{
    if v < 0 {
        out.push(45u8);
        let m: u64 = (-(v as i128)) as u64;
        push_digits(out, m);
        assert(final(out)@ =~= old(out)@ + decimal(v as int));
    } else {
        push_digits(out, v as u64);
    }
}

/// The parts joined in order.
pub open spec fn concat(parts: Seq<Seq<u8>>) -> Seq<u8>
    decreases parts.len(),
{
    if parts.len() == 0 {
        Seq::empty()
    } else {
        concat(parts.drop_last()) + parts.last()
    }
}

/// Joining the first `i + 1` parts adds part `i` to the join of the first `i`.
pub proof fn lemma_concat_take(parts: Seq<Seq<u8>>, i: int)
    requires
        0 <= i < parts.len(),
    ensures
        concat(parts.take(i + 1)) == concat(parts.take(i)) + parts[i],
{
    assert(parts.take(i + 1).drop_last() =~= parts.take(i));
}

/// The join of a prefix is no longer than the join of the whole.
pub proof fn lemma_concat_prefix_len(parts: Seq<Seq<u8>>, i: int)
    requires
        0 <= i <= parts.len(),
    ensures
        concat(parts.take(i)).len() <= concat(parts).len(),
    decreases parts.len(),
{
    if i == parts.len() {
        assert(parts.take(i) =~= parts);
    } else {
        assert(parts.drop_last().take(i) =~= parts.take(i));
        lemma_concat_prefix_len(parts.drop_last(), i);
    }
}

/// Appends all of `bytes`.
pub fn push_all(out: &mut Vec<u8>, bytes: &Vec<u8>)
    ensures
        final(out)@ == old(out)@ + bytes@,
{
    let mut i: usize = 0;
    while i < bytes.len()
        invariant
            i <= bytes@.len(),
            out@ == old(out)@ + bytes@.subrange(0, i as int),
        decreases bytes@.len() - i,
    {
        out.push(bytes[i]);
        i = i + 1;
        assert(bytes@.subrange(0, i as int) =~= bytes@.subrange(0, i - 1).push(bytes@[i - 1]));
    }
    assert(bytes@.subrange(0, bytes@.len() as int) =~= bytes@);
}

} // verus!
