//! Byte-level helpers shared by the JPEG writer and the repair checks.
use vstd::prelude::*;

verus! {

/// A 16-bit number in little-endian byte order.
pub open spec fn le16(x: u16) -> Seq<u8> {
    seq![(x % 256) as u8, (x / 256) as u8]
}

/// A 16-bit number in big-endian byte order.
pub open spec fn be16(x: u16) -> Seq<u8> {
    seq![(x / 256) as u8, (x % 256) as u8]
}

/// A 32-bit number in little-endian byte order.
pub open spec fn le32(x: u32) -> Seq<u8> {
    seq![(x % 256) as u8, ((x / 256) % 256) as u8, ((x / 65536) % 256) as u8, (x / 16777216) as u8]
}

/// The signature that opens the EXIF payload of an APP1 segment.
pub open spec fn exif_signature() -> Seq<u8> {
    seq![0x45u8, 0x78u8, 0x69u8, 0x66u8, 0u8, 0u8]
}

/// `data` starts with the JPEG start-of-image marker `FF D8`.
pub open spec fn starts_with_soi(data: Seq<u8>) -> bool {
    data.len() >= 2 && data[0] == 0xFF && data[1] == 0xD8
}

/// The big-endian 16-bit length stored at `i + 2` of a segment at `i`.
pub open spec fn seg_len_at(data: Seq<u8>, i: int) -> int {
    data[i + 2] as int * 256 + data[i + 3] as int
}

/// The segment at `i` is an APP1 segment whose payload starts with the
/// EXIF signature.
pub open spec fn exif_app1_at(data: Seq<u8>, i: int) -> bool {
    &&& data[i + 1] == 0xE1
    &&& i + 10 <= data.len()
    &&& data.subrange(i + 4, i + 10) == exif_signature()
}

pub fn push_le16(out: &mut Vec<u8>, x: u16)
    ensures
        final(out)@ == old(out)@ + le16(x),
{
    out.push((x % 256) as u8);
    out.push((x / 256) as u8);
    assert(final(out)@ =~= old(out)@ + le16(x));
}

pub fn push_be16(out: &mut Vec<u8>, x: u16)
    ensures
        final(out)@ == old(out)@ + be16(x),
{
    out.push((x / 256) as u8);
    out.push((x % 256) as u8);
    assert(final(out)@ =~= old(out)@ + be16(x));
}

pub fn push_le32(out: &mut Vec<u8>, x: u32)
    ensures
        final(out)@ == old(out)@ + le32(x),
{
    out.push((x % 256) as u8);
    out.push(((x / 256) % 256) as u8);
    out.push(((x / 65536) % 256) as u8);
    out.push((x / 16777216) as u8);
    assert(final(out)@ =~= old(out)@ + le32(x));
}

/// Appends `data[from..to]`.
pub fn push_range(out: &mut Vec<u8>, data: &[u8], from: usize, to: usize)
    requires
        from <= to <= data@.len(),
    ensures
        final(out)@ == old(out)@ + data@.subrange(from as int, to as int),
{
    let mut i = from;
    while i < to
        invariant
            from <= i <= to <= data@.len(),
            out@ == old(out)@ + data@.subrange(from as int, i as int),
        decreases to - i,
    {
        out.push(data[i]);
        assert(data@.subrange(from as int, i + 1) =~= data@.subrange(from as int, i as int).push(data@[i as int]));
        assert(old(out)@ + data@.subrange(from as int, i + 1) =~= (old(out)@ + data@.subrange(from as int, i as int)).push(data@[i as int]));
        i = i + 1;
    }
}

/// Whether `data` starts with `FF D8`.
pub fn has_soi(data: &[u8]) -> (b: bool)
    ensures
        b == starts_with_soi(data@),
{
    data.len() >= 2 && data[0] == 0xFF && data[1] == 0xD8
}

/// The segment length stored at `i + 2`.
pub fn read_seg_len(data: &[u8], i: usize) -> (n: usize)
    requires
        i + 3 < data.len(),
    ensures
        n == seg_len_at(data@, i as int),
        n <= 65535,
{
    (data[i + 2] as usize) * 256 + (data[i + 3] as usize)
}

/// Whether the segment at `i` is an APP1 segment carrying EXIF.
pub fn is_exif_app1(data: &[u8], i: usize) -> (b: bool)
    requires
        i + 1 < data.len(),
    ensures
        b == exif_app1_at(data@, i as int),
{
    if data[i + 1] != 0xE1 || data.len() < 10 || i > data.len() - 10 {
        return false;
    }
    let b = data[i + 4] == 0x45 && data[i + 5] == 0x78 && data[i + 6] == 0x69 && data[i + 7] == 0x66
        && data[i + 8] == 0 && data[i + 9] == 0;
    proof {
        let sub = data@.subrange(i + 4, i + 10);
        if b {
            assert(sub =~= exif_signature());
        } else {
            if sub == exif_signature() {
                assert(sub[0] == 0x45 && sub[1] == 0x78 && sub[2] == 0x69 && sub[3] == 0x66 && sub[4] == 0 && sub[5] == 0);
            }
        }
    }
    b
}

} // verus!
