//! Writing EXIF: encoding the field table as an APP1 segment, splicing it
//! into a JPEG, stripping EXIF from a JPEG, and checking a written file.
use vstd::prelude::*;
use vstd::utf8::encode_utf8;
use crate::exif::jpeg::{
    be16, exif_app1_at, has_soi, is_exif_app1, le16, le32, push_be16, push_le16, push_le32,
    push_range, read_seg_len, seg_len_at, starts_with_soi,
};
use crate::model::{EntryView, ExifMap, ExifTag, ExifValue, ValueView};

verus! {

/// The TIFF type code a value is written with.
pub open spec fn value_type_code(v: ValueView) -> u16 {
    match v {
        ValueView::Byte(_) => 1,
        ValueView::Ascii(_) => 2,
        ValueView::Short(_) => 3,
        ValueView::Long(_) => 4,
        ValueView::Rational(_, _) => 5,
        ValueView::SRational(_, _) => 10,
        ValueView::Undefined(_) => 7,
        ValueView::Slice(_) => 7,
    }
}

/// The bytes a value is written as: text in UTF-8 with a terminating zero,
/// numbers little-endian, a rational as numerator then denominator.
pub open spec fn value_bytes(v: ValueView) -> Seq<u8> {
    match v {
        ValueView::Byte(b) => b,
        ValueView::Ascii(s) => encode_utf8(s).push(0u8),
        ValueView::Short(x) => le16(x),
        ValueView::Long(x) => le32(x),
        ValueView::Rational(n, d) => le32(n) + le32(d),
        ValueView::SRational(n, d) => le32(n as u32) + le32(d as u32),
        ValueView::Undefined(b) => b,
        ValueView::Slice(b) => b,
    }
}

/// The unsigned 16-bit number stored little-endian at `i` of `b`.
pub open spec fn u16_le_at(b: Seq<u8>, i: int) -> int {
    b[i] + 256 * b[i + 1]
}

/// The unsigned 32-bit number stored little-endian at `i` of `b`.
pub open spec fn u32_le_at(b: Seq<u8>, i: int) -> int {
    b[i] + 256 * b[i + 1] + 65536 * b[i + 2] + 16777216 * b[i + 3]
}

/// The signed 32-bit number stored little-endian, in two's complement, at
/// `i` of `b`.
pub open spec fn i32_le_at(b: Seq<u8>, i: int) -> int {
    let u = u32_le_at(b, i);
    if u >= 0x8000_0000 { u - 0x1_0000_0000 } else { u }
}

proof fn lemma_le16_reads_back(x: u16)
    ensures
        le16(x).len() == 2,
        u16_le_at(le16(x), 0) == x,
{
    let b = le16(x);
    assert(b[0] == x % 256 && b[1] == x / 256);
}

proof fn lemma_le32_reads_back(x: u32)
    ensures
        le32(x).len() == 4,
        u32_le_at(le32(x), 0) == x,
{
    let b = le32(x);
    assert(b[0] == x % 256 && b[1] == (x / 256) % 256 && b[2] == (x / 65536) % 256 && b[3] == x / 16777216);
    assert(x % 256 + 256 * ((x / 256) % 256) + 65536 * ((x / 65536) % 256) + 16777216 * (x / 16777216) == x)
        by (nonlinear_arith);
}

proof fn lemma_i32_reads_back(n: i32)
    ensures
        le32(n as u32).len() == 4,
        i32_le_at(le32(n as u32), 0) == n,
{
    let u = n as u32;
    lemma_le32_reads_back(u);
    assert(n >= 0 ==> u == n) by (bit_vector)
        requires u == n as u32;
    assert(n < 0 ==> (u as u64) + ((-(n as i64)) as u64) == 0x1_0000_0000u64) by (bit_vector)
        requires u == n as u32;
    assert(n < 0 ==> u >= 0x8000_0000u32) by (bit_vector)
        requires u == n as u32;
}

/// Every number is written so that reading it back gives the number:
/// a short as two bytes and a long as four, little-endian; a rational as
/// its numerator then its denominator, four bytes each, unsigned; a signed
/// rational the same in two's complement. Text is its UTF-8 bytes with a
/// terminating zero, and bytes are written as they are.
pub proof fn law_values_read_back(v: ValueView)
    ensures
        match v {
            ValueView::Short(x) => value_bytes(v).len() == 2 && u16_le_at(value_bytes(v), 0) == x,
            ValueView::Long(x) => value_bytes(v).len() == 4 && u32_le_at(value_bytes(v), 0) == x,
            ValueView::Rational(n, d) => {
                &&& value_bytes(v).len() == 8
                &&& u32_le_at(value_bytes(v), 0) == n
                &&& u32_le_at(value_bytes(v), 4) == d
            },
            ValueView::SRational(n, d) => {
                &&& value_bytes(v).len() == 8
                &&& i32_le_at(value_bytes(v), 0) == n
                &&& i32_le_at(value_bytes(v), 4) == d
            },
            ValueView::Ascii(s) => value_bytes(v) == encode_utf8(s).push(0u8),
            ValueView::Byte(b) => value_bytes(v) == b,
            ValueView::Undefined(b) => value_bytes(v) == b,
            ValueView::Slice(b) => value_bytes(v) == b,
        },
{
    match v {
        ValueView::Short(x) => {
            lemma_le16_reads_back(x);
        },
        ValueView::Long(x) => {
            lemma_le32_reads_back(x);
        },
        ValueView::Rational(n, d) => {
            lemma_le32_reads_back(n);
            lemma_le32_reads_back(d);
            let b = value_bytes(v);
            assert(b.subrange(0, 4) =~= le32(n));
            assert(b.subrange(4, 8) =~= le32(d));
            assert(u32_le_at(b, 4) == u32_le_at(b.subrange(4, 8), 0));
        },
        ValueView::SRational(n, d) => {
            lemma_i32_reads_back(n);
            lemma_i32_reads_back(d);
            let b = value_bytes(v);
            assert(b.subrange(0, 4) =~= le32(n as u32));
            assert(b.subrange(4, 8) =~= le32(d as u32));
            assert(i32_le_at(b, 4) == i32_le_at(b.subrange(4, 8), 0));
        },
        _ => {},
    }
}

/// A value too large for the four-byte slot, padded to an even length.
pub open spec fn padded(b: Seq<u8>) -> Seq<u8> {
    if b.len() % 2 == 1 { b.push(0u8) } else { b }
}

/// The data area after the IFD: the values longer than four bytes, in order,
/// each padded to an even length.
pub open spec fn data_area(s: Seq<EntryView>) -> Seq<u8>
    decreases s.len(),
{
    if s.len() == 0 {
        seq![]
    } else {
        let b = value_bytes(s.last().1);
        data_area(s.drop_last()) + if b.len() > 4 { padded(b) } else { seq![] }
    }
}

/// A value of at most four bytes, zero-filled to four.
pub open spec fn inline_slot(b: Seq<u8>) -> Seq<u8> {
    b + Seq::new((4 - b.len()) as nat, |_i: int| 0u8)
}

/// The twelve-byte IFD entry of one field, `offset` being where its value
/// lands when it does not fit the slot.
pub open spec fn ifd_entry(e: EntryView, offset: int) -> Seq<u8> {
    let b = value_bytes(e.1);
    le16(e.0.id) + le16(value_type_code(e.1)) + le32(b.len() as u32)
        + if b.len() <= 4 { inline_slot(b) } else { le32(offset as u32) }
}

/// The IFD entries of all fields, the data area starting at `start`.
pub open spec fn ifd_entries(s: Seq<EntryView>, start: int) -> Seq<u8>
    decreases s.len(),
{
    if s.len() == 0 {
        seq![]
    } else {
        ifd_entries(s.drop_last(), start) + ifd_entry(s.last(), start + data_area(s.drop_last()).len())
    }
}

/// `Exif\0\0`, then a little-endian TIFF header pointing at offset 8.
pub open spec fn exif_header() -> Seq<u8> {
    seq![0x45u8, 0x78u8, 0x69u8, 0x66u8, 0u8, 0u8, 0x49u8, 0x49u8, 0x2Au8, 0u8, 8u8, 0u8, 0u8, 0u8]
}

/// Where the data area starts, counted from the TIFF header.
pub open spec fn data_start(n: nat) -> int {
    (8 + 2 + 12 * n + 4) as int
}

/// The EXIF payload of a field table: header, one IFD with every field,
/// no next IFD, then the data area.
pub open spec fn exif_payload(s: Seq<EntryView>) -> Seq<u8> {
    exif_header() + le16(s.len() as u16) + ifd_entries(s, data_start(s.len())) + le32(0)
        + data_area(s)
}

/// The payload's offsets fit the 32-bit fields that hold them.
pub open spec fn exif_payload_fits(s: Seq<EntryView>) -> bool {
    data_start(s.len()) + data_area(s).len() <= u32::MAX
}

proof fn lemma_area_prefix(s: Seq<EntryView>, i: int)
    requires
        0 <= i <= s.len(),
    ensures
        data_area(s.take(i)).len() <= data_area(s).len(),
        data_area(s.take(i)).len() % 2 == 0,
    decreases s.len() - i,
{
    if i < s.len() {
        lemma_area_prefix(s, i + 1);
        assert(s.take(i + 1).drop_last() =~= s.take(i));
    } else {
        assert(s.take(i) =~= s);
        lemma_area_even(s);
    }
}

proof fn lemma_area_even(s: Seq<EntryView>)
    ensures
        data_area(s).len() % 2 == 0,
    decreases s.len(),
{
    if s.len() > 0 {
        lemma_area_even(s.drop_last());
    }
}

/// Writes EXIF into JPEG files and takes it out.
pub struct ExifWriter;

impl ExifWriter {
    /// The type code and bytes a value is written with.
    pub fn value_to_bytes(value: &ExifValue) -> (r: (u16, Vec<u8>))
        ensures
            r.0 == value_type_code(value@),
            r.1@ == value_bytes(value@),
    {
        match value {
            ExifValue::Byte(v) => (1, vstd::slice::slice_to_vec(v.as_slice())),
            ExifValue::Ascii(s) => {
                let mut bytes = vstd::slice::slice_to_vec(s.as_str().as_bytes());
                bytes.push(0);
                (2, bytes)
            },
            ExifValue::Short(v) => {
                let mut out: Vec<u8> = Vec::new();
                push_le16(&mut out, *v);
                assert(out@ =~= le16(*v));
                (3, out)
            },
            ExifValue::Long(v) => {
                let mut out: Vec<u8> = Vec::new();
                push_le32(&mut out, *v);
                assert(out@ =~= le32(*v));
                (4, out)
            },
            ExifValue::Rational(n, d) => {
                let mut out: Vec<u8> = Vec::new();
                push_le32(&mut out, *n);
                push_le32(&mut out, *d);
                assert(out@ =~= le32(*n) + le32(*d));
                (5, out)
            },
            ExifValue::SRational(n, d) => {
                let mut out: Vec<u8> = Vec::new();
                push_le32(&mut out, *n as u32);
                push_le32(&mut out, *d as u32);
                assert(out@ =~= le32(*n as u32) + le32(*d as u32));
                (10, out)
            },
            ExifValue::Undefined(v) => (7, vstd::slice::slice_to_vec(v.as_slice())),
            ExifValue::Slice(v) => (7, vstd::slice::slice_to_vec(v.as_slice())),
        }
    }
}

/// The part of the data area a value adds.
pub open spec fn area_part(v: ValueView) -> Seq<u8> {
    let b = value_bytes(v);
    if b.len() > 4 { padded(b) } else { seq![] }
}

/// Appends the IFD entry of one field to `exif`, and its value to the data
/// area when it does not fit the slot.
fn write_field(exif: &mut Vec<u8>, area: &mut Vec<u8>, data_offset: usize, tag: &ExifTag, value: &ExifValue)
    requires
        old(area)@.len() % 2 == 0,
        data_offset + old(area)@.len() + area_part(value@).len() <= u32::MAX,
    ensures
        final(exif)@ == old(exif)@ + ifd_entry((tag@, value@), data_offset + old(area)@.len()),
        final(area)@ == old(area)@ + area_part(value@),
{
    let ghost before = exif@;
    let ghost e = (tag@, value@);
    let cursor: u32 = (data_offset + area.len()) as u32;
    push_le16(exif, tag.id);
    let (type_id, data_bytes) = ExifWriter::value_to_bytes(value);
    push_le16(exif, type_id);
    push_le32(exif, data_bytes.len() as u32);
    let ghost head = exif@;
    if data_bytes.len() <= 4 {
        push_range(exif, data_bytes.as_slice(), 0, data_bytes.len());
        assert(data_bytes@.subrange(0, data_bytes@.len() as int) =~= data_bytes@);
        let mut k = data_bytes.len();
        while k < 4
            invariant
                data_bytes@.len() <= k <= 4,
                exif@ == head + data_bytes@ + Seq::new((k - data_bytes@.len()) as nat, |_i: int| 0u8),
            decreases 4 - k,
        {
            exif.push(0);
            assert(head + data_bytes@ + Seq::new((k + 1 - data_bytes@.len()) as nat, |_i: int| 0u8)
                =~= (head + data_bytes@ + Seq::new((k - data_bytes@.len()) as nat, |_i: int| 0u8)).push(0u8));
            k = k + 1;
        }
        assert(exif@ =~= before + ifd_entry(e, data_offset + old(area)@.len()));
        assert(area@ =~= old(area)@ + area_part(value@));
    } else {
        push_le32(exif, cursor);
        push_range(area, data_bytes.as_slice(), 0, data_bytes.len());
        assert(data_bytes@.subrange(0, data_bytes@.len() as int) =~= data_bytes@);
        if area.len() % 2 != 0 {
            area.push(0);
        }
        assert(exif@ =~= before + ifd_entry(e, data_offset + old(area)@.len()));
        assert(area@ =~= old(area)@ + area_part(value@));
    }
}

impl ExifWriter {
    /// The EXIF payload of a field table (the body of an APP1 segment).
    pub fn build_exif(entries: &ExifMap) -> (out: Vec<u8>)
        requires
            exif_payload_fits(entries@),
        ensures
            out@ == exif_payload(entries@),
    {
        let ghost s = entries@;
        let n = entries.len();
        let mut exif: Vec<u8> = Vec::new();
        exif.push(0x45);
        exif.push(0x78);
        exif.push(0x69);
        exif.push(0x66);
        exif.push(0);
        exif.push(0);
        exif.push(0x49);
        exif.push(0x49);
        push_le16(&mut exif, 0x002A);
        push_le32(&mut exif, 8);
        assert(exif@ =~= exif_header());
        push_le16(&mut exif, n as u16);
        let ghost head = exif@;
        let data_offset: usize = 8 + 2 + 12 * n + 4;
        let mut area: Vec<u8> = Vec::new();
        let mut i: usize = 0;
        proof {
            assert(s.take(0) =~= Seq::<EntryView>::empty());
            assert(area@ =~= data_area(s.take(0)));
        }
        while i < n
            invariant
                s == entries@,
                n == s.len(),
                exif_payload_fits(s),
                data_offset == data_start(n as nat),
                i <= n,
                exif@ == head + ifd_entries(s.take(i as int), data_offset as int),
                area@ == data_area(s.take(i as int)),
            decreases n - i,
        {
            let (tag, value) = entries.entry(i);
            proof {
                lemma_area_prefix(s, i as int);
                lemma_area_prefix(s, i + 1);
                assert(s.take(i + 1).drop_last() =~= s.take(i as int));
                assert(s.take(i + 1).last() == s[i as int]);
                assert(data_area(s.take(i + 1)) == data_area(s.take(i as int)) + area_part(s[i as int].1));
            }
            let ghost before = exif@;
            write_field(&mut exif, &mut area, data_offset, tag, value);
            proof {
                assert(ifd_entries(s.take(i + 1), data_offset as int) == ifd_entries(s.take(i as int), data_offset as int)
                    + ifd_entry(s[i as int], data_offset + data_area(s.take(i as int)).len()));
                assert(exif@ =~= head + ifd_entries(s.take(i + 1), data_offset as int));
            }
            i = i + 1;
        }
        push_le32(&mut exif, 0);
        push_range(&mut exif, area.as_slice(), 0, area.len());
        proof {
            assert(s.take(n as int) =~= s);
            assert(area@.subrange(0, area@.len() as int) =~= area@);
            assert(exif@ =~= exif_payload(s));
        }
        exif
    }
}


/// What the segment scan keeps of `data` from index `i` on: it walks the
/// markers, drops the APP1 segments that carry EXIF and keeps every other
/// segment; from start-of-scan (`FF DA`) or end-of-image (`FF D9`) on it
/// keeps the rest as is. `drop_soi` drops a stray `FF D8`; `keep_short_tail`
/// keeps the bytes of a marker too close to the end to hold a length.
pub open spec fn scan_kept(data: Seq<u8>, i: int, drop_soi: bool, keep_short_tail: bool) -> Seq<u8>
    decreases data.len() - i,
{
    if i < 0 || i + 1 >= data.len() {
        seq![]
    } else if data[i] != 0xFF {
        scan_kept(data, i + 1, drop_soi, keep_short_tail)
    } else {
        let m = data[i + 1];
        if m == 0x00 || m == 0xFF {
            scan_kept(data, i + 1, drop_soi, keep_short_tail)
        } else if drop_soi && m == 0xD8 {
            scan_kept(data, i + 2, drop_soi, keep_short_tail)
        } else if m == 0xDA || m == 0xD9 {
            data.skip(i)
        } else if i + 3 >= data.len() {
            if keep_short_tail { data.skip(i) } else { seq![] }
        } else {
            let total = 2 + seg_len_at(data, i);
            if exif_app1_at(data, i) {
                if i + total <= data.len() {
                    scan_kept(data, i + total, drop_soi, keep_short_tail)
                } else {
                    seq![]
                }
            } else if i + total <= data.len() {
                data.subrange(i, i + total) + scan_kept(data, i + total, drop_soi, keep_short_tail)
            } else {
                data.skip(i)
            }
        }
    }
}

/// Appends what the segment scan keeps of `data` from index `start` on.
fn scan_segments(out: &mut Vec<u8>, data: &[u8], start: usize, drop_soi: bool, keep_short_tail: bool)
    requires
        start <= data@.len(),
    ensures
        final(out)@ == old(out)@ + scan_kept(data@, start as int, drop_soi, keep_short_tail),
{
    let ghost d = data@;
    let mut i = start;
    assert(old(out)@ + scan_kept(d, start as int, drop_soi, keep_short_tail)
        =~= out@ + scan_kept(d, i as int, drop_soi, keep_short_tail));
    while i < data.len() && data.len() - i > 1
        invariant
            d == data@,
            i <= data@.len(),
            old(out)@ + scan_kept(d, start as int, drop_soi, keep_short_tail)
                == out@ + scan_kept(d, i as int, drop_soi, keep_short_tail),
        decreases data@.len() - i,
    {
        if data[i] != 0xFF {
            i = i + 1;
            continue;
        }
        let marker = data[i + 1];
        if marker == 0x00 || marker == 0xFF {
            i = i + 1;
            continue;
        }
        if drop_soi && marker == 0xD8 {
            i = i + 2;
            continue;
        }
        if marker == 0xDA || marker == 0xD9 {
            let ghost before = out@;
            push_range(out, data, i, data.len());
            assert(d.subrange(i as int, d.len() as int) =~= d.skip(i as int));
            assert(scan_kept(d, i as int, drop_soi, keep_short_tail) == d.skip(i as int));
            return;
        }
        if data.len() - i <= 3 {
            if keep_short_tail {
                push_range(out, data, i, data.len());
                assert(d.subrange(i as int, d.len() as int) =~= d.skip(i as int));
            } else {
                assert(out@ =~= out@ + Seq::<u8>::empty());
            }
            return;
        }
        let seg_total = 2 + read_seg_len(data, i);
        if is_exif_app1(data, i) {
            if seg_total <= data.len() - i {
                i = i + seg_total;
                continue;
            } else {
                assert(out@ =~= out@ + Seq::<u8>::empty());
                return;
            }
        }
        if seg_total <= data.len() - i {
            let ghost before = out@;
            push_range(out, data, i, i + seg_total);
            assert(before + scan_kept(d, i as int, drop_soi, keep_short_tail)
                =~= out@ + scan_kept(d, i + seg_total, drop_soi, keep_short_tail));
            i = i + seg_total;
        } else {
            push_range(out, data, i, data.len());
            assert(d.subrange(i as int, d.len() as int) =~= d.skip(i as int));
            return;
        }
    }
    assert(scan_kept(d, i as int, drop_soi, keep_short_tail) =~= Seq::<u8>::empty());
}

/// The JPEG with its EXIF replaced: start-of-image, then an APP1 segment
/// holding `new_exif`, then every segment of `original` except the APP1
/// segments that carried EXIF. A file that is not a JPEG is kept as is.
pub open spec fn merged(original: Seq<u8>, new_exif: Seq<u8>) -> Seq<u8> {
    if !starts_with_soi(original) {
        original
    } else {
        seq![0xFFu8, 0xD8u8, 0xFFu8, 0xE1u8] + be16(((new_exif.len() + 2) % 65536) as u16) + new_exif
            + scan_kept(original, 2, true, true)
    }
}

impl ExifWriter {
    /// Splices a new EXIF payload into a JPEG in place of its old one.
    pub fn merge_exif(original: &[u8], new_exif: &[u8]) -> (out: Vec<u8>)
        ensures
            out@ == merged(original@, new_exif@),
    {
        if !has_soi(original) {
            return vstd::slice::slice_to_vec(original);
        }
        let mut out: Vec<u8> = Vec::new();
        out.push(0xFF);
        out.push(0xD8);
        out.push(0xFF);
        out.push(0xE1);
        let len16: u16 = ((new_exif.len() % 65536 + 2) % 65536) as u16;
        assert(len16 == ((new_exif@.len() + 2) % 65536) as u16);
        push_be16(&mut out, len16);
        push_range(&mut out, new_exif, 0, new_exif.len());
        assert(new_exif@.subrange(0, new_exif@.len() as int) =~= new_exif@);
        scan_segments(&mut out, original, 2, true, true);
        assert(out@ =~= merged(original@, new_exif@));
        out
    }
}

impl ExifWriter {
    /// Whether the offsets of the table's payload fit the 32-bit fields
    /// that hold them, as `write` needs.
    pub fn payload_fits(entries: &ExifMap) -> (b: bool)
        ensures
            b == exif_payload_fits(entries@),
    {
        let ghost s = entries@;
        let n = entries.len();
        if n as u64 > 0xFFFF_FFFFu64 {
            proof {
                lemma_area_prefix(s, 0);
            }
            return false;
        }
        let mut total: u64 = 14 + 12 * (n as u64);
        if total > 0xFFFF_FFFFu64 {
            proof {
                lemma_area_prefix(s, 0);
            }
            return false;
        }
        assert(s.take(0) =~= Seq::<EntryView>::empty());
        let mut i: usize = 0;
        while i < n
            invariant
                s == entries@,
                n == s.len(),
                i <= n,
                total == data_start(n as nat) + data_area(s.take(i as int)).len(),
                total <= 0xFFFF_FFFFu64,
            decreases n - i,
        {
            let (_, value) = entries.entry(i);
            let (_, bytes) = Self::value_to_bytes(value);
            assert(s.take(i + 1).drop_last() =~= s.take(i as int));
            assert(s.take(i + 1).last() == s[i as int]);
            let len = bytes.len();
            if len > 4 {
                if len as u64 > 0xFFFF_FFFFu64 {
                    proof {
                        lemma_area_prefix(s, i + 1);
                    }
                    return false;
                }
                let add: u64 = if len % 2 == 1 { len as u64 + 1 } else { len as u64 };
                total = total + add;
                if total > 0xFFFF_FFFFu64 {
                    proof {
                        lemma_area_prefix(s, i + 1);
                    }
                    return false;
                }
            }
            i = i + 1;
        }
        assert(s.take(n as int) =~= s);
        true
    }

    /// The file saved for a field table: the JPEG as it was, with its EXIF
    /// replaced by the table's.
    pub fn write(original: &[u8], entries: &ExifMap) -> (out: Vec<u8>)
        requires
            exif_payload_fits(entries@),
        ensures
            out@ == merged(original@, exif_payload(entries@)),
    {
        let payload = Self::build_exif(entries);
        Self::merge_exif(original, payload.as_slice())
    }
}

/// Why stripping EXIF was refused.
#[derive(Debug, Clone, Copy, PartialEq, Eq, Structural)]
pub enum StripError {
    /// Only JPEG files are supported.
    NotJpeg,
}

impl StripError {
    pub fn message(&self) -> (s: &'static str)
        ensures
            s@ == "仅支持 JPEG 格式"@,
    {
        "仅支持 JPEG 格式"
    }
}

/// A JPEG without EXIF: start-of-image, then every segment except the APP1
/// segments that carried EXIF.
pub open spec fn stripped(data: Seq<u8>) -> Seq<u8> {
    seq![0xFFu8, 0xD8u8] + scan_kept(data, 2, false, false)
}

impl ExifWriter {
    /// Removes every EXIF segment of a JPEG.
    pub fn strip_exif(data: &[u8]) -> (r: Result<Vec<u8>, StripError>)
        ensures
            starts_with_soi(data@) <==> r is Ok,
            r matches Ok(out) ==> out@ == stripped(data@),
    {
        if !has_soi(data) {
            return Err(StripError::NotJpeg);
        }
        let mut out: Vec<u8> = Vec::new();
        out.push(0xFF);
        out.push(0xD8);
        scan_segments(&mut out, data, 2, false, false);
        assert(out@ =~= stripped(data@));
        Ok(out)
    }
}

/// Why a written file was judged unusable.
#[derive(Debug, Clone, Copy, PartialEq, Eq, Structural)]
pub enum WrittenFileError {
    /// The file is empty.
    Empty,
    /// The file is under 100 bytes.
    TooSmall,
    /// The file is neither a JPEG nor a PNG.
    BadFormat,
}

impl WrittenFileError {
    pub fn message(&self) -> (s: &'static str)
        ensures
            *self == WrittenFileError::Empty ==> s@ == "写入的文件为空"@,
            *self == WrittenFileError::TooSmall ==> s@ == "写入的文件过小，可能损坏"@,
            *self == WrittenFileError::BadFormat ==> s@ == "写入的文件格式异常"@,
    {
        match self {
            WrittenFileError::Empty => "写入的文件为空",
            WrittenFileError::TooSmall => "写入的文件过小，可能损坏",
            WrittenFileError::BadFormat => "写入的文件格式异常",
        }
    }
}

/// `data` starts with the PNG signature's first four bytes.
pub open spec fn starts_with_png(data: Seq<u8>) -> bool {
    data.len() >= 4 && data[0] == 0x89 && data[1] == 0x50 && data[2] == 0x4E && data[3] == 0x47
}

impl ExifWriter {
    /// Checks a freshly written file: not empty, at least 100 bytes, and
    /// starting like a JPEG or a PNG.
    pub fn validate_written_file(data: &[u8]) -> (r: Result<(), WrittenFileError>)
        ensures
            data@.len() == 0 ==> r == Err::<(), WrittenFileError>(WrittenFileError::Empty),
            0 < data@.len() < 100 ==> r == Err::<(), WrittenFileError>(WrittenFileError::TooSmall),
            data@.len() >= 100 ==> (r is Ok <==> (starts_with_soi(data@) || starts_with_png(data@))),
            data@.len() >= 100 && r is Err ==> r == Err::<(), WrittenFileError>(WrittenFileError::BadFormat),
    {
        if data.len() == 0 {
            return Err(WrittenFileError::Empty);
        }
        if data.len() < 100 {
            return Err(WrittenFileError::TooSmall);
        }
        if has_soi(data) || (data[0] == 0x89 && data[1] == 0x50 && data[2] == 0x4E && data[3] == 0x47) {
            Ok(())
        } else {
            Err(WrittenFileError::BadFormat)
        }
    }
}

impl ExifWriter {
    /// The temporary file a save is written to first: the path with `.tmp`
    /// appended.
    pub fn tmp_path(path: &str) -> (s: String)
        ensures
            s@ == path@ + ".tmp"@,
    {
        let s = String::from_str(path);
        s.concat(".tmp")
    }
}

} // verus!
