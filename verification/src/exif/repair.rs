//! JPEG health checks and repair.
use vstd::prelude::*;
use crate::exif::jpeg::{has_soi, push_range, read_seg_len, seg_len_at, starts_with_soi};
use crate::text::{decimal, push_decimal, push_str, string_from_chars};

verus! {

/// `data` starts like a JPEG, a PNG, or a TIFF in either byte order.
pub open spec fn format_ok(data: Seq<u8>) -> bool {
    ||| starts_with_soi(data)
    ||| data.len() >= 4 && data[0] == 0x89 && data[1] == 0x50 && data[2] == 0x4E && data[3] == 0x47
    ||| data.len() >= 2 && data[0] == 0x49 && data[1] == 0x49
    ||| data.len() >= 2 && data[0] == 0x4D && data[1] == 0x4D
}

/// The segment walk from `i` reaches start-of-scan or end-of-image, or the
/// end of the data, without meeting a segment whose length is below two or
/// runs past the end, or a marker too close to the end to hold a length.
pub open spec fn jfif_ok_from(data: Seq<u8>, i: int) -> bool
    decreases data.len() - i,
{
    if i < 0 || i + 1 >= data.len() {
        true
    } else if data[i] != 0xFF {
        jfif_ok_from(data, i + 1)
    } else {
        let m = data[i + 1];
        if m == 0xD8 || m == 0xFF || m == 0x00 {
            jfif_ok_from(data, i + 1)
        } else if m == 0xDA || m == 0xD9 {
            true
        } else if i + 3 >= data.len() {
            false
        } else {
            let n = seg_len_at(data, i);
            if n < 2 || i + 2 + n > data.len() {
                false
            } else {
                jfif_ok_from(data, i + 2 + n)
            }
        }
    }
}

/// The segment structure of a JPEG is sound; anything else passes.
pub open spec fn jfif_ok(data: Seq<u8>) -> bool {
    !starts_with_soi(data) || jfif_ok_from(data, 2)
}

/// The first EXIF APP1 segment met from `i` holds a TIFF header (`II` with
/// magic 42 little-endian, or `MM` with magic 42 big-endian); the walk
/// fails on a marker too close to the end and stops at start-of-scan.
pub open spec fn exif_ok_from(data: Seq<u8>, i: int) -> bool
    decreases data.len() - i,
{
    if i < 0 || i + 1 >= data.len() {
        true
    } else if data[i] != 0xFF {
        exif_ok_from(data, i + 1)
    } else {
        let m = data[i + 1];
        if m == 0xFF || m == 0x00 || m == 0xD8 {
            exif_ok_from(data, i + 1)
        } else if i + 3 >= data.len() {
            false
        } else if m == 0xE1 && i + 10 <= data.len() && data[i + 4] == 0x45 && data[i + 5] == 0x78
            && data[i + 6] == 0x69 && data[i + 7] == 0x66 && data[i + 8] == 0 && data[i + 9] == 0 {
            let t = i + 10;
            if t + 8 > data.len() {
                false
            } else if data[t] == 0x49 && data[t + 1] == 0x49 {
                data[t + 2] == 0x2A && data[t + 3] == 0
            } else if data[t] == 0x4D && data[t + 1] == 0x4D {
                data[t + 2] == 0 && data[t + 3] == 0x2A
            } else {
                false
            }
        } else if m == 0xDA {
            true
        } else if i + 2 + seg_len_at(data, i) > data.len() {
            true
        } else {
            exif_ok_from(data, i + 2 + seg_len_at(data, i))
        }
    }
}

/// A JPEG's EXIF segment, if any, is sound; anything else passes.
pub open spec fn exif_ok(data: Seq<u8>) -> bool {
    !starts_with_soi(data) || exif_ok_from(data, 2)
}

/// The byte order a TIFF header at `t` declares: `II` little-endian, `MM`
/// big-endian.
pub open spec fn tiff_little_endian(b: Seq<u8>, t: int) -> bool {
    b[t] == 0x49 && b[t + 1] == 0x49
}

pub open spec fn tiff_big_endian(b: Seq<u8>, t: int) -> bool {
    b[t] == 0x4D && b[t + 1] == 0x4D
}

/// The 16-bit magic number of a TIFF header at `t`, read in the byte order
/// the header declares.
pub open spec fn tiff_magic(b: Seq<u8>, t: int) -> int {
    if tiff_little_endian(b, t) {
        b[t + 2] + 256 * b[t + 3]
    } else {
        256 * b[t + 2] + b[t + 3]
    }
}

/// A JPEG whose first segment is an EXIF APP1 segment passes the EXIF
/// check exactly when the TIFF header after the `Exif` signature declares a
/// byte order (`II` or `MM`) and holds the magic number 42 read in that byte
/// order.
pub proof fn law_exif_check_reads_header_byte_order(data: Seq<u8>)
    requires
        data.len() >= 20,
        starts_with_soi(data),
        data[2] == 0xFF && data[3] == 0xE1,
        data[6] == 0x45 && data[7] == 0x78 && data[8] == 0x69 && data[9] == 0x66 && data[10] == 0 && data[11] == 0,
    ensures
        exif_ok(data) <==> (tiff_little_endian(data, 12) || tiff_big_endian(data, 12)) && tiff_magic(data, 12) == 42,
{
    assert(exif_ok(data) == exif_ok_from(data, 2));
}

/// A frame marker: `C0` to `CF` but `C4` (Huffman table) and `CC`
/// (arithmetic coding).
pub open spec fn is_sof(m: u8) -> bool {
    0xC0 <= m <= 0xCF && m != 0xC4 && m != 0xCC
}

/// The marker walk from `i`, a frame marker seen or not: start-of-scan
/// passes, end-of-image passes only as the last two bytes, a malformed
/// segment fails, and running out of data passes only after a frame marker.
pub open spec fn markers_ok_from(data: Seq<u8>, i: int, found_sof: bool) -> bool
    decreases data.len() - i,
{
    if i < 0 || i + 1 >= data.len() {
        found_sof
    } else if data[i] != 0xFF {
        markers_ok_from(data, i + 1, found_sof)
    } else {
        let m = data[i + 1];
        if m == 0xFF || m == 0x00 {
            markers_ok_from(data, i + 1, found_sof)
        } else if m == 0xDA {
            true
        } else if m == 0xD9 {
            i + 2 == data.len()
        } else if i + 3 >= data.len() {
            false
        } else {
            let n = seg_len_at(data, i);
            if n < 2 || i + 2 + n > data.len() {
                false
            } else {
                markers_ok_from(data, i + 2 + n, found_sof || is_sof(m))
            }
        }
    }
}

/// A JPEG's markers are sound; anything else passes.
pub open spec fn markers_ok(data: Seq<u8>) -> bool {
    !starts_with_soi(data) || markers_ok_from(data, 2, false)
}

/// The health report of a file.
#[derive(Debug, Default, Clone, Copy, PartialEq, Eq, Structural)]
pub struct ExifHealth {
    /// From 0 to 100.
    pub score: u32,
    pub format_valid: bool,
    pub jfif_valid: bool,
    pub exif_valid: bool,
    pub marker_valid: bool,
}

/// The score of a report: 100, less 50 for a bad format, 20 for a bad
/// segment structure, 20 for a bad EXIF segment and 10 for bad markers.
pub open spec fn score_of(format_valid: bool, jfif_valid: bool, exif_valid: bool, marker_valid: bool) -> int {
    100 - (if format_valid { 0int } else { 50 }) - (if jfif_valid { 0int } else { 20 })
        - (if exif_valid { 0int } else { 20 }) - (if marker_valid { 0int } else { 10 })
}

/// The report of a file: the format check for any file, the JPEG checks
/// only for a JPEG (false otherwise), and the score.
pub open spec fn health_of(data: Seq<u8>) -> ExifHealth {
    let jpeg = starts_with_soi(data);
    let f = format_ok(data);
    let j = jpeg && jfif_ok(data);
    let e = jpeg && exif_ok(data);
    let m = jpeg && markers_ok(data);
    ExifHealth {
        score: score_of(f, j, e, m) as u32,
        format_valid: f,
        jfif_valid: j,
        exif_valid: e,
        marker_valid: m,
    }
}

/// The label of a score: good from 90, slightly damaged from 70, damaged
/// from 50, badly damaged below.
pub open spec fn status_label_of(score: u32) -> Seq<char> {
    if score >= 90 {
        "✅ 良好"@
    } else if score >= 70 {
        "⚠️ 轻微损坏"@
    } else if score >= 50 {
        "⚠️ 损坏"@
    } else {
        "❌ 严重损坏"@
    }
}

impl ExifHealth {
    pub fn status_label(&self) -> (s: &'static str)
        ensures
            s@ == status_label_of(self.score),
    {
        if self.score >= 90 {
            "✅ 良好"
        } else if self.score >= 70 {
            "⚠️ 轻微损坏"
        } else if self.score >= 50 {
            "⚠️ 损坏"
        } else {
            "❌ 严重损坏"
        }
    }
}

/// EXIF integrity checks and repair.
pub struct ExifRepairer;

impl ExifRepairer {
    pub fn check_format(data: &[u8]) -> (b: bool)
        ensures
            b == format_ok(data@),
    {
        has_soi(data)
            || (data.len() >= 4 && data[0] == 0x89 && data[1] == 0x50 && data[2] == 0x4E && data[3] == 0x47)
            || (data.len() >= 2 && data[0] == 0x49 && data[1] == 0x49)
            || (data.len() >= 2 && data[0] == 0x4D && data[1] == 0x4D)
    }

    pub fn check_jfif(data: &[u8]) -> (b: bool)
        ensures
            b == jfif_ok(data@),
    {
        if !has_soi(data) {
            return true;
        }
        let ghost d = data@;
        let mut i: usize = 2;
        while i < data.len() && data.len() - i > 1
            invariant
                d == data@,
                starts_with_soi(d),
                2 <= i <= data@.len(),
                jfif_ok_from(d, 2) == jfif_ok_from(d, i as int),
            decreases data@.len() - i,
        {
            if data[i] != 0xFF {
                i = i + 1;
                continue;
            }
            let marker = data[i + 1];
            if marker == 0xD8 || marker == 0xFF || marker == 0x00 {
                i = i + 1;
                continue;
            }
            if marker == 0xDA || marker == 0xD9 {
                return true;
            }
            if data.len() - i <= 3 {
                assert(!jfif_ok_from(d, i as int));
                return false;
            }
            let seg_len = read_seg_len(data, i);
            if seg_len < 2 || seg_len + 2 > data.len() - i {
                assert(!jfif_ok_from(d, i as int));
                return false;
            }
            i = i + 2 + seg_len;
        }
        true
    }

    pub fn check_exif_integrity(data: &[u8]) -> (b: bool)
        ensures
            b == exif_ok(data@),
    {
        if !has_soi(data) {
            return true;
        }
        let ghost d = data@;
        let mut i: usize = 2;
        while i < data.len() && data.len() - i > 1
            invariant
                d == data@,
                starts_with_soi(d),
                2 <= i <= data@.len(),
                exif_ok_from(d, 2) == exif_ok_from(d, i as int),
            decreases data@.len() - i,
        {
            if data[i] != 0xFF {
                i = i + 1;
                continue;
            }
            let marker = data[i + 1];
            if marker == 0xFF || marker == 0x00 || marker == 0xD8 {
                i = i + 1;
                continue;
            }
            if data.len() - i <= 3 {
                return false;
            }
            let seg_len = read_seg_len(data, i);
            if marker == 0xE1 && data.len() - i >= 10 {
                if data[i + 4] == 0x45 && data[i + 5] == 0x78 && data[i + 6] == 0x69 && data[i + 7] == 0x66
                    && data[i + 8] == 0 && data[i + 9] == 0 {
                    let t = i + 10;
                    if data.len() - t < 8 {
                        return false;
                    }
                    if data[t] == 0x49 && data[t + 1] == 0x49 {
                        return data[t + 2] == 0x2A && data[t + 3] == 0;
                    } else if data[t] == 0x4D && data[t + 1] == 0x4D {
                        return data[t + 2] == 0 && data[t + 3] == 0x2A;
                    } else {
                        return false;
                    }
                }
            }
            if marker == 0xDA {
                return true;
            }
            if seg_len + 2 > data.len() - i {
                assert(exif_ok_from(d, i + 2 + seg_len) == true);
                return true;
            }
            i = i + 2 + seg_len;
        }
        true
    }

    pub fn check_markers(data: &[u8]) -> (b: bool)
        ensures
            b == markers_ok(data@),
    {
        if !has_soi(data) {
            return true;
        }
        let ghost d = data@;
        let mut found_sof = false;
        let mut i: usize = 2;
        while i < data.len() && data.len() - i > 1
            invariant
                d == data@,
                starts_with_soi(d),
                2 <= i <= data@.len(),
                markers_ok_from(d, 2, false) == markers_ok_from(d, i as int, found_sof),
            decreases data@.len() - i,
        {
            if data[i] != 0xFF {
                i = i + 1;
                continue;
            }
            let marker = data[i + 1];
            if marker == 0xFF || marker == 0x00 {
                i = i + 1;
                continue;
            }
            if marker == 0xDA {
                return true;
            }
            if marker == 0xD9 {
                return data.len() - i == 2;
            }
            if data.len() - i <= 3 {
                return false;
            }
            let seg_len = read_seg_len(data, i);
            if marker >= 0xC0 && marker <= 0xCF && marker != 0xC4 && marker != 0xCC {
                found_sof = true;
            }
            if seg_len < 2 {
                return false;
            }
            if seg_len + 2 > data.len() - i {
                return false;
            }
            i = i + 2 + seg_len;
        }
        found_sof
    }

    /// The score of a report.
    pub fn calculate_score(health: &ExifHealth) -> (score: u32)
        ensures
            score == score_of(health.format_valid, health.jfif_valid, health.exif_valid, health.marker_valid),
    {
        let mut score: u32 = 100;
        if !health.format_valid {
            score = score - 50;
        }
        if !health.jfif_valid {
            score = score - 20;
        }
        if !health.exif_valid {
            score = score - 20;
        }
        if !health.marker_valid {
            score = score - 10;
        }
        score
    }

    /// The health report of a file's bytes.
    pub fn validate(data: &[u8]) -> (health: ExifHealth)
        ensures
            health == health_of(data@),
    {
        let mut health = ExifHealth {
            score: 0,
            format_valid: false,
            jfif_valid: false,
            exif_valid: false,
            marker_valid: false,
        };
        health.format_valid = Self::check_format(data);
        if has_soi(data) {
            health.jfif_valid = Self::check_jfif(data);
            health.exif_valid = Self::check_exif_integrity(data);
            health.marker_valid = Self::check_markers(data);
        }
        health.score = Self::calculate_score(&health);
        health
    }
}


/// Where the entropy-coded data that follows a start-of-scan ends, walking
/// `d` from `i`: just after the first `FF 00` or `FF D9`, jumping over any
/// other marker that has room for a length.
pub open spec fn sos_end_from(d: Seq<u8>, i: int) -> Option<int>
    decreases d.len() - i,
{
    if i < 0 || i + 1 >= d.len() {
        None
    } else if d[i] == 0xFF && (d[i + 1] == 0x00 || d[i + 1] == 0xD9) {
        Some(i + 2)
    } else if d[i] == 0xFF && d[i + 1] != 0xFF && i + 3 < d.len() {
        let next = i + 2 + seg_len_at(d, i);
        if next >= d.len() { None } else { sos_end_from(d, next) }
    } else {
        sos_end_from(d, i + 1)
    }
}

/// Where a JPEG's useful bytes end, searching backwards from index `i`: just
/// after the last `FF D9`, or after the scan data that follows an `FF DA`;
/// the whole file when neither is found.
pub open spec fn trim_end_from(data: Seq<u8>, i: int) -> int
    decreases i + 1,
{
    if i < 0 {
        data.len() as int
    } else if i + 1 < data.len() && data[i] == 0xFF && data[i + 1] == 0xD9 {
        i + 2
    } else if i + 1 < data.len() && data[i] == 0xFF && data[i + 1] == 0xDA && sos_end_from(data.skip(i), 0) is Some {
        i + sos_end_from(data.skip(i), 0).unwrap()
    } else {
        trim_end_from(data, i - 1)
    }
}

/// A file without the garbage after its end.
pub open spec fn trimmed(data: Seq<u8>) -> Seq<u8> {
    if data.len() == 0 {
        seq![]
    } else {
        data.take(trim_end_from(data, data.len() - 2))
    }
}

/// What the cleaning walk keeps from index `i`: well-formed segments are
/// kept, bytes of malformed ones are dropped one at a time, a stray
/// start-of-image is dropped, a marker too close to the end to hold a
/// length ends the walk (an end-of-image there included), otherwise
/// start-of-scan keeps the rest and end-of-image ends the file.
pub open spec fn clean_from(data: Seq<u8>, i: int) -> Seq<u8>
    decreases data.len() - i,
{
    if i < 0 || i + 1 >= data.len() {
        seq![]
    } else if data[i] != 0xFF {
        clean_from(data, i + 1)
    } else {
        let m = data[i + 1];
        if m == 0xFF || m == 0x00 {
            clean_from(data, i + 1)
        } else if m == 0xD8 {
            clean_from(data, i + 2)
        } else if i + 3 >= data.len() {
            seq![]
        } else if m == 0xDA {
            data.skip(i)
        } else if m == 0xD9 {
            seq![0xFFu8, 0xD9u8]
        } else {
            let n = seg_len_at(data, i);
            if n < 2 || i + 2 + n > data.len() {
                clean_from(data, i + 1)
            } else {
                data.subrange(i, i + 2 + n) + clean_from(data, i + 2 + n)
            }
        }
    }
}

/// A JPEG with its malformed segments removed; anything else as is.
pub open spec fn cleaned(data: Seq<u8>) -> Seq<u8> {
    if !starts_with_soi(data) {
        data
    } else {
        seq![0xFFu8, 0xD8u8] + clean_from(data, 2)
    }
}

/// `data` ends with `FF D9`.
pub open spec fn ends_with_eoi(data: Seq<u8>) -> bool {
    data.len() >= 2 && data[data.len() - 2] == 0xFF && data[data.len() - 1] == 0xD9
}

/// The repaired file: trimmed, cleaned, and closed by end-of-image.
pub open spec fn repaired(data: Seq<u8>) -> Seq<u8> {
    let c = cleaned(trimmed(data));
    if ends_with_eoi(c) { c } else { c + seq![0xFFu8, 0xD9u8] }
}

/// What a repair did.
#[derive(Debug, Clone)]
pub struct RepairResult {
    /// One line per repair made.
    pub repairs: Vec<String>,
    /// The length of the file before the repair less its length after.
    pub bytes_saved: i64,
}

/// Why a repair was refused.
#[derive(Debug, Clone, Copy, PartialEq, Eq, Structural)]
pub enum RepairError {
    /// Only JPEG files can be repaired.
    NotJpeg,
    /// The repaired file still fails the format or marker check.
    StillBroken,
}

impl RepairError {
    pub fn message(&self) -> (s: &'static str)
        ensures
            *self == RepairError::NotJpeg ==> s@ == "仅支持 JPEG 格式的修复"@,
            *self == RepairError::StillBroken ==> s@ == "修复后文件格式仍然异常"@,
    {
        match self {
            RepairError::NotJpeg => "仅支持 JPEG 格式的修复",
            RepairError::StillBroken => "修复后文件格式仍然异常",
        }
    }
}

/// The repair log line for removed trailing bytes.
pub open spec fn trim_message(n: nat) -> Seq<char> {
    "移除尾部垃圾数据 ("@ + decimal(n) + " 字节)"@
}

/// The repair log of a file.
pub open spec fn repair_log(data: Seq<u8>) -> Seq<Seq<char>> {
    let t = trimmed(data);
    let c = cleaned(t);
    let log1: Seq<Seq<char>> = if t.len() < data.len() { seq![trim_message((data.len() - t.len()) as nat)] } else { seq![] };
    let log2: Seq<Seq<char>> = if c.len() != t.len() { log1.push("清理格式错误的段"@) } else { log1 };
    if ends_with_eoi(c) { log2 } else { log2.push("添加缺失的 EOI 标记"@) }
}

impl ExifRepairer {
    /// Where the scan data that starts `d` ends.
    pub fn find_sos_end(d: &[u8]) -> (r: Option<usize>)
        ensures
            match r {
                Some(e) => sos_end_from(d@, 0) == Some(e as int),
                None => sos_end_from(d@, 0) is None,
            },
    {
        let ghost dv = d@;
        let mut i: usize = 0;
        while i < d.len() && d.len() - i > 1
            invariant
                dv == d@,
                i <= d@.len(),
                sos_end_from(dv, 0) == sos_end_from(dv, i as int),
            decreases d@.len() - i,
        {
            if d[i] == 0xFF {
                let next = d[i + 1];
                if next == 0x00 || next == 0xD9 {
                    return Some(i + 2);
                }
                if next != 0xFF && d.len() - i > 3 {
                    let seg_len = read_seg_len(d, i);
                    if seg_len + 2 >= d.len() - i {
                        return None;
                    }
                    i = i + 2 + seg_len;
                    continue;
                }
            }
            i = i + 1;
        }
        None
    }

    /// The file without the garbage after its end.
    pub fn trim_trailing_garbage(data: &[u8]) -> (out: Vec<u8>)
        ensures
            out@ == trimmed(data@),
    {
        if data.len() == 0 {
            return Vec::new();
        }
        let ghost dv = data@;
        let mut end = data.len();
        let mut k: usize = data.len() - 1;
        // `k` counts the candidates left: index `k - 1` is examined next.
        while k > 0
            invariant
                dv == data@,
                dv.len() > 0,
                k <= dv.len() - 1,
                end == data@.len(),
                trim_end_from(dv, dv.len() - 2) == trim_end_from(dv, k - 1),
            decreases k,
        {
            let i = k - 1;
            if data[i] == 0xFF && data[i + 1] == 0xD9 {
                let e = i + 2;
                assert(trim_end_from(dv, i as int) == e);
                let out = vstd::slice::slice_to_vec(vstd::slice::slice_subrange(data, 0, e));
                assert(out@ =~= dv.take(e as int));
                return out;
            }
            if data[i] == 0xFF && data[i + 1] == 0xDA {
                let tail = vstd::slice::slice_subrange(data, i, data.len());
                assert(tail@ =~= dv.skip(i as int));
                match Self::find_sos_end(tail) {
                    Some(se) => {
                        proof {
                            lemma_sos_end_bounded(dv.skip(i as int), 0);
                        }
                        let e = i + se;
                        assert(trim_end_from(dv, i as int) == e);
                        let out = vstd::slice::slice_to_vec(vstd::slice::slice_subrange(data, 0, e));
                        assert(out@ =~= dv.take(e as int));
                        return out;
                    },
                    None => {},
                }
            }
            k = k - 1;
        }
        let out = vstd::slice::slice_to_vec(data);
        assert(out@ =~= dv.take(end as int));
        out
    }

    /// The JPEG with its malformed segments removed; anything else as is.
    pub fn clean_malformed_segments(data: &[u8]) -> (out: Vec<u8>)
        ensures
            out@ == cleaned(data@),
    {
        if !has_soi(data) {
            return vstd::slice::slice_to_vec(data);
        }
        let ghost dv = data@;
        let mut out: Vec<u8> = Vec::new();
        out.push(0xFF);
        out.push(0xD8);
        let mut i: usize = 2;
        assert(seq![0xFFu8, 0xD8u8] + clean_from(dv, 2) =~= out@ + clean_from(dv, i as int));
        while i < data.len() && data.len() - i > 1
            invariant
                dv == data@,
                starts_with_soi(dv),
                2 <= i <= data@.len(),
                seq![0xFFu8, 0xD8u8] + clean_from(dv, 2) == out@ + clean_from(dv, i as int),
            decreases data@.len() - i,
        {
            if data[i] != 0xFF {
                i = i + 1;
                continue;
            }
            let marker = data[i + 1];
            if marker == 0xFF || marker == 0x00 {
                i = i + 1;
                continue;
            }
            if marker == 0xD8 {
                i = i + 2;
                continue;
            }
            if data.len() - i <= 3 {
                assert(out@ =~= out@ + clean_from(dv, i as int));
                return out;
            }
            let seg_len = read_seg_len(data, i);
            if marker == 0xDA {
                push_range(&mut out, data, i, data.len());
                assert(dv.subrange(i as int, dv.len() as int) =~= dv.skip(i as int));
                return out;
            }
            if marker == 0xD9 {
                out.push(0xFF);
                out.push(0xD9);
                return out;
            }
            if seg_len < 2 || seg_len + 2 > data.len() - i {
                i = i + 1;
                continue;
            }
            let ghost before = out@;
            push_range(&mut out, data, i, i + 2 + seg_len);
            assert(before + clean_from(dv, i as int) =~= out@ + clean_from(dv, i + 2 + seg_len));
            i = i + 2 + seg_len;
        }
        assert(clean_from(dv, i as int) =~= Seq::<u8>::empty());
        assert(out@ =~= seq![0xFFu8, 0xD8u8] + clean_from(dv, 2));
        out
    }

    /// Repairs a JPEG: removes the garbage after its end, drops malformed
    /// segments and closes it with end-of-image; the result must then pass
    /// the format and marker checks. Returns the repaired bytes and the log.
    pub fn repair(data: &[u8]) -> (r: Result<(Vec<u8>, RepairResult), RepairError>)
        requires
            data@.len() + 2 <= i64::MAX,
        ensures
            !starts_with_soi(data@) ==> r == Err::<(Vec<u8>, RepairResult), RepairError>(RepairError::NotJpeg),
            starts_with_soi(data@) && (format_ok(repaired(data@)) && markers_ok(repaired(data@))) ==> r is Ok,
            starts_with_soi(data@) && !(format_ok(repaired(data@)) && markers_ok(repaired(data@)))
                ==> r == Err::<(Vec<u8>, RepairResult), RepairError>(RepairError::StillBroken),
            r matches Ok((fixed, result)) ==> {
                &&& fixed@ == repaired(data@)
                &&& format_ok(fixed@) && markers_ok(fixed@)
                &&& result.repairs@.map_values(|s: String| s@) == repair_log(data@)
                &&& result.bytes_saved == data@.len() - fixed@.len()
            },
    {
        if !has_soi(data) {
            return Err(RepairError::NotJpeg);
        }
        let ghost dv = data@;
        let mut repairs: Vec<String> = Vec::new();
        let trimmed_bytes = Self::trim_trailing_garbage(data);
        if trimmed_bytes.len() < data.len() {
            let mut msg: Vec<char> = Vec::new();
            push_str(&mut msg, "移除尾部垃圾数据 (");
            push_decimal(&mut msg, (data.len() - trimmed_bytes.len()) as u64);
            push_str(&mut msg, " 字节)");
            repairs.push(string_from_chars(&msg));
        }
        let ghost log1 = repairs@.map_values(|s: String| s@);
        let cleaned_bytes = Self::clean_malformed_segments(trimmed_bytes.as_slice());
        if cleaned_bytes.len() != trimmed_bytes.len() {
            repairs.push(String::from_str("清理格式错误的段"));
        }
        let mut fixed = cleaned_bytes;
        let n = fixed.len();
        if !(n >= 2 && fixed[n - 2] == 0xFF && fixed[n - 1] == 0xD9) {
            repairs.push(String::from_str("添加缺失的 EOI 标记"));
            fixed.push(0xFF);
            fixed.push(0xD9);
        }
        assert(fixed@ =~= repaired(dv));
        assert(repairs@.map_values(|s: String| s@) =~= repair_log(dv));
        if !Self::check_format(fixed.as_slice()) || !Self::check_markers(fixed.as_slice()) {
            return Err(RepairError::StillBroken);
        }
        proof {
            lemma_trim_end_bounded(dv, dv.len() - 2);
            lemma_clean_len(trimmed(dv), 2);
        }
        let saved: i64 = data.len() as i64 - fixed.len() as i64;
        Ok((fixed, RepairResult { repairs, bytes_saved: saved }))
    }
}

proof fn lemma_sos_end_bounded(d: Seq<u8>, i: int)
    ensures
        sos_end_from(d, i) matches Some(e) ==> 0 < e <= d.len(),
    decreases d.len() - i,
{
    if i < 0 || i + 1 >= d.len() {
    } else if d[i] == 0xFF && (d[i + 1] == 0x00 || d[i + 1] == 0xD9) {
    } else if d[i] == 0xFF && d[i + 1] != 0xFF && i + 3 < d.len() {
        let next = i + 2 + seg_len_at(d, i);
        if next < d.len() {
            lemma_sos_end_bounded(d, next);
        }
    } else {
        lemma_sos_end_bounded(d, i + 1);
    }
}

proof fn lemma_trim_end_bounded(data: Seq<u8>, i: int)
    requires
        i >= -1,
        data.len() > 0,
    ensures
        0 <= trim_end_from(data, i) <= data.len(),
    decreases i + 1,
{
    if i < 0 {
    } else if i + 1 < data.len() && data[i] == 0xFF && data[i + 1] == 0xD9 {
    } else if i + 1 < data.len() && data[i] == 0xFF && data[i + 1] == 0xDA && sos_end_from(data.skip(i), 0) is Some {
        lemma_sos_end_bounded(data.skip(i), 0);
    } else {
        lemma_trim_end_bounded(data, i - 1);
    }
}

proof fn lemma_clean_len(data: Seq<u8>, i: int)
    requires
        0 <= i,
    ensures
        clean_from(data, i).len() <= if i <= data.len() { data.len() - i } else { 0 },
    decreases data.len() - i,
{
    if i < 0 || i + 1 >= data.len() {
    } else if data[i] != 0xFF {
        lemma_clean_len(data, i + 1);
    } else {
        let m = data[i + 1];
        if m == 0xFF || m == 0x00 {
            lemma_clean_len(data, i + 1);
        } else if m == 0xD8 {
            lemma_clean_len(data, i + 2);
        } else if i + 3 >= data.len() {
        } else if m == 0xDA {
        } else if m == 0xD9 {
        } else {
            let n = seg_len_at(data, i);
            if n < 2 || i + 2 + n > data.len() {
                lemma_clean_len(data, i + 1);
            } else {
                lemma_clean_len(data, i + 2 + n);
            }
        }
    }
}

} // verus!
