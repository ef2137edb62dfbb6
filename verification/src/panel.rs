//! How the EXIF panel arranges the fields: by group, filtered by the
//! search text.
use vstd::prelude::*;
use crate::model::{ExifGroup, ExifMap, ExifTag, ExifValue, TagView, ValueView, EntryView};
use crate::text::{contains_text, text_contains, text_equal};
use crate::exif::validator::{lowercase, to_lowercase};

verus! {

/// The group a tag is listed under: by IFD for GPS and thumbnail fields,
/// otherwise by tag number.
pub open spec fn group_of(t: TagView) -> ExifGroup {
    let id = t.id;
    if t.ifd == "GPS"@ {
        ExifGroup::GPS
    } else if t.ifd == "Thumbnail"@ {
        ExifGroup::Thumbnail
    } else if id == 0x829A || id == 0x829D || id == 0x8827 || id == 0x9204 || id == 0x8822 || id == 0x9207 || id == 0x9208
        || id == 0x9209 || id == 0x9214 || id == 0xA405 || id == 0xA406 {
        ExifGroup::Exposure
    } else if id == 0xA432 || id == 0xA433 || id == 0xA434 || id == 0xA435 || id == 0xA436 || id == 0xA437 {
        ExifGroup::Lens
    } else if id == 0x010F || id == 0x0110 || id == 0x0112 || id == 0x0131 || id == 0x0132 || id == 0x013B
        || id == 0x8298 || id == 0x8769 {
        ExifGroup::CameraInfo
    } else {
        ExifGroup::Other
    }
}

/// The group a tag is listed under.
pub fn tag_to_group(tag: &ExifTag) -> (g: ExifGroup)
    ensures
        g == group_of(tag@),
{
    let id = tag.id;
    proof {
        reveal_strlit("GPS");
        reveal_strlit("Thumbnail");
    }
    if text_equal(tag.ifd.as_str(), "GPS") {
        ExifGroup::GPS
    } else if text_equal(tag.ifd.as_str(), "Thumbnail") {
        ExifGroup::Thumbnail
    } else if id == 0x829A || id == 0x829D || id == 0x8827 || id == 0x9204 || id == 0x8822 || id == 0x9207 || id == 0x9208
        || id == 0x9209 || id == 0x9214 || id == 0xA405 || id == 0xA406 {
        ExifGroup::Exposure
    } else if id == 0xA432 || id == 0xA433 || id == 0xA434 || id == 0xA435 || id == 0xA436 || id == 0xA437 {
        ExifGroup::Lens
    } else if id == 0x010F || id == 0x0110 || id == 0x0112 || id == 0x0131 || id == 0x0132 || id == 0x013B
        || id == 0x8298 || id == 0x8769 {
        ExifGroup::CameraInfo
    } else {
        ExifGroup::Other
    }
}

/// The groups in the order the panel lists them.
pub open spec fn group_order() -> Seq<ExifGroup> {
    seq![
        ExifGroup::CameraInfo,
        ExifGroup::Exposure,
        ExifGroup::GPS,
        ExifGroup::Lens,
        ExifGroup::Thumbnail,
        ExifGroup::Other,
    ]
}

/// The fields of `s` in group `g`, in table order.
pub open spec fn fields_in_group(s: Seq<EntryView>, g: ExifGroup) -> Seq<EntryView>
    decreases s.len(),
{
    if s.len() == 0 {
        s
    } else if group_of(s.last().0) == g {
        fields_in_group(s.drop_last(), g).push(s.last())
    } else {
        fields_in_group(s.drop_last(), g)
    }
}

/// The non-empty groups among the first `k` of the panel's order, each
/// with its fields.
pub open spec fn grouped_upto(s: Seq<EntryView>, k: int) -> Seq<(ExifGroup, Seq<EntryView>)>
    decreases k,
{
    if k <= 0 {
        Seq::empty()
    } else {
        let g = group_order()[k - 1];
        let rest = grouped_upto(s, k - 1);
        if fields_in_group(s, g).len() > 0 {
            rest.push((g, fields_in_group(s, g)))
        } else {
            rest
        }
    }
}

/// The non-empty groups, in the panel's order, each with its fields in
/// table order.
pub open spec fn grouped(s: Seq<EntryView>) -> Seq<(ExifGroup, Seq<EntryView>)> {
    grouped_upto(s, 6)
}

/// The views of a group list.
pub open spec fn group_views(v: Seq<(ExifGroup, Vec<(ExifTag, ExifValue)>)>) -> Seq<(ExifGroup, Seq<EntryView>)> {
    v.map_values(|e: (ExifGroup, Vec<(ExifTag, ExifValue)>)| (e.0, entry_views(e.1@)))
}

/// The views of a list of fields.
pub open spec fn entry_views(v: Seq<(ExifTag, ExifValue)>) -> Seq<EntryView> {
    v.map_values(|e: (ExifTag, ExifValue)| (e.0@, e.1@))
}

/// The fields of the table in group `g`.
fn collect_group(entries: &ExifMap, g: ExifGroup) -> (v: Vec<(ExifTag, ExifValue)>)
    ensures
        entry_views(v@) == fields_in_group(entries@, g),
{
    let n = entries.len();
    let mut v: Vec<(ExifTag, ExifValue)> = Vec::new();
    let mut i: usize = 0;
    while i < n
        invariant
            n == entries@.len(),
            i <= n,
            entry_views(v@) == fields_in_group(entries@.take(i as int), g),
        decreases n - i,
    {
        let (tag, value) = entries.entry(i);
        let ghost before = entry_views(v@);
        assert(entries@.take(i + 1).drop_last() =~= entries@.take(i as int));
        assert(entries@.take(i + 1).last() == entries@[i as int]);
        if tag_to_group(tag) == g {
            v.push((tag.duplicate(), value.duplicate()));
            assert(entry_views(v@) =~= before.push((tag@, value@)));
        }
        i = i + 1;
    }
    assert(entries@.take(n as int) =~= entries@);
    v
}

/// The fields arranged by group: the non-empty groups in the panel's
/// order (camera, exposure, GPS, lens, thumbnail, other), each with its
/// fields in table order.
pub fn group_exif_entries(entries: &ExifMap) -> (groups: Vec<(ExifGroup, Vec<(ExifTag, ExifValue)>)>)
    ensures
        group_views(groups@) == grouped(entries@),
{
    let mut order: Vec<ExifGroup> = Vec::new();
    order.push(ExifGroup::CameraInfo);
    order.push(ExifGroup::Exposure);
    order.push(ExifGroup::GPS);
    order.push(ExifGroup::Lens);
    order.push(ExifGroup::Thumbnail);
    order.push(ExifGroup::Other);
    assert(order@ =~= group_order());
    let mut groups: Vec<(ExifGroup, Vec<(ExifTag, ExifValue)>)> = Vec::new();
    let mut k: usize = 0;
    while k < 6
        invariant
            k <= 6,
            order@ == group_order(),
            group_views(groups@) == grouped_upto(entries@, k as int),
        decreases 6 - k,
    {
        let g = order[k];
        let fields = collect_group(entries, g);
        let ghost before = group_views(groups@);
        if fields.len() > 0 {
            let ghost fv = entry_views(fields@);
            groups.push((g, fields));
            assert(group_views(groups@) =~= before.push((g, fv)));
        }
        k = k + 1;
    }
    groups
}

/// Whether a field matches the lower-case search text: its name or IFD,
/// in lower case, contains it.
pub open spec fn matches_search(t: TagView, query: Seq<char>) -> bool {
    contains_text(lowercase(t.name), query) || contains_text(lowercase(t.ifd), query)
}

/// The fields of a group the search shows, in order.
pub open spec fn searched(s: Seq<EntryView>, query: Seq<char>) -> Seq<EntryView>
    decreases s.len(),
{
    if s.len() == 0 {
        s
    } else if matches_search(s.last().0, query) {
        searched(s.drop_last(), query).push(s.last())
    } else {
        searched(s.drop_last(), query)
    }
}

/// The fields of a group that the search text shows: all of them for an
/// empty search, otherwise those whose name or IFD contains it, compared in
/// lower case.
pub fn filter_entries(fields: &Vec<(ExifTag, ExifValue)>, search: &str) -> (shown: Vec<(ExifTag, ExifValue)>)
    ensures
        lowercase(search@).len() == 0 ==> entry_views(shown@) == entry_views(fields@),
        lowercase(search@).len() > 0 ==> entry_views(shown@) == searched(entry_views(fields@), lowercase(search@)),
{
    let q = to_lowercase(search);
    let ghost fv = entry_views(fields@);
    let mut shown: Vec<(ExifTag, ExifValue)> = Vec::new();
    let empty = q.as_str().unicode_len() == 0;
    let mut i: usize = 0;
    while i < fields.len()
        invariant
            i <= fields@.len(),
            fv == entry_views(fields@),
            q@ == lowercase(search@),
            empty == (q@.len() == 0),
            empty ==> entry_views(shown@) == fv.take(i as int),
            !empty ==> entry_views(shown@) == searched(fv.take(i as int), q@),
        decreases fields@.len() - i,
    {
        let e = &fields[i];
        let ghost before = entry_views(shown@);
        assert(fv.take(i + 1).drop_last() =~= fv.take(i as int));
        assert(fv.take(i + 1).last() == (e.0@, e.1@));
        let keep = if empty {
            true
        } else {
            let name = to_lowercase(e.0.name.as_str());
            let ifd = to_lowercase(e.0.ifd.as_str());
            text_contains(name.as_str(), q.as_str()) || text_contains(ifd.as_str(), q.as_str())
        };
        if keep {
            shown.push((e.0.duplicate(), e.1.duplicate()));
            assert(entry_views(shown@) =~= before.push((e.0@, e.1@)));
        }
        proof {
            if empty {
                assert(fv.take(i + 1) =~= fv.take(i as int).push(fv[i as int]));
            }
        }
        i = i + 1;
    }
    assert(fv.take(fields@.len() as int) =~= fv);
    shown
}

} // verus!
