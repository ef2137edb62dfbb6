//! Side-by-side comparison of the EXIF fields of two images.
use vstd::prelude::*;
use crate::model::{ExifMap, ExifTag, ExifValue, TagView, ValueView, EntryView, has_key, lookup,
    lemma_lookup_at};
use crate::text::{seq_lt, text_less, lemma_seq_lt_irreflexive, lemma_seq_lt_total,
    lemma_seq_lt_transitive};
use crate::exif::reader::{ExifReader, ReadError, container_fields, table_of};
use crate::exif::formatter::{ExifFormatter, Formatted, FormattedView, formatted_of};

verus! {

// ============================================================================
// The order of tags: by number, then IFD, then name
// ============================================================================

/// `a` comes before `b`: by number, then by IFD name, then by tag name.
pub open spec fn tag_lt(a: TagView, b: TagView) -> bool {
    ||| a.id < b.id
    ||| (a.id == b.id && seq_lt(a.ifd, b.ifd))
    ||| (a.id == b.id && a.ifd == b.ifd && seq_lt(a.name, b.name))
}

/// The tag order is a strict total order.
pub proof fn lemma_tag_lt_order(a: TagView, b: TagView, c: TagView)
    ensures
        !tag_lt(a, a),
        a != b ==> (tag_lt(a, b) || tag_lt(b, a)),
        !(tag_lt(a, b) && tag_lt(b, a)),
        tag_lt(a, b) && tag_lt(b, c) ==> tag_lt(a, c),
{
    lemma_seq_lt_irreflexive(a.ifd);
    lemma_seq_lt_irreflexive(a.name);
    lemma_seq_lt_total(a.ifd, b.ifd);
    lemma_seq_lt_total(a.name, b.name);
    if tag_lt(a, b) && tag_lt(b, c) {
        if a.id == b.id && b.id == c.id {
            if seq_lt(a.ifd, b.ifd) && seq_lt(b.ifd, c.ifd) {
                lemma_seq_lt_transitive(a.ifd, b.ifd, c.ifd);
            }
            if a.ifd == b.ifd && b.ifd == c.ifd && seq_lt(a.name, b.name) && seq_lt(b.name, c.name) {
                lemma_seq_lt_transitive(a.name, b.name, c.name);
            }
        }
    }
}

/// The views of a list of tags.
pub open spec fn tag_views(v: Seq<ExifTag>) -> Seq<TagView> {
    v.map_values(|t: ExifTag| t@)
}

/// Each tag comes strictly before the next ones.
pub open spec fn strictly_sorted(s: Seq<TagView>) -> bool {
    forall|i: int, j: int| 0 <= i < j < s.len() ==> tag_lt(#[trigger] s[i], #[trigger] s[j])
}

/// Whether `a` comes before `b`.
pub fn tag_less(a: &ExifTag, b: &ExifTag) -> (r: bool)
    ensures
        r == tag_lt(a@, b@),
{
    if a.id != b.id {
        return a.id < b.id;
    }
    if a.ifd != b.ifd {
        return text_less(a.ifd.as_str(), b.ifd.as_str());
    }
    proof {
        lemma_seq_lt_irreflexive(a.ifd@);
    }
    text_less(a.name.as_str(), b.name.as_str())
}

/// Adds `t` to a strictly sorted list, unless it is there already.
fn insert_sorted(tags: &mut Vec<ExifTag>, t: &ExifTag)
    requires
        strictly_sorted(tag_views(old(tags)@)),
    ensures
        strictly_sorted(tag_views(final(tags)@)),
        forall|x: TagView| tag_views(final(tags)@).contains(x) <==> (tag_views(old(tags)@).contains(x)
            || x == t@),
{
    let ghost before = tag_views(tags@);
    let mut i: usize = 0;
    while i < tags.len() && tag_less(&tags[i], t)
        invariant
            i <= tags@.len(),
            tag_views(tags@) == before,
            strictly_sorted(before),
            forall|k: int| 0 <= k < i ==> tag_lt(#[trigger] before[k], t@),
        decreases tags@.len() - i,
    {
        i = i + 1;
    }
    if i < tags.len() && tags[i].same(t) {
        assert(before[i as int] == t@);
        return;
    }
    proof {
        if i < before.len() {
            lemma_tag_lt_order(before[i as int], t@, t@);
            assert(tag_lt(t@, before[i as int]));
        }
    }
    tags.insert(i, t.duplicate());
    proof {
        let after = tag_views(tags@);
        assert(after =~= before.insert(i as int, t@));
        assert forall|a: int, b: int| 0 <= a < b < after.len() implies tag_lt(
            #[trigger] after[a],
            #[trigger] after[b],
        ) by {
            if a < i && b == i {
            } else if a < i && b > i {
                assert(after[b] == before[b - 1]);
            } else if a == i {
                assert(after[b] == before[b - 1]);
                if b - 1 > i {
                    lemma_tag_lt_order(t@, before[i as int], before[b - 1]);
                }
            } else {
                assert(after[a] == before[a - 1] || a < i);
            }
        }
        assert forall|x: TagView| after.contains(x) <==> (before.contains(x) || x == t@) by {
            if after.contains(x) {
                let k = choose|k: int| 0 <= k < after.len() && after[k] == x;
                if k < i {
                    assert(before[k] == x);
                } else if k > i {
                    assert(before[k - 1] == x);
                }
            }
            if before.contains(x) {
                let k = choose|k: int| 0 <= k < before.len() && before[k] == x;
                if k < i {
                    assert(after[k] == x);
                } else {
                    assert(after[k + 1] == x);
                }
            }
            if x == t@ {
                assert(after[i as int] == x);
            }
        }
    }
}

/// The value held by an optional field.
pub open spec fn value_opt(o: Option<ExifValue>) -> Option<ValueView> {
    match o {
        Some(v) => Some(v@),
        None => None,
    }
}

// ============================================================================
// Differences
// ============================================================================

/// How a field differs between the two images.
#[derive(Debug, Clone, Copy, PartialEq, Eq, Structural)]
pub enum DiffType {
    Modified,
    OnlyLeft,
    OnlyRight,
}

/// The label of a difference.
pub open spec fn diff_label(d: DiffType) -> Seq<char> {
    match d {
        DiffType::Modified => "修改"@,
        DiffType::OnlyLeft => "仅左侧"@,
        DiffType::OnlyRight => "仅右侧"@,
    }
}

impl DiffType {
    /// The label shown for the difference.
    pub fn label(&self) -> (s: &'static str)
        ensures
            s@ == diff_label(*self),
    {
        match self {
            DiffType::Modified => "修改",
            DiffType::OnlyLeft => "仅左侧",
            DiffType::OnlyRight => "仅右侧",
        }
    }

    /// The colour the difference is shown in, as red, green and blue.
    pub fn color(&self) -> (c: (u8, u8, u8))
        ensures
            c == diff_color(*self),
    {
        match self {
            DiffType::Modified => (255, 165, 0),
            DiffType::OnlyLeft => (100, 149, 237),
            DiffType::OnlyRight => (100, 200, 100),
        }
    }
}

/// The colour of a difference: orange for a change, cornflower blue for
/// the left side only, green for the right side only.
pub open spec fn diff_color(d: DiffType) -> (u8, u8, u8) {
    match d {
        DiffType::Modified => (255u8, 165u8, 0u8),
        DiffType::OnlyLeft => (100u8, 149u8, 237u8),
        DiffType::OnlyRight => (100u8, 200u8, 100u8),
    }
}

/// The difference between two optional values: present on both sides with
/// different values, or present on one side only.
pub open spec fn diff_of(l: Option<ValueView>, r: Option<ValueView>) -> Option<DiffType> {
    match (l, r) {
        (Some(a), Some(b)) => if a != b {
            Some(DiffType::Modified)
        } else {
            None
        },
        (Some(_), None) => Some(DiffType::OnlyLeft),
        (None, Some(_)) => Some(DiffType::OnlyRight),
        (None, None) => None,
    }
}

/// One differing field.
#[derive(Debug)]
pub struct DiffEntry {
    pub tag: ExifTag,
    pub left: Option<ExifValue>,
    pub right: Option<ExifValue>,
    pub diff_type: DiffType,
}

// ============================================================================
// CompareState
// ============================================================================

/// The two images under comparison.
#[derive(Debug)]
pub struct CompareState {
    pub left_path: Option<String>,
    pub right_path: Option<String>,
    pub left_entries: ExifMap,
    pub right_entries: ExifMap,
    pub show_only_diff: bool,
    pub active: bool,
}

impl Default for CompareState {
    /// The same state as `new`.
    fn default() -> (c: CompareState)
        ensures
            c.wf(),
            c.left_path is None,
            c.right_path is None,
            c.left_entries@.len() == 0,
            c.right_entries@.len() == 0,
            !c.show_only_diff,
            !c.active,
    {
        CompareState::new()
    }
}

impl CompareState {
    /// Both tables keep each tag at most once.
    pub open spec fn wf(&self) -> bool {
        self.left_entries.wf() && self.right_entries.wf()
    }

    /// No image on either side; the window closed.
    pub fn new() -> (c: CompareState)
        ensures
            c.wf(),
            c.left_path is None,
            c.right_path is None,
            c.left_entries@.len() == 0,
            c.right_entries@.len() == 0,
            !c.show_only_diff,
            !c.active,
    {
        CompareState {
            left_path: None,
            right_path: None,
            left_entries: ExifMap::new(),
            right_entries: ExifMap::new(),
            show_only_diff: false,
            active: false,
        }
    }

    /// Loads the left image from its file contents; on a read error nothing
    /// changes.
    pub fn load_left(&mut self, path: String, data: &[u8]) -> (r: Result<(), ReadError>)
        requires
            old(self).wf(),
        ensures
            final(self).wf(),
            final(self).right_entries@ == old(self).right_entries@,
            final(self).right_path == old(self).right_path,
            final(self).show_only_diff == old(self).show_only_diff,
            final(self).active == old(self).active,
            r is Err <==> container_fields(data@) is None,
            r is Ok ==> final(self).left_path == Some(path)
                && final(self).left_entries@ == table_of(container_fields(data@).unwrap()),
            r is Err ==> final(self).left_path == old(self).left_path
                && final(self).left_entries@ == old(self).left_entries@,
    {
        let entries = ExifReader::read(data)?;
        self.left_entries = entries;
        self.left_path = Some(path);
        Ok(())
    }

    /// Loads the right image from its file contents; on a read error nothing
    /// changes.
    pub fn load_right(&mut self, path: String, data: &[u8]) -> (r: Result<(), ReadError>)
        requires
            old(self).wf(),
        ensures
            final(self).wf(),
            final(self).left_entries@ == old(self).left_entries@,
            final(self).left_path == old(self).left_path,
            final(self).show_only_diff == old(self).show_only_diff,
            final(self).active == old(self).active,
            r is Err <==> container_fields(data@) is None,
            r is Ok ==> final(self).right_path == Some(path)
                && final(self).right_entries@ == table_of(container_fields(data@).unwrap()),
            r is Err ==> final(self).right_path == old(self).right_path
                && final(self).right_entries@ == old(self).right_entries@,
    {
        let entries = ExifReader::read(data)?;
        self.right_entries = entries;
        self.right_path = Some(path);
        Ok(())
    }

    /// Whether the window has an image to compare: one side or both loaded.
    /// Without one it asks for two images instead of drawing the table.
    pub fn has_images(&self) -> (b: bool)
        ensures
            b == (self.left_path is Some || self.right_path is Some),
    {
        self.left_path.is_some() || self.right_path.is_some()
    }

    /// Every tag present on either side, once, in tag order.
    pub fn all_tags(&self) -> (tags: Vec<ExifTag>)
        ensures
            strictly_sorted(tag_views(tags@)),
            forall|t: TagView| tag_views(tags@).contains(t) <==> (has_key(self.left_entries@, t)
                || has_key(self.right_entries@, t)),
    {
        let mut tags: Vec<ExifTag> = Vec::new();
        let n = self.left_entries.len();
        let mut i: usize = 0;
        while i < n
            invariant
                n == self.left_entries@.len(),
                i <= n,
                strictly_sorted(tag_views(tags@)),
                forall|t: TagView| tag_views(tags@).contains(t) <==> exists|k: int|
                    0 <= k < i && #[trigger] self.left_entries@[k].0 == t,
            decreases n - i,
        {
            let (tag, _) = self.left_entries.entry(i);
            insert_sorted(&mut tags, tag);
            i = i + 1;
        }
        let m = self.right_entries.len();
        let mut j: usize = 0;
        while j < m
            invariant
                m == self.right_entries@.len(),
                j <= m,
                strictly_sorted(tag_views(tags@)),
                forall|t: TagView| tag_views(tags@).contains(t) <==> (has_key(self.left_entries@, t)
                    || exists|k: int| 0 <= k < j && #[trigger] self.right_entries@[k].0 == t),
            decreases m - j,
        {
            let (tag, _) = self.right_entries.entry(j);
            insert_sorted(&mut tags, tag);
            j = j + 1;
        }
        tags
    }

    /// The difference at one tag, if the two sides differ there.
    fn diff_at(&self, tag: &ExifTag) -> (r: Option<DiffEntry>)
        requires
            self.wf(),
        ensures
            match r {
                Some(d) => {
                    &&& d.tag@ == tag@
                    &&& value_opt(d.left) == lookup(self.left_entries@, tag@)
                    &&& value_opt(d.right) == lookup(self.right_entries@, tag@)
                    &&& diff_of(value_opt(d.left), value_opt(d.right)) == Some(d.diff_type)
                },
                None => diff_of(lookup(self.left_entries@, tag@), lookup(self.right_entries@, tag@)) is None,
            },
    {
        let left = self.left_entries.get(tag);
        let right = self.right_entries.get(tag);
        match (left, right) {
            (Some(l), Some(r)) => if !l.same(r) {
                Some(DiffEntry {
                    tag: tag.duplicate(),
                    left: Some(l.duplicate()),
                    right: Some(r.duplicate()),
                    diff_type: DiffType::Modified,
                })
            } else {
                None
            },
            (Some(l), None) => Some(DiffEntry {
                tag: tag.duplicate(),
                left: Some(l.duplicate()),
                right: None,
                diff_type: DiffType::OnlyLeft,
            }),
            (None, Some(r)) => Some(DiffEntry {
                tag: tag.duplicate(),
                left: None,
                right: Some(r.duplicate()),
                diff_type: DiffType::OnlyRight,
            }),
            (None, None) => None,
        }
    }

    /// The fields that differ between the two images, in tag order.
    pub fn differences(&self) -> (diffs: Vec<DiffEntry>)
        requires
            self.wf(),
        ensures
            strictly_sorted(diffs@.map_values(|d: DiffEntry| d.tag@)),
            forall|i: int| 0 <= i < diffs@.len() ==> {
                let d = #[trigger] diffs@[i];
                &&& value_opt(d.left) == lookup(self.left_entries@, d.tag@)
                &&& value_opt(d.right) == lookup(self.right_entries@, d.tag@)
                &&& diff_of(value_opt(d.left), value_opt(d.right)) == Some(d.diff_type)
            },
            forall|t: TagView| diffs@.map_values(|d: DiffEntry| d.tag@).contains(t) <==> diff_of(
                lookup(self.left_entries@, t),
                lookup(self.right_entries@, t),
            ) is Some,
    {
        let tags = self.all_tags();
        let ghost tv = tag_views(tags@);
        let mut diffs: Vec<DiffEntry> = Vec::new();
        let ghost mut idx: Seq<int> = Seq::empty();
        let mut i: usize = 0;
        while i < tags.len()
            invariant
                self.wf(),
                i <= tags@.len(),
                tv == tag_views(tags@),
                idx.len() == diffs@.len(),
                forall|a: int| 0 <= a < idx.len() ==> 0 <= #[trigger] idx[a] < i
                    && diffs@[a].tag@ == tv[idx[a]],
                forall|a: int, b: int| 0 <= a < b < idx.len() ==> #[trigger] idx[a] < #[trigger] idx[b],
                forall|a: int| 0 <= a < diffs@.len() ==> {
                    let d = #[trigger] diffs@[a];
                    &&& value_opt(d.left) == lookup(self.left_entries@, d.tag@)
                    &&& value_opt(d.right) == lookup(self.right_entries@, d.tag@)
                    &&& diff_of(value_opt(d.left), value_opt(d.right)) == Some(d.diff_type)
                },
                forall|k: int| 0 <= k < i ==> (diff_of(
                    lookup(self.left_entries@, #[trigger] tv[k]),
                    lookup(self.right_entries@, tv[k]),
                ) is Some <==> idx.contains(k)),
            decreases tags@.len() - i,
        {
            assert(tv[i as int] == tags@[i as int]@);
            let ghost old_idx = idx;
            match self.diff_at(&tags[i]) {
                Some(d) => {
                    diffs.push(d);
                    proof {
                        idx = idx.push(i as int);
                    }
                },
                None => {},
            }
            proof {
                assert forall|k: int| 0 <= k < i + 1 implies (diff_of(
                    lookup(self.left_entries@, #[trigger] tv[k]),
                    lookup(self.right_entries@, tv[k]),
                ) is Some <==> idx.contains(k)) by {
                    if idx.contains(k) {
                        let a = choose|a: int| 0 <= a < idx.len() && idx[a] == k;
                        if a < old_idx.len() {
                            assert(old_idx[a] == k);
                            assert(old_idx.contains(k));
                        }
                    }
                    if k < i && old_idx.contains(k) {
                        let a = choose|a: int| 0 <= a < old_idx.len() && old_idx[a] == k;
                        assert(idx[a] == k);
                    }
                    if k == i && idx.len() > old_idx.len() {
                        assert(idx[idx.len() - 1] == k);
                    }
                }
            }
            i = i + 1;
        }
        proof {
            let dv = diffs@.map_values(|d: DiffEntry| d.tag@);
            assert forall|a: int, b: int| 0 <= a < b < dv.len() implies tag_lt(#[trigger] dv[a], #[trigger] dv[b]) by {
                assert(dv[a] == tv[idx[a]] && dv[b] == tv[idx[b]]);
                assert(idx[a] < idx[b]);
            }
            assert forall|t: TagView| dv.contains(t) <==> diff_of(
                lookup(self.left_entries@, t),
                lookup(self.right_entries@, t),
            ) is Some by {
                if dv.contains(t) {
                    let a = choose|a: int| 0 <= a < dv.len() && dv[a] == t;
                    assert(diffs@[a].tag@ == t);
                }
                if diff_of(lookup(self.left_entries@, t), lookup(self.right_entries@, t)) is Some {
                    assert(has_key(self.left_entries@, t) || has_key(self.right_entries@, t));
                    assert(tv.contains(t));
                    let k = choose|k: int| 0 <= k < tv.len() && tv[k] == t;
                    assert(idx.contains(k));
                    let a = choose|a: int| 0 <= a < idx.len() && idx[a] == k;
                    assert(dv[a] == t);
                }
            }
        }
        diffs
    }
}

/// One line of the comparison table: the tag, each side's value as the
/// panel formats it, and how the sides differ.
#[derive(Debug)]
pub struct CompareRow {
    pub tag: ExifTag,
    pub left: Option<Formatted>,
    pub right: Option<Formatted>,
    pub diff: Option<DiffType>,
}

/// A side's value for `t`, formatted for display.
pub open spec fn formatted_side(entries: Seq<EntryView>, t: TagView) -> Option<FormattedView> {
    match lookup(entries, t) {
        Some(v) => Some(formatted_of(t.id, v)),
        None => None,
    }
}

/// The view of an optional formatted value.
pub open spec fn formatted_opt(o: Option<Formatted>) -> Option<FormattedView> {
    match o {
        Some(f) => Some(f@),
        None => None,
    }
}

/// A side's value for `tag`, formatted for display.
fn format_side(entries: &ExifMap, tag: &ExifTag) -> (r: Option<Formatted>)
    requires
        entries.wf(),
    ensures
        formatted_opt(r) == formatted_side(entries@, tag@),
{
    match entries.get(tag) {
        Some(v) => Some(ExifFormatter::format(tag.id, v)),
        None => None,
    }
}

/// The number of differences of kind `ty`.
pub open spec fn count_of(s: Seq<DiffEntry>, ty: DiffType) -> nat
    decreases s.len(),
{
    if s.len() == 0 {
        0
    } else {
        count_of(s.drop_last(), ty) + if s.last().diff_type == ty {
            1nat
        } else {
            0nat
        }
    }
}

impl CompareState {
    /// The number of differences of one kind.
    pub fn count_type(diffs: &Vec<DiffEntry>, ty: DiffType) -> (n: usize)
        ensures
            n == count_of(diffs@, ty),
    {
        let mut n: usize = 0;
        let mut i: usize = 0;
        while i < diffs.len()
            invariant
                i <= diffs@.len(),
                n == count_of(diffs@.take(i as int), ty),
                n <= i,
            decreases diffs@.len() - i,
        {
            assert(diffs@.take(i + 1).drop_last() =~= diffs@.take(i as int));
            assert(diffs@.take(i + 1).last() == diffs@[i as int]);
            if diffs[i].diff_type == ty {
                n = n + 1;
            }
            i = i + 1;
        }
        assert(diffs@.take(diffs@.len() as int) =~= diffs@);
        n
    }

    /// The lines of the comparison table, in tag order: every tag of
    /// either side, or only the differing ones when the window shows only
    /// differences.
    pub fn rows(&self) -> (rows: Vec<CompareRow>)
        requires
            self.wf(),
        ensures
            strictly_sorted(rows@.map_values(|r: CompareRow| r.tag@)),
            forall|t: TagView| rows@.map_values(|r: CompareRow| r.tag@).contains(t) <==> (if self.show_only_diff {
                diff_of(lookup(self.left_entries@, t), lookup(self.right_entries@, t)) is Some
            } else {
                has_key(self.left_entries@, t) || has_key(self.right_entries@, t)
            }),
            forall|i: int| 0 <= i < rows@.len() ==> {
                let r = #[trigger] rows@[i];
                &&& formatted_opt(r.left) == formatted_side(self.left_entries@, r.tag@)
                &&& formatted_opt(r.right) == formatted_side(self.right_entries@, r.tag@)
                &&& r.diff == diff_of(lookup(self.left_entries@, r.tag@), lookup(self.right_entries@, r.tag@))
            },
    {
        let tags: Vec<ExifTag> = if self.show_only_diff {
            let diffs = self.differences();
            let ghost dv = diffs@.map_values(|d: DiffEntry| d.tag@);
            let mut t: Vec<ExifTag> = Vec::new();
            let mut i: usize = 0;
            while i < diffs.len()
                invariant
                    i <= diffs@.len(),
                    dv == diffs@.map_values(|d: DiffEntry| d.tag@),
                    tag_views(t@) == dv.take(i as int),
                decreases diffs@.len() - i,
            {
                let ghost before = tag_views(t@);
                t.push(diffs[i].tag.duplicate());
                assert(dv[i as int] == diffs@[i as int].tag@);
                assert(tag_views(t@) =~= before.push(dv[i as int]));
                assert(dv.take(i + 1) =~= dv.take(i as int).push(dv[i as int]));
                i = i + 1;
            }
            assert(dv.take(diffs@.len() as int) =~= dv);
            t
        } else {
            self.all_tags()
        };
        let ghost tv = tag_views(tags@);
        let mut rows: Vec<CompareRow> = Vec::new();
        let mut i: usize = 0;
        while i < tags.len()
            invariant
                self.wf(),
                i <= tags@.len(),
                tv == tag_views(tags@),
                rows@.map_values(|r: CompareRow| r.tag@) == tv.take(i as int),
                forall|k: int| 0 <= k < rows@.len() ==> {
                    let r = #[trigger] rows@[k];
                    &&& formatted_opt(r.left) == formatted_side(self.left_entries@, r.tag@)
                    &&& formatted_opt(r.right) == formatted_side(self.right_entries@, r.tag@)
                    &&& r.diff == diff_of(lookup(self.left_entries@, r.tag@), lookup(self.right_entries@, r.tag@))
                },
            decreases tags@.len() - i,
        {
            let tag = &tags[i];
            let diff = match self.diff_at(tag) {
                Some(d) => Some(d.diff_type),
                None => None,
            };
            let row = CompareRow {
                tag: tag.duplicate(),
                left: format_side(&self.left_entries, tag),
                right: format_side(&self.right_entries, tag),
                diff,
            };
            let ghost before = rows@.map_values(|r: CompareRow| r.tag@);
            rows.push(row);
            assert(rows@.map_values(|r: CompareRow| r.tag@) =~= before.push(tag@));
            assert(tv.take(i + 1) =~= tv.take(i as int).push(tv[i as int]));
            i = i + 1;
        }
        assert(tv.take(tags@.len() as int) =~= tv);
        rows
    }
}

} // verus!
