//! The editing session: the open folder and image, the EXIF table being
//! edited beside the one read from the file, the undo stack and the status
//! line.
use vstd::prelude::*;
use vstd::string::*;
use crate::model::{lemma_insert_lookup, ExifGroup, ExifMap, ExifTag, ExifValue, ExtensionMismatch, StatusLevel, TagView,
    ValueView, EntryView, has_key, index_of_key, lookup, insert_entry, same_entries, distinct_keys,
    lemma_lookup_at};
use crate::compare::CompareState;

verus! {

/// How many edits the undo stack keeps.
pub const UNDO_LIMIT: usize = 50;

/// One undo record: the tag, its value before the edit and after it.
pub type UndoEntry = (ExifTag, ExifValue, ExifValue);

/// The mathematical value of an undo record.
pub type UndoView = (TagView, ValueView, ValueView);

/// The views of the undo records.
pub open spec fn undo_views(s: Seq<UndoEntry>) -> Seq<UndoView> {
    s.map_values(|e: UndoEntry| (e.0@, e.1@, e.2@))
}

/// The undo stack after recording `e`: the oldest record leaves when the
/// stack would exceed its limit.
pub open spec fn pushed_undo(s: Seq<UndoView>, e: UndoView) -> Seq<UndoView> {
    if s.len() + 1 > UNDO_LIMIT {
        s.push(e).drop_first()
    } else {
        s.push(e)
    }
}

/// The empty text value, recorded for a field that did not exist.
pub open spec fn empty_value() -> ValueView {
    ValueView::Ascii(Seq::empty())
}

/// The value a field had before an edit, as the undo stack records it.
pub open spec fn previous_value(entries: Seq<EntryView>, t: TagView) -> ValueView {
    match lookup(entries, t) {
        Some(v) => v,
        None => empty_value(),
    }
}

/// The state of the editor.
pub struct AppState {
    pub folder_path: Option<String>,
    pub file_paths: Vec<String>,
    pub current_index: usize,
    pub image_size: Option<[u32; 2]>,
    pub exif_entries: ExifMap,
    pub original_exif: ExifMap,
    pub undo_stack: Vec<UndoEntry>,
    pub search_query: String,
    pub expanded_groups: Vec<(ExifGroup, bool)>,
    pub selected_tags: Vec<ExifTag>,
    pub is_fullscreen: bool,
    pub editing_tag: Option<ExifTag>,
    pub context_menu_tag: Option<ExifTag>,
    pub show_add_tag_popup: bool,
    pub new_tag_id: String,
    pub new_tag_ifd: String,
    pub new_tag_name: String,
    pub new_tag_value: String,
    pub extension_warning: Option<ExtensionMismatch>,
    pub pending_rename: Option<String>,
    pub status_message: Option<(String, StatusLevel)>,
    pub clipboard_exif: Option<ExifMap>,
    pub pending_save: bool,
    pub show_quick_edit: bool,
    pub pixel_perfect: bool,
    pub pointer_over_preview: bool,
    pub show_recent_menu: bool,
    pub compare_state: CompareState,
}

impl AppState {
    /// Both tables keep each tag once, the undo stack stays within its limit.
    pub open spec fn wf(&self) -> bool {
        &&& self.exif_entries.wf()
        &&& self.original_exif.wf()
        &&& self.undo_stack@.len() <= UNDO_LIMIT
        &&& (self.clipboard_exif matches Some(c) ==> c.wf())
        &&& self.compare_state.wf()
    }

    /// The undo records, oldest first.
    pub open spec fn undo_view(&self) -> Seq<UndoView> {
        undo_views(self.undo_stack@)
    }

    /// The status line's text, if any.
    pub open spec fn status_text(&self) -> Option<Seq<char>> {
        match self.status_message {
            Some((m, _)) => Some(m@),
            None => None,
        }
    }

    /// The status line's severity, if any.
    pub open spec fn status_level(&self) -> Option<StatusLevel> {
        match self.status_message {
            Some((_, l)) => Some(l),
            None => None,
        }
    }

    /// A session with nothing open: empty tables and lists, no status, the
    /// camera, exposure, GPS and lens groups expanded.
    pub fn new() -> (s: AppState)
        ensures
            s.wf(),
            s.folder_path is None,
            s.file_paths@.len() == 0,
            s.current_index == 0,
            s.image_size is None,
            s.exif_entries@.len() == 0,
            s.original_exif@.len() == 0,
            s.undo_stack@.len() == 0,
            s.search_query@.len() == 0,
            s.expanded_groups@ == seq![
                (ExifGroup::CameraInfo, true),
                (ExifGroup::Exposure, true),
                (ExifGroup::GPS, true),
                (ExifGroup::Lens, true),
                (ExifGroup::Thumbnail, false),
                (ExifGroup::Other, false),
            ],
            s.selected_tags@.len() == 0,
            !s.is_fullscreen,
            s.editing_tag is None,
            s.context_menu_tag is None,
            !s.show_add_tag_popup,
            s.new_tag_id@.len() == 0,
            s.new_tag_ifd@.len() == 0,
            s.new_tag_name@.len() == 0,
            s.new_tag_value@.len() == 0,
            s.extension_warning is None,
            s.pending_rename is None,
            s.status_message is None,
            s.clipboard_exif is None,
            !s.pending_save,
            !s.show_quick_edit,
            !s.pixel_perfect,
            !s.pointer_over_preview,
            !s.show_recent_menu,
            !s.compare_state.active,
            s.compare_state.left_entries@.len() == 0,
            s.compare_state.right_entries@.len() == 0,
    {
        let mut groups: Vec<(ExifGroup, bool)> = Vec::new();
        groups.push((ExifGroup::CameraInfo, true));
        groups.push((ExifGroup::Exposure, true));
        groups.push((ExifGroup::GPS, true));
        groups.push((ExifGroup::Lens, true));
        groups.push((ExifGroup::Thumbnail, false));
        groups.push((ExifGroup::Other, false));
        AppState {
            folder_path: None,
            file_paths: Vec::new(),
            current_index: 0,
            image_size: None,
            exif_entries: ExifMap::new(),
            original_exif: ExifMap::new(),
            undo_stack: Vec::new(),
            search_query: String::new(),
            expanded_groups: groups,
            selected_tags: Vec::new(),
            is_fullscreen: false,
            editing_tag: None,
            context_menu_tag: None,
            show_add_tag_popup: false,
            new_tag_id: String::new(),
            new_tag_ifd: String::new(),
            new_tag_name: String::new(),
            new_tag_value: String::new(),
            extension_warning: None,
            pending_rename: None,
            status_message: None,
            clipboard_exif: None,
            pending_save: false,
            show_quick_edit: false,
            pixel_perfect: false,
            pointer_over_preview: false,
            show_recent_menu: false,
            compare_state: CompareState::new(),
        }
    }

    /// The path of the current image, if the index points into the list.
    pub fn current_path(&self) -> (p: Option<&String>)
        ensures
            self.current_index < self.file_paths@.len() ==> p == Some(&self.file_paths@[self.current_index as int]),
            self.current_index >= self.file_paths@.len() ==> p is None,
    {
        if self.current_index < self.file_paths.len() {
            Some(&self.file_paths[self.current_index])
        } else {
            None
        }
    }

    /// Whether the edited table differs from the one read from the file.
    pub fn has_unsaved_changes(&self) -> (b: bool)
        requires
            self.wf(),
        ensures
            b == !same_entries(self.exif_entries@, self.original_exif@),
    {
        !self.exif_entries.same_fields(&self.original_exif)
    }

    /// Records an edit on the undo stack; past the limit the oldest record
    /// is dropped.
    pub fn push_undo(&mut self, tag: ExifTag, old_value: ExifValue, new_value: ExifValue)
        requires
            old(self).wf(),
        ensures
            final(self).wf(),
            final(self).undo_view() == pushed_undo(old(self).undo_view(), (tag@, old_value@, new_value@)),
            *final(self) == (AppState { undo_stack: final(self).undo_stack, ..*old(self) }),
    {
        let ghost before = self.undo_view();
        let ghost e = (tag@, old_value@, new_value@);
        self.undo_stack.push((tag, old_value, new_value));
        assert(self.undo_view() =~= before.push(e));
        if self.undo_stack.len() > UNDO_LIMIT {
            self.undo_stack.remove(0);
            assert(self.undo_view() =~= before.push(e).drop_first());
        }
    }

    /// Takes back the last edit: the field gets the value it had before.
    /// Returns whether there was an edit to take back.
    pub fn undo(&mut self) -> (b: bool)
        requires
            old(self).wf(),
        ensures
            final(self).wf(),
            b == (old(self).undo_stack@.len() > 0),
            !b ==> *final(self) == *old(self),
            b ==> {
                let e = old(self).undo_view().last();
                &&& final(self).undo_view() == old(self).undo_view().drop_last()
                &&& final(self).exif_entries@ == insert_entry(old(self).exif_entries@, (e.0, e.1))
                &&& *final(self) == (AppState {
                    undo_stack: final(self).undo_stack,
                    exif_entries: final(self).exif_entries,
                    ..*old(self)
                })
            },
    {
        if self.undo_stack.len() == 0 {
            return false;
        }
        let ghost before = self.undo_view();
        match self.undo_stack.pop() {
            Some((tag, old_value, _)) => {
                assert(self.undo_view() =~= before.drop_last());
                self.exif_entries.insert(tag, old_value);
                true
            },
            None => false,
        }
    }

    /// Sets the status line.
    pub fn set_status(&mut self, message: String, level: StatusLevel)
        ensures
            *final(self) == (AppState { status_message: Some((message, level)), ..*old(self) }),
    {
        self.status_message = Some((message, level));
    }

    /// Clears the status line.
    pub fn clear_status(&mut self)
        ensures
            *final(self) == (AppState { status_message: None, ..*old(self) }),
    {
        self.status_message = None;
    }

    /// Sets a field to a new value, recording the edit for undo; a field
    /// that did not exist is recorded with an empty text as its old value.
    pub fn set_field(&mut self, tag: ExifTag, value: ExifValue)
        requires
            old(self).wf(),
        ensures
            final(self).wf(),
            final(self).exif_entries@ == insert_entry(old(self).exif_entries@, (tag@, value@)),
            final(self).undo_view() == pushed_undo(
                old(self).undo_view(),
                (tag@, previous_value(old(self).exif_entries@, tag@), value@),
            ),
            *final(self) == (AppState {
                undo_stack: final(self).undo_stack,
                exif_entries: final(self).exif_entries,
                ..*old(self)
            }),
    {
        let previous = match self.exif_entries.get(&tag) {
            Some(v) => v.duplicate(),
            None => ExifValue::empty_text(),
        };
        self.push_undo(tag.duplicate(), previous, value.duplicate());
        self.exif_entries.insert(tag, value);
    }
}

/// Setting a present field to `v` and then back to the value it had gives
/// back the same table.
pub proof fn lemma_insert_back(s: Seq<EntryView>, t: TagView, v: ValueView)
    requires
        distinct_keys(s),
        has_key(s, t),
    ensures
        insert_entry(insert_entry(s, (t, v)), (t, previous_value(s, t))) == s,
{
    let i = index_of_key(s, t);
    lemma_lookup_at(s, i);
    let s1 = s.update(i, (t, v));
    assert(distinct_keys(s1)) by {
        assert forall|a: int, b: int| 0 <= a < s1.len() && 0 <= b < s1.len() && a != b implies s1[a].0 != s1[b].0 by {
            assert(s1[a].0 == s[a].0 && s1[b].0 == s[b].0);
        }
    }
    lemma_lookup_at(s1, i);
    assert(s1.update(i, (t, s[i].1)) =~= s);
}

/// Undoing an edit of a field that exists gives back the table as it was
/// before the edit, and the undo stack as it was, as long as the stack was
/// not full.
pub proof fn law_undo_reverts_edit(entries: Seq<EntryView>, undo: Seq<UndoView>, t: TagView, v: ValueView)
    requires
        distinct_keys(entries),
        has_key(entries, t),
        undo.len() < UNDO_LIMIT,
    ensures
        ({
            let edited = insert_entry(entries, (t, v));
            let recorded = pushed_undo(undo, (t, previous_value(entries, t), v));
            let e = recorded.last();
            &&& insert_entry(edited, (e.0, e.1)) == entries
            &&& recorded.drop_last() == undo
        }),
{
    lemma_insert_back(entries, t, v);
    let recorded = pushed_undo(undo, (t, previous_value(entries, t), v));
    assert(recorded.drop_last() =~= undo);
}

// ============================================================================
// Pending changes
// ============================================================================

/// One pending change: the tag, its value in the file, its edited value.
pub type ChangeView = (TagView, ValueView, ValueView);

/// The change at one edited field: a changed value, or a field the file did
/// not have (its old value shown as empty text).
pub open spec fn change_at(e: EntryView, orig: Seq<EntryView>) -> Seq<ChangeView> {
    match lookup(orig, e.0) {
        Some(o) => if o != e.1 {
            seq![(e.0, o, e.1)]
        } else {
            Seq::empty()
        },
        None => seq![(e.0, empty_value(), e.1)],
    }
}

/// The changes at the edited fields, in table order.
pub open spec fn changed_fields(cur: Seq<EntryView>, orig: Seq<EntryView>) -> Seq<ChangeView>
    decreases cur.len(),
{
    if cur.len() == 0 {
        Seq::empty()
    } else {
        changed_fields(cur.drop_last(), orig) + change_at(cur.last(), orig)
    }
}

/// The fields of the file that the edited table no longer has (their new
/// value shown as empty text), in the file's order.
pub open spec fn removed_fields(orig: Seq<EntryView>, cur: Seq<EntryView>) -> Seq<ChangeView>
    decreases orig.len(),
{
    if orig.len() == 0 {
        Seq::empty()
    } else {
        removed_fields(orig.drop_last(), cur) + if has_key(cur, orig.last().0) {
            Seq::<ChangeView>::empty()
        } else {
            seq![(orig.last().0, orig.last().1, empty_value())]
        }
    }
}

/// All pending changes: edited and added fields, then deleted ones.
pub open spec fn changes_of(cur: Seq<EntryView>, orig: Seq<EntryView>) -> Seq<ChangeView> {
    changed_fields(cur, orig) + removed_fields(orig, cur)
}

/// The views of a list of changes.
pub open spec fn change_views(s: Seq<UndoEntry>) -> Seq<ChangeView> {
    s.map_values(|e: UndoEntry| (e.0@, e.1@, e.2@))
}

proof fn lemma_changed_empty(cur: Seq<EntryView>, orig: Seq<EntryView>)
    ensures
        changed_fields(cur, orig).len() == 0 <==> forall|i: int| 0 <= i < cur.len()
            ==> lookup(orig, #[trigger] cur[i].0) == Some(cur[i].1),
    decreases cur.len(),
{
    if cur.len() > 0 {
        lemma_changed_empty(cur.drop_last(), orig);
        let n = cur.len() - 1;
        if changed_fields(cur, orig).len() == 0 {
            assert forall|i: int| 0 <= i < cur.len() implies lookup(orig, #[trigger] cur[i].0) == Some(cur[i].1) by {
                if i < n {
                    assert(cur.drop_last()[i] == cur[i]);
                }
            }
        }
        if forall|i: int| 0 <= i < cur.len() ==> lookup(orig, #[trigger] cur[i].0) == Some(cur[i].1) {
            assert forall|i: int| 0 <= i < cur.drop_last().len() implies lookup(orig, #[trigger] cur.drop_last()[i].0)
                == Some(cur.drop_last()[i].1) by {
                assert(cur.drop_last()[i] == cur[i]);
            }
            assert(lookup(orig, cur[n].0) == Some(cur[n].1));
        }
    }
}

proof fn lemma_removed_empty(orig: Seq<EntryView>, cur: Seq<EntryView>)
    ensures
        removed_fields(orig, cur).len() == 0 <==> forall|i: int| 0 <= i < orig.len()
            ==> has_key(cur, #[trigger] orig[i].0),
    decreases orig.len(),
{
    if orig.len() > 0 {
        lemma_removed_empty(orig.drop_last(), cur);
        let n = orig.len() - 1;
        if removed_fields(orig, cur).len() == 0 {
            assert forall|i: int| 0 <= i < orig.len() implies has_key(cur, #[trigger] orig[i].0) by {
                if i < n {
                    assert(orig.drop_last()[i] == orig[i]);
                }
            }
        }
        if forall|i: int| 0 <= i < orig.len() ==> has_key(cur, #[trigger] orig[i].0) {
            assert forall|i: int| 0 <= i < orig.drop_last().len() implies has_key(cur, #[trigger] orig.drop_last()[i].0) by {
                assert(orig.drop_last()[i] == orig[i]);
            }
            assert(has_key(cur, orig[n].0));
        }
    }
}

/// There are no pending changes exactly when the edited table holds the
/// same fields as the file.
pub proof fn law_no_changes_iff_saved(cur: Seq<EntryView>, orig: Seq<EntryView>)
    requires
        distinct_keys(cur),
        distinct_keys(orig),
    ensures
        changes_of(cur, orig).len() == 0 <==> same_entries(cur, orig),
{
    lemma_changed_empty(cur, orig);
    lemma_removed_empty(orig, cur);
    if changes_of(cur, orig).len() == 0 {
        assert forall|t: TagView| #[trigger] lookup(cur, t) == lookup(orig, t) by {
            if has_key(cur, t) {
                let k = index_of_key(cur, t);
                lemma_lookup_at(cur, k);
                assert(lookup(orig, cur[k].0) == Some(cur[k].1));
            } else if has_key(orig, t) {
                let k = index_of_key(orig, t);
                lemma_lookup_at(orig, k);
                assert(has_key(cur, orig[k].0));
            }
        }
    }
    if same_entries(cur, orig) {
        assert forall|i: int| 0 <= i < cur.len() implies lookup(orig, #[trigger] cur[i].0) == Some(cur[i].1) by {
            lemma_lookup_at(cur, i);
            assert(lookup(cur, cur[i].0) == lookup(orig, cur[i].0));
        }
        assert forall|i: int| 0 <= i < orig.len() implies has_key(cur, #[trigger] orig[i].0) by {
            lemma_lookup_at(orig, i);
            assert(lookup(cur, orig[i].0) == lookup(orig, orig[i].0));
        }
    }
}

impl AppState {
    /// The pending changes: each edited or added field with its old and new
    /// value, then each deleted field; an absent side is shown as empty text.
    pub fn get_changes(&self) -> (changes: Vec<UndoEntry>)
        requires
            self.wf(),
        ensures
            change_views(changes@) == changes_of(self.exif_entries@, self.original_exif@),
    {
        let cur = &self.exif_entries;
        let orig = &self.original_exif;
        let mut changes: Vec<UndoEntry> = Vec::new();
        let n = cur.len();
        let mut i: usize = 0;
        while i < n
            invariant
                self.wf(),
                cur.wf(),
                orig.wf(),
                n == cur@.len(),
                i <= n,
                change_views(changes@) == changed_fields(cur@.take(i as int), orig@),
            decreases n - i,
        {
            let (tag, new_value) = cur.entry(i);
            let ghost before = change_views(changes@);
            assert(cur@.take(i + 1).drop_last() =~= cur@.take(i as int));
            assert(cur@.take(i + 1).last() == cur@[i as int]);
            match orig.get(tag) {
                Some(old_value) => {
                    if !old_value.same(new_value) {
                        changes.push((tag.duplicate(), old_value.duplicate(), new_value.duplicate()));
                    }
                },
                None => {
                    changes.push((tag.duplicate(), ExifValue::empty_text(), new_value.duplicate()));
                },
            }
            assert(change_views(changes@) =~= before + change_at(cur@[i as int], orig@));
            i = i + 1;
        }
        assert(cur@.take(n as int) =~= cur@);
        let ghost first = change_views(changes@);
        let m = orig.len();
        let mut j: usize = 0;
        while j < m
            invariant
                self.wf(),
                cur.wf(),
                orig.wf(),
                m == orig@.len(),
                j <= m,
                first == changed_fields(cur@, orig@),
                change_views(changes@) == first + removed_fields(orig@.take(j as int), cur@),
            decreases m - j,
        {
            let (tag, old_value) = orig.entry(j);
            let ghost before = change_views(changes@);
            assert(orig@.take(j + 1).drop_last() =~= orig@.take(j as int));
            assert(orig@.take(j + 1).last() == orig@[j as int]);
            if !cur.contains_key(tag) {
                changes.push((tag.duplicate(), old_value.duplicate(), ExifValue::empty_text()));
                assert(change_views(changes@) =~= before.push((tag@, old_value@, empty_value())));
            }
            assert(change_views(changes@) =~= first + removed_fields(orig@.take(j + 1), cur@));
            j = j + 1;
        }
        assert(orig@.take(m as int) =~= orig@);
        changes
    }
}

/// The table of a file holds no pending change right after it is loaded,
/// reset or saved: the edited table is a copy of the file's.
pub proof fn law_copy_has_no_changes(entries: Seq<EntryView>)
    requires
        distinct_keys(entries),
    ensures
        changes_of(entries, entries).len() == 0,
        same_entries(entries, entries),
{
    law_no_changes_iff_saved(entries, entries);
}

// ============================================================================
// File operations on the session
// ============================================================================

/// Which fields a bulk clear removes.
#[derive(Debug, Clone, Copy, PartialEq, Eq, Structural)]
pub enum ClearMode {
    /// Every field.
    All,
    /// The fields of the GPS IFD.
    GPS,
    /// GPS and thumbnail fields, copyright, maker note, user comment, and
    /// the camera body and lens serial numbers.
    Privacy,
}

/// Whether a clear in `mode` removes the field `t`.
pub open spec fn clear_selects(mode: ClearMode, t: TagView) -> bool {
    match mode {
        ClearMode::All => true,
        ClearMode::GPS => t.ifd == "GPS"@,
        ClearMode::Privacy => t.ifd == "GPS"@ || t.ifd == "Thumbnail"@ || t.id == 0x8298 || t.id == 0x927C
            || t.id == 0x9286 || t.id == 0xA431 || t.id == 0xA435,
    }
}

/// The status text after a clear.
pub open spec fn clear_message(mode: ClearMode) -> Seq<char> {
    match mode {
        ClearMode::All => "已清除所有 EXIF 字段"@,
        ClearMode::GPS => "已清除 GPS 字段"@,
        ClearMode::Privacy => "已清除隐私字段"@,
    }
}

/// The fields of `s` that a clear keeps, in order.
pub open spec fn kept_fields(s: Seq<EntryView>, mode: ClearMode) -> Seq<EntryView>
    decreases s.len(),
{
    if s.len() == 0 {
        s
    } else if clear_selects(mode, s.last().0) {
        kept_fields(s.drop_last(), mode)
    } else {
        kept_fields(s.drop_last(), mode).push(s.last())
    }
}

/// The undo stack after recording the removal of the fields a clear takes
/// from `s`, in order.
pub open spec fn cleared_undo(u: Seq<UndoView>, s: Seq<EntryView>, mode: ClearMode) -> Seq<UndoView>
    decreases s.len(),
{
    if s.len() == 0 {
        u
    } else if clear_selects(mode, s.last().0) {
        pushed_undo(cleared_undo(u, s.drop_last(), mode), (s.last().0, s.last().1, empty_value()))
    } else {
        cleared_undo(u, s.drop_last(), mode)
    }
}

/// The table and undo stack after deleting the tags `tags` one by one,
/// recording each field that was there.
pub open spec fn deleted_tags(entries: Seq<EntryView>, undo: Seq<UndoView>, tags: Seq<TagView>) -> (
    Seq<EntryView>,
    Seq<UndoView>,
)
    decreases tags.len(),
{
    if tags.len() == 0 {
        (entries, undo)
    } else {
        let (e, u) = deleted_tags(entries, undo, tags.drop_last());
        let t = tags.last();
        if has_key(e, t) {
            (e.remove(index_of_key(e, t)), pushed_undo(u, (t, previous_value(e, t), empty_value())))
        } else {
            (e, u)
        }
    }
}

/// Sets group `g` to `v`: in place when listed, at the end otherwise.
pub open spec fn group_set(s: Seq<(ExifGroup, bool)>, g: ExifGroup, v: bool) -> Seq<(ExifGroup, bool)> {
    if exists|i: int| 0 <= i < s.len() && s[i].0 == g {
        let i = choose|i: int| 0 <= i < s.len() && s[i].0 == g && forall|j: int| 0 <= j < i ==> s[j].0 != g;
        s.update(i, (g, v))
    } else {
        s.push((g, v))
    }
}

/// The expansion of the groups after opening an image: camera, exposure
/// and GPS expanded.
pub open spec fn groups_on_open(s: Seq<(ExifGroup, bool)>) -> Seq<(ExifGroup, bool)> {
    group_set(group_set(group_set(s, ExifGroup::CameraInfo, true), ExifGroup::Exposure, true), ExifGroup::GPS, true)
}

/// Sets group `g` to `v` in the list of expanded groups.
fn set_group(groups: &mut Vec<(ExifGroup, bool)>, g: ExifGroup, v: bool)
    ensures
        final(groups)@ == group_set(old(groups)@, g, v),
{
    let mut i: usize = 0;
    while i < groups.len()
        invariant
            i <= groups@.len(),
            groups@ == old(groups)@,
            forall|j: int| 0 <= j < i ==> groups@[j].0 != g,
        decreases groups@.len() - i,
    {
        if groups[i].0 == g {
            proof {
                let s = old(groups)@;
                let k = choose|k: int| 0 <= k < s.len() && s[k].0 == g && forall|j: int| 0 <= j < k ==> s[j].0 != g;
                assert(k == i as int) by {
                    if k < i {
                    } else if k > i {
                        assert(s[i as int].0 == g);
                    }
                }
            }
            groups.set(i, (g, v));
            return;
        }
        i = i + 1;
    }
    groups.push((g, v));
}

/// The text of a literal as an owned string.
fn owned(s: &str) -> (r: String)
    ensures
        r@ == s@,
{
    String::from_str(s)
}

/// What an image file holds, as read by the caller.
pub struct FolderEntry {
    /// The path of the file.
    pub path: String,
    /// The extension of the file name, if it has one.
    pub extension: Option<String>,
}

/// The extensions of the image files a folder lists, compared in lower case.
pub open spec fn image_extension(ext: Seq<char>) -> bool {
    let e = crate::exif::validator::lowercase(ext);
    e == "jpg"@ || e == "jpeg"@ || e == "png"@ || e == "webp"@ || e == "tiff"@ || e == "tif"@ || e == "bmp"@
}

/// Whether a listed file is an image the folder view shows.
pub open spec fn shows_entry(e: FolderEntry) -> bool {
    match e.extension {
        Some(x) => image_extension(x@),
        None => false,
    }
}

/// The paths of the images of a listing, in the listing's order.
pub open spec fn image_paths(entries: Seq<FolderEntry>) -> Seq<Seq<char>>
    decreases entries.len(),
{
    if entries.len() == 0 {
        Seq::empty()
    } else if shows_entry(entries.last()) {
        image_paths(entries.drop_last()).push(entries.last().path@)
    } else {
        image_paths(entries.drop_last())
    }
}

/// The status text when a folder holds no image.
pub open spec fn no_images_message() -> Seq<char> {
    "文件夹中没有支持的图片文件"@
}

/// The status text when switching images with unsaved changes.
pub open spec fn unsaved_message() -> Seq<char> {
    "有未保存的更改，请先保存或重置"@
}

/// A move to the previous image: nothing without images; a warning with
/// unsaved changes; otherwise one image back, when not at the first.
pub open spec fn moved_back(a: AppState, b: AppState, path: Option<String>) -> bool {
    if a.file_paths@.len() == 0 {
        path is None && b == a
    } else if !same_entries(a.exif_entries@, a.original_exif@) {
        &&& path is None
        &&& b == (AppState { status_message: b.status_message, ..a })
        &&& b.status_text() == Some(unsaved_message())
        &&& b.status_level() == Some(StatusLevel::Warning)
    } else if a.current_index > 0 {
        &&& b.current_index == a.current_index - 1
        &&& b == (AppState { current_index: b.current_index, ..a })
        &&& if b.current_index < a.file_paths@.len() {
            path matches Some(p) && p@ == a.file_paths@[b.current_index as int]@
        } else {
            path is None
        }
    } else {
        path is None && b == a
    }
}

/// A move to the next image: nothing without images; a warning with
/// unsaved changes; otherwise one image on, when not at the last.
pub open spec fn moved_forward(a: AppState, b: AppState, path: Option<String>) -> bool {
    if a.file_paths@.len() == 0 {
        path is None && b == a
    } else if !same_entries(a.exif_entries@, a.original_exif@) {
        &&& path is None
        &&& b == (AppState { status_message: b.status_message, ..a })
        &&& b.status_text() == Some(unsaved_message())
        &&& b.status_level() == Some(StatusLevel::Warning)
    } else if a.current_index + 1 < a.file_paths@.len() {
        &&& b.current_index == a.current_index + 1
        &&& b == (AppState { current_index: b.current_index, ..a })
        &&& path matches Some(p) && p@ == a.file_paths@[b.current_index as int]@
    } else {
        path is None && b == a
    }
}

/// A save request: with nothing to save the status says so, otherwise the
/// confirmation is asked for.
pub open spec fn save_requested(a: AppState, b: AppState) -> bool {
    if same_entries(a.exif_entries@, a.original_exif@) {
        &&& b == (AppState { status_message: b.status_message, ..a })
        &&& b.status_text() == Some("没有需要保存的更改"@)
        &&& b.status_level() == Some(StatusLevel::Info)
    } else {
        b == (AppState { pending_save: true, ..a })
    }
}

/// Deleting the selected fields: each recorded for undo, the selection
/// emptied.
pub open spec fn selection_deleted(a: AppState, b: AppState) -> bool {
    &&& b.selected_tags@.len() == 0
    &&& (b.exif_entries@, b.undo_view()) == deleted_tags(
        a.exif_entries@,
        a.undo_view(),
        a.selected_tags@.map_values(|t: ExifTag| t@),
    )
    &&& b.status_text() == Some("已删除选中的字段"@)
    &&& b.status_level() == Some(StatusLevel::Success)
    &&& b == (AppState {
        exif_entries: b.exif_entries,
        undo_stack: b.undo_stack,
        selected_tags: b.selected_tags,
        status_message: b.status_message,
        ..a
    })
}

/// Operations on the open files.
pub struct FileOps;

impl FileOps {
    /// Whether a listed extension is one of an image file.
    fn is_image_extension(ext: &str) -> (b: bool)
        ensures
            b == image_extension(ext@),
    {
        let e = crate::exif::validator::to_lowercase(ext);
        let e = e.as_str();
        proof {
            reveal_strlit("jpg");
            reveal_strlit("jpeg");
            reveal_strlit("png");
            reveal_strlit("webp");
            reveal_strlit("tiff");
            reveal_strlit("tif");
            reveal_strlit("bmp");
        }
        crate::text::text_equal(e, "jpg") || crate::text::text_equal(e, "jpeg") || crate::text::text_equal(e, "png")
            || crate::text::text_equal(e, "webp") || crate::text::text_equal(e, "tiff")
            || crate::text::text_equal(e, "tif") || crate::text::text_equal(e, "bmp")
    }

    /// Shows an image the caller has read: its size, its EXIF table and the
    /// result of the extension check. The edit state starts afresh.
    pub fn open_file(app: &mut AppState, path: &str, size: [u32; 2], entries: ExifMap, mismatch: Option<
        ExtensionMismatch,
    >)
        requires
            old(app).wf(),
            entries.wf(),
        ensures
            final(app).wf(),
            final(app).image_size == Some(size),
            final(app).exif_entries@ == entries@,
            final(app).original_exif@ == entries@,
            final(app).undo_stack@.len() == 0,
            final(app).search_query@.len() == 0,
            final(app).selected_tags@.len() == 0,
            final(app).editing_tag is None,
            !final(app).pixel_perfect,
            final(app).expanded_groups@ == groups_on_open(old(app).expanded_groups@),
            final(app).extension_warning == mismatch,
            final(app).status_text() == Some("已打开: "@ + path@),
            final(app).status_level() == Some(StatusLevel::Success),
            final(app).folder_path == old(app).folder_path,
            final(app).file_paths == old(app).file_paths,
            final(app).current_index == old(app).current_index,
            final(app).clipboard_exif == old(app).clipboard_exif,
            final(app).pending_save == old(app).pending_save,
    {
        app.image_size = Some(size);
        app.exif_entries = entries.duplicate();
        app.original_exif = entries;
        app.undo_stack = Vec::new();
        app.search_query = String::new();
        app.selected_tags = Vec::new();
        app.editing_tag = None;
        app.pixel_perfect = false;
        set_group(&mut app.expanded_groups, ExifGroup::CameraInfo, true);
        set_group(&mut app.expanded_groups, ExifGroup::Exposure, true);
        set_group(&mut app.expanded_groups, ExifGroup::GPS, true);
        app.extension_warning = mismatch;
        app.clear_status();
        let mut message = owned("已打开: ");
        message.append(path);
        app.set_status(message, StatusLevel::Success);
    }

    /// Lists the images of a folder from its directory listing: the files
    /// with an image extension, sorted by path. With none, the status says
    /// so and nothing else changes; otherwise the folder and its images
    /// become the session's, and the first image is returned for opening.
    pub fn open_folder(app: &mut AppState, folder: String, listing: Vec<FolderEntry>) -> (first: Option<String>)
        ensures
            ({
                let files = image_paths(listing@).sort_by(crate::text::text_leq());
                if files.len() == 0 {
                    &&& first is None
                    &&& *final(app) == (AppState {
                        status_message: final(app).status_message,
                        ..*old(app)
                    })
                    &&& final(app).status_text() == Some(no_images_message())
                    &&& final(app).status_level() == Some(StatusLevel::Warning)
                } else {
                    &&& first matches Some(p) && p@ == files[0]
                    &&& final(app).folder_path == Some(folder)
                    &&& crate::text::string_views(final(app).file_paths@) == files
                    &&& final(app).current_index == 0
                    &&& *final(app) == (AppState {
                        folder_path: final(app).folder_path,
                        file_paths: final(app).file_paths,
                        current_index: 0,
                        ..*old(app)
                    })
                }
            }),
    {
        let mut paths: Vec<String> = Vec::new();
        let mut i: usize = 0;
        while i < listing.len()
            invariant
                i <= listing@.len(),
                crate::text::string_views(paths@) == image_paths(listing@.take(i as int)),
            decreases listing@.len() - i,
        {
            let e = &listing[i];
            let ghost before = crate::text::string_views(paths@);
            assert(listing@.take(i + 1).drop_last() =~= listing@.take(i as int));
            assert(listing@.take(i + 1).last() == listing@[i as int]);
            let shows = match &e.extension {
                Some(x) => Self::is_image_extension(x.as_str()),
                None => false,
            };
            if shows {
                paths.push(e.path.clone());
                assert(crate::text::string_views(paths@) =~= before.push(e.path@));
            }
            i = i + 1;
        }
        assert(listing@.take(listing@.len() as int) =~= listing@);
        let files = crate::text::sort_texts(paths);
        if files.len() == 0 {
            app.set_status(owned("文件夹中没有支持的图片文件"), StatusLevel::Warning);
            return None;
        }
        let first = files[0].clone();
        app.folder_path = Some(folder);
        app.file_paths = files;
        app.current_index = 0;
        Some(first)
    }

    /// Moves to the previous image and returns its path for opening; with
    /// unsaved changes the status warns instead, at the first image or with
    /// no images nothing happens.
    pub fn prev_image(app: &mut AppState) -> (path: Option<String>)
        requires
            old(app).wf(),
        ensures
            final(app).wf(),
            moved_back(*old(app), *final(app), path),
    {
        if app.file_paths.len() == 0 {
            return None;
        }
        if app.has_unsaved_changes() {
            app.set_status(owned("有未保存的更改，请先保存或重置"), StatusLevel::Warning);
            return None;
        }
        if app.current_index > 0 {
            app.current_index = app.current_index - 1;
            return match app.current_path() {
                Some(p) => Some(p.clone()),
                None => None,
            };
        }
        None
    }

    /// Moves to the next image and returns its path for opening; with
    /// unsaved changes the status warns instead, at the last image or with
    /// no images nothing happens.
    pub fn next_image(app: &mut AppState) -> (path: Option<String>)
        requires
            old(app).wf(),
        ensures
            final(app).wf(),
            moved_forward(*old(app), *final(app), path),
    {
        if app.file_paths.len() == 0 {
            return None;
        }
        if app.has_unsaved_changes() {
            app.set_status(owned("有未保存的更改，请先保存或重置"), StatusLevel::Warning);
            return None;
        }
        if app.current_index < app.file_paths.len() - 1 {
            app.current_index = app.current_index + 1;
            return match app.current_path() {
                Some(p) => Some(p.clone()),
                None => None,
            };
        }
        None
    }

    /// Moves to the image at `index` and returns its path for opening; with
    /// unsaved changes the status warns instead, out of range nothing
    /// happens.
    pub fn select_thumbnail(app: &mut AppState, index: usize) -> (path: Option<String>)
        requires
            old(app).wf(),
        ensures
            final(app).wf(),
            index >= old(app).file_paths@.len() ==> path is None && *final(app) == *old(app),
            index < old(app).file_paths@.len() && !same_entries(old(app).exif_entries@, old(app).original_exif@) ==> {
                &&& path is None
                &&& *final(app) == (AppState { status_message: final(app).status_message, ..*old(app) })
                &&& final(app).status_text() == Some(unsaved_message())
                &&& final(app).status_level() == Some(StatusLevel::Warning)
            },
            index < old(app).file_paths@.len() && same_entries(old(app).exif_entries@, old(app).original_exif@) ==> {
                &&& *final(app) == (AppState { current_index: index, ..*old(app) })
                &&& path matches Some(p) && p@ == old(app).file_paths@[index as int]@
            },
    {
        if index >= app.file_paths.len() {
            return None;
        }
        if app.has_unsaved_changes() {
            app.set_status(owned("有未保存的更改，请先保存或重置"), StatusLevel::Warning);
            return None;
        }
        app.current_index = index;
        match app.current_path() {
            Some(p) => Some(p.clone()),
            None => None,
        }
    }

    /// Asks for confirmation before saving; with nothing to save the status
    /// says so instead.
    pub fn save_exif(app: &mut AppState)
        requires
            old(app).wf(),
        ensures
            final(app).wf(),
            save_requested(*old(app), *final(app)),
    {
        if !app.has_unsaved_changes() {
            app.set_status(owned("没有需要保存的更改"), StatusLevel::Info);
            return;
        }
        app.pending_save = true;
    }

    /// Records a successful save: the edited table becomes the file's, the
    /// undo stack empties.
    pub fn do_save(app: &mut AppState)
        requires
            old(app).wf(),
        ensures
            final(app).wf(),
            final(app).original_exif@ == old(app).exif_entries@,
            final(app).undo_stack@.len() == 0,
            final(app).status_text() == Some("保存成功"@),
            final(app).status_level() == Some(StatusLevel::Success),
            *final(app) == (AppState {
                original_exif: final(app).original_exif,
                undo_stack: final(app).undo_stack,
                status_message: final(app).status_message,
                ..*old(app)
            }),
    {
        app.original_exif = app.exif_entries.duplicate();
        app.undo_stack = Vec::new();
        app.set_status(owned("保存成功"), StatusLevel::Success);
    }

    /// Goes back to the table read from the file, dropping the edits, the
    /// undo stack, the selection and the edit in progress.
    pub fn reset_exif(app: &mut AppState)
        requires
            old(app).wf(),
        ensures
            final(app).wf(),
            final(app).exif_entries@ == old(app).original_exif@,
            final(app).undo_stack@.len() == 0,
            final(app).selected_tags@.len() == 0,
            final(app).editing_tag is None,
            final(app).status_text() == Some("已重置为原始 EXIF"@),
            final(app).status_level() == Some(StatusLevel::Info),
            *final(app) == (AppState {
                exif_entries: final(app).exif_entries,
                undo_stack: final(app).undo_stack,
                selected_tags: final(app).selected_tags,
                editing_tag: None,
                status_message: final(app).status_message,
                ..*old(app)
            }),
    {
        app.exif_entries = app.original_exif.duplicate();
        app.undo_stack = Vec::new();
        app.selected_tags = Vec::new();
        app.editing_tag = None;
        app.set_status(owned("已重置为原始 EXIF"), StatusLevel::Info);
    }

    /// Deletes the selected fields, recording each for undo, and empties
    /// the selection.
    pub fn delete_selected(app: &mut AppState)
        requires
            old(app).wf(),
        ensures
            final(app).wf(),
            selection_deleted(*old(app), *final(app)),
    {
        let mut tags: Vec<ExifTag> = Vec::new();
        std::mem::swap(&mut tags, &mut app.selected_tags);
        let ghost tv = tags@.map_values(|t: ExifTag| t@);
        let ghost start = *app;
        let mut i: usize = 0;
        while i < tags.len()
            invariant
                app.wf(),
                i <= tags@.len(),
                tv == tags@.map_values(|t: ExifTag| t@),
                (app.exif_entries@, app.undo_view()) == deleted_tags(start.exif_entries@, start.undo_view(), tv.take(i as int)),
                *app == (AppState { exif_entries: app.exif_entries, undo_stack: app.undo_stack, ..start }),
            decreases tags@.len() - i,
        {
            let tag = &tags[i];
            assert(tv.take(i + 1).drop_last() =~= tv.take(i as int));
            assert(tv.take(i + 1).last() == tag@);
            proof {
                if has_key(app.exif_entries@, tag@) {
                    lemma_lookup_at(app.exif_entries@, index_of_key(app.exif_entries@, tag@));
                }
            }
            match app.exif_entries.remove(tag) {
                Some(old_value) => {
                    app.push_undo(tag.duplicate(), old_value, ExifValue::empty_text());
                },
                None => {},
            }
            i = i + 1;
        }
        assert(tv.take(tags@.len() as int) =~= tv);
        app.set_status(owned("已删除选中的字段"), StatusLevel::Success);
    }

    /// Removes the fields a clear in `mode` selects, recording each for
    /// undo, in table order.
    pub fn clear_exif(app: &mut AppState, mode: ClearMode)
        requires
            old(app).wf(),
        ensures
            final(app).wf(),
            final(app).exif_entries@ == kept_fields(old(app).exif_entries@, mode),
            forall|i: int| 0 <= i < final(app).exif_entries@.len() ==> !clear_selects(mode,
                #[trigger] final(app).exif_entries@[i].0),
            mode == ClearMode::Privacy ==> forall|i: int| 0 <= i < final(app).exif_entries@.len()
                ==> !private_field(#[trigger] final(app).exif_entries@[i].0),
            final(app).undo_view() == cleared_undo(old(app).undo_view(), old(app).exif_entries@, mode),
            final(app).status_text() == Some(clear_message(mode)),
            final(app).status_level() == Some(StatusLevel::Success),
            *final(app) == (AppState {
                exif_entries: final(app).exif_entries,
                undo_stack: final(app).undo_stack,
                status_message: final(app).status_message,
                ..*old(app)
            }),
    {
        let ghost start = *app;
        let ghost orig = app.exif_entries@;
        let ghost mut consumed: int = 0;
        let mut i: usize = 0;
        while i < app.exif_entries.len()
            invariant
                app.wf(),
                0 <= i <= app.exif_entries@.len(),
                0 <= consumed <= orig.len(),
                app.exif_entries@.take(i as int) == kept_fields(orig.take(consumed), mode),
                app.exif_entries@.skip(i as int) == orig.skip(consumed),
                app.undo_view() == cleared_undo(start.undo_view(), orig.take(consumed), mode),
                *app == (AppState { exif_entries: app.exif_entries, undo_stack: app.undo_stack, ..start }),
            decreases app.exif_entries@.len() - i,
        {
            let ghost before = app.exif_entries@;
            let ghost x = before[i as int];
            assert(before.skip(i as int).len() == orig.skip(consumed).len());
            assert(orig.skip(consumed)[0] == x) by {
                assert(before.skip(i as int)[0] == x);
            }
            assert(orig[consumed] == x);
            assert(orig.take(consumed + 1).drop_last() =~= orig.take(consumed));
            assert(orig.take(consumed + 1).last() == x);
            let (tag, _) = app.exif_entries.entry(i);
            let selected = match mode {
                ClearMode::All => true,
                ClearMode::GPS => crate::text::text_equal(tag.ifd.as_str(), "GPS"),
                ClearMode::Privacy => AppState::is_privacy_field(tag),
            };
            proof {
                reveal_strlit("GPS");
            }
            if selected {
                let (t, v) = app.exif_entries.remove_at(i);
                app.push_undo(t, v, ExifValue::empty_text());
                proof {
                    assert(app.exif_entries@.take(i as int) =~= before.take(i as int));
                    assert(app.exif_entries@.skip(i as int) =~= before.skip(i + 1));
                    assert(orig.skip(consumed + 1) =~= orig.skip(consumed).drop_first());
                    assert(before.skip(i + 1) =~= before.skip(i as int).drop_first());
                    consumed = consumed + 1;
                }
            } else {
                proof {
                    assert(app.exif_entries@.take(i + 1) =~= before.take(i as int).push(x));
                    assert(orig.skip(consumed + 1) =~= orig.skip(consumed).drop_first());
                    assert(before.skip(i + 1) =~= before.skip(i as int).drop_first());
                    consumed = consumed + 1;
                }
                i = i + 1;
            }
        }
        proof {
            assert(app.exif_entries@.skip(i as int).len() == 0);
            assert(orig.skip(consumed).len() == 0);
            assert(orig.take(consumed) =~= orig);
            assert(app.exif_entries@.take(i as int) =~= app.exif_entries@);
            lemma_kept_fields_unselected(orig, mode);
        }
        let message = match mode {
            ClearMode::All => owned("已清除所有 EXIF 字段"),
            ClearMode::GPS => owned("已清除 GPS 字段"),
            ClearMode::Privacy => owned("已清除隐私字段"),
        };
        app.set_status(message, StatusLevel::Success);
    }
}

/// A clear keeps no field it selects.
proof fn lemma_kept_fields_unselected(s: Seq<EntryView>, mode: ClearMode)
    ensures
        forall|i: int| 0 <= i < kept_fields(s, mode).len() ==> !clear_selects(mode,
            #[trigger] kept_fields(s, mode)[i].0),
    decreases s.len(),
{
    if s.len() > 0 {
        lemma_kept_fields_unselected(s.drop_last(), mode);
        let k = kept_fields(s, mode);
        let k0 = kept_fields(s.drop_last(), mode);
        assert forall|i: int| 0 <= i < k.len() implies !clear_selects(mode, #[trigger] k[i].0) by {
            if i < k0.len() {
                assert(k[i] == k0[i]);
            }
        }
    }
}

/// A field that a privacy clear must take away: GPS and thumbnail fields,
/// copyright (0x8298), maker note (0x927C), user comment (0x9286), and the
/// camera body (0xA431) and lens (0xA435) serial numbers.
pub open spec fn private_field(t: TagView) -> bool {
    ||| t.ifd == "GPS"@
    ||| t.ifd == "Thumbnail"@
    ||| t.id == 0x8298
    ||| t.id == 0x927C
    ||| t.id == 0x9286
    ||| t.id == 0xA431
    ||| t.id == 0xA435
}

proof fn lemma_kept_fields_members(s: Seq<EntryView>, mode: ClearMode)
    ensures
        forall|i: int| 0 <= i < kept_fields(s, mode).len() ==> s.contains(#[trigger] kept_fields(s, mode)[i]),
        forall|j: int| 0 <= j < s.len() && !clear_selects(mode, s[j].0) ==> kept_fields(s, mode).contains(
            #[trigger] s[j]),
    decreases s.len(),
{
    if s.len() > 0 {
        let p = s.drop_last();
        lemma_kept_fields_members(p, mode);
        let k = kept_fields(s, mode);
        let k0 = kept_fields(p, mode);
        assert forall|i: int| 0 <= i < k.len() implies s.contains(#[trigger] k[i]) by {
            if i < k0.len() {
                assert(k[i] == k0[i]);
                assert(p.contains(k0[i]));
                let x = choose|x: int| 0 <= x < p.len() && p[x] == k0[i];
                assert(s[x] == p[x]);
            } else {
                assert(k[i] == s.last());
                assert(s[s.len() - 1] == s.last());
            }
        }
        assert forall|j: int| 0 <= j < s.len() && !clear_selects(mode, s[j].0) implies k.contains(#[trigger] s[j]) by {
            if j < s.len() - 1 {
                assert(s[j] == p[j]);
                assert(k0.contains(p[j]));
                let x = choose|x: int| 0 <= x < k0.len() && k0[x] == p[j];
                assert(k[x] == k0[x]);
            } else {
                assert(k[k.len() - 1] == s[j]);
            }
        }
    }
}

/// A privacy clear leaves no private field (GPS, thumbnail, copyright,
/// maker note, user comment, body or lens serial number), keeps every other
/// field, and adds none.
pub proof fn law_privacy_clear_removes_private_fields(s: Seq<EntryView>)
    ensures
        forall|i: int| 0 <= i < kept_fields(s, ClearMode::Privacy).len() ==> !private_field(
            #[trigger] kept_fields(s, ClearMode::Privacy)[i].0),
        forall|i: int| 0 <= i < kept_fields(s, ClearMode::Privacy).len() ==> s.contains(
            #[trigger] kept_fields(s, ClearMode::Privacy)[i]),
        forall|j: int| 0 <= j < s.len() && !private_field(s[j].0) ==> kept_fields(s, ClearMode::Privacy).contains(
            #[trigger] s[j]),
{
    lemma_kept_fields_unselected(s, ClearMode::Privacy);
    lemma_kept_fields_members(s, ClearMode::Privacy);
    let k = kept_fields(s, ClearMode::Privacy);
    assert forall|i: int| 0 <= i < k.len() implies !private_field(#[trigger] k[i].0) by {
        assert(!clear_selects(ClearMode::Privacy, k[i].0));
    }
    assert forall|j: int| 0 <= j < s.len() && !private_field(s[j].0) implies k.contains(#[trigger] s[j]) by {
        assert(!clear_selects(ClearMode::Privacy, s[j].0));
    }
}

// ============================================================================
// Privacy warnings
// ============================================================================

/// The warnings for one field: location fields (in the GPS IFD, or with
/// "gps" or "location" in the name) and serial numbers (the camera body and
/// lens serial number tags, or "serial" or "序列号" in the name), the name
/// compared in lower case.
pub open spec fn privacy_items(t: TagView) -> Seq<Seq<char>> {
    let n = crate::exif::validator::lowercase(t.name);
    (if t.ifd == "GPS"@ || crate::text::contains_text(n, "gps"@) || crate::text::contains_text(n, "location"@) {
        seq!["GPS: "@ + t.name]
    } else {
        Seq::empty()
    }) + (if t.id == 0xA431 || t.id == 0xA435 || crate::text::contains_text(n, "serial"@)
        || crate::text::contains_text(n, "序列号"@) {
        seq!["序列号: "@ + t.name]
    } else {
        Seq::empty()
    })
}

/// The warnings for a table, field by field.
pub open spec fn privacy_risks(s: Seq<EntryView>) -> Seq<Seq<char>>
    decreases s.len(),
{
    if s.len() == 0 {
        Seq::empty()
    } else {
        privacy_risks(s.drop_last()) + privacy_items(s.last().0)
    }
}

impl AppState {
    /// The fields that may give away where a photo was taken or which
    /// camera took it.
    pub fn has_privacy_risk(&self) -> (risks: Vec<String>)
        ensures
            crate::text::string_views(risks@) == privacy_risks(self.exif_entries@),
    {
        let mut risks: Vec<String> = Vec::new();
        let n = self.exif_entries.len();
        let mut i: usize = 0;
        while i < n
            invariant
                n == self.exif_entries@.len(),
                i <= n,
                crate::text::string_views(risks@) == privacy_risks(self.exif_entries@.take(i as int)),
            decreases n - i,
        {
            let (tag, _) = self.exif_entries.entry(i);
            let ghost before = crate::text::string_views(risks@);
            assert(self.exif_entries@.take(i + 1).drop_last() =~= self.exif_entries@.take(i as int));
            assert(self.exif_entries@.take(i + 1).last() == self.exif_entries@[i as int]);
            let lower = crate::exif::validator::to_lowercase(tag.name.as_str());
            let l = lower.as_str();
            proof {
                reveal_strlit("GPS");
            }
            if crate::text::text_equal(tag.ifd.as_str(), "GPS") || crate::text::text_contains(l, "gps")
                || crate::text::text_contains(l, "location") {
                let mut m = owned("GPS: ");
                m.append(tag.name.as_str());
                risks.push(m);
            }
            let ghost mid = crate::text::string_views(risks@);
            if tag.id == 0xA431 || tag.id == 0xA435 || crate::text::text_contains(l, "serial")
                || crate::text::text_contains(l, "序列号") {
                let mut m = owned("序列号: ");
                m.append(tag.name.as_str());
                risks.push(m);
            }
            assert(crate::text::string_views(risks@) =~= before + privacy_items(tag@));
            i = i + 1;
        }
        assert(self.exif_entries@.take(n as int) =~= self.exif_entries@);
        risks
    }
}

// ============================================================================
// Renaming by EXIF
// ============================================================================

/// The ASCII digits of a text, in order.
pub open spec fn ascii_digits(s: Seq<char>) -> Seq<char>
    decreases s.len(),
{
    if s.len() == 0 {
        s
    } else if crate::text::is_digit(s.last()) {
        ascii_digits(s.drop_last()).push(s.last())
    } else {
        ascii_digits(s.drop_last())
    }
}

/// Whether a shown value looks like a date or time.
pub open spec fn has_date_mark(s: Seq<char>) -> bool {
    s.contains('-') || s.contains(':')
}

/// The date and time of the name from the digits of a date: `YYYYMMDD_HHMMSS`
/// from fourteen digits or more, `YYYYMMDD` from eight to thirteen.
pub open spec fn stamp_of(d: Seq<char>) -> Seq<char> {
    if d.len() >= 14 {
        d.take(8) + seq!['_'] + d.subrange(8, 14)
    } else {
        d.take(8)
    }
}

/// The date part of the name: the date and time of the first value that
/// looks like a date or time, when it has eight digits.
pub open spec fn date_part(shown: Seq<Seq<char>>) -> Seq<Seq<char>>
    decreases shown.len(),
{
    if shown.len() == 0 {
        Seq::empty()
    } else if has_date_mark(shown[0]) {
        if ascii_digits(shown[0]).len() >= 8 {
            seq![stamp_of(ascii_digits(shown[0]))]
        } else {
            Seq::empty()
        }
    } else {
        date_part(shown.drop_first())
    }
}

/// `s` without its trailing zeros.
pub open spec fn without_trailing_zeros(s: Seq<char>) -> Seq<char>
    decreases s.len(),
{
    if s.len() > 0 && s.last() == '0' {
        without_trailing_zeros(s.drop_last())
    } else {
        s
    }
}

/// An f-number as written in a name: a shown decimal without the trailing
/// zeros of its fraction, nor a point left alone (`2.80` as `2.8`, `4.0` as
/// `4`); anything else as shown.
pub open spec fn fnumber_text(s: Seq<char>) -> Seq<char> {
    if s.contains('.') {
        let t = without_trailing_zeros(s);
        if t.len() > 0 && t.last() == '.' {
            t.drop_last()
        } else {
            t
        }
    } else {
        s
    }
}

/// The ISO and aperture parts of the name, field by field: `ISO` and the
/// value of each ISO field with a value, then `f` and the f-number of each
/// aperture field with a value.
pub open spec fn tagged_parts(tags: Seq<TagView>, shown: Seq<Seq<char>>, id: u16) -> Seq<Seq<char>>
    decreases tags.len(),
{
    if tags.len() == 0 || shown.len() < tags.len() {
        Seq::empty()
    } else {
        let n = tags.len() - 1;
        let rest = tagged_parts(tags.drop_last(), shown, id);
        if tags[n].id == id && id == 0x8827 && shown[n].len() > 0 {
            rest.push("ISO"@ + shown[n])
        } else if tags[n].id == id && id == 0x829D && shown[n].len() > 0 {
            rest.push("f"@ + fnumber_text(shown[n]))
        } else {
            rest
        }
    }
}

/// The parts joined with `sep` between them.
pub open spec fn joined(parts: Seq<Seq<char>>, sep: Seq<char>) -> Seq<char>
    decreases parts.len(),
{
    if parts.len() == 0 {
        Seq::empty()
    } else if parts.len() == 1 {
        parts[0]
    } else {
        joined(parts.drop_last(), sep) + sep + parts.last()
    }
}

/// The parts of the new file name: date, ISO, aperture.
pub open spec fn rename_parts(tags: Seq<TagView>, shown: Seq<Seq<char>>) -> Seq<Seq<char>> {
    date_part(shown) + tagged_parts(tags, shown, 0x8827) + tagged_parts(tags, shown, 0x829D)
}

/// The tags of a table.
pub open spec fn table_tags(s: Seq<EntryView>) -> Seq<TagView> {
    s.map_values(|e: EntryView| e.0)
}

/// The ASCII digits of `s`, in order.
fn digits_of(s: &str) -> (d: Vec<char>)
    ensures
        d@ == ascii_digits(s@),
{
    let n = s.unicode_len();
    let mut d: Vec<char> = Vec::new();
    let mut i: usize = 0;
    while i < n
        invariant
            n == s@.len(),
            i <= n,
            d@ == ascii_digits(s@.take(i as int)),
        decreases n - i,
    {
        let c = s.get_char(i);
        assert(s@.take(i + 1).drop_last() =~= s@.take(i as int));
        if '0' <= c && c <= '9' {
            d.push(c);
        }
        i = i + 1;
    }
    assert(s@.take(n as int) =~= s@);
    d
}

/// Whether `s` holds the character `c`.
fn has_char(s: &str, c: char) -> (b: bool)
    ensures
        b == s@.contains(c),
{
    let n = s.unicode_len();
    let mut i: usize = 0;
    while i < n
        invariant
            n == s@.len(),
            i <= n,
            forall|k: int| 0 <= k < i ==> s@[k] != c,
        decreases n - i,
    {
        if s.get_char(i) == c {
            return true;
        }
        i = i + 1;
    }
    false
}

/// The f-number of a shown aperture as a name writes it.
fn fnumber_of(s: &str) -> (r: String)
    ensures
        r@ == fnumber_text(s@),
{
    let mut v = crate::text::chars_of(s);
    if !has_char(s, '.') {
        return crate::text::string_from_chars(&v);
    }
    let ghost sv = s@;
    while v.len() > 0 && v[v.len() - 1] == '0'
        invariant
            without_trailing_zeros(v@) == without_trailing_zeros(sv),
        decreases v@.len(),
    {
        let ghost before = v@;
        v.pop();
        assert(v@ =~= before.drop_last());
    }
    assert(without_trailing_zeros(v@) == v@);
    if v.len() > 0 && v[v.len() - 1] == '.' {
        let ghost before = v@;
        v.pop();
        assert(v@ =~= before.drop_last());
    }
    crate::text::string_from_chars(&v)
}

/// The ISO or aperture parts, field by field.
fn collect_tagged(entries: &ExifMap, shown: &Vec<String>, id: u16, parts: &mut Vec<String>)
    requires
        shown@.len() == entries@.len(),
        id == 0x8827 || id == 0x829D,
    ensures
        crate::text::string_views(final(parts)@) == crate::text::string_views(old(parts)@) + tagged_parts(
            table_tags(entries@),
            crate::text::string_views(shown@),
            id,
        ),
{
    let ghost tags = table_tags(entries@);
    let ghost sv = crate::text::string_views(shown@);
    let ghost start = crate::text::string_views(parts@);
    let n = entries.len();
    let mut i: usize = 0;
    while i < n
        invariant
            n == entries@.len(),
            shown@.len() == n,
            id == 0x8827 || id == 0x829D,
            i <= n,
            tags == table_tags(entries@),
            sv == crate::text::string_views(shown@),
            crate::text::string_views(parts@) == start + tagged_parts(tags.take(i as int), sv, id),
        decreases n - i,
    {
        let (tag, _) = entries.entry(i);
        assert(tags.take(i + 1).drop_last() =~= tags.take(i as int));
        assert(tags.take(i + 1)[i as int] == tag@);
        assert(sv[i as int] == shown@[i as int]@);
        let ghost before = crate::text::string_views(parts@);
        let s = shown[i].as_str();
        if tag.id == id && id == 0x8827 && s.unicode_len() > 0 {
            let mut m = owned("ISO");
            m.append(s);
            parts.push(m);
            assert(crate::text::string_views(parts@) =~= before.push("ISO"@ + s@));
        } else if tag.id == id && id == 0x829D && s.unicode_len() > 0 {
            let mut m = owned("f");
            let f = fnumber_of(s);
            m.append(f.as_str());
            parts.push(m);
            assert(crate::text::string_views(parts@) =~= before.push("f"@ + fnumber_text(s@)));
        }
        i = i + 1;
    }
    assert(tags.take(n as int) =~= tags);
}

/// The date part of a new file name.
fn date_of(shown: &Vec<String>) -> (parts: Vec<String>)
    ensures
        crate::text::string_views(parts@) == date_part(crate::text::string_views(shown@)),
{
    let ghost sv = crate::text::string_views(shown@);
    let mut i: usize = 0;
    assert(sv.skip(0) =~= sv);
    while i < shown.len()
        invariant
            i <= shown@.len(),
            sv == crate::text::string_views(shown@),
            date_part(sv) == date_part(sv.skip(i as int)),
        decreases shown@.len() - i,
    {
        let s = shown[i].as_str();
        assert(sv.skip(i as int)[0] == s@);
        let mut parts: Vec<String> = Vec::new();
        if has_char(s, '-') || has_char(s, ':') {
            let d = digits_of(s);
            if d.len() >= 8 {
                let mut p: Vec<char> = Vec::new();
                let mut k: usize = 0;
                while k < 8
                    invariant
                        k <= 8,
                        d@.len() >= 8,
                        p@ == d@.take(k as int),
                    decreases 8 - k,
                {
                    p.push(d[k]);
                    assert(d@.take(k + 1) =~= d@.take(k as int).push(d@[k as int]));
                    k = k + 1;
                }
                if d.len() >= 14 {
                    p.push('_');
                    while k < 14
                        invariant
                            8 <= k <= 14,
                            d@.len() >= 14,
                            p@ == d@.take(8) + seq!['_'] + d@.subrange(8, k as int),
                        decreases 14 - k,
                    {
                        p.push(d[k]);
                        assert(d@.subrange(8, k + 1) =~= d@.subrange(8, k as int).push(d@[k as int]));
                        assert(p@ =~= d@.take(8) + seq!['_'] + d@.subrange(8, k + 1));
                        k = k + 1;
                    }
                }
                assert(p@ =~= stamp_of(d@));
                parts.push(crate::text::string_from_chars(&p));
                assert(crate::text::string_views(parts@) =~= seq![p@]);
            }
            return parts;
        }
        assert(sv.skip(i + 1) =~= sv.skip(i as int).drop_first());
        i = i + 1;
    }
    assert(sv.skip(i as int).len() == 0);
    Vec::new()
}

/// The status text when no part of a name can be found.
pub open spec fn no_rename_message() -> Seq<char> {
    "无法从 EXIF 提取信息进行重命名"@
}

impl FileOps {
    /// The new base name of the current image from its EXIF: the date and
    /// time of the first value that looks like a date (`20240101_120000`),
    /// the ISO (`ISO100`) and the f-number (`f2.8`), joined with `_`. `shown` holds the displayed value of each field, in
    /// table order. With nothing to name it by, the status warns and the
    /// result is `None`.
    pub fn rename_by_exif(app: &mut AppState, shown: &Vec<String>) -> (name: Option<String>)
        requires
            shown@.len() == old(app).exif_entries@.len(),
        ensures
            ({
                let parts = rename_parts(table_tags(old(app).exif_entries@), crate::text::string_views(shown@));
                if parts.len() == 0 {
                    &&& name is None
                    &&& *final(app) == (AppState { status_message: final(app).status_message, ..*old(app) })
                    &&& final(app).status_text() == Some(no_rename_message())
                    &&& final(app).status_level() == Some(StatusLevel::Warning)
                } else {
                    &&& name matches Some(n) && n@ == joined(parts, "_"@)
                    &&& *final(app) == *old(app)
                }
            }),
    {
        let ghost sv = crate::text::string_views(shown@);
        let mut parts = date_of(shown);
        assert(crate::text::string_views(parts@) == date_part(sv));
        collect_tagged(&app.exif_entries, shown, 0x8827, &mut parts);
        collect_tagged(&app.exif_entries, shown, 0x829D, &mut parts);
        assert(crate::text::string_views(parts@) =~= rename_parts(table_tags(app.exif_entries@), sv));
        if parts.len() == 0 {
            app.set_status(owned("无法从 EXIF 提取信息进行重命名"), StatusLevel::Warning);
            return None;
        }
        let ghost pv = crate::text::string_views(parts@);
        let mut name = parts[0].clone();
        let mut j: usize = 1;
        assert(pv.take(1) =~= seq![pv[0]]);
        while j < parts.len()
            invariant
                1 <= j <= parts@.len(),
                pv == crate::text::string_views(parts@),
                name@ == joined(pv.take(j as int), "_"@),
            decreases parts@.len() - j,
        {
            name.append("_");
            name.append(parts[j].as_str());
            proof {
                reveal_strlit("_");
                assert(pv.take(j + 1).drop_last() =~= pv.take(j as int));
            }
            j = j + 1;
        }
        assert(pv.take(parts@.len() as int) =~= pv);
        Some(name)
    }
}

// ============================================================================
// Renamed files, copy and paste, new fields
// ============================================================================

/// The list with the first occurrence of `old_path` replaced by `new_path`.
pub open spec fn replaced_path(s: Seq<Seq<char>>, old_path: Seq<char>, new_path: Seq<char>) -> Seq<Seq<char>> {
    if s.contains(old_path) {
        let i = choose|i: int| 0 <= i < s.len() && s[i] == old_path && forall|j: int| 0 <= j < i ==> s[j] != old_path;
        s.update(i, new_path)
    } else {
        s
    }
}

/// Replaces the first occurrence of `old_path` in the list.
fn replace_path(paths: &mut Vec<String>, old_path: &str, new_path: &String)
    ensures
        crate::text::string_views(final(paths)@) == replaced_path(
            crate::text::string_views(old(paths)@),
            old_path@,
            new_path@,
        ),
{
    let ghost sv = crate::text::string_views(paths@);
    let mut i: usize = 0;
    while i < paths.len()
        invariant
            i <= paths@.len(),
            paths@ == old(paths)@,
            sv == crate::text::string_views(paths@),
            forall|j: int| 0 <= j < i ==> sv[j] != old_path@,
        decreases paths@.len() - i,
    {
        if crate::text::text_equal(paths[i].as_str(), old_path) {
            proof {
                assert(sv[i as int] == old_path@);
                let k = choose|k: int| 0 <= k < sv.len() && sv[k] == old_path@ && forall|j: int| 0 <= j < k ==> sv[j] != old_path@;
                assert(k == i as int) by {
                    if k > i {
                        assert(sv[i as int] == old_path@);
                    }
                }
            }
            paths.set(i, new_path.clone());
            assert(crate::text::string_views(paths@) =~= sv.update(i as int, new_path@));
            return;
        }
        i = i + 1;
    }
}

impl FileOps {
    /// Records that the current file now has its proper extension: the
    /// list follows the new path, the image is shown from the new file and
    /// the warning clears.
    pub fn fix_extension(app: &mut AppState, old_path: &str, new_path: String, size: [u32; 2], entries: ExifMap)
        requires
            old(app).wf(),
            entries.wf(),
        ensures
            final(app).wf(),
            crate::text::string_views(final(app).file_paths@) == replaced_path(
                crate::text::string_views(old(app).file_paths@),
                old_path@,
                new_path@,
            ),
            final(app).image_size == Some(size),
            final(app).exif_entries@ == entries@,
            final(app).original_exif@ == entries@,
            final(app).undo_stack@.len() == 0,
            final(app).extension_warning is None,
            final(app).status_text() == Some("扩展名已修正"@),
            final(app).status_level() == Some(StatusLevel::Success),
    {
        replace_path(&mut app.file_paths, old_path, &new_path);
        Self::open_file(app, new_path.as_str(), size, entries, None);
        app.extension_warning = None;
        app.set_status(owned("扩展名已修正"), StatusLevel::Success);
    }

    /// Records that the current file was renamed: the list follows the new
    /// path and the image is shown from the new file.
    pub fn renamed(app: &mut AppState, old_path: &str, new_path: String, size: [u32; 2], entries: ExifMap,
        mismatch: Option<ExtensionMismatch>)
        requires
            old(app).wf(),
            entries.wf(),
        ensures
            final(app).wf(),
            crate::text::string_views(final(app).file_paths@) == replaced_path(
                crate::text::string_views(old(app).file_paths@),
                old_path@,
                new_path@,
            ),
            final(app).image_size == Some(size),
            final(app).exif_entries@ == entries@,
            final(app).original_exif@ == entries@,
            final(app).undo_stack@.len() == 0,
            final(app).extension_warning == mismatch,
            final(app).status_text() == Some("文件已重命名"@),
            final(app).status_level() == Some(StatusLevel::Success),
    {
        replace_path(&mut app.file_paths, old_path, &new_path);
        Self::open_file(app, new_path.as_str(), size, entries, mismatch);
        app.set_status(owned("文件已重命名"), StatusLevel::Success);
    }

    /// Warns that the name a rename wants is taken.
    pub fn rename_conflict(app: &mut AppState, target: &str)
        ensures
            *final(app) == (AppState { status_message: final(app).status_message, ..*old(app) }),
            final(app).status_text() == Some("目标文件 "@ + target@ + " 已存在"@),
            final(app).status_level() == Some(StatusLevel::Warning),
    {
        let mut m = owned("目标文件 ");
        m.append(target);
        m.append(" 已存在");
        app.set_status(m, StatusLevel::Warning);
    }
}

/// The table and undo stack after setting each field of `clip`, in order,
/// as an edit.
pub open spec fn pasted(entries: Seq<EntryView>, undo: Seq<UndoView>, clip: Seq<EntryView>) -> (
    Seq<EntryView>,
    Seq<UndoView>,
)
    decreases clip.len(),
{
    if clip.len() == 0 {
        (entries, undo)
    } else {
        let (e, u) = pasted(entries, undo, clip.drop_last());
        let f = clip.last();
        (insert_entry(e, f), pushed_undo(u, (f.0, previous_value(e, f.0), f.1)))
    }
}

/// Pasting a copied table sets each of its fields to the copied value and
/// leaves every other field of the image as it was; the table keeps each
/// tag once.
pub proof fn law_paste_copies_fields(entries: Seq<EntryView>, undo: Seq<UndoView>, clip: Seq<EntryView>, t: TagView)
    requires
        distinct_keys(entries),
        distinct_keys(clip),
    ensures
        distinct_keys(pasted(entries, undo, clip).0),
        lookup(pasted(entries, undo, clip).0, t) == (if has_key(clip, t) {
            lookup(clip, t)
        } else {
            lookup(entries, t)
        }),
    decreases clip.len(),
{
    if clip.len() > 0 {
        let rest = clip.drop_last();
        let f = clip.last();
        assert(distinct_keys(rest));
        law_paste_copies_fields(entries, undo, rest, t);
        let e = pasted(entries, undo, rest).0;
        lemma_insert_lookup(e, f, t);
        let n = clip.len() - 1;
        lemma_lookup_at(clip, n);
        if t != f.0 {
            if has_key(clip, t) {
                let j = index_of_key(clip, t);
                assert(j != n);
                assert(rest[j].0 == t);
                lemma_lookup_at(rest, j);
                lemma_lookup_at(clip, j);
            }
            if has_key(rest, t) {
                let j = index_of_key(rest, t);
                assert(clip[j].0 == t);
            }
        }
    }
}

/// A count in decimal, as a string.
fn count_text(prefix: &str, n: usize, suffix: &str) -> (s: String)
    ensures
        s@ == prefix@ + crate::text::decimal(n as nat) + suffix@,
{
    let mut v: Vec<char> = Vec::new();
    crate::text::push_str(&mut v, prefix);
    crate::text::push_decimal(&mut v, n as u64);
    crate::text::push_str(&mut v, suffix);
    crate::text::string_from_chars(&v)
}

/// Copying the table: a warning when it is empty, otherwise the clipboard
/// holds it and the status counts the fields.
pub open spec fn copied(a: AppState, b: AppState) -> bool {
    if a.exif_entries@.len() == 0 {
        &&& b == (AppState { status_message: b.status_message, ..a })
        &&& b.status_text() == Some("没有 EXIF 数据可复制"@)
        &&& b.status_level() == Some(StatusLevel::Warning)
    } else {
        &&& b.clipboard_exif matches Some(c) && c@ == a.exif_entries@
        &&& b.status_text() == Some("已复制 "@ + crate::text::decimal(a.exif_entries@.len()) + " 个 EXIF 字段"@)
        &&& b.status_level() == Some(StatusLevel::Success)
        &&& b == (AppState { clipboard_exif: b.clipboard_exif, status_message: b.status_message, ..a })
    }
}

/// Pasting the clipboard: a warning when it is empty, otherwise each of
/// its fields set as an edit, and the status counts them.
pub open spec fn pasted_clipboard(a: AppState, b: AppState) -> bool {
    match a.clipboard_exif {
        None => {
            &&& b == (AppState { status_message: b.status_message, ..a })
            &&& b.status_text() == Some("剪贴板中没有 EXIF 数据"@)
            &&& b.status_level() == Some(StatusLevel::Warning)
        },
        Some(c) => {
            &&& (b.exif_entries@, b.undo_view()) == pasted(a.exif_entries@, a.undo_view(), c@)
            &&& b.status_text() == Some("已粘贴 "@ + crate::text::decimal(c@.len()) + " 个 EXIF 字段"@)
            &&& b.status_level() == Some(StatusLevel::Success)
            &&& b == (AppState {
                exif_entries: b.exif_entries,
                undo_stack: b.undo_stack,
                status_message: b.status_message,
                ..a
            })
        },
    }
}

impl AppState {
    /// Copies the table to the clipboard.
    pub fn copy_exif(&mut self)
        requires
            old(self).wf(),
        ensures
            final(self).wf(),
            copied(*old(self), *final(self)),
    {
        if self.exif_entries.is_empty() {
            self.set_status(owned("没有 EXIF 数据可复制"), StatusLevel::Warning);
            return;
        }
        self.clipboard_exif = Some(self.exif_entries.duplicate());
        let m = count_text("已复制 ", self.exif_entries.len(), " 个 EXIF 字段");
        self.set_status(m, StatusLevel::Success);
    }

    /// Sets each field of the clipboard, in order, as an edit.
    pub fn paste_exif(&mut self)
        requires
            old(self).wf(),
        ensures
            final(self).wf(),
            pasted_clipboard(*old(self), *final(self)),
    {
        let clip = match &self.clipboard_exif {
            Some(c) => c.duplicate(),
            None => {
                self.set_status(owned("剪贴板中没有 EXIF 数据"), StatusLevel::Warning);
                return;
            },
        };
        let ghost start = *self;
        let n = clip.len();
        let mut i: usize = 0;
        while i < n
            invariant
                self.wf(),
                n == clip@.len(),
                i <= n,
                (self.exif_entries@, self.undo_view()) == pasted(start.exif_entries@, start.undo_view(), clip@.take(i as int)),
                *self == (AppState { exif_entries: self.exif_entries, undo_stack: self.undo_stack, ..start }),
            decreases n - i,
        {
            let (tag, value) = clip.entry(i);
            assert(clip@.take(i + 1).drop_last() =~= clip@.take(i as int));
            assert(clip@.take(i + 1).last() == clip@[i as int]);
            self.set_field(tag.duplicate(), value.duplicate());
            i = i + 1;
        }
        assert(clip@.take(n as int) =~= clip@);
        let m = count_text("已粘贴 ", n, " 个 EXIF 字段");
        self.set_status(m, StatusLevel::Success);
    }

    /// The shown value of the first field with number `id` in IFD `ifd`,
    /// empty text when there is none.
    pub fn get_field_value(&self, id: u16, ifd: &str) -> (d: crate::model::DisplayText)
        ensures
            (exists|i: int| 0 <= i < self.exif_entries@.len() && self.exif_entries@[i].0.id == id
                && self.exif_entries@[i].0.ifd == ifd@) ==> {
                let i = choose|i: int| 0 <= i < self.exif_entries@.len() && self.exif_entries@[i].0.id == id
                    && self.exif_entries@[i].0.ifd == ifd@ && forall|j: int| 0 <= j < i ==> !(
                    self.exif_entries@[j].0.id == id && self.exif_entries@[j].0.ifd == ifd@);
                d@ == crate::model::display_of(self.exif_entries@[i].1)
            },
            !(exists|i: int| 0 <= i < self.exif_entries@.len() && self.exif_entries@[i].0.id == id
                && self.exif_entries@[i].0.ifd == ifd@) ==> d@ == crate::model::DisplayView::Text(Seq::empty()),
    {
        let n = self.exif_entries.len();
        let mut i: usize = 0;
        while i < n
            invariant
                n == self.exif_entries@.len(),
                i <= n,
                forall|j: int| 0 <= j < i ==> !(self.exif_entries@[j].0.id == id && self.exif_entries@[j].0.ifd
                    == ifd@),
            decreases n - i,
        {
            let (tag, value) = self.exif_entries.entry(i);
            if tag.id == id && crate::text::text_equal(tag.ifd.as_str(), ifd) {
                proof {
                    let s = self.exif_entries@;
                    let k = choose|k: int| 0 <= k < s.len() && s[k].0.id == id && s[k].0.ifd == ifd@ && forall|j: int|
                        0 <= j < k ==> !(s[j].0.id == id && s[j].0.ifd == ifd@);
                    assert(k == i as int) by {
                        if k > i {
                            assert(s[i as int].0.id == id && s[i as int].0.ifd == ifd@);
                        }
                    }
                }
                return value.to_display_string();
            }
            i = i + 1;
        }
        crate::model::DisplayText::Text(String::new())
    }

    /// Sets the field `id` of IFD `ifd`, named `name`, from entered text, as
    /// an edit; empty text changes nothing.
    pub fn set_field_value(&mut self, id: u16, ifd: &str, name: &str, text: &str)
        requires
            old(self).wf(),
        ensures
            final(self).wf(),
            text@.len() == 0 ==> *final(self) == *old(self),
            text@.len() > 0 ==> {
                let t = TagView { id: id, ifd: ifd@, name: name@ };
                let v = crate::model::value_from_text(text@);
                &&& final(self).exif_entries@ == insert_entry(old(self).exif_entries@, (t, v))
                &&& final(self).undo_view() == pushed_undo(
                    old(self).undo_view(),
                    (t, previous_value(old(self).exif_entries@, t), v),
                )
                &&& *final(self) == (AppState {
                    undo_stack: final(self).undo_stack,
                    exif_entries: final(self).exif_entries,
                    ..*old(self)
                })
            },
    {
        if text.unicode_len() == 0 {
            return;
        }
        let tag = ExifTag::new(id, ifd, name);
        let value = ExifValue::from_string(text);
        self.set_field(tag, value);
    }
}

/// What the new-field form asks for.
pub open spec fn add_tag_outcome(id: Seq<char>, ifd: Seq<char>, name: Seq<char>, value: Seq<char>) -> Option<
    Option<u16>,
> {
    let (i, f, n, v) = (
        crate::text::trimmed(id),
        crate::text::trimmed(ifd),
        crate::text::trimmed(name),
        crate::text::trimmed(value),
    );
    if i.len() == 0 || f.len() == 0 || n.len() == 0 || v.len() == 0 {
        None
    } else {
        Some(crate::text::parse_hex_u16(crate::text::strip_prefixes(i, "0x"@)))
    }
}

impl AppState {
    /// Adds the field the new-field form describes (number in hexadecimal,
    /// IFD, name, value, each trimmed), as an edit. An empty part leaves
    /// the table alone and the status asks for all parts; a number that is
    /// not hexadecimal keeps the form open with an error. Otherwise the form
    /// closes.
    pub fn confirm_add_tag(&mut self)
        requires
            old(self).wf(),
        ensures
            final(self).wf(),
            ({
                let outcome = add_tag_outcome(
                    old(self).new_tag_id@,
                    old(self).new_tag_ifd@,
                    old(self).new_tag_name@,
                    old(self).new_tag_value@,
                );
                let f = crate::text::trimmed(old(self).new_tag_ifd@);
                let n = crate::text::trimmed(old(self).new_tag_name@);
                let v = crate::model::value_from_text(crate::text::trimmed(old(self).new_tag_value@));
                match outcome {
                    None => {
                        &&& *final(self) == (AppState {
                            status_message: final(self).status_message,
                            show_add_tag_popup: false,
                            ..*old(self)
                        })
                        &&& final(self).status_text() == Some("请填写所有字段"@)
                        &&& final(self).status_level() == Some(StatusLevel::Warning)
                    },
                    Some(None) => {
                        &&& *final(self) == (AppState { status_message: final(self).status_message, ..*old(self) })
                        &&& final(self).status_text() == Some("Tag ID 格式错误，请输入十六进制（如 0x9003）"@)
                        &&& final(self).status_level() == Some(StatusLevel::Error)
                    },
                    Some(Some(id)) => {
                        let t = TagView { id: id, ifd: f, name: n };
                        &&& final(self).exif_entries@ == insert_entry(old(self).exif_entries@, (t, v))
                        &&& final(self).undo_view() == pushed_undo(
                            old(self).undo_view(),
                            (t, previous_value(old(self).exif_entries@, t), v),
                        )
                        &&& final(self).status_text() == Some("已新增字段: "@ + n + " ("@ + f + ")"@)
                        &&& final(self).status_level() == Some(StatusLevel::Success)
                        &&& *final(self) == (AppState {
                            undo_stack: final(self).undo_stack,
                            exif_entries: final(self).exif_entries,
                            status_message: final(self).status_message,
                            show_add_tag_popup: false,
                            ..*old(self)
                        })
                    },
                }
            }),
    {
        let id_text = crate::text::trim_text(self.new_tag_id.as_str());
        let ifd = crate::text::string_from_chars(&crate::text::trim_text(self.new_tag_ifd.as_str()));
        let name = crate::text::string_from_chars(&crate::text::trim_text(self.new_tag_name.as_str()));
        let value = crate::text::string_from_chars(&crate::text::trim_text(self.new_tag_value.as_str()));
        if id_text.len() == 0 || ifd.as_str().unicode_len() == 0 || name.as_str().unicode_len() == 0
            || value.as_str().unicode_len() == 0 {
            self.set_status(owned("请填写所有字段"), StatusLevel::Warning);
            self.show_add_tag_popup = false;
            return;
        }
        let digits = crate::text::strip_prefixes_of(&id_text, "0x");
        proof {
            reveal_strlit("0x");
        }
        let id = match crate::text::hex_u16(&digits) {
            Some(v) => v,
            None => {
                self.set_status(owned("Tag ID 格式错误，请输入十六进制（如 0x9003）"), StatusLevel::Error);
                return;
            },
        };
        let tag = ExifTag::new(id, ifd.as_str(), name.as_str());
        let new_value = ExifValue::from_string(value.as_str());
        self.set_field(tag, new_value);
        let mut m = owned("已新增字段: ");
        m.append(name.as_str());
        m.append(" (");
        m.append(ifd.as_str());
        m.append(")");
        self.set_status(m, StatusLevel::Success);
        self.show_add_tag_popup = false;
    }
}

// ============================================================================
// Rows of the EXIF table
// ============================================================================

/// The views of a list of tags.
pub open spec fn tag_list(v: Seq<ExifTag>) -> Seq<TagView> {
    v.map_values(|t: ExifTag| t@)
}

/// The list without the copies of `t`.
pub open spec fn without_tag(s: Seq<TagView>, t: TagView) -> Seq<TagView>
    decreases s.len(),
{
    if s.len() == 0 {
        s
    } else if s.last() == t {
        without_tag(s.drop_last(), t)
    } else {
        without_tag(s.drop_last(), t).push(s.last())
    }
}

impl AppState {
    /// Whether a field is highlighted as a privacy risk: GPS and thumbnail
    /// fields, copyright, maker note, user comment, camera body and lens
    /// serial numbers.
    pub fn is_privacy_field(tag: &ExifTag) -> (b: bool)
        ensures
            b == clear_selects(ClearMode::Privacy, tag@),
            b == private_field(tag@),
    {
        proof {
            reveal_strlit("GPS");
            reveal_strlit("Thumbnail");
        }
        crate::text::text_equal(tag.ifd.as_str(), "GPS") || crate::text::text_equal(tag.ifd.as_str(), "Thumbnail")
            || tag.id == 0x8298 || tag.id == 0x927C || tag.id == 0x9286 || tag.id == 0xA431 || tag.id == 0xA435
    }

    /// Ticks or unticks a field's box: a ticked field not yet selected is
    /// added at the end, an unticked one loses all its copies.
    pub fn set_selected(&mut self, tag: &ExifTag, checked: bool)
        ensures
            ({
                let sel = tag_list(old(self).selected_tags@);
                let now = tag_list(final(self).selected_tags@);
                if checked && !sel.contains(tag@) {
                    now == sel.push(tag@)
                } else if !checked && sel.contains(tag@) {
                    now == without_tag(sel, tag@)
                } else {
                    now == sel
                }
            }),
            *final(self) == (AppState { selected_tags: final(self).selected_tags, ..*old(self) }),
    {
        let ghost sel = tag_list(self.selected_tags@);
        let mut found = false;
        let mut i: usize = 0;
        while i < self.selected_tags.len()
            invariant
                i <= self.selected_tags@.len(),
                sel == tag_list(self.selected_tags@),
                found == exists|k: int| 0 <= k < i && sel[k] == tag@,
            decreases self.selected_tags@.len() - i,
        {
            assert(sel[i as int] == self.selected_tags@[i as int]@);
            if self.selected_tags[i].same(tag) {
                found = true;
            }
            i = i + 1;
        }
        assert(found == sel.contains(tag@));
        if checked && !found {
            self.selected_tags.push(tag.duplicate());
            assert(tag_list(self.selected_tags@) =~= sel.push(tag@));
        } else if !checked && found {
            let mut kept: Vec<ExifTag> = Vec::new();
            let mut j: usize = 0;
            while j < self.selected_tags.len()
                invariant
                    j <= self.selected_tags@.len(),
                    sel == tag_list(self.selected_tags@),
                    tag_list(kept@) == without_tag(sel.take(j as int), tag@),
                decreases self.selected_tags@.len() - j,
            {
                let ghost before = tag_list(kept@);
                assert(sel.take(j + 1).drop_last() =~= sel.take(j as int));
                assert(sel.take(j + 1).last() == self.selected_tags@[j as int]@);
                if !self.selected_tags[j].same(tag) {
                    kept.push(self.selected_tags[j].duplicate());
                    assert(tag_list(kept@) =~= before.push(self.selected_tags@[j as int]@));
                }
                j = j + 1;
            }
            assert(sel.take(self.selected_tags@.len() as int) =~= sel);
            self.selected_tags = kept;
        }
    }

    /// Starts editing a field's value.
    pub fn begin_edit(&mut self, tag: &ExifTag)
        ensures
            final(self).editing_tag matches Some(t) && t@ == tag@,
            *final(self) == (AppState { editing_tag: final(self).editing_tag, ..*old(self) }),
    {
        self.editing_tag = Some(tag.duplicate());
    }

    /// Ends the edit of a field shown with `value`: non-empty text becomes
    /// its new value, recorded for undo; the edit closes either way.
    pub fn commit_edit(&mut self, tag: &ExifTag, value: &ExifValue, text: &str)
        requires
            old(self).wf(),
        ensures
            final(self).wf(),
            final(self).editing_tag is None,
            text@.len() == 0 ==> *final(self) == (AppState { editing_tag: None, ..*old(self) }),
            text@.len() > 0 ==> {
                let v = crate::model::value_from_text(text@);
                &&& final(self).exif_entries@ == insert_entry(old(self).exif_entries@, (tag@, v))
                &&& final(self).undo_view() == pushed_undo(old(self).undo_view(), (tag@, value@, v))
                &&& *final(self) == (AppState {
                    exif_entries: final(self).exif_entries,
                    undo_stack: final(self).undo_stack,
                    editing_tag: None,
                    ..*old(self)
                })
            },
    {
        if text.unicode_len() > 0 {
            let new_value = ExifValue::from_string(text);
            self.push_undo(tag.duplicate(), value.duplicate(), new_value.duplicate());
            self.exif_entries.insert(tag.duplicate(), new_value);
        }
        self.editing_tag = None;
    }

    /// Leaves the edit without changing the value.
    pub fn cancel_edit(&mut self)
        ensures
            *final(self) == (AppState { editing_tag: None, ..*old(self) }),
    {
        self.editing_tag = None;
    }

    /// Deletes one field from its context menu: it becomes the only
    /// selected field, then the selection is deleted.
    pub fn delete_field(&mut self, tag: &ExifTag)
        requires
            old(self).wf(),
        ensures
            final(self).wf(),
            ({
                let mid = AppState { selected_tags: final(self).selected_tags, ..*old(self) };
                &&& final(self).selected_tags@.len() == 0
                &&& (final(self).exif_entries@, final(self).undo_view()) == deleted_tags(
                    old(self).exif_entries@,
                    old(self).undo_view(),
                    seq![tag@],
                )
                &&& final(self).status_text() == Some("已删除选中的字段"@)
                &&& final(self).status_level() == Some(StatusLevel::Success)
                &&& *final(self) == (AppState {
                    exif_entries: final(self).exif_entries,
                    undo_stack: final(self).undo_stack,
                    selected_tags: final(self).selected_tags,
                    status_message: final(self).status_message,
                    ..*old(self)
                })
            }),
    {
        let mut sel: Vec<ExifTag> = Vec::new();
        sel.push(tag.duplicate());
        self.selected_tags = sel;
        assert(self.selected_tags@.map_values(|t: ExifTag| t@) =~= seq![tag@]);
        FileOps::delete_selected(self);
    }

    /// Opens the new-field form from a field's context menu, with empty
    /// parts.
    pub fn start_add_tag(&mut self, tag: &ExifTag)
        ensures
            final(self).context_menu_tag matches Some(t) && t@ == tag@,
            final(self).show_add_tag_popup,
            final(self).new_tag_id@.len() == 0,
            final(self).new_tag_ifd@.len() == 0,
            final(self).new_tag_name@.len() == 0,
            final(self).new_tag_value@.len() == 0,
            *final(self) == (AppState {
                context_menu_tag: final(self).context_menu_tag,
                show_add_tag_popup: true,
                new_tag_id: final(self).new_tag_id,
                new_tag_ifd: final(self).new_tag_ifd,
                new_tag_name: final(self).new_tag_name,
                new_tag_value: final(self).new_tag_value,
                ..*old(self)
            }),
    {
        self.context_menu_tag = Some(tag.duplicate());
        self.show_add_tag_popup = true;
        self.new_tag_id = String::new();
        self.new_tag_ifd = String::new();
        self.new_tag_name = String::new();
        self.new_tag_value = String::new();
    }
}

} // verus!
