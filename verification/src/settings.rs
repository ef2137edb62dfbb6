//! The settings kept between sessions: the last folder and position, and
//! the lists of recently opened folders and files.
use vstd::prelude::*;
use vstd::string::*;
use crate::text::{string_views, text_equal};

verus! {

/// How many recent folders, and recent files, are kept.
pub const RECENT_LIMIT: usize = 10;

/// The settings. The window size and zoom level, kept as floating-point
/// numbers, are stored beside these by the caller.
#[derive(Debug)]
pub struct Settings {
    pub last_folder: Option<String>,
    pub recent_folders: Vec<String>,
    pub recent_files: Vec<String>,
    pub ignored_extension_warnings: Vec<String>,
    pub last_position: usize,
    pub auto_restore: bool,
}

/// The entries other than `p`, in order.
pub open spec fn without(s: Seq<Seq<char>>, p: Seq<char>) -> Seq<Seq<char>>
    decreases s.len(),
{
    if s.len() == 0 {
        s
    } else if s.last() == p {
        without(s.drop_last(), p)
    } else {
        without(s.drop_last(), p).push(s.last())
    }
}

/// A recent list after opening `p`: `p` first, then the others without
/// `p`, at most ten in all.
pub open spec fn recent_after(s: Seq<Seq<char>>, p: Seq<char>) -> Seq<Seq<char>> {
    let r = seq![p] + without(s, p);
    if r.len() > RECENT_LIMIT {
        r.take(RECENT_LIMIT as int)
    } else {
        r
    }
}

/// The entries whose flag is set.
pub open spec fn flagged(s: Seq<Seq<char>>, flags: Seq<bool>) -> Seq<Seq<char>>
    decreases s.len(),
{
    if s.len() == 0 {
        s
    } else {
        let n = s.len() - 1;
        if n < flags.len() && flags[n] {
            flagged(s.drop_last(), flags).push(s[n])
        } else {
            flagged(s.drop_last(), flags)
        }
    }
}

proof fn lemma_filter_keeps(s: Seq<Seq<char>>, p: Seq<char>)
    ensures
        forall|i: int| 0 <= i < without(s, p).len() ==> #[trigger] without(s, p)[i] != p,
        forall|i: int| 0 <= i < without(s, p).len() ==> s.contains(#[trigger] without(s, p)[i]),
        s.no_duplicates() ==> without(s, p).no_duplicates(),
    decreases s.len(),
{
    if s.len() > 0 {
        lemma_filter_keeps(s.drop_last(), p);
        let f = without(s, p);
        let g = without(s.drop_last(), p);
        assert forall|i: int| 0 <= i < f.len() implies s.contains(#[trigger] f[i]) by {
            if i < g.len() {
                assert(f[i] == g[i]);
                assert(s.drop_last().contains(g[i]));
                let m = choose|m: int| 0 <= m < s.drop_last().len() && s.drop_last()[m] == g[i];
                assert(s[m] == g[i]);
            } else {
                assert(f[i] == s.last());
                assert(s[s.len() - 1] == f[i]);
            }
        }
        assert forall|i: int| 0 <= i < f.len() implies #[trigger] f[i] != p by {
            if i < g.len() {
                assert(f[i] == g[i]);
            }
        }
        if s.no_duplicates() {
            assert(s.drop_last().no_duplicates()) by {
                assert forall|i: int, j: int| 0 <= i < s.drop_last().len() && 0 <= j < s.drop_last().len() && i
                    != j implies s.drop_last()[i] != s.drop_last()[j] by {
                    assert(s.drop_last()[i] == s[i] && s.drop_last()[j] == s[j]);
                }
            }
            if s.last() != p {
                assert(!g.contains(s.last())) by {
                    if g.contains(s.last()) {
                        let k = choose|k: int| 0 <= k < g.len() && g[k] == s.last();
                        let m = choose|m: int| 0 <= m < s.drop_last().len() && s.drop_last()[m] == g[k];
                        assert(s[m] == s[s.len() - 1]);
                    }
                }
                assert forall|i: int, j: int| 0 <= i < f.len() && 0 <= j < f.len() && i != j implies f[i]
                    != f[j] by {
                    if i < g.len() && j < g.len() {
                        assert(f[i] == g[i] && f[j] == g[j]);
                    } else if i < g.len() {
                        assert(f[i] == g[i]);
                        assert(g.contains(f[i]));
                    } else if j < g.len() {
                        assert(f[j] == g[j]);
                        assert(g.contains(f[j]));
                    }
                }
            }
        }
    }
}

/// Puts `path` first in a recent list, dropping its other copies and the
/// entries past the limit.
fn add_recent(list: &mut Vec<String>, path: String)
    ensures
        string_views(final(list)@) == recent_after(string_views(old(list)@), path@),
        final(list)@.len() <= RECENT_LIMIT,
        string_views(final(list)@)[0] == path@,
        string_views(old(list)@).no_duplicates() ==> string_views(final(list)@).no_duplicates(),
{
    let ghost sv = string_views(list@);
    let ghost p = path@;
    let mut r: Vec<String> = Vec::new();
    r.push(path.clone());
    let mut i: usize = 0;
    while i < list.len()
        invariant
            i <= list@.len(),
            sv == string_views(list@),
            p == path@,
            string_views(r@) == seq![p] + without(sv.take(i as int), p),
        decreases list@.len() - i,
    {
        let ghost before = string_views(r@);
        assert(sv.take(i + 1).drop_last() =~= sv.take(i as int));
        assert(sv.take(i + 1).last() == list@[i as int]@);
        if !text_equal(list[i].as_str(), path.as_str()) {
            r.push(list[i].clone());
            assert(string_views(r@) =~= before.push(list@[i as int]@));
        }
        i = i + 1;
    }
    assert(sv.take(list@.len() as int) =~= sv);
    let ghost full = string_views(r@);
    if r.len() > RECENT_LIMIT {
        r.truncate(RECENT_LIMIT);
        assert(string_views(r@) =~= full.take(RECENT_LIMIT as int));
    }
    proof {
        lemma_filter_keeps(sv, p);
        let f = without(sv, p);
        assert(full =~= seq![p] + f);
        if sv.no_duplicates() {
            assert forall|a: int, b: int| 0 <= a < full.len() && 0 <= b < full.len() && a != b implies full[a]
                != full[b] by {
                if a > 0 && b > 0 {
                    assert(full[a] == f[a - 1] && full[b] == f[b - 1]);
                } else if a == 0 {
                    assert(full[b] == f[b - 1]);
                } else {
                    assert(full[a] == f[a - 1]);
                }
            }
            let now = string_views(r@);
            assert forall|a: int, b: int| 0 <= a < now.len() && 0 <= b < now.len() && a != b implies now[a]
                != now[b] by {
                assert(now[a] == full[a] && now[b] == full[b]);
            }
        }
    }
    *list = r;
}

impl Settings {
    /// The settings of a first start: nothing recent, restoring on.
    pub fn new() -> (s: Settings)
        ensures
            s.last_folder is None,
            s.recent_folders@.len() == 0,
            s.recent_files@.len() == 0,
            s.ignored_extension_warnings@.len() == 0,
            s.last_position == 0,
            s.auto_restore,
    {
        Settings {
            last_folder: None,
            recent_folders: Vec::new(),
            recent_files: Vec::new(),
            ignored_extension_warnings: Vec::new(),
            last_position: 0,
            auto_restore: true,
        }
    }

    /// Notes a folder as opened: first in the recent folders, once, at most
    /// ten kept.
    pub fn add_recent_folder(&mut self, path: String)
        ensures
            string_views(final(self).recent_folders@) == recent_after(string_views(old(self).recent_folders@), path@),
            final(self).recent_folders@.len() <= RECENT_LIMIT,
            string_views(final(self).recent_folders@)[0] == path@,
            string_views(old(self).recent_folders@).no_duplicates() ==> string_views(
                final(self).recent_folders@,
            ).no_duplicates(),
            final(self).recent_files == old(self).recent_files,
            final(self).last_folder == old(self).last_folder,
            final(self).last_position == old(self).last_position,
            final(self).auto_restore == old(self).auto_restore,
            final(self).ignored_extension_warnings == old(self).ignored_extension_warnings,
    {
        add_recent(&mut self.recent_folders, path);
    }

    /// Notes a file as opened: first in the recent files, once, at most ten
    /// kept.
    pub fn add_recent_file(&mut self, path: String)
        ensures
            string_views(final(self).recent_files@) == recent_after(string_views(old(self).recent_files@), path@),
            final(self).recent_files@.len() <= RECENT_LIMIT,
            string_views(final(self).recent_files@)[0] == path@,
            string_views(old(self).recent_files@).no_duplicates() ==> string_views(
                final(self).recent_files@,
            ).no_duplicates(),
            final(self).recent_folders == old(self).recent_folders,
            final(self).last_folder == old(self).last_folder,
            final(self).last_position == old(self).last_position,
            final(self).auto_restore == old(self).auto_restore,
            final(self).ignored_extension_warnings == old(self).ignored_extension_warnings,
    {
        add_recent(&mut self.recent_files, path);
    }

    /// The recent folders that still exist, in order; `exists[i]` says
    /// whether the `i`-th one does.
    pub fn valid_recent_folders(&self, exists: &Vec<bool>) -> (v: Vec<String>)
        ensures
            string_views(v@) == flagged(string_views(self.recent_folders@), exists@),
    {
        keep_flagged(&self.recent_folders, exists)
    }

    /// The recent files that still exist, in order; `exists[i]` says
    /// whether the `i`-th one does.
    pub fn valid_recent_files(&self, exists: &Vec<bool>) -> (v: Vec<String>)
        ensures
            string_views(v@) == flagged(string_views(self.recent_files@), exists@),
    {
        keep_flagged(&self.recent_files, exists)
    }
}

/// The entries whose flag is set.
fn keep_flagged(list: &Vec<String>, flags: &Vec<bool>) -> (v: Vec<String>)
    ensures
        string_views(v@) == flagged(string_views(list@), flags@),
{
    let ghost sv = string_views(list@);
    let mut v: Vec<String> = Vec::new();
    let mut i: usize = 0;
    while i < list.len()
        invariant
            i <= list@.len(),
            sv == string_views(list@),
            string_views(v@) == flagged(sv.take(i as int), flags@),
        decreases list@.len() - i,
    {
        let ghost before = string_views(v@);
        assert(sv.take(i + 1).drop_last() =~= sv.take(i as int));
        assert(sv.take(i + 1)[i as int] == list@[i as int]@);
        if i < flags.len() && flags[i] {
            v.push(list[i].clone());
            assert(string_views(v@) =~= before.push(list@[i as int]@));
        }
        i = i + 1;
    }
    assert(sv.take(list@.len() as int) =~= sv);
    v
}

impl Settings {
    /// Remembers the session on exit: the open folder and position (and
    /// the folder as recent), then the current image as a recent file.
    pub fn remember_session(&mut self, app: &crate::session::AppState)
        ensures
            app.folder_path is None ==> final(self).last_folder == old(self).last_folder
                && final(self).last_position == old(self).last_position
                && final(self).recent_folders == old(self).recent_folders,
            app.folder_path matches Some(f) ==> final(self).last_folder == Some(f) && final(self).last_position
                == app.current_index && string_views(final(self).recent_folders@) == recent_after(
                string_views(old(self).recent_folders@),
                f@,
            ),
            app.current_index < app.file_paths@.len() ==> string_views(final(self).recent_files@) == recent_after(
                string_views(old(self).recent_files@),
                app.file_paths@[app.current_index as int]@,
            ),
            app.current_index >= app.file_paths@.len() ==> final(self).recent_files == old(self).recent_files,
            final(self).auto_restore == old(self).auto_restore,
            final(self).ignored_extension_warnings == old(self).ignored_extension_warnings,
    {
        match &app.folder_path {
            Some(f) => {
                self.last_folder = Some(f.clone());
                self.last_position = app.current_index;
                self.add_recent_folder(f.clone());
            },
            None => {},
        }
        match app.current_path() {
            Some(p) => self.add_recent_file(p.clone()),
            None => {},
        }
    }
}

} // verus!
