//! What the editor does on a keyboard shortcut, on a dropped file and at
//! start-up; the caller polls the keys and performs the file work.
use vstd::prelude::*;
use vstd::string::*;
use crate::model::StatusLevel;
use crate::session::{AppState, FileOps, moved_back, moved_forward, save_requested, copied, pasted_clipboard,
    selection_deleted};

verus! {

/// A keyboard shortcut the editor reacts to.
#[derive(Debug, Clone, Copy, PartialEq, Eq, Structural)]
pub enum Shortcut {
    /// Left arrow.
    PrevImage,
    /// Right arrow.
    NextImage,
    /// Ctrl+S.
    Save,
    /// Ctrl+Z.
    Undo,
    /// Ctrl+Shift+C.
    CopyExif,
    /// Ctrl+Shift+V.
    PasteExif,
    /// Ctrl+O.
    OpenFolder,
    /// Ctrl+N.
    OpenFile,
    /// Delete.
    DeleteSelected,
    /// F.
    ToggleFullscreen,
    /// 1.
    TogglePixelPerfect,
    /// Ctrl+Shift+R.
    OpenRepair,
    /// Ctrl+Shift+G.
    OpenGpx,
    /// Ctrl+Shift+D.
    OpenCompare,
}

/// What the caller has to do after a shortcut.
#[derive(Debug)]
pub enum Effect {
    /// Nothing more.
    Nothing,
    /// Read and show the image at this path.
    OpenImage(String),
    /// Ask for a folder to open.
    ChooseFolder,
    /// Ask for an image to open.
    ChooseFile,
    /// Show the image at its real size (zoom 1).
    ResetZoom,
    /// Show the repair window.
    ShowRepair,
    /// Show the GPX window.
    ShowGpx,
}

/// The status after an undo.
pub open spec fn undone_message() -> Seq<char> {
    "已撤销"@
}

impl AppState {
    /// Reacts to a shortcut: the editing ones act on the session, the
    /// others tell the caller what to show or to read.
    pub fn handle_shortcut(&mut self, key: Shortcut) -> (effect: Effect)
        requires
            old(self).wf(),
        ensures
            final(self).wf(),
            key == Shortcut::PrevImage ==> match effect {
                Effect::OpenImage(p) => moved_back(*old(self), *final(self), Some(p)),
                Effect::Nothing => moved_back(*old(self), *final(self), None),
                _ => false,
            },
            key == Shortcut::NextImage ==> match effect {
                Effect::OpenImage(p) => moved_forward(*old(self), *final(self), Some(p)),
                Effect::Nothing => moved_forward(*old(self), *final(self), None),
                _ => false,
            },
            key == Shortcut::Save ==> effect is Nothing && save_requested(*old(self), *final(self)),
            key == Shortcut::Undo ==> effect is Nothing && if old(self).undo_stack@.len() == 0 {
                *final(self) == *old(self)
            } else {
                let e = old(self).undo_view().last();
                &&& final(self).undo_view() == old(self).undo_view().drop_last()
                &&& final(self).exif_entries@ == crate::model::insert_entry(old(self).exif_entries@, (e.0, e.1))
                &&& final(self).status_text() == Some(undone_message())
                &&& final(self).status_level() == Some(StatusLevel::Info)
                &&& *final(self) == (AppState {
                    undo_stack: final(self).undo_stack,
                    exif_entries: final(self).exif_entries,
                    status_message: final(self).status_message,
                    ..*old(self)
                })
            },
            key == Shortcut::CopyExif ==> effect is Nothing && copied(*old(self), *final(self)),
            key == Shortcut::PasteExif ==> effect is Nothing && pasted_clipboard(*old(self), *final(self)),
            key == Shortcut::OpenFolder ==> effect is ChooseFolder && *final(self) == *old(self),
            key == Shortcut::OpenFile ==> effect is ChooseFile && *final(self) == *old(self),
            key == Shortcut::DeleteSelected ==> effect is Nothing && if old(self).selected_tags@.len() == 0 {
                *final(self) == *old(self)
            } else {
                selection_deleted(*old(self), *final(self))
            },
            key == Shortcut::ToggleFullscreen ==> effect is Nothing && *final(self) == (AppState {
                is_fullscreen: !old(self).is_fullscreen,
                ..*old(self)
            }),
            key == Shortcut::TogglePixelPerfect ==> *final(self) == (AppState {
                pixel_perfect: !old(self).pixel_perfect,
                ..*old(self)
            }) && if final(self).pixel_perfect {
                effect is ResetZoom
            } else {
                effect is Nothing
            },
            key == Shortcut::OpenRepair ==> effect is ShowRepair && *final(self) == *old(self),
            key == Shortcut::OpenGpx ==> effect is ShowGpx && *final(self) == *old(self),
            key == Shortcut::OpenCompare ==> effect is Nothing && final(self).compare_state.active
                && *final(self) == (AppState { compare_state: final(self).compare_state, ..*old(self) })
                && final(self).compare_state.left_entries == old(self).compare_state.left_entries
                && final(self).compare_state.right_entries == old(self).compare_state.right_entries
                && final(self).compare_state.left_path == old(self).compare_state.left_path
                && final(self).compare_state.right_path == old(self).compare_state.right_path
                && final(self).compare_state.show_only_diff == old(self).compare_state.show_only_diff,
    {
        match key {
            Shortcut::PrevImage => match FileOps::prev_image(self) {
                Some(p) => Effect::OpenImage(p),
                None => Effect::Nothing,
            },
            Shortcut::NextImage => match FileOps::next_image(self) {
                Some(p) => Effect::OpenImage(p),
                None => Effect::Nothing,
            },
            Shortcut::Save => {
                FileOps::save_exif(self);
                Effect::Nothing
            },
            Shortcut::Undo => {
                if self.undo() {
                    self.set_status(String::from_str("已撤销"), StatusLevel::Info);
                }
                Effect::Nothing
            },
            Shortcut::CopyExif => {
                self.copy_exif();
                Effect::Nothing
            },
            Shortcut::PasteExif => {
                self.paste_exif();
                Effect::Nothing
            },
            Shortcut::OpenFolder => Effect::ChooseFolder,
            Shortcut::OpenFile => Effect::ChooseFile,
            Shortcut::DeleteSelected => {
                if self.selected_tags.len() > 0 {
                    FileOps::delete_selected(self);
                }
                Effect::Nothing
            },
            Shortcut::ToggleFullscreen => {
                self.is_fullscreen = !self.is_fullscreen;
                Effect::Nothing
            },
            Shortcut::TogglePixelPerfect => {
                self.pixel_perfect = !self.pixel_perfect;
                if self.pixel_perfect {
                    Effect::ResetZoom
                } else {
                    Effect::Nothing
                }
            },
            Shortcut::OpenRepair => Effect::ShowRepair,
            Shortcut::OpenGpx => Effect::ShowGpx,
            Shortcut::OpenCompare => {
                self.compare_state.active = true;
                Effect::Nothing
            },
        }
    }
}

/// What a dropped path is, by its kind and extension.
#[derive(Debug, Clone, Copy, PartialEq, Eq, Structural)]
pub enum DropKind {
    /// A folder: opened as the image list.
    Folder,
    /// An image file: opened, within its folder when none is open.
    Image,
    /// A GPX track: loaded into the GPX window.
    Gpx,
    /// Anything else: ignored.
    Ignored,
}

/// The kind of a dropped path: folders first, then images by extension,
/// then GPX tracks, the extension compared in lower case.
pub open spec fn drop_kind(is_dir: bool, extension: Option<Seq<char>>) -> DropKind {
    if is_dir {
        DropKind::Folder
    } else {
        let e = match extension {
            Some(x) => crate::exif::validator::lowercase(x),
            None => Seq::empty(),
        };
        if e == "jpg"@ || e == "jpeg"@ || e == "png"@ || e == "webp"@ || e == "tiff"@ || e == "tif"@ || e
            == "bmp"@ {
            DropKind::Image
        } else if e == "gpx"@ {
            DropKind::Gpx
        } else {
            DropKind::Ignored
        }
    }
}

/// The kind of a dropped path.
pub fn classify_drop(is_dir: bool, extension: Option<&str>) -> (k: DropKind)
    ensures
        k == drop_kind(
            is_dir,
            match extension {
                Some(x) => Some(x@),
                None => None,
            },
        ),
{
    if is_dir {
        return DropKind::Folder;
    }
    let e = match extension {
        Some(x) => crate::exif::validator::to_lowercase(x),
        None => String::new(),
    };
    let e = e.as_str();
    proof {
        reveal_strlit("jpg");
        reveal_strlit("jpeg");
        reveal_strlit("png");
        reveal_strlit("webp");
        reveal_strlit("tiff");
        reveal_strlit("tif");
        reveal_strlit("bmp");
        reveal_strlit("gpx");
    }
    if crate::text::text_equal(e, "jpg") || crate::text::text_equal(e, "jpeg") || crate::text::text_equal(e, "png")
        || crate::text::text_equal(e, "webp") || crate::text::text_equal(e, "tiff") || crate::text::text_equal(e, "tif")
        || crate::text::text_equal(e, "bmp") {
        DropKind::Image
    } else if crate::text::text_equal(e, "gpx") {
        DropKind::Gpx
    } else {
        DropKind::Ignored
    }
}

/// The status after handling a dropped path: what was opened, or why not.
pub open spec fn drop_message(kind: DropKind, path: Seq<char>, error: Option<Seq<char>>) -> Option<(Seq<char>, StatusLevel)> {
    match (kind, error) {
        (DropKind::Folder, None) => Some(("已打开文件夹: "@ + path, StatusLevel::Success)),
        (DropKind::Folder, Some(e)) => Some(("打开文件夹失败: "@ + e, StatusLevel::Error)),
        (DropKind::Image, None) => Some(("已打开: "@ + path, StatusLevel::Success)),
        (DropKind::Image, Some(e)) => Some(("打开文件失败: "@ + e, StatusLevel::Error)),
        (DropKind::Gpx, None) => Some(("GPX 文件已加载"@, StatusLevel::Success)),
        (DropKind::Gpx, Some(e)) => Some(("加载 GPX 失败: "@ + e, StatusLevel::Error)),
        (DropKind::Ignored, _) => None,
    }
}

impl AppState {
    /// Whether a dropped image is opened within its folder first: when no
    /// folder is open.
    pub fn drop_opens_parent(&self, kind: DropKind) -> (b: bool)
        ensures
            b == (kind == DropKind::Image && self.folder_path is None),
    {
        kind == DropKind::Image && self.folder_path.is_none()
    }

    /// Reports the outcome of a dropped path on the status line.
    pub fn report_drop(&mut self, kind: DropKind, path: &str, error: Option<&str>)
        ensures
            match drop_message(
                kind,
                path@,
                match error {
                    Some(e) => Some(e@),
                    None => None,
                },
            ) {
                Some((text, level)) => final(self).status_text() == Some(text) && final(self).status_level()
                    == Some(level) && *final(self) == (AppState {
                    status_message: final(self).status_message,
                    ..*old(self)
                }),
                None => *final(self) == *old(self),
            },
    {
        let (prefix, level) = match (kind, error) {
            (DropKind::Folder, None) => ("已打开文件夹: ", StatusLevel::Success),
            (DropKind::Folder, Some(_)) => ("打开文件夹失败: ", StatusLevel::Error),
            (DropKind::Image, None) => ("已打开: ", StatusLevel::Success),
            (DropKind::Image, Some(_)) => ("打开文件失败: ", StatusLevel::Error),
            (DropKind::Gpx, None) => ("GPX 文件已加载", StatusLevel::Success),
            (DropKind::Gpx, Some(_)) => ("加载 GPX 失败: ", StatusLevel::Error),
            (DropKind::Ignored, _) => {
                return;
            },
        };
        let mut m = String::from_str(prefix);
        match (kind, error) {
            (DropKind::Gpx, None) => {},
            (_, Some(e)) => m.append(e),
            (_, None) => m.append(path),
        }
        self.set_status(m, level);
    }
}

impl FileOps {
    /// Goes back to the image a previous session ended on, when that
    /// position is past the first image and within the list; returns its
    /// path for opening.
    pub fn restore_position(app: &mut AppState, position: usize) -> (path: Option<String>)
        ensures
            0 < position < old(app).file_paths@.len() ==> {
                &&& *final(app) == (AppState { current_index: position, ..*old(app) })
                &&& path matches Some(p) && p@ == old(app).file_paths@[position as int]@
            },
            !(0 < position < old(app).file_paths@.len()) ==> path is None && *final(app) == *old(app),
    {
        if position > 0 && position < app.file_paths.len() {
            app.current_index = position;
            Some(app.file_paths[position].clone())
        } else {
            None
        }
    }
}

} // verus!
