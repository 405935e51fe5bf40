//! What operations on files are given.

use vstd::prelude::*;

use super::AppWindow;
use crate::export::{export_name, ExportFormat};
use crate::file_info::{FileInfo, FileSource};
use crate::file_list::ListView;
use crate::file_ops::SaveFileDialogParams;
use crate::paths;
use crate::text::{join2, join3};

verus! {

/// How an entry gets to another place.
#[derive(Debug, Clone, Copy, PartialEq, Eq, Structural)]
pub enum TransferKind {
    /// The file is moved, and the list follows.
    MoveFile,
    /// The entry is read from its archive and written.
    WriteEntry,
    /// The file is copied.
    CopyFile,
}

/// How the entry is moved; none for what cannot be moved.
pub open spec fn move_kind_of(source: FileSource) -> Option<TransferKind> {
    match source {
        FileSource::File(_) => Some(TransferKind::MoveFile),
        FileSource::ArchiveEntry { on_demand, .. } => if on_demand {
            Some(TransferKind::WriteEntry)
        } else {
            Some(TransferKind::CopyFile)
        },
        FileSource::PdfPage { .. } => None,
        FileSource::PendingContainer { .. } => None,
    }
}

/// The dialog asks where to put an entry.
pub open spec fn asks_where(
    p: SaveFileDialogParams,
    source: FileSource,
    title: Seq<char>,
    button: Seq<char>,
) -> bool {
    &&& p.default_name@ == source.save_name()
    &&& p.filter_name@ == "すべてのファイル"@
    &&& p.filter_ext@ == "*.*"@
    &&& p.default_ext@.len() == 0
    &&& paths::opt_text(p.initial_dir) == paths::spec_parent(source.holder())
    &&& p.title matches Some(t) && t@ == title
    &&& p.ok_button_label matches Some(b) && b@ == button
}

fn where_to(source: &FileSource, title: &str, button: &str) -> (r: SaveFileDialogParams)
    ensures
        asks_where(r, *source, title@, button@),
{
    SaveFileDialogParams {
        default_name: source.default_save_name(),
        filter_name: "すべてのファイル".to_owned(),
        filter_ext: "*.*".to_owned(),
        default_ext: String::new(),
        initial_dir: source.parent_dir(),
        title: Some(title.to_owned()),
        ok_button_label: Some(button.to_owned()),
    }
}

/// How an entry is moved, and the dialog that asks where to. A file is moved; an
/// archive's entry is written out. Pages and placeholders stay.
pub fn action_move_file(source: &FileSource) -> (r: Option<(TransferKind, SaveFileDialogParams)>)
    ensures
        match r {
            Some((kind, params)) => {
                &&& move_kind_of(*source) == Some(kind)
                &&& if source is File {
                    asks_where(params, *source, "ファイルを移動"@, "移動"@)
                } else {
                    asks_where(params, *source, "ファイルを書き出す"@, "書き出す"@)
                }
            },
            None => move_kind_of(*source) is None,
        },
{
    match source {
        FileSource::File(_) => Some(
            (TransferKind::MoveFile, where_to(source, "ファイルを移動", "移動")),
        ),
        FileSource::ArchiveEntry { on_demand, .. } => {
            let kind = if *on_demand {
                TransferKind::WriteEntry
            } else {
                TransferKind::CopyFile
            };
            Some((kind, where_to(source, "ファイルを書き出す", "書き出す")))
        },
        FileSource::PdfPage { .. } => None,
        FileSource::PendingContainer { .. } => None,
    }
}

/// How an entry is copied, and the dialog that asks where to.
pub fn action_copy_file(source: &FileSource) -> (r: (TransferKind, SaveFileDialogParams))
    ensures
        r.0 == (if source matches FileSource::ArchiveEntry { on_demand, .. } && *on_demand {
            TransferKind::WriteEntry
        } else {
            TransferKind::CopyFile
        }),
        asks_where(r.1, *source, "ファイルを複製"@, "複製"@),
{
    let kind = match source {
        FileSource::ArchiveEntry { on_demand, .. } => if *on_demand {
            TransferKind::WriteEntry
        } else {
            TransferKind::CopyFile
        },
        _ => TransferKind::CopyFile,
    };
    (kind, where_to(source, "ファイルを複製", "複製"))
}

/// The argument by which the file manager shows an entry's file.
pub fn reveal_argument(source: &FileSource) -> (r: String)
    ensures
        r@ == "/select,"@ + source.holder(),
{
    match source {
        FileSource::File(path) => join2("/select,", path.as_str()),
        FileSource::ArchiveEntry { archive, .. } => join2("/select,", archive.as_str()),
        FileSource::PdfPage { pdf_path, .. } => join2("/select,", pdf_path.as_str()),
        FileSource::PendingContainer { container_path } => join2(
            "/select,",
            container_path.as_str(),
        ),
    }
}

/// The paths of the marked entries, in order.
pub open spec fn marked_files(v: ListView) -> Seq<String> {
    v.files.filter(|f: FileInfo| f.marked).map_values(|f: FileInfo| f.path)
}

/// The marked entries as they are shown, each on a line.
pub open spec fn marked_lines(v: ListView, end: int) -> Seq<char>
    decreases end,
{
    if end <= 0 {
        Seq::empty()
    } else if v.files[end - 1].marked {
        let before = marked_lines(v, end - 1);
        let line = v.files[end - 1].source.shown();
        if any_marked(v, end - 1) {
            before + "\r\n"@ + line
        } else {
            line
        }
    } else {
        marked_lines(v, end - 1)
    }
}

/// An entry before `end` is marked.
pub open spec fn any_marked(v: ListView, end: int) -> bool {
    exists|i: int| 0 <= i < end && (#[trigger] v.files[i]).marked
}

/// The first marked entry from `k` on.
pub open spec fn first_marked(v: ListView, k: int) -> Option<int>
    decreases v.files.len() - k,
{
    if k >= v.files.len() {
        None
    } else if v.files[k].marked {
        Some(k)
    } else {
        first_marked(v, k + 1)
    }
}

/// How inputs are opened.
#[derive(Debug, Clone, Copy, PartialEq, Eq, Structural)]
pub enum OpenChoice {
    Nothing,
    /// All of them, folders and containers included.
    Multiple,
    Folder,
    Single,
}

/// How inputs are opened: more than one together, else as a folder or a file.
pub fn open_choice(count: usize, first_is_dir: bool) -> (r: OpenChoice)
    ensures
        r == (if count == 0 {
            OpenChoice::Nothing
        } else if count > 1 {
            OpenChoice::Multiple
        } else if first_is_dir {
            OpenChoice::Folder
        } else {
            OpenChoice::Single
        }),
{
    if count == 0 {
        OpenChoice::Nothing
    } else if count > 1 {
        OpenChoice::Multiple
    } else if first_is_dir {
        OpenChoice::Folder
    } else {
        OpenChoice::Single
    }
}

/// The memory for images that are decoded ahead: half of what is available, taken
/// as 512 MiB where that is not known.
pub fn get_cache_budget(available: Option<usize>) -> (r: usize)
    ensures
        r == (match available {
            Some(n) => n / 2,
            None => 268_435_456,
        }),
{
    match available {
        Some(n) => n / 2,
        None => 268_435_456,
    }
}

impl AppWindow {
    /// Whether deleting and moving is offered: not inside a container.
    pub fn may_delete(&self) -> (r: bool)
        requires
            self.wf(),
        ensures
            r == (match self@.doc.list.current {
                Some(i) => self@.doc.list.files[i].source is File,
                None => true,
            }),
    {
        match self.document.file_list.current() {
            Some(info) => !info.source.is_contained(),
            None => true,
        }
    }

    /// The path of the file to delete; none inside a container.
    pub fn action_delete_file(&self) -> (r: Option<String>)
        requires
            self.wf(),
        ensures
            r == (match self@.doc.list.current {
                Some(i) => if self@.doc.list.files[i].source is File {
                    Some(self@.doc.list.files[i].path)
                } else {
                    None
                },
                None => None,
            }),
    {
        if !self.may_delete() {
            return None;
        }
        self.document.current_path()
    }

    /// The paths of the marked entries, in order.
    pub fn marked_paths(&self) -> (r: Vec<String>)
        ensures
            r@ == marked_files(self@.doc.list),
    {
        let files = self.document.file_list.files();
        let ghost all = files@;
        let ghost test = |f: FileInfo| f.marked;
        let ghost name = |f: FileInfo| f.path;
        let mut r: Vec<String> = Vec::new();
        let mut i: usize = 0;
        proof {
            reveal(Seq::filter);
            assert(all.take(0).filter(test).map_values(name) =~= Seq::empty());
        }
        while i < files.len()
            invariant
                i <= files@.len(),
                all == files@,
                test == (|f: FileInfo| f.marked),
                name == (|f: FileInfo| f.path),
                r@ == all.take(i as int).filter(test).map_values(name),
            decreases files.len() - i,
        {
            proof {
                reveal(Seq::filter);
                assert(all.take(i + 1).drop_last() =~= all.take(i as int));
                assert(all.take(i + 1).last() == all[i as int]);
            }
            if files[i].marked {
                r.push(files[i].path.clone());
                assert(r@ =~= all.take(i + 1).filter(test).map_values(name));
            }
            i = i + 1;
        }
        assert(all.take(all.len() as int) =~= all);
        r
    }

    /// The folder in which a dialog for the marked entries starts: that of the
    /// first one. None where none is marked.
    pub fn marked_folder(&self) -> (r: Option<Option<String>>)
        ensures
            match first_marked(self@.doc.list, 0) {
                Some(i) => r matches Some(dir) && paths::opt_text(dir) == paths::spec_parent(
                    self@.doc.list.files[i].source.holder(),
                ),
                None => r is None,
            },
    {
        let files = self.document.file_list.files();
        let mut i: usize = 0;
        while i < files.len()
            invariant
                files@ == self@.doc.list.files,
                i <= files@.len(),
                first_marked(self@.doc.list, 0) == first_marked(self@.doc.list, i as int),
            decreases files.len() - i,
        {
            if files[i].marked {
                return Some(files[i].source.parent_dir());
            }
            i = i + 1;
        }
        None
    }

    /// The marked entries as they are shown, each on a line; none where none is
    /// marked.
    pub fn action_marked_copy_names(&self) -> (r: Option<String>)
        ensures
            match r {
                Some(t) => {
                    &&& any_marked(self@.doc.list, self@.doc.list.files.len() as int)
                    &&& t@ == marked_lines(self@.doc.list, self@.doc.list.files.len() as int)
                },
                None => !any_marked(self@.doc.list, self@.doc.list.files.len() as int),
            },
    {
        let files = self.document.file_list.files();
        let ghost v = self@.doc.list;
        let mut r = String::new();
        let mut any = false;
        let mut i: usize = 0;
        assert(r@ =~= marked_lines(v, 0));
        while i < files.len()
            invariant
                v == self@.doc.list,
                files@ == v.files,
                i <= files@.len(),
                any == any_marked(v, i as int),
                r@ == marked_lines(v, i as int),
            decreases files.len() - i,
        {
            if files[i].marked {
                assert(v.files[i as int].marked);
                let line = files[i].source.display_path();
                r =
                if any {
                    join3(r.as_str(), "\r\n", line.as_str())
                } else {
                    line
                };
                any = true;
            }
            i = i + 1;
        }
        if any {
            Some(r)
        } else {
            None
        }
    }

    /// The dialog that asks where to export the shown image.
    pub fn export_image(&self, format: ExportFormat) -> (r: Option<SaveFileDialogParams>)
        requires
            self.wf(),
        ensures
            match r {
                None => self@.doc.image is None,
                Some(p) => {
                    &&& self@.doc.image is Some
                    &&& p.default_name@ == (match self@.doc.list.current {
                        Some(i) => crate::file_info::text_or(
                            paths::spec_file_stem(self@.doc.list.files[i].source.save_name()),
                            "image"@,
                        ),
                        None => "image"@,
                    }) + "."@ + format.spec_extension()
                    &&& p.filter_name@ == format.spec_filter_name()
                    &&& p.filter_ext@ == format.spec_filter()
                    &&& p.default_ext@ == format.spec_extension()
                    &&& paths::opt_text(p.initial_dir) == (match self@.doc.list.current {
                        Some(i) => paths::spec_parent(self@.doc.list.files[i].source.holder()),
                        None => None,
                    })
                    &&& p.title is None
                    &&& p.ok_button_label is None
                },
            },
    {
        if self.document.current_image.is_none() {
            return None;
        }
        let (stem, initial_dir) = match self.document.file_list.current() {
            Some(info) => (info.source.default_save_stem(), info.source.parent_dir()),
            None => ("image".to_owned(), None),
        };
        Some(
            SaveFileDialogParams {
                default_name: export_name(stem.as_str(), format),
                filter_name: format.filter_name().to_owned(),
                filter_ext: format.filter_spec().to_owned(),
                default_ext: format.extension().to_owned(),
                initial_dir,
                title: None,
                ok_button_label: None,
            },
        )
    }
}

} // verus!
