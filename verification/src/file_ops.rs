//! What file operations and their dialogs are given.

use vstd::prelude::*;

use crate::paths;
use crate::paths::{file_name_of, parent_of};
use crate::text::{join2, join3};

verus! {

/// What the dialog for saving a file shows at first.
pub struct SaveFileDialogParams {
    pub default_name: String,
    pub filter_name: String,
    pub filter_ext: String,
    pub default_ext: String,
    pub initial_dir: Option<String>,
    pub title: Option<String>,
    pub ok_button_label: Option<String>,
}

impl Default for SaveFileDialogParams {
    fn default() -> (r: Self)
        ensures
            r.default_name@.len() == 0,
            r.filter_name@.len() == 0,
            r.filter_ext@.len() == 0,
            r.default_ext@.len() == 0,
            r.initial_dir is None,
            r.title is None,
            r.ok_button_label is None,
    {
        SaveFileDialogParams {
            default_name: String::new(),
            filter_name: String::new(),
            filter_ext: String::new(),
            default_ext: String::new(),
            initial_dir: None,
            title: None,
            ok_button_label: None,
        }
    }
}

/// Why a file cannot be moved to a path.
#[derive(Debug, Clone, Copy, PartialEq, Eq, Structural)]
pub enum MoveError {
    NoParent,
    NoFileName,
}

impl MoveError {
    /// The error in words.
    pub fn message(self) -> (r: &'static str)
        ensures
            r@ == (match self {
                MoveError::NoParent => "移動先の親ディレクトリが存在しない"@,
                MoveError::NoFileName => "移動先のファイル名が存在しない"@,
            }),
    {
        match self {
            MoveError::NoParent => "移動先の親ディレクトリが存在しない",
            MoveError::NoFileName => "移動先のファイル名が存在しない",
        }
    }
}

/// The folder and the name under which a file arrives at a path.
pub fn move_target(dest: &str) -> (r: Result<(String, String), MoveError>)
    ensures
        match r {
            Ok((folder, name)) => {
                &&& paths::spec_parent(dest@) == Some(folder@)
                &&& paths::spec_file_name(dest@) == Some(name@)
            },
            Err(MoveError::NoParent) => paths::spec_parent(dest@) is None,
            Err(MoveError::NoFileName) => {
                &&& paths::spec_parent(dest@) is Some
                &&& paths::spec_file_name(dest@) is None
            },
        },
{
    match parent_of(dest) {
        Some(folder) => match file_name_of(dest) {
            Some(name) => Ok((folder, name)),
            None => Err(MoveError::NoFileName),
        },
        None => Err(MoveError::NoParent),
    }
}

/// The message where files could not be moved to a folder.
pub fn move_failure(dest: &str) -> (r: String)
    ensures
        r@ == "ファイル移動に失敗しました\n  dest: "@ + dest@,
{
    join2("ファイル移動に失敗しました\n  dest: ", dest)
}

/// The message where a file could not be moved to a path.
pub fn move_single_failure(src: &str, dest: &str) -> (r: String)
    ensures
        r@ == "ファイル移動に失敗しました\n  src: "@ + src@ + ("\n  dest: "@ + dest@),
{
    let tail = join2("\n  dest: ", dest);
    join3("ファイル移動に失敗しました\n  src: ", src, tail.as_str())
}

} // verus!
