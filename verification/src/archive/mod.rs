//! Archives: which program reads them, and which of their entries are images.

use std::sync::Arc;

use vstd::prelude::*;

pub mod rar;
pub mod sevenz;
pub mod susie;
pub mod zip;

use rar::RarHandler;
use sevenz::SevenZHandler;
use susie::SusieArchiveHandler;
use zip::ZipHandler;

use crate::extension_registry;
use crate::extension_registry::{is_listed, ExtensionRegistry};
use crate::file_info;
use crate::paths;
use crate::paths::{extension_of, file_name_of, file_stem_of, join};
use crate::text;
use crate::text::{chars_of, decimal_text, join2, join3, same_text, to_lowercase};

verus! {

/// An image in an archive that is read on demand.
#[derive(Debug)]
pub struct ArchiveImageEntry {
    /// The path in the archive.
    pub entry_name: String,
    /// The last name of that path.
    pub file_name: String,
    /// The size when unpacked.
    pub file_size: u64,
}

/// An image that is stored as a file of its own.
pub struct StoredImage {
    /// The path in the archive.
    pub entry_name: String,
    /// The last name of that path.
    pub file_name: String,
    pub data: Vec<u8>,
}

/// Why an archive could not be read.
#[derive(Debug)]
pub enum ArchiveError {
    /// No handler takes archives of this kind.
    Unsupported(String),
    /// Archives of this kind cannot be listed from memory.
    NoBufferAccess(String),
    /// Archives of this kind cannot be read on demand.
    NotOnDemand,
    /// The bytes are no archive.
    Unreadable,
    /// The archive has no such entry.
    NotFound(String),
    /// It is not known where the entry's bytes begin.
    NoStart,
    /// The entry's bytes lie outside the archive.
    OutOfRange,
    /// The entry could not be unpacked.
    ReadFailed(String),
    /// The bytes are no 7z archive.
    NotSevenZ,
    /// A 7z archive could not be unpacked to its end.
    Incomplete,
}

impl ArchiveError {
    pub open spec fn text(&self) -> Seq<char> {
        match self {
            ArchiveError::Unsupported(path) => "未対応のアーカイブ形式: "@ + path@,
            ArchiveError::NoBufferAccess(path) => "バッファベース取得未対応: "@ + path@,
            ArchiveError::NotOnDemand => "オンデマンド取得未対応"@,
            ArchiveError::Unreadable => "ZIPバッファの読み取りに失敗"@,
            ArchiveError::NotFound(name) => "エントリが見つかりません: "@ + name@,
            ArchiveError::NoStart => "データ開始位置の取得に失敗"@,
            ArchiveError::OutOfRange => "エントリの範囲が不正です"@,
            ArchiveError::ReadFailed(name) => "エントリの読み取りに失敗: "@ + name@,
            ArchiveError::NotSevenZ => "7zアーカイブ読み取り失敗"@,
            ArchiveError::Incomplete => "7zアーカイブ展開失敗"@,
        }
    }

    /// The message for the user.
    pub fn message(&self) -> (r: String)
        ensures
            r@ == self.text(),
    {
        match self {
            ArchiveError::Unsupported(path) => join2("未対応のアーカイブ形式: ", path.as_str()),
            ArchiveError::NoBufferAccess(path) => join2(
                "バッファベース取得未対応: ",
                path.as_str(),
            ),
            ArchiveError::NotOnDemand => "オンデマンド取得未対応".to_owned(),
            ArchiveError::Unreadable => "ZIPバッファの読み取りに失敗".to_owned(),
            ArchiveError::NotFound(name) => join2("エントリが見つかりません: ", name.as_str()),
            ArchiveError::NoStart => "データ開始位置の取得に失敗".to_owned(),
            ArchiveError::OutOfRange => "エントリの範囲が不正です".to_owned(),
            ArchiveError::ReadFailed(name) => join2("エントリの読み取りに失敗: ", name.as_str()),
            ArchiveError::NotSevenZ => "7zアーカイブ読み取り失敗".to_owned(),
            ArchiveError::Incomplete => "7zアーカイブ展開失敗".to_owned(),
        }
    }
}

/// The program that reads archives of one kind.
#[derive(Debug, Clone, Copy, PartialEq, Eq, Structural)]
pub enum ArchiveFormat {
    Zip,
    Rar,
    SevenZ,
    /// A plug-in, by its number.
    Plugin(usize),
}

/// What takes archives of one kind.
pub trait ArchiveHandler {
    /// The extensions, in lower case with their dots.
    spec fn takes(&self) -> Seq<Seq<char>>;

    spec fn reads_on_demand(&self) -> bool;

    spec fn program(&self) -> ArchiveFormat;

    /// The extensions of the archives, in lower case with their dots.
    fn supported_extensions(&self) -> (r: Vec<String>)
        ensures
            extension_registry::texts(r@) == self.takes(),
    ;

    /// Whether single entries can be read without extracting the archive.
    fn supports_on_demand(&self) -> (r: bool)
        ensures
            r == self.reads_on_demand(),
    ;

    /// The program that reads the archives.
    fn format(&self) -> (r: ArchiveFormat)
        ensures
            r == self.program(),
    ;
}

/// A handler of one of the known kinds.
pub enum AnyHandler {
    Zip(ZipHandler),
    Rar(RarHandler),
    SevenZ(SevenZHandler),
    Susie(SusieArchiveHandler),
}

impl ArchiveHandler for AnyHandler {
    open spec fn takes(&self) -> Seq<Seq<char>> {
        match self {
            AnyHandler::Zip(h) => h.takes(),
            AnyHandler::Rar(h) => h.takes(),
            AnyHandler::SevenZ(h) => h.takes(),
            AnyHandler::Susie(h) => h.takes(),
        }
    }

    open spec fn reads_on_demand(&self) -> bool {
        match self {
            AnyHandler::Zip(h) => h.reads_on_demand(),
            AnyHandler::Rar(h) => h.reads_on_demand(),
            AnyHandler::SevenZ(h) => h.reads_on_demand(),
            AnyHandler::Susie(h) => h.reads_on_demand(),
        }
    }

    open spec fn program(&self) -> ArchiveFormat {
        match self {
            AnyHandler::Zip(h) => h.program(),
            AnyHandler::Rar(h) => h.program(),
            AnyHandler::SevenZ(h) => h.program(),
            AnyHandler::Susie(h) => h.program(),
        }
    }

    fn supported_extensions(&self) -> (r: Vec<String>) {
        match self {
            AnyHandler::Zip(h) => h.supported_extensions(),
            AnyHandler::Rar(h) => h.supported_extensions(),
            AnyHandler::SevenZ(h) => h.supported_extensions(),
            AnyHandler::Susie(h) => h.supported_extensions(),
        }
    }

    fn supports_on_demand(&self) -> (r: bool) {
        match self {
            AnyHandler::Zip(h) => h.supports_on_demand(),
            AnyHandler::Rar(h) => h.supports_on_demand(),
            AnyHandler::SevenZ(h) => h.supports_on_demand(),
            AnyHandler::Susie(h) => h.supports_on_demand(),
        }
    }

    fn format(&self) -> (r: ArchiveFormat) {
        match self {
            AnyHandler::Zip(h) => h.format(),
            AnyHandler::Rar(h) => h.format(),
            AnyHandler::SevenZ(h) => h.format(),
            AnyHandler::Susie(h) => h.format(),
        }
    }
}

/// The archive handlers, asked one after the other.
pub struct ArchiveManager {
    pub handlers: Vec<AnyHandler>,
    pub registry: Arc<ExtensionRegistry>,
}

/// A path's extension in lower case with its dot; empty where there is none.
pub open spec fn dotted_extension(path: Seq<char>) -> Seq<char> {
    match paths::spec_extension(path) {
        Some(ext) => "."@ + text::lowercase_of(ext),
        None => ""@,
    }
}

/// The first handler from `k` on that takes the extension.
pub open spec fn handler_from(handlers: Seq<AnyHandler>, ext: Seq<char>, k: int) -> Option<int>
    decreases handlers.len() - k,
{
    if k >= handlers.len() {
        None
    } else if handlers[k].takes().contains(ext) {
        Some(k)
    } else {
        handler_from(handlers, ext, k + 1)
    }
}

proof fn listed_in_texts(list: Seq<String>, ext: Seq<char>)
    ensures
        extension_registry::listed(list, ext) == extension_registry::texts(list).contains(ext),
{
    let t = extension_registry::texts(list);
    if extension_registry::listed(list, ext) {
        let i = choose|i: int| 0 <= i < list.len() && #[trigger] list[i]@ == ext;
        assert(t[i] == ext);
    }
    if t.contains(ext) {
        let i = choose|i: int| 0 <= i < t.len() && t[i] == ext;
        assert(list[i]@ == ext);
    }
}

impl ArchiveManager {
    /// The handler that takes archives with the path's extension.
    pub open spec fn handler_of(&self, path: Seq<char>) -> Option<int> {
        handler_from(self.handlers@, dotted_extension(path), 0)
    }

    /// The built-in handlers.
    pub fn new(registry: Arc<ExtensionRegistry>) -> (r: Self)
        ensures
            r.registry == registry,
            r.handlers@.len() == 3,
            r.handlers@[0].program() == ArchiveFormat::Zip,
            r.handlers@[0].takes() == seq![".zip"@, ".cbz"@],
            r.handlers@[0].reads_on_demand(),
            r.handlers@[1].program() == ArchiveFormat::Rar,
            r.handlers@[1].takes() == seq![".rar"@, ".cbr"@],
            !r.handlers@[1].reads_on_demand(),
            r.handlers@[2].program() == ArchiveFormat::SevenZ,
            r.handlers@[2].takes() == seq![".7z"@],
            !r.handlers@[2].reads_on_demand(),
    {
        let mut handlers: Vec<AnyHandler> = Vec::new();
        handlers.push(AnyHandler::Zip(ZipHandler::new(registry.clone())));
        handlers.push(AnyHandler::Rar(RarHandler::new(registry.clone())));
        handlers.push(AnyHandler::SevenZ(SevenZHandler::new(registry.clone())));
        ArchiveManager { handlers, registry }
    }

    /// Adds a handler, to be asked last.
    pub fn add_handler(&mut self, handler: AnyHandler)
        ensures
            final(self).handlers@ == old(self).handlers@.push(handler),
            final(self).registry == old(self).registry,
    {
        self.handlers.push(handler);
    }

    /// A path's extension in lower case with its dot; empty where there is none.
    pub fn normalized_extension(path: &str) -> (r: String)
        ensures
            r@ == dotted_extension(path@),
    {
        match extension_of(path) {
            Some(ext) => {
                let low = to_lowercase(ext.as_str());
                join2(".", low.as_str())
            },
            None => "".to_owned(),
        }
    }

    /// The first handler that takes the extension, given in lower case with its
    /// dot.
    pub fn handler_for_extension(&self, ext: &str) -> (r: Option<usize>)
        ensures
            (match r {
                Some(i) => Some(i as int),
                None => None,
            }) == handler_from(self.handlers@, ext@, 0),
            r matches Some(i) ==> i < self.handlers@.len(),
    {
        let mut i: usize = 0;
        while i < self.handlers.len()
            invariant
                i <= self.handlers@.len(),
                handler_from(self.handlers@, ext@, 0) == handler_from(
                    self.handlers@,
                    ext@,
                    i as int,
                ),
            decreases self.handlers.len() - i,
        {
            let exts = self.handlers[i].supported_extensions();
            proof {
                listed_in_texts(exts@, ext@);
            }
            if is_listed(&exts, ext) {
                return Some(i);
            }
            i = i + 1;
        }
        None
    }

    /// The handler that takes the archive.
    pub fn find_handler(&self, archive_path: &str) -> (r: Result<&AnyHandler, ArchiveError>)
        ensures
            match r {
                Ok(h) => self.handler_of(archive_path@) matches Some(i) && *h
                    == self.handlers@[i],
                Err(e) => self.handler_of(archive_path@) is None && (
                e matches ArchiveError::Unsupported(p) && p@ == archive_path@),
            },
    {
        let ext = Self::normalized_extension(archive_path);
        match self.handler_for_extension(ext.as_str()) {
            Some(i) => Ok(&self.handlers[i]),
            None => Err(ArchiveError::Unsupported(archive_path.to_owned())),
        }
    }

    /// Whether the path is an archive's, by its extension.
    pub fn is_archive(&self, path: &str) -> (r: bool)
        ensures
            r == (paths::spec_file_name(path@) matches Some(name)
                && extension_registry::name_listed(self.registry.archives@, name)),
    {
        match file_name_of(path) {
            Some(name) => self.registry.is_archive_extension(name.as_str()),
            None => false,
        }
    }

    /// The program that extracts the archive's images.
    pub fn extract_images(&self, archive_path: &str) -> (r: Result<ArchiveFormat, ArchiveError>)
        ensures
            match r {
                Ok(f) => self.handler_of(archive_path@) matches Some(i) && f
                    == self.handlers@[i].program(),
                Err(e) => self.handler_of(archive_path@) is None && (
                e matches ArchiveError::Unsupported(p) && p@ == archive_path@),
            },
    {
        match self.find_handler(archive_path) {
            Ok(h) => Ok(h.format()),
            Err(e) => Err(e),
        }
    }

    /// Whether the archive's entries can be read without extracting it.
    pub fn supports_on_demand(&self, archive_path: &str) -> (r: bool)
        ensures
            r == (self.handler_of(archive_path@) matches Some(i)
                && self.handlers@[i].reads_on_demand()),
    {
        match self.find_handler(archive_path) {
            Ok(h) => h.supports_on_demand(),
            Err(_) => false,
        }
    }

    /// Reads one entry from the bytes of an archive.
    pub fn read_entry(&self, archive_path: &str, entry_name: &str, content: &[u8]) -> (r: Result<
        Vec<u8>,
        ArchiveError,
    >)
        ensures
            match self.handler_of(archive_path@) {
                None => r matches Err(ArchiveError::Unsupported(p)) && p@ == archive_path@,
                Some(i) => if self.handlers@[i].program() == ArchiveFormat::Zip {
                    zip::unpacked(content@, entry_name@, r)
                } else {
                    r matches Err(ArchiveError::NotOnDemand)
                },
            },
    {
        match self.find_handler(archive_path) {
            Ok(h) => match h.format() {
                ArchiveFormat::Zip => ZipHandler::read_entry(content, entry_name),
                _ => Err(ArchiveError::NotOnDemand),
            },
            Err(e) => Err(e),
        }
    }

    /// Lists the images of an archive in memory. Only ZIP archives can be listed.
    pub fn list_images_from_buffer(&self, buffer: &[u8], archive_path: &str) -> (r: Result<
        Vec<ArchiveImageEntry>,
        ArchiveError,
    >)
        ensures
            if dotted_extension(archive_path@) == ".zip"@ || dotted_extension(archive_path@)
                == ".cbz"@ {
                zip::lists(buffer@, self.registry.images@, r)
            } else {
                r matches Err(ArchiveError::NoBufferAccess(p)) && p@ == archive_path@
            },
    {
        let ext = Self::normalized_extension(archive_path);
        if same_text(ext.as_str(), ".zip") || same_text(ext.as_str(), ".cbz") {
            ZipHandler::list_images_from_buffer(buffer, &*self.registry)
        } else {
            Err(ArchiveError::NoBufferAccess(archive_path.to_owned()))
        }
    }
}

/// Where the last name of an entry's path begins.
pub open spec fn flat_start(path: Seq<char>, e: int) -> int
    decreases e,
{
    if e <= 0 || paths::is_separator(path[e - 1]) {
        e
    } else {
        flat_start(path, e - 1)
    }
}

/// The last name of an entry's path; empty behind a trailing separator.
pub open spec fn flat_name(path: Seq<char>) -> Seq<char> {
    path.skip(flat_start(path, path.len() as int))
}

/// The last name of an entry's path.
pub fn extract_filename(entry_path: &str) -> (r: &str)
    ensures
        r@ == flat_name(entry_path@),
{
    let s = chars_of(entry_path);
    let mut e: usize = s.len();
    while e > 0 && s[e - 1] != '/' && s[e - 1] != '\\'
        invariant
            e <= s@.len(),
            s@ == entry_path@,
            flat_start(s@, e as int) == flat_start(s@, s@.len() as int),
        decreases e,
    {
        e = e - 1;
    }
    let r = entry_path.substring_char(e, s.len());
    assert(r@ =~= flat_name(entry_path@));
    r
}

/// An entry is extracted: it is a file with a name, not hidden, and an image.
pub open spec fn image_entry(images: Seq<String>, path: Seq<char>, is_dir: bool) -> bool {
    let name = flat_name(path);
    !is_dir && name.len() > 0 && name[0] != '.' && extension_registry::name_listed(images, name)
}

/// The file name under which an entry is extracted; none where it is no image.
pub fn image_file_name(registry: &ExtensionRegistry, entry_path: &str, is_dir: bool) -> (r: Option<
    String,
>)
    ensures
        match r {
            Some(name) => image_entry(registry.images@, entry_path@, is_dir) && name@ == flat_name(
                entry_path@,
            ),
            None => !image_entry(registry.images@, entry_path@, is_dir),
        },
{
    if is_dir {
        return None;
    }
    let name = extract_filename(entry_path);
    let cs = chars_of(name);
    if cs.len() == 0 || cs[0] == '.' || !registry.is_image_extension(name) {
        return None;
    }
    Some(name.to_owned())
}

/// The name tried after `i - 1` others are taken.
pub open spec fn numbered_name(name: Seq<char>, i: int) -> Seq<char> {
    let stem = file_info::text_or(paths::spec_file_stem(name), name);
    let ext = file_info::text_or(paths::spec_extension(name), ""@);
    if ext.len() == 0 {
        stem + "_"@ + text::decimal(i as nat)
    } else {
        stem + "_"@ + text::decimal(i as nat) + "."@ + ext
    }
}

/// The last number that is tried.
pub const LAST_NUMBER: u64 = 9999;

/// The path tried at the `i`-th attempt, counted from one.
pub open spec fn attempt(dir: Seq<char>, name: Seq<char>, i: int) -> Seq<char> {
    if i <= 1 {
        paths::spec_join(dir, name)
    } else if i <= LAST_NUMBER {
        paths::spec_join(dir, numbered_name(name, i))
    } else {
        paths::spec_join(dir, name + "_overflow"@)
    }
}

/// Something that knows which paths are taken.
pub trait Occupancy {
    /// The path is taken.
    spec fn occupied(&self, path: Seq<char>) -> bool;

    fn is_occupied(&self, path: &str) -> (r: bool)
        ensures
            r == self.occupied(path@),
    ;
}

/// Paths that are known to be taken.
pub struct TakenPaths {
    pub taken: Vec<String>,
}

impl Occupancy for TakenPaths {
    open spec fn occupied(&self, path: Seq<char>) -> bool {
        extension_registry::listed(self.taken@, path)
    }

    fn is_occupied(&self, path: &str) -> (r: bool) {
        is_listed(&self.taken, path)
    }
}

/// The attempts below `i` are all taken.
pub open spec fn taken_below<O: Occupancy>(
    o: O,
    dir: Seq<char>,
    name: Seq<char>,
    i: int,
) -> bool {
    forall|j: int| 1 <= j < i ==> o.occupied(#[trigger] attempt(dir, name, j))
}

/// The path under which an extracted file is stored: its name, or the name with
/// the first free number behind it.
pub fn resolve_filename<O: Occupancy>(target_dir: &str, original_name: &str, existing: &O) -> (
    r: String)
    ensures
        exists|i: int|
            {
                &&& 1 <= i <= LAST_NUMBER + 1
                &&& r@ == #[trigger] attempt(target_dir@, original_name@, i)
                &&& taken_below(*existing, target_dir@, original_name@, i)
                &&& i <= LAST_NUMBER ==> !existing.occupied(r@)
            },
{
    let path = join(target_dir, original_name);
    assert(path@ == attempt(target_dir@, original_name@, 1));
    if !existing.is_occupied(path.as_str()) {
        return path;
    }
    let stem = match file_stem_of(original_name) {
        Some(s) => s,
        None => original_name.to_owned(),
    };
    let ext = match extension_of(original_name) {
        Some(e) => e,
        None => "".to_owned(),
    };
    proof {
        reveal_strlit("");
        assert(""@ =~= Seq::<char>::empty());
    }
    let bare = chars_of(ext.as_str()).len() == 0;
    let mut i: u64 = 2;
    while i <= LAST_NUMBER
        invariant
            2 <= i <= LAST_NUMBER + 1,
            stem@ == file_info::text_or(paths::spec_file_stem(original_name@), original_name@),
            ext@ == file_info::text_or(paths::spec_extension(original_name@), ""@),
            bare == (ext@.len() == 0),
            taken_below(*existing, target_dir@, original_name@, i as int),
        decreases LAST_NUMBER + 1 - i,
    {
        let number = decimal_text(i);
        let head = join3(stem.as_str(), "_", number.as_str());
        let name = if bare {
            head
        } else {
            join3(head.as_str(), ".", ext.as_str())
        };
        let path = join(target_dir, name.as_str());
        assert(path@ == attempt(target_dir@, original_name@, i as int));
        if !existing.is_occupied(path.as_str()) {
            return path;
        }
        i = i + 1;
    }
    let name = join2(original_name, "_overflow");
    let path = join(target_dir, name.as_str());
    assert(path@ == attempt(target_dir@, original_name@, LAST_NUMBER + 1));
    path
}

/// The name under which an entry is extracted is what stands behind the last separator of
/// its path.
pub proof fn flat_name_is_last(path: Seq<char>)
    ensures
        ({
            let name = flat_name(path);
            let front = path.take(path.len() - name.len());
            &&& name.len() <= path.len()
            &&& path == front + name
            &&& forall|i: int| 0 <= i < name.len() ==> #[trigger] name[i] != '/' && name[i] != '\\'
            &&& front.len() > 0 ==> front.last() == '/' || front.last() == '\\'
        }),
{
    flat_start_is_last(path, path.len() as int);
    let start = flat_start(path, path.len() as int);
    let name = flat_name(path);
    let front = path.take(path.len() - name.len());
    assert(path =~= front + name);
    assert forall|i: int| 0 <= i < name.len() implies #[trigger] name[i] != '/' && name[i] != '\\' by {
        assert(name[i] == path[start + i]);
        assert(!paths::is_separator(path[start + i]));
    }
}

proof fn flat_start_is_last(path: Seq<char>, e: int)
    requires
        0 <= e <= path.len(),
    ensures
        0 <= flat_start(path, e) <= e,
        forall|i: int| flat_start(path, e) <= i < e ==> !paths::is_separator(#[trigger] path[i]),
        flat_start(path, e) > 0 ==> paths::is_separator(path[flat_start(path, e) - 1]),
    decreases e,
{
    if e > 0 && !paths::is_separator(path[e - 1]) {
        flat_start_is_last(path, e - 1);
    }
}

/// Numbered names of one file are all different.
pub proof fn numbered_names_differ(name: Seq<char>, i: int, j: int)
    requires
        0 <= i,
        0 <= j,
        numbered_name(name, i) == numbered_name(name, j),
    ensures
        i == j,
{
    let stem = file_info::text_or(paths::spec_file_stem(name), name);
    let ext = file_info::text_or(paths::spec_extension(name), ""@);
    let (a, b) = (text::decimal(i as nat), text::decimal(j as nat));
    let head = stem + "_"@;
    let tail = if ext.len() == 0 {
        Seq::empty()
    } else {
        "."@ + ext
    };
    assert(numbered_name(name, i) =~= head + a + tail);
    assert(numbered_name(name, j) =~= head + b + tail);
    assert(a.len() == b.len());
    assert((head + a + tail).subrange(head.len() as int, (head.len() + a.len()) as int) =~= a);
    assert((head + b + tail).subrange(head.len() as int, (head.len() + b.len()) as int) =~= b);
    text::decimal_denotes(i as nat);
    text::decimal_denotes(j as nat);
}

/// The archive goes to the first of the handlers that takes its extension.
pub proof fn first_handler_takes(handlers: Seq<AnyHandler>, ext: Seq<char>, k: int)
    requires
        0 <= k <= handlers.len(),
    ensures
        match handler_from(handlers, ext, k) {
            Some(i) => k <= i < handlers.len() && handlers[i].takes().contains(ext) && forall|j: int|
                k <= j < i ==> !(#[trigger] handlers[j]).takes().contains(ext),
            None => forall|j: int|
                k <= j < handlers.len() ==> !(#[trigger] handlers[j]).takes().contains(ext),
        },
    decreases handlers.len() - k,
{
    if k < handlers.len() && !handlers[k].takes().contains(ext) {
        first_handler_takes(handlers, ext, k + 1);
    }
}

/// Whether an entry is an image is told by its last name alone, wherever it lies in the
/// archive. Folders and names that begin with a dot are none.
pub proof fn last_name_tells_image(images: Seq<String>, a: Seq<char>, b: Seq<char>)
    requires
        flat_name(a) == flat_name(b),
    ensures
        image_entry(images, a, false) == image_entry(images, b, false),
        !image_entry(images, a, true),
        flat_name(a).len() > 0 && flat_name(a)[0] == '.' ==> !image_entry(images, a, false),
        flat_name(a).len() > 0 && flat_name(a)[0] != '.' ==> image_entry(images, a, false) == (
        paths::spec_extension(flat_name(a)) matches Some(ext) && extension_registry::listed(
            images,
            text::lowercase_of(ext),
        )),
{
}

} // verus!
