//! The filesystem abstraction: errors, file information, classification of
//! raw bytes into text or binary contents, and the modeled `Filesystem`
//! trait that the selector reads from and applies changes to.

use vstd::prelude::*;
use vstd::string::StringExecFns;
use sha1::Digest;

use crate::paths::spec_strip_prefix;
use crate::strutil::lex_lt;
use crate::types::FileMode;

verus! {

/// An error of the change selector.
#[derive(Clone, Debug, Eq, PartialEq)]
pub enum Error {
    /// The user aborted the operation.
    Cancelled,
    /// A dry run finished without writing any files.
    DryRun,
    /// Walking a directory failed.
    WalkDir {
        /// The underlying error message.
        source: String,
    },
    /// Stripping a directory prefix from a path failed.
    StripPrefix {
        /// The root that was to be stripped.
        root: String,
        /// The path it was to be stripped from.
        path: String,
        /// The underlying error message.
        source: String,
    },
    /// Reading a file failed.
    ReadFile {
        /// The path that was read.
        path: String,
        /// The underlying error message.
        source: String,
    },
    /// Removing a file failed.
    RemoveFile {
        /// The path that was removed.
        path: String,
        /// The underlying error message.
        source: String,
    },
    /// Copying a file failed.
    CopyFile {
        /// The path copied from.
        old_path: String,
        /// The path copied to.
        new_path: String,
        /// The underlying error message.
        source: String,
    },
    /// Creating a directory failed.
    CreateDirAll {
        /// The path of the directory.
        path: String,
        /// The underlying error message.
        source: String,
    },
    /// Writing a file failed.
    WriteFile {
        /// The path that was written.
        path: String,
        /// The underlying error message.
        source: String,
    },
    /// A file needed for a three-way merge did not exist.
    MissingMergeFile {
        /// The missing path.
        path: String,
    },
    /// A file handed to a three-way merge was not text.
    BinaryMergeFile {
        /// The offending path.
        path: String,
    },
    /// Recording the changes failed.
    Record {
        /// The underlying error message.
        source: String,
    },
}

/// Result type alias.
pub type Result<T> = core::result::Result<T, Error>;

/// Representation of a file's contents.
#[derive(Clone, Debug, Eq, PartialEq)]
pub enum FileContents {
    /// There is no file. (This is different from the file being present but
    /// empty.)
    Absent,
    /// The file is a text file with the given contents.
    Text {
        /// The contents of the file.
        contents: String,
        /// The hash of the contents, in lowercase hexadecimal.
        hash: String,
        /// The size of the contents, in bytes.
        num_bytes: u64,
    },
    /// The file is a binary file.
    Binary {
        /// The hash of the contents, in lowercase hexadecimal.
        hash: String,
        /// The size of the contents, in bytes.
        num_bytes: u64,
    },
}

/// The mathematical value of a `FileContents`.
pub enum FileContentsV {
    /// No file.
    Absent,
    /// A text file.
    Text {
        /// The characters of the contents.
        contents: Seq<char>,
        /// The characters of the hash.
        hash: Seq<char>,
        /// The size in bytes.
        num_bytes: u64,
    },
    /// A binary file.
    Binary {
        /// The characters of the hash.
        hash: Seq<char>,
        /// The size in bytes.
        num_bytes: u64,
    },
}

impl View for FileContents {
    type V = FileContentsV;

    open spec fn view(&self) -> FileContentsV {
        match self {
            FileContents::Absent => FileContentsV::Absent,
            FileContents::Text { contents, hash, num_bytes } => FileContentsV::Text {
                contents: contents@,
                hash: hash@,
                num_bytes: *num_bytes,
            },
            FileContents::Binary { hash, num_bytes } => FileContentsV::Binary {
                hash: hash@,
                num_bytes: *num_bytes,
            },
        }
    }
}

/// Information about a file that was read from disk. The file may not have
/// existed, in which case its contents are marked as absent.
#[derive(Clone, Debug, Eq, PartialEq)]
pub struct FileInfo {
    /// The file mode.
    pub file_mode: FileMode,
    /// The file contents.
    pub contents: FileContents,
}

/// The mathematical value of a `FileInfo`.
pub struct FileInfoV {
    /// The file mode.
    pub file_mode: FileMode,
    /// The file contents.
    pub contents: FileContentsV,
}

impl View for FileInfo {
    type V = FileInfoV;

    open spec fn view(&self) -> FileInfoV {
        FileInfoV { file_mode: self.file_mode, contents: self.contents@ }
    }
}

impl FileContents {
    /// Clone the contents, field by field.
    pub fn clone_contents(&self) -> (r: FileContents)
        ensures
            r@ == self@,
    {
        match self {
            FileContents::Absent => FileContents::Absent,
            FileContents::Text { contents, hash, num_bytes } => FileContents::Text {
                contents: contents.clone(),
                hash: hash.clone(),
                num_bytes: *num_bytes,
            },
            FileContents::Binary { hash, num_bytes } => FileContents::Binary {
                hash: hash.clone(),
                num_bytes: *num_bytes,
            },
        }
    }
}

impl FileInfo {
    /// Clone the information, field by field.
    pub fn clone_info(&self) -> (r: FileInfo)
        ensures
            r@ == self@,
    {
        FileInfo { file_mode: self.file_mode, contents: self.contents.clone_contents() }
    }
}

/// The SHA-1 digest of a byte sequence. The digest is a function of the
/// bytes alone, and is twenty bytes long.
pub uninterp spec fn sha1_of(bytes: Seq<u8>) -> Seq<u8>;

/// Relies on `sha1::Sha1` through the `Digest` trait: the digest depends on
/// the input bytes alone, and SHA-1 digests are twenty bytes long.
#[verifier::external_body]
fn sha1_digest(bytes: &Vec<u8>) -> (r: Vec<u8>)
    ensures
        r@ == sha1_of(bytes@),
        r@.len() == 20,
{
    let mut hasher = sha1::Sha1::new();
    hasher.update(bytes.as_slice());
    hasher.finalize().to_vec()
}

/// Relies on `String::from_utf8`: it succeeds exactly on valid UTF-8 input
/// and decodes it, so that re-encoding the characters gives the input bytes.
#[verifier::external_body]
fn utf8_to_string(bytes: Vec<u8>) -> (r: Option<String>)
    ensures
        (r is Some) == vstd::utf8::valid_utf8(bytes@),
        r matches Some(s) ==> vstd::utf8::encode_utf8(s@) == bytes@,
{
    String::from_utf8(bytes).ok()
}

/// The lowercase hexadecimal digit for a value below sixteen.
pub open spec fn hex_digit(d: nat) -> char {
    if d < 10 {
        crate::strutil::digit_char(d)
    } else if d == 10 {
        'a'
    } else if d == 11 {
        'b'
    } else if d == 12 {
        'c'
    } else if d == 13 {
        'd'
    } else if d == 14 {
        'e'
    } else {
        'f'
    }
}

/// The lowercase hexadecimal representation of a byte sequence, two digits
/// per byte.
pub open spec fn hex_str(bytes: Seq<u8>) -> Seq<char>
    decreases bytes.len(),
{
    if bytes.len() == 0 {
        Seq::empty()
    } else {
        hex_str(bytes.drop_last()) + seq![
            hex_digit((bytes.last() / 16) as nat),
            hex_digit((bytes.last() % 16) as nat),
        ]
    }
}

/// The lowercase hexadecimal digit string for a value below sixteen.
fn hex_digit_str(d: u8) -> (r: &'static str)
    requires
        d < 16,
    ensures
        r@ == seq![hex_digit(d as nat)],
{
    if d < 10 {
        crate::strutil::digit_str_u8(d)
    } else {
        proof {
            reveal_strlit("a");
            reveal_strlit("b");
            reveal_strlit("c");
            reveal_strlit("d");
            reveal_strlit("e");
            reveal_strlit("f");
        }
        let r = if d == 10 {
            "a"
        } else if d == 11 {
            "b"
        } else if d == 12 {
            "c"
        } else if d == 13 {
            "d"
        } else if d == 14 {
            "e"
        } else {
            "f"
        };
        proof {
            assert(r@ =~= seq![hex_digit(d as nat)]);
        }
        r
    }
}

/// Format a byte sequence in lowercase hexadecimal.
#[verifier::loop_isolation(false)]
pub fn bytes_to_hex(bytes: &Vec<u8>) -> (r: String)
    ensures
        r@ == hex_str(bytes@),
{
    let mut r = String::new();
    let n = bytes.len();
    let mut i: usize = 0;
    proof {
        assert(r@ =~= hex_str(bytes@.take(0)));
    }
    while i < n
        invariant
            i <= n,
            r@ == hex_str(bytes@.take(i as int)),
        decreases n - i,
    {
        let b = bytes[i];
        r.append(hex_digit_str(b / 16));
        r.append(hex_digit_str(b % 16));
        proof {
            assert(bytes@.take(i + 1).drop_last() =~= bytes@.take(i as int));
            assert(bytes@.take(i + 1).last() == bytes@[i as int]);
            assert(r@ =~= hex_str(bytes@.take(i + 1)));
        }
        i = i + 1;
    }
    proof {
        assert(bytes@.take(n as int) =~= bytes@);
    }
    r
}

/// Whether the byte sequence contains a NUL byte.
pub open spec fn has_nul(bytes: Seq<u8>) -> bool {
    exists|i: int| 0 <= i < bytes.len() && bytes[i] == 0u8
}

/// Scan a byte vector for a NUL byte.
#[verifier::loop_isolation(false)]
fn contains_nul(bytes: &Vec<u8>) -> (r: bool)
    ensures
        r == has_nul(bytes@),
{
    let n = bytes.len();
    let mut i: usize = 0;
    while i < n
        invariant
            i <= n,
            forall|j: int| 0 <= j < i ==> bytes@[j] != 0u8,
        decreases n - i,
    {
        if bytes[i] == 0 {
            return true;
        }
        i = i + 1;
    }
    false
}

/// The classification of a byte stream: binary when it holds a NUL byte or
/// is not valid UTF-8, text otherwise, in both cases with its hash and size.
pub open spec fn spec_classify(bytes: Seq<u8>) -> FileContentsV {
    if has_nul(bytes) || !vstd::utf8::valid_utf8(bytes) {
        FileContentsV::Binary { hash: hex_str(sha1_of(bytes)), num_bytes: bytes.len() as u64 }
    } else {
        FileContentsV::Text {
            contents: vstd::utf8::decode_utf8(bytes),
            hash: hex_str(sha1_of(bytes)),
            num_bytes: bytes.len() as u64,
        }
    }
}

/// Classify the raw bytes of a file as text or binary contents.
pub fn classify_file_bytes(bytes: Vec<u8>) -> (r: FileContents)
    ensures
        r@ == spec_classify(bytes@),
{
    let hash = bytes_to_hex(&sha1_digest(&bytes));
    let num_bytes: u64 = bytes.len() as u64;
    if contains_nul(&bytes) {
        FileContents::Binary { hash, num_bytes }
    } else {
        let ghost bv = bytes@;
        match utf8_to_string(bytes) {
            Some(contents) => {
                proof {
                    vstd::utf8::decode_utf8_encode_utf8(bv);
                    vstd::utf8::encode_utf8_decode_utf8(contents@);
                }
                FileContents::Text { contents, hash, num_bytes }
            },
            None => FileContents::Binary { hash, num_bytes },
        }
    }
}

/// The mode classification of an on-disk entry: absent when there is no
/// metadata, a symlink mode for symlinks, and an executable file mode when
/// the user-execute permission bit is set, otherwise a plain file mode.
/// Platforms without permission bits report a plain file.
pub open spec fn spec_classify_mode(
    found: bool,
    is_symlink: bool,
    permissions: Option<u32>,
) -> FileMode {
    if !found {
        FileMode::Absent
    } else if is_symlink {
        FileMode::Unix(0o120000)
    } else if permissions matches Some(m) && m & 0o100 == 0o100 {
        FileMode::Unix(0o100755)
    } else {
        FileMode::Unix(0o100644)
    }
}

/// Classify the mode of an on-disk entry from its metadata.
pub fn classify_mode(found: bool, is_symlink: bool, permissions: Option<u32>) -> (r: FileMode)
    ensures
        r == spec_classify_mode(found, is_symlink, permissions),
{
    if !found {
        FileMode::Absent
    } else if is_symlink {
        FileMode::Unix(0o120000)
    } else {
        let executable = match permissions {
            Some(m) => m & 0o100 == 0o100,
            None => false,
        };
        if executable {
            FileMode::Unix(0o100755)
        } else {
            FileMode::Unix(0o100644)
        }
    }
}

/// The model of a filesystem: a map from file paths to their information,
/// and the set of directories that exist.
pub struct FsModel {
    /// The files, by path.
    pub files: Map<Seq<char>, FileInfoV>,
    /// The directories.
    pub dirs: Set<Seq<char>>,
}

/// The information of a file that does not exist.
pub open spec fn spec_absent_info() -> FileInfoV {
    FileInfoV { file_mode: FileMode::Absent, contents: FileContentsV::Absent }
}

/// The information stored for a text file written with the given contents
/// and recorded hash: the default file mode, the contents, the hash, and the
/// byte size.
pub open spec fn spec_text_file_info(contents: Seq<char>, hash: Seq<char>) -> FileInfoV {
    FileInfoV {
        file_mode: FileMode::Unix(0o100644),
        contents: FileContentsV::Text {
            contents,
            hash,
            num_bytes: (vstd::utf8::encode_utf8(contents).len() as usize) as u64,
        },
    }
}

/// What reading a path yields: the stored file, an error for a directory,
/// and absent information otherwise.
pub open spec fn spec_lookup(fs: FsModel, path: Seq<char>) -> Option<FileInfoV> {
    if fs.files.dom().contains(path) {
        Some(fs.files[path])
    } else if fs.dirs.contains(path) {
        None
    } else {
        Some(spec_absent_info())
    }
}

/// The set of path values of a vector of strings.
pub open spec fn paths_as_set(paths: Seq<String>) -> Set<Seq<char>> {
    Set::new(|q: Seq<char>| exists|i: int| 0 <= i < paths.len() && paths[i]@ == q)
}

/// The union of the relative paths of the files under two roots.
pub open spec fn dir_diff_union(fs: FsModel, left: Seq<char>, right: Seq<char>) -> Set<Seq<char>> {
    Set::new(
        |q: Seq<char>|
            exists|k: Seq<char>|
                #[trigger] fs.files.dom().contains(k) && (spec_strip_prefix(k, left) == Some(q)
                    || spec_strip_prefix(k, right) == Some(q)),
    )
}

/// Whether a sequence of paths is strictly increasing, and so free of
/// duplicates.
pub open spec fn strictly_sorted_paths(paths: Seq<String>) -> bool {
    forall|a: int, b: int| 0 <= a < b < paths.len() ==> lex_lt(paths[a]@, paths[b]@)
}

/// Abstraction over the filesystem. The model `fs()` gives the files and
/// directories; each operation says how it reads or rewrites that model. An
/// implementation whose operations cannot fail declares itself infallible,
/// and then also promises success: a walk, write, removal, or directory
/// creation succeeds, and a copy succeeds when its source is readable.
pub trait Filesystem: Sized {
    /// The modeled contents of the filesystem.
    spec fn fs(&self) -> FsModel;

    /// Whether this implementation's operations always succeed on readable
    /// inputs, as the in-memory implementation's do.
    spec fn infallible() -> bool;

    /// The hash this implementation records for written text contents. The
    /// in-memory implementation records a placeholder.
    spec fn written_hash(contents: Seq<char>) -> Seq<char>;

    /// Find the set of relative paths of files that appear under either
    /// `left` or `right`, sorted and without duplicates.
    fn read_dir_diff_paths(&self, left: &String, right: &String) -> (r: Result<Vec<String>>)
        ensures
            r matches Ok(paths) ==> strictly_sorted_paths(paths@) && paths_as_set(paths@)
                == dir_diff_union(self.fs(), left@, right@),
            Self::infallible() ==> r is Ok,
    ;

    /// Read the information for the provided path: the stored file, absent
    /// information for a missing path, and a read error naming the path and
    /// saying it is a directory for a directory.
    fn read_file_info(&self, path: &String) -> (r: Result<FileInfo>)
        ensures
            spec_lookup(self.fs(), path@) matches Some(info) ==> r matches Ok(i) && i@ == info,
            spec_lookup(self.fs(), path@) is None ==> (r matches Err(e) && (e matches
                Error::ReadFile { path: p, source: s } && p@ == path@ && s@
                == "is a directory"@)),
    ;

    /// Write new text contents to `path`, recording this implementation's
    /// hash for them. A failed write leaves the model unchanged.
    fn write_file(&mut self, path: &String, contents: &String) -> (r: Result<()>)
        ensures
            r is Ok ==> final(self).fs() == (FsModel {
                files: old(self).fs().files.insert(
                    path@,
                    spec_text_file_info(contents@, Self::written_hash(contents@)),
                ),
                dirs: old(self).fs().dirs,
            }),
            r is Err ==> final(self).fs() == old(self).fs(),
            Self::infallible() ==> r is Ok,
    ;

    /// Copy the file at `old_path` to `new_path`. A copy from an unreadable
    /// source fails; a failed copy leaves the model unchanged.
    fn copy_file(&mut self, old_path: &String, new_path: &String) -> (r: Result<()>)
        ensures
            r is Ok ==> (spec_lookup(old(self).fs(), old_path@) matches Some(info)
                && final(self).fs() == (FsModel {
                files: old(self).fs().files.insert(new_path@, info),
                dirs: old(self).fs().dirs,
            })),
            r is Err ==> final(self).fs() == old(self).fs(),
            Self::infallible() && spec_lookup(old(self).fs(), old_path@) is Some ==> r is Ok,
    ;

    /// Delete the file at `path`; a missing file is not an error. A failed
    /// removal leaves the model unchanged.
    fn remove_file(&mut self, path: &String) -> (r: Result<()>)
        ensures
            r is Ok ==> final(self).fs() == (FsModel {
                files: old(self).fs().files.remove(path@),
                dirs: old(self).fs().dirs,
            }),
            r is Err ==> final(self).fs() == old(self).fs(),
            Self::infallible() ==> r is Ok,
    ;

    /// Create the directory `path`. A failed creation leaves the model
    /// unchanged.
    fn create_dir_all(&mut self, path: &String) -> (r: Result<()>)
        ensures
            r is Ok ==> final(self).fs() == (FsModel {
                files: old(self).fs().files,
                dirs: old(self).fs().dirs.insert(path@),
            }),
            r is Err ==> final(self).fs() == old(self).fs(),
            Self::infallible() ==> r is Ok,
    ;
}

} // verus!
