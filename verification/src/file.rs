//! The entries of a remote filesystem.
use crate::path::{file_name, last_name};
use vstd::prelude::*;

verus! {

/// What an entry is.
#[derive(Clone, Copy, Debug, PartialEq, Eq, Structural)]
pub enum FileType {
    Directory,
    File,
    Symlink,
}

/// What one class of users may do with an entry.
#[derive(Clone, Copy, Debug, PartialEq, Eq, Structural)]
pub struct UnixPexClass {
    pub read: bool,
    pub write: bool,
    pub execute: bool,
}

/// What the owner, the group and the others may do with an entry.
#[derive(Clone, Copy, Debug, PartialEq, Eq, Structural)]
pub struct UnixPex {
    pub user: UnixPexClass,
    pub group: UnixPexClass,
    pub others: UnixPexClass,
}

/// What the server says of an entry; `None` where it says nothing.
#[derive(Debug)]
pub struct Metadata {
    pub file_type: FileType,
    /// Size in bytes.
    pub size: Option<u64>,
    /// Last modification, in seconds since 1970.
    pub modified: Option<u64>,
    pub mode: Option<UnixPex>,
    pub uid: Option<u32>,
    pub gid: Option<u32>,
    /// What a symbolic link points at.
    pub symlink: Option<String>,
}

/// What a [`Metadata`] holds.
pub ghost struct MetadataView {
    pub file_type: FileType,
    pub size: Option<u64>,
    pub modified: Option<u64>,
    pub mode: Option<UnixPex>,
    pub uid: Option<u32>,
    pub gid: Option<u32>,
    pub symlink: Option<Seq<char>>,
}

/// What an optional text holds.
pub open spec fn optional_text(text: Option<String>) -> Option<Seq<char>> {
    match text {
        Some(t) => Some(t@),
        None => None,
    }
}

impl View for Metadata {
    type V = MetadataView;

    open spec fn view(&self) -> MetadataView {
        MetadataView {
            file_type: self.file_type,
            size: self.size,
            modified: self.modified,
            mode: self.mode,
            uid: self.uid,
            gid: self.gid,
            symlink: optional_text(self.symlink),
        }
    }
}

impl MetadataView {
    /// What is known of an entry of which nothing but its type is known.
    pub open spec fn of_type(file_type: FileType) -> MetadataView {
        MetadataView {
            file_type,
            size: None,
            modified: None,
            mode: None,
            uid: None,
            gid: None,
            symlink: None,
        }
    }
}

/// An entry: its absolute path and what is known of it.
#[derive(Debug)]
pub struct File {
    pub path: String,
    pub metadata: Metadata,
}

/// What a [`File`] holds.
pub ghost struct FileView {
    pub path: Seq<char>,
    pub metadata: MetadataView,
}

impl View for File {
    type V = FileView;

    open spec fn view(&self) -> FileView {
        FileView { path: self.path@, metadata: self.metadata@ }
    }
}

impl Clone for Metadata {
    fn clone(&self) -> (r: Self)
        ensures
            r@ == self@,
    {
        let symlink = match &self.symlink {
            Some(target) => Some(target.clone()),
            None => None,
        };
        Metadata {
            file_type: self.file_type,
            size: self.size,
            modified: self.modified,
            mode: self.mode,
            uid: self.uid,
            gid: self.gid,
            symlink,
        }
    }
}

impl Clone for File {
    fn clone(&self) -> (r: Self)
        ensures
            r@ == self@,
    {
        File { path: self.path.clone(), metadata: self.metadata.clone() }
    }
}

impl FileView {
    /// The last component of the entry's path, or `/` where it has none.
    pub open spec fn name(self) -> Seq<char> {
        match last_name(self.path) {
            Some(name) if name != crate::path::dot_dot() => name,
            _ => seq!['/'],
        }
    }

    /// Whether the entry is a directory.
    pub open spec fn is_dir(self) -> bool {
        self.metadata.file_type == FileType::Directory
    }

    /// Whether the entry is a regular file.
    pub open spec fn is_file(self) -> bool {
        self.metadata.file_type == FileType::File
    }
}

/// The entries of a listing.
pub open spec fn file_views(files: Seq<File>) -> Seq<FileView> {
    files.map_values(|f: File| f@)
}

/// Copies a listing.
pub fn clone_files(files: &Vec<File>) -> (r: Vec<File>)
    ensures
        file_views(r@) == file_views(files@),
{
    let mut r: Vec<File> = Vec::new();
    let mut i: usize = 0;
    while i < files.len()
        invariant
            i <= files@.len(),
            file_views(r@) == file_views(files@).take(i as int),
        decreases files@.len() - i,
    {
        let copy = files[i].clone();
        let ghost before = r@;
        r.push(copy);
        proof {
            assert(file_views(before.push(copy)) == file_views(before).push(copy@));
            assert(file_views(files@).take(i + 1) == file_views(files@).take(i as int).push(
                file_views(files@)[i as int],
            ));
        }
        i = i + 1;
    }
    assert(file_views(files@).take(i as int) == file_views(files@));
    r
}

impl File {
    /// The last component of the entry's path, or `/` where it has none.
    pub fn name(&self) -> (r: String)
        ensures
            r@ == self@.name(),
    {
        proof {
            reveal_strlit("..");
            reveal_strlit("/");
            assert(".."@ == crate::path::dot_dot());
            assert("/"@ == seq!['/']);
        }
        match file_name(self.path.as_str()) {
            Some(name) => {
                if name == "..".to_string() {
                    "/".to_string()
                } else {
                    name
                }
            },
            None => "/".to_string(),
        }
    }

    /// Returns whether the entry is a directory.
    pub fn is_dir(&self) -> (r: bool)
        ensures
            r == self@.is_dir(),
    {
        self.metadata.file_type == FileType::Directory
    }

    /// Returns whether the entry is a regular file.
    pub fn is_file(&self) -> (r: bool)
        ensures
            r == self@.is_file(),
    {
        self.metadata.file_type == FileType::File
    }
}

} // verus!
