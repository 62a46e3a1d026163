//! The passive records both stores keep: photos, albums, tags.
//!
//! Dates are carried as seconds since the Unix epoch, paths as plain
//! strings; the ghost views translate every string into its character
//! sequence so that contracts can speak extensionally about record
//! contents.

use vstd::prelude::*;

verus! {

/// One indexed media item.
#[derive(Clone, Debug)]
pub struct Photo {
    pub id: i64,
    pub path: String,
    pub filename: String,
    pub file_hash: Option<String>,
    pub file_size: Option<i64>,
    pub date_taken: Option<i64>,
    pub width: Option<i64>,
    pub height: Option<i64>,
    pub format: String,
}

/// Ghost image of a [`Photo`].
#[verifier::ext_equal]
pub ghost struct PhotoV {
    pub id: int,
    pub path: Seq<char>,
    pub filename: Seq<char>,
    pub file_hash: Option<Seq<char>>,
    pub file_size: Option<int>,
    pub date_taken: Option<int>,
    pub width: Option<int>,
    pub height: Option<int>,
    pub format: Seq<char>,
}

impl View for Photo {
    type V = PhotoV;

    open spec fn view(&self) -> PhotoV {
        PhotoV {
            id: self.id as int,
            path: self.path@,
            filename: self.filename@,
            file_hash: match self.file_hash {
                Some(h) => Some(h@),
                None => None,
            },
            file_size: match self.file_size {
                Some(n) => Some(n as int),
                None => None,
            },
            date_taken: match self.date_taken {
                Some(n) => Some(n as int),
                None => None,
            },
            width: match self.width {
                Some(n) => Some(n as int),
                None => None,
            },
            height: match self.height {
                Some(n) => Some(n as int),
                None => None,
            },
            format: self.format@,
        }
    }
}

impl Photo {
    /// A fresh record with the same contents; the copy's view equals this
    /// one's, which a derived clone would not let callers conclude.
    pub fn duplicate(&self) -> (r: Photo)
        ensures
            r@ == self@,
    {
        Photo {
            id: self.id,
            path: self.path.clone(),
            filename: self.filename.clone(),
            file_hash: match &self.file_hash {
                Some(h) => Some(h.clone()),
                None => None,
            },
            file_size: self.file_size,
            date_taken: self.date_taken,
            width: self.width,
            height: self.height,
            format: self.format.clone(),
        }
    }
}

/// A named collection of photos.
#[derive(Clone, Debug)]
pub struct Album {
    pub id: i64,
    pub name: String,
}

/// Ghost image of an [`Album`].
#[verifier::ext_equal]
pub ghost struct AlbumV {
    pub id: int,
    pub name: Seq<char>,
}

impl View for Album {
    type V = AlbumV;

    open spec fn view(&self) -> AlbumV {
        AlbumV { id: self.id as int, name: self.name@ }
    }
}

impl Album {
    /// A fresh record with the same contents.
    pub fn duplicate(&self) -> (r: Album)
        ensures
            r@ == self@,
    {
        Album { id: self.id, name: self.name.clone() }
    }
}

/// A label photos can carry; created on first use.
#[derive(Clone, Debug)]
pub struct Tag {
    pub id: i64,
    pub name: String,
}

/// Ghost image of a [`Tag`].
#[verifier::ext_equal]
pub ghost struct TagV {
    pub id: int,
    pub name: Seq<char>,
}

impl View for Tag {
    type V = TagV;

    open spec fn view(&self) -> TagV {
        TagV { id: self.id as int, name: self.name@ }
    }
}

impl Tag {
    /// A fresh record with the same contents.
    pub fn duplicate(&self) -> (r: Tag)
        ensures
            r@ == self@,
    {
        Tag { id: self.id, name: self.name.clone() }
    }
}

} // verus!
