//! Mutation records: immutable, self-describing descriptions of one change.
//!
//! A record carries everything needed to replay it against a fresh store, so
//! the same value can be applied to the primary, queued, and later mirrored
//! to the backup without consulting any other state.

use vstd::prelude::*;

verus! {

/// The descriptor of a newly discovered media item; the store assigns the id.
#[derive(Clone, Debug)]
pub struct PhotoMeta {
    pub path: String,
    pub filename: String,
    pub file_size: Option<i64>,
    pub date_taken: Option<i64>,
    pub width: Option<i64>,
    pub height: Option<i64>,
    pub format: String,
}

/// Ghost image of a [`PhotoMeta`].
#[verifier::ext_equal]
pub ghost struct PhotoMetaV {
    pub path: Seq<char>,
    pub filename: Seq<char>,
    pub file_size: Option<int>,
    pub date_taken: Option<int>,
    pub width: Option<int>,
    pub height: Option<int>,
    pub format: Seq<char>,
}

impl View for PhotoMeta {
    type V = PhotoMetaV;

    open spec fn view(&self) -> PhotoMetaV {
        PhotoMetaV {
            path: self.path@,
            filename: self.filename@,
            file_size: match self.file_size {
                Some(n) => Some(n as int),
                None => None,
            },
            date_taken: match self.date_taken {
                Some(n) => Some(n as int),
                None => None,
            },
            width: match self.width {
                Some(n) => Some(n as int),
                None => None,
            },
            height: match self.height {
                Some(n) => Some(n as int),
                None => None,
            },
            format: self.format@,
        }
    }
}

impl PhotoMeta {
    /// A fresh descriptor with the same contents.
    pub fn duplicate(&self) -> (r: PhotoMeta)
        ensures
            r@ == self@,
    {
        PhotoMeta {
            path: self.path.clone(),
            filename: self.filename.clone(),
            file_size: self.file_size,
            date_taken: self.date_taken,
            width: self.width,
            height: self.height,
            format: self.format.clone(),
        }
    }
}

/// One change to apply to a store, as a closed tagged variant.
#[derive(Clone, Debug)]
pub enum Mutation {
    /// Relocate a filesystem entry to a new full path and update the index.
    Move { from: String, to: String },
    /// Rename in place: the entry keeps its directory, only the name changes.
    Rename { path: String, new_name: String },
    /// Remove the file and its indexed row.
    Delete { path: String },
    /// Create an album; a second creation under the same name is ignored.
    CreateAlbum { name: String },
    /// Remove an album and, first, its membership rows.
    DeleteAlbum { album_id: i64 },
    /// Put a photo into an album; repeating the association is ignored.
    AttachToAlbum { photo_id: i64, album_id: i64 },
    /// Find or create the named tag, then associate it with the photo.
    AttachTag { photo_id: i64, tag_name: String },
    /// Insert a newly discovered media item; a path already indexed is kept.
    AddPhoto { photo: PhotoMeta },
}

/// Ghost image of a [`Mutation`].
#[verifier::ext_equal]
pub ghost enum MutationV {
    Move { from: Seq<char>, to: Seq<char> },
    Rename { path: Seq<char>, new_name: Seq<char> },
    Delete { path: Seq<char> },
    CreateAlbum { name: Seq<char> },
    DeleteAlbum { album_id: int },
    AttachToAlbum { photo_id: int, album_id: int },
    AttachTag { photo_id: int, tag_name: Seq<char> },
    AddPhoto { photo: PhotoMetaV },
}

impl View for Mutation {
    type V = MutationV;

    open spec fn view(&self) -> MutationV {
        match self {
            Mutation::Move { from, to } => MutationV::Move { from: from@, to: to@ },
            Mutation::Rename { path, new_name } => MutationV::Rename {
                path: path@,
                new_name: new_name@,
            },
            Mutation::Delete { path } => MutationV::Delete { path: path@ },
            Mutation::CreateAlbum { name } => MutationV::CreateAlbum { name: name@ },
            Mutation::DeleteAlbum { album_id } => MutationV::DeleteAlbum {
                album_id: *album_id as int,
            },
            Mutation::AttachToAlbum { photo_id, album_id } => MutationV::AttachToAlbum {
                photo_id: *photo_id as int,
                album_id: *album_id as int,
            },
            Mutation::AttachTag { photo_id, tag_name } => MutationV::AttachTag {
                photo_id: *photo_id as int,
                tag_name: tag_name@,
            },
            Mutation::AddPhoto { photo } => MutationV::AddPhoto { photo: photo@ },
        }
    }
}

impl Mutation {
    /// A fresh record describing the same change; queueing keeps a copy of
    /// the submitted mutation, and the copy's view provably equals this
    /// one's.
    pub fn duplicate(&self) -> (r: Mutation)
        ensures
            r@ == self@,
    {
        match self {
            Mutation::Move { from, to } => Mutation::Move {
                from: from.clone(),
                to: to.clone(),
            },
            Mutation::Rename { path, new_name } => Mutation::Rename {
                path: path.clone(),
                new_name: new_name.clone(),
            },
            Mutation::Delete { path } => Mutation::Delete { path: path.clone() },
            Mutation::CreateAlbum { name } => Mutation::CreateAlbum { name: name.clone() },
            Mutation::DeleteAlbum { album_id } => Mutation::DeleteAlbum { album_id: *album_id },
            Mutation::AttachToAlbum { photo_id, album_id } => Mutation::AttachToAlbum {
                photo_id: *photo_id,
                album_id: *album_id,
            },
            Mutation::AttachTag { photo_id, tag_name } => Mutation::AttachTag {
                photo_id: *photo_id,
                tag_name: tag_name.clone(),
            },
            Mutation::AddPhoto { photo } => Mutation::AddPhoto { photo: photo.duplicate() },
        }
    }
}

} // verus!
