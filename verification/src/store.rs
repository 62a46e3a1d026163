//! One physical store, modeled: a filesystem root plus its relational
//! index, the unit a mutation is applied to transactionally.
//!
//! The ghost [`StoreState`] is the store's whole observable content, and
//! [`store_apply`] says — as a function of state and mutation alone — what
//! one apply does and when it refuses. The executable [`Store`] is proved
//! to follow `store_apply` exactly; that the outcome is a *function* of the
//! state is what later makes a flushed backup land on the primary's state.
//!
//! Apply semantics, variant by variant:
//! - `Move`/`Rename`/`Delete` are individually retryable: a mutation whose
//!   effect is already in place is a no-op success, not an error.
//! - `CreateAlbum`, `AttachToAlbum`, `AttachTag` and `AddPhoto` use
//!   insert-or-ignore semantics on their natural keys.
//! - A missing referenced id is a `LogicalConflict`; a filesystem
//!   source/target mismatch that is not an already-applied mutation is a
//!   `FilesystemConflict`. Both are non-retryable.

use vstd::prelude::*;
use vstd::pervasive::VecAdditionalExecFns;
use crate::errors::StoreError;
use crate::models::{Album, AlbumV, Photo, PhotoV, Tag, TagV};
use crate::mutation::{Mutation, MutationV, PhotoMetaV};
use crate::oplog::OpLog;
use crate::pathname::rename_target_spec;
use crate::seq_search::first_where;

verus! {

/// Everything one store holds, besides its journal.
#[verifier::ext_equal]
pub ghost struct StoreState {
    pub photos: Seq<PhotoV>,
    pub albums: Seq<AlbumV>,
    pub tags: Seq<TagV>,
    /// `(photo_id, album_id)` pairs.
    pub memberships: Seq<(int, int)>,
    /// `(photo_id, tag_id)` pairs.
    pub tag_links: Seq<(int, int)>,
    /// The filesystem half: which paths hold an entry.
    pub files: Seq<Seq<char>>,
    pub next_photo_id: int,
    pub next_album_id: int,
    pub next_tag_id: int,
}

/// The state of a store that holds nothing yet.
pub open spec fn empty_store() -> StoreState {
    StoreState {
        photos: Seq::empty(),
        albums: Seq::empty(),
        tags: Seq::empty(),
        memberships: Seq::empty(),
        tag_links: Seq::empty(),
        files: Seq::empty(),
        next_photo_id: 1,
        next_album_id: 1,
        next_tag_id: 1,
    }
}

// Named predicates, so that contracts, loop invariants and the apply
// semantics all speak of one and the same function.

pub open spec fn photo_has_path(path: Seq<char>) -> spec_fn(PhotoV) -> bool {
    |p: PhotoV| p.path == path
}

pub open spec fn photo_has_id(id: int) -> spec_fn(PhotoV) -> bool {
    |p: PhotoV| p.id == id
}

pub open spec fn album_has_id(id: int) -> spec_fn(AlbumV) -> bool {
    |a: AlbumV| a.id == id
}

pub open spec fn album_has_name(name: Seq<char>) -> spec_fn(AlbumV) -> bool {
    |a: AlbumV| a.name == name
}

pub open spec fn tag_has_name(name: Seq<char>) -> spec_fn(TagV) -> bool {
    |t: TagV| t.name == name
}

pub open spec fn file_is(path: Seq<char>) -> spec_fn(Seq<char>) -> bool {
    |f: Seq<char>| f == path
}

/// Keep a membership row when it does not belong to the album being removed.
pub open spec fn member_outside_album(album_id: int) -> spec_fn((int, int)) -> bool {
    |mm: (int, int)| mm.1 != album_id
}

pub open spec fn photo_idx_by_path(photos: Seq<PhotoV>, path: Seq<char>) -> int {
    first_where(photos, photo_has_path(path))
}

pub open spec fn photo_idx_by_id(photos: Seq<PhotoV>, id: int) -> int {
    first_where(photos, photo_has_id(id))
}

pub open spec fn album_idx_by_id(albums: Seq<AlbumV>, id: int) -> int {
    first_where(albums, album_has_id(id))
}

pub open spec fn album_idx_by_name(albums: Seq<AlbumV>, name: Seq<char>) -> int {
    first_where(albums, album_has_name(name))
}

pub open spec fn tag_idx_by_name(tags: Seq<TagV>, name: Seq<char>) -> int {
    first_where(tags, tag_has_name(name))
}

pub open spec fn file_idx(files: Seq<Seq<char>>, path: Seq<char>) -> int {
    first_where(files, file_is(path))
}

pub open spec fn has_file(files: Seq<Seq<char>>, path: Seq<char>) -> bool {
    file_idx(files, path) >= 0
}

/// Where a page starts: a negative offset reads from the front, one past
/// the end reads nothing.
pub open spec fn page_start(len: int, offset: int) -> int {
    if offset < 0 {
        0
    } else if offset > len {
        len
    } else {
        offset
    }
}

/// Where a page ends: a negative limit means no limit.
pub open spec fn page_end(len: int, limit: int, start: int) -> int {
    if limit < 0 {
        len
    } else if start + limit > len {
        len
    } else {
        start + limit
    }
}

/// The photos an album holds: those whose id is associated with it.
pub open spec fn photo_in_album(ms: Seq<(int, int)>, album_id: int) -> spec_fn(PhotoV) -> bool {
    |p: PhotoV| ms.contains((p.id, album_id))
}

/// The filesystem half never lists one path twice. An empty store has this,
/// and every apply keeps it; the idempotence of the filesystem mutations
/// rests on it.
pub open spec fn files_unique(files: Seq<Seq<char>>) -> bool {
    forall|i: int, j: int| 0 <= i < j < files.len() ==> files[i] != files[j]
}

/// What `Move { from, to }` does: relocate the filesystem entry and point
/// the indexed row (if one is indexed at `from`) at the new path.
pub open spec fn spec_move(d: StoreState, from: Seq<char>, to: Seq<char>) -> Result<
    StoreState,
    StoreError,
> {
    if has_file(d.files, from) && !has_file(d.files, to) {
        let fi = file_idx(d.files, from);
        let pi = photo_idx_by_path(d.photos, from);
        let photos2 = if pi >= 0 {
            d.photos.update(pi, PhotoV { path: to, ..d.photos[pi] })
        } else {
            d.photos
        };
        Ok(StoreState { files: d.files.update(fi, to), photos: photos2, ..d })
    } else if !has_file(d.files, from) && has_file(d.files, to) {
        // Source gone, target present: already applied; retrying is a no-op.
        Ok(d)
    } else {
        Err(StoreError::FilesystemConflict)
    }
}

/// What `Rename { path, new_name }` does: the entry keeps its directory and
/// takes the new name; the indexed row follows, filename included.
pub open spec fn spec_rename(d: StoreState, path: Seq<char>, new_name: Seq<char>) -> Result<
    StoreState,
    StoreError,
> {
    let np = rename_target_spec(path, new_name);
    if has_file(d.files, path) && (np == path || !has_file(d.files, np)) {
        let fi = file_idx(d.files, path);
        let pi = photo_idx_by_path(d.photos, path);
        let photos2 = if pi >= 0 {
            d.photos.update(pi, PhotoV { path: np, filename: new_name, ..d.photos[pi] })
        } else {
            d.photos
        };
        Ok(StoreState { files: d.files.update(fi, np), photos: photos2, ..d })
    } else if !has_file(d.files, path) && has_file(d.files, np) {
        Ok(d)
    } else {
        Err(StoreError::FilesystemConflict)
    }
}

/// What `Delete { path }` does: drop the entry and its row. A path already
/// gone is an applied delete, so this never refuses.
pub open spec fn spec_delete(d: StoreState, path: Seq<char>) -> Result<StoreState, StoreError> {
    if has_file(d.files, path) {
        let fi = file_idx(d.files, path);
        let pi = photo_idx_by_path(d.photos, path);
        let photos2 = if pi >= 0 {
            d.photos.remove(pi)
        } else {
            d.photos
        };
        Ok(StoreState { files: d.files.remove(fi), photos: photos2, ..d })
    } else {
        Ok(d)
    }
}

/// What `CreateAlbum { name }` does: insert under a fresh id, unless the
/// name is already taken, which is ignored.
pub open spec fn spec_create_album(d: StoreState, name: Seq<char>) -> Result<
    StoreState,
    StoreError,
> {
    if album_idx_by_name(d.albums, name) >= 0 {
        Ok(d)
    } else if d.next_album_id >= i64::MAX {
        Err(StoreError::LogicalConflict)
    } else {
        Ok(
            StoreState {
                albums: d.albums.push(AlbumV { id: d.next_album_id, name }),
                next_album_id: d.next_album_id + 1,
                ..d
            },
        )
    }
}

/// What `DeleteAlbum { album_id }` does: membership rows go first, then the
/// album row; deleting what is absent is a no-op.
pub open spec fn spec_delete_album(d: StoreState, album_id: int) -> Result<
    StoreState,
    StoreError,
> {
    let ai = album_idx_by_id(d.albums, album_id);
    let albums2 = if ai >= 0 {
        d.albums.remove(ai)
    } else {
        d.albums
    };
    Ok(
        StoreState {
            memberships: d.memberships.filter(member_outside_album(album_id)),
            albums: albums2,
            ..d
        },
    )
}

/// What `AttachToAlbum { photo_id, album_id }` does: both ends must exist;
/// the association is inserted once.
pub open spec fn spec_attach_album(d: StoreState, photo_id: int, album_id: int) -> Result<
    StoreState,
    StoreError,
> {
    if photo_idx_by_id(d.photos, photo_id) < 0 || album_idx_by_id(d.albums, album_id) < 0 {
        Err(StoreError::LogicalConflict)
    } else if d.memberships.contains((photo_id, album_id)) {
        Ok(d)
    } else {
        Ok(StoreState { memberships: d.memberships.push((photo_id, album_id)), ..d })
    }
}

/// What `AttachTag { photo_id, tag_name }` does: the photo must exist; the
/// tag is found or created atomically, then associated once.
pub open spec fn spec_attach_tag(d: StoreState, photo_id: int, tag_name: Seq<char>) -> Result<
    StoreState,
    StoreError,
> {
    if photo_idx_by_id(d.photos, photo_id) < 0 {
        Err(StoreError::LogicalConflict)
    } else {
        let ti = tag_idx_by_name(d.tags, tag_name);
        if ti >= 0 {
            let tid = d.tags[ti].id;
            if d.tag_links.contains((photo_id, tid)) {
                Ok(d)
            } else {
                Ok(StoreState { tag_links: d.tag_links.push((photo_id, tid)), ..d })
            }
        } else if d.next_tag_id >= i64::MAX {
            Err(StoreError::LogicalConflict)
        } else {
            Ok(
                StoreState {
                    tags: d.tags.push(TagV { id: d.next_tag_id, name: tag_name }),
                    tag_links: d.tag_links.push((photo_id, d.next_tag_id)),
                    next_tag_id: d.next_tag_id + 1,
                    ..d
                },
            )
        }
    }
}

/// What `AddPhoto { photo }` does: a path already indexed is kept as it is;
/// otherwise the row is inserted under a fresh id and the filesystem entry
/// is recorded if it was not yet.
pub open spec fn spec_add_photo(d: StoreState, meta: PhotoMetaV) -> Result<
    StoreState,
    StoreError,
> {
    if photo_idx_by_path(d.photos, meta.path) >= 0 {
        Ok(d)
    } else if d.next_photo_id >= i64::MAX {
        Err(StoreError::LogicalConflict)
    } else {
        let row = PhotoV {
            id: d.next_photo_id,
            path: meta.path,
            filename: meta.filename,
            file_hash: None,
            file_size: meta.file_size,
            date_taken: meta.date_taken,
            width: meta.width,
            height: meta.height,
            format: meta.format,
        };
        let files2 = if has_file(d.files, meta.path) {
            d.files
        } else {
            d.files.push(meta.path)
        };
        Ok(
            StoreState {
                photos: d.photos.push(row),
                files: files2,
                next_photo_id: d.next_photo_id + 1,
                ..d
            },
        )
    }
}

/// One transactional apply, as a function of the store's state and the
/// mutation alone: either the new state, or the refusal and no change.
pub open spec fn store_apply(d: StoreState, m: MutationV) -> Result<StoreState, StoreError> {
    match m {
        MutationV::Move { from, to } => spec_move(d, from, to),
        MutationV::Rename { path, new_name } => spec_rename(d, path, new_name),
        MutationV::Delete { path } => spec_delete(d, path),
        MutationV::CreateAlbum { name } => spec_create_album(d, name),
        MutationV::DeleteAlbum { album_id } => spec_delete_album(d, album_id),
        MutationV::AttachToAlbum { photo_id, album_id } => spec_attach_album(
            d,
            photo_id,
            album_id,
        ),
        MutationV::AttachTag { photo_id, tag_name } => spec_attach_tag(d, photo_id, tag_name),
        MutationV::AddPhoto { photo } => spec_add_photo(d, photo),
    }
}

/// One physical store: the relational index, the filesystem entries, the
/// id counters, and the store's own journal.
pub struct Store {
    pub photos: Vec<Photo>,
    pub albums: Vec<Album>,
    pub tags: Vec<Tag>,
    pub memberships: Vec<(i64, i64)>,
    pub tag_links: Vec<(i64, i64)>,
    pub files: Vec<String>,
    pub next_photo_id: i64,
    pub next_album_id: i64,
    pub next_tag_id: i64,
    /// The store-local operation log.
    pub log: OpLog,
}

impl Store {
    /// The store's observable content, minus the journal.
    pub open spec fn state(&self) -> StoreState {
        StoreState {
            photos: self.photos@.map_values(|p: Photo| p@),
            albums: self.albums@.map_values(|a: Album| a@),
            tags: self.tags@.map_values(|t: Tag| t@),
            memberships: self.memberships@.map_values(|mm: (i64, i64)| (mm.0 as int, mm.1 as int)),
            tag_links: self.tag_links@.map_values(|ll: (i64, i64)| (ll.0 as int, ll.1 as int)),
            files: self.files@.map_values(|f: String| f@),
            next_photo_id: self.next_photo_id as int,
            next_album_id: self.next_album_id as int,
            next_tag_id: self.next_tag_id as int,
        }
    }

    /// A store holding nothing, with an empty journal.
    pub fn new() -> (s: Store)
        ensures
            s.state() == empty_store(),
            s.log@ =~= Seq::<crate::oplog::LogEntryV>::empty(),
            s.log.wf(),
    {
        let s = Store {
            photos: Vec::new(),
            albums: Vec::new(),
            tags: Vec::new(),
            memberships: Vec::new(),
            tag_links: Vec::new(),
            files: Vec::new(),
            next_photo_id: 1,
            next_album_id: 1,
            next_tag_id: 1,
            log: OpLog::new(),
        };
        proof {
            assert(s.state() =~= empty_store());
        }
        s
    }

    /// First filesystem entry at `path`, if any.
    fn find_file(&self, path: &String) -> (r: Option<usize>)
        ensures
            match r {
                Some(i) => i < self.state().files.len() && file_idx(self.state().files, path@)
                    == i,
                None => file_idx(self.state().files, path@) == -1,
            },
    {
        let ghost fs = self.state().files;
        let mut i: usize = 0;
        while i < self.files.len()
            invariant
                i <= self.files@.len(),
                fs == self.state().files,
                fs.len() == self.files@.len(),
                forall|j: int| 0 <= j < i ==> !(file_is(path@)(fs[j])),
            decreases self.files@.len() - i,
        {
            if self.files[i] == *path {
                proof {
                    crate::seq_search::lemma_first_where_is(fs, file_is(path@), i as int);
                }
                return Some(i);
            }
            i = i + 1;
        }
        proof {
            crate::seq_search::lemma_first_where_none(fs, file_is(path@));
        }
        None
    }

    /// First photo row indexed at `path`, if any.
    fn find_photo_by_path(&self, path: &String) -> (r: Option<usize>)
        ensures
            match r {
                Some(i) => i < self.state().photos.len() && photo_idx_by_path(
                    self.state().photos,
                    path@,
                ) == i,
                None => photo_idx_by_path(self.state().photos, path@) == -1,
            },
    {
        let ghost ps = self.state().photos;
        let mut i: usize = 0;
        while i < self.photos.len()
            invariant
                i <= self.photos@.len(),
                ps == self.state().photos,
                ps.len() == self.photos@.len(),
                forall|j: int| 0 <= j < i ==> !(photo_has_path(path@)(ps[j])),
            decreases self.photos@.len() - i,
        {
            if self.photos[i].path == *path {
                proof {
                    crate::seq_search::lemma_first_where_is(ps, photo_has_path(path@), i as int);
                }
                return Some(i);
            }
            i = i + 1;
        }
        proof {
            crate::seq_search::lemma_first_where_none(ps, photo_has_path(path@));
        }
        None
    }

    /// First photo row with this id, if any.
    pub(crate) fn find_photo_by_id(&self, id: i64) -> (r: Option<usize>)
        ensures
            match r {
                Some(i) => i < self.state().photos.len() && photo_idx_by_id(
                    self.state().photos,
                    id as int,
                ) == i,
                None => photo_idx_by_id(self.state().photos, id as int) == -1,
            },
    {
        let ghost ps = self.state().photos;
        let mut i: usize = 0;
        while i < self.photos.len()
            invariant
                i <= self.photos@.len(),
                ps == self.state().photos,
                ps.len() == self.photos@.len(),
                forall|j: int| 0 <= j < i ==> !(photo_has_id(id as int)(ps[j])),
            decreases self.photos@.len() - i,
        {
            if self.photos[i].id == id {
                proof {
                    crate::seq_search::lemma_first_where_is(ps, photo_has_id(id as int), i as int);
                }
                return Some(i);
            }
            i = i + 1;
        }
        proof {
            crate::seq_search::lemma_first_where_none(ps, photo_has_id(id as int));
        }
        None
    }

    /// First album with this id, if any.
    fn find_album_by_id(&self, id: i64) -> (r: Option<usize>)
        ensures
            match r {
                Some(i) => i < self.state().albums.len() && album_idx_by_id(
                    self.state().albums,
                    id as int,
                ) == i,
                None => album_idx_by_id(self.state().albums, id as int) == -1,
            },
    {
        let ghost avs = self.state().albums;
        let mut i: usize = 0;
        while i < self.albums.len()
            invariant
                i <= self.albums@.len(),
                avs == self.state().albums,
                avs.len() == self.albums@.len(),
                forall|j: int| 0 <= j < i ==> !(album_has_id(id as int)(avs[j])),
            decreases self.albums@.len() - i,
        {
            if self.albums[i].id == id {
                proof {
                    crate::seq_search::lemma_first_where_is(avs, album_has_id(id as int), i as int);
                }
                return Some(i);
            }
            i = i + 1;
        }
        proof {
            crate::seq_search::lemma_first_where_none(avs, album_has_id(id as int));
        }
        None
    }

    /// First album with this name, if any.
    fn find_album_by_name(&self, name: &String) -> (r: Option<usize>)
        ensures
            match r {
                Some(i) => i < self.state().albums.len() && album_idx_by_name(
                    self.state().albums,
                    name@,
                ) == i,
                None => album_idx_by_name(self.state().albums, name@) == -1,
            },
    {
        let ghost avs = self.state().albums;
        let mut i: usize = 0;
        while i < self.albums.len()
            invariant
                i <= self.albums@.len(),
                avs == self.state().albums,
                avs.len() == self.albums@.len(),
                forall|j: int| 0 <= j < i ==> !(album_has_name(name@)(avs[j])),
            decreases self.albums@.len() - i,
        {
            if self.albums[i].name == *name {
                proof {
                    crate::seq_search::lemma_first_where_is(avs, album_has_name(name@), i as int);
                }
                return Some(i);
            }
            i = i + 1;
        }
        proof {
            crate::seq_search::lemma_first_where_none(avs, album_has_name(name@));
        }
        None
    }

    /// First tag with this name, if any.
    fn find_tag_by_name(&self, name: &String) -> (r: Option<usize>)
        ensures
            match r {
                Some(i) => i < self.state().tags.len() && tag_idx_by_name(
                    self.state().tags,
                    name@,
                ) == i,
                None => tag_idx_by_name(self.state().tags, name@) == -1,
            },
    {
        let ghost ts = self.state().tags;
        let mut i: usize = 0;
        while i < self.tags.len()
            invariant
                i <= self.tags@.len(),
                ts == self.state().tags,
                ts.len() == self.tags@.len(),
                forall|j: int| 0 <= j < i ==> !(tag_has_name(name@)(ts[j])),
            decreases self.tags@.len() - i,
        {
            if self.tags[i].name == *name {
                proof {
                    crate::seq_search::lemma_first_where_is(ts, tag_has_name(name@), i as int);
                }
                return Some(i);
            }
            i = i + 1;
        }
        proof {
            crate::seq_search::lemma_first_where_none(ts, tag_has_name(name@));
        }
        None
    }

    /// Whether the membership row `(photo_id, album_id)` is present.
    pub(crate) fn has_membership(&self, photo_id: i64, album_id: i64) -> (r: bool)
        ensures
            r == self.state().memberships.contains((photo_id as int, album_id as int)),
    {
        let ghost ms = self.state().memberships;
        let mut i: usize = 0;
        while i < self.memberships.len()
            invariant
                i <= self.memberships@.len(),
                ms == self.state().memberships,
                ms.len() == self.memberships@.len(),
                forall|j: int| 0 <= j < i ==> ms[j] != (photo_id as int, album_id as int),
            decreases self.memberships@.len() - i,
        {
            if self.memberships[i].0 == photo_id && self.memberships[i].1 == album_id {
                proof {
                    assert(ms[i as int] == (photo_id as int, album_id as int));
                }
                return true;
            }
            i = i + 1;
        }
        false
    }

    /// Apply one mutation transactionally: on success the store's state is
    /// exactly what [`store_apply`] says; on refusal the state is untouched
    /// and the reported error is the one `store_apply` assigns. The journal
    /// is not written here; the coordinator logs around the apply.
    pub fn apply(&mut self, m: &Mutation) -> (r: Result<(), StoreError>)
        ensures
            final(self).log == old(self).log,
            match store_apply(old(self).state(), m@) {
                Ok(d2) => r is Ok && final(self).state() == d2,
                Err(e) => r == Err::<(), StoreError>(e) && final(self).state() == old(
                    self,
                ).state(),
            },
    {
        match m {
            Mutation::Move { from, to } => self.apply_move(from, to),
            Mutation::Rename { path, new_name } => self.apply_rename(path, new_name),
            Mutation::Delete { path } => self.apply_delete(path),
            Mutation::CreateAlbum { name } => self.apply_create_album(name),
            Mutation::DeleteAlbum { album_id } => self.apply_delete_album(*album_id),
            Mutation::AttachToAlbum { photo_id, album_id } => self.apply_attach_album(
                *photo_id,
                *album_id,
            ),
            Mutation::AttachTag { photo_id, tag_name } => self.apply_attach_tag(
                *photo_id,
                tag_name,
            ),
            Mutation::AddPhoto { photo } => self.apply_add_photo(photo),
        }
    }

    fn apply_move(&mut self, from: &String, to: &String) -> (r: Result<(), StoreError>)
        ensures
            final(self).log == old(self).log,
            match spec_move(old(self).state(), from@, to@) {
                Ok(d2) => r is Ok && final(self).state() == d2,
                Err(e) => r == Err::<(), StoreError>(e) && final(self).state() == old(
                    self,
                ).state(),
            },
    {
        let ghost d = self.state();
        let fi_opt = self.find_file(from);
        let ti_opt = self.find_file(to);
        match (fi_opt, ti_opt) {
            (Some(fi), None) => {
                let pi_opt = self.find_photo_by_path(from);
                self.files.set(fi, to.clone());
                match pi_opt {
                    Some(pi) => {
                        let updated = Photo { path: to.clone(), ..self.photos[pi].duplicate() };
                        self.photos.set(pi, updated);
                    },
                    None => {},
                }
                proof {
                    let d2 = spec_move(d, from@, to@).unwrap();
                    assert(self.state().files =~= d2.files);
                    assert(self.state().photos =~= d2.photos);
                    assert(self.state() =~= d2);
                }
                Ok(())
            },
            (None, Some(_)) => Ok(()),
            _ => Err(StoreError::FilesystemConflict),
        }
    }

    fn apply_rename(&mut self, path: &String, new_name: &String) -> (r: Result<(), StoreError>)
        ensures
            final(self).log == old(self).log,
            match spec_rename(old(self).state(), path@, new_name@) {
                Ok(d2) => r is Ok && final(self).state() == d2,
                Err(e) => r == Err::<(), StoreError>(e) && final(self).state() == old(
                    self,
                ).state(),
            },
    {
        let ghost d = self.state();
        let np = crate::pathname::rename_target(path.as_str(), new_name.as_str());
        let fi_opt = self.find_file(path);
        let ni_opt = self.find_file(&np);
        let same = *path == np;
        match fi_opt {
            Some(fi) => {
                if same || ni_opt.is_none() {
                    let pi_opt = self.find_photo_by_path(path);
                    self.files.set(fi, np.clone());
                    match pi_opt {
                        Some(pi) => {
                            let updated = Photo {
                                path: np.clone(),
                                filename: new_name.clone(),
                                ..self.photos[pi].duplicate()
                            };
                            self.photos.set(pi, updated);
                        },
                        None => {},
                    }
                    proof {
                        let d2 = spec_rename(d, path@, new_name@).unwrap();
                        assert(self.state().files =~= d2.files);
                        assert(self.state().photos =~= d2.photos);
                        assert(self.state() =~= d2);
                    }
                    Ok(())
                } else {
                    Err(StoreError::FilesystemConflict)
                }
            },
            None => {
                if ni_opt.is_some() {
                    Ok(())
                } else {
                    Err(StoreError::FilesystemConflict)
                }
            },
        }
    }

    fn apply_delete(&mut self, path: &String) -> (r: Result<(), StoreError>)
        ensures
            final(self).log == old(self).log,
            match spec_delete(old(self).state(), path@) {
                Ok(d2) => r is Ok && final(self).state() == d2,
                Err(e) => r == Err::<(), StoreError>(e) && final(self).state() == old(
                    self,
                ).state(),
            },
    {
        let ghost d = self.state();
        match self.find_file(path) {
            Some(fi) => {
                let pi_opt = self.find_photo_by_path(path);
                self.files.remove(fi);
                match pi_opt {
                    Some(pi) => {
                        self.photos.remove(pi);
                    },
                    None => {},
                }
                proof {
                    let d2 = spec_delete(d, path@).unwrap();
                    assert(self.state().files =~= d2.files);
                    assert(self.state().photos =~= d2.photos);
                    assert(self.state() =~= d2);
                }
                Ok(())
            },
            None => Ok(()),
        }
    }

    fn apply_create_album(&mut self, name: &String) -> (r: Result<(), StoreError>)
        ensures
            final(self).log == old(self).log,
            match spec_create_album(old(self).state(), name@) {
                Ok(d2) => r is Ok && final(self).state() == d2,
                Err(e) => r == Err::<(), StoreError>(e) && final(self).state() == old(
                    self,
                ).state(),
            },
    {
        let ghost d = self.state();
        match self.find_album_by_name(name) {
            Some(_) => Ok(()),
            None => {
                if self.next_album_id >= i64::MAX {
                    Err(StoreError::LogicalConflict)
                } else {
                    let id = self.next_album_id;
                    self.albums.push(Album { id, name: name.clone() });
                    self.next_album_id = id + 1;
                    proof {
                        let d2 = spec_create_album(d, name@).unwrap();
                        assert(self.state().albums =~= d2.albums);
                        assert(self.state() =~= d2);
                    }
                    Ok(())
                }
            },
        }
    }

    fn apply_delete_album(&mut self, album_id: i64) -> (r: Result<(), StoreError>)
        ensures
            final(self).log == old(self).log,
            match spec_delete_album(old(self).state(), album_id as int) {
                Ok(d2) => r is Ok && final(self).state() == d2,
                Err(e) => r == Err::<(), StoreError>(e) && final(self).state() == old(
                    self,
                ).state(),
            },
    {
        let ghost d = self.state();
        let ghost keep = member_outside_album(album_id as int);
        let mut kept: Vec<(i64, i64)> = Vec::new();
        let mut i: usize = 0;
        while i < self.memberships.len()
            invariant
                i <= self.memberships@.len(),
                d == self.state(),
                d.memberships.len() == self.memberships@.len(),
                keep == member_outside_album(album_id as int),
                kept@.map_values(|mm: (i64, i64)| (mm.0 as int, mm.1 as int)) =~= d.memberships
                    .take(i as int).filter(keep),
            decreases self.memberships@.len() - i,
        {
            proof {
                reveal(Seq::filter);
                assert(d.memberships.take(i + 1).drop_last() =~= d.memberships.take(i as int));
                assert(d.memberships.take(i + 1).last() == d.memberships[i as int]);
            }
            let mm = self.memberships[i];
            if mm.1 != album_id {
                kept.push(mm);
                proof {
                    assert(kept@.map_values(|x: (i64, i64)| (x.0 as int, x.1 as int)) =~= d
                        .memberships.take(i + 1).filter(keep));
                }
            }
            i = i + 1;
        }
        proof {
            assert(d.memberships.take(d.memberships.len() as int) =~= d.memberships);
        }
        self.memberships = kept;
        match self.find_album_by_id(album_id) {
            Some(ai) => {
                self.albums.remove(ai);
            },
            None => {},
        }
        proof {
            let d2 = spec_delete_album(d, album_id as int).unwrap();
            assert(self.state().memberships =~= d2.memberships);
            assert(self.state().albums =~= d2.albums);
            assert(self.state() =~= d2);
        }
        Ok(())
    }

    fn apply_attach_album(&mut self, photo_id: i64, album_id: i64) -> (r: Result<
        (),
        StoreError,
    >)
        ensures
            final(self).log == old(self).log,
            match spec_attach_album(old(self).state(), photo_id as int, album_id as int) {
                Ok(d2) => r is Ok && final(self).state() == d2,
                Err(e) => r == Err::<(), StoreError>(e) && final(self).state() == old(
                    self,
                ).state(),
            },
    {
        let ghost d = self.state();
        if self.find_photo_by_id(photo_id).is_none() || self.find_album_by_id(album_id).is_none() {
            return Err(StoreError::LogicalConflict);
        }
        if self.has_membership(photo_id, album_id) {
            Ok(())
        } else {
            self.memberships.push((photo_id, album_id));
            proof {
                let d2 = spec_attach_album(d, photo_id as int, album_id as int).unwrap();
                assert(self.state().memberships =~= d2.memberships);
                assert(self.state() =~= d2);
            }
            Ok(())
        }
    }

    fn apply_attach_tag(&mut self, photo_id: i64, tag_name: &String) -> (r: Result<
        (),
        StoreError,
    >)
        ensures
            final(self).log == old(self).log,
            match spec_attach_tag(old(self).state(), photo_id as int, tag_name@) {
                Ok(d2) => r is Ok && final(self).state() == d2,
                Err(e) => r == Err::<(), StoreError>(e) && final(self).state() == old(
                    self,
                ).state(),
            },
    {
        let ghost d = self.state();
        if self.find_photo_by_id(photo_id).is_none() {
            return Err(StoreError::LogicalConflict);
        }
        match self.find_tag_by_name(tag_name) {
            Some(ti) => {
                let tid = self.tags[ti].id;
                if self.has_tag_link(photo_id, tid) {
                    Ok(())
                } else {
                    self.tag_links.push((photo_id, tid));
                    proof {
                        let d2 = spec_attach_tag(d, photo_id as int, tag_name@).unwrap();
                        assert(self.state().tag_links =~= d2.tag_links);
                        assert(self.state() =~= d2);
                    }
                    Ok(())
                }
            },
            None => {
                if self.next_tag_id >= i64::MAX {
                    Err(StoreError::LogicalConflict)
                } else {
                    let tid = self.next_tag_id;
                    self.tags.push(Tag { id: tid, name: tag_name.clone() });
                    self.tag_links.push((photo_id, tid));
                    self.next_tag_id = tid + 1;
                    proof {
                        let d2 = spec_attach_tag(d, photo_id as int, tag_name@).unwrap();
                        assert(self.state().tags =~= d2.tags);
                        assert(self.state().tag_links =~= d2.tag_links);
                        assert(self.state() =~= d2);
                    }
                    Ok(())
                }
            },
        }
    }

    fn apply_add_photo(&mut self, meta: &crate::mutation::PhotoMeta) -> (r: Result<
        (),
        StoreError,
    >)
        ensures
            final(self).log == old(self).log,
            match spec_add_photo(old(self).state(), meta@) {
                Ok(d2) => r is Ok && final(self).state() == d2,
                Err(e) => r == Err::<(), StoreError>(e) && final(self).state() == old(
                    self,
                ).state(),
            },
    {
        let ghost d = self.state();
        if self.find_photo_by_path(&meta.path).is_some() {
            return Ok(());
        }
        if self.next_photo_id >= i64::MAX {
            return Err(StoreError::LogicalConflict);
        }
        let file_missing = self.find_file(&meta.path).is_none();
        let id = self.next_photo_id;
        let row = Photo {
            id,
            path: meta.path.clone(),
            filename: meta.filename.clone(),
            file_hash: None,
            file_size: meta.file_size,
            date_taken: meta.date_taken,
            width: meta.width,
            height: meta.height,
            format: meta.format.clone(),
        };
        self.photos.push(row);
        if file_missing {
            self.files.push(meta.path.clone());
        }
        self.next_photo_id = id + 1;
        proof {
            let d2 = spec_add_photo(d, meta@).unwrap();
            assert(self.state().photos =~= d2.photos);
            assert(self.state().files =~= d2.files);
            assert(self.state() =~= d2);
        }
        Ok(())
    }

    /// Whether a photo row is indexed at this path; a scan checks this
    /// before submitting a discovery, so rescans leave no trace.
    pub fn has_photo_at(&self, path: &String) -> (r: bool)
        ensures
            r == (photo_idx_by_path(self.state().photos, path@) >= 0),
    {
        self.find_photo_by_path(path).is_some()
    }

    /// One page of the photo index, in index order. A negative offset reads
    /// from the front; a negative limit means no limit.
    pub fn get_photos(&self, limit: i64, offset: i64) -> (r: Vec<Photo>)
        ensures
            ({
                let ps = self.state().photos;
                let start = page_start(ps.len() as int, offset as int);
                let end = page_end(ps.len() as int, limit as int, start);
                r@.map_values(|p: Photo| p@) == ps.subrange(start, end)
            }),
    {
        let ghost ps = self.state().photos;
        let len = self.photos.len();
        let start: usize = if offset < 0 {
            0
        } else if offset as u64 >= len as u64 {
            len
        } else {
            offset as usize
        };
        let end: usize = if limit < 0 {
            len
        } else {
            let remaining = len - start;
            if limit as u64 >= remaining as u64 {
                len
            } else {
                start + (limit as usize)
            }
        };
        proof {
            assert(start as int == page_start(ps.len() as int, offset as int));
            assert(end as int == page_end(ps.len() as int, limit as int, start as int));
        }
        let mut r: Vec<Photo> = Vec::new();
        let mut i = start;
        while i < end
            invariant
                start <= i <= end <= self.photos@.len(),
                ps == self.state().photos,
                ps.len() == self.photos@.len(),
                r@.len() == i - start,
                r@.map_values(|p: Photo| p@) =~= ps.subrange(start as int, i as int),
            decreases end - i,
        {
            let p = self.photos[i].duplicate();
            r.push(p);
            proof {
                assert(r@.map_values(|p: Photo| p@) =~= ps.subrange(start as int, i + 1));
            }
            i = i + 1;
        }
        r
    }

    /// The photo with this id, or a conflict when no row has it.
    pub fn get_photo_by_id(&self, photo_id: i64) -> (r: Result<Photo, StoreError>)
        ensures
            ({
                let ps = self.state().photos;
                let pi = photo_idx_by_id(ps, photo_id as int);
                match r {
                    Ok(p) => pi >= 0 && p@ == ps[pi],
                    Err(e) => pi < 0 && e == StoreError::LogicalConflict,
                }
            }),
    {
        match self.find_photo_by_id(photo_id) {
            Some(i) => Ok(self.photos[i].duplicate()),
            None => Err(StoreError::LogicalConflict),
        }
    }

    /// Every photo the album holds, in index order.
    pub fn get_photos_by_album_id(&self, album_id: i64) -> (r: Vec<Photo>)
        ensures
            r@.map_values(|p: Photo| p@) == self.state().photos.filter(
                photo_in_album(self.state().memberships, album_id as int),
            ),
    {
        let ghost ps = self.state().photos;
        let ghost keep = photo_in_album(self.state().memberships, album_id as int);
        let mut r: Vec<Photo> = Vec::new();
        let mut i: usize = 0;
        while i < self.photos.len()
            invariant
                i <= self.photos@.len(),
                ps == self.state().photos,
                keep == photo_in_album(self.state().memberships, album_id as int),
                ps.len() == self.photos@.len(),
                r@.map_values(|p: Photo| p@) =~= ps.take(i as int).filter(keep),
            decreases self.photos@.len() - i,
        {
            proof {
                reveal(Seq::filter);
                assert(ps.take(i + 1).drop_last() =~= ps.take(i as int));
                assert(ps.take(i + 1).last() == ps[i as int]);
            }
            let pid = self.photos[i].id;
            if self.has_membership(pid, album_id) {
                let p = self.photos[i].duplicate();
                r.push(p);
                proof {
                    assert(r@.map_values(|p: Photo| p@) =~= ps.take(i + 1).filter(keep));
                }
            }
            i = i + 1;
        }
        proof {
            assert(ps.take(ps.len() as int) =~= ps);
        }
        r
    }

    /// Every album, in creation order.
    pub fn get_albums(&self) -> (r: Vec<Album>)
        ensures
            r@.map_values(|a: Album| a@) == self.state().albums,
    {
        let ghost avs = self.state().albums;
        let mut r: Vec<Album> = Vec::new();
        let mut i: usize = 0;
        while i < self.albums.len()
            invariant
                i <= self.albums@.len(),
                avs == self.state().albums,
                avs.len() == self.albums@.len(),
                r@.len() == i,
                r@.map_values(|a: Album| a@) =~= avs.take(i as int),
            decreases self.albums@.len() - i,
        {
            let a = self.albums[i].duplicate();
            r.push(a);
            proof {
                assert(r@.map_values(|a: Album| a@) =~= avs.take(i + 1));
            }
            i = i + 1;
        }
        proof {
            assert(avs.take(avs.len() as int) =~= avs);
        }
        r
    }

    /// Whether the tag association `(photo_id, tag_id)` is present.
    pub(crate) fn has_tag_link(&self, photo_id: i64, tag_id: i64) -> (r: bool)
        ensures
            r == self.state().tag_links.contains((photo_id as int, tag_id as int)),
    {
        let ghost ls = self.state().tag_links;
        let mut i: usize = 0;
        while i < self.tag_links.len()
            invariant
                i <= self.tag_links@.len(),
                ls == self.state().tag_links,
                ls.len() == self.tag_links@.len(),
                forall|j: int| 0 <= j < i ==> ls[j] != (photo_id as int, tag_id as int),
            decreases self.tag_links@.len() - i,
        {
            if self.tag_links[i].0 == photo_id && self.tag_links[i].1 == tag_id {
                proof {
                    assert(ls[i as int] == (photo_id as int, tag_id as int));
                }
                return true;
            }
            i = i + 1;
        }
        false
    }
}

} // verus!
