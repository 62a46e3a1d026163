use photovault::errors::StoreError;
use photovault::mutation::{Mutation, PhotoMeta};
use photovault::oplog::{LogStatus, OpLog};
use photovault::store::Store;

fn meta(path: &str, name: &str, size: i64) -> PhotoMeta {
    PhotoMeta {
        path: path.to_string(),
        filename: name.to_string(),
        file_size: Some(size),
        date_taken: None,
        width: None,
        height: None,
        format: "jpeg".to_string(),
    }
}

#[test]
fn test_add_photo_assigns_monotonic_ids_and_ignores_known_path() {
    let mut s = Store::new();
    assert!(s.apply(&Mutation::AddPhoto { photo: meta("a.jpg", "a.jpg", 1) }).is_ok());
    assert!(s.apply(&Mutation::AddPhoto { photo: meta("b.jpg", "b.jpg", 2) }).is_ok());
    // Same path again: insert-or-ignore keeps the first row.
    assert!(s.apply(&Mutation::AddPhoto { photo: meta("a.jpg", "other.jpg", 9) }).is_ok());
    let photos = s.get_photos(-1, 0);
    assert_eq!(photos.len(), 2);
    assert_eq!(photos[0].id, 1);
    assert_eq!(photos[1].id, 2);
    assert_eq!(photos[0].filename, "a.jpg");
}

#[test]
fn test_move_updates_path_and_refuses_conflicts() {
    let mut s = Store::new();
    assert!(s.apply(&Mutation::AddPhoto { photo: meta("a.jpg", "a.jpg", 1) }).is_ok());
    let mv = Mutation::Move { from: "a.jpg".to_string(), to: "dir/a.jpg".to_string() };
    assert!(s.apply(&mv).is_ok());
    assert_eq!(s.get_photos(-1, 0)[0].path, "dir/a.jpg");
    // Source missing and target absent: a genuine conflict.
    let bad = Mutation::Move { from: "ghost.jpg".to_string(), to: "x.jpg".to_string() };
    assert_eq!(s.apply(&bad), Err(StoreError::FilesystemConflict));
}

#[test]
fn test_rename_keeps_directory() {
    let mut s = Store::new();
    assert!(s.apply(&Mutation::AddPhoto { photo: meta("dir/a.jpg", "a.jpg", 1) }).is_ok());
    let rn = Mutation::Rename { path: "dir/a.jpg".to_string(), new_name: "b.jpg".to_string() };
    assert!(s.apply(&rn).is_ok());
    let photos = s.get_photos(-1, 0);
    assert_eq!(photos[0].path, "dir/b.jpg");
    assert_eq!(photos[0].filename, "b.jpg");
    assert!(s.files.contains(&"dir/b.jpg".to_string()));
    assert!(!s.files.contains(&"dir/a.jpg".to_string()));
}

#[test]
fn test_idempotent_retry_of_filesystem_mutations() {
    // P4 on concrete values: replaying a completed Move, Rename or Delete
    // succeeds and changes nothing further.
    let mut s = Store::new();
    assert!(s.apply(&Mutation::AddPhoto { photo: meta("a.jpg", "a.jpg", 1) }).is_ok());

    let mv = Mutation::Move { from: "a.jpg".to_string(), to: "b.jpg".to_string() };
    assert!(s.apply(&mv).is_ok());
    let files_after = s.files.clone();
    assert!(s.apply(&mv).is_ok());
    assert_eq!(s.files, files_after);

    let rn = Mutation::Rename { path: "b.jpg".to_string(), new_name: "c.jpg".to_string() };
    assert!(s.apply(&rn).is_ok());
    let files_after = s.files.clone();
    assert!(s.apply(&rn).is_ok());
    assert_eq!(s.files, files_after);

    let del = Mutation::Delete { path: "c.jpg".to_string() };
    assert!(s.apply(&del).is_ok());
    assert!(s.apply(&del).is_ok());
    assert!(s.files.is_empty());
    assert!(s.get_photos(-1, 0).is_empty());
}

#[test]
fn test_create_album_ignores_duplicate_name() {
    let mut s = Store::new();
    assert!(s.apply(&Mutation::CreateAlbum { name: "A".to_string() }).is_ok());
    assert!(s.apply(&Mutation::CreateAlbum { name: "A".to_string() }).is_ok());
    assert_eq!(s.get_albums().len(), 1);
}

#[test]
fn test_delete_album_cascades_memberships() {
    let mut s = Store::new();
    assert!(s.apply(&Mutation::AddPhoto { photo: meta("a.jpg", "a.jpg", 1) }).is_ok());
    assert!(s.apply(&Mutation::CreateAlbum { name: "A".to_string() }).is_ok());
    assert!(s.apply(&Mutation::AttachToAlbum { photo_id: 1, album_id: 1 }).is_ok());
    assert_eq!(s.get_photos_by_album_id(1).len(), 1);
    assert!(s.apply(&Mutation::DeleteAlbum { album_id: 1 }).is_ok());
    assert!(s.get_albums().is_empty());
    assert!(s.memberships.is_empty());
    // Deleting it again is a no-op success.
    assert!(s.apply(&Mutation::DeleteAlbum { album_id: 1 }).is_ok());
}

#[test]
fn test_attach_to_album_requires_both_ends() {
    let mut s = Store::new();
    assert_eq!(
        s.apply(&Mutation::AttachToAlbum { photo_id: 1, album_id: 1 }),
        Err(StoreError::LogicalConflict)
    );
    assert!(s.apply(&Mutation::AddPhoto { photo: meta("a.jpg", "a.jpg", 1) }).is_ok());
    assert_eq!(
        s.apply(&Mutation::AttachToAlbum { photo_id: 1, album_id: 1 }),
        Err(StoreError::LogicalConflict)
    );
    assert!(s.apply(&Mutation::CreateAlbum { name: "A".to_string() }).is_ok());
    assert!(s.apply(&Mutation::AttachToAlbum { photo_id: 1, album_id: 1 }).is_ok());
    // Attaching again is ignored.
    assert!(s.apply(&Mutation::AttachToAlbum { photo_id: 1, album_id: 1 }).is_ok());
    assert_eq!(s.memberships.len(), 1);
}

#[test]
fn test_attach_tag_finds_or_creates() {
    let mut s = Store::new();
    assert!(s.apply(&Mutation::AddPhoto { photo: meta("a.jpg", "a.jpg", 1) }).is_ok());
    assert!(s.apply(&Mutation::AddPhoto { photo: meta("b.jpg", "b.jpg", 2) }).is_ok());
    let t1 = Mutation::AttachTag { photo_id: 1, tag_name: "sea".to_string() };
    let t2 = Mutation::AttachTag { photo_id: 2, tag_name: "sea".to_string() };
    assert!(s.apply(&t1).is_ok());
    assert!(s.apply(&t2).is_ok());
    // One tag, two associations.
    assert_eq!(s.tags.len(), 1);
    assert_eq!(s.tag_links.len(), 2);
    // A missing photo is a conflict.
    assert_eq!(
        s.apply(&Mutation::AttachTag { photo_id: 9, tag_name: "sea".to_string() }),
        Err(StoreError::LogicalConflict)
    );
}

#[test]
fn test_get_photos_pagination() {
    let mut s = Store::new();
    for i in 0..5i64 {
        let path = format!("p{}.jpg", i);
        assert!(s.apply(&Mutation::AddPhoto { photo: meta(&path, &path, i) }).is_ok());
    }
    assert_eq!(s.get_photos(2, 1).len(), 2);
    assert_eq!(s.get_photos(2, 1)[0].id, 2);
    assert_eq!(s.get_photos(-1, 0).len(), 5);
    assert_eq!(s.get_photos(10, 3).len(), 2);
    assert_eq!(s.get_photos(2, 9).len(), 0);
    assert_eq!(s.get_photos(0, 0).len(), 0);
    assert_eq!(s.get_photos(3, -2).len(), 3);
}

#[test]
fn test_has_photo_at() {
    let mut s = Store::new();
    assert!(!s.has_photo_at(&"a.jpg".to_string()));
    assert!(s.apply(&Mutation::AddPhoto { photo: meta("a.jpg", "a.jpg", 1) }).is_ok());
    assert!(s.has_photo_at(&"a.jpg".to_string()));
    assert!(!s.has_photo_at(&"b.jpg".to_string()));
}

#[test]
fn test_get_photo_by_id() {
    let mut s = Store::new();
    assert!(s.apply(&Mutation::AddPhoto { photo: meta("a.jpg", "a.jpg", 1) }).is_ok());
    let p = s.get_photo_by_id(1).unwrap();
    assert_eq!(p.path, "a.jpg");
    assert_eq!(s.get_photo_by_id(2).unwrap_err(), StoreError::LogicalConflict);
}

#[test]
fn test_oplog_is_append_only_with_position_ids() {
    let mut log = OpLog::new();
    let m = Mutation::CreateAlbum { name: "A".to_string() };
    let id0 = log.append_pending(&m, "t0".to_string());
    log.mark_last(LogStatus::Completed);
    let id1 = log.append_pending(&m, "t1".to_string());
    log.mark_last(LogStatus::Failed);
    assert_eq!(id0, 0);
    assert_eq!(id1, 1);
    assert_eq!(log.len(), 2);
    assert_eq!(log.entry(0).id, 0);
    assert_eq!(log.entry(1).id, 1);
    assert_eq!(log.entry(0).status, LogStatus::Completed);
    assert_eq!(log.entry(1).status, LogStatus::Failed);
    assert_eq!(log.count_with_status(LogStatus::Completed), 1);
    assert_eq!(log.count_with_status(LogStatus::Failed), 1);
    assert_eq!(log.count_with_status(LogStatus::Pending), 0);
}

#[test]
fn test_store_error_retryability() {
    assert!(StoreError::StoreUnreachable.is_retryable());
    assert!(!StoreError::LogicalConflict.is_retryable());
    assert!(!StoreError::FilesystemConflict.is_retryable());
    assert_eq!(StoreError::StoreUnreachable.message(), "store unreachable");
}
