use photovault::engine::SyncEngine;
use photovault::errors::{StoreError, SyncError};
use photovault::mutation::{Mutation, PhotoMeta};
use photovault::oplog::LogStatus;
use photovault::store::Store;

fn meta(path: &str, name: &str, size: i64) -> PhotoMeta {
    PhotoMeta {
        path: path.to_string(),
        filename: name.to_string(),
        file_size: Some(size),
        date_taken: None,
        width: None,
        height: None,
        format: "jpeg".to_string(),
    }
}

fn create_album(name: &str) -> Mutation {
    Mutation::CreateAlbum { name: name.to_string() }
}

#[test]
fn test_execute_operation_successfully() {
    let mut engine = SyncEngine::new(Store::new(), Some(Store::new()));
    let result = engine.submit(&create_album("Test Album"), true);
    assert!(result.is_ok());
}

#[test]
fn test_backup_disconnected_queues_operation() {
    let mut engine = SyncEngine::new(Store::new(), None);
    // The primary committed, so the caller sees success; the mutation waits
    // in the queue for a backup to be attached.
    let result = engine.submit(&create_album("Test Album"), false);
    assert!(result.is_ok());
    assert_eq!(engine.queue_depth(), 1);
}

#[test]
fn test_flush_queue_on_reconnect() {
    let mut engine = SyncEngine::new(Store::new(), None);
    let _ = engine.submit(&create_album("Test Album"), false);
    assert_eq!(engine.queue_depth(), 1);

    // "Reconnect" by building a coordinator around a backup and carrying the
    // queue over.
    let mut reconnected = SyncEngine::new(Store::new(), Some(Store::new()));
    reconnected.queue = engine.queue;
    let flush_result = reconnected.flush(true);
    assert!(flush_result.is_ok());
    assert_eq!(reconnected.queue_depth(), 0);
}

#[test]
fn test_sync_engine_queueing() {
    let mut engine = SyncEngine::new(Store::new(), Some(Store::new()));
    // The backup is configured but unreachable: the submission succeeds on
    // the primary and is queued.
    let result = engine.submit(&create_album("Test Album"), false);
    assert!(result.is_ok());
    assert_eq!(engine.queue_depth(), 1);

    let flushed = engine.flush(true);
    assert!(flushed.is_ok());
    assert_eq!(engine.queue_depth(), 0);
}

#[test]
fn test_integration_sequence_of_operations() {
    let mut engine = SyncEngine::new(Store::new(), Some(Store::new()));

    let ops = vec![
        Mutation::AddPhoto { photo: meta("import/photo1.jpg", "photo1.jpg", 9) },
        Mutation::CreateAlbum { name: "Vacation".to_string() },
        Mutation::Move {
            from: "import/photo1.jpg".to_string(),
            to: "photos/photo1.jpg".to_string(),
        },
        Mutation::Rename {
            path: "photos/photo1.jpg".to_string(),
            new_name: "photo_renamed.jpg".to_string(),
        },
    ];
    for op in &ops {
        assert!(engine.submit(op, true).is_ok());
    }
    assert!(!engine.primary.files.contains(&"photos/photo1.jpg".to_string()));
    assert!(engine.primary.files.contains(&"photos/photo_renamed.jpg".to_string()));
    let backup = engine.backup.as_ref().unwrap();
    assert!(!backup.files.contains(&"photos/photo1.jpg".to_string()));
    assert!(backup.files.contains(&"photos/photo_renamed.jpg".to_string()));

    let delete = Mutation::Delete { path: "photos/photo_renamed.jpg".to_string() };
    assert!(engine.submit(&delete, true).is_ok());
    assert!(!engine.primary.files.contains(&"photos/photo_renamed.jpg".to_string()));
    let backup = engine.backup.as_ref().unwrap();
    assert!(!backup.files.contains(&"photos/photo_renamed.jpg".to_string()));

    // Every attempted mutation completed, on each store's own journal.
    assert_eq!(engine.primary.log.count_with_status(LogStatus::Completed), 5);
    assert_eq!(backup.log.count_with_status(LogStatus::Completed), 5);
    assert_eq!(engine.primary.log.count_with_status(LogStatus::Pending), 0);
}

#[test]
fn test_primary_authority() {
    // P1 on concrete values: the primary commits, the backup is down, the
    // caller still sees success.
    let mut engine = SyncEngine::new(Store::new(), Some(Store::new()));
    let result = engine.submit(&create_album("Anywhere"), false);
    assert!(result.is_ok());
}

#[test]
fn test_primary_failure_is_surfaced_and_not_queued() {
    let mut engine = SyncEngine::new(Store::new(), Some(Store::new()));
    let bad = Mutation::AttachToAlbum { photo_id: 7, album_id: 3 };
    let result = engine.submit(&bad, true);
    assert_eq!(result, Err(SyncError::PrimaryFailed(StoreError::LogicalConflict)));
    assert_eq!(engine.queue_depth(), 0);
    assert_eq!(engine.primary.log.count_with_status(LogStatus::Failed), 1);
}

#[test]
fn test_no_silent_loss() {
    // P2 on concrete values: primary succeeds, the backup refuses (it never
    // saw the album), and the mutation sits in the queue when submit returns.
    let mut engine = SyncEngine::new(Store::new(), Some(Store::new()));
    assert!(engine.submit(&create_album("Vacation"), false).is_ok());
    assert_eq!(engine.queue_depth(), 1);
    match &engine.queue[0] {
        Mutation::CreateAlbum { name } => assert_eq!(name, "Vacation"),
        other => panic!("queued something else: {:?}", other),
    }
}

#[test]
fn test_fifo_convergence_after_reconnect() {
    // P3 on concrete values: a burst submitted while the backup is down,
    // then one flush, leaves the backup's contents equal to the primary's.
    let mut engine = SyncEngine::new(Store::new(), Some(Store::new()));
    let burst = vec![
        Mutation::AddPhoto { photo: meta("a.jpg", "a.jpg", 1) },
        Mutation::CreateAlbum { name: "Trip".to_string() },
        Mutation::Rename { path: "a.jpg".to_string(), new_name: "b.jpg".to_string() },
        Mutation::AttachTag { photo_id: 1, tag_name: "sea".to_string() },
    ];
    for op in &burst {
        assert!(engine.submit(op, false).is_ok());
    }
    assert_eq!(engine.queue_depth(), 4);
    let report = engine.flush(true).unwrap();
    assert_eq!(report.mirrored, 4);
    assert_eq!(report.remaining, 0);
    assert_eq!(engine.queue_depth(), 0);

    let backup = engine.backup.as_ref().unwrap();
    assert_eq!(backup.files, engine.primary.files);
    assert_eq!(backup.tag_links, engine.primary.tag_links);
    assert_eq!(backup.memberships, engine.primary.memberships);
    assert_eq!(backup.get_albums().len(), 1);
    assert_eq!(backup.get_photos(-1, 0).len(), 1);
    assert_eq!(backup.get_photos(-1, 0)[0].filename, "b.jpg");
    assert_eq!(engine.primary.get_photos(-1, 0)[0].filename, "b.jpg");
}

#[test]
fn test_ordering_under_partial_flush_failure() {
    // P5 on concrete values: three queued mutations, the second refuses on
    // the backup; the flush mirrors one, stops, and keeps the refused one
    // and everything behind it in order.
    let mut backup = Store::new();
    // The backup diverged: it already holds a file where the move wants to
    // land, so the second mutation will refuse there.
    assert!(backup
        .apply(&Mutation::AddPhoto { photo: meta("moved.jpg", "moved.jpg", 1) })
        .is_ok());

    let mut engine = SyncEngine::new(Store::new(), Some(backup));
    let m1 = Mutation::AddPhoto { photo: meta("one.jpg", "one.jpg", 1) };
    let m2 = Mutation::Move { from: "one.jpg".to_string(), to: "moved.jpg".to_string() };
    let m3 = Mutation::CreateAlbum { name: "Later".to_string() };
    assert!(engine.submit(&m1, false).is_ok());
    assert!(engine.submit(&m2, false).is_ok());
    assert!(engine.submit(&m3, false).is_ok());
    assert_eq!(engine.queue_depth(), 3);

    let report = engine.flush(true).unwrap();
    assert_eq!(report.mirrored, 1);
    assert_eq!(report.remaining, 2);
    assert_eq!(engine.queue_depth(), 2);
    match &engine.queue[0] {
        Mutation::Move { from, to } => {
            assert_eq!(from, "one.jpg");
            assert_eq!(to, "moved.jpg");
        },
        other => panic!("queue head reordered: {:?}", other),
    }
    match &engine.queue[1] {
        Mutation::CreateAlbum { name } => assert_eq!(name, "Later"),
        other => panic!("queue tail reordered: {:?}", other),
    }
    let backup = engine.backup.as_ref().unwrap();
    assert_eq!(backup.log.count_with_status(LogStatus::Completed), 1);
    assert_eq!(backup.log.count_with_status(LogStatus::Failed), 1);
}

#[test]
fn test_scenario_create_album_with_backup_reachable() {
    let mut engine = SyncEngine::new(Store::new(), Some(Store::new()));
    assert!(engine.submit(&create_album("Vacation"), true).is_ok());
    let primary_albums = engine.primary.get_albums();
    let backup_albums = engine.backup.as_ref().unwrap().get_albums();
    assert_eq!(primary_albums.len(), 1);
    assert_eq!(primary_albums[0].name, "Vacation");
    assert_eq!(backup_albums.len(), 1);
    assert_eq!(backup_albums[0].name, "Vacation");
    assert_eq!(engine.queue_depth(), 0);
}

#[test]
fn test_scenario_delete_while_backup_down() {
    let mut engine = SyncEngine::new(Store::new(), Some(Store::new()));
    let add = Mutation::AddPhoto { photo: meta("photos/a.jpg", "a.jpg", 3) };
    assert!(engine.submit(&add, true).is_ok());

    // Disconnect, delete: the primary loses the row and file, the backup
    // still has them, the queue holds the delete.
    let delete = Mutation::Delete { path: "photos/a.jpg".to_string() };
    assert!(engine.submit(&delete, false).is_ok());
    assert!(!engine.primary.files.contains(&"photos/a.jpg".to_string()));
    assert!(engine.primary.get_photos(-1, 0).is_empty());
    assert_eq!(engine.queue_depth(), 1);
    assert!(engine.backup.as_ref().unwrap().files.contains(&"photos/a.jpg".to_string()));

    // Reconnect and flush: the backup catches up.
    let report = engine.flush(true).unwrap();
    assert_eq!(report.mirrored, 1);
    assert_eq!(engine.queue_depth(), 0);
    assert!(!engine.backup.as_ref().unwrap().files.contains(&"photos/a.jpg".to_string()));
}

#[test]
fn test_scenario_two_renames_keep_order() {
    let mut engine = SyncEngine::new(Store::new(), Some(Store::new()));
    let add = Mutation::AddPhoto { photo: meta("a.jpg", "a.jpg", 3) };
    assert!(engine.submit(&add, true).is_ok());

    let r1 = Mutation::Rename { path: "a.jpg".to_string(), new_name: "b.jpg".to_string() };
    let r2 = Mutation::Rename { path: "b.jpg".to_string(), new_name: "c.jpg".to_string() };
    assert!(engine.submit(&r1, false).is_ok());
    assert!(engine.submit(&r2, false).is_ok());
    assert_eq!(engine.queue_depth(), 2);

    // Applied in reverse order the second rename would refuse on the backup
    // (no "b.jpg" there yet); in order, both land.
    let report = engine.flush(true).unwrap();
    assert_eq!(report.mirrored, 2);
    assert_eq!(report.remaining, 0);
    let backup = engine.backup.as_ref().unwrap();
    assert!(backup.files.contains(&"c.jpg".to_string()));
    assert!(!backup.files.contains(&"a.jpg".to_string()));
    assert!(!backup.files.contains(&"b.jpg".to_string()));
    assert_eq!(backup.files, engine.primary.files);
}

#[test]
fn test_flush_without_backup_is_noop_success() {
    let mut engine = SyncEngine::new(Store::new(), None);
    assert!(engine.submit(&create_album("A"), false).is_ok());
    let report = engine.flush(true).unwrap();
    assert_eq!(report.mirrored, 0);
    assert_eq!(report.remaining, 1);
    assert_eq!(engine.queue_depth(), 1);
}

#[test]
fn test_flush_with_backup_unreachable_keeps_queue() {
    let mut engine = SyncEngine::new(Store::new(), Some(Store::new()));
    assert!(engine.submit(&create_album("A"), false).is_ok());
    let report = engine.flush(false).unwrap();
    assert_eq!(report.mirrored, 0);
    assert_eq!(report.remaining, 1);
    assert_eq!(engine.queue_depth(), 1);
}

#[test]
fn test_backup_never_skips_the_queue() {
    // With mutations still queued, a reachable backup is not handed the new
    // mutation directly: it must wait its turn so the backup always holds a
    // prefix of the primary's history.
    let mut engine = SyncEngine::new(Store::new(), Some(Store::new()));
    engine.submit(&create_album("A"), false).unwrap();
    engine.submit(&create_album("B"), true).unwrap();
    assert_eq!(engine.queue_depth(), 2);
    assert!(engine.backup.as_ref().unwrap().get_albums().is_empty());

    let report = engine.flush(true).unwrap();
    assert_eq!(report.mirrored, 2);
    let names: Vec<String> = engine
        .backup
        .as_ref()
        .unwrap()
        .get_albums()
        .iter()
        .map(|a| a.name.clone())
        .collect();
    assert_eq!(names, vec!["A".to_string(), "B".to_string()]);
}

#[test]
fn test_flush_of_empty_queue_is_noop_success() {
    let mut engine = SyncEngine::new(Store::new(), Some(Store::new()));
    let report = engine.flush(true).unwrap();
    assert_eq!(report.mirrored, 0);
    assert_eq!(report.remaining, 0);
}

#[test]
fn test_queue_status_reports_depth_and_busy() {
    let mut engine = SyncEngine::new(Store::new(), None);
    assert!(!engine.is_busy());
    let status = engine.queue_status();
    assert_eq!(status.pending_operations, 0);
    assert!(!status.is_sync_in_progress);
    let _ = engine.submit(&create_album("A"), false);
    let status = engine.queue_status();
    assert_eq!(status.pending_operations, 1);
    assert!(!status.is_sync_in_progress);
}

#[test]
fn test_create_album() {
    let mut engine = SyncEngine::new(Store::new(), None);
    let album_name = "Test Album".to_string();
    engine.submit(&Mutation::CreateAlbum { name: album_name.clone() }, false).unwrap();
    let albums = engine.primary.get_albums();
    assert_eq!(albums.len(), 1);
    assert_eq!(albums[0].name, album_name);
}

#[test]
fn test_add_photos_to_album() {
    let mut engine = SyncEngine::new(Store::new(), None);
    engine
        .submit(&Mutation::AddPhoto { photo: meta("test_photo.jpg", "photo.jpg", 100) }, false)
        .unwrap();
    engine.submit(&Mutation::CreateAlbum { name: "Test Album".to_string() }, false).unwrap();
    let photo_id = engine.primary.get_photos(-1, 0)[0].id;
    let album_id = engine.primary.get_albums()[0].id;
    engine.submit(&Mutation::AttachToAlbum { photo_id, album_id }, false).unwrap();
    let members = engine.primary.get_photos_by_album_id(album_id);
    assert_eq!(members.len(), 1);
    assert_eq!(members[0].id, photo_id);
}

#[test]
fn test_delete_album() {
    let mut engine = SyncEngine::new(Store::new(), None);
    engine.submit(&Mutation::CreateAlbum { name: "Test Album".to_string() }, false).unwrap();
    let album_id = engine.primary.get_albums()[0].id;
    engine.submit(&Mutation::DeleteAlbum { album_id }, false).unwrap();
    assert_eq!(engine.primary.get_albums().len(), 0);
}
