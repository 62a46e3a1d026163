use photovault::config::AppConfig;
use photovault::duplicates::DuplicateDetector;
use photovault::file_ops::FileOperationService;
use photovault::filter::{filter_photos, search_photos, FilterCriteria};
use photovault::mutation::{Mutation, PhotoMeta};
use photovault::pathname::rename_target;
use photovault::store::Store;
use photovault::tags::TagService;

fn meta_full(
    path: &str,
    name: &str,
    size: i64,
    date: Option<i64>,
    width: Option<i64>,
    height: Option<i64>,
) -> PhotoMeta {
    PhotoMeta {
        path: path.to_string(),
        filename: name.to_string(),
        file_size: Some(size),
        date_taken: date,
        width,
        height,
        format: "jpeg".to_string(),
    }
}

fn store_with_three_photos() -> Store {
    let mut s = Store::new();
    let a = meta_full("a/sunset.jpg", "sunset.jpg", 10, Some(100), Some(800), Some(600));
    let b = meta_full("b/beach.jpg", "beach.jpg", 20, Some(200), Some(1920), Some(1080));
    let c = meta_full("c/notes.png", "notes.png", 30, None, None, None);
    for m in [a, b, c] {
        s.apply(&Mutation::AddPhoto { photo: m }).unwrap();
    }
    s
}

#[test]
fn test_filter_by_query_substring() {
    let s = store_with_three_photos();
    let mut c = FilterCriteria::none();
    c.query = Some("each".to_string());
    let r = filter_photos(&s, &c);
    assert_eq!(r.len(), 1);
    assert_eq!(r[0].filename, "beach.jpg");
    // An empty fragment selects everything.
    let r = search_photos(&s, String::new());
    assert_eq!(r.len(), 3);
    let r = search_photos(&s, "sunset".to_string());
    assert_eq!(r.len(), 1);
    assert_eq!(r[0].path, "a/sunset.jpg");
}

#[test]
fn test_filter_by_date_range_excludes_unknown_dates() {
    let s = store_with_three_photos();
    let mut c = FilterCriteria::none();
    c.date_from = Some(100);
    c.date_to = Some(150);
    let r = filter_photos(&s, &c);
    assert_eq!(r.len(), 1);
    assert_eq!(r[0].filename, "sunset.jpg");
}

#[test]
fn test_filter_by_min_dimensions() {
    let s = store_with_three_photos();
    let mut c = FilterCriteria::none();
    c.min_width = Some(1000);
    let r = filter_photos(&s, &c);
    assert_eq!(r.len(), 1);
    assert_eq!(r[0].filename, "beach.jpg");
    c.min_width = Some(100);
    c.min_height = Some(600);
    let r = filter_photos(&s, &c);
    assert_eq!(r.len(), 2);
}

#[test]
fn test_filter_by_tags_and_albums() {
    let mut s = store_with_three_photos();
    s.apply(&Mutation::AttachTag { photo_id: 1, tag_name: "sky".to_string() }).unwrap();
    s.apply(&Mutation::CreateAlbum { name: "A".to_string() }).unwrap();
    s.apply(&Mutation::AttachToAlbum { photo_id: 2, album_id: 1 }).unwrap();

    let mut c = FilterCriteria::none();
    c.tags = Some(vec![1]);
    let r = filter_photos(&s, &c);
    assert_eq!(r.len(), 1);
    assert_eq!(r[0].id, 1);

    let mut c = FilterCriteria::none();
    c.albums = Some(vec![1]);
    let r = filter_photos(&s, &c);
    assert_eq!(r.len(), 1);
    assert_eq!(r[0].id, 2);

    // An empty id list imposes no condition.
    let mut c = FilterCriteria::none();
    c.tags = Some(vec![]);
    assert_eq!(filter_photos(&s, &c).len(), 3);
}

#[test]
fn test_hash_bytes_known_digests() {
    assert_eq!(
        DuplicateDetector::hash_bytes(b""),
        "e3b0c44298fc1c149afbf4c8996fb92427ae41e4649b934ca495991b7852b855"
    );
    assert_eq!(
        DuplicateDetector::hash_bytes(b"abc"),
        "ba7816bf8f01cfea414140de5dae2223b00361a396177a9cb410ff61f20015ad"
    );
}

#[test]
fn test_find_duplicates_groups_by_hash() {
    let mut s = store_with_three_photos();
    let h = DuplicateDetector::hash_bytes(b"same bytes");
    DuplicateDetector::cache_hash(&mut s, 1, h.clone()).unwrap();
    DuplicateDetector::cache_hash(&mut s, 2, h.clone()).unwrap();
    // Photo 3 keeps no hash and joins no group.
    let groups = DuplicateDetector::find_duplicates(&s);
    assert_eq!(groups.len(), 1);
    assert_eq!(groups[0].hash, h);
    assert_eq!(groups[0].photos.len(), 2);
    assert_eq!(groups[0].size, 30);
    let ids: Vec<i64> = groups[0].photos.iter().map(|p| p.id).collect();
    assert_eq!(ids, vec![1, 2]);
}

#[test]
fn test_find_duplicates_ignores_unique_hashes() {
    let mut s = store_with_three_photos();
    DuplicateDetector::cache_hash(&mut s, 1, DuplicateDetector::hash_bytes(b"one")).unwrap();
    DuplicateDetector::cache_hash(&mut s, 2, DuplicateDetector::hash_bytes(b"two")).unwrap();
    assert!(DuplicateDetector::find_duplicates(&s).is_empty());
}

#[test]
fn test_find_duplicates_size_saturates() {
    let mut s = Store::new();
    let big_a = meta_full("a.jpg", "a.jpg", i64::MAX, None, None, None);
    let big_b = meta_full("b.jpg", "b.jpg", i64::MAX, None, None, None);
    s.apply(&Mutation::AddPhoto { photo: big_a }).unwrap();
    s.apply(&Mutation::AddPhoto { photo: big_b }).unwrap();
    let h = DuplicateDetector::hash_bytes(b"big");
    DuplicateDetector::cache_hash(&mut s, 1, h.clone()).unwrap();
    DuplicateDetector::cache_hash(&mut s, 2, h).unwrap();
    let groups = DuplicateDetector::find_duplicates(&s);
    assert_eq!(groups.len(), 1);
    assert_eq!(groups[0].size, i64::MAX);
}

#[test]
fn test_tag_service_add_and_garbage_collect() {
    let mut s = store_with_three_photos();
    TagService::add_tag(&mut s, 1, "sea".to_string()).unwrap();
    TagService::add_tag(&mut s, 2, "sea".to_string()).unwrap();
    TagService::add_tag(&mut s, 1, "sun".to_string()).unwrap();
    assert_eq!(TagService::get_all_tags(&s).len(), 2);
    let mine = TagService::get_photo_tags(&s, 1);
    assert_eq!(mine.len(), 2);
    assert_eq!(mine[0].name, "sea");
    assert_eq!(mine[1].name, "sun");

    // Detach "sea" from photo 1: the tag survives on photo 2.
    TagService::remove_tag(&mut s, 1, 1).unwrap();
    assert_eq!(TagService::get_all_tags(&s).len(), 2);
    // Detach it from photo 2 as well: nobody carries it, so it is deleted.
    TagService::remove_tag(&mut s, 2, 1).unwrap();
    let left = TagService::get_all_tags(&s);
    assert_eq!(left.len(), 1);
    assert_eq!(left[0].name, "sun");
}

#[test]
fn test_rename_target_paths() {
    assert_eq!(rename_target("a/b/c.jpg", "d.jpg"), "a/b/d.jpg");
    assert_eq!(rename_target("c.jpg", "d.jpg"), "d.jpg");
    assert_eq!(rename_target("dir/sub/", "x"), "dir/sub/x");
}

#[test]
fn test_supported_formats_list() {
    let formats = FileOperationService::get_supported_formats();
    assert_eq!(formats, vec!["jpg", "jpeg", "png", "gif", "bmp", "ico"]);
}

#[test]
fn test_is_supported_format() {
    let svc = FileOperationService::new("/vault".to_string());
    assert!(svc.is_supported_format("photos/test.jpg"));
    assert!(svc.is_supported_format("IMG.JPG"));
    assert!(svc.is_supported_format("a.b/pic.PnG"));
    assert!(!svc.is_supported_format("document.txt"));
    assert!(!svc.is_supported_format("noextension"));
    assert!(!svc.is_supported_format(".hidden"));
    assert!(!svc.is_supported_format("dir.jpg/file"));
}

#[test]
fn test_app_config_starts_empty() {
    let c = AppConfig::new();
    assert!(c.primary_drive.is_none());
    assert!(c.backup_drive.is_none());
    let d = AppConfig::default();
    assert!(d.primary_drive.is_none());
    assert!(d.backup_drive.is_none());
}

#[test]
fn test_clock_renders_nonempty_timestamp() {
    let t = photovault::clock::now_rfc3339();
    assert!(!t.is_empty());
}
