use file_share::file::File;

#[test]
fn new_file_is_empty_with_v4_id() {
    let f = File::new();
    assert_eq!((f.id >> 76) & 0xf, 4);
    assert_eq!((f.id >> 62) & 0x3, 2);
    assert!(f.name.is_empty() && f.shortcode.is_empty() && f.md5.is_empty());
    assert!(f.status.is_empty() && f.localurl.is_empty() && f.localpath.is_empty());
    assert_eq!(f.expire_time, 0);
    assert!(f.created_at > 0);
    assert_eq!(f.updated_at, f.created_at);
    assert_eq!(f.delete_at, f.created_at);
}

#[test]
fn new_files_get_distinct_ids() {
    assert_ne!(File::new().id, File::new().id);
}

#[test]
fn setters_and_getters() {
    let mut f = File::new();
    f.set_name("a.txt");
    f.set_short_code("8ZAM6");
    f.set_md5("d41d8cd98f00b204e9800998ecf8427e");
    f.set_local_url("/file/download?x=1");
    f.set_local_path("2024-01-01/1/a.txt");
    assert_eq!(f.get_name(), "a.txt");
    assert_eq!(f.get_short_code(), "8ZAM6");
    assert_eq!(f.get_localurl(), "/file/download?x=1");
    assert_eq!(f.get_localpath(), "2024-01-01/1/a.txt");
    assert_eq!(f.md5, "d41d8cd98f00b204e9800998ecf8427e");
    f.set_unactive();
    assert_eq!(f.status, "unactive");
}

#[test]
fn delete_time_at_adds_seconds() {
    let mut f = File::new();
    f.set_delete_time_at(1_700_000_000_000_000, 600);
    assert_eq!(f.delete_at, 1_700_000_600_000_000);
}

#[test]
fn delete_time_from_now() {
    let mut f = File::new();
    let before = f.created_at;
    assert!(f.set_delete_time(600));
    assert!(f.delete_at >= before + 600_000_000);
    assert!(f.delete_at <= before + 600_000_000 + 60_000_000);
}

#[test]
fn delete_time_beyond_range_leaves_record() {
    let mut f = File::new();
    let before = f.delete_at;
    assert!(!f.set_delete_time(u64::MAX));
    assert_eq!(f.delete_at, before);
}
