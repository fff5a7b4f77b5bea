use file_share::code::{de_code, gen_code};
use file_share::deque::RandomDeque;
use file_share::share::{
    decrypt_url, download_url, is_legal_short_code, new_shared_file, plan_chunk, resolve_file_uuid,
    share_local_path, tmp_file_name,
};

#[test]
fn legal_short_codes() {
    assert!(is_legal_short_code("8ZAM6"));
    assert!(is_legal_short_code("1234567890ABCDEFGHJKLMNPQRSTUVWXYZ"));
    assert!(is_legal_short_code(""));
    assert!(!is_legal_short_code("8zam6"));
    assert!(!is_legal_short_code("IO"));
    assert!(!is_legal_short_code("AB-C"));
    assert!(is_legal_short_code(&gen_code(u32::MAX)));
}

#[test]
fn links() {
    assert_eq!(download_url("a=1&b=2"), "/file/download?a=1&b=2");
    assert_eq!(decrypt_url("file_name=x"), "/file/decrypt?file_name=x");
}

#[test]
fn stored_paths() {
    assert_eq!(share_local_path("2024-05-01", 1714521600123456, "a b.txt"), "2024-05-01/1714521600123456/a b.txt");
    assert_eq!(share_local_path("d", -5, "f"), "d/-5/f");
    assert_eq!(tmp_file_name("abc", "zip"), "abc.zip");
}

#[test]
fn file_uuid_kept_or_made() {
    assert_eq!(resolve_file_uuid("given"), "given");
    let made = resolve_file_uuid("");
    assert_eq!(made.len(), 36);
    let chars: Vec<char> = made.chars().collect();
    for (i, c) in chars.iter().enumerate() {
        if i == 8 || i == 13 || i == 18 || i == 23 {
            assert_eq!(*c, '-');
        } else {
            assert!(c.is_ascii_hexdigit() && !c.is_ascii_uppercase());
        }
    }
    assert_eq!(chars[14], '4');
}

#[test]
fn chunk_plans() {
    let first = plan_chunk("1", "3", "u", "bin");
    assert_eq!(first.tmp_file_name, "u.bin");
    assert!(first.create && !first.complete);
    assert_eq!(first.upload_status, 100);
    let middle = plan_chunk("2", "3", "u", "bin");
    assert!(!middle.create && !middle.complete);
    assert_eq!(middle.upload_status, 100);
    let last = plan_chunk("3", "3", "u", "bin");
    assert!(!last.create && last.complete);
    assert_eq!(last.upload_status, 200);
    let only = plan_chunk("1", "1", "u", "bin");
    assert!(only.create && only.complete);
    assert_eq!(only.upload_status, 200);
}

#[test]
fn shared_file_record() {
    let mut pool = RandomDeque::new(None);
    let f = new_shared_file("a.txt", "2024-05-01/17/a.txt", "k=v", 1_714_521_600_000_000, 600, &mut pool);
    assert_eq!(f.name, "a.txt");
    assert_eq!(f.localpath, "2024-05-01/17/a.txt");
    assert_eq!(f.localurl, "/file/download?k=v");
    let n = de_code(&f.shortcode);
    assert!(n > 1_000_000 && n < 2_000_000);
    assert!(f.md5.is_empty() && f.status.is_empty());
    assert_eq!(f.delete_at, 1_714_522_200_000_000);
    let g = new_shared_file("b.txt", "p", "q", 5, 0, &mut pool);
    assert_ne!(g.shortcode, f.shortcode);
    assert_eq!(g.delete_at, 5);
}
