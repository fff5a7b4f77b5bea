use file_share::code::{de_code, gen_code};
use file_share::deque::RandomDeque;
use file_share::file::File;
use file_share::job::{file_md5_hex, fill_md5, next_counter, recycle_expired};

#[test]
fn counters() {
    assert_eq!(next_counter(None), 0);
    assert_eq!(next_counter(Some(None)), 1);
    assert_eq!(next_counter(Some(Some(0))), 1);
    assert_eq!(next_counter(Some(Some(41))), 42);
}

#[test]
fn md5_texts() {
    assert_eq!(file_md5_hex(b""), "d41d8cd98f00b204e9800998ecf8427e");
    assert_eq!(file_md5_hex(b"hello"), "5d41402abc4b2a76b9719d911017c592");
}

#[test]
fn fill_md5_sets_only_md5() {
    let mut f = File::new();
    f.set_name("x");
    fill_md5(&mut f, b"hello");
    assert_eq!(f.md5, "5d41402abc4b2a76b9719d911017c592");
    assert_eq!(f.name, "x");
}

#[test]
fn expired_files_give_codes_back() {
    let mut pool = RandomDeque::new(None);
    let mut a = File::new();
    a.set_short_code(&gen_code(1_000_010));
    let mut b = File::new();
    b.set_short_code(&gen_code(1_500_000));
    b.set_name("b");
    let files = recycle_expired(vec![a, b], &mut pool);
    assert_eq!(files.len(), 2);
    assert_eq!(files[0].status, "unactive");
    assert_eq!(files[1].status, "unactive");
    assert_eq!(files[1].name, "b");
    let mut last_two = Vec::new();
    for _ in 0..1_000_001 {
        let code = pool.get_random_num();
        last_two.push(de_code(&code));
        if last_two.len() > 2 {
            last_two.remove(0);
        }
    }
    assert_eq!(last_two, vec![1_000_010, 1_500_000]);
}
