use file_share::code::{de_code, gen_code};
use file_share::deque::RandomDeque;

#[test]
fn fresh_pool_has_all_numbers() {
    let mut pool = RandomDeque::new(None);
    assert!(!pool.is_init());
    let mut seen = vec![false; 1_000_000];
    let mut count = 0;
    for _ in 0..999_999 {
        let code = pool.get_random_num();
        let n = de_code(&code) - 1_000_000;
        assert!(n >= 1 && n <= 999_999);
        assert!(!seen[n as usize]);
        seen[n as usize] = true;
        count += 1;
    }
    assert_eq!(count, 999_999);
}

#[test]
fn configured_base_is_used() {
    let mut pool = RandomDeque::new(Some(0));
    let code = pool.get_random_num();
    let n = de_code(&code);
    assert!(n >= 1 && n <= 999_999);
}

#[test]
fn returned_code_goes_to_the_back() {
    let mut pool = RandomDeque::new(Some(5));
    let first = pool.get_random_num();
    pool.push_random_num(&first);
    let mut last = String::new();
    for _ in 0..999_999 {
        last = pool.get_random_num();
    }
    assert_eq!(last, first);
}

#[test]
fn init_once_removes_taken_codes_once() {
    let mut pool = RandomDeque::new(None);
    pool.init_once(vec![1_000_001, 1_000_002, 1_999_999, 7]);
    assert!(pool.is_init());
    let mut count = 0;
    for _ in 0..999_996 {
        let n = de_code(&pool.get_random_num());
        assert!(n != 1_000_001 && n != 1_000_002 && n != 1_999_999);
        count += 1;
    }
    assert_eq!(count, 999_996);
    pool.push_random_num(&gen_code(1_000_001));
    pool.init_once(vec![1_000_001]);
    assert_eq!(pool.get_random_num(), gen_code(1_000_001));
}

#[test]
fn fresh_pool_is_shuffled() {
    let mut pool = RandomDeque::new(Some(0));
    let first: Vec<u32> = (0..20).map(|_| de_code(&pool.get_random_num())).collect();
    let ascending: Vec<u32> = (1..=20).collect();
    assert_ne!(first, ascending);
}

#[test]
fn pool_queries() {
    let pool = RandomDeque::new(Some(4_294_000_000));
    assert_eq!(pool.base_plus(), 4_294_000_000);
    assert!(!pool.offsets_fit());
    let mut ok = RandomDeque::new(None);
    assert!(ok.offsets_fit());
    let next = ok.next_number().unwrap();
    assert_eq!(de_code(&ok.get_random_num()), next + 1_000_000);
}
