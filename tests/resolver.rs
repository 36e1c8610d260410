use luck_snake::errors::LuckSnakeError;
use luck_snake::resolver::{contains_number, resolve, MAX_ATTEMPTS};
use luck_snake::state::DOMAIN_SIZE;

#[test]
fn resolve_returns_free_candidate() {
    assert_eq!(resolve(42, &vec![1, 2, 3], DOMAIN_SIZE, MAX_ATTEMPTS), Ok(42));
}

#[test]
fn resolve_probes_past_claimed_run() {
    assert_eq!(resolve(5, &vec![5, 6, 7], DOMAIN_SIZE, MAX_ATTEMPTS), Ok(8));
}

#[test]
fn resolve_wraps_around_domain() {
    assert_eq!(resolve(998, &vec![998, 999, 0], DOMAIN_SIZE, MAX_ATTEMPTS), Ok(1));
}

#[test]
fn resolve_exhausts_after_max_attempts() {
    let held: Vec<u32> = (0..100).collect();
    assert_eq!(
        resolve(0, &held, DOMAIN_SIZE, MAX_ATTEMPTS),
        Err(LuckSnakeError::UnableToGenerateUniqueNumber)
    );
    assert_eq!(resolve(0, &held, DOMAIN_SIZE, 101), Ok(100));
}

#[test]
fn resolve_with_no_attempts_fails() {
    assert_eq!(
        resolve(3, &vec![], DOMAIN_SIZE, 0),
        Err(LuckSnakeError::UnableToGenerateUniqueNumber)
    );
}

#[test]
fn resolve_is_deterministic_and_order_blind() {
    let a = resolve(5, &vec![5, 6, 7], DOMAIN_SIZE, MAX_ATTEMPTS);
    let b = resolve(5, &vec![7, 5, 6, 5], DOMAIN_SIZE, MAX_ATTEMPTS);
    assert_eq!(a, b);
    let held: Vec<u32> = (0..100).collect();
    assert_eq!(
        resolve(0, &held, DOMAIN_SIZE, MAX_ATTEMPTS),
        resolve(0, &held, DOMAIN_SIZE, MAX_ATTEMPTS)
    );
}

#[test]
fn contains_number_finds_members() {
    assert!(contains_number(&vec![4, 9], 9));
    assert!(!contains_number(&vec![4, 9], 5));
    assert!(!contains_number(&vec![], 0));
}
