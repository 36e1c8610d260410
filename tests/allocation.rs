use luck_snake::errors::LuckSnakeError;
use luck_snake::instructions::generate_number::{allocate, handler, GenerateNumber};
use luck_snake::instructions::init_user;
use luck_snake::instructions::initialize::{self, Initialize};
use luck_snake::state::{Identity, LuckSnakeConfig, UserAccount};

fn id(b: u8) -> Identity {
    Identity { bytes: [b; 32] }
}

fn config(cap: u32) -> LuckSnakeConfig {
    initialize::handler(
        &Initialize { authority: id(1), treasury: id(2), config_bump: 254 },
        LuckSnakeConfig::GENERATION_PRICE,
        cap,
    )
}

fn context(cfg: LuckSnakeConfig, user: u8, record: UserAccount) -> GenerateNumber {
    GenerateNumber {
        config: cfg,
        user_account: record,
        user: id(user),
        user_lamports: 1_000_000,
        treasury: id(2),
        treasury_lamports: 0,
        user_account_bump: 250,
    }
}

fn record(user: u8, numbers: Vec<u32>) -> UserAccount {
    let nonce = numbers.len() as u64;
    UserAccount { user: id(user), numbers, nonce, bump: 9 }
}

#[test]
fn initialize_sets_fresh_config() {
    let cfg = config(LuckSnakeConfig::MAX_NUMBERS);
    assert_eq!(cfg.authority, id(1));
    assert_eq!(cfg.treasury, id(2));
    assert_eq!(cfg.generation_price, 100_000);
    assert_eq!(cfg.total_generated_numbers, 0);
    assert_eq!(cfg.max_numbers, 1000);
    assert_eq!(cfg.bump, 254);
}

#[test]
fn first_allocation_creates_record() {
    let mut ctx = context(config(1000), 7, UserAccount::default());
    assert_eq!(allocate(&mut ctx, 17), Ok(17));
    assert_eq!(ctx.user_account.user, id(7));
    assert_eq!(ctx.user_account.numbers, vec![17]);
    assert_eq!(ctx.user_account.nonce, 1);
    assert_eq!(ctx.user_account.bump, 250);
    assert_eq!(ctx.config.total_generated_numbers, 1);
    assert_eq!(ctx.user_lamports, 900_000);
    assert_eq!(ctx.treasury_lamports, 100_000);
}

#[test]
fn allocation_skips_claimed_numbers() {
    let mut ctx = context(config(1000), 7, record(7, vec![5, 6, 7]));
    assert_eq!(allocate(&mut ctx, 5), Ok(8));
    assert_eq!(ctx.user_account.numbers, vec![5, 6, 7, 8]);
    assert_eq!(ctx.user_account.nonce, 4);
    assert_eq!(ctx.user_account.bump, 9);
}

#[test]
fn repeated_allocations_stay_unique() {
    let mut ctx = context(config(1000), 7, UserAccount::default());
    for _ in 0..5 {
        assert!(allocate(&mut ctx, 500).is_ok());
    }
    assert_eq!(ctx.user_account.numbers, vec![500, 501, 502, 503, 504]);
    assert_eq!(ctx.user_account.nonce, 5);
    assert_eq!(ctx.config.total_generated_numbers, 5);
}

#[test]
fn cap_blocks_fourth_allocation() {
    let mut cfg = config(3);
    for user in 10..13u8 {
        let mut ctx = context(cfg, user, UserAccount::default());
        assert_eq!(allocate(&mut ctx, 1), Ok(1));
        cfg = ctx.config;
    }
    assert_eq!(cfg.total_generated_numbers, 3);
    let mut ctx = context(cfg, 13, UserAccount::default());
    ctx.user_lamports = u64::MAX / 2;
    let before = ctx.clone();
    assert_eq!(allocate(&mut ctx, 1), Err(LuckSnakeError::AllNumbersGenerated));
    assert_eq!(ctx, before);
}

#[test]
fn insufficient_payment_changes_nothing() {
    let mut ctx = context(config(1000), 7, record(7, vec![3]));
    ctx.user_lamports = 99_999;
    let before = ctx.clone();
    assert_eq!(allocate(&mut ctx, 1), Err(LuckSnakeError::InsufficientPayment));
    assert_eq!(ctx, before);
}

#[test]
fn wrong_treasury_is_unauthorized() {
    let mut ctx = context(config(1000), 7, UserAccount::default());
    ctx.treasury = id(3);
    let before = ctx.clone();
    assert_eq!(allocate(&mut ctx, 1), Err(LuckSnakeError::Unauthorized));
    assert_eq!(ctx, before);
}

#[test]
fn foreign_record_is_unauthorized() {
    let mut ctx = context(config(1000), 7, record(8, vec![]));
    let before = ctx.clone();
    assert_eq!(allocate(&mut ctx, 1), Err(LuckSnakeError::Unauthorized));
    assert_eq!(ctx, before);
}

#[test]
fn saturated_probe_fails_unchanged() {
    let mut ctx = context(config(1000), 7, record(7, (200..300).collect()));
    let before = ctx.clone();
    assert_eq!(allocate(&mut ctx, 200), Err(LuckSnakeError::UnableToGenerateUniqueNumber));
    assert_eq!(ctx, before);
}

#[test]
fn handler_allocates_derived_candidate() {
    let mut ctx = context(config(1000), 7, UserAccount::default());
    assert_eq!(handler(&mut ctx, 42), Ok(786));
    assert_eq!(ctx.user_account.numbers, vec![786]);
    assert_eq!(ctx.user_account.nonce, 1);
    assert_eq!(ctx.config.total_generated_numbers, 1);
}

#[test]
fn handler_uses_live_nonce() {
    let mut ctx = context(config(1000), 7, record(7, vec![1, 2, 3]));
    assert_eq!(handler(&mut ctx, 1000), Ok(148));
    assert_eq!(ctx.user_account.nonce, 4);
}

#[test]
fn handler_is_deterministic() {
    let mut a = context(config(1000), 9, UserAccount::default());
    let mut b = a.clone();
    assert_eq!(handler(&mut a, 31337), handler(&mut b, 31337));
    assert_eq!(a, b);
}

#[test]
fn init_user_opens_empty_record() {
    let r = init_user::handler(&init_user::InitUser { user: id(4), user_account_bump: 3 });
    assert_eq!(r, UserAccount { user: id(4), numbers: vec![], nonce: 0, bump: 3 });
}

#[test]
fn unset_caller_is_unauthorized() {
    let mut ctx = context(config(1000), 0, UserAccount::default());
    let before = ctx.clone();
    assert_eq!(allocate(&mut ctx, 1), Err(LuckSnakeError::Unauthorized));
    assert_eq!(ctx, before);
}

#[test]
fn first_allocation_counts_from_empty_record() {
    let mut ctx = context(config(1000), 7, UserAccount::default());
    assert_eq!(handler(&mut ctx, 42), Ok(786));
    assert_eq!(ctx.user_account.nonce, 1);
    assert_eq!(ctx.user_account.numbers.len(), 1);
    assert!(ctx.user_account.is_wf());
}
