use anchor_lang::prelude::Pubkey;
use coin_toss::address::{profile_address, Identity};
use coin_toss::profile::{ErrorCode, PlayerProfile, MAX_NAME_LEN, PROFILE_SPACE};
use coin_toss::store::{
    create_player_profile, execute_toss, CreatePlayerProfile, ProfileStore, UpdatePlayerProfile,
};

const PROGRAM: [u8; 32] = [7u8; 32];
const ALICE: [u8; 32] = [1u8; 32];
const BOB: [u8; 32] = [2u8; 32];
const RENT: u64 = 1_531_200;

fn store() -> ProfileStore {
    ProfileStore::new(Identity::new(PROGRAM))
}

fn payer(player: [u8; 32], lamports: u64) -> CreatePlayerProfile {
    CreatePlayerProfile { player: Identity::new(player), player_lamports: lamports }
}

fn toss_ctx(s: &ProfileStore, owner: [u8; 32], signer: [u8; 32]) -> UpdatePlayerProfile {
    UpdatePlayerProfile {
        player_profile: s.address_of(&Identity::new(owner)).unwrap(),
        player: Identity::new(signer),
    }
}

#[test]
fn alice_scenario() {
    let mut s = store();
    let mut ctx = payer(ALICE, 10_000_000);
    let created = create_player_profile(&mut s, &mut ctx, "Alice".to_string()).unwrap();
    assert_eq!(
        created,
        PlayerProfile {
            name: "Alice".to_string(),
            player: Identity::new(ALICE),
            total_played: 0,
            total_won: 0
        }
    );
    let own = toss_ctx(&s, ALICE, ALICE);
    let p = execute_toss(&mut s, &own, true).unwrap();
    assert_eq!((p.total_played, p.total_won), (1, 1));
    let p = execute_toss(&mut s, &own, false).unwrap();
    assert_eq!((p.total_played, p.total_won), (2, 1));
    let stranger = toss_ctx(&s, ALICE, BOB);
    assert_eq!(execute_toss(&mut s, &stranger, true), Err(ErrorCode::UnauthorizedAccess));
    let stored = s.profile_at(&own.player_profile).unwrap();
    assert_eq!((stored.total_played, stored.total_won), (2, 1));
    assert_eq!(stored.name, "Alice");
}

#[test]
fn address_matches_program_address_search() {
    let program = Pubkey::new_from_array(PROGRAM);
    let alice = Pubkey::new_from_array(ALICE);
    let (expected, _) = Pubkey::find_program_address(&[b"profile", alice.as_ref()], &program);
    let got = profile_address(&Identity::new(PROGRAM), &Identity::new(ALICE)).unwrap();
    assert_eq!(got.bytes, expected.to_bytes());
    assert_ne!(got.bytes, ALICE);
}

#[test]
fn address_is_deterministic() {
    let s = store();
    let first = s.address_of(&Identity::new(ALICE)).unwrap();
    let second = s.address_of(&Identity::new(ALICE)).unwrap();
    assert_eq!(first, second);
    let bob = s.address_of(&Identity::new(BOB)).unwrap();
    assert_ne!(first, bob);
}

#[test]
fn address_depends_on_program() {
    let a = profile_address(&Identity::new(PROGRAM), &Identity::new(ALICE)).unwrap();
    let b = profile_address(&Identity::new([9u8; 32]), &Identity::new(ALICE)).unwrap();
    assert_ne!(a, b);
}

#[test]
fn second_create_fails_and_keeps_record() {
    let mut s = store();
    let mut ctx = payer(ALICE, 10_000_000);
    create_player_profile(&mut s, &mut ctx, "Alice".to_string()).unwrap();
    let own = toss_ctx(&s, ALICE, ALICE);
    execute_toss(&mut s, &own, true).unwrap();
    let before = ctx.player_lamports;
    assert_eq!(
        create_player_profile(&mut s, &mut ctx, "Other".to_string()),
        Err(ErrorCode::AlreadyExists)
    );
    assert_eq!(ctx.player_lamports, before);
    assert_eq!(s.len(), 1);
    let stored = s.profile_at(&own.player_profile).unwrap();
    assert_eq!(stored.name, "Alice");
    assert_eq!((stored.total_played, stored.total_won), (1, 1));
}

#[test]
fn name_over_bound_is_rejected() {
    let mut s = store();
    let mut ctx = payer(ALICE, 10_000_000);
    let long = "a".repeat(MAX_NAME_LEN + 1);
    assert_eq!(create_player_profile(&mut s, &mut ctx, long), Err(ErrorCode::ValidationError));
    assert_eq!(s.len(), 0);
    assert_eq!(ctx.player_lamports, 10_000_000);
    let addr = s.address_of(&Identity::new(ALICE)).unwrap();
    assert!(s.profile_at(&addr).is_none());
}

#[test]
fn name_at_bound_is_accepted() {
    let mut s = store();
    let mut ctx = payer(ALICE, 10_000_000);
    let name = "a".repeat(MAX_NAME_LEN);
    let p = create_player_profile(&mut s, &mut ctx, name.clone()).unwrap();
    assert_eq!(p.name, name);
    let mut ctx = payer(BOB, 10_000_000);
    let accented = "é".repeat(16);
    let p = create_player_profile(&mut s, &mut ctx, accented.clone()).unwrap();
    assert_eq!(p.name, accented);
    let mut ctx = payer([3u8; 32], 10_000_000);
    let p = create_player_profile(&mut s, &mut ctx, String::new()).unwrap();
    assert_eq!(p.name, "");
    assert_eq!(s.len(), 3);
}

#[test]
fn name_bound_counts_bytes() {
    let mut s = store();
    let mut ctx = payer(ALICE, 10_000_000);
    let name = "é".repeat(17);
    assert_eq!(create_player_profile(&mut s, &mut ctx, name), Err(ErrorCode::ValidationError));
    assert_eq!(ctx.player_lamports, 10_000_000);
    assert_eq!(s.len(), 0);
    let p = create_player_profile(&mut s, &mut ctx, "Alice".to_string()).unwrap();
    assert_eq!(p.name, "Alice");
}

#[test]
fn second_create_with_long_name_already_exists() {
    let mut s = store();
    let mut ctx = payer(ALICE, 10_000_000);
    create_player_profile(&mut s, &mut ctx, "Alice".to_string()).unwrap();
    let long = "b".repeat(40);
    assert_eq!(create_player_profile(&mut s, &mut ctx, long), Err(ErrorCode::AlreadyExists));
    assert_eq!(s.len(), 1);
}

#[test]
fn name_is_checked_before_lamports() {
    let mut s = store();
    let mut ctx = payer(ALICE, 10);
    let long = "c".repeat(33);
    assert_eq!(create_player_profile(&mut s, &mut ctx, long), Err(ErrorCode::ValidationError));
    assert_eq!(ctx.player_lamports, 10);
    assert_eq!(
        create_player_profile(&mut s, &mut ctx, "Carol".to_string()),
        Err(ErrorCode::InsufficientResources)
    );
    assert_eq!(ctx.player_lamports, 10);
    assert_eq!(s.len(), 0);
}

#[test]
fn rent_is_default_minimum_for_profile_space() {
    assert_eq!(PROFILE_SPACE, 92);
    assert_eq!(store().rent_exempt_lamports(), RENT);
}

#[test]
fn creation_charges_rent() {
    let mut s = store();
    let mut ctx = payer(ALICE, RENT + 5);
    create_player_profile(&mut s, &mut ctx, "Alice".to_string()).unwrap();
    assert_eq!(ctx.player_lamports, 5);
    let mut exact = payer(BOB, RENT);
    create_player_profile(&mut s, &mut exact, "Bob".to_string()).unwrap();
    assert_eq!(exact.player_lamports, 0);
}

#[test]
fn insufficient_lamports_are_rejected() {
    let mut s = store();
    let mut ctx = payer(ALICE, RENT - 1);
    assert_eq!(
        create_player_profile(&mut s, &mut ctx, "Alice".to_string()),
        Err(ErrorCode::InsufficientResources)
    );
    assert_eq!(ctx.player_lamports, RENT - 1);
    assert_eq!(s.len(), 0);
}

#[test]
fn toss_without_profile_is_not_found() {
    let mut s = store();
    let ctx = toss_ctx(&s, ALICE, ALICE);
    assert_eq!(execute_toss(&mut s, &ctx, true), Err(ErrorCode::NotFound));
}

#[test]
fn stranger_toss_changes_nothing() {
    let mut s = store();
    let mut a = payer(ALICE, 10_000_000);
    create_player_profile(&mut s, &mut a, "Alice".to_string()).unwrap();
    let mut b = payer(BOB, 10_000_000);
    create_player_profile(&mut s, &mut b, "Bob".to_string()).unwrap();
    let bob_on_alice = toss_ctx(&s, ALICE, BOB);
    assert_eq!(execute_toss(&mut s, &bob_on_alice, false), Err(ErrorCode::UnauthorizedAccess));
    let alice_on_bob = toss_ctx(&s, BOB, ALICE);
    assert_eq!(execute_toss(&mut s, &alice_on_bob, true), Err(ErrorCode::UnauthorizedAccess));
    let pa = s.profile_at(&bob_on_alice.player_profile).unwrap();
    let pb = s.profile_at(&alice_on_bob.player_profile).unwrap();
    assert_eq!((pa.total_played, pa.total_won), (0, 0));
    assert_eq!((pb.total_played, pb.total_won), (0, 0));
}

#[test]
fn wins_never_exceed_games() {
    let mut s = store();
    let mut a = payer(ALICE, 10_000_000);
    create_player_profile(&mut s, &mut a, "Alice".to_string()).unwrap();
    let own = toss_ctx(&s, ALICE, ALICE);
    let outcomes = [true, true, false, true, false, false, true];
    let mut wins = 0u64;
    for (n, won) in outcomes.iter().enumerate() {
        let p = execute_toss(&mut s, &own, *won).unwrap();
        if *won {
            wins += 1;
        }
        assert_eq!(p.total_played, n as u64 + 1);
        assert_eq!(p.total_won, wins);
        assert!(p.total_won <= p.total_played);
    }
}

#[test]
fn counter_at_largest_value_is_rejected() {
    let mut p = PlayerProfile {
        name: "Max".to_string(),
        player: Identity::new(ALICE),
        total_played: u64::MAX,
        total_won: 3,
    };
    assert_eq!(p.record_toss(true), Err(ErrorCode::CounterOverflow));
    assert_eq!((p.total_played, p.total_won), (u64::MAX, 3));
    p.total_played = u64::MAX - 1;
    assert_eq!(p.record_toss(true), Ok(()));
    assert_eq!((p.total_played, p.total_won), (u64::MAX, 4));
}

#[test]
fn record_toss_counts_loss() {
    let mut p = PlayerProfile::new("Zed".to_string(), Identity::new(BOB));
    assert_eq!(p.record_toss(false), Ok(()));
    assert_eq!((p.total_played, p.total_won), (1, 0));
    let q = p.snapshot();
    assert_eq!(q, p);
}

#[test]
fn identity_compares_bytes() {
    let a = Identity::new(ALICE);
    let mut other = ALICE;
    other[31] = 0;
    assert!(a.same_as(&Identity::new(ALICE)));
    assert!(!a.same_as(&Identity::new(other)));
    assert_eq!(a.to_vec(), ALICE.to_vec());
}

#[test]
fn store_reports_program() {
    assert_eq!(store().program_id(), Identity::new(PROGRAM));
}
