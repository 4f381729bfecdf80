use abyss_tournament::pallet::Pallet;
use abyss_tournament::time::timestamp_from_parse;
use abyss_tournament::types::BattleType;
use abyss_tournament::types::VoteSelect;
use abyss_tournament::rewards::{bonus_per_ticket, season_bonus_split, bonus_part, invitor_part};

#[test]
fn battle_type_numbers() {
    assert_eq!(Into::<u8>::into(BattleType::SixteenthFinals), 16);
    assert_eq!(Into::<u8>::into(BattleType::EighthFinals), 8);
    assert_eq!(Into::<u8>::into(BattleType::QuarterFinals), 4);
    assert_eq!(Into::<u8>::into(BattleType::SemiFinals), 2);
    assert_eq!(Into::<u8>::into(BattleType::Finals), 1);
    assert_eq!(Into::<u8>::into(BattleType::Regular), 255);
}

#[test]
fn battle_type_roundtrip() {
    for t in [
        BattleType::SixteenthFinals,
        BattleType::EighthFinals,
        BattleType::QuarterFinals,
        BattleType::SemiFinals,
        BattleType::Finals,
        BattleType::Regular,
    ] {
        assert_eq!(BattleType::try_from(Into::<u8>::into(t)), Ok(t));
    }
    assert_eq!(BattleType::try_from(3), Err(()));
    assert_eq!(BattleType::try_from(0), Err(()));
    assert_eq!(BattleType::try_from(32), Err(()));
}

#[test]
fn duplicate_battles() {
    assert!(!Pallet::duplicate(vec![5]));
    assert!(!Pallet::duplicate(vec![1, 2, 3]));
    assert!(Pallet::duplicate(vec![1, 2, 1]));
    assert!(Pallet::duplicate(vec![7, 7]));
}

fn sel(battle_id: u32, npc_id: u32) -> VoteSelect {
    VoteSelect { battle_id, npc_id }
}

#[test]
fn appended_duplicates() {
    let old = vec![sel(1, 10), sel(2, 20)];
    assert!(!Pallet::append_vote_check_duplicate(&old, &vec![sel(3, 30)]));
    assert!(Pallet::append_vote_check_duplicate(&old, &vec![sel(2, 21)]));
    assert!(Pallet::append_vote_check_duplicate(&old, &vec![sel(3, 30), sel(3, 31)]));
    assert!(!Pallet::append_vote_check_duplicate(&vec![], &vec![sel(4, 1), sel(5, 1)]));
}

#[test]
fn invite_code_of_account() {
    assert_eq!(Pallet::addr_to_invite_code(42), b"AAAAAAAAACo=".to_vec());
    assert_eq!(Pallet::addr_to_invite_code(200), b"AAAAAAAAAMg=".to_vec());
}

#[test]
fn invite_code_roundtrip() {
    for a in [0u64, 1, 42, 200, 0x0102_0304_0506_0708, u64::MAX] {
        assert_eq!(Pallet::invite_code_to_addr(Pallet::addr_to_invite_code(a)), Some(a));
    }
}

#[test]
fn invite_code_rejected_and_padded() {
    assert_eq!(Pallet::invite_code_to_addr(b"!!not base64".to_vec()), None);
    // "AQ==" is the single byte 1: reversed it is still 1, padded with zeros.
    assert_eq!(Pallet::invite_code_to_addr(b"AQ==".to_vec()), Some(1));
    // The empty code stands for the account of all zeros.
    assert_eq!(Pallet::invite_code_to_addr(Vec::new()), Some(0));
}

#[test]
fn dates_parse() {
    assert_eq!(Pallet::date_to_timestamp(b"2023-01-01 00:00:00".to_vec()), Ok(1672531200));
    assert_eq!(Pallet::date_to_timestamp(b"2030-01-02 00:00:00".to_vec()), Ok(1893542400));
    assert_eq!(Pallet::date_to_timestamp(b"1970-01-01 00:00:01".to_vec()), Ok(1));
}

#[test]
fn dates_rejected() {
    assert_eq!(Pallet::date_to_timestamp(vec![0xc3, 0xa9]), Err(0));
    assert_eq!(Pallet::date_to_timestamp(b"2023/01/01".to_vec()), Err(1));
    assert_eq!(Pallet::date_to_timestamp(b"2023-13-01 00:00:00".to_vec()), Err(1));
}

#[test]
fn dates_before_epoch_wrap() {
    assert_eq!(timestamp_from_parse(Some(-1)), Ok(u64::MAX));
    assert_eq!(timestamp_from_parse(None), Err(1));
    assert_eq!(Pallet::date_to_timestamp(b"1969-12-31 23:59:59".to_vec()), Ok(u64::MAX));
}

#[test]
fn season_treasury_is_hash_of_seed() {
    let mut seed = b"-*-#fusotao-abyssworld-season#-*-".to_vec();
    seed.extend_from_slice(&7u32.to_le_bytes());
    let h = sp_io::hashing::blake2_256(&seed);
    let mut first = [0u8; 8];
    first.copy_from_slice(&h[0..8]);
    assert_eq!(Pallet::get_season_treasury(7), u64::from_le_bytes(first));
    assert_ne!(Pallet::get_season_treasury(7), Pallet::get_season_treasury(8));
    assert_eq!(Pallet::get_season_treasury(1), Pallet::get_season_treasury(1));
}

#[test]
fn payment_shares() {
    let m: u128 = 4_000_000_000_000_000_000;
    assert_eq!(bonus_part(m), 3_400_000_000_000_000_000);
    assert_eq!(invitor_part(m), 200_000_000_000_000_000);
    assert_eq!(bonus_part(99), 84);
    assert_eq!(invitor_part(99), 4);
}

#[test]
fn treasury_split() {
    assert_eq!(season_bonus_split(8), (7, 1));
    assert_eq!(season_bonus_split(10), (8, 2));
    assert_eq!(season_bonus_split(0), (0, 0));
}

#[test]
fn ticket_bonus_capped() {
    assert_eq!(bonus_per_ticket(700, 2, 10), 350);
    assert_eq!(bonus_per_ticket(7000, 2, 10), 1000);
    assert_eq!(bonus_per_ticket(5, 3, 10), 1);
}
