use abyss_tournament::pallet::Pallet;
use abyss_tournament::types::{
    BattleStatus, BattleType, Config, DispatchError, Error, Event, Origin, SeasonStatus,
    TokenAction, VoteSelect,
};
use parity_scale_codec::Encode;
use std::collections::BTreeMap;

const AWT: u32 = 7;
const NATIVE: u32 = 0;
const DONOR: u64 = 900;
const BVB: u64 = 901;
const PRICE: u128 = 2_000_000_000_000_000_000;
const NOW: u64 = 1_000_000;
const START: &[u8] = b"2030-01-01 00:00:00";
const LATER: &[u8] = b"2030-01-02 00:00:00";

fn config() -> Config {
    Config {
        awt_token_id: AWT,
        native_token_id: NATIVE,
        max_ticket_amount: 10,
        donor_account: DONOR,
        donation_for_agent: 5,
        max_participant_per_battle: 4,
        bvb_treasury: BVB,
    }
}

fn organizer() -> Origin {
    Origin { signer: None, is_organizer: true, is_bridge: false }
}

fn user(a: u64) -> Origin {
    Origin { signer: Some(a), is_organizer: false, is_bridge: false }
}

fn bridge() -> Origin {
    Origin { signer: None, is_organizer: false, is_bridge: true }
}

fn module(e: Error) -> DispatchError {
    DispatchError::Module(e)
}

fn book(votes: &[(u64, u16, u32)]) -> BTreeMap<(u64, u16), u32> {
    votes.iter().map(|&(who, index, npc)| ((who, index), npc)).collect()
}

fn sel(battle_id: u32, npc_id: u32) -> VoteSelect {
    VoteSelect { battle_id, npc_id }
}

/// Two NPCs, one season (the default one) whose first round is `first`, and
/// a battle of that round between the NPCs.
fn setup(first: BattleType, total_battles: u8) -> Pallet {
    let mut p = Pallet::new(config());
    p.create_npc(organizer(), b"red".to_vec(), b"r.png".to_vec(), b"story".to_vec(), b"f".to_vec())
        .unwrap();
    p.create_npc(organizer(), b"blue".to_vec(), b"b.png".to_vec(), b"story".to_vec(), b"f".to_vec())
        .unwrap();
    p.create_season(organizer(), b"S1".to_vec(), START.to_vec(), total_battles, first, PRICE)
        .unwrap();
    p.set_default_season(organizer(), 1).unwrap();
    p.create_battle(organizer(), 1, first, 1, 2, LATER.to_vec(), 0).unwrap();
    p
}

#[test]
fn new_pallet_starts_ids_at_one() {
    let p = Pallet::new(config());
    assert_eq!(p.next_season_id(), 1);
    assert_eq!(p.next_npc_id(), 1);
    assert_eq!(p.next_battle_id(), 1);
    assert_eq!(p.default_season(), 0);
    assert_eq!(p.events_len(), 0);
    assert_eq!(abyss_tournament::types::DefaultNextId(), 1);
}

#[test]
fn organizer_only() {
    let mut p = Pallet::new(config());
    assert_eq!(
        p.create_npc(user(1), vec![], vec![], vec![], vec![]),
        Err(DispatchError::BadOrigin)
    );
    assert_eq!(p.next_npc_id(), 1);
    assert_eq!(p.create_betting(user(1), vec![], vec![]), Err(DispatchError::BadOrigin));
    assert_eq!(p.create_betting(organizer(), vec![1], vec![]), Ok(()));
    assert_eq!(p.deposit(organizer(), 1, 1, Some(AWT), 0), Err(DispatchError::BadOrigin));
    assert_eq!(p.buy_ticket(organizer(), 1, vec![], NOW, PRICE), Err(DispatchError::BadOrigin));
}

#[test]
fn create_npc_and_season() {
    let p = setup(BattleType::Finals, 1);
    assert_eq!(p.next_npc_id(), 3);
    assert_eq!(p.get_npc_info(1).unwrap().name, b"red".to_vec());
    assert!(p.get_npc_info(3).is_none());
    let s = p.get_season_info(1).unwrap();
    assert_eq!(s.id, 1);
    assert_eq!(s.name, b"S1".to_vec());
    assert_eq!(s.status, SeasonStatus::Initial);
    assert_eq!(s.start_time, 1893456000);
    assert_eq!(s.treasury, Pallet::get_season_treasury(1));
    assert_eq!(s.current_round_battle_type, BattleType::Finals);
    assert_eq!(s.total_tickets, 0);
    assert_eq!(p.next_season_id(), 2);
    assert_eq!(p.default_season(), 1);
    let b = p.get_battle_info(1).unwrap();
    assert_eq!(b.season_name, b"S1".to_vec());
    assert_eq!(b.start_time, 1893542400);
    assert_eq!(b.status, BattleStatus::Running);
    assert_eq!(p.next_battle_id(), 2);
    // SeasonUpdate(false), SeasonUpdate(true), Battle.
    assert_eq!(p.events_len(), 3);
    assert!(matches!(p.event_at(0), Some(Event::SeasonUpdate(_, false))));
    assert!(matches!(p.event_at(1), Some(Event::SeasonUpdate(_, true))));
    assert!(matches!(p.event_at(2), Some(Event::Battle(1, _))));
}

#[test]
fn season_errors() {
    let mut p = Pallet::new(config());
    assert_eq!(
        p.create_season(organizer(), vec![], b"tomorrow".to_vec(), 1, BattleType::Finals, PRICE),
        Err(module(Error::TimeFormatError))
    );
    assert_eq!(
        p.create_season(
            organizer(),
            vec![],
            START.to_vec(),
            1,
            BattleType::Finals,
            1_000_000_000_000_000_000
        ),
        Err(module(Error::TicketPriceTooSmall))
    );
    assert_eq!(
        p.update_season(organizer(), 4, vec![], START.to_vec(), 1, BattleType::Finals, PRICE),
        Err(module(Error::SeasonNotFound))
    );
    assert_eq!(
        p.update_season_current_round(organizer(), 4, BattleType::Finals),
        Err(module(Error::SeasonNotFound))
    );
    assert_eq!(p.set_default_season(organizer(), 4), Err(module(Error::SeasonNotFound)));
    assert_eq!(p.next_season_id(), 1);
    assert_eq!(p.events_len(), 0);
    assert_eq!(
        p.try_create_season(organizer(), b"S".to_vec(), START.to_vec(), 1, BattleType::Finals, PRICE),
        Some(Ok(()))
    );
}

#[test]
fn update_season_fields() {
    let mut p = setup(BattleType::Finals, 1);
    p.update_season(
        organizer(),
        1,
        b"S2".to_vec(),
        LATER.to_vec(),
        3,
        BattleType::SemiFinals,
        3 * PRICE,
    )
    .unwrap();
    p.update_season_current_round(organizer(), 1, BattleType::QuarterFinals).unwrap();
    let s = p.get_season_info(1).unwrap();
    assert_eq!(s.name, b"S2".to_vec());
    assert_eq!(s.start_time, 1893542400);
    assert_eq!(s.total_battles, 3);
    assert_eq!(s.first_round_battle_type, BattleType::SemiFinals);
    assert_eq!(s.current_round_battle_type, BattleType::QuarterFinals);
    assert_eq!(s.ticket_price, 3 * PRICE);
    // The default season's updates are announced as the default one.
    assert!(matches!(p.event_at(p.events_len() - 1), Some(Event::SeasonUpdate(_, true))));
}

#[test]
fn set_default_season_announces_both() {
    let mut p = setup(BattleType::Finals, 1);
    p.create_season(organizer(), b"S2".to_vec(), START.to_vec(), 1, BattleType::Finals, PRICE)
        .unwrap();
    let before = p.events_len();
    p.set_default_season(organizer(), 2).unwrap();
    assert_eq!(p.default_season(), 2);
    assert_eq!(p.events_len(), before + 2);
    match p.event_at(before) {
        Some(Event::SeasonUpdate(s, false)) => assert_eq!(s.id, 1),
        _ => panic!("expected the old default season"),
    }
    match p.event_at(before + 1) {
        Some(Event::SeasonUpdate(s, true)) => assert_eq!(s.id, 2),
        _ => panic!("expected the new default season"),
    }
}

#[test]
fn battle_errors() {
    let mut p = setup(BattleType::Finals, 1);
    assert_eq!(
        p.create_battle(organizer(), 9, BattleType::Finals, 1, 2, LATER.to_vec(), 0),
        Err(module(Error::SeasonNotFound))
    );
    assert_eq!(
        p.create_battle(organizer(), 1, BattleType::Finals, 9, 2, LATER.to_vec(), 0),
        Err(module(Error::NpcNotFound))
    );
    assert_eq!(
        p.create_battle(organizer(), 1, BattleType::Finals, 1, 9, LATER.to_vec(), 0),
        Err(module(Error::NpcNotFound))
    );
    assert_eq!(
        p.create_battle(organizer(), 1, BattleType::Finals, 1, 2, b"x".to_vec(), 0),
        Err(module(Error::TimeFormatError))
    );
    assert_eq!(
        p.create_battle(organizer(), 1, BattleType::Finals, 1, 2, b"2029-01-01 00:00:00".to_vec(), 0),
        Err(module(Error::BattleTimeError))
    );
    assert_eq!(
        p.create_battle(organizer(), 1, BattleType::Finals, 1, 1, LATER.to_vec(), 0),
        Err(module(Error::BattleNpcCantSame))
    );
    assert_eq!(p.next_battle_id(), 2);
    assert_eq!(
        p.try_create_battle(organizer(), 1, BattleType::Finals, 2, 1, LATER.to_vec(), 3),
        Some(Ok(()))
    );
    assert_eq!(p.next_battle_id(), 3);
}

#[test]
fn update_battle_resets_it() {
    let mut p = setup(BattleType::Finals, 1);
    p.set_result(organizer(), 1, 2, 1, b"v".to_vec()).unwrap();
    p.update_battle(organizer(), 1, 1, BattleType::Regular, 2, 1, LATER.to_vec(), 4).unwrap();
    let b = p.get_battle_info(1).unwrap();
    assert_eq!(b.status, BattleStatus::Running);
    assert_eq!(b.home, 2);
    assert_eq!(b.battle_type, BattleType::Regular);
    assert_eq!(b.home_score, None);
    assert_eq!(b.position, 4);
    // An id never handed out can be written too.
    p.update_battle(organizer(), 50, 1, BattleType::Regular, 1, 2, LATER.to_vec(), 0).unwrap();
    assert!(p.get_battle_info(50).is_some());
    assert_eq!(p.next_battle_id(), 2);
}

#[test]
fn give_away_tickets_counts_each_address() {
    let mut p = setup(BattleType::Finals, 1);
    let list: Vec<Vec<u8>> = vec![5u64.encode(), vec![5u8], 6u64.encode()];
    p.give_away_tickets(organizer(), 1, list.encode()).unwrap();
    assert_eq!(p.get_ticket(1, 5), (2, 2));
    assert_eq!(p.get_ticket(1, 6), (1, 1));
    assert_eq!(p.get_ticket(1, 7), (0, 0));
    assert_eq!(p.try_give_away_tickets(organizer(), 1, list.encode()), Some(Ok(())));
    assert_eq!(p.get_ticket(1, 5), (4, 4));
}

#[test]
fn give_away_rejects_bad_list() {
    let mut p = setup(BattleType::Finals, 1);
    assert_eq!(
        p.give_away_tickets(organizer(), 1, vec![3]),
        Err(module(Error::AddrListInputError))
    );
    assert_eq!(p.give_away_fee(organizer(), vec![3]), Err(module(Error::AddrListInputError)));
    assert_eq!(p.give_away_tickets(user(1), 1, vec![]), Err(DispatchError::BadOrigin));
}

#[test]
fn give_away_fee_donates() {
    let mut p = setup(BattleType::Finals, 1);
    let list: Vec<Vec<u8>> = vec![5u64.encode(), 6u64.encode()];
    let acts = p.give_away_fee(organizer(), list.encode()).unwrap();
    assert_eq!(
        acts,
        vec![
            TokenAction::Transfer { from: DONOR, token: NATIVE, amount: 5, to: 5, must_succeed: false },
            TokenAction::Transfer { from: DONOR, token: NATIVE, amount: 5, to: 6, must_succeed: false },
        ]
    );
}

#[test]
fn deposit_mints_and_donates_to_new_accounts() {
    let mut p = Pallet::new(config());
    assert_eq!(p.deposit(bridge(), 100, 50, None, 0), Err(module(Error::InvalidResourceId)));
    assert_eq!(
        p.deposit(bridge(), 100, 50, Some(AWT), 0),
        Ok(vec![
            TokenAction::Mint { token: AWT, to: 100, amount: 50 },
            TokenAction::Transfer { from: DONOR, token: NATIVE, amount: 5, to: 100, must_succeed: false },
        ])
    );
    assert_eq!(
        p.deposit(bridge(), 100, 50, Some(AWT), 3),
        Ok(vec![TokenAction::Mint { token: AWT, to: 100, amount: 50 }])
    );
}

#[test]
fn withdraw_from_treasury() {
    let mut p = setup(BattleType::Finals, 1);
    assert_eq!(
        p.withdraw_season_treasury(organizer(), 1, 300, 40),
        Ok(vec![TokenAction::Transfer {
            from: Pallet::get_season_treasury(1),
            token: AWT,
            amount: 40,
            to: 300,
            must_succeed: true,
        }])
    );
    assert_eq!(
        p.withdraw_season_treasury(organizer(), 2, 300, 40),
        Err(module(Error::SeasonNotFound))
    );
}

#[test]
fn buy_ticket_with_invite_code() {
    let mut p = setup(BattleType::Finals, 1);
    let acts = p.buy_ticket(user(100), 2, Pallet::addr_to_invite_code(200), NOW, 10 * PRICE).unwrap();
    let treasury = Pallet::get_season_treasury(1);
    assert_eq!(
        acts,
        vec![
            TokenAction::Transfer {
                from: 100,
                token: AWT,
                amount: 3_400_000_000_000_000_000,
                to: treasury,
                must_succeed: true,
            },
            TokenAction::Transfer {
                from: 100,
                token: AWT,
                amount: 200_000_000_000_000_000,
                to: 200,
                must_succeed: true,
            },
            TokenAction::Transfer {
                from: 100,
                token: AWT,
                amount: 400_000_000_000_000_000,
                to: BVB,
                must_succeed: true,
            },
        ]
    );
    let total: u128 = acts
        .iter()
        .map(|a| match a {
            TokenAction::Transfer { amount, .. } => *amount,
            TokenAction::Mint { amount, .. } => *amount,
        })
        .sum();
    assert_eq!(total, 2 * PRICE);
    assert_eq!(p.get_ticket(1, 100), (2, 2));
    assert_eq!(p.get_season_info(1).unwrap().total_tickets, 2);
    assert!(p.get_invite_records(100));
    let (code, invited, earned) = p.get_invite_code(200);
    assert_eq!(code, Vec::<u8>::new());
    assert_eq!(invited, 1);
    assert_eq!(earned, 200_000_000_000_000_000);
}

#[test]
fn buy_ticket_own_code_pays_no_inviter() {
    let mut p = setup(BattleType::Finals, 1);
    let acts = p
        .try_buy_ticket(user(100), 1, Pallet::addr_to_invite_code(100), NOW, PRICE)
        .unwrap()
        .unwrap();
    assert_eq!(acts.len(), 2);
    assert_eq!(
        acts[1],
        TokenAction::Transfer {
            from: 100,
            token: AWT,
            amount: 300_000_000_000_000_000,
            to: BVB,
            must_succeed: true,
        }
    );
    assert!(!p.get_invite_records(100));
}

#[test]
fn buy_ticket_errors() {
    let mut p = Pallet::new(config());
    assert_eq!(
        p.buy_ticket(user(100), 1, vec![], NOW, PRICE),
        Err(module(Error::DefaultSeasonNotFound))
    );
    let mut p = setup(BattleType::Finals, 1);
    assert_eq!(
        p.buy_ticket(user(100), 1, vec![], 1_893_456_000_000, PRICE),
        Err(module(Error::BuyTicketOverTime))
    );
    assert_eq!(p.buy_ticket(user(100), 0, vec![], NOW, PRICE), Err(module(Error::TicketAmountError)));
    assert_eq!(
        p.buy_ticket(user(100), 11, vec![], NOW, 100 * PRICE),
        Err(module(Error::TicketAmountError))
    );
    assert_eq!(
        p.buy_ticket(user(100), 2, vec![], NOW, PRICE),
        Err(module(Error::InsufficientBalance))
    );
    assert_eq!(p.get_ticket(1, 100), (0, 0));
}

#[test]
fn initial_vote_places_votes() {
    let mut p = setup(BattleType::Finals, 1);
    p.buy_ticket(user(100), 2, vec![], NOW, 10 * PRICE).unwrap();
    p.initial_vote(user(100), 1, 2, vec![sel(1, 1)], NOW).unwrap();
    let (infos, claimed) = p.get_vote_infos(100, 1);
    assert!(!claimed);
    assert_eq!(infos.len(), 1);
    assert_eq!(infos[0].ticket_amount, 2);
    assert_eq!(infos[0].selects, vec![sel(1, 1)]);
    assert_eq!(p.get_ticket(1, 100), (2, 0));
    assert_eq!(p.get_votes_for_cal(1), book(&[(100, 0, 1)]));
}

#[test]
fn votes_kept_in_order() {
    let mut p = setup(BattleType::Finals, 1);
    for who in [30u64, 10, 20] {
        p.buy_ticket(user(who), 2, vec![], NOW, 10 * PRICE).unwrap();
        p.initial_vote(user(who), 1, 1, vec![sel(1, 2)], NOW).unwrap();
    }
    p.initial_vote(user(10), 1, 1, vec![sel(1, 1)], NOW).unwrap();
    assert_eq!(p.get_votes_for_cal(1), book(&[(10, 0, 2), (10, 1, 1), (20, 0, 2), (30, 0, 2)]));
    // Settling awards the selections by voter, then by index.
    p.set_result(organizer(), 1, 0, 1, vec![]).unwrap();
    let before = p.events_len();
    p.settle(organizer(), 1).unwrap();
    let mut awarded = Vec::new();
    for i in before..p.events_len() {
        if let Some(Event::ParticipantPoints(_, who, _, won, _)) = p.event_at(i) {
            awarded.push((who, won));
        }
    }
    assert_eq!(awarded, vec![(10, 1), (10, 0), (20, 1), (30, 1)]);
}

#[test]
fn initial_vote_errors() {
    let mut p = setup(BattleType::Finals, 1);
    p.create_battle(organizer(), 1, BattleType::Regular, 1, 2, LATER.to_vec(), 0).unwrap();
    p.buy_ticket(user(100), 5, vec![], NOW, 10 * PRICE).unwrap();
    assert_eq!(p.initial_vote(user(100), 1, 1, vec![], NOW), Err(module(Error::VoteSelectZero)));
    assert_eq!(
        p.initial_vote(user(100), 9, 1, vec![sel(1, 1)], NOW),
        Err(module(Error::SeasonNotFound))
    );
    assert_eq!(
        p.initial_vote(user(100), 1, 6, vec![sel(1, 1)], NOW),
        Err(module(Error::TicketAmountError))
    );
    assert_eq!(
        p.initial_vote(user(100), 1, 1, vec![sel(9, 1)], NOW),
        Err(module(Error::BattleNotFound))
    );
    assert_eq!(
        p.initial_vote(user(100), 1, 1, vec![sel(1, 3)], NOW),
        Err(module(Error::NpcNotInBattle))
    );
    assert_eq!(
        p.initial_vote(user(100), 1, 1, vec![sel(2, 1)], NOW),
        Err(module(Error::BattleTypeError))
    );
    assert_eq!(
        p.initial_vote(user(100), 1, 1, vec![sel(1, 1)], 1_893_542_400_000),
        Err(module(Error::BettingOverTime))
    );
    assert_eq!(
        p.initial_vote(user(100), 1, 1, vec![sel(1, 1), sel(1, 2)], NOW),
        Err(module(Error::DuplicateBetting))
    );
    // Nothing of the refused votes stayed.
    assert!(p.get_votes_for_cal(1).is_empty());
    assert_eq!(p.get_ticket(1, 100), (5, 5));
    p.set_result(organizer(), 1, 1, 0, vec![]).unwrap();
    assert_eq!(
        p.initial_vote(user(100), 1, 1, vec![sel(1, 1)], NOW),
        Err(module(Error::BattleStatusError))
    );
}

#[test]
fn initial_vote_other_season_battle() {
    let mut p = setup(BattleType::Finals, 1);
    p.create_season(organizer(), b"S2".to_vec(), START.to_vec(), 1, BattleType::Finals, PRICE)
        .unwrap();
    p.create_battle(organizer(), 2, BattleType::Finals, 1, 2, LATER.to_vec(), 0).unwrap();
    p.buy_ticket(user(100), 1, vec![], NOW, PRICE).unwrap();
    assert_eq!(
        p.initial_vote(user(100), 1, 1, vec![sel(2, 1)], NOW),
        Err(module(Error::BattleNotInSeason))
    );
}

#[test]
fn votes_overflow_a_full_battle() {
    let mut p = setup(BattleType::Finals, 1);
    for who in 1u64..=5 {
        p.buy_ticket(user(who), 1, vec![], NOW, PRICE).unwrap();
    }
    for who in 1u64..=4 {
        p.initial_vote(user(who), 1, 1, vec![sel(1, 1)], NOW).unwrap();
    }
    assert_eq!(
        p.initial_vote(user(5), 1, 1, vec![sel(1, 1)], NOW),
        Err(module(Error::ParticipantOverflow))
    );
    assert_eq!(p.get_votes_for_cal(1).len(), 4);
}

#[test]
fn set_result_records_winner() {
    let mut p = setup(BattleType::Finals, 1);
    p.set_result(organizer(), 1, 1, 3, b"video".to_vec()).unwrap();
    let b = p.get_battle_info(1).unwrap();
    assert_eq!(b.status, BattleStatus::Completed);
    assert_eq!(b.home_score, Some(1));
    assert_eq!(b.visiting_score, Some(3));
    assert_eq!(b.video_url, b"video".to_vec());
    assert_eq!(p.get_season_winners(1).get(&1), Some(&2));
    assert_eq!(p.set_result(organizer(), 9, 1, 3, vec![]), Err(module(Error::BattleNotFound)));
}

#[test]
fn set_result_overflows_full_season() {
    let mut p = setup(BattleType::Regular, 1);
    for _ in 0..4 {
        p.create_battle(organizer(), 1, BattleType::Regular, 1, 2, LATER.to_vec(), 0).unwrap();
    }
    for id in 1u32..=4 {
        p.set_result(organizer(), id, 2, 2, vec![]).unwrap();
    }
    assert_eq!(p.get_season_winners(1).len(), 4);
    assert_eq!(p.set_result(organizer(), 5, 2, 1, vec![]), Err(module(Error::ParticipantOverflow)));
    // A battle whose result is set already may be set again.
    p.set_result(organizer(), 4, 3, 1, vec![]).unwrap();
    assert_eq!(p.get_season_winners(1).get(&4), Some(&1));
}

#[test]
fn settle_regular_battle_points() {
    let mut p = setup(BattleType::Regular, 1);
    p.buy_ticket(user(100), 2, vec![], NOW, 10 * PRICE).unwrap();
    p.buy_ticket(user(101), 2, vec![], NOW, 10 * PRICE).unwrap();
    p.initial_vote(user(100), 1, 2, vec![sel(1, 1)], NOW).unwrap();
    p.initial_vote(user(101), 1, 2, vec![sel(1, 2)], NOW).unwrap();
    assert_eq!(p.settle(organizer(), 1), Err(module(Error::BattleStatusError)));
    p.set_result(organizer(), 1, 4, 1, vec![]).unwrap();
    let before = p.events_len();
    p.settle(organizer(), 1).unwrap();
    assert_eq!(p.get_npc_point(1, 1), (1, 1, 3, 3));
    assert_eq!(p.get_npc_point(1, 2), (1, 0, 0, -3));
    assert_eq!(p.get_participant_point(1, (100, 0)), (1, 1, 3));
    assert_eq!(p.get_participant_point(1, (101, 0)), (1, 0, 0));
    assert_eq!(p.get_battle_info(1).unwrap().status, BattleStatus::Finalized);
    // Two NPC events for a regular battle, then two events per vote.
    assert_eq!(p.events_len(), before + 6);
    assert_eq!(p.event_at(before), Some(Event::NpcPoints(1, 1, 1, 1, 3, 3)));
    assert_eq!(p.event_at(before + 1), Some(Event::NpcPoints(1, 2, 1, 0, 0, -3)));
    assert_eq!(p.event_at(before + 2), Some(Event::ParticipantPoints(1, 100, 1, 1, 3)));
    assert!(matches!(p.event_at(before + 3), Some(Event::ParticipantPointRecord(100, 1, _, 1))));
    assert_eq!(p.event_at(before + 4), Some(Event::ParticipantPoints(1, 101, 1, 0, 0)));
    // A battle is settled once.
    assert_eq!(p.settle(organizer(), 1), Err(module(Error::BattleStatusError)));
    assert_eq!(p.settle(organizer(), 9), Err(module(Error::BattleNotFound)));
}

#[test]
fn full_season_and_claim() {
    let mut p = setup(BattleType::Finals, 1);
    p.buy_ticket(user(100), 2, Pallet::addr_to_invite_code(200), NOW, 10 * PRICE).unwrap();
    p.initial_vote(user(100), 1, 2, vec![sel(1, 1)], NOW).unwrap();
    p.set_result(organizer(), 1, 3, 1, b"url".to_vec()).unwrap();
    p.settle(organizer(), 1).unwrap();
    assert_eq!(p.get_season_info(1).unwrap().champion, Some(1));
    assert_eq!(p.claim(user(100), 1), Err(module(Error::SeasonStatusError)));
    p.close_season(organizer(), 1, 4 * PRICE).unwrap();
    let s = p.get_season_info(1).unwrap();
    assert_eq!(s.status, SeasonStatus::Finalized);
    assert_eq!(
        s.bonus_strategy,
        vec![(1, 2, 7_000_000_000_000_000_000), (0, 0, 1_000_000_000_000_000_000)]
    );
    let acts = p.claim(user(100), 1).unwrap();
    assert_eq!(
        acts,
        vec![TokenAction::Transfer {
            from: Pallet::get_season_treasury(1),
            token: AWT,
            amount: 7_000_000_000_000_000_000,
            to: 100,
            must_succeed: true,
        }]
    );
    assert!(p.get_vote_infos(100, 1).1);
    // An account claims once.
    assert_eq!(p.claim(user(100), 1), Err(module(Error::HaveNoBonus)));
    assert_eq!(p.claim(user(101), 1), Err(module(Error::HaveNoBonus)));
    assert_eq!(p.claim(user(100), 2), Err(module(Error::SeasonNotFound)));
}

#[test]
fn close_season_runner_up() {
    let mut p = setup(BattleType::Regular, 2);
    p.create_battle(organizer(), 1, BattleType::Regular, 2, 1, LATER.to_vec(), 1).unwrap();
    p.buy_ticket(user(100), 3, vec![], NOW, 10 * PRICE).unwrap();
    p.buy_ticket(user(101), 1, vec![], NOW, 10 * PRICE).unwrap();
    p.initial_vote(user(100), 1, 3, vec![sel(1, 1), sel(2, 2)], NOW).unwrap();
    p.initial_vote(user(101), 1, 1, vec![sel(1, 1), sel(2, 1)], NOW).unwrap();
    p.set_result(organizer(), 1, 2, 0, vec![]).unwrap();
    p.set_result(organizer(), 2, 2, 0, vec![]).unwrap();
    p.settle(organizer(), 1).unwrap();
    p.settle(organizer(), 2).unwrap();
    p.close_season(organizer(), 1, 80).unwrap();
    let s = p.get_season_info(1).unwrap();
    assert_eq!(s.bonus_strategy, vec![(2, 3, 70), (1, 1, 10)]);
    assert_eq!(
        p.claim(user(101), 1).unwrap(),
        vec![TokenAction::Transfer {
            from: Pallet::get_season_treasury(1),
            token: AWT,
            amount: 10,
            to: 101,
            must_succeed: true,
        }]
    );
    // 70 shared by 3 tickets: 23 each.
    match p.claim(user(100), 1).unwrap()[0] {
        TokenAction::Transfer { amount, .. } => assert_eq!(amount, 69),
        _ => panic!("expected a transfer"),
    }
}

#[test]
fn append_vote_with_all_tickets() {
    let mut p = setup(BattleType::SemiFinals, 2);
    p.create_battle(organizer(), 1, BattleType::Finals, 1, 2, LATER.to_vec(), 0).unwrap();
    p.buy_ticket(user(100), 4, vec![], NOW, 10 * PRICE).unwrap();
    p.initial_vote(user(100), 1, 4, vec![sel(1, 1)], NOW).unwrap();
    p.append_vote(user(100), 1, 0, 1, 4, vec![sel(2, 2)], NOW).unwrap();
    let (infos, _) = p.get_vote_infos(100, 1);
    assert_eq!(infos.len(), 1);
    assert_eq!(infos[0].selects, vec![sel(1, 1), sel(2, 2)]);
    assert_eq!(p.get_votes_for_cal(2), book(&[(100, 0, 2)]));
}

#[test]
fn append_vote_with_some_tickets_splits() {
    let mut p = setup(BattleType::SemiFinals, 2);
    p.create_battle(organizer(), 1, BattleType::Finals, 1, 2, LATER.to_vec(), 0).unwrap();
    p.buy_ticket(user(100), 4, vec![], NOW, 10 * PRICE).unwrap();
    p.initial_vote(user(100), 1, 4, vec![sel(1, 1)], NOW).unwrap();
    p.append_vote(user(100), 1, 0, 1, 1, vec![sel(2, 2)], NOW).unwrap();
    let (infos, _) = p.get_vote_infos(100, 1);
    assert_eq!(infos.len(), 2);
    assert_eq!(infos[0].ticket_amount, 3);
    assert_eq!(infos[0].selects, vec![sel(1, 1)]);
    assert_eq!(infos[1].ticket_amount, 1);
    assert_eq!(infos[1].selects, vec![sel(1, 1), sel(2, 2)]);
    assert_eq!(p.get_votes_for_cal(1), book(&[(100, 0, 1), (100, 1, 1)]));
    assert_eq!(p.get_votes_for_cal(2), book(&[(100, 1, 2)]));
    assert_eq!(p.get_participant_point(1, (100, 1)), (0, 0, 0));
}

#[test]
fn append_vote_errors() {
    let mut p = setup(BattleType::SemiFinals, 2);
    p.create_battle(organizer(), 1, BattleType::Finals, 1, 2, LATER.to_vec(), 0).unwrap();
    p.buy_ticket(user(100), 4, vec![], NOW, 10 * PRICE).unwrap();
    p.initial_vote(user(100), 1, 4, vec![sel(1, 1)], NOW).unwrap();
    assert_eq!(p.append_vote(user(100), 1, 0, 1, 4, vec![], NOW), Err(module(Error::VoteSelectZero)));
    assert_eq!(
        p.append_vote(user(100), 9, 0, 1, 4, vec![sel(2, 2)], NOW),
        Err(module(Error::SeasonNotFound))
    );
    assert_eq!(
        p.append_vote(user(100), 1, 0, 2, 4, vec![sel(2, 2)], NOW),
        Err(module(Error::BattleTypeError))
    );
    assert_eq!(
        p.append_vote(user(100), 1, 0, 3, 4, vec![sel(2, 2)], NOW),
        Err(module(Error::BattleTypeError))
    );
    assert_eq!(
        p.append_vote(user(100), 1, 1, 1, 4, vec![sel(2, 2)], NOW),
        Err(module(Error::SelectIndexOverflow))
    );
    assert_eq!(
        p.append_vote(user(100), 1, 0, 1, 5, vec![sel(2, 2)], NOW),
        Err(module(Error::TicketAmountError))
    );
    assert_eq!(
        p.append_vote(user(100), 1, 0, 1, 4, vec![sel(1, 2)], NOW),
        Err(module(Error::DuplicateBetting))
    );
    assert_eq!(
        p.append_vote(user(100), 1, 0, 1, 2, vec![sel(3, 2)], NOW),
        Err(module(Error::BattleNotFound))
    );
    assert_eq!(
        p.append_vote(user(100), 1, 0, 1, 4, vec![sel(2, 7)], NOW),
        Err(module(Error::NpcNotInBattle))
    );
    let (infos, _) = p.get_vote_infos(100, 1);
    assert_eq!(infos.len(), 1);
    assert_eq!(infos[0].ticket_amount, 4);
}

#[test]
fn panic_checks_before_settle_close_and_claim() {
    let mut p = setup(BattleType::Regular, 2);
    p.create_battle(organizer(), 1, BattleType::Regular, 2, 1, LATER.to_vec(), 1).unwrap();
    p.buy_ticket(user(100), 1, vec![], NOW, 10 * PRICE).unwrap();
    p.initial_vote(user(100), 1, 1, vec![sel(1, 1), sel(2, 2)], NOW).unwrap();
    // Not completed yet: settling is refused, not a panic.
    assert!(!p.settle_would_panic(organizer(), 1));
    p.set_result(organizer(), 1, 2, 0, vec![]).unwrap();
    assert!(!p.settle_would_panic(organizer(), 1));
    assert!(!p.settle_would_panic(user(100), 1));
    p.settle(organizer(), 1).unwrap();
    // A treasury balance whose seven eighths overflow.
    assert!(p.close_season_would_panic(organizer(), 1, u128::MAX));
    assert!(!p.close_season_would_panic(organizer(), 1, 80));
    assert!(!p.close_season_would_panic(user(100), 1, u128::MAX));
    p.close_season(organizer(), 1, 80).unwrap();
    // Battle 2 has no winner: the claim would panic.
    assert!(p.claim_would_panic(user(100), 1));
    assert!(!p.claim_would_panic(user(101), 1));
}

#[test]
fn close_season_without_battles_would_panic() {
    let mut p = Pallet::new(config());
    p.create_season(organizer(), b"S0".to_vec(), START.to_vec(), 0, BattleType::Regular, PRICE)
        .unwrap();
    assert!(p.close_season_would_panic(organizer(), 1, 10));
    assert!(!p.close_season_would_panic(organizer(), 2, 10));
}

fn staked_plus_left(p: &Pallet, season: u32, who: u64) -> (u32, u32) {
    let staked: u32 = p.get_vote_infos(who, season).0.iter().map(|i| i.ticket_amount).sum();
    let (bought, left) = p.get_ticket(season, who);
    (staked + left, bought)
}

#[test]
fn tickets_stay_accounted_for() {
    let mut p = setup(BattleType::SemiFinals, 2);
    p.create_battle(organizer(), 1, BattleType::Finals, 1, 2, LATER.to_vec(), 0).unwrap();
    p.buy_ticket(user(100), 5, vec![], NOW, 10 * PRICE).unwrap();
    let list: Vec<Vec<u8>> = vec![100u64.encode()];
    p.give_away_tickets(organizer(), 1, list.encode()).unwrap();
    assert_eq!(staked_plus_left(&p, 1, 100), (6, 6));
    p.initial_vote(user(100), 1, 4, vec![sel(1, 1)], NOW).unwrap();
    assert_eq!(p.get_ticket(1, 100), (6, 2));
    assert_eq!(staked_plus_left(&p, 1, 100), (6, 6));
    p.append_vote(user(100), 1, 0, 1, 1, vec![sel(2, 2)], NOW).unwrap();
    assert_eq!(staked_plus_left(&p, 1, 100), (6, 6));
    p.initial_vote(user(100), 1, 2, vec![sel(1, 2)], NOW).unwrap();
    assert_eq!(p.get_ticket(1, 100), (6, 0));
    assert_eq!(staked_plus_left(&p, 1, 100), (6, 6));
}

#[test]
fn points_count_three_per_win() {
    let mut p = setup(BattleType::Regular, 2);
    p.create_battle(organizer(), 1, BattleType::Regular, 2, 1, LATER.to_vec(), 1).unwrap();
    p.buy_ticket(user(100), 1, vec![], NOW, 10 * PRICE).unwrap();
    p.initial_vote(user(100), 1, 1, vec![sel(1, 1), sel(2, 1)], NOW).unwrap();
    p.set_result(organizer(), 1, 2, 0, vec![]).unwrap();
    p.set_result(organizer(), 2, 2, 0, vec![]).unwrap();
    p.settle(organizer(), 1).unwrap();
    p.settle(organizer(), 2).unwrap();
    // Battle 1 won by NPC 1 (home), battle 2 won by NPC 2 (home).
    let (games, wins, points) = p.get_participant_point(1, (100, 0));
    assert_eq!((games, wins, points), (2, 1, 3));
    assert!(wins <= games && points == 3 * wins as u32);
}
