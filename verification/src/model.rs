//! The pallet's storage as mathematical values, and what each extrinsic does
//! to it.
use vstd::prelude::*;
use crate::types::{
    AccountId, Balance, BattleId, BattleStatus, BattleType, BattleView, Config, DispatchError,
    Error, EventView, NpcId, NpcView, Origin, SeasonId, SeasonStatus, SeasonView, SelectIndex,
    TokenAction, TokenId, VoteSelect, VoteSelectInfoView, Vote, BattleAbstract, battle_abstract_of,
    battle_type_code, battle_type_of_code,
};
use crate::time::date_timestamp;
use crate::votes::{battle_ids, has_repeat, appends_repeat};
use crate::codec::{season_treasury, scale_byte_lists, account_of_bytes, invite_code_account};
use crate::rewards::{bonus_share, invitor_share, champion_share, ticket_bonus};

verus! {

/// The pallet's storage. Maps hold exactly the entries that storage holds;
/// where storage answers a missing key with a default, the `*_of` functions
/// below do too.
#[verifier::ext_equal]
pub struct PalletView {
    pub config: Config,
    pub next_season_id: u32,
    pub next_npc_id: u32,
    pub next_battle_id: u32,
    pub default_season: SeasonId,
    pub npcs: Map<NpcId, NpcView>,
    pub battles: Map<BattleId, BattleView>,
    pub season_winners: Map<SeasonId, Map<BattleId, NpcId>>,
    pub seasons: Map<SeasonId, SeasonView>,
    pub participant_points: Map<(SeasonId, AccountId, SelectIndex), (u8, u8, u32)>,
    pub npc_points: Map<(SeasonId, NpcId), (u8, u8, u32, i32)>,
    pub tickets: Map<(SeasonId, AccountId), (u32, u32)>,
    pub invite_code: Map<AccountId, (Seq<u8>, u32, Balance)>,
    pub invite_records: Map<AccountId, bool>,
    pub vote_select_infos: Map<(AccountId, SeasonId), (Seq<VoteSelectInfoView>, bool)>,
    pub votes_for_calc: Map<BattleId, Seq<Vote>>,
    pub events: Seq<EventView>,
}

/// The votes of a battle are held as a list ordered by voter, then by
/// selection index, as the bounded ordered map of storage holds them.
/// `a` comes before the key `(who, index)`.
pub open spec fn vote_before(a: Vote, who: AccountId, index: SelectIndex) -> bool {
    a.who < who || (a.who == who && a.index < index)
}

/// The list holds a vote of the selection `(who, index)`.
pub open spec fn book_contains(es: Seq<Vote>, who: AccountId, index: SelectIndex) -> bool {
    exists|i: int| 0 <= i < es.len() && es[i].who == who && es[i].index == index
}

/// The list with `v` in its place: replacing the vote of the same selection,
/// else before the first vote that comes after it.
pub open spec fn book_insert(es: Seq<Vote>, v: Vote) -> Seq<Vote>
    decreases es.len(),
{
    if es.len() == 0 {
        seq![v]
    } else if vote_before(es[0], v.who, v.index) {
        seq![es[0]] + book_insert(es.drop_first(), v)
    } else if es[0].who == v.who && es[0].index == v.index {
        seq![v] + es.drop_first()
    } else {
        seq![v] + es
    }
}

/// The list is strictly ordered by voter, then by index.
pub open spec fn book_sorted(es: Seq<Vote>) -> bool {
    forall|i: int, j: int| 0 <= i < j < es.len() ==> vote_before(es[i], es[j].who, es[j].index)
}

/// The votes of a list as a map from selections to the NPCs they chose.
pub open spec fn book_map(es: Seq<Vote>) -> Map<(AccountId, SelectIndex), NpcId>
    decreases es.len(),
{
    if es.len() == 0 {
        Map::empty()
    } else {
        book_map(es.drop_last()).insert((es.last().who, es.last().index), es.last().npc)
    }
}

/// A full list refuses a vote of a new selection.
pub open spec fn book_refuses(es: Seq<Vote>, bound: u32, who: AccountId, index: SelectIndex) -> bool {
    es.len() >= bound && !book_contains(es, who, index)
}

/// The storage of a new chain.
pub open spec fn genesis(config: Config) -> PalletView {
    PalletView {
        config,
        next_season_id: 1,
        next_npc_id: 1,
        next_battle_id: 1,
        default_season: 0,
        npcs: Map::empty(),
        battles: Map::empty(),
        season_winners: Map::empty(),
        seasons: Map::empty(),
        participant_points: Map::empty(),
        npc_points: Map::empty(),
        tickets: Map::empty(),
        invite_code: Map::empty(),
        invite_records: Map::empty(),
        vote_select_infos: Map::empty(),
        votes_for_calc: Map::empty(),
        events: Seq::empty(),
    }
}

impl PalletView {
    /// `(tickets bought, tickets left)` of an account in a season.
    pub open spec fn tickets_of(self, season: SeasonId, who: AccountId) -> (u32, u32) {
        if self.tickets.contains_key((season, who)) {
            self.tickets[(season, who)]
        } else {
            (0, 0)
        }
    }

    /// An account's selections in a season, and whether it has claimed.
    pub open spec fn infos_of(self, who: AccountId, season: SeasonId) -> (
        Seq<VoteSelectInfoView>,
        bool,
    ) {
        if self.vote_select_infos.contains_key((who, season)) {
            self.vote_select_infos[(who, season)]
        } else {
            (Seq::empty(), false)
        }
    }

    /// The winner of each battle of a season whose result is set.
    pub open spec fn winners_of(self, season: SeasonId) -> Map<BattleId, NpcId> {
        if self.season_winners.contains_key(season) {
            self.season_winners[season]
        } else {
            Map::empty()
        }
    }

    /// The votes of the selections in a battle, by voter and index.
    pub open spec fn votes_of(self, battle: BattleId) -> Seq<Vote> {
        if self.votes_for_calc.contains_key(battle) {
            self.votes_for_calc[battle]
        } else {
            Seq::empty()
        }
    }

    /// `(battles, won battles, points)` of a selection in a season.
    pub open spec fn participant_point_of(self, key: (SeasonId, AccountId, SelectIndex)) -> (
        u8,
        u8,
        u32,
    ) {
        if self.participant_points.contains_key(key) {
            self.participant_points[key]
        } else {
            (0, 0, 0)
        }
    }

    /// `(battles, won battles, points, score difference)` of an NPC in a season.
    pub open spec fn npc_point_of(self, key: (SeasonId, NpcId)) -> (u8, u8, u32, i32) {
        if self.npc_points.contains_key(key) {
            self.npc_points[key]
        } else {
            (0, 0, 0, 0)
        }
    }

    /// `(code, invited accounts, earned)` of an inviter.
    pub open spec fn invite_of(self, who: AccountId) -> (Seq<u8>, u32, Balance) {
        if self.invite_code.contains_key(who) {
            self.invite_code[who]
        } else {
            (Seq::empty(), 0, 0)
        }
    }
}

/// What an extrinsic does: refused with an error, storage unchanged; or done,
/// with the new storage and the token movements it asks for.
pub type Outcome = Result<(PalletView, Seq<TokenAction>), DispatchError>;

pub open spec fn done(s: PalletView) -> Outcome {
    Ok((s, Seq::empty()))
}

pub open spec fn done_with(s: PalletView, actions: Seq<TokenAction>) -> Outcome {
    Ok((s, actions))
}

pub open spec fn refused(e: Error) -> Outcome {
    Err(DispatchError::Module(e))
}

pub open spec fn bad_origin() -> Outcome {
    Err(DispatchError::BadOrigin)
}

/// The smallest ticket price is above this (a token of 18 decimals).
pub open spec fn min_ticket_price() -> Balance {
    1000000000000000000
}

/// The event announcing a season, marked whether it is the default one.
pub open spec fn season_event(s: PalletView, season: SeasonView, id: SeasonId) -> EventView {
    EventView::SeasonUpdate(season, s.default_season == id)
}

pub open spec fn create_npc_step(s: PalletView, origin: Origin, npc: NpcView) -> Outcome {
    if !origin.is_organizer {
        bad_origin()
    } else {
        done(
            PalletView {
                npcs: s.npcs.insert(s.next_npc_id, npc),
                next_npc_id: (s.next_npc_id + 1) as u32,
                ..s
            },
        )
    }
}

/// A new season as `create_season` makes it.
pub open spec fn new_season(
    id: SeasonId,
    name: Seq<u8>,
    start_time: u64,
    total_battles: u8,
    first_round_battle_type: BattleType,
    ticket_price: Balance,
) -> SeasonView {
    SeasonView {
        id,
        name,
        status: SeasonStatus::Initial,
        treasury: season_treasury(id),
        start_time,
        total_battles,
        bonus_strategy: Seq::empty(),
        ticket_price,
        first_round_battle_type,
        current_round_battle_type: first_round_battle_type,
        champion: None,
        total_tickets: 0,
    }
}

pub open spec fn create_season_step(
    s: PalletView,
    origin: Origin,
    name: Seq<u8>,
    start_time_str: Seq<u8>,
    total_battles: u8,
    first_round_battle_type: BattleType,
    ticket_price: Balance,
) -> Outcome {
    if !origin.is_organizer {
        bad_origin()
    } else {
        match date_timestamp(start_time_str) {
            Err(_) => refused(Error::TimeFormatError),
            Ok(start_time) => if ticket_price <= min_ticket_price() {
                refused(Error::TicketPriceTooSmall)
            } else {
                let id = s.next_season_id;
                let season = new_season(
                    id,
                    name,
                    start_time,
                    total_battles,
                    first_round_battle_type,
                    ticket_price,
                );
                done(
                    PalletView {
                        seasons: s.seasons.insert(id, season),
                        next_season_id: (id + 1) as u32,
                        events: s.events.push(EventView::SeasonUpdate(season, false)),
                        ..s
                    },
                )
            },
        }
    }
}

/// `create_season` would add one to a season counter that is at its limit.
pub open spec fn create_season_overflows(
    s: PalletView,
    origin: Origin,
    start_time_str: Seq<u8>,
    ticket_price: Balance,
) -> bool {
    &&& origin.is_organizer
    &&& date_timestamp(start_time_str) is Ok
    &&& ticket_price > min_ticket_price()
    &&& s.next_season_id == u32::MAX
}

pub open spec fn update_season_current_round_step(
    s: PalletView,
    origin: Origin,
    season_id: SeasonId,
    battle_type: BattleType,
) -> Outcome {
    if !origin.is_organizer {
        bad_origin()
    } else if !s.seasons.contains_key(season_id) {
        refused(Error::SeasonNotFound)
    } else {
        let season = SeasonView { current_round_battle_type: battle_type, ..s.seasons[season_id] };
        done(
            PalletView {
                seasons: s.seasons.insert(season_id, season),
                events: s.events.push(season_event(s, season, season_id)),
                ..s
            },
        )
    }
}

pub open spec fn update_season_step(
    s: PalletView,
    origin: Origin,
    season_id: SeasonId,
    name: Seq<u8>,
    start_time_str: Seq<u8>,
    total_battles: u8,
    first_round_battle_type: BattleType,
    ticket_price: Balance,
) -> Outcome {
    if !origin.is_organizer {
        bad_origin()
    } else {
        match date_timestamp(start_time_str) {
            Err(_) => refused(Error::TimeFormatError),
            Ok(start_time) => if ticket_price <= min_ticket_price() {
                refused(Error::TicketPriceTooSmall)
            } else if !s.seasons.contains_key(season_id) {
                refused(Error::SeasonNotFound)
            } else {
                let season = SeasonView {
                    name,
                    start_time,
                    total_battles,
                    first_round_battle_type,
                    ticket_price,
                    ..s.seasons[season_id]
                };
                done(
                    PalletView {
                        seasons: s.seasons.insert(season_id, season),
                        events: s.events.push(season_event(s, season, season_id)),
                        ..s
                    },
                )
            },
        }
    }
}

pub open spec fn create_betting_step(s: PalletView, origin: Origin) -> Outcome {
    if !origin.is_organizer {
        bad_origin()
    } else {
        done(s)
    }
}

pub open spec fn set_default_season_step(s: PalletView, origin: Origin, sid: SeasonId) -> Outcome {
    if !origin.is_organizer {
        bad_origin()
    } else if !s.seasons.contains_key(sid) {
        refused(Error::SeasonNotFound)
    } else {
        let old_events = if s.seasons.contains_key(s.default_season) {
            s.events.push(EventView::SeasonUpdate(s.seasons[s.default_season], false))
        } else {
            s.events
        };
        done(
            PalletView {
                default_season: sid,
                events: old_events.push(EventView::SeasonUpdate(s.seasons[sid], true)),
                ..s
            },
        )
    }
}

/// A battle as `create_battle` and `update_battle` make it.
pub open spec fn new_battle(
    season: SeasonId,
    season_name: Seq<u8>,
    battle_type: BattleType,
    home: NpcId,
    visiting: NpcId,
    start_time: u64,
    position: u8,
) -> BattleView {
    BattleView {
        season,
        season_name,
        home,
        battle_type,
        visiting,
        status: BattleStatus::Running,
        start_time,
        position,
        home_score: None,
        visiting_score: None,
        video_url: Seq::empty(),
    }
}

/// The checks of `create_battle` and `update_battle`, in their order: the
/// battle to store, or the error.
pub open spec fn battle_checks(
    s: PalletView,
    season: SeasonId,
    battle_type: BattleType,
    home: NpcId,
    visiting: NpcId,
    start_time_str: Seq<u8>,
    position: u8,
) -> Result<BattleView, Error> {
    if !s.seasons.contains_key(season) {
        Err(Error::SeasonNotFound)
    } else if !s.npcs.contains_key(home) {
        Err(Error::NpcNotFound)
    } else if !s.npcs.contains_key(visiting) {
        Err(Error::NpcNotFound)
    } else {
        match date_timestamp(start_time_str) {
            Err(_) => Err(Error::TimeFormatError),
            Ok(start_time) => if start_time < s.seasons[season].start_time {
                Err(Error::BattleTimeError)
            } else if home == visiting {
                Err(Error::BattleNpcCantSame)
            } else {
                Ok(
                    new_battle(
                        season,
                        s.seasons[season].name,
                        battle_type,
                        home,
                        visiting,
                        start_time,
                        position,
                    ),
                )
            },
        }
    }
}

pub open spec fn create_battle_step(
    s: PalletView,
    origin: Origin,
    season: SeasonId,
    battle_type: BattleType,
    home: NpcId,
    visiting: NpcId,
    start_time_str: Seq<u8>,
    position: u8,
) -> Outcome {
    if !origin.is_organizer {
        bad_origin()
    } else {
        match battle_checks(s, season, battle_type, home, visiting, start_time_str, position) {
            Err(e) => refused(e),
            Ok(battle) => {
                let id = s.next_battle_id;
                done(
                    PalletView {
                        battles: s.battles.insert(id, battle),
                        next_battle_id: (id + 1) as u32,
                        events: s.events.push(EventView::Battle(id, battle)),
                        ..s
                    },
                )
            },
        }
    }
}

/// `create_battle` would add one to a battle counter that is at its limit.
pub open spec fn create_battle_overflows(
    s: PalletView,
    origin: Origin,
    season: SeasonId,
    battle_type: BattleType,
    home: NpcId,
    visiting: NpcId,
    start_time_str: Seq<u8>,
    position: u8,
) -> bool {
    &&& origin.is_organizer
    &&& battle_checks(s, season, battle_type, home, visiting, start_time_str, position) is Ok
    &&& s.next_battle_id == u32::MAX
}

pub open spec fn update_battle_step(
    s: PalletView,
    origin: Origin,
    battle_id: BattleId,
    season: SeasonId,
    battle_type: BattleType,
    home: NpcId,
    visiting: NpcId,
    start_time_str: Seq<u8>,
    position: u8,
) -> Outcome {
    if !origin.is_organizer {
        bad_origin()
    } else {
        match battle_checks(s, season, battle_type, home, visiting, start_time_str, position) {
            Err(e) => refused(e),
            Ok(battle) => done(
                PalletView {
                    battles: s.battles.insert(battle_id, battle),
                    events: s.events.push(EventView::Battle(battle_id, battle)),
                    ..s
                },
            ),
        }
    }
}

pub open spec fn withdraw_season_treasury_step(
    s: PalletView,
    origin: Origin,
    season_id: SeasonId,
    to: AccountId,
    amount: Balance,
) -> Outcome {
    if !origin.is_organizer {
        bad_origin()
    } else if !s.seasons.contains_key(season_id) {
        refused(Error::SeasonNotFound)
    } else {
        done_with(
            s,
            seq![
                TokenAction::Transfer {
                    from: s.seasons[season_id].treasury,
                    token: s.config.awt_token_id,
                    amount,
                    to,
                    must_succeed: true,
                },
            ],
        )
    }
}

/// The donation of native tokens to a new agent, whose failure is ignored.
pub open spec fn donation_to(s: PalletView, to: AccountId) -> TokenAction {
    TokenAction::Transfer {
        from: s.config.donor_account,
        token: s.config.native_token_id,
        amount: s.config.donation_for_agent,
        to,
        must_succeed: false,
    }
}

pub open spec fn deposit_step(
    s: PalletView,
    origin: Origin,
    to: AccountId,
    awt: Balance,
    asset: Option<TokenId>,
    account_nonce: u32,
) -> Outcome {
    if !origin.is_bridge {
        bad_origin()
    } else {
        match asset {
            None => refused(Error::InvalidResourceId),
            Some(token) => {
                let mint = TokenAction::Mint { token, to, amount: awt };
                if account_nonce == 0 {
                    done_with(s, seq![mint, donation_to(s, to)])
                } else {
                    done_with(s, seq![mint])
                }
            },
        }
    }
}

/// The winner of a battle with these scores: the home NPC where it scored
/// more, else the visiting one.
pub open spec fn winner_of(b: BattleView, home_score: u8, visiting_score: u8) -> NpcId {
    if home_score > visiting_score {
        b.home
    } else {
        b.visiting
    }
}

/// Whether a bounded map of `len` entries refuses a new entry: it is full and
/// the key is new.
pub open spec fn bounded_refuses<K, V>(m: Map<K, V>, bound: u32, k: K) -> bool {
    m.len() >= bound && !m.contains_key(k)
}

pub open spec fn set_result_step(
    s: PalletView,
    origin: Origin,
    battle_id: BattleId,
    home_score: u8,
    visiting_score: u8,
    video_url: Seq<u8>,
) -> Outcome {
    if !origin.is_organizer {
        bad_origin()
    } else if !s.battles.contains_key(battle_id) {
        refused(Error::BattleNotFound)
    } else {
        let b = s.battles[battle_id];
        let winner = winner_of(b, home_score, visiting_score);
        let winners = s.winners_of(b.season);
        if bounded_refuses(winners, s.config.max_participant_per_battle, battle_id) {
            refused(Error::ParticipantOverflow)
        } else {
            let battle = BattleView {
                home_score: Some(home_score),
                visiting_score: Some(visiting_score),
                video_url,
                status: BattleStatus::Completed,
                ..b
            };
            done(
                PalletView {
                    season_winners: s.season_winners.insert(
                        b.season,
                        winners.insert(battle_id, winner),
                    ),
                    battles: s.battles.insert(battle_id, battle),
                    events: s.events.push(EventView::Battle(battle_id, battle)),
                    ..s
                },
            )
        }
    }
}

pub open spec fn give_away_fee_step(s: PalletView, origin: Origin, addrs: Seq<u8>) -> Outcome {
    if !origin.is_organizer {
        bad_origin()
    } else {
        match scale_byte_lists(addrs) {
            None => refused(Error::AddrListInputError),
            Some(l) => done_with(
                s,
                l.map_values(|a: Seq<u8>| donation_to(s, account_of_bytes(a))),
            ),
        }
    }
}

/// The tickets after one more bought and left for an account in a season.
pub open spec fn add_ticket(
    t: Map<(SeasonId, AccountId), (u32, u32)>,
    season: SeasonId,
    who: AccountId,
) -> Map<(SeasonId, AccountId), (u32, u32)> {
    let v = if t.contains_key((season, who)) {
        t[(season, who)]
    } else {
        (0u32, 0u32)
    };
    t.insert((season, who), ((v.0 + 1) as u32, (v.1 + 1) as u32))
}

/// Adding a ticket for `who` stays within `u32`.
pub open spec fn add_ticket_fits(
    t: Map<(SeasonId, AccountId), (u32, u32)>,
    season: SeasonId,
    who: AccountId,
) -> bool {
    t.contains_key((season, who)) ==> t[(season, who)].0 < u32::MAX && t[(season, who)].1
        < u32::MAX
}

/// The tickets after one given to each address of `l`, in order.
pub open spec fn give_tickets(
    t: Map<(SeasonId, AccountId), (u32, u32)>,
    season: SeasonId,
    l: Seq<Seq<u8>>,
) -> Map<(SeasonId, AccountId), (u32, u32)>
    decreases l.len(),
{
    if l.len() == 0 {
        t
    } else {
        add_ticket(give_tickets(t, season, l.drop_last()), season, account_of_bytes(l.last()))
    }
}

/// No ticket given to the addresses of `l` overflows a counter.
pub open spec fn give_tickets_fit(
    t: Map<(SeasonId, AccountId), (u32, u32)>,
    season: SeasonId,
    l: Seq<Seq<u8>>,
) -> bool {
    forall|i: int|
        0 <= i < l.len() ==> #[trigger] add_ticket_fits(
            give_tickets(t, season, l.take(i)),
            season,
            account_of_bytes(l[i]),
        )
}

pub open spec fn give_away_tickets_step(
    s: PalletView,
    origin: Origin,
    season_id: SeasonId,
    addrs: Seq<u8>,
) -> Outcome {
    if !origin.is_organizer {
        bad_origin()
    } else {
        match scale_byte_lists(addrs) {
            None => refused(Error::AddrListInputError),
            Some(l) => done(PalletView { tickets: give_tickets(s.tickets, season_id, l), ..s }),
        }
    }
}

/// `give_away_tickets` would overflow a ticket counter.
pub open spec fn give_away_tickets_overflows(
    s: PalletView,
    origin: Origin,
    season_id: SeasonId,
    addrs: Seq<u8>,
) -> bool {
    &&& origin.is_organizer
    &&& scale_byte_lists(addrs) matches Some(l)
    &&& !give_tickets_fit(s.tickets, season_id, l)
}

/// Whether a buyer came with the invite code of another account.
pub open spec fn invited_by(invite_code: Seq<u8>, who: AccountId) -> bool {
    invite_code_account(invite_code) matches Some(i) && i != who
}

/// The checks of `buy_ticket` before any payment, in their order: the
/// buyer, the season, and the price of the tickets; or the error.
pub open spec fn buy_ticket_checks(
    s: PalletView,
    origin: Origin,
    amount: u32,
    now: u64,
    balance: Balance,
) -> Result<(AccountId, SeasonView, int), DispatchError> {
    match origin.signer {
        None => Err(DispatchError::BadOrigin),
        Some(who) => {
            let sid = s.default_season;
            if !s.seasons.contains_key(sid) {
                Err(DispatchError::Module(Error::DefaultSeasonNotFound))
            } else {
                let season = s.seasons[sid];
                let owned = s.tickets_of(sid, who);
                if !(now / 1000 < season.start_time) {
                    Err(DispatchError::Module(Error::BuyTicketOverTime))
                } else if !(owned.0 + amount <= s.config.max_ticket_amount && amount > 0) {
                    Err(DispatchError::Module(Error::TicketAmountError))
                } else if !(season.ticket_price * amount <= balance) {
                    Err(DispatchError::Module(Error::InsufficientBalance))
                } else {
                    Ok((who, season, season.ticket_price * amount))
                }
            }
        },
    }
}

pub open spec fn buy_ticket_step(
    s: PalletView,
    origin: Origin,
    amount: u32,
    invite_code: Seq<u8>,
    now: u64,
    balance: Balance,
) -> Outcome {
    match buy_ticket_checks(s, origin, amount, now, balance) {
        Err(e) => Err(e),
        Ok((who, season, m)) => {
            let sid = s.default_season;
            let awt = s.config.awt_token_id;
            let part_to_bonus = bonus_share(m);
            let invited = invited_by(invite_code, who);
            let invitor = invite_code_account(invite_code)->0;
            let part_to_invitor = if invited {
                invitor_share(m)
            } else {
                0
            };
            let to_treasury = TokenAction::Transfer {
                from: who,
                token: awt,
                amount: part_to_bonus as u128,
                to: season.treasury,
                must_succeed: true,
            };
            let to_invitor = TokenAction::Transfer {
                from: who,
                token: awt,
                amount: part_to_invitor as u128,
                to: invitor,
                must_succeed: true,
            };
            let to_bvb = TokenAction::Transfer {
                from: who,
                token: awt,
                amount: (m - part_to_bonus - part_to_invitor) as u128,
                to: s.config.bvb_treasury,
                must_succeed: true,
            };
            let actions = if invited {
                seq![to_treasury, to_invitor, to_bvb]
            } else {
                seq![to_treasury, to_bvb]
            };
            let owned = s.tickets_of(sid, who);
            let inv = s.invite_of(invitor);
            done_with(
                PalletView {
                    invite_records: if invited {
                        s.invite_records.insert(who, true)
                    } else {
                        s.invite_records
                    },
                    invite_code: if invited {
                        s.invite_code.insert(
                            invitor,
                            (inv.0, (inv.1 + 1) as u32, (inv.2 + part_to_invitor) as u128),
                        )
                    } else {
                        s.invite_code
                    },
                    tickets: s.tickets.insert(
                        (sid, who),
                        ((owned.0 + amount) as u32, (owned.1 + amount) as u32),
                    ),
                    seasons: s.seasons.insert(
                        sid,
                        SeasonView {
                            total_tickets: (season.total_tickets + amount) as u32,
                            ..season
                        },
                    ),
                    ..s
                },
                actions,
            )
        },
    }
}

/// `buy_ticket` would overflow: the tickets or price of the purchase, the
/// treasury's share, the inviter's counters, or the tickets left or sold.
pub open spec fn buy_ticket_overflows(
    s: PalletView,
    origin: Origin,
    amount: u32,
    invite_code: Seq<u8>,
    now: u64,
    balance: Balance,
) -> bool {
    match origin.signer {
        None => false,
        Some(who) => {
            let sid = s.default_season;
            s.seasons.contains_key(sid) && {
                let season = s.seasons[sid];
                let owned = s.tickets_of(sid, who);
                let m = season.ticket_price * amount;
                now / 1000 < season.start_time && {
                    ||| owned.0 + amount > u32::MAX
                    ||| (owned.0 + amount <= s.config.max_ticket_amount && amount > 0 && {
                        ||| m > u128::MAX
                        ||| (m <= balance && {
                            ||| m * 85 > u128::MAX
                            ||| (invited_by(invite_code, who) && {
                                let inv = s.invite_of(invite_code_account(invite_code)->0);
                                inv.1 + 1 > u32::MAX || inv.2 + invitor_share(m) > u128::MAX
                            })
                            ||| owned.1 + amount > u32::MAX
                            ||| season.total_tickets + amount > u32::MAX
                        })
                    })
                }
            }
        },
    }
}

/// The score difference, winner and loser of a battle whose scores are set:
/// the home NPC wins where it scored more.
pub open spec fn battle_outcome(b: BattleView) -> (u8, NpcId, NpcId) {
    let h = b.home_score->0;
    let v = b.visiting_score->0;
    if h > v {
        ((h - v) as u8, b.home, b.visiting)
    } else {
        ((v - h) as u8, b.visiting, b.home)
    }
}

/// An NPC's points after a win by `diff`.
pub open spec fn npc_win(p: (u8, u8, u32, i32), diff: u8) -> (u8, u8, u32, i32) {
    ((p.0 + 1) as u8, (p.1 + 1) as u8, (p.2 + 3) as u32, (p.3 + diff) as i32)
}

/// An NPC's points after a loss by `diff`.
pub open spec fn npc_loss(p: (u8, u8, u32, i32), diff: u8) -> (u8, u8, u32, i32) {
    ((p.0 + 1) as u8, p.1, p.2, (p.3 - diff) as i32)
}

/// Storage after recording a battle of a season for its winner and loser;
/// for a regular battle each update is announced.
pub open spec fn npc_point_update(
    s: PalletView,
    season: SeasonId,
    winner: NpcId,
    loser: NpcId,
    diff: u8,
    battle_type: BattleType,
) -> PalletView {
    let nw = npc_win(s.npc_point_of((season, winner)), diff);
    let s1 = PalletView {
        npc_points: s.npc_points.insert((season, winner), nw),
        events: if battle_type == BattleType::Regular {
            s.events.push(EventView::NpcPoints(season, winner, nw.0, nw.1, nw.2, nw.3))
        } else {
            s.events
        },
        ..s
    };
    let nl = npc_loss(s1.npc_point_of((season, loser)), diff);
    PalletView {
        npc_points: s1.npc_points.insert((season, loser), nl),
        events: if battle_type == BattleType::Regular {
            s1.events.push(EventView::NpcPoints(season, loser, nl.0, nl.1, nl.2, nl.3))
        } else {
            s1.events
        },
        ..s1
    }
}

/// The points of the winner and then of the loser stay within their types.
pub open spec fn npc_point_update_fits(
    s: PalletView,
    season: SeasonId,
    winner: NpcId,
    loser: NpcId,
    diff: u8,
) -> bool {
    let w = s.npc_point_of((season, winner));
    let pts = s.npc_points.insert((season, winner), npc_win(w, diff));
    let l = if pts.contains_key((season, loser)) {
        pts[(season, loser)]
    } else {
        (0u8, 0u8, 0u32, 0i32)
    };
    &&& w.0 < 255
    &&& w.1 < 255
    &&& w.2 + 3 <= u32::MAX
    &&& w.3 + diff <= i32::MAX
    &&& l.0 < 255
    &&& l.3 - diff >= i32::MIN
}

/// A selection's points after a battle it voted on: one more battle, and
/// where it chose the winner one more won battle and three points.
pub open spec fn award(p: (u8, u8, u32), won: bool) -> (u8, u8, u32) {
    if won {
        ((p.0 + 1) as u8, (p.1 + 1) as u8, (p.2 + 3) as u32)
    } else {
        ((p.0 + 1) as u8, p.1, p.2)
    }
}

pub open spec fn award_fits(p: (u8, u8, u32), won: bool) -> bool {
    p.0 < 255 && (won ==> p.1 < 255 && p.2 + 3 <= u32::MAX)
}

/// Storage after awarding the votes of `book`, in order, for a battle of a
/// season with this winner; each award is announced, and then the vote.
pub open spec fn award_points(
    s: PalletView,
    season: SeasonId,
    battle_id: BattleId,
    abs: BattleAbstract,
    winner: NpcId,
    book: Seq<Vote>,
) -> PalletView
    decreases book.len(),
{
    if book.len() == 0 {
        s
    } else {
        let s0 = award_points(s, season, battle_id, abs, winner, book.drop_last());
        let v = book.last();
        let key = (season, v.who, v.index);
        let np = award(s0.participant_point_of(key), winner == v.npc);
        PalletView {
            participant_points: s0.participant_points.insert(key, np),
            events: s0.events.push(EventView::ParticipantPoints(season, v.who, np.0, np.1, np.2)).push(
                EventView::ParticipantPointRecord(v.who, battle_id, abs, v.npc),
            ),
            ..s0
        }
    }
}

/// No award of `book` overflows a point counter.
pub open spec fn award_points_fit(
    s: PalletView,
    season: SeasonId,
    battle_id: BattleId,
    abs: BattleAbstract,
    winner: NpcId,
    book: Seq<Vote>,
) -> bool {
    forall|i: int|
        #![trigger book[i]]
        0 <= i < book.len() ==> award_fits(
            award_points(s, season, battle_id, abs, winner, book.take(i)).participant_point_of(
                (season, book[i].who, book[i].index),
            ),
            winner == book[i].npc,
        )
}

/// Awarding one more vote of `book` changes the points of its selection
/// alone.
pub proof fn lemma_award_points_step(
    s: PalletView,
    season: SeasonId,
    battle_id: BattleId,
    abs: BattleAbstract,
    winner: NpcId,
    book: Seq<Vote>,
    i: int,
)
    requires
        0 <= i < book.len(),
    ensures
        ({
            let before = award_points(s, season, battle_id, abs, winner, book.take(i));
            let key = (season, book[i].who, book[i].index);
            award_points(s, season, battle_id, abs, winner, book.take(i + 1)).participant_points
                == before.participant_points.insert(
                key,
                award(before.participant_point_of(key), winner == book[i].npc),
            )
        }),
{
    assert(book.take(i + 1).drop_last() =~= book.take(i));
    assert(book.take(i + 1).last() == book[i]);
}

/// The points of the selections after awarding the first `i` votes of
/// `book`.
#[verifier::opaque]
pub open spec fn points_after(
    s: PalletView,
    season: SeasonId,
    battle_id: BattleId,
    abs: BattleAbstract,
    winner: NpcId,
    book: Seq<Vote>,
    i: int,
) -> Map<PointKey, (u8, u8, u32)> {
    award_points(s, season, battle_id, abs, winner, book.take(i)).participant_points
}

/// The points of a key in a map of points; none where it is absent.
pub open spec fn point_in(m: Map<PointKey, (u8, u8, u32)>, k: PointKey) -> (u8, u8, u32) {
    if m.contains_key(k) {
        m[k]
    } else {
        (0, 0, 0)
    }
}

/// Awarding one more vote of `book`, in terms of `points_after`.
pub proof fn lemma_points_after_step(
    s: PalletView,
    season: SeasonId,
    battle_id: BattleId,
    abs: BattleAbstract,
    winner: NpcId,
    book: Seq<Vote>,
    i: int,
)
    requires
        0 <= i < book.len(),
    ensures
        ({
            let before = points_after(s, season, battle_id, abs, winner, book, i);
            let key = (season, book[i].who, book[i].index);
            points_after(s, season, battle_id, abs, winner, book, i + 1) == before.insert(
                key,
                award(point_in(before, key), winner == book[i].npc),
            )
        }),
{
    reveal(points_after);
    lemma_award_points_step(s, season, battle_id, abs, winner, book, i);
}

/// `award_points_fit` in terms of `points_after`.
pub proof fn lemma_points_after_fit(
    s: PalletView,
    season: SeasonId,
    battle_id: BattleId,
    abs: BattleAbstract,
    winner: NpcId,
    book: Seq<Vote>,
)
    ensures
        points_after(s, season, battle_id, abs, winner, book, 0) == s.participant_points,
        award_points_fit(s, season, battle_id, abs, winner, book) == forall|j: int|
            #![trigger book[j]]
            0 <= j < book.len() ==> award_fits(
                point_in(
                    points_after(s, season, battle_id, abs, winner, book, j),
                    (season, book[j].who, book[j].index),
                ),
                winner == book[j].npc,
            ),
{
    reveal(points_after);
    assert(book.take(0) =~= Seq::<Vote>::empty());
}

/// Awarding points changes only the points and the events.
pub proof fn lemma_award_points_frame(
    s: PalletView,
    season: SeasonId,
    battle_id: BattleId,
    abs: BattleAbstract,
    winner: NpcId,
    book: Seq<Vote>,
)
    ensures
        ({
            let r = award_points(s, season, battle_id, abs, winner, book);
            r == (PalletView {
                participant_points: r.participant_points,
                events: r.events,
                ..s
            })
        }),
    decreases book.len(),
{
    if book.len() > 0 {
        lemma_award_points_frame(s, season, battle_id, abs, winner, book.drop_last());
    }
}

/// Storage after awarding every vote on a battle.
pub open spec fn participant_point_update(
    s: PalletView,
    season: SeasonId,
    battle_id: BattleId,
    b: BattleView,
    winner: NpcId,
) -> PalletView {
    let book = s.votes_of(battle_id);
    let s1 = award_points(s, season, battle_id, battle_abstract_of(b), winner, book);
    PalletView { votes_for_calc: s1.votes_for_calc.insert(battle_id, book), ..s1 }
}

pub open spec fn settle_step(s: PalletView, origin: Origin, battle_id: BattleId) -> Outcome {
    if !origin.is_organizer {
        bad_origin()
    } else if !s.battles.contains_key(battle_id) {
        refused(Error::BattleNotFound)
    } else {
        let b = s.battles[battle_id];
        if b.status != BattleStatus::Completed {
            refused(Error::BattleStatusError)
        } else {
            let (diff, winner, loser) = battle_outcome(b);
            let s1 = npc_point_update(s, b.season, winner, loser, diff, b.battle_type);
            let s2 = participant_point_update(s1, b.season, battle_id, b, winner);
            let s3 = PalletView {
                battles: s2.battles.insert(
                    battle_id,
                    BattleView { status: BattleStatus::Finalized, ..b },
                ),
                ..s2
            };
            if b.battle_type == BattleType::Finals {
                let season = SeasonView { champion: Some(winner), ..s3.seasons[b.season] };
                done(
                    PalletView {
                        seasons: s3.seasons.insert(b.season, season),
                        events: s3.events.push(season_event(s3, season, b.season)),
                        ..s3
                    },
                )
            } else {
                done(s3)
            }
        }
    }
}

/// `settle` would panic: a completed battle without both scores, a point
/// counter that would overflow, or a final whose season is gone.
pub open spec fn settle_panics(s: PalletView, origin: Origin, battle_id: BattleId) -> bool {
    &&& origin.is_organizer
    &&& s.battles.contains_key(battle_id)
    &&& s.battles[battle_id].status == BattleStatus::Completed
    &&& {
        let b = s.battles[battle_id];
        ||| b.home_score is None
        ||| b.visiting_score is None
        ||| {
            let (diff, winner, loser) = battle_outcome(b);
            let s1 = npc_point_update(s, b.season, winner, loser, diff, b.battle_type);
            ||| !npc_point_update_fits(s, b.season, winner, loser, diff)
            ||| !award_points_fit(
                s1,
                b.season,
                battle_id,
                battle_abstract_of(b),
                winner,
                s1.votes_of(battle_id),
            )
            ||| (b.battle_type == BattleType::Finals && !s.seasons.contains_key(b.season))
        }
    }
}

/// The key of a selection's points in a season.
pub type PointKey = (SeasonId, AccountId, SelectIndex);

/// The tickets of the selection that a points key of a season names.
pub open spec fn selection_tickets(s: PalletView, season_id: SeasonId, k: PointKey) -> u32 {
    s.infos_of(k.1, season_id).0[k.2 as int].ticket_amount
}

/// A selection of the season that won every battle (or, for runners-up, all
/// but one).
pub open spec fn tally_counts(
    s: PalletView,
    season_id: SeasonId,
    total: u8,
    runner_up: bool,
    k: PointKey,
) -> bool {
    &&& k.0 == season_id
    &&& s.participant_points.contains_key(k)
    &&& if runner_up {
        s.participant_points[k].1 + 1 == total
    } else {
        s.participant_points[k].1 == total
    }
}

pub open spec fn tally_step(s: PalletView, season_id: SeasonId, total: u8, runner_up: bool) -> spec_fn(
    int,
    PointKey,
) -> int {
    |acc: int, k: PointKey|
        if tally_counts(s, season_id, total, runner_up, k) {
            acc + selection_tickets(s, season_id, k)
        } else {
            acc
        }
}

/// The tickets of the season's champions (or runners-up): of every
/// selection with points in the season that won all battles (or all but
/// one).
pub open spec fn tally(s: PalletView, season_id: SeasonId, total: u8, runner_up: bool) -> int {
    s.participant_points.dom().fold(0, tally_step(s, season_id, total, runner_up))
}

pub proof fn lemma_tally_step_commutative(
    s: PalletView,
    season_id: SeasonId,
    total: u8,
    runner_up: bool,
)
    ensures
        vstd::set::fold::is_fun_commutative(tally_step(s, season_id, total, runner_up)),
{
}

pub open spec fn close_season_step(
    s: PalletView,
    origin: Origin,
    season_id: SeasonId,
    treasury_balance: Balance,
) -> Outcome {
    if !origin.is_organizer {
        bad_origin()
    } else if !s.seasons.contains_key(season_id) {
        refused(Error::SeasonNotFound)
    } else {
        let season = s.seasons[season_id];
        let total = season.total_battles;
        let champion_bonus = champion_share(treasury_balance as int);
        let runnerup_bonus = treasury_balance - champion_bonus;
        let closed = SeasonView {
            bonus_strategy: seq![
                (total, tally(s, season_id, total, false) as u32, champion_bonus as u128),
                ((total - 1) as u8, tally(s, season_id, total, true) as u32, runnerup_bonus as u128),
            ],
            status: SeasonStatus::Finalized,
            ..season
        };
        done(
            PalletView {
                seasons: s.seasons.insert(season_id, closed),
                events: s.events.push(season_event(s, closed, season_id)),
                ..s
            },
        )
    }
}

/// `close_season` would panic: points of a selection that its voter does
/// not hold, a won-battles count at its limit, tallies beyond `u32`, a
/// season of no battles, or a balance whose seven eighths overflow.
pub open spec fn close_season_panics(
    s: PalletView,
    origin: Origin,
    season_id: SeasonId,
    treasury_balance: Balance,
) -> bool {
    &&& origin.is_organizer
    &&& s.seasons.contains_key(season_id)
    &&& {
        let total = s.seasons[season_id].total_battles;
        ||| exists|k: PointKey|
            #![trigger s.participant_points.contains_key(k)]
            s.participant_points.contains_key(k) && k.0 == season_id && (k.2
                >= s.infos_of(k.1, season_id).0.len() || s.participant_points[k].1 == 255)
        ||| tally(s, season_id, total, false) > u32::MAX
        ||| tally(s, season_id, total, true) > u32::MAX
        ||| total == 0
        ||| treasury_balance * 7 > u128::MAX
    }
}

/// How many selections of `sel` chose the winner of their battle.
pub open spec fn hits(winners: Map<BattleId, NpcId>, sel: Seq<VoteSelect>) -> int
    decreases sel.len(),
{
    if sel.len() == 0 {
        0
    } else {
        hits(winners, sel.drop_last()) + if sel.last().npc_id == winners[sel.last().battle_id] {
            1int
        } else {
            0
        }
    }
}

/// The first entry of a bonus strategy for `right` right choices with
/// tickets that share it.
pub open spec fn first_bonus(strategy: Seq<(u8, u32, Balance)>, right: int) -> Option<
    (u8, u32, Balance),
>
    decreases strategy.len(),
{
    if strategy.len() == 0 {
        None
    } else if strategy[0].0 == right && strategy[0].1 > 0 {
        Some(strategy[0])
    } else {
        first_bonus(strategy.drop_first(), right)
    }
}

/// What a selection earns: its tickets times the bonus of a ticket of the
/// first strategy entry for its number of right choices.
pub open spec fn selection_bonus(
    season: SeasonView,
    winners: Map<BattleId, NpcId>,
    info: VoteSelectInfoView,
) -> int {
    match first_bonus(season.bonus_strategy, hits(winners, info.selects)) {
        None => 0,
        Some(b) => ticket_bonus(b.2 as int, b.1 as int, season.ticket_price as int)
            * info.ticket_amount,
    }
}

/// What all the selections of `infos` earn.
pub open spec fn claim_total(
    season: SeasonView,
    winners: Map<BattleId, NpcId>,
    infos: Seq<VoteSelectInfoView>,
) -> int
    decreases infos.len(),
{
    if infos.len() == 0 {
        0
    } else {
        claim_total(season, winners, infos.drop_last()) + selection_bonus(
            season,
            winners,
            infos.last(),
        )
    }
}

pub open spec fn claim_step(s: PalletView, origin: Origin, season_id: SeasonId) -> Outcome {
    match origin.signer {
        None => bad_origin(),
        Some(who) => if !s.seasons.contains_key(season_id) {
            refused(Error::SeasonNotFound)
        } else {
            let season = s.seasons[season_id];
            let infos = s.infos_of(who, season_id);
            if season.status != SeasonStatus::Finalized {
                refused(Error::SeasonStatusError)
            } else if !(infos.0.len() > 0 && !infos.1) {
                refused(Error::HaveNoBonus)
            } else {
                let total = claim_total(season, s.winners_of(season_id), infos.0);
                done_with(
                    PalletView {
                        vote_select_infos: s.vote_select_infos.insert((who, season_id), (infos.0, true)),
                        ..s
                    },
                    seq![
                        TokenAction::Transfer {
                            from: season.treasury,
                            token: s.config.awt_token_id,
                            amount: total as u128,
                            to: who,
                            must_succeed: true,
                        },
                    ],
                )
            }
        },
    }
}

/// One selection's bonus can be worked out: every battle it chose has a
/// winner, at most 255 of its choices are right, and the bonus fits.
pub open spec fn selection_bonus_fits(
    season: SeasonView,
    winners: Map<BattleId, NpcId>,
    info: VoteSelectInfoView,
) -> bool {
    &&& forall|j: int|
        0 <= j < info.selects.len() ==> winners.contains_key(#[trigger] info.selects[j].battle_id)
    &&& hits(winners, info.selects) <= 255
    &&& first_bonus(season.bonus_strategy, hits(winners, info.selects)) is Some ==> {
        &&& season.ticket_price * 100 <= u128::MAX
        &&& selection_bonus(season, winners, info) <= u128::MAX
    }
}

/// `claim` would panic: a chosen battle without a winner, more than 255
/// right choices, or a bonus beyond `u128`.
pub open spec fn claim_panics(s: PalletView, origin: Origin, season_id: SeasonId) -> bool {
    match origin.signer {
        None => false,
        Some(who) => {
            let infos = s.infos_of(who, season_id);
            &&& s.seasons.contains_key(season_id)
            &&& s.seasons[season_id].status == SeasonStatus::Finalized
            &&& infos.0.len() > 0
            &&& !infos.1
            &&& {
                let season = s.seasons[season_id];
                let winners = s.winners_of(season_id);
                ||| exists|i: int|
                    0 <= i < infos.0.len() && !selection_bonus_fits(
                        season,
                        winners,
                        #[trigger] infos.0[i],
                    )
                ||| claim_total(season, winners, infos.0) > u128::MAX
            }
        },
    }
}

/// A bonus of a ticket is never negative, nor what a selection earns.
pub proof fn lemma_selection_bonus_nonneg(
    season: SeasonView,
    winners: Map<BattleId, NpcId>,
    info: VoteSelectInfoView,
)
    ensures
        selection_bonus(season, winners, info) >= 0,
{
    match first_bonus(season.bonus_strategy, hits(winners, info.selects)) {
        None => {},
        Some(b) => {
            let t = ticket_bonus(b.2 as int, b.1 as int, season.ticket_price as int);
            assert(b.1 > 0 ==> (b.2 as int) / (b.1 as int) >= 0) by (nonlinear_arith);
            assert(t >= 0 ==> t * info.ticket_amount >= 0) by (nonlinear_arith);
            assert(first_bonus(season.bonus_strategy, hits(winners, info.selects)) matches Some(e) ==> e.1 > 0) by {
                lemma_first_bonus_shares(season.bonus_strategy, hits(winners, info.selects));
            }
        },
    }
}

/// The entry that `first_bonus` picks is shared by some tickets.
pub proof fn lemma_first_bonus_shares(strategy: Seq<(u8, u32, Balance)>, right: int)
    ensures
        first_bonus(strategy, right) matches Some(e) ==> e.1 > 0 && e.0 == right,
    decreases strategy.len(),
{
    if strategy.len() > 0 {
        lemma_first_bonus_shares(strategy.drop_first(), right);
    }
}

/// What a prefix of the selections earns is at most what all of them earn.
pub proof fn lemma_claim_total_prefix(
    season: SeasonView,
    winners: Map<BattleId, NpcId>,
    infos: Seq<VoteSelectInfoView>,
    i: int,
)
    requires
        0 <= i <= infos.len(),
    ensures
        0 <= claim_total(season, winners, infos.take(i)) <= claim_total(season, winners, infos),
    decreases infos.len(),
{
    if infos.len() > 0 {
        lemma_selection_bonus_nonneg(season, winners, infos.last());
        if i == infos.len() {
            assert(infos.take(i) =~= infos);
            lemma_claim_total_prefix(season, winners, infos.drop_last(), i - 1);
        } else {
            lemma_claim_total_prefix(season, winners, infos.drop_last(), i);
            assert(infos.drop_last().take(i) =~= infos.take(i));
        }
    }
}

/// The checks of one vote, in their order: for `initial_vote` (`kind` 0),
/// for `append_vote` (`kind` 1), or none (`kind` 2).
pub open spec fn vote_check(
    s: PalletView,
    season: SeasonView,
    season_id: SeasonId,
    now: u64,
    v: VoteSelect,
    kind: u8,
) -> Option<Error> {
    if kind == 2 {
        None
    } else if !s.battles.contains_key(v.battle_id) {
        Some(Error::BattleNotFound)
    } else {
        let b = s.battles[v.battle_id];
        let in_battle = b.home == v.npc_id || b.visiting == v.npc_id;
        let running = b.status == BattleStatus::Running;
        if kind == 0 {
            if !in_battle {
                Some(Error::NpcNotInBattle)
            } else if !running {
                Some(Error::BattleStatusError)
            } else if b.battle_type != season.first_round_battle_type {
                Some(Error::BattleTypeError)
            } else if b.season != season_id {
                Some(Error::BattleNotInSeason)
            } else if !(now / 1000 < b.start_time) {
                Some(Error::BettingOverTime)
            } else {
                None
            }
        } else {
            if !running {
                Some(Error::BattleStatusError)
            } else if !in_battle {
                Some(Error::NpcNotInBattle)
            } else if b.season != season_id {
                Some(Error::BattleNotInSeason)
            } else if !(now / 1000 < b.start_time) {
                Some(Error::BettingOverTime)
            } else {
                None
            }
        }
    }
}

/// The votes of a battle in `books`.
pub open spec fn book_of(books: Map<BattleId, Seq<Vote>>, battle: BattleId) -> Seq<Vote> {
    if books.contains_key(battle) {
        books[battle]
    } else {
        Seq::empty()
    }
}

/// `books` with the vote of selection `(who, index)` for `v` placed in the
/// list of `v`'s battle, or the overflow of a full list.
pub open spec fn place_vote(
    books: Map<BattleId, Seq<Vote>>,
    bound: u32,
    who: AccountId,
    index: SelectIndex,
    v: VoteSelect,
) -> Result<Map<BattleId, Seq<Vote>>, Error> {
    let es = book_of(books, v.battle_id);
    if book_refuses(es, bound, who, index) {
        Err(Error::ParticipantOverflow)
    } else {
        Ok(books.insert(v.battle_id, book_insert(es, Vote { who, index, npc: v.npc_id })))
    }
}

/// The votes of storage with each vote of `votes`, in order, checked and
/// placed; or the first error.
pub open spec fn place_votes(
    s: PalletView,
    season: SeasonView,
    season_id: SeasonId,
    now: u64,
    who: AccountId,
    index: SelectIndex,
    votes: Seq<VoteSelect>,
    kind: u8,
) -> Result<Map<BattleId, Seq<Vote>>, Error>
    decreases votes.len(),
{
    if votes.len() == 0 {
        Ok(s.votes_for_calc)
    } else {
        match place_votes(s, season, season_id, now, who, index, votes.drop_last(), kind) {
            Err(e) => Err(e),
            Ok(books) => match vote_check(s, season, season_id, now, votes.last(), kind) {
                Some(e) => Err(e),
                None => place_vote(books, s.config.max_participant_per_battle, who, index, votes.last()),
            },
        }
    }
}

/// The first error of the `append_vote` checks of `votes`.
pub open spec fn check_votes(s: PalletView, season: SeasonView, season_id: SeasonId, now: u64, votes: Seq<VoteSelect>) -> Option<Error>
    decreases votes.len(),
{
    if votes.len() == 0 {
        None
    } else {
        match check_votes(s, season, season_id, now, votes.drop_last()) {
            Some(e) => Some(e),
            None => vote_check(s, season, season_id, now, votes.last(), 1),
        }
    }
}

pub open spec fn initial_vote_step(
    s: PalletView,
    origin: Origin,
    season_id: SeasonId,
    tickets_amount: u32,
    votes: Seq<VoteSelect>,
    now: u64,
) -> Outcome {
    match origin.signer {
        None => bad_origin(),
        Some(who) => if votes.len() == 0 {
            refused(Error::VoteSelectZero)
        } else if !s.seasons.contains_key(season_id) {
            refused(Error::SeasonNotFound)
        } else {
            let season = s.seasons[season_id];
            let t = s.tickets_of(season_id, who);
            if !(t.1 >= tickets_amount && tickets_amount > 0) {
                refused(Error::TicketAmountError)
            } else {
                let infos = s.infos_of(who, season_id);
                let index = infos.0.len() as u16;
                match place_votes(s, season, season_id, now, who, index, votes, 0) {
                    Err(e) => refused(e),
                    Ok(books) => if has_repeat(battle_ids(votes)) {
                        refused(Error::DuplicateBetting)
                    } else {
                        done(
                            PalletView {
                                votes_for_calc: books,
                                vote_select_infos: s.vote_select_infos.insert(
                                    (who, season_id),
                                    (
                                        infos.0.push(
                                            VoteSelectInfoView {
                                                ticket_amount: tickets_amount,
                                                selects: votes,
                                            },
                                        ),
                                        infos.1,
                                    ),
                                ),
                                tickets: s.tickets.insert(
                                    (season_id, who),
                                    (t.0, (t.1 - tickets_amount) as u32),
                                ),
                                ..s
                            },
                        )
                    },
                }
            }
        },
    }
}

pub open spec fn append_vote_step(
    s: PalletView,
    origin: Origin,
    season_id: SeasonId,
    select_index: SelectIndex,
    select_battle_type: u8,
    select_ticket_amount: u32,
    votes: Seq<VoteSelect>,
    now: u64,
) -> Outcome {
    match origin.signer {
        None => bad_origin(),
        Some(who) => if votes.len() == 0 {
            refused(Error::VoteSelectZero)
        } else if !s.seasons.contains_key(season_id) {
            refused(Error::SeasonNotFound)
        } else {
            let season = s.seasons[season_id];
            let infos = s.infos_of(who, season_id);
            if !(select_battle_type < battle_type_code(season.first_round_battle_type)
                && battle_type_of_code(select_battle_type) is Some) {
                refused(Error::BattleTypeError)
            } else if !(infos.0.len() > select_index) {
                refused(Error::SelectIndexOverflow)
            } else {
                let osi = infos.0[select_index as int];
                if !(select_ticket_amount <= osi.ticket_amount && select_ticket_amount > 0) {
                    refused(Error::TicketAmountError)
                } else if appends_repeat(osi.selects, votes) {
                    refused(Error::DuplicateBetting)
                } else if select_ticket_amount == osi.ticket_amount {
                    match place_votes(s, season, season_id, now, who, select_index, votes, 1) {
                        Err(e) => refused(e),
                        Ok(books) => done(
                            PalletView {
                                votes_for_calc: books,
                                vote_select_infos: s.vote_select_infos.insert(
                                    (who, season_id),
                                    (
                                        infos.0.update(
                                            select_index as int,
                                            VoteSelectInfoView {
                                                ticket_amount: osi.ticket_amount,
                                                selects: osi.selects + votes,
                                            },
                                        ),
                                        infos.1,
                                    ),
                                ),
                                ..s
                            },
                        ),
                    }
                } else {
                    match check_votes(s, season, season_id, now, votes) {
                        Some(e) => refused(e),
                        None => {
                            let new_index = infos.0.len() as u16;
                            let base = osi.selects + votes;
                            match place_votes(s, season, season_id, now, who, new_index, base, 2) {
                                Err(e) => refused(e),
                                Ok(books) => done(
                                    PalletView {
                                        votes_for_calc: books,
                                        vote_select_infos: s.vote_select_infos.insert(
                                            (who, season_id),
                                            (
                                                infos.0.update(
                                                    select_index as int,
                                                    VoteSelectInfoView {
                                                        ticket_amount: (osi.ticket_amount
                                                            - select_ticket_amount) as u32,
                                                        ..osi
                                                    },
                                                ).push(
                                                    VoteSelectInfoView {
                                                        ticket_amount: select_ticket_amount,
                                                        selects: base,
                                                    },
                                                ),
                                                infos.1,
                                            ),
                                        ),
                                        participant_points: s.participant_points.insert(
                                            (season_id, who, new_index),
                                            s.participant_point_of((season_id, who, select_index)),
                                        ),
                                        ..s
                                    },
                                ),
                            }
                        },
                    }
                }
            }
        },
    }
}

/// Where a vote's place in a list is found by skipping the votes that come
/// before it, the list with the vote placed is the list around it.
pub proof fn lemma_book_insert_at(es: Seq<Vote>, v: Vote, p: int)
    requires
        0 <= p <= es.len(),
        forall|j: int| 0 <= j < p ==> vote_before(#[trigger] es[j], v.who, v.index),
        p < es.len() ==> !vote_before(es[p], v.who, v.index),
    ensures
        book_insert(es, v) == if p < es.len() && es[p].who == v.who && es[p].index == v.index {
            es.take(p) + seq![v] + es.skip(p + 1)
        } else {
            es.take(p) + seq![v] + es.skip(p)
        },
    decreases p,
{
    if p == 0 {
        assert(es.take(0) + seq![v] + es.skip(1) =~= seq![v] + es.drop_first());
        assert(es.take(0) + seq![v] + es.skip(0) =~= seq![v] + es);
    } else {
        let t = es.drop_first();
        assert(forall|j: int| 0 <= j < p - 1 ==> #[trigger] t[j] == es[j + 1]);
        lemma_book_insert_at(t, v, p - 1);
        if p < es.len() && es[p].who == v.who && es[p].index == v.index {
            assert(seq![es[0]] + (t.take(p - 1) + seq![v] + t.skip(p)) =~= es.take(p) + seq![v]
                + es.skip(p + 1));
        } else {
            assert(seq![es[0]] + (t.take(p - 1) + seq![v] + t.skip(p - 1)) =~= es.take(p) + seq![v]
                + es.skip(p));
        }
    }
}

/// Once placing a prefix of the votes fails, placing all of them fails alike.
pub proof fn lemma_place_votes_prefix(
    s: PalletView,
    season: SeasonView,
    season_id: SeasonId,
    now: u64,
    who: AccountId,
    index: SelectIndex,
    votes: Seq<VoteSelect>,
    kind: u8,
    i: int,
)
    requires
        0 <= i <= votes.len(),
        place_votes(s, season, season_id, now, who, index, votes.take(i), kind) is Err,
    ensures
        place_votes(s, season, season_id, now, who, index, votes, kind) == place_votes(
            s,
            season,
            season_id,
            now,
            who,
            index,
            votes.take(i),
            kind,
        ),
    decreases votes.len() - i,
{
    if i < votes.len() {
        assert(votes.take(i + 1).drop_last() =~= votes.take(i));
        lemma_place_votes_prefix(s, season, season_id, now, who, index, votes, kind, i + 1);
    } else {
        assert(votes.take(i) =~= votes);
    }
}

/// Once checking a prefix of the votes fails, checking all of them fails
/// alike.
pub proof fn lemma_check_votes_prefix(
    s: PalletView,
    season: SeasonView,
    season_id: SeasonId,
    now: u64,
    votes: Seq<VoteSelect>,
    i: int,
)
    requires
        0 <= i <= votes.len(),
        check_votes(s, season, season_id, now, votes.take(i)) is Some,
    ensures
        check_votes(s, season, season_id, now, votes) == check_votes(
            s,
            season,
            season_id,
            now,
            votes.take(i),
        ),
    decreases votes.len() - i,
{
    if i < votes.len() {
        assert(votes.take(i + 1).drop_last() =~= votes.take(i));
        lemma_check_votes_prefix(s, season, season_id, now, votes, i + 1);
    } else {
        assert(votes.take(i) =~= votes);
    }
}

} // verus!
