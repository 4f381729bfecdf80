//! The pallet: its storage, and its extrinsics as methods on it.
use vstd::prelude::*;
use std::collections::BTreeMap;
use crate::types::{
    AccountId, Balance, Battle, BattleId, BattleStatus, BattleType, Config, DispatchError, Error,
    Event, NPC, NpcId, NpcView, Origin, Season, SeasonId, SeasonStatus, SelectIndex, TokenAction,
    TokenId, VoteSelectInfo, Odds, copy_bytes, Vote, battle_abstract_of, BattleAbstract, EventView,
    VoteSelect, copy_selects, copy_event,
};
use crate::model::{
    PalletView, Outcome, genesis, create_npc_step, create_season_step, create_season_overflows,
    update_season_current_round_step, update_season_step, create_betting_step,
    set_default_season_step, battle_checks, create_battle_step, create_battle_overflows,
    update_battle_step, withdraw_season_treasury_step, deposit_step, donation_to, set_result_step,
    give_away_fee_step, give_tickets, give_tickets_fit, add_ticket_fits,
    give_away_tickets_step, give_away_tickets_overflows, buy_ticket_step, buy_ticket_overflows,
    npc_point_update, npc_point_update_fits, award_points, award_points_fit, award_fits,
    participant_point_update, settle_step, settle_panics, award, lemma_award_points_frame,
    PointKey, tally, tally_step, lemma_tally_step_commutative, close_season_step, close_season_panics,
    hits, first_bonus, claim_total, claim_step, claim_panics, selection_bonus_fits,
    lemma_claim_total_prefix, vote_check, check_votes, book_of, book_insert, book_refuses,
    vote_before, lemma_book_insert_at, place_votes, initial_vote_step, lemma_place_votes_prefix,
    lemma_check_votes_prefix, append_vote_step, selection_bonus, lemma_first_bonus_shares,
    book_map, points_after, point_in, lemma_points_after_step, lemma_points_after_fit,
};
use crate::votes::battle_ids;
use crate::codec::{decode_byte_lists, decode_account, lemma_decoded_account, account_of_bytes};
use crate::rewards::{bonus_part, invitor_part, lemma_shares_fit, season_bonus_split, bonus_per_ticket, ticket_bonus, champion_share};

verus! {

/// The pallet's storage.
#[derive(Clone)]
pub struct Pallet {
    config: Config,
    next_season_id: u32,
    next_npc_id: u32,
    next_battle_id: u32,
    default_season: SeasonId,
    npcs: BTreeMap<NpcId, NPC>,
    battles: BTreeMap<BattleId, Battle>,
    season_winners: BTreeMap<SeasonId, BTreeMap<BattleId, NpcId>>,
    seasons: BTreeMap<SeasonId, Season>,
    participant_points: BTreeMap<(SeasonId, AccountId, SelectIndex), (u8, u8, u32)>,
    npc_points: BTreeMap<(SeasonId, NpcId), (u8, u8, u32, i32)>,
    tickets: BTreeMap<(SeasonId, AccountId), (u32, u32)>,
    invite_code: BTreeMap<AccountId, (Vec<u8>, u32, Balance)>,
    invite_records: BTreeMap<AccountId, bool>,
    vote_select_infos: BTreeMap<(AccountId, SeasonId), (Vec<VoteSelectInfo>, bool)>,
    votes_for_calc: BTreeMap<BattleId, Vec<Vote>>,
    events: Vec<Event>,
}

impl View for Pallet {
    type V = PalletView;

    closed spec fn view(&self) -> PalletView {
        PalletView {
            config: self.config,
            next_season_id: self.next_season_id,
            next_npc_id: self.next_npc_id,
            next_battle_id: self.next_battle_id,
            default_season: self.default_season,
            npcs: self.npcs@.map_values(|n: NPC| n@),
            battles: self.battles@.map_values(|b: Battle| b@),
            season_winners: self.season_winners@.map_values(|m: BTreeMap<BattleId, NpcId>| m@),
            seasons: self.seasons@.map_values(|x: Season| x@),
            participant_points: self.participant_points@,
            npc_points: self.npc_points@,
            tickets: self.tickets@,
            invite_code: self.invite_code@.map_values(
                |v: (Vec<u8>, u32, Balance)| (v.0@, v.1, v.2),
            ),
            invite_records: self.invite_records@,
            vote_select_infos: self.vote_select_infos@.map_values(
                |v: (Vec<VoteSelectInfo>, bool)|
                    (v.0@.map_values(|i: VoteSelectInfo| i@), v.1),
            ),
            votes_for_calc: self.votes_for_calc@.map_values(|v: Vec<Vote>| v@),
            events: self.events@.map_values(|e: Event| e@),
        }
    }
}

/// A call that returns nothing ended as `o` says.
pub open spec fn unit_outcome(
    r: Result<(), DispatchError>,
    pre: PalletView,
    post: PalletView,
    o: Outcome,
) -> bool {
    match o {
        Err(e) => r == Err::<(), DispatchError>(e) && post == pre,
        Ok((s, _)) => r is Ok && post == s,
    }
}

/// A call that asks for token movements ended as `o` says.
pub open spec fn actions_outcome(
    r: Result<Vec<TokenAction>, DispatchError>,
    pre: PalletView,
    post: PalletView,
    o: Outcome,
) -> bool {
    match o {
        Err(e) => r matches Err(e2) && e2 == e && post == pre,
        Ok((s, acts)) => r matches Ok(v) && v@ == acts && post == s,
    }
}

proof fn lemma_seq_map_push<A, B>(q: Seq<A>, a: A, f: spec_fn(A) -> B)
    ensures
        q.push(a).map_values(f) == q.map_values(f).push(f(a)),
{
    assert(q.push(a).map_values(f) =~= q.map_values(f).push(f(a)));
}

proof fn lemma_map_values_insert<K, V, W>(m: Map<K, V>, k: K, v: V, f: spec_fn(V) -> W)
    ensures
        m.insert(k, v).map_values(f) == m.map_values(f).insert(k, f(v)),
{
    assert(m.insert(k, v).map_values(f) =~= m.map_values(f).insert(k, f(v)));
}

impl Pallet {
    /// The storage of a new chain with the runtime's constants.
    pub fn new(config: Config) -> (r: Pallet)
        ensures
            r@ == genesis(config),
    {
        let r = Pallet {
            config,
            next_season_id: 1,
            next_npc_id: 1,
            next_battle_id: 1,
            default_season: 0,
            npcs: BTreeMap::new(),
            battles: BTreeMap::new(),
            season_winners: BTreeMap::new(),
            seasons: BTreeMap::new(),
            participant_points: BTreeMap::new(),
            npc_points: BTreeMap::new(),
            tickets: BTreeMap::new(),
            invite_code: BTreeMap::new(),
            invite_records: BTreeMap::new(),
            vote_select_infos: BTreeMap::new(),
            votes_for_calc: BTreeMap::new(),
            events: Vec::new(),
        };
        assert(r@ =~= genesis(config));
        r
    }

    /// Stores a new NPC under the next NPC id.
    pub fn create_npc(
        &mut self,
        origin: Origin,
        name: Vec<u8>,
        img_url: Vec<u8>,
        story: Vec<u8>,
        features: Vec<u8>,
    ) -> (r: Result<(), DispatchError>)
        requires
            origin.is_organizer ==> old(self)@.next_npc_id < u32::MAX,
        ensures
            unit_outcome(
                r,
                old(self)@,
                final(self)@,
                create_npc_step(
                    old(self)@,
                    origin,
                    NpcView {
                        name: name@,
                        img_url: img_url@,
                        story: story@,
                        features: features@,
                    },
                ),
            ),
    {
        if !origin.is_organizer {
            return Err(DispatchError::BadOrigin);
        }
        let npc = NPC { name, img_url, story, features };
        let id = self.next_npc_id;
        proof {
            lemma_map_values_insert(self.npcs@, id, npc, |n: NPC| n@);
        }
        self.npcs.insert(id, npc);
        self.next_npc_id = id + 1;
        Ok(())
    }

    /// Appends an event.
    fn deposit_event(&mut self, e: Event)
        ensures
            final(self)@ == (PalletView { events: old(self)@.events.push(e@), ..old(self)@ }),
    {
        proof {
            lemma_seq_map_push(self.events@, e, |e: Event| e@);
        }
        self.events.push(e);
    }

    /// Stores a season under its id.
    fn put_season(&mut self, id: SeasonId, season: Season)
        ensures
            final(self)@ == (PalletView {
                seasons: old(self)@.seasons.insert(id, season@),
                ..old(self)@
            }),
    {
        proof {
            lemma_map_values_insert(self.seasons@, id, season, |x: Season| x@);
        }
        self.seasons.insert(id, season);
    }

    /// Stores a battle under its id.
    fn put_battle(&mut self, id: BattleId, battle: Battle)
        ensures
            final(self)@ == (PalletView {
                battles: old(self)@.battles.insert(id, battle@),
                ..old(self)@
            }),
    {
        proof {
            lemma_map_values_insert(self.battles@, id, battle, |b: Battle| b@);
        }
        self.battles.insert(id, battle);
    }

    /// A copy of a stored season.
    fn season_copy(&self, id: SeasonId) -> (r: Option<Season>)
        ensures
            match r {
                Some(x) => self@.seasons.contains_key(id) && x@ == self@.seasons[id],
                None => !self@.seasons.contains_key(id),
            },
    {
        match self.seasons.get(&id) {
            Some(x) => Some(x.duplicate()),
            None => None,
        }
    }

    /// A copy of a stored battle.
    fn battle_copy(&self, id: BattleId) -> (r: Option<Battle>)
        ensures
            match r {
                Some(x) => self@.battles.contains_key(id) && x@ == self@.battles[id],
                None => !self@.battles.contains_key(id),
            },
    {
        match self.battles.get(&id) {
            Some(x) => Some(x.duplicate()),
            None => None,
        }
    }

    /// Stores a new season, in the `Initial` status, under the next season id.
    pub fn create_season(
        &mut self,
        origin: Origin,
        name: Vec<u8>,
        start_time_str: Vec<u8>,
        total_battles: u8,
        first_round_battle_type: BattleType,
        ticket_price: Balance,
    ) -> (r: Result<(), DispatchError>)
        requires
            !create_season_overflows(old(self)@, origin, start_time_str@, ticket_price),
        ensures
            unit_outcome(
                r,
                old(self)@,
                final(self)@,
                create_season_step(
                    old(self)@,
                    origin,
                    name@,
                    start_time_str@,
                    total_battles,
                    first_round_battle_type,
                    ticket_price,
                ),
            ),
    {
        if !origin.is_organizer {
            return Err(DispatchError::BadOrigin);
        }
        let start_time = match Self::date_to_timestamp(start_time_str) {
            Ok(t) => t,
            Err(_) => {
                return Err(DispatchError::Module(Error::TimeFormatError));
            },
        };
        if ticket_price <= 1000000000000000000u128 {
            return Err(DispatchError::Module(Error::TicketPriceTooSmall));
        }
        let id = self.next_season_id;
        let treasury = Self::get_season_treasury(id);
        let season = Season {
            id,
            name,
            status: SeasonStatus::Initial,
            treasury,
            start_time,
            total_battles,
            bonus_strategy: Vec::new(),
            ticket_price,
            first_round_battle_type,
            current_round_battle_type: first_round_battle_type,
            champion: None,
            total_tickets: 0,
        };
        let ev = Event::SeasonUpdate(season.duplicate(), false);
        self.put_season(id, season);
        self.next_season_id = id + 1;
        self.deposit_event(ev);
        Ok(())
    }

    /// `create_season` where it would not overflow the season counter (an
    /// overflow is a panic of the runtime); `None`, storage unchanged, where
    /// it would.
    pub fn try_create_season(
        &mut self,
        origin: Origin,
        name: Vec<u8>,
        start_time_str: Vec<u8>,
        total_battles: u8,
        first_round_battle_type: BattleType,
        ticket_price: Balance,
    ) -> (r: Option<Result<(), DispatchError>>)
        ensures
            r is None <==> create_season_overflows(old(self)@, origin, start_time_str@, ticket_price),
            r is None ==> final(self)@ == old(self)@,
            r matches Some(x) ==> unit_outcome(
                x,
                old(self)@,
                final(self)@,
                create_season_step(
                    old(self)@,
                    origin,
                    name@,
                    start_time_str@,
                    total_battles,
                    first_round_battle_type,
                    ticket_price,
                ),
            ),
    {
        if origin.is_organizer && ticket_price > 1000000000000000000u128 && self.next_season_id
            == u32::MAX {
            match Self::date_to_timestamp(copy_bytes(&start_time_str)) {
                Ok(_) => {
                    return None;
                },
                Err(_) => {},
            }
        }
        Some(
            self.create_season(
                origin,
                name,
                start_time_str,
                total_battles,
                first_round_battle_type,
                ticket_price,
            ),
        )
    }

    /// Sets the current round of a season.
    pub fn update_season_current_round(
        &mut self,
        origin: Origin,
        season_id: SeasonId,
        battle_type: BattleType,
    ) -> (r: Result<(), DispatchError>)
        ensures
            unit_outcome(
                r,
                old(self)@,
                final(self)@,
                update_season_current_round_step(old(self)@, origin, season_id, battle_type),
            ),
    {
        if !origin.is_organizer {
            return Err(DispatchError::BadOrigin);
        }
        let mut s = match self.season_copy(season_id) {
            Some(x) => x,
            None => {
                return Err(DispatchError::Module(Error::SeasonNotFound));
            },
        };
        s.current_round_battle_type = battle_type;
        let is_default = self.default_season == season_id;
        let ev = Event::SeasonUpdate(s.duplicate(), is_default);
        self.put_season(season_id, s);
        self.deposit_event(ev);
        Ok(())
    }

    /// Changes a season's name, start, number of battles, first round and
    /// ticket price.
    pub fn update_season(
        &mut self,
        origin: Origin,
        season_id: SeasonId,
        name: Vec<u8>,
        start_time_str: Vec<u8>,
        total_battles: u8,
        first_round_battle_type: BattleType,
        ticket_price: Balance,
    ) -> (r: Result<(), DispatchError>)
        ensures
            unit_outcome(
                r,
                old(self)@,
                final(self)@,
                update_season_step(
                    old(self)@,
                    origin,
                    season_id,
                    name@,
                    start_time_str@,
                    total_battles,
                    first_round_battle_type,
                    ticket_price,
                ),
            ),
    {
        if !origin.is_organizer {
            return Err(DispatchError::BadOrigin);
        }
        let start_time = match Self::date_to_timestamp(start_time_str) {
            Ok(t) => t,
            Err(_) => {
                return Err(DispatchError::Module(Error::TimeFormatError));
            },
        };
        if ticket_price <= 1000000000000000000u128 {
            return Err(DispatchError::Module(Error::TicketPriceTooSmall));
        }
        let mut s = match self.season_copy(season_id) {
            Some(x) => x,
            None => {
                return Err(DispatchError::Module(Error::SeasonNotFound));
            },
        };
        s.name = name;
        s.start_time = start_time;
        s.total_battles = total_battles;
        s.first_round_battle_type = first_round_battle_type;
        s.ticket_price = ticket_price;
        let is_default = self.default_season == season_id;
        let ev = Event::SeasonUpdate(s.duplicate(), is_default);
        self.put_season(season_id, s);
        self.deposit_event(ev);
        Ok(())
    }

    /// Accepted from the organizer, and without effect.
    pub fn create_betting(
        &mut self,
        origin: Origin,
        _battles: Vec<BattleId>,
        _odds: Vec<Odds>,
    ) -> (r: Result<(), DispatchError>)
        ensures
            unit_outcome(r, old(self)@, final(self)@, create_betting_step(old(self)@, origin)),
    {
        if !origin.is_organizer {
            return Err(DispatchError::BadOrigin);
        }
        Ok(())
    }

    /// Makes a season the default one, the one whose tickets are sold.
    pub fn set_default_season(&mut self, origin: Origin, sid: SeasonId) -> (r: Result<
        (),
        DispatchError,
    >)
        ensures
            unit_outcome(r, old(self)@, final(self)@, set_default_season_step(old(self)@, origin, sid)),
    {
        if !origin.is_organizer {
            return Err(DispatchError::BadOrigin);
        }
        let s = match self.season_copy(sid) {
            Some(x) => x,
            None => {
                return Err(DispatchError::Module(Error::SeasonNotFound));
            },
        };
        let default_season_id = self.default_season;
        match self.season_copy(default_season_id) {
            Some(d) => {
                self.deposit_event(Event::SeasonUpdate(d, false));
            },
            None => {},
        }
        self.default_season = sid;
        self.deposit_event(Event::SeasonUpdate(s, true));
        Ok(())
    }

    /// The checks of `create_battle` and `update_battle`, and the battle they
    /// make.
    fn check_battle(
        &self,
        season: SeasonId,
        battle_type: BattleType,
        home: NpcId,
        visiting: NpcId,
        start_time_str: Vec<u8>,
        position: u8,
    ) -> (r: Result<Battle, Error>)
        ensures
            match battle_checks(
                self@,
                season,
                battle_type,
                home,
                visiting,
                start_time_str@,
                position,
            ) {
                Ok(b) => r matches Ok(x) && x@ == b,
                Err(e) => r == Err::<Battle, Error>(e),
            },
    {
        let s = match self.season_copy(season) {
            Some(x) => x,
            None => {
                return Err(Error::SeasonNotFound);
            },
        };
        if !self.npcs.contains_key(&home) {
            return Err(Error::NpcNotFound);
        }
        if !self.npcs.contains_key(&visiting) {
            return Err(Error::NpcNotFound);
        }
        let start_time = match Self::date_to_timestamp(start_time_str) {
            Ok(t) => t,
            Err(_) => {
                return Err(Error::TimeFormatError);
            },
        };
        if !(start_time >= s.start_time) {
            return Err(Error::BattleTimeError);
        }
        if !(home != visiting) {
            return Err(Error::BattleNpcCantSame);
        }
        Ok(
            Battle {
                season,
                season_name: s.name,
                battle_type,
                home,
                visiting,
                status: BattleStatus::Running,
                start_time,
                home_score: None,
                visiting_score: None,
                video_url: Vec::new(),
                position,
            },
        )
    }

    /// Stores a new battle of a season between two NPCs under the next
    /// battle id.
    pub fn create_battle(
        &mut self,
        origin: Origin,
        season: SeasonId,
        battle_type: BattleType,
        home: NpcId,
        visiting: NpcId,
        start_time_str: Vec<u8>,
        position: u8,
    ) -> (r: Result<(), DispatchError>)
        requires
            !create_battle_overflows(
                old(self)@,
                origin,
                season,
                battle_type,
                home,
                visiting,
                start_time_str@,
                position,
            ),
        ensures
            unit_outcome(
                r,
                old(self)@,
                final(self)@,
                create_battle_step(
                    old(self)@,
                    origin,
                    season,
                    battle_type,
                    home,
                    visiting,
                    start_time_str@,
                    position,
                ),
            ),
    {
        if !origin.is_organizer {
            return Err(DispatchError::BadOrigin);
        }
        let battle = match self.check_battle(
            season,
            battle_type,
            home,
            visiting,
            start_time_str,
            position,
        ) {
            Ok(b) => b,
            Err(e) => {
                return Err(DispatchError::Module(e));
            },
        };
        let id = self.next_battle_id;
        let ev = Event::Battle(id, battle.duplicate());
        self.put_battle(id, battle);
        self.next_battle_id = id + 1;
        self.deposit_event(ev);
        Ok(())
    }

    /// `create_battle` where it would not overflow the battle counter (an
    /// overflow is a panic of the runtime); `None`, storage unchanged, where
    /// it would.
    pub fn try_create_battle(
        &mut self,
        origin: Origin,
        season: SeasonId,
        battle_type: BattleType,
        home: NpcId,
        visiting: NpcId,
        start_time_str: Vec<u8>,
        position: u8,
    ) -> (r: Option<Result<(), DispatchError>>)
        ensures
            r is None <==> create_battle_overflows(
                old(self)@,
                origin,
                season,
                battle_type,
                home,
                visiting,
                start_time_str@,
                position,
            ),
            r is None ==> final(self)@ == old(self)@,
            r matches Some(x) ==> unit_outcome(
                x,
                old(self)@,
                final(self)@,
                create_battle_step(
                    old(self)@,
                    origin,
                    season,
                    battle_type,
                    home,
                    visiting,
                    start_time_str@,
                    position,
                ),
            ),
    {
        if origin.is_organizer && self.next_battle_id == u32::MAX {
            match self.check_battle(
                season,
                battle_type,
                home,
                visiting,
                copy_bytes(&start_time_str),
                position,
            ) {
                Ok(_) => {
                    return None;
                },
                Err(_) => {},
            }
        }
        Some(
            self.create_battle(origin, season, battle_type, home, visiting, start_time_str, position),
        )
    }

    /// Replaces the battle stored under an id by a new running one.
    pub fn update_battle(
        &mut self,
        origin: Origin,
        battle_id: BattleId,
        season: SeasonId,
        battle_type: BattleType,
        home: NpcId,
        visiting: NpcId,
        start_time_str: Vec<u8>,
        position: u8,
    ) -> (r: Result<(), DispatchError>)
        ensures
            unit_outcome(
                r,
                old(self)@,
                final(self)@,
                update_battle_step(
                    old(self)@,
                    origin,
                    battle_id,
                    season,
                    battle_type,
                    home,
                    visiting,
                    start_time_str@,
                    position,
                ),
            ),
    {
        if !origin.is_organizer {
            return Err(DispatchError::BadOrigin);
        }
        let battle = match self.check_battle(
            season,
            battle_type,
            home,
            visiting,
            start_time_str,
            position,
        ) {
            Ok(b) => b,
            Err(e) => {
                return Err(DispatchError::Module(e));
            },
        };
        let ev = Event::Battle(battle_id, battle.duplicate());
        self.put_battle(battle_id, battle);
        self.deposit_event(ev);
        Ok(())
    }

    /// Asks for `amount` of the AWT token to move from a season's treasury
    /// to `to`.
    pub fn withdraw_season_treasury(
        &mut self,
        origin: Origin,
        season_id: SeasonId,
        to: AccountId,
        amount: Balance,
    ) -> (r: Result<Vec<TokenAction>, DispatchError>)
        ensures
            actions_outcome(
                r,
                old(self)@,
                final(self)@,
                withdraw_season_treasury_step(old(self)@, origin, season_id, to, amount),
            ),
    {
        if !origin.is_organizer {
            return Err(DispatchError::BadOrigin);
        }
        let s = match self.season_copy(season_id) {
            Some(x) => x,
            None => {
                return Err(DispatchError::Module(Error::SeasonNotFound));
            },
        };
        let mut v: Vec<TokenAction> = Vec::new();
        v.push(
            TokenAction::Transfer {
                from: s.treasury,
                token: self.config.awt_token_id,
                amount,
                to,
                must_succeed: true,
            },
        );
        assert(v@ =~= withdraw_season_treasury_step(old(self)@, origin, season_id, to, amount)->Ok_0.1);
        Ok(v)
    }

    /// A deposit of AWT tokens from the bridge: mints them to `to`, and
    /// donates native tokens to an account that has never made a
    /// transaction. The runtime resolves the call's resource id to `asset`
    /// (`None` where it names no token) and reads `to`'s nonce.
    pub fn deposit(
        &mut self,
        origin: Origin,
        to: AccountId,
        awt: Balance,
        asset: Option<TokenId>,
        account_nonce: u32,
    ) -> (r: Result<Vec<TokenAction>, DispatchError>)
        ensures
            actions_outcome(
                r,
                old(self)@,
                final(self)@,
                deposit_step(old(self)@, origin, to, awt, asset, account_nonce),
            ),
    {
        if !origin.is_bridge {
            return Err(DispatchError::BadOrigin);
        }
        let token = match asset {
            Some(t) => t,
            None => {
                return Err(DispatchError::Module(Error::InvalidResourceId));
            },
        };
        let mut v: Vec<TokenAction> = Vec::new();
        v.push(TokenAction::Mint { token, to, amount: awt });
        if account_nonce == 0 {
            v.push(self.donation(to));
        }
        assert(v@ =~= deposit_step(old(self)@, origin, to, awt, asset, account_nonce)->Ok_0.1);
        Ok(v)
    }

    /// Asks for a donation of native tokens to each address of a SCALE
    /// encoded list; the failure of a donation is ignored.
    pub fn give_away_fee(&mut self, origin: Origin, addrs: Vec<u8>) -> (r: Result<
        Vec<TokenAction>,
        DispatchError,
    >)
        ensures
            actions_outcome(r, old(self)@, final(self)@, give_away_fee_step(old(self)@, origin, addrs@)),
    {
        if !origin.is_organizer {
            return Err(DispatchError::BadOrigin);
        }
        let lists = match decode_byte_lists(addrs.as_slice()) {
            Some(v) => v,
            None => {
                return Err(DispatchError::Module(Error::AddrListInputError));
            },
        };
        let ghost l = lists@.map_values(|v: Vec<u8>| v@);
        let mut acts: Vec<TokenAction> = Vec::new();
        let mut i: usize = 0;
        while i < lists.len()
            invariant
                i <= lists.len(),
                l == lists@.map_values(|v: Vec<u8>| v@),
                self@ == old(self)@,
                acts@ == Seq::new(i as nat, |j: int| donation_to(self@, account_of_bytes(l[j]))),
            decreases lists.len() - i,
        {
            let a = decode_account(lists[i].as_slice());
            proof {
                lemma_decoded_account(lists[i as int]@, a->0);
            }
            let addr = match a {
                Some(x) => x,
                None => 0,
            };
            acts.push(self.donation(addr));
            i = i + 1;
        }
        assert(acts@ =~= l.map_values(|a: Seq<u8>| donation_to(self@, account_of_bytes(a))));
        Ok(acts)
    }

    /// The tickets of an account in a season, `(0, 0)` where it has none.
    fn tickets_get(&self, season: SeasonId, who: AccountId) -> (r: (u32, u32))
        ensures
            r == self@.tickets_of(season, who),
    {
        match self.tickets.get(&(season, who)) {
            Some(v) => *v,
            None => (0, 0),
        }
    }

    /// Whether giving a ticket to each address of `lists` keeps every
    /// counter within `u32`.
    fn free_tickets_fit(t: &BTreeMap<(SeasonId, AccountId), (u32, u32)>, season: SeasonId, lists: &Vec<Vec<u8>>) -> (r: bool)
        ensures
            r == give_tickets_fit(t@, season, lists@.map_values(|v: Vec<u8>| v@)),
    {
        let ghost l = lists@.map_values(|v: Vec<u8>| v@);
        let mut work = t.clone();
        let mut i: usize = 0;
        while i < lists.len()
            invariant
                i <= lists.len(),
                l == lists@.map_values(|v: Vec<u8>| v@),
                work@ == give_tickets(t@, season, l.take(i as int)),
                forall|j: int|
                    0 <= j < i ==> #[trigger] add_ticket_fits(
                        give_tickets(t@, season, l.take(j)),
                        season,
                        account_of_bytes(l[j]),
                    ),
            decreases lists.len() - i,
        {
            let a = decode_account(lists[i].as_slice());
            proof {
                lemma_decoded_account(lists[i as int]@, a->0);
            }
            let addr = match a {
                Some(x) => x,
                None => 0,
            };
            let v = match work.get(&(season, addr)) {
                Some(v) => *v,
                None => (0, 0),
            };
            if v.0 == u32::MAX || v.1 == u32::MAX {
                assert(!add_ticket_fits(
                    give_tickets(t@, season, l.take(i as int)),
                    season,
                    account_of_bytes(l[i as int]),
                ));
                return false;
            }
            work.insert((season, addr), (v.0 + 1, v.1 + 1));
            assert(l.take(i + 1).drop_last() =~= l.take(i as int));
            i = i + 1;
        }
        true
    }

    /// Gives a ticket of a season to each address of a SCALE encoded list.
    pub fn give_away_tickets(&mut self, origin: Origin, season_id: SeasonId, addrs: Vec<u8>) -> (r:
        Result<(), DispatchError>)
        requires
            !give_away_tickets_overflows(old(self)@, origin, season_id, addrs@),
        ensures
            unit_outcome(
                r,
                old(self)@,
                final(self)@,
                give_away_tickets_step(old(self)@, origin, season_id, addrs@),
            ),
    {
        if !origin.is_organizer {
            return Err(DispatchError::BadOrigin);
        }
        let lists = match decode_byte_lists(addrs.as_slice()) {
            Some(v) => v,
            None => {
                return Err(DispatchError::Module(Error::AddrListInputError));
            },
        };
        let ghost l = lists@.map_values(|v: Vec<u8>| v@);
        let ghost t0 = old(self)@.tickets;
        let mut i: usize = 0;
        while i < lists.len()
            invariant
                i <= lists.len(),
                l == lists@.map_values(|v: Vec<u8>| v@),
                give_tickets_fit(t0, season_id, l),
                self@ == (PalletView { tickets: give_tickets(t0, season_id, l.take(i as int)), ..old(self)@ }),
            decreases lists.len() - i,
        {
            let a = decode_account(lists[i].as_slice());
            proof {
                lemma_decoded_account(lists[i as int]@, a->0);
            }
            let addr = match a {
                Some(x) => x,
                None => 0,
            };
            let v = self.tickets_get(season_id, addr);
            assert(add_ticket_fits(
                give_tickets(t0, season_id, l.take(i as int)),
                season_id,
                account_of_bytes(l[i as int]),
            ));
            self.tickets.insert((season_id, addr), (v.0 + 1, v.1 + 1));
            assert(l.take(i + 1).drop_last() =~= l.take(i as int));
            i = i + 1;
        }
        assert(l.take(lists.len() as int) =~= l);
        Ok(())
    }

    /// `give_away_tickets` where it would not overflow a ticket counter (an
    /// overflow is a panic of the runtime); `None`, storage unchanged, where
    /// it would.
    pub fn try_give_away_tickets(&mut self, origin: Origin, season_id: SeasonId, addrs: Vec<u8>) -> (r:
        Option<Result<(), DispatchError>>)
        ensures
            r is None <==> give_away_tickets_overflows(old(self)@, origin, season_id, addrs@),
            r is None ==> final(self)@ == old(self)@,
            r matches Some(x) ==> unit_outcome(
                x,
                old(self)@,
                final(self)@,
                give_away_tickets_step(old(self)@, origin, season_id, addrs@),
            ),
    {
        if origin.is_organizer {
            match decode_byte_lists(addrs.as_slice()) {
                Some(lists) => {
                    if !Self::free_tickets_fit(&self.tickets, season_id, &lists) {
                        return None;
                    }
                },
                None => {},
            }
        }
        Some(self.give_away_tickets(origin, season_id, addrs))
    }

    /// Counts one more invited account and `part` more earned for an
    /// inviter.
    fn credit_invitor(&mut self, invitor: AccountId, part: Balance)
        requires
            old(self)@.invite_of(invitor).1 + 1 <= u32::MAX,
            old(self)@.invite_of(invitor).2 + part <= u128::MAX,
        ensures
            final(self)@ == (PalletView {
                invite_code: old(self)@.invite_code.insert(
                    invitor,
                    (
                        old(self)@.invite_of(invitor).0,
                        (old(self)@.invite_of(invitor).1 + 1) as u32,
                        (old(self)@.invite_of(invitor).2 + part) as u128,
                    ),
                ),
                ..old(self)@
            }),
    {
        let ghost pre = self.invite_code@;
        let v = match self.invite_code.remove(&invitor) {
            Some(v) => v,
            None => (Vec::new(), 0u32, 0u128),
        };
        let nv = (v.0, v.1 + 1, v.2 + part);
        proof {
            lemma_map_values_insert(pre, invitor, nv, |v: (Vec<u8>, u32, Balance)| (v.0@, v.1, v.2));
            assert(pre.remove(invitor).insert(invitor, nv) =~= pre.insert(invitor, nv));
        }
        self.invite_code.insert(invitor, nv);
    }

    /// Buys tickets of the default season: 85% of the price goes to the
    /// season's treasury, 5% to the inviter whose code came with the call
    /// where it is another account, the rest to the bvb treasury. The
    /// runtime supplies the time (milliseconds) and the buyer's AWT balance.
    pub fn buy_ticket(
        &mut self,
        origin: Origin,
        amount: u32,
        invite_code: Vec<u8>,
        now: u64,
        balance: Balance,
    ) -> (r: Result<Vec<TokenAction>, DispatchError>)
        requires
            !buy_ticket_overflows(old(self)@, origin, amount, invite_code@, now, balance),
        ensures
            actions_outcome(
                r,
                old(self)@,
                final(self)@,
                buy_ticket_step(old(self)@, origin, amount, invite_code@, now, balance),
            ),
    {
        let who = match origin.signer {
            Some(w) => w,
            None => {
                return Err(DispatchError::BadOrigin);
            },
        };
        let sid = self.default_season;
        let mut season = match self.season_copy(sid) {
            Some(x) => x,
            None => {
                return Err(DispatchError::Module(Error::DefaultSeasonNotFound));
            },
        };
        if !(now / 1000 < season.start_time) {
            return Err(DispatchError::Module(Error::BuyTicketOverTime));
        }
        let owned = self.tickets_get(sid, who);
        let max_ticket_amount = self.config.max_ticket_amount;
        if !(owned.0 + amount <= max_ticket_amount && amount > 0) {
            return Err(DispatchError::Module(Error::TicketAmountError));
        }
        let m: u128 = season.ticket_price * (amount as u128);
        if !(m <= balance) {
            return Err(DispatchError::Module(Error::InsufficientBalance));
        }
        let ghost pre = self@;
        let awt = self.config.awt_token_id;
        let part_to_bonus = bonus_part(m);
        let mut acts: Vec<TokenAction> = Vec::new();
        acts.push(
            TokenAction::Transfer {
                from: who,
                token: awt,
                amount: part_to_bonus,
                to: season.treasury,
                must_succeed: true,
            },
        );
        let mut part_to_invitor: u128 = 0;
        let inv = Self::invite_code_to_addr(invite_code);
        match inv {
            Some(invitor) => {
                if invitor != who {
                    part_to_invitor = invitor_part(m);
                    acts.push(
                        TokenAction::Transfer {
                            from: who,
                            token: awt,
                            amount: part_to_invitor,
                            to: invitor,
                            must_succeed: true,
                        },
                    );
                    self.invite_records.insert(who, true);
                    self.credit_invitor(invitor, part_to_invitor);
                }
            },
            None => {},
        }
        proof {
            lemma_shares_fit(m as int);
        }
        let part_to_bvb_treasury: u128 = m - part_to_bonus - part_to_invitor;
        acts.push(
            TokenAction::Transfer {
                from: who,
                token: awt,
                amount: part_to_bvb_treasury,
                to: self.config.bvb_treasury,
                must_succeed: true,
            },
        );
        self.tickets.insert((sid, who), (owned.0 + amount, owned.1 + amount));
        season.total_tickets = season.total_tickets + amount;
        self.put_season(sid, season);
        let ghost o = buy_ticket_step(pre, origin, amount, invite_code@, now, balance);
        assert(acts@ =~= o->Ok_0.1);
        assert(self@ =~= o->Ok_0.0);
        Ok(acts)
    }

    /// `buy_ticket` where it would not overflow (an overflow is a panic of
    /// the runtime); `None`, storage unchanged, where it would.
    pub fn try_buy_ticket(
        &mut self,
        origin: Origin,
        amount: u32,
        invite_code: Vec<u8>,
        now: u64,
        balance: Balance,
    ) -> (r: Option<Result<Vec<TokenAction>, DispatchError>>)
        ensures
            r is None <==> buy_ticket_overflows(old(self)@, origin, amount, invite_code@, now, balance),
            r is None ==> final(self)@ == old(self)@,
            r matches Some(x) ==> actions_outcome(
                x,
                old(self)@,
                final(self)@,
                buy_ticket_step(old(self)@, origin, amount, invite_code@, now, balance),
            ),
    {
        if self.buy_ticket_would_overflow(origin, amount, &invite_code, now, balance) {
            return None;
        }
        Some(self.buy_ticket(origin, amount, invite_code, now, balance))
    }

    /// Whether `buy_ticket` would overflow.
    fn buy_ticket_would_overflow(
        &self,
        origin: Origin,
        amount: u32,
        invite_code: &Vec<u8>,
        now: u64,
        balance: Balance,
    ) -> (r: bool)
        ensures
            r == buy_ticket_overflows(self@, origin, amount, invite_code@, now, balance),
    {
        let who = match origin.signer {
            Some(w) => w,
            None => {
                return false;
            },
        };
        let sid = self.default_season;
        let season = match self.season_copy(sid) {
            Some(x) => x,
            None => {
                return false;
            },
        };
        if !(now / 1000 < season.start_time) {
            return false;
        }
        let owned = self.tickets_get(sid, who);
        if owned.0 > u32::MAX - amount {
            return true;
        }
        if !(owned.0 + amount <= self.config.max_ticket_amount && amount > 0) {
            return false;
        }
        let m = match season.ticket_price.checked_mul(amount as u128) {
            Some(m) => m,
            None => {
                return true;
            },
        };
        if !(m <= balance) {
            return false;
        }
        if m > u128::MAX / 85 {
            return true;
        }
        let inv = Self::invite_code_to_addr(copy_bytes(invite_code));
        match inv {
            Some(invitor) => {
                if invitor != who {
                    let part = invitor_part(m);
                    let v = match self.invite_code.get(&invitor) {
                        Some(v) => (v.1, v.2),
                        None => (0u32, 0u128),
                    };
                    if v.0 == u32::MAX || v.1 > u128::MAX - part {
                        return true;
                    }
                }
            },
            None => {},
        }
        owned.1 > u32::MAX - amount || season.total_tickets > u32::MAX - amount
    }

    /// The points of an NPC in a season, zeros where it has none.
    fn npc_point_get(&self, season: SeasonId, npc: NpcId) -> (r: (u8, u8, u32, i32))
        ensures
            r == self@.npc_point_of((season, npc)),
    {
        match self.npc_points.get(&(season, npc)) {
            Some(v) => *v,
            None => (0, 0, 0, 0),
        }
    }

    /// The points of a selection in a season, zeros where it has none.
    fn participant_point_get(&self, key: (SeasonId, AccountId, SelectIndex)) -> (r: (u8, u8, u32))
        ensures
            r == self@.participant_point_of(key),
    {
        match self.participant_points.get(&key) {
            Some(v) => *v,
            None => (0, 0, 0),
        }
    }

    /// Records a battle of a season: a win by `score_diff` for the winner, a
    /// loss by as much for the loser, announced for a regular battle.
    pub fn update_npc_point(
        &mut self,
        season_id: SeasonId,
        winner: NpcId,
        loser: NpcId,
        score_diff: u8,
        battle_type: BattleType,
    ) -> (r: Result<(), DispatchError>)
        requires
            npc_point_update_fits(old(self)@, season_id, winner, loser, score_diff),
        ensures
            r is Ok,
            final(self)@ == npc_point_update(
                old(self)@,
                season_id,
                winner,
                loser,
                score_diff,
                battle_type,
            ),
    {
        let ghost pre = self@;
        let e = self.npc_point_get(season_id, winner);
        let nw = (e.0 + 1, e.1 + 1, e.2 + 3, e.3 + (score_diff as i32));
        self.npc_points.insert((season_id, winner), nw);
        if battle_type == BattleType::Regular {
            self.deposit_event(Event::NpcPoints(season_id, winner, nw.0, nw.1, nw.2, nw.3));
        }
        let l = self.npc_point_get(season_id, loser);
        let nl = (l.0 + 1, l.1, l.2, l.3 - (score_diff as i32));
        self.npc_points.insert((season_id, loser), nl);
        if battle_type == BattleType::Regular {
            self.deposit_event(Event::NpcPoints(season_id, loser, nl.0, nl.1, nl.2, nl.3));
        }
        assert(self@ =~= npc_point_update(pre, season_id, winner, loser, score_diff, battle_type));
        Ok(())
    }

    /// Awards one vote on a battle, and announces it.
    fn award_one(
        &mut self,
        season_id: SeasonId,
        battle_id: BattleId,
        abs: BattleAbstract,
        winner: NpcId,
        v: Vote,
        Ghost(sp): Ghost<PalletView>,
    )
        requires
            old(self)@ == (PalletView { votes_for_calc: old(self)@.votes_for_calc, ..sp }),
            award_fits(sp.participant_point_of((season_id, v.who, v.index)), winner == v.npc),
        ensures
            ({
                let key = (season_id, v.who, v.index);
                let np = award(sp.participant_point_of(key), winner == v.npc);
                final(self)@ == (PalletView {
                    participant_points: sp.participant_points.insert(key, np),
                    events: sp.events.push(
                        EventView::ParticipantPoints(season_id, v.who, np.0, np.1, np.2),
                    ).push(EventView::ParticipantPointRecord(v.who, battle_id, abs, v.npc)),
                    votes_for_calc: old(self)@.votes_for_calc,
                    ..sp
                })
            }),
    {
        let key = (season_id, v.who, v.index);
        let p = self.participant_point_get(key);
        let np = if winner == v.npc {
            (p.0 + 1, p.1 + 1, p.2 + 3)
        } else {
            (p.0 + 1, p.1, p.2)
        };
        self.participant_points.insert(key, np);
        self.deposit_event(Event::ParticipantPoints(season_id, v.who, np.0, np.1, np.2));
        self.deposit_event(Event::ParticipantPointRecord(v.who, battle_id, abs, v.npc));
    }

    /// Awards the points of a battle to every selection that voted on it,
    /// by the order of the votes; each award is announced, then the vote.
    pub fn update_participant_point(
        &mut self,
        season_id: SeasonId,
        battle_id: BattleId,
        battle: Battle,
        winner: NpcId,
    ) -> (r: Result<(), DispatchError>)
        requires
            battle.home_score is Some,
            battle.visiting_score is Some,
            award_points_fit(
                old(self)@,
                season_id,
                battle_id,
                battle_abstract_of(battle@),
                winner,
                old(self)@.votes_of(battle_id),
            ),
        ensures
            r is Ok,
            final(self)@ == participant_point_update(
                old(self)@,
                season_id,
                battle_id,
                battle@,
                winner,
            ),
    {
        let ghost pre = self@;
        let abs = battle.to_abstract();
        let book = match self.votes_for_calc.remove(&battle_id) {
            Some(v) => v,
            None => Vec::new(),
        };
        assert(book@ == pre.votes_of(battle_id));
        proof {
            lemma_points_after_fit(pre, season_id, battle_id, abs, winner, book@);
        }
        let mut i: usize = 0;
        while i < book.len()
            invariant
                i <= book.len(),
                book@ == pre.votes_of(battle_id),
                abs == battle_abstract_of(battle@),
                forall|j: int| #![trigger book@[j]] 0 <= j < book@.len() ==> award_fits(
                    point_in(
                        points_after(pre, season_id, battle_id, abs, winner, book@, j),
                        (season_id, book@[j].who, book@[j].index),
                    ),
                    winner == book@[j].npc,
                ),
                self@ == (PalletView {
                    votes_for_calc: pre.votes_for_calc.remove(battle_id),
                    ..award_points(pre, season_id, battle_id, abs, winner, book@.take(i as int))
                }),
            decreases book.len() - i,
        {
            let ghost sp = award_points(pre, season_id, battle_id, abs, winner, book@.take(i as int));
            proof {
                assert(book@.take(i + 1).drop_last() =~= book@.take(i as int));
                lemma_award_points_frame(pre, season_id, battle_id, abs, winner, book@.take(i as int));
                assert(sp.participant_points == points_after(pre, season_id, battle_id, abs, winner, book@, i as int)) by {
                    reveal(points_after);
                }
                assert(award_fits(
                    point_in(
                        points_after(pre, season_id, battle_id, abs, winner, book@, i as int),
                        (season_id, book@[i as int].who, book@[i as int].index),
                    ),
                    winner == book@[i as int].npc,
                ));
            }
            self.award_one(season_id, battle_id, abs, winner, book[i], Ghost(sp));
            i = i + 1;
        }
        assert(book@.take(book.len() as int) =~= book@);
        proof {
            lemma_map_values_insert(self.votes_for_calc@, battle_id, book, |v: Vec<Vote>| v@);
        }
        self.votes_for_calc.insert(battle_id, book);
        proof {
            lemma_award_points_frame(pre, season_id, battle_id, abs, winner, book@);
            assert(pre.votes_for_calc.remove(battle_id).insert(battle_id, book@)
                =~= pre.votes_for_calc.insert(battle_id, book@));
        }
        assert(self@ =~= participant_point_update(pre, season_id, battle_id, battle@, winner));
        Ok(())
    }

    /// Settles a completed battle: the NPCs' and the voters' points, the
    /// battle `Finalized`, and for a final the season's champion.
    pub fn settle(&mut self, origin: Origin, battle_id: BattleId) -> (r: Result<(), DispatchError>)
        requires
            !settle_panics(old(self)@, origin, battle_id),
        ensures
            unit_outcome(r, old(self)@, final(self)@, settle_step(old(self)@, origin, battle_id)),
    {
        if !origin.is_organizer {
            return Err(DispatchError::BadOrigin);
        }
        let battle = match self.battle_copy(battle_id) {
            Some(b) => b,
            None => {
                return Err(DispatchError::Module(Error::BattleNotFound));
            },
        };
        let ghost pre = self@;
        let battle_season = battle.season;
        let battle_type = battle.battle_type;
        if battle.status != BattleStatus::Completed {
            return Err(DispatchError::Module(Error::BattleStatusError));
        }
        let h = match battle.home_score {
            Some(x) => x,
            None => 0,
        };
        let v = match battle.visiting_score {
            Some(x) => x,
            None => 0,
        };
        let (score_diff, winner, loser) = if h > v {
            (h - v, battle.home, battle.visiting)
        } else {
            (v - h, battle.visiting, battle.home)
        };
        let _ = self.update_npc_point(battle_season, winner, loser, score_diff, battle_type);
        let ghost s1 = self@;
        proof {
            lemma_award_points_frame(
                s1,
                battle_season,
                battle_id,
                battle_abstract_of(battle@),
                winner,
                s1.votes_of(battle_id),
            );
        }
        let mut finalized = battle.duplicate();
        finalized.status = BattleStatus::Finalized;
        let _ = self.update_participant_point(battle_season, battle_id, battle, winner);
        self.put_battle(battle_id, finalized);
        if battle_type == BattleType::Finals {
            let mut s = match self.season_copy(battle_season) {
                Some(x) => x,
                None => {
                    return Err(DispatchError::Module(Error::SeasonNotFound));
                },
            };
            s.champion = Some(winner);
            let is_default = self.default_season == battle_season;
            let ev = Event::SeasonUpdate(s.duplicate(), is_default);
            self.put_season(battle_season, s);
            self.deposit_event(ev);
        }
        assert(self@ =~= settle_step(pre, origin, battle_id)->Ok_0.0);
        Ok(())
    }

    /// The tickets of a selection of an account in a season.
    fn selection_tickets_get(&self, who: AccountId, season_id: SeasonId, index: SelectIndex) -> (r: u32)
        requires
            (index as int) < self@.infos_of(who, season_id).0.len(),
        ensures
            r == self@.infos_of(who, season_id).0[index as int].ticket_amount,
    {
        match self.vote_select_infos.get(&(who, season_id)) {
            Some(v) => v.0[index as usize].ticket_amount,
            None => 0,
        }
    }

    /// The tickets of the season's champions and runners-up.
    fn tallies(&self, season_id: SeasonId, total: u8) -> (r: (u128, u128))
        requires
            forall|k: PointKey|
                #![trigger self@.participant_points.contains_key(k)]
                self@.participant_points.contains_key(k) && k.0 == season_id ==> k.2
                    < self@.infos_of(k.1, season_id).0.len() && self@.participant_points[k].1 < 255,
        ensures
            r.0 == tally(self@, season_id, total, false),
            r.1 == tally(self@, season_id, total, true),
    {
        let ghost s = self@;
        let ghost fc = tally_step(s, season_id, total, false);
        let ghost fr = tally_step(s, season_id, total, true);
        proof {
            lemma_tally_step_commutative(s, season_id, total, false);
            lemma_tally_step_commutative(s, season_id, total, true);
        }
        let mut champion_tickets: u128 = 0;
        let mut runner_up_tickets: u128 = 0;
        let ghost mut seen: Set<PointKey> = Set::empty();
        let n = self.participant_points.len();
        proof {
            vstd::set::fold::lemma_fold_empty(0, fc);
            vstd::set::fold::lemma_fold_empty(0, fr);
        }
        for kv in it: self.participant_points.iter()
            invariant
                s == self@,
                n == s.participant_points.dom().len(),
                forall|k: PointKey|
                    #![trigger s.participant_points.contains_key(k)]
                    s.participant_points.contains_key(k) && k.0 == season_id ==> k.2
                        < s.infos_of(k.1, season_id).0.len() && s.participant_points[k].1 < 255,
                vstd::set::fold::is_fun_commutative(fc),
                vstd::set::fold::is_fun_commutative(fr),
                fc == tally_step(s, season_id, total, false),
                fr == tally_step(s, season_id, total, true),
                seen.finite(),
                seen.len() == it.index(),
                forall|j: int| 0 <= j < it.index() ==> #[trigger] seen.contains(*it.seq()[j].0),
                forall|k: PointKey| #[trigger] seen.contains(k) ==> exists|j: int| 0 <= j < it.index() && *it.seq()[j].0 == k,
                champion_tickets == seen.fold(0, fc),
                runner_up_tickets == seen.fold(0, fr),
                champion_tickets <= it.index() * 0xffff_ffff,
                runner_up_tickets <= it.index() * 0xffff_ffff,
                it.seq().len() == s.participant_points.dom().len(),
                forall|k: PointKey| #[trigger] s.participant_points.contains_key(k) ==> it.seq().contains((&k, &s.participant_points[k])),
                forall|j: int| #![trigger it.seq()[j]] 0 <= j < it.seq().len() ==> s.participant_points.contains_key(*it.seq()[j].0) && s.participant_points[*it.seq()[j].0] == *it.seq()[j].1,
                it.seq().no_duplicates(),
                it.index() == it.seq().len() ==> seen =~= s.participant_points.dom(),
        {
            let (k, p) = kv;
            let key: PointKey = *k;
            let won = p.1;
            proof {
                assert(s.participant_points.contains_key(key));
                assert(s.participant_points[key] == *p);
                if seen.contains(key) {
                    let j = choose|j: int| 0 <= j < it.index() && *it.seq()[j].0 == key;
                    assert(it.seq()[j] == it.seq()[it.index()]);
                }
            }
            if key.0 == season_id {
                let tickets = self.selection_tickets_get(key.1, season_id, key.2);
                if won == total {
                    champion_tickets = champion_tickets + tickets as u128;
                }
                if won + 1 == total {
                    runner_up_tickets = runner_up_tickets + tickets as u128;
                }
            }
            proof {
                vstd::set::fold::lemma_fold_insert(seen, 0, fc, key);
                vstd::set::fold::lemma_fold_insert(seen, 0, fr, key);
                seen = seen.insert(key);
            }
            assert forall|k2: PointKey|
                it.index() + 1 == it.seq().len() && #[trigger] s.participant_points.contains_key(k2)
                implies seen.contains(k2) by {
                assert(it.seq().contains((&k2, &s.participant_points[k2])));
            }
        }
        (champion_tickets, runner_up_tickets)
    }

    /// Closes a season: the champions are the selections that won all its
    /// battles, the runners-up those that won all but one; seven eighths of
    /// the treasury's AWT balance (which the runtime supplies) are for the
    /// champions' tickets, the rest for the runners-up's; the season is
    /// `Finalized`.
    pub fn close_season(
        &mut self,
        origin: Origin,
        season_id: SeasonId,
        treasury_balance: Balance,
    ) -> (r: Result<(), DispatchError>)
        requires
            !close_season_panics(old(self)@, origin, season_id, treasury_balance),
        ensures
            unit_outcome(
                r,
                old(self)@,
                final(self)@,
                close_season_step(old(self)@, origin, season_id, treasury_balance),
            ),
    {
        if !origin.is_organizer {
            return Err(DispatchError::BadOrigin);
        }
        let mut s = match self.season_copy(season_id) {
            Some(x) => x,
            None => {
                return Err(DispatchError::Module(Error::SeasonNotFound));
            },
        };
        let ghost pre = self@;
        let season_total_battles = s.total_battles;
        let (champion_tickets, runner_up_tickets) = self.tallies(season_id, season_total_battles);
        let (champion_bonus, runnerup_bonus) = season_bonus_split(treasury_balance);
        let mut v: Vec<(u8, u32, Balance)> = Vec::new();
        v.push((season_total_battles, champion_tickets as u32, champion_bonus));
        v.push((season_total_battles - 1, runner_up_tickets as u32, runnerup_bonus));
        assert(v@ =~= seq![
            (season_total_battles, tally(pre, season_id, season_total_battles, false) as u32, champion_share(treasury_balance as int) as u128),
            ((season_total_battles - 1) as u8, tally(pre, season_id, season_total_battles, true) as u32, (treasury_balance - champion_share(treasury_balance as int)) as u128),
        ]);
        s.bonus_strategy = v;
        s.status = SeasonStatus::Finalized;
        let is_default = self.default_season == season_id;
        let ev = Event::SeasonUpdate(s.duplicate(), is_default);
        self.put_season(season_id, s);
        self.deposit_event(ev);
        assert(self@ =~= close_season_step(pre, origin, season_id, treasury_balance)->Ok_0.0);
        Ok(())
    }

    /// Points of the season whose selection its voter does not hold, or
    /// whose won battles are at their limit.
    spec fn unheld_points(s: PalletView, season_id: SeasonId, k: PointKey) -> bool {
        k.0 == season_id && (k.2 >= s.infos_of(k.1, season_id).0.len()
            || s.participant_points[k].1 == 255)
    }

    /// The number of selections that an account holds in a season.
    fn selection_count(&self, who: AccountId, season_id: SeasonId) -> (r: usize)
        ensures
            r == self@.infos_of(who, season_id).0.len(),
    {
        match self.vote_select_infos.get(&(who, season_id)) {
            Some(v) => v.0.len(),
            None => 0,
        }
    }

    /// Whether some points of the season belong to a selection that its
    /// voter does not hold, or count a won battle at its limit.
    fn has_unheld_points(&self, season_id: SeasonId) -> (r: bool)
        ensures
            r == exists|k: PointKey|
                #![trigger self@.participant_points.contains_key(k)]
                self@.participant_points.contains_key(k) && Self::unheld_points(self@, season_id, k),
    {
        let ghost s = self@;
        for kv in it: self.participant_points.iter()
            invariant
                s == self@,
                forall|j: int|
                    #![trigger it.seq()[j]]
                    0 <= j < it.index() ==> !Self::unheld_points(s, season_id, *it.seq()[j].0),
                forall|k: PointKey| #[trigger] s.participant_points.contains_key(k) ==> it.seq().contains((&k, &s.participant_points[k])),
                forall|j: int| #![trigger it.seq()[j]] 0 <= j < it.seq().len() ==> s.participant_points.contains_key(*it.seq()[j].0) && s.participant_points[*it.seq()[j].0] == *it.seq()[j].1,
                it.index() == it.seq().len() ==> forall|k: PointKey|
                    #[trigger] s.participant_points.contains_key(k) ==> !Self::unheld_points(s, season_id, k),
        {
            let (k, p) = kv;
            let key: PointKey = *k;
            proof {
                assert(s.participant_points.contains_key(key));
                assert(s.participant_points[key] == *p);
            }
            if key.0 == season_id {
                let n = self.selection_count(key.1, season_id);
                if key.2 as usize >= n || p.1 == 255 {
                    assert(Self::unheld_points(s, season_id, key));
                    return true;
                }
            }
            assert forall|k2: PointKey|
                it.index() + 1 == it.seq().len() && #[trigger] s.participant_points.contains_key(k2)
                implies !Self::unheld_points(s, season_id, k2) by {
                assert(it.seq().contains((&k2, &s.participant_points[k2])));
                let j = choose|j: int| 0 <= j < it.seq().len() && it.seq()[j] == (&k2, &s.participant_points[k2]);
                assert(*it.seq()[j].0 == k2);
            }
        }
        false
    }

    /// Whether `close_season` would panic on these arguments.
    pub fn close_season_would_panic(
        &self,
        origin: Origin,
        season_id: SeasonId,
        treasury_balance: Balance,
    ) -> (r: bool)
        ensures
            r == close_season_panics(self@, origin, season_id, treasury_balance),
    {
        if !origin.is_organizer {
            return false;
        }
        let total = match self.seasons.get(&season_id) {
            Some(x) => x.total_battles,
            None => {
                return false;
            },
        };
        if self.has_unheld_points(season_id) {
            return true;
        }
        let (champions, runners_up) = self.tallies(season_id, total);
        champions > u32::MAX as u128 || runners_up > u32::MAX as u128 || total == 0
            || treasury_balance > u128::MAX / 7
    }

    /// How many selections chose the winner of their battle.
    fn count_hits(winners: &BTreeMap<BattleId, NpcId>, sel: &Vec<VoteSelect>) -> (r: u8)
        requires
            forall|j: int| 0 <= j < sel@.len() ==> winners@.contains_key(#[trigger] sel@[j].battle_id),
            hits(winners@, sel@) <= 255,
        ensures
            r == hits(winners@, sel@),
    {
        let mut count: usize = 0;
        let mut i: usize = 0;
        while i < sel.len()
            invariant
                i <= sel.len(),
                forall|j: int| 0 <= j < sel@.len() ==> winners@.contains_key(#[trigger] sel@[j].battle_id),
                count == hits(winners@, sel@.take(i as int)),
                count <= i,
            decreases sel.len() - i,
        {
            let s = sel[i];
            let w = match winners.get(&s.battle_id) {
                Some(w) => *w,
                None => 0,
            };
            assert(sel@.take(i + 1).drop_last() =~= sel@.take(i as int));
            if s.npc_id == w {
                count = count + 1;
            }
            i = i + 1;
        }
        assert(sel@.take(sel.len() as int) =~= sel@);
        count as u8
    }

    /// What a selection with `right` right choices and `tickets` tickets
    /// earns in a season.
    fn bonus_of(season: &Season, right: u8, tickets: u32) -> (r: Balance)
        requires
            first_bonus(season@.bonus_strategy, right as int) is Some ==> {
                let b = first_bonus(season@.bonus_strategy, right as int)->0;
                &&& season.ticket_price * 100 <= u128::MAX
                &&& ticket_bonus(b.2 as int, b.1 as int, season.ticket_price as int) * tickets
                    <= u128::MAX
            },
        ensures
            r == match first_bonus(season@.bonus_strategy, right as int) {
                None => 0,
                Some(b) => ticket_bonus(b.2 as int, b.1 as int, season.ticket_price as int)
                    * tickets,
            },
    {
        let st = &season.bonus_strategy;
        let mut i: usize = 0;
        assert(st@.skip(0) =~= st@);
        while i < st.len()
            invariant
                i <= st.len(),
                st@ == season@.bonus_strategy,
                first_bonus(season@.bonus_strategy, right as int) is Some ==> {
                    let b = first_bonus(season@.bonus_strategy, right as int)->0;
                    &&& season.ticket_price * 100 <= u128::MAX
                    &&& ticket_bonus(b.2 as int, b.1 as int, season.ticket_price as int) * tickets
                        <= u128::MAX
                },
                first_bonus(st@, right as int) == first_bonus(st@.skip(i as int), right as int),
            decreases st.len() - i,
        {
            let b = st[i];
            assert(st@.skip(i as int)[0] == b);
            if right == b.0 && b.1 > 0 {
                let per = bonus_per_ticket(b.2, b.1, season.ticket_price);
                return per * (tickets as u128);
            }
            assert(st@.skip(i as int).drop_first() =~= st@.skip(i + 1));
            i = i + 1;
        }
        0
    }

    /// The first entry of a bonus strategy for `right` right choices with
    /// tickets that share it.
    fn first_bonus_of(st: &Vec<(u8, u32, Balance)>, right: u8) -> (r: Option<(u8, u32, Balance)>)
        ensures
            r == first_bonus(st@, right as int),
    {
        let mut i: usize = 0;
        assert(st@.skip(0) =~= st@);
        while i < st.len()
            invariant
                i <= st.len(),
                first_bonus(st@, right as int) == first_bonus(st@.skip(i as int), right as int),
            decreases st.len() - i,
        {
            let b = st[i];
            assert(st@.skip(i as int)[0] == b);
            if right == b.0 && b.1 > 0 {
                return Some(b);
            }
            assert(st@.skip(i as int).drop_first() =~= st@.skip(i + 1));
            i = i + 1;
        }
        None
    }

    /// What a selection earns in a season, where it can be worked out.
    fn checked_selection_bonus(
        season: &Season,
        winners: &BTreeMap<BattleId, NpcId>,
        info: &VoteSelectInfo,
    ) -> (r: Option<Balance>)
        ensures
            r is Some <==> selection_bonus_fits(season@, winners@, info@),
            r matches Some(x) ==> x == selection_bonus(season@, winners@, info@),
    {
        let sel = &info.selects;
        let mut count: usize = 0;
        let mut i: usize = 0;
        while i < sel.len()
            invariant
                i <= sel.len(),
                sel@ == info@.selects,
                forall|j: int| 0 <= j < i ==> winners@.contains_key(#[trigger] sel@[j].battle_id),
                count == hits(winners@, sel@.take(i as int)),
                count <= i,
            decreases sel.len() - i,
        {
            let x = sel[i];
            let w = match winners.get(&x.battle_id) {
                Some(w) => *w,
                None => {
                    return None;
                },
            };
            assert(sel@.take(i + 1).drop_last() =~= sel@.take(i as int));
            if x.npc_id == w {
                count = count + 1;
            }
            i = i + 1;
        }
        assert(sel@.take(sel.len() as int) =~= sel@);
        if count > 255 {
            return None;
        }
        let right = count as u8;
        match Self::first_bonus_of(&season.bonus_strategy, right) {
            None => Some(0),
            Some(b) => {
                proof {
                    lemma_first_bonus_shares(season@.bonus_strategy, right as int);
                }
                if season.ticket_price > u128::MAX / 100 {
                    return None;
                }
                let per = bonus_per_ticket(b.2, b.1, season.ticket_price);
                per.checked_mul(info.ticket_amount as u128)
            },
        }
    }

    /// Whether `claim` would panic on these arguments.
    pub fn claim_would_panic(&self, origin: Origin, season_id: SeasonId) -> (r: bool)
        ensures
            r == claim_panics(self@, origin, season_id),
    {
        let who = match origin.signer {
            Some(w) => w,
            None => {
                return false;
            },
        };
        let season = match self.seasons.get(&season_id) {
            Some(x) => x,
            None => {
                return false;
            },
        };
        if season.status != SeasonStatus::Finalized {
            return false;
        }
        let ghost pre = self@;
        let empty: Vec<VoteSelectInfo> = Vec::new();
        let (infos, claimed) = match self.vote_select_infos.get(&(who, season_id)) {
            Some(v) => (&v.0, v.1),
            None => (&empty, false),
        };
        let ghost iv = infos@.map_values(|i: VoteSelectInfo| i@);
        assert(iv == pre.infos_of(who, season_id).0);
        if !(infos.len() > 0 && claimed == false) {
            return false;
        }
        let no_winners: BTreeMap<BattleId, NpcId> = BTreeMap::new();
        let winners = match self.season_winners.get(&season_id) {
            Some(m) => m,
            None => &no_winners,
        };
        assert(winners@ == pre.winners_of(season_id));
        assert(season@ == pre.seasons[season_id]);
        assert(claim_panics(self@, origin, season_id) == ((exists|j: int|
            0 <= j < iv.len() && !selection_bonus_fits(season@, winners@, #[trigger] iv[j]))
            || claim_total(season@, winners@, iv) > u128::MAX));
        let mut total: Balance = 0;
        let mut i: usize = 0;
        while i < infos.len()
            invariant
                i <= infos.len(),
                iv == infos@.map_values(|i: VoteSelectInfo| i@),
                claim_panics(self@, origin, season_id) == ((exists|j: int|
                    0 <= j < iv.len() && !selection_bonus_fits(season@, winners@, #[trigger] iv[j]))
                    || claim_total(season@, winners@, iv) > u128::MAX),
                forall|j: int| 0 <= j < i ==> selection_bonus_fits(season@, winners@, #[trigger] iv[j]),
                total == claim_total(season@, winners@, iv.take(i as int)),
            decreases infos.len() - i,
        {
            let info = &infos[i];
            assert(iv[i as int] == info@);
            let amount = match Self::checked_selection_bonus(season, winners, info) {
                Some(a) => a,
                None => {
                    return true;
                },
            };
            assert(iv.take(i + 1).drop_last() =~= iv.take(i as int));
            match total.checked_add(amount) {
                Some(t) => {
                    total = t;
                },
                None => {
                    proof {
                        lemma_claim_total_prefix(season@, winners@, iv, i + 1);
                    }
                    return true;
                },
            }
            i = i + 1;
        }
        assert(iv.take(infos.len() as int) =~= iv);
        false
    }

    /// Claims the bonuses of an account's selections in a closed season:
    /// asks for their sum to move from the season's treasury to the account,
    /// and marks the account as having claimed.
    pub fn claim(&mut self, origin: Origin, season_id: SeasonId) -> (r: Result<
        Vec<TokenAction>,
        DispatchError,
    >)
        requires
            !claim_panics(old(self)@, origin, season_id),
        ensures
            actions_outcome(r, old(self)@, final(self)@, claim_step(old(self)@, origin, season_id)),
    {
        let who = match origin.signer {
            Some(w) => w,
            None => {
                return Err(DispatchError::BadOrigin);
            },
        };
        let season = match self.season_copy(season_id) {
            Some(x) => x,
            None => {
                return Err(DispatchError::Module(Error::SeasonNotFound));
            },
        };
        if season.status != SeasonStatus::Finalized {
            return Err(DispatchError::Module(Error::SeasonStatusError));
        }
        let ghost pre = self@;
        let empty: Vec<VoteSelectInfo> = Vec::new();
        let (infos, claimed) = match self.vote_select_infos.get(&(who, season_id)) {
            Some(v) => (&v.0, v.1),
            None => (&empty, false),
        };
        let ghost iv = infos@.map_values(|i: VoteSelectInfo| i@);
        assert(iv == pre.infos_of(who, season_id).0);
        if !(infos.len() > 0 && claimed == false) {
            return Err(DispatchError::Module(Error::HaveNoBonus));
        }
        let no_winners: BTreeMap<BattleId, NpcId> = BTreeMap::new();
        let winners = match self.season_winners.get(&season_id) {
            Some(m) => m,
            None => &no_winners,
        };
        assert(winners@ == pre.winners_of(season_id));
        let mut total_claimed: Balance = 0;
        let mut i: usize = 0;
        while i < infos.len()
            invariant
                i <= infos.len(),
                iv == infos@.map_values(|i: VoteSelectInfo| i@),
                season@ == pre.seasons[season_id],
                forall|j: int| 0 <= j < iv.len() ==> selection_bonus_fits(season@, winners@, #[trigger] iv[j]),
                claim_total(season@, winners@, iv) <= u128::MAX,
                total_claimed == claim_total(season@, winners@, iv.take(i as int)),
            decreases infos.len() - i,
        {
            let sel = &infos[i];
            assert(iv[i as int] == sel@);
            assert(selection_bonus_fits(season@, winners@, iv[i as int]));
            let right = Self::count_hits(winners, &sel.selects);
            let amount = Self::bonus_of(&season, right, sel.ticket_amount);
            proof {
                assert(iv.take(i + 1).drop_last() =~= iv.take(i as int));
                lemma_claim_total_prefix(season@, winners@, iv, i + 1);
            }
            total_claimed = total_claimed + amount;
            i = i + 1;
        }
        assert(iv.take(infos.len() as int) =~= iv);
        let e = match self.vote_select_infos.remove(&(who, season_id)) {
            Some(e) => e,
            None => (Vec::new(), false),
        };
        let ne = (e.0, true);
        proof {
            lemma_map_values_insert(
                self.vote_select_infos@,
                (who, season_id),
                ne,
                |v: (Vec<VoteSelectInfo>, bool)| (v.0@.map_values(|i: VoteSelectInfo| i@), v.1),
            );
            assert(self.vote_select_infos@.insert((who, season_id), ne)
                =~= old(self).vote_select_infos@.insert((who, season_id), ne));
        }
        self.vote_select_infos.insert((who, season_id), ne);
        let mut acts: Vec<TokenAction> = Vec::new();
        acts.push(
            TokenAction::Transfer {
                from: season.treasury,
                token: self.config.awt_token_id,
                amount: total_claimed,
                to: who,
                must_succeed: true,
            },
        );
        let ghost o = claim_step(pre, origin, season_id);
        assert(acts@ =~= o->Ok_0.1);
        assert(self@ =~= o->Ok_0.0);
        Ok(acts)
    }

    /// The votes of storage with the votes held aside in `pending` in place
    /// of their battles' lists.
    pub closed spec fn books_with(self, pending: BTreeMap<BattleId, Vec<Vote>>) -> Map<BattleId, Seq<Vote>> {
        self@.votes_for_calc.union_prefer_right(pending@.map_values(|v: Vec<Vote>| v@))
    }

    /// The checks of one vote.
    fn check_vote(&self, season: &Season, season_id: SeasonId, now: u64, v: VoteSelect, kind: u8) -> (r: Option<Error>)
        ensures
            r == vote_check(self@, season@, season_id, now, v, kind),
    {
        if kind == 2 {
            return None;
        }
        let b = match self.battles.get(&v.battle_id) {
            Some(b) => b,
            None => {
                return Some(Error::BattleNotFound);
            },
        };
        let in_battle = b.home == v.npc_id || b.visiting == v.npc_id;
        let running = b.status == BattleStatus::Running;
        if kind == 0 {
            if !in_battle {
                Some(Error::NpcNotInBattle)
            } else if !running {
                Some(Error::BattleStatusError)
            } else if b.battle_type != season.first_round_battle_type {
                Some(Error::BattleTypeError)
            } else if b.season != season_id {
                Some(Error::BattleNotInSeason)
            } else if !(now / 1000 < b.start_time) {
                Some(Error::BettingOverTime)
            } else {
                None
            }
        } else {
            if !running {
                Some(Error::BattleStatusError)
            } else if !in_battle {
                Some(Error::NpcNotInBattle)
            } else if b.season != season_id {
                Some(Error::BattleNotInSeason)
            } else if !(now / 1000 < b.start_time) {
                Some(Error::BettingOverTime)
            } else {
                None
            }
        }
    }

    /// The first error of the `append_vote` checks of `votes`.
    fn check_all_votes(&self, season: &Season, season_id: SeasonId, now: u64, votes: &Vec<VoteSelect>) -> (r: Option<Error>)
        ensures
            r == check_votes(self@, season@, season_id, now, votes@),
    {
        let mut i: usize = 0;
        while i < votes.len()
            invariant
                i <= votes.len(),
                check_votes(self@, season@, season_id, now, votes@.take(i as int)) is None,
            decreases votes.len() - i,
        {
            assert(votes@.take(i + 1).drop_last() =~= votes@.take(i as int));
            match self.check_vote(season, season_id, now, votes[i], 1) {
                Some(e) => {
                    proof {
                        lemma_check_votes_prefix(self@, season@, season_id, now, votes@, i + 1);
                    }
                    return Some(e);
                },
                None => {},
            }
            i = i + 1;
        }
        assert(votes@.take(votes.len() as int) =~= votes@);
        None
    }

    /// The list of a battle's votes with `v` in its place.
    fn insert_vote(es: Vec<Vote>, v: Vote) -> (r: Vec<Vote>)
        ensures
            r@ == book_insert(es@, v),
    {
        let mut es = es;
        let mut p: usize = 0;
        while p < es.len() && (es[p].who < v.who || (es[p].who == v.who && es[p].index < v.index))
            invariant
                p <= es.len(),
                forall|j: int| 0 <= j < p ==> vote_before(#[trigger] es@[j], v.who, v.index),
            decreases es.len() - p,
        {
            p = p + 1;
        }
        proof {
            lemma_book_insert_at(es@, v, p as int);
        }
        if p < es.len() && es[p].who == v.who && es[p].index == v.index {
            let ghost old_es = es@;
            es.set(p, v);
            assert(es@ =~= old_es.take(p as int) + seq![v] + old_es.skip(p + 1));
        } else {
            let ghost old_es = es@;
            es.insert(p, v);
            assert(es@ =~= old_es.take(p as int) + seq![v] + old_es.skip(p as int));
        }
        es
    }

    /// Whether a list of a battle's votes refuses a vote of a new selection.
    fn refuses_vote(es: &Vec<Vote>, bound: u32, who: AccountId, index: SelectIndex) -> (r: bool)
        ensures
            r == book_refuses(es@, bound, who, index),
    {
        if es.len() < bound as usize {
            return false;
        }
        let mut i: usize = 0;
        while i < es.len()
            invariant
                i <= es.len(),
                forall|j: int| 0 <= j < i ==> !(es@[j].who == who && es@[j].index == index),
            decreases es.len() - i,
        {
            if es[i].who == who && es[i].index == index {
                return false;
            }
            i = i + 1;
        }
        true
    }

    /// A copy of a list of votes.
    fn copy_votes(es: &Vec<Vote>) -> (r: Vec<Vote>)
        ensures
            r@ == es@,
    {
        let mut r: Vec<Vote> = Vec::new();
        let mut i: usize = 0;
        while i < es.len()
            invariant
                i <= es.len(),
                r@ == es@.subrange(0, i as int),
            decreases es.len() - i,
        {
            r.push(es[i]);
            i = i + 1;
        }
        r
    }

    /// Checks and places each vote of `votes` for the selection `(who,
    /// index)`, holding the changed lists aside in `pending`.
    fn place_all_votes(
        &self,
        season: &Season,
        season_id: SeasonId,
        now: u64,
        who: AccountId,
        index: SelectIndex,
        votes: &Vec<VoteSelect>,
        kind: u8,
        pending: &mut BTreeMap<BattleId, Vec<Vote>>,
    ) -> (r: Result<(), Error>)
        requires
            old(pending)@ == Map::<BattleId, Vec<Vote>>::empty(),
        ensures
            match place_votes(self@, season@, season_id, now, who, index, votes@, kind) {
                Err(e) => r == Err::<(), Error>(e),
                Ok(books) => r is Ok && self.books_with(*final(pending)) == books && forall|k: BattleId|
                    #[trigger] final(pending)@.contains_key(k) ==> exists|j: int|
                        0 <= j < votes@.len() && votes@[j].battle_id == k,
            },
    {
        let bound = self.config.max_participant_per_battle;
        assert(self.books_with(*pending) =~= self@.votes_for_calc);
        let mut i: usize = 0;
        while i < votes.len()
            invariant
                i <= votes.len(),
                bound == self@.config.max_participant_per_battle,
                place_votes(self@, season@, season_id, now, who, index, votes@.take(i as int), kind)
                    matches Ok(books) && self.books_with(*pending) == books,
                forall|k: BattleId|
                    #[trigger] pending@.contains_key(k) ==> exists|j: int|
                        0 <= j < i && votes@[j].battle_id == k,
            decreases votes.len() - i,
        {
            let v = votes[i];
            let ghost prev = self.books_with(*pending);
            assert(votes@.take(i + 1).drop_last() =~= votes@.take(i as int));
            assert(votes@.take(i + 1).last() == v);
            match self.check_vote(season, season_id, now, v, kind) {
                Some(e) => {
                    proof {
                        lemma_place_votes_prefix(self@, season@, season_id, now, who, index, votes@, kind, i + 1);
                    }
                    return Err(e);
                },
                None => {},
            }
            let es = match pending.remove(&v.battle_id) {
                Some(es) => es,
                None => match self.votes_for_calc.get(&v.battle_id) {
                    Some(es) => Self::copy_votes(es),
                    None => Vec::new(),
                },
            };
            assert(es@ == book_of(prev, v.battle_id));
            if Self::refuses_vote(&es, bound, who, index) {
                proof {
                    lemma_place_votes_prefix(self@, season@, season_id, now, who, index, votes@, kind, i + 1);
                }
                return Err(Error::ParticipantOverflow);
            }
            let es2 = Self::insert_vote(es, Vote { who, index, npc: v.npc_id });
            pending.insert(v.battle_id, es2);
            assert(self.books_with(*pending) =~= prev.insert(
                v.battle_id,
                book_insert(book_of(prev, v.battle_id), Vote { who, index, npc: v.npc_id }),
            ));
            i = i + 1;
        }
        assert(votes@.take(votes.len() as int) =~= votes@);
        Ok(())
    }

    /// Stores the lists of votes held aside in `pending`.
    fn commit_votes(&mut self, pending: BTreeMap<BattleId, Vec<Vote>>, votes: &Vec<VoteSelect>)
        requires
            forall|k: BattleId|
                #[trigger] pending@.contains_key(k) ==> exists|j: int|
                    0 <= j < votes@.len() && votes@[j].battle_id == k,
        ensures
            final(self)@ == (PalletView { votes_for_calc: old(self).books_with(pending), ..old(self)@ }),
    {
        let ghost target = self.books_with(pending);
        let mut pending = pending;
        let mut i: usize = 0;
        while i < votes.len()
            invariant
                i <= votes.len(),
                self.books_with(pending) == target,
                self@ == (PalletView { votes_for_calc: self@.votes_for_calc, ..old(self)@ }),
                forall|k: BattleId|
                    #[trigger] pending@.contains_key(k) ==> exists|j: int|
                        i <= j < votes@.len() && votes@[j].battle_id == k,
            decreases votes.len() - i,
        {
            let bid = votes[i].battle_id;
            let ghost pv = pending@;
            match pending.remove(&bid) {
                Some(es) => {
                    proof {
                        lemma_map_values_insert(self.votes_for_calc@, bid, es, |v: Vec<Vote>| v@);
                    }
                    self.votes_for_calc.insert(bid, es);
                },
                None => {},
            }
            assert(self.books_with(pending) =~= target);
            assert forall|k: BattleId| #[trigger] pending@.contains_key(k) implies exists|j: int|
                i + 1 <= j < votes@.len() && votes@[j].battle_id == k by {
                assert(pv.contains_key(k));
                let j = choose|j: int| i <= j < votes@.len() && votes@[j].battle_id == k;
                assert(j != i);
            }
            i = i + 1;
        }
        assert(self.books_with(pending) =~= self@.votes_for_calc);
    }

    /// The selections of an account in a season and whether it claimed.
    fn infos_take(&mut self, who: AccountId, season_id: SeasonId) -> (r: (Vec<VoteSelectInfo>, bool))
        ensures
            (r.0@.map_values(|i: VoteSelectInfo| i@), r.1) == old(self)@.infos_of(who, season_id),
            final(self)@ == (PalletView {
                vote_select_infos: old(self)@.vote_select_infos.remove((who, season_id)),
                ..old(self)@
            }),
    {
        let r = match self.vote_select_infos.remove(&(who, season_id)) {
            Some(e) => e,
            None => (Vec::new(), false),
        };
        assert(self@.vote_select_infos =~= old(self)@.vote_select_infos.remove((who, season_id)));
        r
    }

    /// Stores the selections of an account in a season.
    fn infos_put(&mut self, who: AccountId, season_id: SeasonId, e: (Vec<VoteSelectInfo>, bool))
        ensures
            final(self)@ == (PalletView {
                vote_select_infos: old(self)@.vote_select_infos.insert(
                    (who, season_id),
                    (e.0@.map_values(|i: VoteSelectInfo| i@), e.1),
                ),
                ..old(self)@
            }),
    {
        proof {
            lemma_map_values_insert(
                self.vote_select_infos@,
                (who, season_id),
                e,
                |v: (Vec<VoteSelectInfo>, bool)| (v.0@.map_values(|i: VoteSelectInfo| i@), v.1),
            );
        }
        self.vote_select_infos.insert((who, season_id), e);
    }

    /// The number of selections of an account in a season.
    fn infos_len(&self, who: AccountId, season_id: SeasonId) -> (r: usize)
        ensures
            r == self@.infos_of(who, season_id).0.len(),
    {
        match self.vote_select_infos.get(&(who, season_id)) {
            Some(e) => e.0.len(),
            None => 0,
        }
    }

    /// Votes on battles of the first round of a season with some of the
    /// account's tickets: a new selection of the account.
    pub fn initial_vote(
        &mut self,
        origin: Origin,
        season_id: SeasonId,
        tickets_amount: u32,
        votes: Vec<VoteSelect>,
        now: u64,
    ) -> (r: Result<(), DispatchError>)
        ensures
            unit_outcome(
                r,
                old(self)@,
                final(self)@,
                initial_vote_step(old(self)@, origin, season_id, tickets_amount, votes@, now),
            ),
    {
        let who = match origin.signer {
            Some(w) => w,
            None => {
                return Err(DispatchError::BadOrigin);
            },
        };
        if !(votes.len() > 0) {
            return Err(DispatchError::Module(Error::VoteSelectZero));
        }
        let season = match self.season_copy(season_id) {
            Some(x) => x,
            None => {
                return Err(DispatchError::Module(Error::SeasonNotFound));
            },
        };
        let t = self.tickets_get(season_id, who);
        if !(t.1 >= tickets_amount && tickets_amount > 0) {
            return Err(DispatchError::Module(Error::TicketAmountError));
        }
        let ghost pre = self@;
        let new_select_index = self.infos_len(who, season_id);
        let index = new_select_index as SelectIndex;
        let mut pending: BTreeMap<BattleId, Vec<Vote>> = BTreeMap::new();
        match self.place_all_votes(&season, season_id, now, who, index, &votes, 0, &mut pending) {
            Err(e) => {
                return Err(DispatchError::Module(e));
            },
            Ok(()) => {},
        }
        let mut battle_id_vec: Vec<BattleId> = Vec::new();
        let mut i: usize = 0;
        while i < votes.len()
            invariant
                i <= votes.len(),
                battle_id_vec@ == battle_ids(votes@).take(i as int),
            decreases votes.len() - i,
        {
            battle_id_vec.push(votes[i].battle_id);
            i = i + 1;
            assert(battle_id_vec@ =~= battle_ids(votes@).take(i as int));
        }
        assert(battle_id_vec@ =~= battle_ids(votes@));
        if Self::duplicate(battle_id_vec) {
            return Err(DispatchError::Module(Error::DuplicateBetting));
        }
        self.commit_votes(pending, &votes);
        let mut e = self.infos_take(who, season_id);
        let ghost old_infos = e.0@;
        e.0.push(VoteSelectInfo { ticket_amount: tickets_amount, selects: votes });
        proof {
            lemma_seq_map_push(old_infos, VoteSelectInfo { ticket_amount: tickets_amount, selects: votes }, |i: VoteSelectInfo| i@);
        }
        self.infos_put(who, season_id, e);
        self.tickets.insert((season_id, who), (t.0, t.1 - tickets_amount));
        assert(self@ =~= initial_vote_step(pre, origin, season_id, tickets_amount, votes@, now)->Ok_0.0);
        Ok(())
    }

    /// A copy of a selection of an account in a season.
    fn info_copy(&self, who: AccountId, season_id: SeasonId, index: usize) -> (r: VoteSelectInfo)
        requires
            index < self@.infos_of(who, season_id).0.len(),
        ensures
            r@ == self@.infos_of(who, season_id).0[index as int],
    {
        match self.vote_select_infos.get(&(who, season_id)) {
            Some(e) => e.0[index].duplicate(),
            None => VoteSelectInfo { ticket_amount: 0, selects: Vec::new() },
        }
    }

    /// Adds votes on later battles to one of the account's selections. With
    /// all of the selection's tickets the votes join it; with fewer, those
    /// tickets leave it for a new selection of its votes and the new ones,
    /// which starts with its points.
    pub fn append_vote(
        &mut self,
        origin: Origin,
        season_id: SeasonId,
        select_index: SelectIndex,
        select_battle_type: u8,
        select_ticket_amount: u32,
        votes: Vec<VoteSelect>,
        now: u64,
    ) -> (r: Result<(), DispatchError>)
        ensures
            unit_outcome(
                r,
                old(self)@,
                final(self)@,
                append_vote_step(
                    old(self)@,
                    origin,
                    season_id,
                    select_index,
                    select_battle_type,
                    select_ticket_amount,
                    votes@,
                    now,
                ),
            ),
    {
        let who = match origin.signer {
            Some(w) => w,
            None => {
                return Err(DispatchError::BadOrigin);
            },
        };
        if !(votes.len() > 0) {
            return Err(DispatchError::Module(Error::VoteSelectZero));
        }
        let season = match self.season_copy(season_id) {
            Some(x) => x,
            None => {
                return Err(DispatchError::Module(Error::SeasonNotFound));
            },
        };
        let known_type = match BattleType::try_from(select_battle_type) {
            Ok(_) => true,
            Err(_) => false,
        };
        if !(select_battle_type < Into::<u8>::into(season.first_round_battle_type) && known_type) {
            return Err(DispatchError::Module(Error::BattleTypeError));
        }
        let ghost pre = self@;
        let ghost votes0 = votes@;
        let len = self.infos_len(who, season_id);
        if !(len > select_index as usize) {
            return Err(DispatchError::Module(Error::SelectIndexOverflow));
        }
        let idx = select_index as usize;
        let osi = self.info_copy(who, season_id, idx);
        if !(select_ticket_amount <= osi.ticket_amount && select_ticket_amount > 0) {
            return Err(DispatchError::Module(Error::TicketAmountError));
        }
        if Self::append_vote_check_duplicate(&osi.selects, &votes) {
            return Err(DispatchError::Module(Error::DuplicateBetting));
        }
        if select_ticket_amount == osi.ticket_amount {
            let mut pending: BTreeMap<BattleId, Vec<Vote>> = BTreeMap::new();
            match self.place_all_votes(&season, season_id, now, who, select_index, &votes, 1, &mut pending) {
                Err(e) => {
                    return Err(DispatchError::Module(e));
                },
                Ok(()) => {},
            }
            self.commit_votes(pending, &votes);
            let mut e = self.infos_take(who, season_id);
            let mut sel = osi;
            let mut votes = votes;
            sel.selects.append(&mut votes);
            let ghost old_infos = e.0@;
            e.0.set(idx, sel);
            proof {
                assert(e.0@.map_values(|i: VoteSelectInfo| i@) =~= old_infos.map_values(|i: VoteSelectInfo| i@).update(idx as int, sel@));
            }
            self.infos_put(who, season_id, e);
            assert(self@ =~= append_vote_step(pre, origin, season_id, select_index, select_battle_type, select_ticket_amount, votes0, now)->Ok_0.0);
            Ok(())
        } else {
            match self.check_all_votes(&season, season_id, now, &votes) {
                Some(e) => {
                    return Err(DispatchError::Module(e));
                },
                None => {},
            }
            let new_index = len as SelectIndex;
            let mut base = copy_selects(&osi.selects);
            let mut votes = votes;
            base.append(&mut votes);
            let mut pending: BTreeMap<BattleId, Vec<Vote>> = BTreeMap::new();
            match self.place_all_votes(&season, season_id, now, who, new_index, &base, 2, &mut pending) {
                Err(e) => {
                    return Err(DispatchError::Module(e));
                },
                Ok(()) => {},
            }
            self.commit_votes(pending, &base);
            let mut e = self.infos_take(who, season_id);
            let mut kept = osi;
            kept.ticket_amount = kept.ticket_amount - select_ticket_amount;
            let ghost old_infos = e.0@;
            e.0.set(idx, kept);
            let ghost mid_infos = e.0@;
            let added = VoteSelectInfo { ticket_amount: select_ticket_amount, selects: base };
            e.0.push(added);
            proof {
                assert(mid_infos.map_values(|i: VoteSelectInfo| i@) =~= old_infos.map_values(|i: VoteSelectInfo| i@).update(idx as int, kept@));
                lemma_seq_map_push(mid_infos, added, |i: VoteSelectInfo| i@);
            }
            self.infos_put(who, season_id, e);
            let points = self.participant_point_get((season_id, who, select_index));
            self.participant_points.insert((season_id, who, new_index), points);
            assert(self@ =~= append_vote_step(pre, origin, season_id, select_index, select_battle_type, select_ticket_amount, votes0, now)->Ok_0.0);
            Ok(())
        }
    }

    /// The runtime's constants of the pallet.
    pub fn config(&self) -> (r: Config)
        ensures
            r == self@.config,
    {
        self.config
    }

    /// The id the next season gets.
    pub fn next_season_id(&self) -> (r: SeasonId)
        ensures
            r == self@.next_season_id,
    {
        self.next_season_id
    }

    /// The id the next NPC gets.
    pub fn next_npc_id(&self) -> (r: NpcId)
        ensures
            r == self@.next_npc_id,
    {
        self.next_npc_id
    }

    /// The id the next battle gets.
    pub fn next_battle_id(&self) -> (r: BattleId)
        ensures
            r == self@.next_battle_id,
    {
        self.next_battle_id
    }

    /// The season whose tickets are sold.
    pub fn default_season(&self) -> (r: SeasonId)
        ensures
            r == self@.default_season,
    {
        self.default_season
    }

    /// A copy of an NPC.
    pub fn get_npc_info(&self, id: NpcId) -> (r: Option<NPC>)
        ensures
            match r {
                Some(x) => self@.npcs.contains_key(id) && x@ == self@.npcs[id],
                None => !self@.npcs.contains_key(id),
            },
    {
        match self.npcs.get(&id) {
            Some(n) => Some(
                NPC {
                    name: copy_bytes(&n.name),
                    img_url: copy_bytes(&n.img_url),
                    story: copy_bytes(&n.story),
                    features: copy_bytes(&n.features),
                },
            ),
            None => None,
        }
    }

    /// A copy of a battle.
    pub fn get_battle_info(&self, id: BattleId) -> (r: Option<Battle>)
        ensures
            match r {
                Some(x) => self@.battles.contains_key(id) && x@ == self@.battles[id],
                None => !self@.battles.contains_key(id),
            },
    {
        self.battle_copy(id)
    }

    /// A copy of a season.
    pub fn get_season_info(&self, id: SeasonId) -> (r: Option<Season>)
        ensures
            match r {
                Some(x) => self@.seasons.contains_key(id) && x@ == self@.seasons[id],
                None => !self@.seasons.contains_key(id),
            },
    {
        self.season_copy(id)
    }

    /// The winners of the battles of a season whose result is set.
    pub fn get_season_winners(&self, season: SeasonId) -> (r: BTreeMap<BattleId, NpcId>)
        ensures
            r@ == self@.winners_of(season),
    {
        match self.season_winners.get(&season) {
            Some(m) => m.clone(),
            None => BTreeMap::new(),
        }
    }

    /// The points of a selection in a season.
    pub fn get_participant_point(&self, season: SeasonId, selection: (AccountId, SelectIndex)) -> (r:
        (u8, u8, u32))
        ensures
            r == self@.participant_point_of((season, selection.0, selection.1)),
    {
        self.participant_point_get((season, selection.0, selection.1))
    }

    /// The points of an NPC in a season.
    pub fn get_npc_point(&self, season: SeasonId, npc: NpcId) -> (r: (u8, u8, u32, i32))
        ensures
            r == self@.npc_point_of((season, npc)),
    {
        self.npc_point_get(season, npc)
    }

    /// The tickets of an account in a season: bought, and left.
    pub fn get_ticket(&self, season: SeasonId, who: AccountId) -> (r: (u32, u32))
        ensures
            r == self@.tickets_of(season, who),
    {
        self.tickets_get(season, who)
    }

    /// An inviter's code, invited accounts and earnings.
    pub fn get_invite_code(&self, who: AccountId) -> (r: (Vec<u8>, u32, Balance))
        ensures
            (r.0@, r.1, r.2) == self@.invite_of(who),
    {
        match self.invite_code.get(&who) {
            Some(v) => (copy_bytes(&v.0), v.1, v.2),
            None => (Vec::new(), 0, 0),
        }
    }

    /// Whether an account bought tickets with another account's invite code.
    pub fn get_invite_records(&self, who: AccountId) -> (r: bool)
        ensures
            r == (self@.invite_records.contains_key(who) && self@.invite_records[who]),
    {
        match self.invite_records.get(&who) {
            Some(v) => *v,
            None => false,
        }
    }

    /// A copy of the selections of an account in a season, and whether it
    /// has claimed.
    pub fn get_vote_infos(&self, who: AccountId, season: SeasonId) -> (r: (Vec<VoteSelectInfo>, bool))
        ensures
            (r.0@.map_values(|i: VoteSelectInfo| i@), r.1) == self@.infos_of(who, season),
    {
        match self.vote_select_infos.get(&(who, season)) {
            Some(e) => {
                let mut v: Vec<VoteSelectInfo> = Vec::new();
                let mut i: usize = 0;
                while i < e.0.len()
                    invariant
                        i <= e.0.len(),
                        v@.map_values(|x: VoteSelectInfo| x@) == e.0@.map_values(
                            |x: VoteSelectInfo| x@,
                        ).take(i as int),
                    decreases e.0.len() - i,
                {
                    let c = e.0[i].duplicate();
                    proof {
                        lemma_seq_map_push(v@, c, |x: VoteSelectInfo| x@);
                    }
                    v.push(c);
                    i = i + 1;
                    assert(v@.map_values(|x: VoteSelectInfo| x@) =~= e.0@.map_values(
                        |x: VoteSelectInfo| x@,
                    ).take(i as int));
                }
                assert(e.0@.map_values(|x: VoteSelectInfo| x@).take(e.0.len() as int) =~= e.0@.map_values(
                    |x: VoteSelectInfo| x@,
                ));
                (v, e.1)
            },
            None => (Vec::new(), false),
        }
    }

    /// The votes on a battle: the NPC that each selection (voter, index) chose.
    pub fn get_votes_for_cal(&self, battle: BattleId) -> (r: BTreeMap<(AccountId, SelectIndex), NpcId>)
        ensures
            r@ == book_map(self@.votes_of(battle)),
    {
        let empty: Vec<Vote> = Vec::new();
        let es = match self.votes_for_calc.get(&battle) {
            Some(es) => es,
            None => &empty,
        };
        let mut r: BTreeMap<(AccountId, SelectIndex), NpcId> = BTreeMap::new();
        let mut i: usize = 0;
        while i < es.len()
            invariant
                i <= es.len(),
                r@ == book_map(es@.take(i as int)),
            decreases es.len() - i,
        {
            let v = es[i];
            assert(es@.take(i + 1).drop_last() =~= es@.take(i as int));
            r.insert((v.who, v.index), v.npc);
            i = i + 1;
        }
        assert(es@.take(es.len() as int) =~= es@);
        r
    }

    /// The number of events deposited so far.
    pub fn events_len(&self) -> (r: usize)
        ensures
            r == self@.events.len(),
    {
        self.events.len()
    }

    /// A copy of the event at `i`.
    pub fn event_at(&self, i: usize) -> (r: Option<Event>)
        ensures
            match r {
                Some(e) => i < self@.events.len() && e@ == self@.events[i as int],
                None => i >= self@.events.len(),
            },
    {
        if i < self.events.len() {
            Some(copy_event(&self.events[i]))
        } else {
            None
        }
    }

    /// Whether `settle` would panic on these arguments: a missing score or a
    /// counter that would overflow.
    pub fn settle_would_panic(&self, origin: Origin, battle_id: BattleId) -> (r: bool)
        ensures
            r == settle_panics(self@, origin, battle_id),
    {
        if !origin.is_organizer {
            return false;
        }
        let battle = match self.battle_copy(battle_id) {
            Some(b) => b,
            None => {
                return false;
            },
        };
        if battle.status != BattleStatus::Completed {
            return false;
        }
        let (h, v) = match (battle.home_score, battle.visiting_score) {
            (Some(h), Some(v)) => (h, v),
            _ => {
                return true;
            },
        };
        let (diff, winner, loser) = if h > v {
            (h - v, battle.home, battle.visiting)
        } else {
            (v - h, battle.visiting, battle.home)
        };
        let season = battle.season;
        if battle.battle_type == BattleType::Finals && !self.seasons.contains_key(&season) {
            return true;
        }
        let w = self.npc_point_get(season, winner);
        if !(w.0 < 255 && w.1 < 255 && w.2 <= u32::MAX - 3 && (w.3 as i64) + (diff as i64)
            <= i32::MAX as i64) {
            return true;
        }
        let l = if loser == winner {
            (w.0 + 1, w.1 + 1, w.2 + 3, w.3 + (diff as i32))
        } else {
            self.npc_point_get(season, loser)
        };
        if !(l.0 < 255 && (l.3 as i64) - (diff as i64) >= i32::MIN as i64) {
            return true;
        }
        let ghost s = self@;
        let ghost s1 = npc_point_update(s, season, winner, loser, diff, battle.battle_type);
        let ghost abs = battle_abstract_of(battle@);
        let empty: Vec<Vote> = Vec::new();
        let book = match self.votes_for_calc.get(&battle_id) {
            Some(es) => es,
            None => &empty,
        };
        assert(book@ == s1.votes_of(battle_id));
        assert(settle_panics(self@, origin, battle_id) == !award_points_fit(
            s1,
            season,
            battle_id,
            abs,
            winner,
            book@,
        ));
        assert(self.participant_points@ == s1.participant_points);
        let fits = Self::awards_fit(
            &self.participant_points,
            book,
            season,
            battle_id,
            winner,
            Ghost(s1),
            Ghost(abs),
        );
        !fits
    }

    /// Whether awarding the votes of `book` in order keeps every selection's
    /// counters in range, starting from `points`.
    fn awards_fit(
        points: &BTreeMap<PointKey, (u8, u8, u32)>,
        book: &Vec<Vote>,
        season: SeasonId,
        battle_id: BattleId,
        winner: NpcId,
        Ghost(s1): Ghost<PalletView>,
        Ghost(abs): Ghost<BattleAbstract>,
    ) -> (r: bool)
        requires
            points@ == s1.participant_points,
        ensures
            r == award_points_fit(s1, season, battle_id, abs, winner, book@),
    {
        proof {
            lemma_points_after_fit(s1, season, battle_id, abs, winner, book@);
        }
        let mut points = points.clone();
        let mut i: usize = 0;
        while i < book.len()
            invariant
                i <= book.len(),
                points@ == points_after(s1, season, battle_id, abs, winner, book@, i as int),
                forall|j: int| #![trigger book@[j]] 0 <= j < i ==> award_fits(
                    point_in(
                        points_after(s1, season, battle_id, abs, winner, book@, j),
                        (season, book@[j].who, book@[j].index),
                    ),
                    winner == book@[j].npc,
                ),
            decreases book.len() - i,
        {
            let vt = book[i];
            let key = (season, vt.who, vt.index);
            let p = match points.get(&key) {
                Some(p) => *p,
                None => (0, 0, 0),
            };
            let won = winner == vt.npc;
            if !(p.0 < 255 && (!won || (p.1 < 255 && p.2 <= u32::MAX - 3))) {
                proof {
                    lemma_points_after_fit(s1, season, battle_id, abs, winner, book@);
                    assert(book@[i as int] == vt);
                }
                return false;
            }
            let np = if won {
                (p.0 + 1, p.1 + 1, p.2 + 3)
            } else {
                (p.0 + 1, p.1, p.2)
            };
            proof {
                lemma_points_after_step(s1, season, battle_id, abs, winner, book@, i as int);
            }
            points.insert(key, np);
            i = i + 1;
        }
        proof {
            lemma_points_after_fit(s1, season, battle_id, abs, winner, book@);
        }
        true
    }

    /// The donation of native tokens to `to`.
    fn donation(&self, to: AccountId) -> (r: TokenAction)
        ensures
            r == donation_to(self@, to),
    {
        TokenAction::Transfer {
            from: self.config.donor_account,
            token: self.config.native_token_id,
            amount: self.config.donation_for_agent,
            to,
            must_succeed: false,
        }
    }

    /// Sets the result of a battle: its scores and video, status
    /// `Completed`, and its winner among its season's winners.
    pub fn set_result(
        &mut self,
        origin: Origin,
        battle_id: BattleId,
        home_score: u8,
        visiting_score: u8,
        video_url: Vec<u8>,
    ) -> (r: Result<(), DispatchError>)
        ensures
            unit_outcome(
                r,
                old(self)@,
                final(self)@,
                set_result_step(
                    old(self)@,
                    origin,
                    battle_id,
                    home_score,
                    visiting_score,
                    video_url@,
                ),
            ),
    {
        if !origin.is_organizer {
            return Err(DispatchError::BadOrigin);
        }
        let mut battle = match self.battle_copy(battle_id) {
            Some(b) => b,
            None => {
                return Err(DispatchError::Module(Error::BattleNotFound));
            },
        };
        let winner = if home_score > visiting_score {
            battle.home
        } else {
            battle.visiting
        };
        let season = battle.season;
        let (len, present) = match self.season_winners.get(&season) {
            Some(m) => (m.len(), m.contains_key(&battle_id)),
            None => (0, false),
        };
        if len >= self.config.max_participant_per_battle as usize && !present {
            return Err(DispatchError::Module(Error::ParticipantOverflow));
        }
        let ghost pre = self@;
        let mut w = match self.season_winners.remove(&season) {
            Some(m) => m,
            None => BTreeMap::new(),
        };
        assert(w@ == pre.winners_of(season));
        w.insert(battle_id, winner);
        proof {
            lemma_map_values_insert(
                self.season_winners@,
                season,
                w,
                |m: BTreeMap<BattleId, NpcId>| m@,
            );
        }
        self.season_winners.insert(season, w);
        battle.home_score = Some(home_score);
        battle.visiting_score = Some(visiting_score);
        battle.video_url = video_url;
        battle.status = BattleStatus::Completed;
        let ev = Event::Battle(battle_id, battle.duplicate());
        self.put_battle(battle_id, battle);
        self.deposit_event(ev);
        assert(self@ =~= set_result_step(old(self)@, origin, battle_id, home_score, visiting_score, video_url@)->Ok_0.0);
        Ok(())
    }
}

} // verus!
