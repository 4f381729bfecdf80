//! The pallet's data types, their mathematical views, and the errors and
//! events of its extrinsics.
use vstd::prelude::*;

verus! {

/// An account of the runtime, a 64-bit number.
pub type AccountId = u64;

/// An amount of a token.
pub type Balance = u128;

/// The id of a token of the runtime's fungibles.
pub type TokenId = u32;

pub type ObjectId = u32;

pub type SeasonId = ObjectId;

pub type NpcId = ObjectId;

pub type BattleId = ObjectId;

pub type SelectIndex = u16;

pub type BattleAmount = u8;

pub type Score = u8;

/// The first id handed out for seasons, NPCs and battles.
pub fn DefaultNextId() -> (r: ObjectId)
    ensures
        r == 1,
{
    1
}

#[derive(Clone, Copy, Debug, PartialEq, Eq, Structural)]
pub enum SeasonStatus {
    Initial,
    Active,
    Finalized,
}

#[derive(Clone, Copy, Debug, PartialEq, Eq, Structural)]
pub enum BattleStatus {
    Running,
    Completed,
    Finalized,
}

#[derive(Clone, Copy, Debug, PartialEq, Eq, Structural)]
pub enum BattleType {
    SixteenthFinals,
    EighthFinals,
    QuarterFinals,
    SemiFinals,
    Finals,
    Regular,
}

/// The number that stands for a battle type: the number of battles of its
/// round, 255 for a regular battle.
pub open spec fn battle_type_code(t: BattleType) -> u8 {
    match t {
        BattleType::SixteenthFinals => 16u8,
        BattleType::EighthFinals => 8u8,
        BattleType::QuarterFinals => 4u8,
        BattleType::SemiFinals => 2u8,
        BattleType::Finals => 1u8,
        BattleType::Regular => 255u8,
    }
}

/// The battle type that a number stands for, if any.
pub open spec fn battle_type_of_code(v: u8) -> Option<BattleType> {
    if v == 255 {
        Some(BattleType::Regular)
    } else if v == 16 {
        Some(BattleType::SixteenthFinals)
    } else if v == 8 {
        Some(BattleType::EighthFinals)
    } else if v == 4 {
        Some(BattleType::QuarterFinals)
    } else if v == 2 {
        Some(BattleType::SemiFinals)
    } else if v == 1 {
        Some(BattleType::Finals)
    } else {
        None
    }
}

/// The number of a battle type.
impl Into<u8> for BattleType {
    fn into(self) -> (r: u8) {
        match self {
            BattleType::SixteenthFinals => 16u8,
            BattleType::EighthFinals => 8u8,
            BattleType::QuarterFinals => 4u8,
            BattleType::SemiFinals => 2u8,
            BattleType::Finals => 1u8,
            BattleType::Regular => 255u8,
        }
    }
}

impl vstd::std_specs::convert::IntoSpecImpl<u8> for BattleType {
    open spec fn obeys_into_spec() -> bool {
        true
    }

    open spec fn into_spec(self) -> u8 {
        battle_type_code(self)
    }
}

/// The battle type of a number; `Err(())` for a number that stands for none.
impl TryFrom<u8> for BattleType {
    type Error = ();

    fn try_from(value: u8) -> (r: Result<BattleType, ()>) {
        match value {
            255 => Ok(BattleType::Regular),
            16 => Ok(BattleType::SixteenthFinals),
            8 => Ok(BattleType::EighthFinals),
            4 => Ok(BattleType::QuarterFinals),
            2 => Ok(BattleType::SemiFinals),
            1 => Ok(BattleType::Finals),
            _ => Err(()),
        }
    }
}

impl vstd::std_specs::convert::TryFromSpecImpl<u8> for BattleType {
    open spec fn obeys_try_from_spec() -> bool {
        true
    }

    open spec fn try_from_spec(v: u8) -> Result<BattleType, ()> {
        match battle_type_of_code(v) {
            Some(t) => Ok(t),
            None => Err(()),
        }
    }
}

/// Reading back the number of a battle type gives the type again.
pub proof fn law_battle_type_code_roundtrip(t: BattleType)
    ensures
        battle_type_of_code(battle_type_code(t)) == Some(t),
{
}

/// A number that stands for a battle type is that type's number.
pub proof fn law_battle_type_code_inverse(v: u8)
    requires
        battle_type_of_code(v) is Some,
    ensures
        battle_type_code(battle_type_of_code(v)->0) == v,
{
}

#[derive(Clone, Debug, PartialEq, Eq)]
pub struct NPC {
    pub name: Vec<u8>,
    pub img_url: Vec<u8>,
    pub story: Vec<u8>,
    pub features: Vec<u8>,
}

pub struct NpcView {
    pub name: Seq<u8>,
    pub img_url: Seq<u8>,
    pub story: Seq<u8>,
    pub features: Seq<u8>,
}

impl View for NPC {
    type V = NpcView;

    open spec fn view(&self) -> NpcView {
        NpcView {
            name: self.name@,
            img_url: self.img_url@,
            story: self.story@,
            features: self.features@,
        }
    }
}

#[derive(Clone, Copy, Debug, PartialEq, Eq, Structural)]
pub struct VoteSelect {
    pub battle_id: BattleId,
    pub npc_id: NpcId,
}

/// A selection's vote in a battle: the voter, the index of the voter's
/// selection in the season, and the NPC chosen.
#[derive(Clone, Copy, Debug, PartialEq, Eq, Structural)]
pub struct Vote {
    pub who: AccountId,
    pub index: SelectIndex,
    pub npc: NpcId,
}

#[derive(Clone, Debug, PartialEq, Eq)]
pub struct VoteSelectInfo {
    pub ticket_amount: u32,
    pub selects: Vec<VoteSelect>,
}

pub struct VoteSelectInfoView {
    pub ticket_amount: u32,
    pub selects: Seq<VoteSelect>,
}

impl View for VoteSelectInfo {
    type V = VoteSelectInfoView;

    open spec fn view(&self) -> VoteSelectInfoView {
        VoteSelectInfoView { ticket_amount: self.ticket_amount, selects: self.selects@ }
    }
}

impl VoteSelectInfo {
    /// A copy of this selection.
    pub fn duplicate(&self) -> (r: VoteSelectInfo)
        ensures
            r@ == self@,
    {
        VoteSelectInfo { ticket_amount: self.ticket_amount, selects: copy_selects(&self.selects) }
    }
}

/// A copy of a list of selections.
pub fn copy_selects(v: &Vec<VoteSelect>) -> (r: Vec<VoteSelect>)
    ensures
        r@ == v@,
{
    let mut r: Vec<VoteSelect> = Vec::new();
    let mut i: usize = 0;
    while i < v.len()
        invariant
            i <= v.len(),
            r@ == v@.subrange(0, i as int),
        decreases v.len() - i,
    {
        r.push(v[i]);
        i = i + 1;
    }
    r
}

/// A copy of a byte string.
pub fn copy_bytes(v: &Vec<u8>) -> (r: Vec<u8>)
    ensures
        r@ == v@,
{
    let mut r: Vec<u8> = Vec::new();
    let mut i: usize = 0;
    while i < v.len()
        invariant
            i <= v.len(),
            r@ == v@.subrange(0, i as int),
        decreases v.len() - i,
    {
        r.push(v[i]);
        i = i + 1;
    }
    r
}

#[derive(Clone, Debug, PartialEq, Eq)]
pub struct Battle {
    pub season: SeasonId,
    pub season_name: Vec<u8>,
    pub home: NpcId,
    pub battle_type: BattleType,
    pub visiting: NpcId,
    pub status: BattleStatus,
    pub start_time: u64,
    pub position: u8,
    pub home_score: Option<u8>,
    pub visiting_score: Option<u8>,
    pub video_url: Vec<u8>,
}

pub struct BattleView {
    pub season: SeasonId,
    pub season_name: Seq<u8>,
    pub home: NpcId,
    pub battle_type: BattleType,
    pub visiting: NpcId,
    pub status: BattleStatus,
    pub start_time: u64,
    pub position: u8,
    pub home_score: Option<u8>,
    pub visiting_score: Option<u8>,
    pub video_url: Seq<u8>,
}

impl View for Battle {
    type V = BattleView;

    open spec fn view(&self) -> BattleView {
        BattleView {
            season: self.season,
            season_name: self.season_name@,
            home: self.home,
            battle_type: self.battle_type,
            visiting: self.visiting,
            status: self.status,
            start_time: self.start_time,
            position: self.position,
            home_score: self.home_score,
            visiting_score: self.visiting_score,
            video_url: self.video_url@,
        }
    }
}

#[derive(Clone, Copy, Debug, PartialEq, Eq, Structural)]
pub struct BattleAbstract {
    pub season: SeasonId,
    pub home: NpcId,
    pub visiting: NpcId,
    pub start_time: u64,
    pub home_score: u8,
    pub visiting_score: u8,
}

/// The summary of a battle whose scores are set.
pub open spec fn battle_abstract_of(b: BattleView) -> BattleAbstract {
    BattleAbstract {
        season: b.season,
        home: b.home,
        visiting: b.visiting,
        start_time: b.start_time,
        home_score: b.home_score->0,
        visiting_score: b.visiting_score->0,
    }
}

impl Battle {
    /// A copy of this battle.
    pub fn duplicate(&self) -> (r: Battle)
        ensures
            r@ == self@,
    {
        Battle {
            season: self.season,
            season_name: copy_bytes(&self.season_name),
            home: self.home,
            battle_type: self.battle_type,
            visiting: self.visiting,
            status: self.status,
            start_time: self.start_time,
            position: self.position,
            home_score: self.home_score,
            visiting_score: self.visiting_score,
            video_url: copy_bytes(&self.video_url),
        }
    }

    /// The summary of this battle, whose scores must both be set.
    pub fn to_abstract(&self) -> (r: BattleAbstract)
        requires
            self.home_score is Some,
            self.visiting_score is Some,
        ensures
            r == battle_abstract_of(self@),
    {
        BattleAbstract {
            season: self.season,
            home: self.home,
            visiting: self.visiting,
            start_time: self.start_time,
            home_score: self.home_score.unwrap(),
            visiting_score: self.visiting_score.unwrap(),
        }
    }
}

#[derive(Clone, Debug, PartialEq, Eq)]
pub struct Odds {
    pub battle: Vec<(BattleId, NpcId)>,
    pub o: u128,
}

#[derive(Clone, Debug, PartialEq, Eq)]
pub struct Betting {
    pub battles: Vec<BattleId>,
    pub odds: Vec<Odds>,
    pub season: SeasonId,
    pub start_time: u64,
}

#[derive(Clone, Debug, PartialEq, Eq)]
pub struct Season {
    pub id: SeasonId,
    pub name: Vec<u8>,
    pub status: SeasonStatus,
    pub treasury: AccountId,
    pub start_time: u64,
    pub total_battles: u8,
    pub bonus_strategy: Vec<(u8, u32, Balance)>,
    pub ticket_price: Balance,
    pub first_round_battle_type: BattleType,
    pub current_round_battle_type: BattleType,
    pub champion: Option<NpcId>,
    pub total_tickets: u32,
}

pub struct SeasonView {
    pub id: SeasonId,
    pub name: Seq<u8>,
    pub status: SeasonStatus,
    pub treasury: AccountId,
    pub start_time: u64,
    pub total_battles: u8,
    pub bonus_strategy: Seq<(u8, u32, Balance)>,
    pub ticket_price: Balance,
    pub first_round_battle_type: BattleType,
    pub current_round_battle_type: BattleType,
    pub champion: Option<NpcId>,
    pub total_tickets: u32,
}

impl View for Season {
    type V = SeasonView;

    open spec fn view(&self) -> SeasonView {
        SeasonView {
            id: self.id,
            name: self.name@,
            status: self.status,
            treasury: self.treasury,
            start_time: self.start_time,
            total_battles: self.total_battles,
            bonus_strategy: self.bonus_strategy@,
            ticket_price: self.ticket_price,
            first_round_battle_type: self.first_round_battle_type,
            current_round_battle_type: self.current_round_battle_type,
            champion: self.champion,
            total_tickets: self.total_tickets,
        }
    }
}

/// A copy of a bonus strategy.
pub fn copy_strategy(v: &Vec<(u8, u32, Balance)>) -> (r: Vec<(u8, u32, Balance)>)
    ensures
        r@ == v@,
{
    let mut r: Vec<(u8, u32, Balance)> = Vec::new();
    let mut i: usize = 0;
    while i < v.len()
        invariant
            i <= v.len(),
            r@ == v@.subrange(0, i as int),
        decreases v.len() - i,
    {
        r.push(v[i]);
        i = i + 1;
    }
    r
}

impl Season {
    /// A copy of this season.
    pub fn duplicate(&self) -> (r: Season)
        ensures
            r@ == self@,
    {
        Season {
            id: self.id,
            name: copy_bytes(&self.name),
            status: self.status,
            treasury: self.treasury,
            start_time: self.start_time,
            total_battles: self.total_battles,
            bonus_strategy: copy_strategy(&self.bonus_strategy),
            ticket_price: self.ticket_price,
            first_round_battle_type: self.first_round_battle_type,
            current_round_battle_type: self.current_round_battle_type,
            champion: self.champion,
            total_tickets: self.total_tickets,
        }
    }
}

/// The events that the extrinsics deposit.
#[derive(Clone, Debug, PartialEq, Eq)]
pub enum Event {
    BotCreated(AccountId, TokenId, TokenId),
    NowTime(u64),
    NpcPoints(SeasonId, NpcId, BattleAmount, BattleAmount, u32, i32),
    ParticipantPoints(SeasonId, AccountId, BattleAmount, BattleAmount, u32),
    ParticipantPointRecord(AccountId, BattleId, BattleAbstract, NpcId),
    Battle(BattleId, Battle),
    BattleResult(BattleId, Score, Score, Vec<u8>),
    SeasonUpdate(Season, bool),
}

pub enum EventView {
    BotCreated(AccountId, TokenId, TokenId),
    NowTime(u64),
    NpcPoints(SeasonId, NpcId, BattleAmount, BattleAmount, u32, i32),
    ParticipantPoints(SeasonId, AccountId, BattleAmount, BattleAmount, u32),
    ParticipantPointRecord(AccountId, BattleId, BattleAbstract, NpcId),
    Battle(BattleId, BattleView),
    BattleResult(BattleId, Score, Score, Seq<u8>),
    SeasonUpdate(SeasonView, bool),
}

impl View for Event {
    type V = EventView;

    open spec fn view(&self) -> EventView {
        match self {
            Event::BotCreated(a, b, c) => EventView::BotCreated(*a, *b, *c),
            Event::NowTime(t) => EventView::NowTime(*t),
            Event::NpcPoints(s, n, a, b, c, d) => EventView::NpcPoints(*s, *n, *a, *b, *c, *d),
            Event::ParticipantPoints(s, a, b, c, d) => EventView::ParticipantPoints(
                *s,
                *a,
                *b,
                *c,
                *d,
            ),
            Event::ParticipantPointRecord(a, b, c, d) => EventView::ParticipantPointRecord(
                *a,
                *b,
                *c,
                *d,
            ),
            Event::Battle(id, b) => EventView::Battle(*id, b@),
            Event::BattleResult(id, h, v, u) => EventView::BattleResult(*id, *h, *v, u@),
            Event::SeasonUpdate(s, d) => EventView::SeasonUpdate(s@, *d),
        }
    }
}

/// A copy of an event.
pub fn copy_event(e: &Event) -> (r: Event)
    ensures
        r@ == e@,
{
    match e {
        Event::BotCreated(a, b, c) => Event::BotCreated(*a, *b, *c),
        Event::NowTime(t) => Event::NowTime(*t),
        Event::NpcPoints(s, n, a, b, c, d) => Event::NpcPoints(*s, *n, *a, *b, *c, *d),
        Event::ParticipantPoints(s, a, b, c, d) => Event::ParticipantPoints(*s, *a, *b, *c, *d),
        Event::ParticipantPointRecord(a, b, c, d) => Event::ParticipantPointRecord(*a, *b, *c, *d),
        Event::Battle(id, b) => Event::Battle(*id, b.duplicate()),
        Event::BattleResult(id, h, v, u) => Event::BattleResult(*id, *h, *v, copy_bytes(u)),
        Event::SeasonUpdate(s, d) => Event::SeasonUpdate(s.duplicate(), *d),
    }
}

/// The errors of the pallet's extrinsics.
#[derive(Clone, Copy, Debug, PartialEq, Eq, Structural)]
pub enum Error {
    SeasonNotFound,
    NpcNotFound,
    BattleNotFound,
    NpcNotInBattle,
    BattleTimeError,
    BattleStatusError,
    DuplicateBetting,
    BattleNpcCantSame,
    BettingOverTime,
    TimeFormatError,
    InvalidResourceId,
    SeasonStatusError,
    DefaultSeasonNotFound,
    TicketAmountError,
    TicketPriceTooSmall,
    ParticipantOverflow,
    HaveNoBonus,
    InsufficientBalance,
    BuyTicketOverTime,
    BattleNotInSeason,
    VoteSelectZero,
    SelectIndexOverflow,
    BattleTypeError,
    AddrListInputError,
}

/// Why an extrinsic was refused: a caller that may not make it, or an error
/// of the pallet.
#[derive(Clone, Copy, Debug, PartialEq, Eq, Structural)]
pub enum DispatchError {
    BadOrigin,
    Module(Error),
}

/// Who makes a call, as the runtime's origin checks see it.
#[derive(Clone, Copy, Debug, PartialEq, Eq, Structural)]
pub struct Origin {
    /// The signing account, where the origin is a signed one.
    pub signer: Option<AccountId>,
    /// Whether the runtime's organizer origin check accepts the caller.
    pub is_organizer: bool,
    /// Whether the runtime's bridge origin check accepts the caller.
    pub is_bridge: bool,
}

/// The runtime's constants of the pallet.
#[derive(Clone, Copy, Debug, PartialEq, Eq, Structural)]
pub struct Config {
    pub awt_token_id: TokenId,
    pub native_token_id: TokenId,
    pub max_ticket_amount: u32,
    pub donor_account: AccountId,
    pub donation_for_agent: Balance,
    pub max_participant_per_battle: u32,
    pub bvb_treasury: AccountId,
}

/// A movement of tokens that an extrinsic asks the runtime to make. Where
/// `must_succeed` holds, the extrinsic fails, and all its changes are undone,
/// if the movement fails; otherwise its failure is ignored.
#[derive(Clone, Copy, Debug, PartialEq, Eq, Structural)]
pub enum TokenAction {
    Transfer { from: AccountId, token: TokenId, amount: Balance, to: AccountId, must_succeed: bool },
    Mint { token: TokenId, to: AccountId, amount: Balance },
}

} // verus!
