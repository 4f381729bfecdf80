//! What holds of the pallet across calls and across every state.
use vstd::prelude::*;
use crate::types::{
    AccountId, Balance, BattleId, BattleStatus, BattleType, Error, NpcId, Origin,
    SeasonId, SeasonStatus, TokenAction, Vote, VoteSelect, SelectIndex, VoteSelectInfoView,
};
use crate::model::{
    PalletView, buy_ticket_step, buy_ticket_overflows, buy_ticket_checks, close_season_step,
    close_season_panics, claim_step, settle_step, settle_panics, create_battle_step,
    update_battle_step, set_result_step, book_insert, book_sorted, vote_before,
    place_votes, book_of, initial_vote_step, append_vote_step, give_away_tickets_step,
    give_tickets, invited_by, genesis, points_after, point_in, award_points, award_points_fit, award_fits, book_contains, winner_of, npc_point_update, lemma_award_points_frame, battle_outcome, refused, give_away_tickets_overflows,
};
use crate::rewards::{bonus_share, invitor_share, champion_share, lemma_shares_fit};
use crate::codec::scale_byte_lists;

verus! {

/// The amount of a token movement.
pub open spec fn action_amount(a: TokenAction) -> int {
    match a {
        TokenAction::Transfer { amount, .. } => amount as int,
        TokenAction::Mint { amount, .. } => amount as int,
    }
}

/// The sum of the amounts of a list of token movements.
pub open spec fn actions_total(acts: Seq<TokenAction>) -> int
    decreases acts.len(),
{
    if acts.len() == 0 {
        0
    } else {
        actions_total(acts.drop_last()) + action_amount(acts.last())
    }
}

/// A movement out of the account `who`.
pub open spec fn paid_by(a: TokenAction, who: AccountId) -> bool {
    a matches TokenAction::Transfer { from, must_succeed, .. } && from == who && must_succeed
}

/// A purchase of tickets pays exactly their price, all of it by the buyer:
/// 85% to the season's treasury, 5% to an inviter where there is one, the
/// rest to the bvb treasury.
pub proof fn law_ticket_payments_add_up(
    s: PalletView,
    origin: Origin,
    amount: u32,
    invite_code: Seq<u8>,
    now: u64,
    balance: Balance,
)
    requires
        !buy_ticket_overflows(s, origin, amount, invite_code, now, balance),
        buy_ticket_step(s, origin, amount, invite_code, now, balance) is Ok,
    ensures
        ({
            let acts = buy_ticket_step(s, origin, amount, invite_code, now, balance)->Ok_0.1;
            let who = origin.signer->0;
            let price = s.seasons[s.default_season].ticket_price;
            &&& actions_total(acts) == price * amount
            &&& forall|i: int| 0 <= i < acts.len() ==> paid_by(#[trigger] acts[i], who)
            &&& action_amount(acts[0]) == bonus_share(price * amount)
            &&& action_amount(acts[0]) == price * amount * 85 / 100
            &&& acts[0] matches TokenAction::Transfer { to, .. } && to
                == s.seasons[s.default_season].treasury
            &&& invited_by(invite_code, who) ==> acts.len() == 3 && action_amount(acts[1])
                == price * amount * 5 / 100
            &&& !invited_by(invite_code, who) ==> acts.len() == 2
            &&& acts.last() matches TokenAction::Transfer { to, .. } && to == s.config.bvb_treasury
        }),
{
    let (who, season, m) = buy_ticket_checks(s, origin, amount, now, balance)->Ok_0;
    lemma_shares_fit(m);
    let acts = buy_ticket_step(s, origin, amount, invite_code, now, balance)->Ok_0.1;
    let a = bonus_share(m);
    let b = if invited_by(invite_code, who) {
        invitor_share(m)
    } else {
        0
    };
    assert(0 <= m - a - b);
    assert(m <= u128::MAX);
    assert(action_amount(acts[0]) == a);
    if invited_by(invite_code, who) {
        assert(acts.len() == 3);
        assert(acts.drop_last().drop_last().drop_last() =~= Seq::<TokenAction>::empty());
        let x = acts.drop_last().drop_last();
        assert(x.len() == 1 && x.last() == acts[0]);
        assert(actions_total(x.drop_last()) == 0);
        assert(actions_total(x) == a);
        assert(actions_total(acts.drop_last()) == a + b);
        assert(actions_total(acts) == a + b + (m - a - b));
    } else {
        assert(acts.len() == 2);
        assert(acts.drop_last().drop_last() =~= Seq::<TokenAction>::empty());
        let x = acts.drop_last();
        assert(x.len() == 1 && x.last() == acts[0]);
        assert(actions_total(x.drop_last()) == 0);
        assert(actions_total(x) == a);
        assert(actions_total(acts) == a + (m - a));
    }
}

/// Closing a season shares out the treasury's whole balance: seven eighths
/// for the champions, the rest for the runners-up, and the season ends
/// `Finalized`.
pub proof fn law_season_bonuses_share_treasury(
    s: PalletView,
    origin: Origin,
    season_id: SeasonId,
    treasury_balance: Balance,
)
    requires
        !close_season_panics(s, origin, season_id, treasury_balance),
        close_season_step(s, origin, season_id, treasury_balance) is Ok,
    ensures
        ({
            let s2 = close_season_step(s, origin, season_id, treasury_balance)->Ok_0.0;
            let st = s2.seasons[season_id].bonus_strategy;
            &&& st.len() == 2
            &&& st[0].2 + st[1].2 == treasury_balance
            &&& st[0].2 == champion_share(treasury_balance as int)
            &&& st[0].2 == treasury_balance * 7 / 8
            &&& s2.seasons[season_id].status == SeasonStatus::Finalized
        }),
{
    assert(treasury_balance * 7 / 8 <= treasury_balance) by (nonlinear_arith);
}

/// An account claims a season's bonuses once: after a claim that went
/// through, its next claim is refused with `HaveNoBonus`.
pub proof fn law_claim_once(s: PalletView, origin: Origin, season_id: SeasonId)
    requires
        claim_step(s, origin, season_id) is Ok,
    ensures
        claim_step(claim_step(s, origin, season_id)->Ok_0.0, origin, season_id) == refused(
            Error::HaveNoBonus,
        ),
{
}

/// A battle is settled once: after a settlement that went through, the
/// next one is refused with `BattleStatusError`.
pub proof fn law_settle_once(s: PalletView, origin: Origin, battle_id: BattleId)
    requires
        !settle_panics(s, origin, battle_id),
        settle_step(s, origin, battle_id) is Ok,
    ensures
        settle_step(settle_step(s, origin, battle_id)->Ok_0.0, origin, battle_id) == refused(
            Error::BattleStatusError,
        ),
{
    let b = s.battles[battle_id];
    let (diff, winner, loser) = battle_outcome(b);
    let s1 = npc_point_update(s, b.season, winner, loser, diff, b.battle_type);
    lemma_award_points_frame(
        s1,
        b.season,
        battle_id,
        crate::types::battle_abstract_of(b),
        winner,
        s1.votes_of(battle_id),
    );
}

/// Every battle that is no longer running has both its scores.
pub open spec fn battles_scored(s: PalletView) -> bool {
    forall|id: BattleId|
        #[trigger] s.battles.contains_key(id) && s.battles[id].status != BattleStatus::Running
            ==> s.battles[id].home_score is Some && s.battles[id].visiting_score is Some
}

/// Creating a battle keeps every battle that is no longer running scored.
pub proof fn law_create_battle_keeps_scores(
    s: PalletView,
    origin: Origin,
    season: SeasonId,
    battle_type: BattleType,
    home: NpcId,
    visiting: NpcId,
    start_time_str: Seq<u8>,
    position: u8,
)
    requires
        battles_scored(s),
        create_battle_step(s, origin, season, battle_type, home, visiting, start_time_str, position)
            is Ok,
    ensures
        battles_scored(
            create_battle_step(
                s,
                origin,
                season,
                battle_type,
                home,
                visiting,
                start_time_str,
                position,
            )->Ok_0.0,
        ),
{
}

/// Replacing a battle keeps every battle that is no longer running scored.
pub proof fn law_update_battle_keeps_scores(
    s: PalletView,
    origin: Origin,
    battle_id: BattleId,
    season: SeasonId,
    battle_type: BattleType,
    home: NpcId,
    visiting: NpcId,
    start_time_str: Seq<u8>,
    position: u8,
)
    requires
        battles_scored(s),
        update_battle_step(
            s,
            origin,
            battle_id,
            season,
            battle_type,
            home,
            visiting,
            start_time_str,
            position,
        ) is Ok,
    ensures
        battles_scored(
            update_battle_step(
                s,
                origin,
                battle_id,
                season,
                battle_type,
                home,
                visiting,
                start_time_str,
                position,
            )->Ok_0.0,
        ),
{
}

/// Setting a result keeps every battle that is no longer running scored.
pub proof fn law_set_result_keeps_scores(
    s: PalletView,
    origin: Origin,
    battle_id: BattleId,
    home_score: u8,
    visiting_score: u8,
    video_url: Seq<u8>,
)
    requires
        battles_scored(s),
        set_result_step(s, origin, battle_id, home_score, visiting_score, video_url) is Ok,
    ensures
        battles_scored(
            set_result_step(s, origin, battle_id, home_score, visiting_score, video_url)->Ok_0.0,
        ),
{
}

/// Settling a battle keeps every battle that is no longer running scored.
pub proof fn law_settle_keeps_scores(s: PalletView, origin: Origin, battle_id: BattleId)
    requires
        battles_scored(s),
        !settle_panics(s, origin, battle_id),
        settle_step(s, origin, battle_id) is Ok,
    ensures
        battles_scored(settle_step(s, origin, battle_id)->Ok_0.0),
{
    let b = s.battles[battle_id];
    let (diff, winner, loser) = battle_outcome(b);
    let s1 = npc_point_update(s, b.season, winner, loser, diff, b.battle_type);
    lemma_award_points_frame(
        s1,
        b.season,
        battle_id,
        crate::types::battle_abstract_of(b),
        winner,
        s1.votes_of(battle_id),
    );
}

/// Placing a vote keeps a list of votes ordered by voter, then by index.
pub proof fn law_book_insert_sorted(es: Seq<Vote>, v: Vote)
    requires
        book_sorted(es),
    ensures
        book_sorted(book_insert(es, v)),
    decreases es.len(),
{
    if es.len() > 0 {
        if vote_before(es[0], v.who, v.index) {
            let t = es.drop_first();
            assert(book_sorted(t)) by {
                assert forall|i: int, j: int| 0 <= i < j < t.len() implies vote_before(
                    t[i],
                    t[j].who,
                    t[j].index,
                ) by {
                    assert(t[i] == es[i + 1] && t[j] == es[j + 1]);
                }
            }
            law_book_insert_sorted(t, v);
            lemma_book_insert_members(t, v);
            let r = book_insert(es, v);
            assert(r == seq![es[0]] + book_insert(t, v));
            assert forall|i: int, j: int| 0 <= i < j < r.len() implies vote_before(
                r[i],
                r[j].who,
                r[j].index,
            ) by {
                if i == 0 {
                    let x = book_insert(t, v)[j - 1];
                    assert(x == v || t.contains(x));
                    if x != v {
                        let k = choose|k: int| 0 <= k < t.len() && t[k] == x;
                        assert(es[k + 1] == x);
                    }
                }
            }
        } else {
            let r = book_insert(es, v);
            assert forall|i: int, j: int| 0 <= i < j < r.len() implies vote_before(
                r[i],
                r[j].who,
                r[j].index,
            ) by {
                if es[0].who == v.who && es[0].index == v.index {
                    if i == 0 {
                        assert(r[j] == es[j]);
                        assert(vote_before(es[0], es[j].who, es[j].index));
                    } else {
                        assert(r[i] == es[i] && r[j] == es[j]);
                    }
                } else {
                    if i == 0 {
                        assert(r[j] == es[j - 1]);
                        if j > 1 {
                            assert(vote_before(es[0], es[j - 1].who, es[j - 1].index));
                        }
                    } else {
                        assert(r[i] == es[i - 1] && r[j] == es[j - 1]);
                    }
                }
            }
        }
    }
}

/// The votes of a list with `v` placed are `v` and votes of the list.
pub proof fn lemma_book_insert_members(es: Seq<Vote>, v: Vote)
    ensures
        forall|i: int|
            0 <= i < book_insert(es, v).len() ==> #[trigger] book_insert(es, v)[i] == v
                || es.contains(book_insert(es, v)[i]),
    decreases es.len(),
{
    if es.len() > 0 {
        lemma_book_insert_members(es.drop_first(), v);
        let r = book_insert(es, v);
        assert forall|i: int| 0 <= i < r.len() implies #[trigger] r[i] == v || es.contains(r[i]) by {
            if vote_before(es[0], v.who, v.index) {
                if i == 0 {
                    assert(es[0] == r[0]);
                } else {
                    let x = book_insert(es.drop_first(), v)[i - 1];
                    assert(r[i] == x);
                    if x != v {
                        let k = choose|k: int| 0 <= k < es.drop_first().len() && es.drop_first()[k] == x;
                        assert(es[k + 1] == x);
                    }
                }
            } else if es[0].who == v.who && es[0].index == v.index {
                if i > 0 {
                    assert(r[i] == es[i]);
                }
            } else {
                if i > 0 {
                    assert(r[i] == es[i - 1]);
                }
            }
        }
    }
}

/// Every list of votes in storage is ordered by voter, then by index.
pub open spec fn books_sorted(books: Map<BattleId, Seq<Vote>>) -> bool {
    forall|b: BattleId| #[trigger] books.contains_key(b) ==> book_sorted(books[b])
}

/// Placing votes keeps every list of votes ordered.
pub proof fn law_place_votes_sorted(
    s: PalletView,
    season: crate::types::SeasonView,
    season_id: SeasonId,
    now: u64,
    who: AccountId,
    index: u16,
    votes: Seq<VoteSelect>,
    kind: u8,
)
    requires
        books_sorted(s.votes_for_calc),
        place_votes(s, season, season_id, now, who, index, votes, kind) is Ok,
    ensures
        books_sorted(place_votes(s, season, season_id, now, who, index, votes, kind)->Ok_0),
    decreases votes.len(),
{
    if votes.len() > 0 {
        law_place_votes_sorted(s, season, season_id, now, who, index, votes.drop_last(), kind);
        let books = place_votes(s, season, season_id, now, who, index, votes.drop_last(), kind)->Ok_0;
        let v = votes.last();
        let es = book_of(books, v.battle_id);
        assert(book_sorted(es));
        law_book_insert_sorted(es, Vote { who, index, npc: v.npc_id });
    }
}

/// A first vote keeps every list of votes ordered.
pub proof fn law_initial_vote_keeps_books_sorted(
    s: PalletView,
    origin: Origin,
    season_id: SeasonId,
    tickets_amount: u32,
    votes: Seq<VoteSelect>,
    now: u64,
)
    requires
        books_sorted(s.votes_for_calc),
        initial_vote_step(s, origin, season_id, tickets_amount, votes, now) is Ok,
    ensures
        books_sorted(
            initial_vote_step(s, origin, season_id, tickets_amount, votes, now)->Ok_0.0.votes_for_calc,
        ),
{
    let who = origin.signer->0;
    let index = s.infos_of(who, season_id).0.len() as u16;
    law_place_votes_sorted(s, s.seasons[season_id], season_id, now, who, index, votes, 0);
}

/// Placing a vote lengthens a list of votes by one at most.
pub proof fn lemma_book_insert_len(es: Seq<Vote>, v: Vote)
    ensures
        book_insert(es, v).len() <= es.len() + 1,
    decreases es.len(),
{
    if es.len() > 0 {
        lemma_book_insert_len(es.drop_first(), v);
    }
}

/// Placing the vote of a selection that an ordered list holds already keeps
/// its length.
pub proof fn lemma_book_insert_replaces(es: Seq<Vote>, v: Vote)
    requires
        book_sorted(es),
        book_contains(es, v.who, v.index),
    ensures
        book_insert(es, v).len() == es.len(),
    decreases es.len(),
{
    let k = choose|k: int| 0 <= k < es.len() && es[k].who == v.who && es[k].index == v.index;
    if vote_before(es[0], v.who, v.index) {
        let t = es.drop_first();
        assert(k > 0);
        assert(t[k - 1] == es[k]);
        assert(book_sorted(t)) by {
            assert forall|i: int, j: int| 0 <= i < j < t.len() implies vote_before(
                t[i],
                t[j].who,
                t[j].index,
            ) by {
                assert(t[i] == es[i + 1] && t[j] == es[j + 1]);
            }
        }
        lemma_book_insert_replaces(t, v);
    } else if !(es[0].who == v.who && es[0].index == v.index) {
        assert(k > 0);
        assert(vote_before(es[0], es[k].who, es[k].index));
    }
}

/// Every list of votes holds at most `bound` votes.
pub open spec fn books_bounded(books: Map<BattleId, Seq<Vote>>, bound: u32) -> bool {
    forall|b: BattleId| #[trigger] books.contains_key(b) ==> books[b].len() <= bound
}

/// Placing votes keeps every ordered list of votes within the bound.
pub proof fn law_place_votes_bounded(
    s: PalletView,
    season: crate::types::SeasonView,
    season_id: SeasonId,
    now: u64,
    who: AccountId,
    index: u16,
    votes: Seq<VoteSelect>,
    kind: u8,
)
    requires
        books_sorted(s.votes_for_calc),
        books_bounded(s.votes_for_calc, s.config.max_participant_per_battle),
        place_votes(s, season, season_id, now, who, index, votes, kind) is Ok,
    ensures
        books_bounded(
            place_votes(s, season, season_id, now, who, index, votes, kind)->Ok_0,
            s.config.max_participant_per_battle,
        ),
    decreases votes.len(),
{
    if votes.len() > 0 {
        law_place_votes_bounded(s, season, season_id, now, who, index, votes.drop_last(), kind);
        law_place_votes_sorted(s, season, season_id, now, who, index, votes.drop_last(), kind);
        let books = place_votes(s, season, season_id, now, who, index, votes.drop_last(), kind)->Ok_0;
        let v = votes.last();
        let es = book_of(books, v.battle_id);
        let vote = Vote { who, index, npc: v.npc_id };
        lemma_book_insert_len(es, vote);
        if book_contains(es, who, index) {
            assert(book_sorted(es));
            lemma_book_insert_replaces(es, vote);
        }
    }
}

/// A first vote keeps every list of votes within the bound.
pub proof fn law_initial_vote_keeps_books_bounded(
    s: PalletView,
    origin: Origin,
    season_id: SeasonId,
    tickets_amount: u32,
    votes: Seq<VoteSelect>,
    now: u64,
)
    requires
        books_sorted(s.votes_for_calc),
        books_bounded(s.votes_for_calc, s.config.max_participant_per_battle),
        initial_vote_step(s, origin, season_id, tickets_amount, votes, now) is Ok,
    ensures
        ({
            let s2 = initial_vote_step(s, origin, season_id, tickets_amount, votes, now)->Ok_0.0;
            books_bounded(s2.votes_for_calc, s2.config.max_participant_per_battle)
        }),
{
    let who = origin.signer->0;
    let index = s.infos_of(who, season_id).0.len() as u16;
    law_place_votes_bounded(s, s.seasons[season_id], season_id, now, who, index, votes, 0);
}

/// A later vote keeps every list of votes within the bound.
pub proof fn law_append_vote_keeps_books_bounded(
    s: PalletView,
    origin: Origin,
    season_id: SeasonId,
    select_index: SelectIndex,
    select_battle_type: u8,
    select_ticket_amount: u32,
    votes: Seq<VoteSelect>,
    now: u64,
)
    requires
        books_sorted(s.votes_for_calc),
        books_bounded(s.votes_for_calc, s.config.max_participant_per_battle),
        append_vote_step(
            s,
            origin,
            season_id,
            select_index,
            select_battle_type,
            select_ticket_amount,
            votes,
            now,
        ) is Ok,
    ensures
        ({
            let s2 = append_vote_step(
                s,
                origin,
                season_id,
                select_index,
                select_battle_type,
                select_ticket_amount,
                votes,
                now,
            )->Ok_0.0;
            books_bounded(s2.votes_for_calc, s2.config.max_participant_per_battle)
        }),
{
    let who = origin.signer->0;
    let season = s.seasons[season_id];
    let infos = s.infos_of(who, season_id);
    let osi = infos.0[select_index as int];
    if select_ticket_amount == osi.ticket_amount {
        law_place_votes_bounded(s, season, season_id, now, who, select_index, votes, 1);
    } else {
        let new_index = infos.0.len() as u16;
        law_place_votes_bounded(s, season, season_id, now, who, new_index, osi.selects + votes, 2);
    }
}

/// Every season has the winners of at most `bound` battles.
pub open spec fn winners_bounded(s: PalletView) -> bool {
    forall|season: SeasonId|
        #[trigger] s.season_winners.contains_key(season) ==> s.season_winners[season].dom().finite()
            && s.season_winners[season].len() <= s.config.max_participant_per_battle
}

/// Setting a result keeps every season's winners within the bound.
pub proof fn law_set_result_keeps_winners_bounded(
    s: PalletView,
    origin: Origin,
    battle_id: BattleId,
    home_score: u8,
    visiting_score: u8,
    video_url: Seq<u8>,
)
    requires
        winners_bounded(s),
        set_result_step(s, origin, battle_id, home_score, visiting_score, video_url) is Ok,
    ensures
        winners_bounded(
            set_result_step(s, origin, battle_id, home_score, visiting_score, video_url)->Ok_0.0,
        ),
{
    let b = s.battles[battle_id];
    let winners = s.winners_of(b.season);
    assert(winners.dom().finite());
    let w = winner_of(b, home_score, visiting_score);
    if winners.contains_key(battle_id) {
        assert(winners.insert(battle_id, w).dom() =~= winners.dom());
    } else {
        assert(winners.insert(battle_id, w).dom() =~= winners.dom().insert(battle_id));
    }
}

/// A later vote keeps every list of votes ordered.
pub proof fn law_append_vote_keeps_books_sorted(
    s: PalletView,
    origin: Origin,
    season_id: SeasonId,
    select_index: SelectIndex,
    select_battle_type: u8,
    select_ticket_amount: u32,
    votes: Seq<VoteSelect>,
    now: u64,
)
    requires
        books_sorted(s.votes_for_calc),
        append_vote_step(
            s,
            origin,
            season_id,
            select_index,
            select_battle_type,
            select_ticket_amount,
            votes,
            now,
        ) is Ok,
    ensures
        books_sorted(
            append_vote_step(
                s,
                origin,
                season_id,
                select_index,
                select_battle_type,
                select_ticket_amount,
                votes,
                now,
            )->Ok_0.0.votes_for_calc,
        ),
{
    let who = origin.signer->0;
    let season = s.seasons[season_id];
    let infos = s.infos_of(who, season_id);
    let osi = infos.0[select_index as int];
    if select_ticket_amount == osi.ticket_amount {
        law_place_votes_sorted(s, season, season_id, now, who, select_index, votes, 1);
    } else {
        let new_index = infos.0.len() as u16;
        law_place_votes_sorted(s, season, season_id, now, who, new_index, osi.selects + votes, 2);
    }
}

/// No account has more tickets left than it has had.
pub open spec fn tickets_consistent(s: PalletView) -> bool {
    forall|k: (SeasonId, AccountId)| #[trigger] s.tickets.contains_key(k) ==> s.tickets[k].1 <= s.tickets[k].0
}

/// Buying tickets keeps no more tickets left than had.
pub proof fn law_buy_ticket_keeps_tickets(
    s: PalletView,
    origin: Origin,
    amount: u32,
    invite_code: Seq<u8>,
    now: u64,
    balance: Balance,
)
    requires
        tickets_consistent(s),
        !buy_ticket_overflows(s, origin, amount, invite_code, now, balance),
        buy_ticket_step(s, origin, amount, invite_code, now, balance) is Ok,
    ensures
        tickets_consistent(buy_ticket_step(s, origin, amount, invite_code, now, balance)->Ok_0.0),
{
}

/// A first vote keeps no more tickets left than had.
pub proof fn law_initial_vote_keeps_tickets(
    s: PalletView,
    origin: Origin,
    season_id: SeasonId,
    tickets_amount: u32,
    votes: Seq<VoteSelect>,
    now: u64,
)
    requires
        tickets_consistent(s),
        initial_vote_step(s, origin, season_id, tickets_amount, votes, now) is Ok,
    ensures
        tickets_consistent(
            initial_vote_step(s, origin, season_id, tickets_amount, votes, now)->Ok_0.0,
        ),
{
}

/// Giving tickets keeps no more tickets left than had.
pub proof fn law_give_tickets_keeps_tickets(
    t: Map<(SeasonId, AccountId), (u32, u32)>,
    season: SeasonId,
    l: Seq<Seq<u8>>,
)
    requires
        forall|k: (SeasonId, AccountId)| #[trigger] t.contains_key(k) ==> t[k].1 <= t[k].0,
        crate::model::give_tickets_fit(t, season, l),
    ensures
        ({
            let r = give_tickets(t, season, l);
            forall|k: (SeasonId, AccountId)| #[trigger] r.contains_key(k) ==> r[k].1 <= r[k].0
        }),
    decreases l.len(),
{
    if l.len() > 0 {
        let p = l.drop_last();
        assert(crate::model::give_tickets_fit(t, season, p)) by {
            assert forall|i: int| 0 <= i < p.len() implies #[trigger] crate::model::add_ticket_fits(
                give_tickets(t, season, p.take(i)),
                season,
                crate::codec::account_of_bytes(p[i]),
            ) by {
                assert(p.take(i) =~= l.take(i));
                assert(crate::model::add_ticket_fits(
                    give_tickets(t, season, l.take(i)),
                    season,
                    crate::codec::account_of_bytes(l[i]),
                ));
            }
        }
        law_give_tickets_keeps_tickets(t, season, p);
        assert(l.take(l.len() - 1) =~= p);
        assert(crate::model::add_ticket_fits(
            give_tickets(t, season, l.take(l.len() - 1)),
            season,
            crate::codec::account_of_bytes(l[l.len() - 1]),
        ));
    }
}

/// Giving tickets away keeps no more tickets left than had.
pub proof fn law_give_away_tickets_keeps_tickets(
    s: PalletView,
    origin: Origin,
    season_id: SeasonId,
    addrs: Seq<u8>,
)
    requires
        tickets_consistent(s),
        !give_away_tickets_overflows(s, origin, season_id, addrs),
        give_away_tickets_step(s, origin, season_id, addrs) is Ok,
    ensures
        tickets_consistent(give_away_tickets_step(s, origin, season_id, addrs)->Ok_0.0),
{
    let l = scale_byte_lists(addrs)->0;
    law_give_tickets_keeps_tickets(s.tickets, season_id, l);
}

/// The tickets that a list of selections stakes.
pub open spec fn staked(infos: Seq<VoteSelectInfoView>) -> int
    decreases infos.len(),
{
    if infos.len() == 0 {
        0
    } else {
        staked(infos.drop_last()) + infos.last().ticket_amount
    }
}

/// Every account's tickets in every season are all accounted for: those
/// its selections stake plus those it has left are those it acquired.
pub open spec fn tickets_conserved(s: PalletView) -> bool {
    forall|sid: SeasonId, who: AccountId|
        #![trigger s.tickets_of(sid, who)]
        #![trigger s.infos_of(who, sid)]
        staked(s.infos_of(who, sid).0) + s.tickets_of(sid, who).1 == s.tickets_of(sid, who).0
}

proof fn lemma_staked_nonneg(q: Seq<VoteSelectInfoView>)
    ensures
        staked(q) >= 0,
    decreases q.len(),
{
    if q.len() > 0 {
        lemma_staked_nonneg(q.drop_last());
    }
}

proof fn lemma_staked_push(q: Seq<VoteSelectInfoView>, x: VoteSelectInfoView)
    ensures
        staked(q.push(x)) == staked(q) + x.ticket_amount,
{
    assert(q.push(x).drop_last() =~= q);
}

proof fn lemma_staked_update(q: Seq<VoteSelectInfoView>, i: int, x: VoteSelectInfoView)
    requires
        0 <= i < q.len(),
    ensures
        staked(q.update(i, x)) == staked(q) - q[i].ticket_amount + x.ticket_amount,
    decreases q.len(),
{
    if i == q.len() - 1 {
        assert(q.update(i, x).drop_last() =~= q.drop_last());
    } else {
        lemma_staked_update(q.drop_last(), i, x);
        assert(q.update(i, x).drop_last() =~= q.drop_last().update(i, x));
    }
}

/// Where every ticket is accounted for, no more tickets are left than were
/// acquired.
pub proof fn law_conserved_tickets_consistent(s: PalletView)
    requires
        tickets_conserved(s),
    ensures
        forall|sid: SeasonId, who: AccountId|
            #[trigger] s.tickets_of(sid, who).1 <= s.tickets_of(sid, who).0,
{
    assert forall|sid: SeasonId, who: AccountId|
        #[trigger] s.tickets_of(sid, who).1 <= s.tickets_of(sid, who).0 by {
        lemma_staked_nonneg(s.infos_of(who, sid).0);
    }
}

/// A new chain accounts for every ticket.
pub proof fn law_genesis_conserves_tickets(config: crate::types::Config)
    ensures
        tickets_conserved(genesis(config)),
{
}

/// Buying tickets keeps every ticket accounted for.
pub proof fn law_buy_ticket_conserves_tickets(
    s: PalletView,
    origin: Origin,
    amount: u32,
    invite_code: Seq<u8>,
    now: u64,
    balance: Balance,
)
    requires
        tickets_conserved(s),
        !buy_ticket_overflows(s, origin, amount, invite_code, now, balance),
        buy_ticket_step(s, origin, amount, invite_code, now, balance) is Ok,
    ensures
        tickets_conserved(buy_ticket_step(s, origin, amount, invite_code, now, balance)->Ok_0.0),
{
    let s2 = buy_ticket_step(s, origin, amount, invite_code, now, balance)->Ok_0.0;
    let who = origin.signer->0;
    let sid = s.default_season;
    assert forall|sid2: SeasonId, who2: AccountId|
        staked(#[trigger] s2.infos_of(who2, sid2).0) + s2.tickets_of(sid2, who2).1
            == s2.tickets_of(sid2, who2).0 by {
        assert(s2.infos_of(who2, sid2) == s.infos_of(who2, sid2));
        assert(staked(s.infos_of(who2, sid2).0) + s.tickets_of(sid2, who2).1 == s.tickets_of(
            sid2,
            who2,
        ).0);
    }
}

/// A first vote moves its tickets from those left to the new selection.
pub proof fn law_initial_vote_conserves_tickets(
    s: PalletView,
    origin: Origin,
    season_id: SeasonId,
    tickets_amount: u32,
    votes: Seq<VoteSelect>,
    now: u64,
)
    requires
        tickets_conserved(s),
        initial_vote_step(s, origin, season_id, tickets_amount, votes, now) is Ok,
    ensures
        tickets_conserved(
            initial_vote_step(s, origin, season_id, tickets_amount, votes, now)->Ok_0.0,
        ),
{
    let s2 = initial_vote_step(s, origin, season_id, tickets_amount, votes, now)->Ok_0.0;
    let who = origin.signer->0;
    let infos = s.infos_of(who, season_id);
    let x = VoteSelectInfoView { ticket_amount: tickets_amount, selects: votes };
    lemma_staked_push(infos.0, x);
    assert forall|sid2: SeasonId, who2: AccountId|
        staked(#[trigger] s2.infos_of(who2, sid2).0) + s2.tickets_of(sid2, who2).1
            == s2.tickets_of(sid2, who2).0 by {
        assert(staked(s.infos_of(who2, sid2).0) + s.tickets_of(sid2, who2).1 == s.tickets_of(
            sid2,
            who2,
        ).0);
    }
}

/// A later vote moves tickets between the account's selections alone.
pub proof fn law_append_vote_conserves_tickets(
    s: PalletView,
    origin: Origin,
    season_id: SeasonId,
    select_index: SelectIndex,
    select_battle_type: u8,
    select_ticket_amount: u32,
    votes: Seq<VoteSelect>,
    now: u64,
)
    requires
        tickets_conserved(s),
        append_vote_step(
            s,
            origin,
            season_id,
            select_index,
            select_battle_type,
            select_ticket_amount,
            votes,
            now,
        ) is Ok,
    ensures
        tickets_conserved(
            append_vote_step(
                s,
                origin,
                season_id,
                select_index,
                select_battle_type,
                select_ticket_amount,
                votes,
                now,
            )->Ok_0.0,
        ),
{
    let s2 = append_vote_step(
        s,
        origin,
        season_id,
        select_index,
        select_battle_type,
        select_ticket_amount,
        votes,
        now,
    )->Ok_0.0;
    let who = origin.signer->0;
    let infos = s.infos_of(who, season_id);
    let i = select_index as int;
    let osi = infos.0[i];
    if select_ticket_amount == osi.ticket_amount {
        let x = VoteSelectInfoView { ticket_amount: osi.ticket_amount, selects: osi.selects + votes };
        lemma_staked_update(infos.0, i, x);
    } else {
        let x = VoteSelectInfoView {
            ticket_amount: (osi.ticket_amount - select_ticket_amount) as u32,
            ..osi
        };
        let y = VoteSelectInfoView { ticket_amount: select_ticket_amount, selects: osi.selects + votes };
        lemma_staked_update(infos.0, i, x);
        lemma_staked_push(infos.0.update(i, x), y);
    }
    assert forall|sid2: SeasonId, who2: AccountId|
        staked(#[trigger] s2.infos_of(who2, sid2).0) + s2.tickets_of(sid2, who2).1
            == s2.tickets_of(sid2, who2).0 by {
        assert(staked(s.infos_of(who2, sid2).0) + s.tickets_of(sid2, who2).1 == s.tickets_of(
            sid2,
            who2,
        ).0);
    }
}

/// Giving tickets keeps every ticket accounted for.
pub proof fn law_give_tickets_conserves_tickets(s: PalletView, season: SeasonId, l: Seq<Seq<u8>>)
    requires
        tickets_conserved(s),
        crate::model::give_tickets_fit(s.tickets, season, l),
    ensures
        tickets_conserved(PalletView { tickets: give_tickets(s.tickets, season, l), ..s }),
    decreases l.len(),
{
    if l.len() > 0 {
        let p = l.drop_last();
        assert(crate::model::give_tickets_fit(s.tickets, season, p)) by {
            assert forall|i: int| 0 <= i < p.len() implies #[trigger] crate::model::add_ticket_fits(
                give_tickets(s.tickets, season, p.take(i)),
                season,
                crate::codec::account_of_bytes(p[i]),
            ) by {
                assert(p.take(i) =~= l.take(i));
                assert(crate::model::add_ticket_fits(
                    give_tickets(s.tickets, season, l.take(i)),
                    season,
                    crate::codec::account_of_bytes(l[i]),
                ));
            }
        }
        law_give_tickets_conserves_tickets(s, season, p);
        assert(l.take(l.len() - 1) =~= p);
        assert(crate::model::add_ticket_fits(
            give_tickets(s.tickets, season, l.take(l.len() - 1)),
            season,
            crate::codec::account_of_bytes(l[l.len() - 1]),
        ));
        let s1 = PalletView { tickets: give_tickets(s.tickets, season, p), ..s };
        let s2 = PalletView { tickets: give_tickets(s.tickets, season, l), ..s };
        assert forall|sid2: SeasonId, who2: AccountId|
            staked(#[trigger] s2.infos_of(who2, sid2).0) + s2.tickets_of(sid2, who2).1
                == s2.tickets_of(sid2, who2).0 by {
            assert(s2.infos_of(who2, sid2) == s1.infos_of(who2, sid2));
            assert(staked(s1.infos_of(who2, sid2).0) + s1.tickets_of(sid2, who2).1
                == s1.tickets_of(sid2, who2).0);
        }
    }
}

/// Giving tickets away keeps every ticket accounted for.
pub proof fn law_give_away_tickets_conserves_tickets(
    s: PalletView,
    origin: Origin,
    season_id: SeasonId,
    addrs: Seq<u8>,
)
    requires
        tickets_conserved(s),
        !give_away_tickets_overflows(s, origin, season_id, addrs),
        give_away_tickets_step(s, origin, season_id, addrs) is Ok,
    ensures
        tickets_conserved(give_away_tickets_step(s, origin, season_id, addrs)->Ok_0.0),
{
    law_give_tickets_conserves_tickets(s, season_id, scale_byte_lists(addrs)->0);
}

/// A claim keeps every ticket accounted for.
pub proof fn law_claim_conserves_tickets(s: PalletView, origin: Origin, season_id: SeasonId)
    requires
        tickets_conserved(s),
        claim_step(s, origin, season_id) is Ok,
    ensures
        tickets_conserved(claim_step(s, origin, season_id)->Ok_0.0),
{
    let s2 = claim_step(s, origin, season_id)->Ok_0.0;
    assert forall|sid2: SeasonId, who2: AccountId|
        staked(#[trigger] s2.infos_of(who2, sid2).0) + s2.tickets_of(sid2, who2).1
            == s2.tickets_of(sid2, who2).0 by {
        assert(s2.infos_of(who2, sid2).0 == s.infos_of(who2, sid2).0);
        assert(staked(s.infos_of(who2, sid2).0) + s.tickets_of(sid2, who2).1 == s.tickets_of(
            sid2,
            who2,
        ).0);
    }
}

/// Every selection's points count no more won battles than battles, and
/// three points for each win.
pub open spec fn points_sane(pp: Map<(SeasonId, AccountId, SelectIndex), (u8, u8, u32)>) -> bool {
    forall|k: (SeasonId, AccountId, SelectIndex)|
        #[trigger] pp.contains_key(k) ==> pp[k].1 <= pp[k].0 && pp[k].2 == 3 * pp[k].1
}

proof fn lemma_points_after_sane(
    s: PalletView,
    season: SeasonId,
    battle_id: BattleId,
    abs: crate::types::BattleAbstract,
    winner: NpcId,
    book: Seq<Vote>,
    n: int,
)
    requires
        0 <= n <= book.len(),
        points_sane(s.participant_points),
        points_after(s, season, battle_id, abs, winner, book, 0) == s.participant_points,
        forall|j: int|
            #![trigger book[j]]
            0 <= j < book.len() ==> award_fits(
                point_in(
                    points_after(s, season, battle_id, abs, winner, book, j),
                    (season, book[j].who, book[j].index),
                ),
                winner == book[j].npc,
            ),
    ensures
        points_sane(points_after(s, season, battle_id, abs, winner, book, n)),
    decreases n,
{
    if n > 0 {
        let m = n - 1;
        lemma_points_after_sane(s, season, battle_id, abs, winner, book, m);
        crate::model::lemma_points_after_step(s, season, battle_id, abs, winner, book, m);
        assert(award_fits(
            point_in(
                points_after(s, season, battle_id, abs, winner, book, m),
                (season, book[m].who, book[m].index),
            ),
            winner == book[m].npc,
        ));
    }
}

/// Awarding the votes of a battle keeps every selection's points sane.
pub proof fn law_award_points_keeps_points(
    s: PalletView,
    season: SeasonId,
    battle_id: BattleId,
    abs: crate::types::BattleAbstract,
    winner: NpcId,
    book: Seq<Vote>,
)
    requires
        points_sane(s.participant_points),
        award_points_fit(s, season, battle_id, abs, winner, book),
    ensures
        points_sane(award_points(s, season, battle_id, abs, winner, book).participant_points),
{
    crate::model::lemma_points_after_fit(s, season, battle_id, abs, winner, book);
    lemma_points_after_sane(s, season, battle_id, abs, winner, book, book.len() as int);
    assert(points_after(s, season, battle_id, abs, winner, book, book.len() as int)
        == award_points(s, season, battle_id, abs, winner, book).participant_points) by {
        reveal(points_after);
        assert(book.take(book.len() as int) =~= book);
    }
}

/// Settling a battle keeps every selection's points sane.
pub proof fn law_settle_keeps_points(s: PalletView, origin: Origin, battle_id: BattleId)
    requires
        points_sane(s.participant_points),
        !settle_panics(s, origin, battle_id),
        settle_step(s, origin, battle_id) is Ok,
    ensures
        points_sane(settle_step(s, origin, battle_id)->Ok_0.0.participant_points),
{
    let b = s.battles[battle_id];
    let (diff, winner, loser) = battle_outcome(b);
    let s1 = npc_point_update(s, b.season, winner, loser, diff, b.battle_type);
    let abs = crate::types::battle_abstract_of(b);
    lemma_award_points_frame(s1, b.season, battle_id, abs, winner, s1.votes_of(battle_id));
    law_award_points_keeps_points(s1, b.season, battle_id, abs, winner, s1.votes_of(battle_id));
}

/// A later vote that splits a selection copies its points to the new one,
/// keeping every selection's points sane.
pub proof fn law_append_vote_keeps_points(
    s: PalletView,
    origin: Origin,
    season_id: SeasonId,
    select_index: SelectIndex,
    select_battle_type: u8,
    select_ticket_amount: u32,
    votes: Seq<VoteSelect>,
    now: u64,
)
    requires
        points_sane(s.participant_points),
        append_vote_step(
            s,
            origin,
            season_id,
            select_index,
            select_battle_type,
            select_ticket_amount,
            votes,
            now,
        ) is Ok,
    ensures
        points_sane(
            append_vote_step(
                s,
                origin,
                season_id,
                select_index,
                select_battle_type,
                select_ticket_amount,
                votes,
                now,
            )->Ok_0.0.participant_points,
        ),
{
}

/// Setting a result records as the battle's winner in its season the home
/// NPC where it scored more, else the visiting NPC.
pub proof fn law_set_result_records_winner(
    s: PalletView,
    origin: Origin,
    battle_id: BattleId,
    home_score: u8,
    visiting_score: u8,
    video_url: Seq<u8>,
)
    requires
        set_result_step(s, origin, battle_id, home_score, visiting_score, video_url) is Ok,
    ensures
        ({
            let b = s.battles[battle_id];
            let s2 = set_result_step(s, origin, battle_id, home_score, visiting_score, video_url)->Ok_0.0;
            &&& s2.winners_of(b.season).contains_key(battle_id)
            &&& s2.winners_of(b.season)[battle_id] == if home_score > visiting_score {
                b.home
            } else {
                b.visiting
            }
            &&& s2.battles[battle_id].home_score == Some(home_score)
            &&& s2.battles[battle_id].visiting_score == Some(visiting_score)
        }),
{
}

/// Settling a final makes its winner the season's champion: the home NPC
/// where it scored more, else the visiting NPC.
pub proof fn law_settle_final_crowns_winner(s: PalletView, origin: Origin, battle_id: BattleId)
    requires
        !settle_panics(s, origin, battle_id),
        settle_step(s, origin, battle_id) is Ok,
        s.battles[battle_id].battle_type == BattleType::Finals,
    ensures
        ({
            let b = s.battles[battle_id];
            let s2 = settle_step(s, origin, battle_id)->Ok_0.0;
            s2.seasons[b.season].champion == Some(
                if b.home_score->0 > b.visiting_score->0 {
                    b.home
                } else {
                    b.visiting
                },
            )
        }),
{
    let b = s.battles[battle_id];
    let (diff, winner, loser) = battle_outcome(b);
    let s1 = npc_point_update(s, b.season, winner, loser, diff, b.battle_type);
    lemma_award_points_frame(
        s1,
        b.season,
        battle_id,
        crate::types::battle_abstract_of(b),
        winner,
        s1.votes_of(battle_id),
    );
}

/// Settling a final after setting its result makes the season's champion
/// the winner that the result recorded.
pub proof fn law_settle_final_crowns_recorded_winner(
    s: PalletView,
    origin: Origin,
    battle_id: BattleId,
    home_score: u8,
    visiting_score: u8,
    video_url: Seq<u8>,
)
    requires
        set_result_step(s, origin, battle_id, home_score, visiting_score, video_url) is Ok,
        s.battles[battle_id].battle_type == BattleType::Finals,
        ({
            let s2 = set_result_step(s, origin, battle_id, home_score, visiting_score, video_url)->Ok_0.0;
            !settle_panics(s2, origin, battle_id) && settle_step(s2, origin, battle_id) is Ok
        }),
    ensures
        ({
            let b = s.battles[battle_id];
            let s2 = set_result_step(s, origin, battle_id, home_score, visiting_score, video_url)->Ok_0.0;
            let s3 = settle_step(s2, origin, battle_id)->Ok_0.0;
            s3.seasons[b.season].champion == Some(s2.winners_of(b.season)[battle_id])
        }),
{
    let s2 = set_result_step(s, origin, battle_id, home_score, visiting_score, video_url)->Ok_0.0;
    law_set_result_records_winner(s, origin, battle_id, home_score, visiting_score, video_url);
    law_settle_final_crowns_winner(s2, origin, battle_id);
}

/// A purchase that goes through adds the tickets bought to the buyer's
/// tickets of the default season, which stay within the maximum.
pub proof fn law_buy_ticket_within_max(
    s: PalletView,
    origin: Origin,
    amount: u32,
    invite_code: Seq<u8>,
    now: u64,
    balance: Balance,
)
    requires
        !buy_ticket_overflows(s, origin, amount, invite_code, now, balance),
        buy_ticket_step(s, origin, amount, invite_code, now, balance) is Ok,
    ensures
        ({
            let s2 = buy_ticket_step(s, origin, amount, invite_code, now, balance)->Ok_0.0;
            let who = origin.signer->0;
            let sid = s.default_season;
            &&& amount > 0
            &&& s2.tickets_of(sid, who).0 == s.tickets_of(sid, who).0 + amount
            &&& s2.tickets_of(sid, who).1 == s.tickets_of(sid, who).1 + amount
            &&& s2.tickets_of(sid, who).0 <= s.config.max_ticket_amount
        }),
{
}

/// A later vote with fewer tickets than its selection holds splits off a
/// new selection, at the end of the account's list, that starts with the
/// points of the selection it came from.
pub proof fn law_append_vote_split_copies_points(
    s: PalletView,
    origin: Origin,
    season_id: SeasonId,
    select_index: SelectIndex,
    select_battle_type: u8,
    select_ticket_amount: u32,
    votes: Seq<VoteSelect>,
    now: u64,
)
    requires
        append_vote_step(
            s,
            origin,
            season_id,
            select_index,
            select_battle_type,
            select_ticket_amount,
            votes,
            now,
        ) is Ok,
        select_ticket_amount != s.infos_of(origin.signer->0, season_id).0[select_index as int].ticket_amount,
    ensures
        ({
            let who = origin.signer->0;
            let s2 = append_vote_step(
                s,
                origin,
                season_id,
                select_index,
                select_battle_type,
                select_ticket_amount,
                votes,
                now,
            )->Ok_0.0;
            let n = s.infos_of(who, season_id).0.len();
            &&& s2.infos_of(who, season_id).0.len() == n + 1
            &&& s2.participant_point_of((season_id, who, n as u16)) == s.participant_point_of(
                (season_id, who, select_index),
            )
            &&& s2.participant_point_of((season_id, who, select_index)) == s.participant_point_of(
                (season_id, who, select_index),
            )
            &&& s2.infos_of(who, season_id).0[select_index as int].ticket_amount == s.infos_of(
                who,
                season_id,
            ).0[select_index as int].ticket_amount - select_ticket_amount
            &&& s2.infos_of(who, season_id).0[select_index as int].selects == s.infos_of(
                who,
                season_id,
            ).0[select_index as int].selects
            &&& s2.infos_of(who, season_id).0[n as int].ticket_amount == select_ticket_amount
            &&& s2.infos_of(who, season_id).0[n as int].selects == s.infos_of(who, season_id).0[
                select_index as int
            ].selects + votes
        }),
{
}

/// A later vote with all the tickets of its selection adds its choices to
/// that selection, which keeps its tickets and its points.
pub proof fn law_append_vote_extends_selection(
    s: PalletView,
    origin: Origin,
    season_id: SeasonId,
    select_index: SelectIndex,
    select_battle_type: u8,
    select_ticket_amount: u32,
    votes: Seq<VoteSelect>,
    now: u64,
)
    requires
        append_vote_step(
            s,
            origin,
            season_id,
            select_index,
            select_battle_type,
            select_ticket_amount,
            votes,
            now,
        ) is Ok,
        select_ticket_amount == s.infos_of(origin.signer->0, season_id).0[select_index as int].ticket_amount,
    ensures
        ({
            let who = origin.signer->0;
            let s2 = append_vote_step(
                s,
                origin,
                season_id,
                select_index,
                select_battle_type,
                select_ticket_amount,
                votes,
                now,
            )->Ok_0.0;
            let old = s.infos_of(who, season_id).0;
            &&& s2.infos_of(who, season_id).0.len() == old.len()
            &&& s2.infos_of(who, season_id).0[select_index as int].ticket_amount
                == old[select_index as int].ticket_amount
            &&& s2.infos_of(who, season_id).0[select_index as int].selects
                == old[select_index as int].selects + votes
            &&& s2.participant_points == s.participant_points
            &&& s2.tickets == s.tickets
        }),
{
}

/// Settling a battle between two different NPCs gives each one more battle;
/// the winner (the home NPC where it scored more, else the visiting NPC)
/// one more win, three more points, and the score difference added to its
/// goal difference; the loser that difference taken from its own.
pub proof fn law_settle_npc_points(s: PalletView, origin: Origin, battle_id: BattleId)
    requires
        !settle_panics(s, origin, battle_id),
        settle_step(s, origin, battle_id) is Ok,
        s.battles[battle_id].home != s.battles[battle_id].visiting,
    ensures
        ({
            let b = s.battles[battle_id];
            let h = b.home_score->0;
            let v = b.visiting_score->0;
            let (winner, loser, diff) = if h > v {
                (b.home, b.visiting, h - v)
            } else {
                (b.visiting, b.home, v - h)
            };
            let s2 = settle_step(s, origin, battle_id)->Ok_0.0;
            let w0 = s.npc_point_of((b.season, winner));
            let l0 = s.npc_point_of((b.season, loser));
            &&& s2.npc_point_of((b.season, winner)) == (
                (w0.0 + 1) as u8,
                (w0.1 + 1) as u8,
                (w0.2 + 3) as u32,
                (w0.3 + diff) as i32,
            )
            &&& w0.0 + 1 <= u8::MAX && w0.1 + 1 <= u8::MAX && w0.2 + 3 <= u32::MAX
            &&& w0.3 + diff <= i32::MAX
            &&& s2.npc_point_of((b.season, loser)) == (
                (l0.0 + 1) as u8,
                l0.1,
                l0.2,
                (l0.3 - diff) as i32,
            )
            &&& l0.0 + 1 <= u8::MAX && l0.3 - diff >= i32::MIN
        }),
{
    let b = s.battles[battle_id];
    let (diff, winner, loser) = battle_outcome(b);
    let s1 = npc_point_update(s, b.season, winner, loser, diff, b.battle_type);
    lemma_award_points_frame(
        s1,
        b.season,
        battle_id,
        crate::types::battle_abstract_of(b),
        winner,
        s1.votes_of(battle_id),
    );
}


/// Adds to `acc` the tickets of the selection whose points key is `k`, where
/// it is of the season and has won exactly `wins` battles.
pub open spec fn add_if_wins(s: PalletView, season_id: SeasonId, wins: int) -> spec_fn(
    int,
    (SeasonId, AccountId, SelectIndex),
) -> int {
    |acc: int, k: (SeasonId, AccountId, SelectIndex)|
        if k.0 == season_id && s.participant_points.contains_key(k) && s.participant_points[k].1
            == wins {
            acc + s.infos_of(k.1, season_id).0[k.2 as int].ticket_amount
        } else {
            acc
        }
}

/// The tickets of the season's selections that have won exactly `wins`
/// battles.
pub open spec fn tickets_with_wins(s: PalletView, season_id: SeasonId, wins: int) -> int {
    s.participant_points.dom().fold(0, add_if_wins(s, season_id, wins))
}

proof fn lemma_fold_grows(dom: Set<(SeasonId, AccountId, SelectIndex)>, f: spec_fn(
    int,
    (SeasonId, AccountId, SelectIndex),
) -> int)
    requires
        dom.finite(),
        vstd::set::fold::is_fun_commutative(f),
        forall|acc: int, k: (SeasonId, AccountId, SelectIndex)| #[trigger] f(acc, k) >= acc,
    ensures
        dom.fold(0, f) >= 0,
    decreases dom.len(),
{
    if dom.len() == 0 {
        assert(dom =~= Set::empty());
        vstd::set::fold::lemma_fold_empty(0, f);
    } else {
        let k = dom.choose();
        lemma_fold_grows(dom.remove(k), f);
        vstd::set::fold::lemma_fold_insert(dom.remove(k), 0, f, k);
        assert(dom.remove(k).insert(k) =~= dom);
    }
}

/// Closing a season counts for its champions exactly the tickets of the
/// selections that won all its battles, and for its runners-up exactly those
/// of the selections that won all but one; a selection with fewer wins
/// counts for neither.
pub proof fn law_close_season_counts_winners(
    s: PalletView,
    origin: Origin,
    season_id: SeasonId,
    treasury_balance: Balance,
)
    requires
        s.participant_points.dom().finite(),
        !close_season_panics(s, origin, season_id, treasury_balance),
        close_season_step(s, origin, season_id, treasury_balance) is Ok,
    ensures
        ({
            let total = s.seasons[season_id].total_battles;
            let st = close_season_step(s, origin, season_id, treasury_balance)->Ok_0.0.seasons[season_id].bonus_strategy;
            &&& st.len() == 2
            &&& st[0].0 == total
            &&& st[0].1 == tickets_with_wins(s, season_id, total as int)
            &&& st[1].0 == total - 1
            &&& st[1].1 == tickets_with_wins(s, season_id, total - 1)
        }),
{
    let total = s.seasons[season_id].total_battles;
    assert(crate::model::tally_step(s, season_id, total, false) =~= add_if_wins(
        s,
        season_id,
        total as int,
    ));
    assert(crate::model::tally_step(s, season_id, total, true) =~= add_if_wins(
        s,
        season_id,
        total - 1,
    ));
    crate::model::lemma_tally_step_commutative(s, season_id, total, false);
    crate::model::lemma_tally_step_commutative(s, season_id, total, true);
    lemma_fold_grows(s.participant_points.dom(), crate::model::tally_step(s, season_id, total, false));
    lemma_fold_grows(s.participant_points.dom(), crate::model::tally_step(s, season_id, total, true));
}

/// The selections of `sel` that chose the winner of their battle.
pub open spec fn right_choices(winners: Map<BattleId, NpcId>, sel: Seq<VoteSelect>) -> Seq<
    VoteSelect,
> {
    sel.filter(|x: VoteSelect| winners[x.battle_id] == x.npc_id)
}

/// The entries of a bonus strategy for `right` right choices that some
/// tickets share, in their order.
pub open spec fn entries_for(strategy: Seq<(u8, u32, Balance)>, right: int) -> Seq<
    (u8, u32, Balance),
> {
    strategy.filter(|e: (u8, u32, Balance)| e.0 == right && e.1 > 0)
}

/// What a selection earns: nothing where no entry of the season's strategy is
/// for its number of right choices; else, for each of its tickets, the pool of
/// the first such entry shared by the entry's tickets, at most a hundred ticket
/// prices.
pub open spec fn earned(
    season: crate::types::SeasonView,
    winners: Map<BattleId, NpcId>,
    info: VoteSelectInfoView,
) -> int {
    let es = entries_for(season.bonus_strategy, right_choices(winners, info.selects).len() as int);
    if es.len() == 0 {
        0
    } else {
        let per = es[0].2 as int / es[0].1 as int;
        let cap = season.ticket_price * 100;
        (if per > cap {
            cap
        } else {
            per
        }) * info.ticket_amount
    }
}

/// What all the selections of `infos` earn together.
pub open spec fn earned_total(
    season: crate::types::SeasonView,
    winners: Map<BattleId, NpcId>,
    infos: Seq<VoteSelectInfoView>,
) -> int
    decreases infos.len(),
{
    if infos.len() == 0 {
        0
    } else {
        earned_total(season, winners, infos.drop_last()) + earned(season, winners, infos.last())
    }
}

proof fn lemma_hits_counts_right_choices(winners: Map<BattleId, NpcId>, sel: Seq<VoteSelect>)
    ensures
        crate::model::hits(winners, sel) == right_choices(winners, sel).len(),
    decreases sel.len(),
{
    reveal(Seq::filter);
    if sel.len() > 0 {
        lemma_hits_counts_right_choices(winners, sel.drop_last());
    }
}

proof fn lemma_first_bonus_is_first_entry(strategy: Seq<(u8, u32, Balance)>, right: int)
    ensures
        crate::model::first_bonus(strategy, right) == if entries_for(strategy, right).len() == 0 {
            None
        } else {
            Some(entries_for(strategy, right)[0])
        },
    decreases strategy.len(),
{
    if strategy.len() > 0 {
        let head = seq![strategy[0]];
        let rest = strategy.drop_first();
        let pred = |e: (u8, u32, Balance)| e.0 == right && e.1 > 0;
        lemma_first_bonus_is_first_entry(rest, right);
        assert(strategy =~= head + rest);
        Seq::filter_distributes_over_add(head, rest, pred);
        reveal_with_fuel(Seq::filter, 2);
        assert(head.drop_last() =~= Seq::<(u8, u32, Balance)>::empty());
        if pred(strategy[0]) {
            assert(head.filter(pred) =~= head);
        } else {
            assert(head.filter(pred) =~= Seq::<(u8, u32, Balance)>::empty());
            assert(head.filter(pred) + rest.filter(pred) =~= rest.filter(pred));
        }
    }
}

proof fn lemma_claim_total_is_earned(
    season: crate::types::SeasonView,
    winners: Map<BattleId, NpcId>,
    infos: Seq<VoteSelectInfoView>,
)
    ensures
        crate::model::claim_total(season, winners, infos) == earned_total(season, winners, infos),
    decreases infos.len(),
{
    if infos.len() > 0 {
        lemma_claim_total_is_earned(season, winners, infos.drop_last());
        let info = infos.last();
        lemma_hits_counts_right_choices(winners, info.selects);
        lemma_first_bonus_is_first_entry(
            season.bonus_strategy,
            crate::model::hits(winners, info.selects),
        );
    }
}

/// A claim moves to the account, out of the season's treasury, exactly what
/// all its selections of the season earn together, and nothing else.
pub proof fn law_claim_pays_what_selections_earn(s: PalletView, origin: Origin, season_id: SeasonId)
    requires
        !crate::model::claim_panics(s, origin, season_id),
        claim_step(s, origin, season_id) is Ok,
    ensures
        ({
            let who = origin.signer->0;
            let acts = claim_step(s, origin, season_id)->Ok_0.1;
            let season = s.seasons[season_id];
            &&& acts.len() == 1
            &&& acts[0] matches TokenAction::Transfer { from, token, amount, to, must_succeed }
            &&& from == season.treasury
            &&& token == s.config.awt_token_id
            &&& to == who
            &&& must_succeed
            &&& amount == earned_total(season, s.winners_of(season_id), s.infos_of(who, season_id).0)
        }),
{
    let who = origin.signer->0;
    let season = s.seasons[season_id];
    let infos = s.infos_of(who, season_id).0;
    let winners = s.winners_of(season_id);
    lemma_claim_total_is_earned(season, winners, infos);
    crate::model::lemma_claim_total_prefix(season, winners, infos, infos.len() as int);
    assert(infos.take(infos.len() as int) =~= infos);
}

/// The points `new` are the points `old` with one more battle, and one more
/// win and three more points where `won`.
pub open spec fn awarded(old: (u8, u8, u32), new: (u8, u8, u32), won: bool) -> bool {
    &&& new.0 == old.0 + 1
    &&& won ==> new.1 == old.1 + 1 && new.2 == old.2 + 3
    &&& !won ==> new.1 == old.1 && new.2 == old.2
}

/// After awarding the first `n` votes of an ordered list, each of their
/// selections is awarded once, and every other selection's points are as
/// they were.
proof fn lemma_points_after_each(
    s: PalletView,
    season: SeasonId,
    battle_id: BattleId,
    abs: crate::types::BattleAbstract,
    winner: NpcId,
    book: Seq<Vote>,
    n: int,
)
    requires
        0 <= n <= book.len(),
        book_sorted(book),
        points_after(s, season, battle_id, abs, winner, book, 0) == s.participant_points,
        forall|j: int|
            #![trigger book[j]]
            0 <= j < book.len() ==> award_fits(
                point_in(
                    points_after(s, season, battle_id, abs, winner, book, j),
                    (season, book[j].who, book[j].index),
                ),
                winner == book[j].npc,
            ),
    ensures
        forall|i: int|
            #![trigger book[i]]
            0 <= i < n ==> awarded(
                point_in(s.participant_points, (season, book[i].who, book[i].index)),
                point_in(
                    points_after(s, season, battle_id, abs, winner, book, n),
                    (season, book[i].who, book[i].index),
                ),
                book[i].npc == winner,
            ),
        forall|key: (SeasonId, AccountId, SelectIndex)|
            (forall|i: int| 0 <= i < n ==> key != (season, #[trigger] book[i].who, book[i].index))
                ==> point_in(points_after(s, season, battle_id, abs, winner, book, n), key)
                == point_in(s.participant_points, key),
    decreases n,
{
    if n > 0 {
        let m = n - 1;
        lemma_points_after_each(s, season, battle_id, abs, winner, book, m);
        crate::model::lemma_points_after_step(s, season, battle_id, abs, winner, book, m);
        let before = points_after(s, season, battle_id, abs, winner, book, m);
        let after = points_after(s, season, battle_id, abs, winner, book, n);
        let km = (season, book[m].who, book[m].index);
        assert forall|i: int| 0 <= i < m implies km != (season, #[trigger] book[i].who, book[i].index) by {
            assert(vote_before(book[i], book[m].who, book[m].index));
        }
        assert(point_in(before, km) == point_in(s.participant_points, km));
        assert(award_fits(point_in(before, km), winner == book[m].npc));
        assert forall|i: int| #![trigger book[i]] 0 <= i < n implies awarded(
            point_in(s.participant_points, (season, book[i].who, book[i].index)),
            point_in(after, (season, book[i].who, book[i].index)),
            book[i].npc == winner,
        ) by {
            if i < m {
                assert(vote_before(book[i], book[m].who, book[m].index));
            }
        }
        assert forall|key: (SeasonId, AccountId, SelectIndex)|
            (forall|i: int| 0 <= i < n ==> key != (season, #[trigger] book[i].who, book[i].index))
            implies point_in(after, key) == point_in(s.participant_points, key) by {
            assert(key != (season, book[m].who, book[m].index));
            assert forall|i: int| 0 <= i < m implies key != (season, #[trigger] book[i].who, book[i].index) by {
                assert(key != (season, book[i].who, book[i].index));
            }
        }
    }
}

/// Awarding the votes of an ordered list awards each of their selections
/// once and leaves every other selection's points as they were.
proof fn lemma_award_points_awards(
    s: PalletView,
    season: SeasonId,
    battle_id: BattleId,
    abs: crate::types::BattleAbstract,
    winner: NpcId,
    book: Seq<Vote>,
)
    requires
        book_sorted(book),
        award_points_fit(s, season, battle_id, abs, winner, book),
    ensures
        ({
            let pp = award_points(s, season, battle_id, abs, winner, book).participant_points;
            &&& forall|i: int|
                #![trigger book[i]]
                0 <= i < book.len() ==> awarded(
                    point_in(s.participant_points, (season, book[i].who, book[i].index)),
                    point_in(pp, (season, book[i].who, book[i].index)),
                    book[i].npc == winner,
                )
            &&& forall|key: (SeasonId, AccountId, SelectIndex)|
                (forall|i: int|
                    0 <= i < book.len() ==> key != (season, #[trigger] book[i].who, book[i].index))
                    ==> point_in(pp, key) == point_in(s.participant_points, key)
        }),
{
    crate::model::lemma_points_after_fit(s, season, battle_id, abs, winner, book);
    lemma_points_after_each(s, season, battle_id, abs, winner, book, book.len() as int);
    assert(points_after(s, season, battle_id, abs, winner, book, book.len() as int)
        == award_points(s, season, battle_id, abs, winner, book).participant_points) by {
        reveal(points_after);
        assert(book.take(book.len() as int) =~= book);
    }
}

/// Settling a battle gives each selection that voted on it one more battle,
/// and one more win and three more points where it chose the winner (the
/// home NPC where it scored more, else the visiting NPC); the points of the
/// selections that did not vote on it stay as they were.
pub proof fn law_settle_awards_votes(s: PalletView, origin: Origin, battle_id: BattleId)
    requires
        !settle_panics(s, origin, battle_id),
        settle_step(s, origin, battle_id) is Ok,
        book_sorted(s.votes_of(battle_id)),
    ensures
        ({
            let b = s.battles[battle_id];
            let winner = if b.home_score->0 > b.visiting_score->0 {
                b.home
            } else {
                b.visiting
            };
            let book = s.votes_of(battle_id);
            let s2 = settle_step(s, origin, battle_id)->Ok_0.0;
            &&& forall|i: int|
                #![trigger book[i]]
                0 <= i < book.len() ==> awarded(
                    s.participant_point_of((b.season, book[i].who, book[i].index)),
                    s2.participant_point_of((b.season, book[i].who, book[i].index)),
                    book[i].npc == winner,
                )
            &&& forall|key: (SeasonId, AccountId, SelectIndex)|
                (forall|i: int|
                    0 <= i < book.len() ==> key != (b.season, #[trigger] book[i].who, book[i].index))
                    ==> s2.participant_point_of(key) == s.participant_point_of(key)
        }),
{
    let b = s.battles[battle_id];
    let (diff, winner, loser) = battle_outcome(b);
    let s1 = npc_point_update(s, b.season, winner, loser, diff, b.battle_type);
    let abs = crate::types::battle_abstract_of(b);
    let book = s1.votes_of(battle_id);
    let s2 = settle_step(s, origin, battle_id)->Ok_0.0;
    assert(book == s.votes_of(battle_id));
    assert(award_points_fit(s1, b.season, battle_id, abs, winner, book));
    assert(s2.participant_points == award_points(s1, b.season, battle_id, abs, winner, book).participant_points) by {
        lemma_award_points_frame(s1, b.season, battle_id, abs, winner, book);
    }
    lemma_award_points_awards(s1, b.season, battle_id, abs, winner, book);
    assert(s1.participant_points == s.participant_points);
    assert(winner == if b.home_score->0 > b.visiting_score->0 {
        b.home
    } else {
        b.visiting
    });
    assert forall|i: int| #![trigger book[i]] 0 <= i < book.len() implies awarded(
        s.participant_point_of((b.season, book[i].who, book[i].index)),
        s2.participant_point_of((b.season, book[i].who, book[i].index)),
        book[i].npc == winner,
    ) by {}
    assert forall|key: (SeasonId, AccountId, SelectIndex)|
        (forall|i: int|
            0 <= i < book.len() ==> key != (b.season, #[trigger] book[i].who, book[i].index))
        implies s2.participant_point_of(key) == s.participant_point_of(key) by {
        assert(point_in(s2.participant_points, key) == point_in(s1.participant_points, key));
    }
}

/// Settling a battle that is no final changes no season.
pub proof fn law_settle_non_final_keeps_seasons(s: PalletView, origin: Origin, battle_id: BattleId)
    requires
        settle_step(s, origin, battle_id) is Ok,
        s.battles[battle_id].battle_type != BattleType::Finals,
    ensures
        settle_step(s, origin, battle_id)->Ok_0.0.seasons == s.seasons,
{
    let b = s.battles[battle_id];
    let (diff, winner, loser) = battle_outcome(b);
    let s1 = npc_point_update(s, b.season, winner, loser, diff, b.battle_type);
    lemma_award_points_frame(
        s1,
        b.season,
        battle_id,
        crate::types::battle_abstract_of(b),
        winner,
        s1.votes_of(battle_id),
    );
}

/// A signed purchase in the open sale of the default season is refused with
/// `TicketAmountError` exactly where it asks for no ticket or would take the
/// buyer's tickets of the season past the maximum; otherwise it goes through
/// where the buyer can pay.
pub proof fn law_buy_ticket_amount_rule(
    s: PalletView,
    origin: Origin,
    amount: u32,
    invite_code: Seq<u8>,
    now: u64,
    balance: Balance,
)
    requires
        origin.signer is Some,
        s.seasons.contains_key(s.default_season),
        now / 1000 < s.seasons[s.default_season].start_time,
        !buy_ticket_overflows(s, origin, amount, invite_code, now, balance),
    ensures
        ({
            let who = origin.signer->0;
            let sid = s.default_season;
            let r = buy_ticket_step(s, origin, amount, invite_code, now, balance);
            let too_many = amount == 0 || s.tickets_of(sid, who).0 + amount
                > s.config.max_ticket_amount;
            &&& too_many ==> r == Err::<(PalletView, Seq<TokenAction>), crate::types::DispatchError>(
                crate::types::DispatchError::Module(Error::TicketAmountError),
            )
            &&& !too_many && s.seasons[sid].ticket_price * amount <= balance ==> r is Ok
        }),
{
}

} // verus!
