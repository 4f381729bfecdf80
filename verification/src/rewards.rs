//! The arithmetic of ticket payments and season bonuses.
use vstd::prelude::*;
use crate::types::Balance;

verus! {

/// The share of a ticket payment that goes to the season's treasury: 85%.
pub open spec fn bonus_share(m: int) -> int {
    m * 85 / 100
}

/// The share of a ticket payment that goes to the inviter: 5%.
pub open spec fn invitor_share(m: int) -> int {
    m * 5 / 100
}

/// The part of a season's treasury for the champions: seven eighths.
pub open spec fn champion_share(b: int) -> int {
    b * 7 / 8
}

/// What one ticket earns out of `pool`, shared by `winners` tickets: the
/// pool divided by the tickets, at most a hundred ticket prices.
pub open spec fn ticket_bonus(pool: int, winners: int, price: int) -> int {
    if pool / winners > price * 100 {
        price * 100
    } else {
        pool / winners
    }
}

/// The treasury's share of a ticket payment of `m`.
pub fn bonus_part(m: Balance) -> (r: Balance)
    requires
        m * 85 <= Balance::MAX,
    ensures
        r == bonus_share(m as int),
{
    m * 85 / 100
}

/// The inviter's share of a ticket payment of `m`.
pub fn invitor_part(m: Balance) -> (r: Balance)
    requires
        m * 5 <= Balance::MAX,
    ensures
        r == invitor_share(m as int),
{
    m * 5 / 100
}

/// The treasury's and the inviter's shares never exceed the payment, so the
/// rest of it, which goes to the bvb treasury, is what they leave.
pub proof fn lemma_shares_fit(m: int)
    requires
        m >= 0,
    ensures
        0 <= bonus_share(m),
        0 <= invitor_share(m),
        bonus_share(m) + invitor_share(m) <= m,
{
    assert(m * 85 / 100 + m * 5 / 100 <= m) by (nonlinear_arith)
        requires
            m >= 0,
    ;
    assert(m * 85 / 100 >= 0 && m * 5 / 100 >= 0) by (nonlinear_arith)
        requires
            m >= 0,
    ;
}

/// The champions' and runners-up's parts of a treasury balance `b`.
pub fn season_bonus_split(b: Balance) -> (r: (Balance, Balance))
    requires
        b * 7 <= Balance::MAX,
    ensures
        r.0 == champion_share(b as int),
        r.1 == b - champion_share(b as int),
        r.0 + r.1 == b,
{
    assert(b * 7 / 8 <= b) by (nonlinear_arith);
    let c = b * 7 / 8;
    (c, b - c)
}

/// What one ticket earns out of `pool`, shared by `winners` tickets.
pub fn bonus_per_ticket(pool: Balance, winners: u32, price: Balance) -> (r: Balance)
    requires
        winners > 0,
        price * 100 <= Balance::MAX,
    ensures
        r == ticket_bonus(pool as int, winners as int, price as int),
        r <= price * 100,
{
    let per = pool / (winners as u128);
    if per > price * 100 {
        price * 100
    } else {
        per
    }
}

} // verus!
