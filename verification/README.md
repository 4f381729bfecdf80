# abyss_tournament

A tournament of NPC battles grouped into seasons. Players buy tickets of a
season with the AWT token (part of each payment goes to the season's
treasury, part to an inviter, the rest to a common treasury), vote on the
winners of battles, earn points as results are settled, and, once the
organizer closes a season, claim a share of its treasury.

The library is written in Verus: every function of `src/`, but the few
trusted wrappers around calls into outside crates, is verified against its
contract.

## Layout

- `src/types.rs`: the data types, their views, errors and events.
- `src/model.rs`: the mathematical model of storage (`PalletView`) and, for
  each extrinsic, a spec function from the state and the call's arguments to
  the outcome: the next state and the token movements, or the error.
- `src/pallet.rs`: the storage (`Pallet`) and its extrinsics, each proved to
  follow its model step exactly; the checks that tell beforehand whether a
  call would overflow or panic.
- `src/codec.rs`, `src/time.rs`, `src/votes.rs`, `src/rewards.rs`: invite
  codes and treasury accounts, dates, duplicate checks, and the arithmetic of
  payments and bonuses.
- `src/laws.rs`: what holds across calls: payments add up, bonuses share the
  treasury, a claim and a settlement happen once, vote lists stay ordered and
  bounded, every ticket stays accounted for (staked plus left equals
  acquired), a selection's points count three per win and no more wins than
  battles, and more.
- `app/lib.rs`: the pallet wired to a runtime, which supplies the time,
  balances and nonces and performs the token movements, undoing an
  extrinsic whose needed movement fails.
- `tests/`: scenarios on concrete values.

The outside crates `base64`, `ascii`, `chrono`, `parity-scale-codec`,
`sp-io` and `sp-runtime` are called from `src/` through small trusted
wrappers whose contracts state what each call returns.
