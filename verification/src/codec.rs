//! Account encodings: invite codes, season treasuries, and lists of
//! addresses handed in by the organizer.
use vstd::prelude::*;
use crate::pallet::Pallet;
use parity_scale_codec::{Decode, Encode};
use sp_runtime::traits::TrailingZeroInput;
use crate::types::{AccountId, SeasonId};

verus! {

/// The SCALE encoding of a `u64`: its eight bytes, least significant first.
pub open spec fn u64_le_bytes(a: u64) -> Seq<u8> {
    seq![
        (a & 0xff) as u8,
        ((a >> 8u64) & 0xff) as u8,
        ((a >> 16u64) & 0xff) as u8,
        ((a >> 24u64) & 0xff) as u8,
        ((a >> 32u64) & 0xff) as u8,
        ((a >> 40u64) & 0xff) as u8,
        ((a >> 48u64) & 0xff) as u8,
        ((a >> 56u64) & 0xff) as u8,
    ]
}

/// The SCALE encoding of a `u32`: its four bytes, least significant first.
pub open spec fn u32_le_bytes(a: u32) -> Seq<u8> {
    seq![
        (a & 0xff) as u8,
        ((a >> 8u32) & 0xff) as u8,
        ((a >> 16u32) & 0xff) as u8,
        ((a >> 24u32) & 0xff) as u8,
    ]
}

/// The first eight bytes of `s`, with zeros after its end: what a decoder
/// reading eight bytes sees of `s` followed by endless zeros.
pub open spec fn pad8(s: Seq<u8>) -> Seq<u8> {
    Seq::new(8, |i: int| if i < s.len() { s[i] } else { 0u8 })
}

/// Two accounts with the same encoding are the same account.
pub proof fn lemma_u64_le_bytes_injective(a: u64, b: u64)
    requires
        u64_le_bytes(a) == u64_le_bytes(b),
    ensures
        a == b,
{
    assert(u64_le_bytes(a)[0] == u64_le_bytes(b)[0]);
    assert(u64_le_bytes(a)[1] == u64_le_bytes(b)[1]);
    assert(u64_le_bytes(a)[2] == u64_le_bytes(b)[2]);
    assert(u64_le_bytes(a)[3] == u64_le_bytes(b)[3]);
    assert(u64_le_bytes(a)[4] == u64_le_bytes(b)[4]);
    assert(u64_le_bytes(a)[5] == u64_le_bytes(b)[5]);
    assert(u64_le_bytes(a)[6] == u64_le_bytes(b)[6]);
    assert(u64_le_bytes(a)[7] == u64_le_bytes(b)[7]);
    assert(((a & 0xff) as u8 == (b & 0xff) as u8 && ((a >> 8u64) & 0xff) as u8 == ((b >> 8u64)
        & 0xff) as u8 && ((a >> 16u64) & 0xff) as u8 == ((b >> 16u64) & 0xff) as u8 && ((a
        >> 24u64) & 0xff) as u8 == ((b >> 24u64) & 0xff) as u8 && ((a >> 32u64) & 0xff) as u8
        == ((b >> 32u64) & 0xff) as u8 && ((a >> 40u64) & 0xff) as u8 == ((b >> 40u64) & 0xff)
        as u8 && ((a >> 48u64) & 0xff) as u8 == ((b >> 48u64) & 0xff) as u8 && ((a >> 56u64)
        & 0xff) as u8 == ((b >> 56u64) & 0xff) as u8) ==> a == b) by (bit_vector);
}

/// The `u64` whose little-endian bytes are the first eight of `s`.
pub open spec fn le_u64(s: Seq<u8>) -> u64 {
    (s[0] as u64) | ((s[1] as u64) << 8u64) | ((s[2] as u64) << 16u64) | ((s[3] as u64) << 24u64)
        | ((s[4] as u64) << 32u64) | ((s[5] as u64) << 40u64) | ((s[6] as u64) << 48u64) | ((
    s[7] as u64) << 56u64)
}

/// Eight bytes are the encoding of the `u64` they stand for.
pub proof fn lemma_le_u64_encodes(s: Seq<u8>)
    requires
        s.len() == 8,
    ensures
        u64_le_bytes(le_u64(s)) == s,
{
    let b0 = s[0];
    let b1 = s[1];
    let b2 = s[2];
    let b3 = s[3];
    let b4 = s[4];
    let b5 = s[5];
    let b6 = s[6];
    let b7 = s[7];
    let x = le_u64(s);
    assert(x == (b0 as u64) | ((b1 as u64) << 8u64) | ((b2 as u64) << 16u64) | ((b3 as u64)
        << 24u64) | ((b4 as u64) << 32u64) | ((b5 as u64) << 40u64) | ((b6 as u64) << 48u64) | ((
    b7 as u64) << 56u64));
    assert((x & 0xff) as u8 == b0 && ((x >> 8u64) & 0xff) as u8 == b1 && ((x >> 16u64) & 0xff)
        as u8 == b2 && ((x >> 24u64) & 0xff) as u8 == b3 && ((x >> 32u64) & 0xff) as u8 == b4 && ((x
        >> 40u64) & 0xff) as u8 == b5 && ((x >> 48u64) & 0xff) as u8 == b6 && ((x >> 56u64) & 0xff)
        as u8 == b7) by (bit_vector)
        requires
            x == (b0 as u64) | ((b1 as u64) << 8u64) | ((b2 as u64) << 16u64) | ((b3 as u64)
                << 24u64) | ((b4 as u64) << 32u64) | ((b5 as u64) << 40u64) | ((b6 as u64) << 48u64)
                | ((b7 as u64) << 56u64),
    ;
    assert(u64_le_bytes(x) =~= s);
}

/// The account of the runtime whose encoding is `pad8(bytes)`.
pub open spec fn account_of_bytes(bytes: Seq<u8>) -> AccountId {
    le_u64(pad8(bytes))
}

/// The account a decoder reads from `bytes` is `account_of_bytes(bytes)`.
pub proof fn lemma_decoded_account(bytes: Seq<u8>, a: AccountId)
    requires
        u64_le_bytes(a) == pad8(bytes),
    ensures
        a == account_of_bytes(bytes),
{
    lemma_le_u64_encodes(pad8(bytes));
    lemma_u64_le_bytes_injective(a, account_of_bytes(bytes));
}

/// The character of a six-bit value in the standard base64 alphabet
/// (`A`-`Z`, `a`-`z`, `0`-`9`, `+`, `/`).
pub open spec fn base64_char(v: int) -> u8 {
    if v < 26 {
        (65 + v) as u8
    } else if v < 52 {
        (97 + v - 26) as u8
    } else if v < 62 {
        (48 + v - 52) as u8
    } else if v == 62 {
        43u8
    } else {
        47u8
    }
}

/// The standard base64 encoding of `b`, padded with `=`: each group of three
/// bytes becomes four characters of six bits each, a last group of one or
/// two bytes two or three characters and the padding.
pub open spec fn base64_encoding(b: Seq<u8>) -> Seq<u8>
    decreases b.len(),
{
    let x = b[0] as int;
    let y = b[1] as int;
    let z = b[2] as int;
    if b.len() == 0 {
        Seq::empty()
    } else if b.len() == 1 {
        seq![base64_char(x / 4), base64_char((x % 4) * 16), 61u8, 61u8]
    } else if b.len() == 2 {
        seq![
            base64_char(x / 4),
            base64_char((x % 4) * 16 + y / 16),
            base64_char((y % 16) * 4),
            61u8,
        ]
    } else {
        seq![
            base64_char(x / 4),
            base64_char((x % 4) * 16 + y / 16),
            base64_char((y % 16) * 4 + z / 64),
            base64_char(z % 64),
        ] + base64_encoding(b.skip(3))
    }
}

/// What `base64::decode` returns for `text`: `None` where it fails.
pub uninterp spec fn base64_decoding(text: Seq<u8>) -> Option<Seq<u8>>;

/// What `sp_io::hashing::blake2_256` returns for `data`.
pub uninterp spec fn blake2_256_digest(data: Seq<u8>) -> Seq<u8>;

/// What SCALE decoding of a `Vec<Vec<u8>>` from `bytes` followed by endless
/// zeros gives, each inner vector by its bytes: `None` where it fails.
pub uninterp spec fn scale_byte_lists(bytes: Seq<u8>) -> Option<Seq<Seq<u8>>>;

/// `base64::encode` (standard alphabet, padded), its string taken as bytes:
/// the encoding `base64_encoding` states.
#[verifier::external_body]
fn base64_encode(bytes: &[u8]) -> (r: Vec<u8>)
    ensures
        r@ == base64_encoding(bytes@),
{
    base64::encode(bytes).into_bytes()
}

/// `base64::decode` (standard alphabet). Its result is named; of it the
/// contract says besides only that decoding what `base64::encode` made gives
/// back the encoded bytes, as the crate's round-trip tests check.
#[verifier::external_body]
fn base64_decode(text: &[u8]) -> (r: Option<Vec<u8>>)
    ensures
        r is Some <==> base64_decoding(text@) is Some,
        r is Some ==> r->0@ == base64_decoding(text@)->0,
        forall|b: Seq<u8>| text@ == base64_encoding(b) ==> (r is Some && r->0@ == b),
{
    match base64::decode(text) {
        Ok(v) => Some(v),
        Err(_) => None,
    }
}

/// `Encode::encode` of parity-scale-codec on a `u64` account: its
/// little-endian bytes.
#[verifier::external_body]
fn encode_account(a: AccountId) -> (r: Vec<u8>)
    ensures
        r@ == u64_le_bytes(a),
{
    a.encode()
}

/// `Decode::decode` of parity-scale-codec of a `u64` account from
/// sp-runtime's `TrailingZeroInput` over `bytes`: reading eight bytes never
/// fails there, and gives the account whose encoding they are.
#[verifier::external_body]
pub(crate) fn decode_account(bytes: &[u8]) -> (r: Option<AccountId>)
    ensures
        r is Some,
        u64_le_bytes(r->0) == pad8(bytes@),
{
    match AccountId::decode(&mut TrailingZeroInput::new(bytes)) {
        Ok(a) => Some(a),
        Err(_) => None,
    }
}

/// `Decode::decode` of parity-scale-codec of a `Vec<Vec<u8>>` from
/// sp-runtime's `TrailingZeroInput` over `bytes`. The result is named. On a
/// length prefix that claims very many entries the decoder may run out of
/// memory; nothing here states that.
#[verifier::external_body]
pub(crate) fn decode_byte_lists(bytes: &[u8]) -> (r: Option<Vec<Vec<u8>>>)
    ensures
        r is Some <==> scale_byte_lists(bytes@) is Some,
        r is Some ==> r->0@.map_values(|v: Vec<u8>| v@) == scale_byte_lists(bytes@)->0,
{
    match <Vec<Vec<u8>>>::decode(&mut TrailingZeroInput::new(bytes)) {
        Ok(v) => Some(v),
        Err(_) => None,
    }
}

/// `Encode::encode` of parity-scale-codec on the pair of a fixed byte array
/// and a `u32`: the array's bytes (fixed arrays carry no length), then the
/// number's four little-endian bytes.
#[verifier::external_body]
fn encode_seed(prefix: &[u8; 33], id: u32) -> (r: Vec<u8>)
    ensures
        r@ == prefix@ + u32_le_bytes(id),
{
    (prefix, id).encode()
}

/// `sp_io::hashing::blake2_256`. Its result is named.
#[verifier::external_body]
fn blake2_256(data: &[u8]) -> (r: [u8; 32])
    ensures
        r@ == blake2_256_digest(data@),
{
    sp_io::hashing::blake2_256(data)
}

/// The reverse of a byte string.
pub fn reverse_bytes(v: &Vec<u8>) -> (r: Vec<u8>)
    ensures
        r@ == v@.reverse(),
{
    let mut r: Vec<u8> = Vec::new();
    let n = v.len();
    let mut i: usize = 0;
    while i < n
        invariant
            n == v.len(),
            i <= n,
            r@.len() == i,
            forall|k: int| 0 <= k < i ==> r@[k] == v@[n - 1 - k],
        decreases n - i,
    {
        r.push(v[n - 1 - i]);
        i = i + 1;
    }
    assert(r@ =~= v@.reverse());
    r
}

/// The invite code of an account: its encoding reversed, in base64.
pub open spec fn invite_code_of(addr: AccountId) -> Seq<u8> {
    base64_encoding(u64_le_bytes(addr).reverse())
}

/// The account that an invite code stands for: `None` where the code is not
/// base64; else the account encoded by the decoded bytes reversed (their
/// first eight, zeros after their end).
pub open spec fn invite_code_account(code: Seq<u8>) -> Option<AccountId> {
    match base64_decoding(code) {
        None => None,
        Some(v) => Some(account_of_bytes(v.reverse())),
    }
}

impl Pallet {
    /// The account that an invite code stands for. A code made by
    /// `addr_to_invite_code` gives back its account.
    pub fn invite_code_to_addr(invite_code: Vec<u8>) -> (r: Option<AccountId>)
        ensures
            r == invite_code_account(invite_code@),
            forall|a: AccountId| invite_code@ == invite_code_of(a) ==> r == Some(a),
    {
        match base64_decode(invite_code.as_slice()) {
            Some(v) => {
                let rev = reverse_bytes(&v);
                let r = decode_account(rev.as_slice());
                proof {
                    lemma_decoded_account(rev@, r->0);
                    assert forall|a: AccountId| invite_code@ == invite_code_of(a) implies r == Some(
                        a,
                    ) by {
                        assert(v@ == u64_le_bytes(a).reverse());
                        assert(rev@ =~= u64_le_bytes(a));
                        assert(pad8(rev@) =~= rev@);
                        lemma_u64_le_bytes_injective(r->0, a);
                    }
                }
                r
            },
            None => {
                proof {
                    assert forall|a: AccountId| invite_code@ != invite_code_of(a) by {}
                }
                None
            },
        }
    }

    /// The invite code of an account.
    pub fn addr_to_invite_code(addr: AccountId) -> (r: Vec<u8>)
        ensures
            r@ == invite_code_of(addr),
    {
        let e = encode_account(addr);
        let rev = reverse_bytes(&e);
        base64_encode(rev.as_slice())
    }
}

/// The bytes hashed for a season's treasury account: a fixed tag and the
/// season's id.
pub open spec fn treasury_seed(season_id: SeasonId) -> Seq<u8> {
    treasury_tag() + u32_le_bytes(season_id)
}

/// The tag `-*-#fusotao-abyssworld-season#-*-`.
pub open spec fn treasury_tag() -> Seq<u8> {
    seq![
        45u8, 42, 45, 35, 102, 117, 115, 111, 116, 97, 111, 45, 97, 98, 121, 115, 115, 119, 111, 114,
        108, 100, 45, 115, 101, 97, 115, 111, 110, 35, 45, 42, 45,
    ]
}

/// The treasury account of a season.
pub open spec fn season_treasury(season_id: SeasonId) -> AccountId {
    account_of_bytes(blake2_256_digest(treasury_seed(season_id)))
}

impl Pallet {
    /// The treasury account of a season: the account encoded by the first eight
    /// bytes of the blake2-256 hash of the season's seed.
    pub fn get_season_treasury(season_id: SeasonId) -> (r: AccountId)
        ensures
            r == season_treasury(season_id),
    {
        let tag: [u8; 33] = [
            45u8, 42, 45, 35, 102, 117, 115, 111, 116, 97, 111, 45, 97, 98, 121, 115, 115, 119, 111, 114,
            108, 100, 45, 115, 101, 97, 115, 111, 110, 35, 45, 42, 45,
        ];
        assert(tag@ =~= treasury_tag());
        let seed = encode_seed(&tag, season_id);
        let h = blake2_256(seed.as_slice());
        let a = decode_account(&h);
        assert(pad8(h@) =~= h@.subrange(0, 8));
        proof {
            lemma_decoded_account(h@, a->0);
        }
        match a {
            Some(x) => x,
            None => 0,
        }
    }
}

} // verus!
