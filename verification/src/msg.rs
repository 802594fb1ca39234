use vstd::prelude::*;

use crate::text::{decimal, push_char, text_of};

verus! {

/// The number of atomic units in one whole `Decimal` (its eighteen
/// fractional digits).
pub open spec fn decimal_fractional() -> nat {
    1_000_000_000_000_000_000nat
}

/// What `Uint128 * Decimal` computes: the payment scaled by the share,
/// rounded down. `share` is the `Decimal`'s atomic value.
pub open spec fn scaled_amount(payment: nat, share: nat) -> nat {
    payment * share / decimal_fractional()
}

/// A royalty share of at most the whole price (10^18 atomics, 100%) never
/// asks for more than the payment, so computing it cannot overflow.
pub proof fn law_royalty_within_payment(payment: u128, share: u128)
    requires
        share <= decimal_fractional(),
    ensures
        scaled_amount(payment as nat, share as nat) <= payment,
{
    let f = decimal_fractional() as int;
    assert((payment as int) * (share as int) <= (payment as int) * f) by (nonlinear_arith)
        requires
            share <= f,
            0 <= payment,
    ;
    assert((payment as int) * f / f == payment as int) by (nonlinear_arith)
        requires
            f > 0,
    ;
    assert(((payment as int) * (share as int)) / f <= ((payment as int) * f) / f) by (nonlinear_arith)
        requires
            (payment as int) * (share as int) <= (payment as int) * f,
            f > 0,
    ;
}

/// `Uint128 * Decimal` from cosmwasm-std (`multiply_ratio` of the payment
/// by the share's atomics over 10^18): the product, floored. It panics with
/// "Multiplication overflow" when the result does not fit in 128 bits,
/// which `requires` rules out.
#[verifier::external_body]
fn mul_by_decimal(payment: u128, share_atomics: u128) -> (r: u128)
    requires
        scaled_amount(payment as nat, share_atomics as nat) <= u128::MAX,
    ensures
        r == scaled_amount(payment as nat, share_atomics as nat),
{
    (cosmwasm_std::Uint128::new(payment) * cosmwasm_std::Decimal::raw(share_atomics)).u128()
}

/// `coin(amount, denom).to_string()` from cosmwasm-std: `Coin`'s `Display`
/// writes the amount in decimal followed directly by the denomination.
#[verifier::external_body]
fn coin_text(amount: u128, denom: &str) -> (s: String)
    ensures
        s@ == decimal(amount as nat) + denom@,
{
    cosmwasm_std::coin(amount, denom).to_string()
}

/// The staking denomination of the BitSong chain, in which royalties are paid.
pub open spec fn native_denom_spec() -> Seq<char> {
    seq!['u', 'b', 't', 's', 'g']
}

/// Returns the chain's native denomination, `ubtsg`.
pub fn native_denom() -> (d: String)
    ensures
        d@ == native_denom_spec(),
{
    let mut d = String::new();
    push_char(&mut d, 'u');
    push_char(&mut d, 'b');
    push_char(&mut d, 't');
    push_char(&mut d, 's');
    push_char(&mut d, 'g');
    d
}

/// Builds a `String` out of a string slice.
fn owned(s: &str) -> (r: String)
    ensures
        r@ == s@,
{
    s.to_owned()
}

/// An amount of one denomination.
#[derive(Debug, Clone, PartialEq, Eq)]
pub struct Coin {
    pub denom: String,
    pub amount: u128,
}

/// A bank transfer that a contract asks the chain to perform.
#[derive(Debug, Clone, PartialEq, Eq)]
pub enum BankMsg {
    Send { to_address: String, amount: Vec<Coin> },
}

/// A key/value pair of an event.
#[derive(Debug, Clone, PartialEq, Eq)]
pub struct Attribute {
    pub key: String,
    pub value: String,
}

/// A custom event that a contract emits.
#[derive(Debug, Clone, PartialEq, Eq)]
pub struct Event {
    pub ty: String,
    pub attributes: Vec<Attribute>,
}

/// The part of a contract's response that the royalty logic fills: the
/// bank messages to dispatch and the events to emit, in order.
#[derive(Debug, Clone, PartialEq, Eq)]
pub struct Response {
    pub messages: Vec<BankMsg>,
    pub events: Vec<Event>,
}

impl Response {
    /// An empty response.
    pub fn new() -> (r: Response)
        ensures
            r.messages@.len() == 0,
            r.events@.len() == 0,
    {
        Response { messages: Vec::new(), events: Vec::new() }
    }
}

/// The errors of the standard library of contracts.
#[derive(Debug, Clone, PartialEq, Eq)]
pub enum StdError {
    GenericErr { msg: String },
}

/// A point in time, in nanoseconds since the UNIX epoch.
#[derive(Debug, Clone, Copy, PartialEq, Eq)]
pub struct Timestamp {
    pub nanos: u64,
}

/// When an approval lapses.
#[derive(Debug, Clone, Copy, PartialEq, Eq)]
pub enum Expiration {
    /// At the given block height.
    AtHeight(u64),
    /// At the given block time.
    AtTime(Timestamp),
    /// Never.
    Never,
}

/// Who receives royalties, and which fraction of a sale price they get.
#[derive(Debug, Clone, PartialEq, Eq)]
pub struct RoyaltyInfoResponse {
    /// Receives the royalties.
    pub payment_address: String,
    /// The fraction of the sale price paid as royalty, as the atomic value
    /// of a `Decimal` (units of 10^-18: 10^18 is the whole price).
    pub share: u128,
}

/// This is like Bs721ExecuteMsg but we add a Mint command for an owner
/// to make this stand-alone. You will likely want to remove mint and
/// use other control logic in any contract that inherits this.
#[derive(Debug, Clone, PartialEq, Eq)]
pub enum ExecuteMsg<T, E> {
    /// Transfer is a base message to move a token to another account without triggering actions
    TransferNft { recipient: String, token_id: String },
    /// Send is a base message to transfer a token to a contract and trigger an action
    /// on the receiving contract.
    SendNft { contract: String, token_id: String, msg: Vec<u8> },
    /// Allows operator to transfer / send the token from the owner's account.
    /// If expiration is set, then this allowance has a time/height limit
    Approve { spender: String, token_id: String, expires: Option<Expiration> },
    /// Remove previously granted Approval
    Revoke { spender: String, token_id: String },
    /// Allows operator to transfer / send any token from the owner's account.
    /// If expiration is set, then this allowance has a time/height limit
    ApproveAll { operator: String, expires: Option<Expiration> },
    /// Remove previously granted ApproveAll permission
    RevokeAll { operator: String },
    /// Mint a new NFT, can only be called by the contract minter
    Mint(MintMsg<T>),
    /// Set a new minter
    SetMinter { new_minter: String },
    /// Burn an NFT the sender has access to
    Burn { token_id: String },
    /// Extension msg
    Extension { msg: E },
}

/// The data of a token to mint.
#[derive(Debug, Clone, PartialEq, Eq)]
pub struct MintMsg<T> {
    /// Unique ID of the NFT
    pub token_id: String,
    /// The owner of the newly minted NFT
    pub owner: String,
    /// Universal resource identifier for this NFT
    /// Should point to a JSON file that conforms to the ERC721
    /// Metadata JSON Schema
    pub token_uri: Option<String>,
    /// Seller fee basis points, 0-10000
    /// 0 means no fee, 100 means 1%, 10000 means 100%
    /// This is the fee paid by the buyer to the creator of the collection
    pub seller_fee_bps: Option<u16>,
    /// Payment address, is the address that will receive the payment
    pub payment_addr: Option<String>,
    /// Any custom extension used by this contract
    pub extension: T,
}

/// The queries of a collection.
#[derive(Debug, Clone, PartialEq, Eq)]
pub enum QueryMsg<Q> {
    /// Return the owner of the given token, error if token does not exist
    OwnerOf {
        token_id: String,
        /// unset or false will filter out expired approvals, you must set to true to see them
        include_expired: Option<bool>,
    },
    /// Return operator that can access all of the owner's tokens.
    Approval { token_id: String, spender: String, include_expired: Option<bool> },
    /// Return approvals that a token has
    Approvals { token_id: String, include_expired: Option<bool> },
    /// List all operators that can access all of the owner's tokens
    AllOperators {
        owner: String,
        /// unset or false will filter out expired items, you must set to true to see them
        include_expired: Option<bool>,
        start_after: Option<String>,
        limit: Option<u32>,
    },
    /// Total number of tokens issued
    NumTokens {},
    /// With MetaData Extension.
    /// Returns top-level metadata about the contract
    ContractInfo {},
    /// With MetaData Extension.
    /// Returns metadata about one particular token, based on *ERC721 Metadata JSON Schema*
    /// but directly from the contract
    NftInfo { token_id: String },
    /// With MetaData Extension.
    /// Returns the result of both `NftInfo` and `OwnerOf` as one query as an optimization
    /// for clients
    AllNftInfo {
        token_id: String,
        /// unset or false will filter out expired approvals, you must set to true to see them
        include_expired: Option<bool>,
    },
    /// With Enumerable extension.
    /// Returns all tokens owned by the given address, [] if unset.
    Tokens { owner: String, start_after: Option<String>, limit: Option<u32> },
    /// With Enumerable extension.
    /// Requires pagination. Lists all token_ids controlled by the contract.
    AllTokens { start_after: Option<String>, limit: Option<u32> },
    /// Return the minter
    Minter {},
    /// Returns the collection's metadata and royalty settings.
    CollectionInfo {},
    /// Extension query
    Extension { msg: Q },
}

/// Shows who can mint these tokens
#[derive(Debug, Clone, PartialEq, Eq)]
pub struct MinterResponse {
    pub minter: String,
}

/// The data of a token to create.
#[derive(Debug, Clone, PartialEq, Eq)]
pub enum NftParams<T> {
    NftData { token_id: String, owner: String, token_uri: Option<String>, extension: T },
}

/// The collection's metadata and royalty settings.
#[derive(Debug, Clone, PartialEq, Eq)]
pub struct CollectionInfoResponse {
    pub creator: String,
    pub description: String,
    pub image: String,
    pub external_link: Option<String>,
    pub explicit_content: Option<bool>,
    pub start_trading_time: Option<Timestamp>,
    pub royalty_info: Option<RoyaltyInfoResponse>,
}

/// The finder's fee, zero when there is none.
pub open spec fn fee_or_zero(fee: Option<u128>) -> nat {
    match fee {
        Some(f) => f as nat,
        None => 0,
    }
}

/// The message that pays `amount` of `denom` to `to`.
pub open spec fn is_payment(m: BankMsg, to: Seq<char>, amount: u128, denom: Seq<char>) -> bool {
    match m {
        BankMsg::Send { to_address, amount: coins } => {
            &&& to_address@ == to
            &&& coins@.len() == 1
            &&& coins@[0].amount == amount
            &&& coins@[0].denom@ == denom
        },
    }
}

/// An attribute with the given key and value.
pub open spec fn is_attribute(a: Attribute, key: Seq<char>, value: Seq<char>) -> bool {
    a.key@ == key && a.value@ == value
}

/// The event that records a royalty payout of `amount` (in the native
/// denomination) for `collection` to `recipient`.
pub open spec fn is_payout_event(
    e: Event,
    collection: Seq<char>,
    amount: u128,
    recipient: Seq<char>,
) -> bool {
    &&& e.ty@ == seq!['r', 'o', 'y', 'a', 'l', 't', 'y', '-', 'p', 'a', 'y', 'o', 'u', 't']
    &&& e.attributes@.len() == 3
    &&& is_attribute(e.attributes@[0], seq!['c', 'o', 'l', 'l', 'e', 'c', 't', 'i', 'o', 'n'], collection)
    &&& is_attribute(
        e.attributes@[1],
        seq!['a', 'm', 'o', 'u', 'n', 't'],
        decimal(amount as nat) + native_denom_spec(),
    )
    &&& is_attribute(
        e.attributes@[2],
        seq!['r', 'e', 'c', 'i', 'p', 'i', 'e', 'n', 't'],
        recipient,
    )
}

/// The message text of the error for a sale whose fees exceed its price.
pub open spec fn fees_exceed_payment_text() -> Seq<char> {
    seq!['F', 'e', 'e', 's', ' ', 'e', 'x', 'c', 'e', 'e', 'd', ' ', 'p', 'a', 'y', 'm', 'e', 'n', 't']
}

/// The royalty owed on a sale of `payment`, if the collection has a
/// non-zero royalty share.
pub open spec fn owed_royalty(info: Option<RoyaltyInfoResponse>, payment: u128) -> Option<nat> {
    match info {
        Some(ri) => if ri.share == 0 {
            None
        } else {
            Some(scaled_amount(payment as nat, ri.share as nat))
        },
        None => None,
    }
}

/// A royalty is owed exactly when the collection has royalty settings with
/// a non-zero share, however small, and it is then the payment times the
/// share's atomics over 10^18, rounded down.
pub proof fn law_owed_royalty(info: Option<RoyaltyInfoResponse>, payment: u128)
    ensures
        info is None ==> owed_royalty(info, payment) is None,
        info matches Some(ri) ==> (ri.share == 0 <==> owed_royalty(info, payment) is None),
        info matches Some(ri) ==> (ri.share != 0 ==> owed_royalty(info, payment) == Some(
            ((payment as nat) * (ri.share as nat) / 1_000_000_000_000_000_000nat) as nat,
        )),
{
}

/// The finder's fee counts at its full value, and as nothing when absent.
pub proof fn law_fee_or_zero(f: u128)
    ensures
        fee_or_zero(Some(f)) == f,
        fee_or_zero(None) == 0,
{
}

/// The royalty owed on a sale depends on the payment and the share alone,
/// and never falls as the payment rises: of two sales of one collection,
/// the larger payment owes at least as much royalty. (The protocol fee,
/// the finder's fee, the collection address and what the response already
/// holds play no part in the amount; `royalty_payout` returns this amount
/// whenever it succeeds with a non-zero share.)
pub proof fn law_royalty_rises_with_payment(info: CollectionInfoResponse, p1: u128, p2: u128)
    requires
        p1 <= p2,
        owed_royalty(info.royalty_info, p1) is Some,
    ensures
        owed_royalty(info.royalty_info, p2) is Some,
        owed_royalty(info.royalty_info, p1).unwrap() <= owed_royalty(info.royalty_info, p2).unwrap(),
{
    let share = info.royalty_info.unwrap().share as int;
    let f = decimal_fractional() as int;
    assert((p1 as int) * share <= (p2 as int) * share) by (nonlinear_arith)
        requires
            p1 <= p2,
            0 <= share,
    ;
    assert(((p1 as int) * share) / f <= ((p2 as int) * share) / f) by (nonlinear_arith)
        requires
            (p1 as int) * share <= (p2 as int) * share,
            f > 0,
    ;
}

impl CollectionInfoResponse {
    /// Pays the collection's royalty on a sale of `payment`.
    ///
    /// Without royalty settings, or with a zero share, nothing is owed: the
    /// result is `Ok(0)` and `res` is left alone. Otherwise the royalty is
    /// `payment * share`, rounded down; if the protocol fee, the finder's fee
    /// and the royalty together exceed the payment the sale is refused with
    /// "Fees exceed payment" and `res` is left alone; else a bank transfer
    /// of the royalty to the payment address and a `royalty-payout` event
    /// are appended to `res`, and the royalty is returned.
    pub fn royalty_payout(
        &self,
        collection: &str,
        payment: u128,
        protocol_fee: u128,
        finders_fee: Option<u128>,
        res: &mut Response,
    ) -> (r: Result<u128, StdError>)
        requires
            owed_royalty(self.royalty_info, payment) matches Some(royalty) ==> {
                &&& royalty <= u128::MAX
                &&& protocol_fee + fee_or_zero(finders_fee) + royalty <= u128::MAX
            },
        ensures
            match owed_royalty(self.royalty_info, payment) {
                None => r == Ok::<u128, StdError>(0) && *final(res) == *old(res),
                Some(royalty) => if payment < protocol_fee + fee_or_zero(finders_fee) + royalty {
                    &&& r matches Err(StdError::GenericErr { msg }) && msg@
                        == fees_exceed_payment_text()
                    &&& *final(res) == *old(res)
                } else {
                    let ri = self.royalty_info.unwrap();
                    &&& r == Ok::<u128, StdError>(royalty as u128)
                    &&& final(res).messages@.len() == old(res).messages@.len() + 1
                    &&& final(res).messages@.drop_last() == old(res).messages@
                    &&& is_payment(
                        final(res).messages@.last(),
                        ri.payment_address@,
                        royalty as u128,
                        native_denom_spec(),
                    )
                    &&& final(res).events@.len() == old(res).events@.len() + 1
                    &&& final(res).events@.drop_last() == old(res).events@
                    &&& is_payout_event(
                        final(res).events@.last(),
                        collection@,
                        royalty as u128,
                        ri.payment_address@,
                    )
                },
            },
            self.royalty_info is None ==> r == Ok::<u128, StdError>(0) && *final(res) == *old(res),
            self.royalty_info matches Some(ri) ==> (ri.share == 0 ==> r == Ok::<u128, StdError>(0)
                && *final(res) == *old(res)),
            self.royalty_info matches Some(ri) ==> (ri.share != 0 ==> {
                let royalty = (payment as int) * (ri.share as int) / 1_000_000_000_000_000_000int;
                let finders: int = match finders_fee {
                    Some(f) => f as int,
                    None => 0,
                };
                &&& (payment < protocol_fee + finders + royalty <==> r is Err)
                &&& (r is Err ==> *final(res) == *old(res))
                &&& (r is Ok ==> r == Ok::<u128, StdError>(royalty as u128)
                    && final(res).messages@.len() == old(res).messages@.len() + 1
                    && final(res).events@.len() == old(res).events@.len() + 1)
            }),
    {
        match &self.royalty_info {
            Some(royalty_info) => {
                if royalty_info.share == 0 {
                    return Ok(0);
                }
                let royalty = mul_by_decimal(payment, royalty_info.share);
                let finders = match finders_fee {
                    Some(f) => f,
                    None => 0,
                };
                if payment < protocol_fee + finders + royalty {
                    let msg = text_of(
                        &['F', 'e', 'e', 's', ' ', 'e', 'x', 'c', 'e', 'e', 'd', ' ', 'p', 'a', 'y', 'm', 'e', 'n', 't'],
                    );
                    return Err(StdError::GenericErr { msg });
                }
                let denom = native_denom();
                let send = BankMsg::Send {
                    to_address: royalty_info.payment_address.clone(),
                    amount: vec![Coin { denom: denom.clone(), amount: royalty }],
                };
                res.messages.push(send);
                let attributes = vec![
                    Attribute {
                        key: text_of(&['c', 'o', 'l', 'l', 'e', 'c', 't', 'i', 'o', 'n']),
                        value: owned(collection),
                    },
                    Attribute {
                        key: text_of(&['a', 'm', 'o', 'u', 'n', 't']),
                        value: coin_text(royalty, denom.as_str()),
                    },
                    Attribute {
                        key: text_of(&['r', 'e', 'c', 'i', 'p', 'i', 'e', 'n', 't']),
                        value: royalty_info.payment_address.clone(),
                    },
                ];
                let event = Event {
                    ty: text_of(
                        &['r', 'o', 'y', 'a', 'l', 't', 'y', '-', 'p', 'a', 'y', 'o', 'u', 't'],
                    ),
                    attributes,
                };
                res.events.push(event);
                Ok(royalty)
            },
            None => Ok(0),
        }
    }
}

} // verus!
