use bs_nfts::msg::{
    BankMsg, CollectionInfoResponse, Response, RoyaltyInfoResponse, StdError, native_denom,
};

const PERCENT: u128 = 10_000_000_000_000_000;

fn collection(share: Option<u128>) -> CollectionInfoResponse {
    CollectionInfoResponse {
        creator: String::from("creator"),
        description: String::from("a collection"),
        image: String::from("ipfs://image"),
        external_link: None,
        explicit_content: None,
        start_trading_time: None,
        royalty_info: share.map(|share| RoyaltyInfoResponse {
            payment_address: String::from("bitsong1artist"),
            share,
        }),
    }
}

#[test]
fn no_royalty_info_pays_nothing() {
    let mut res = Response::new();
    let r = collection(None).royalty_payout("bitsong1coll", 1_000, 10, None, &mut res);
    assert_eq!(r, Ok(0));
    assert_eq!(res, Response::new());
}

#[test]
fn zero_share_pays_nothing() {
    let mut res = Response::new();
    let r = collection(Some(0)).royalty_payout("bitsong1coll", 1_000, 2_000, None, &mut res);
    assert_eq!(r, Ok(0));
    assert!(res.messages.is_empty());
    assert!(res.events.is_empty());
}

#[test]
fn royalty_is_paid_and_recorded() {
    let mut res = Response::new();
    let r = collection(Some(10 * PERCENT))
        .royalty_payout("bitsong1coll", 1_000, 20, Some(5), &mut res);
    assert_eq!(r, Ok(100));
    assert_eq!(res.messages.len(), 1);
    match &res.messages[0] {
        BankMsg::Send { to_address, amount } => {
            assert_eq!(to_address, "bitsong1artist");
            assert_eq!(amount.len(), 1);
            assert_eq!(amount[0].amount, 100);
            assert_eq!(amount[0].denom, "ubtsg");
        }
    }
    assert_eq!(res.events.len(), 1);
    let event = &res.events[0];
    assert_eq!(event.ty, "royalty-payout");
    let attrs: Vec<(&str, &str)> = event
        .attributes
        .iter()
        .map(|a| (a.key.as_str(), a.value.as_str()))
        .collect();
    assert_eq!(
        attrs,
        vec![
            ("collection", "bitsong1coll"),
            ("amount", "100ubtsg"),
            ("recipient", "bitsong1artist"),
        ]
    );
}

#[test]
fn royalty_is_rounded_down() {
    let mut res = Response::new();
    // 3.3% of 999 is 32.967
    let r = collection(Some(33 * PERCENT / 10)).royalty_payout("c", 999, 0, None, &mut res);
    assert_eq!(r, Ok(32));
    assert_eq!(res.events[0].attributes[1].value, "32ubtsg");
}

#[test]
fn fees_exceeding_payment_are_refused() {
    let mut res = Response::new();
    let r = collection(Some(10 * PERCENT)).royalty_payout("c", 1_000, 850, Some(51), &mut res);
    assert_eq!(r, Err(StdError::GenericErr { msg: String::from("Fees exceed payment") }));
    assert_eq!(res, Response::new());
}

#[test]
fn fees_equal_to_payment_are_accepted() {
    let mut res = Response::new();
    let r = collection(Some(10 * PERCENT)).royalty_payout("c", 1_000, 850, Some(50), &mut res);
    assert_eq!(r, Ok(100));
}

#[test]
fn small_payment_with_nonzero_share_still_checks_fees() {
    let mut res = Response::new();
    // The royalty rounds down to zero, but the protocol fee still exceeds the payment.
    let r = collection(Some(PERCENT)).royalty_payout("c", 10, 11, None, &mut res);
    assert!(r.is_err());
    let r = collection(Some(PERCENT)).royalty_payout("c", 10, 10, None, &mut res);
    assert_eq!(r, Ok(0));
    assert_eq!(res.messages.len(), 1);
}

#[test]
fn payout_appends_to_existing_response() {
    let mut res = Response::new();
    let info = collection(Some(50 * PERCENT));
    info.royalty_payout("c", 100, 0, None, &mut res).unwrap();
    info.royalty_payout("c", 300, 0, None, &mut res).unwrap();
    assert_eq!(res.messages.len(), 2);
    assert_eq!(res.events.len(), 2);
    assert_eq!(res.events[1].attributes[1].value, "150ubtsg");
}

#[test]
fn whole_share_pays_the_whole_payment() {
    let mut res = Response::new();
    let r = collection(Some(100 * PERCENT)).royalty_payout("c", u128::MAX, 0, None, &mut res);
    assert_eq!(r, Ok(u128::MAX));
}

#[test]
fn native_denom_is_ubtsg() {
    assert_eq!(native_denom(), "ubtsg");
}

#[test]
fn royalty_rises_with_payment_whatever_the_fees() {
    let info = collection(Some(7 * PERCENT));
    let mut last = 0;
    for payment in [0u128, 1, 14, 15, 99, 100, 1_000, 123_456] {
        let mut res = Response::new();
        let r = info.royalty_payout("c", payment, 0, None, &mut res).unwrap();
        assert!(last <= r);
        last = r;
        // The fees and the collection do not change the amount.
        let mut other = Response::new();
        let fee = payment - r;
        assert_eq!(info.royalty_payout("d", payment, fee, Some(0), &mut other), Ok(r));
    }
}
