use bs_nfts::text::{decimal_string, text_eq, text_less};

#[test]
fn decimal_matches_to_string() {
    for n in [0u128, 7, 10, 99, 100, 12345, u64::MAX as u128, u128::MAX] {
        assert_eq!(decimal_string(n), n.to_string());
    }
}

#[test]
fn text_order_matches_string_order() {
    let words = ["", "a", "ab", "b", "B", "é", "ab\u{0}", "zz", "z"];
    for a in words {
        for b in words {
            assert_eq!(text_less(a, b), a < b, "{:?} < {:?}", a, b);
            assert_eq!(text_eq(a, b), a == b);
        }
    }
}
