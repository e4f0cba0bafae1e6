use txn::Amount;

#[test]
fn test_amount_from_str() {
    assert_eq!(Amount::from_str("0"), Some(Amount::new(0))); // zero
    assert_eq!(Amount::from_str("123"), Some(Amount::new(123_0000))); // simple int
    assert_eq!(Amount::from_str("456.7891"), Some(Amount::new(456_7891))); // simple fraction
    assert_eq!(Amount::from_str("1.5"), Some(Amount::new(1_5000))); // less than 4 decimal places
    assert_eq!(Amount::from_str("-987"), Some(Amount::new(-987_0000))); // simple negative
    assert_eq!(Amount::from_str("-1000.0001"), Some(Amount::new(-1000_0001))); // negative fraction
    assert_eq!(Amount::from_str("-0.0001"), Some(Amount::new(-0_0001))); // sign kept when the integer part is zero
    assert_eq!(
        Amount::from_str("922337203685477.5807"),
        Some(Amount::new(922337203685477_5807))
    ); // max i64
    assert_eq!(
        Amount::from_str("-922337203685477.5808"),
        Some(Amount::new(-922337203685477_5808))
    ); // min i64

    assert_eq!(Amount::from_str("922337203685477.5808"), None); // overflow
    assert_eq!(Amount::from_str("duck"), None); // not a number
    assert_eq!(Amount::from_str("-duck.42"), None); // the duck put on a disguise
    assert_eq!(Amount::from_str("-42.duck"), None); // the duck tried a different disguise
}

#[test]
fn display_has_sign_and_four_digits() {
    assert_eq!(Amount::new(0).to_string(), "0.0000");
    assert_eq!(Amount::new(1_5000).to_string(), "1.5000");
    assert_eq!(Amount::new(-1000_0001).to_string(), "-1000.0001");
    assert_eq!(Amount::new(-1).to_string(), "-0.0001");
    assert_eq!(Amount::new(i64::MAX).to_string(), "922337203685477.5807");
    assert_eq!(Amount::new(i64::MIN).to_string(), "-922337203685477.5808");
}

#[test]
fn display_then_parse_round_trips() {
    for v in [0i64, 1, -1, 9999, -9999, 10000, 123_4567, -123_4567, i64::MAX, i64::MIN] {
        let a = Amount::new(v);
        let text = a.to_string();
        let back = Amount::from_str(&text).unwrap();
        assert_eq!(back, a);
        assert_eq!(back.to_string(), text);
    }
}

#[test]
fn extra_fraction_digits_are_truncated() {
    assert_eq!(Amount::from_str("1.23456"), Amount::from_str("1.2345"));
    assert_eq!(Amount::from_str("1.23459"), Some(Amount::new(1_2345)));
    assert_eq!(Amount::from_str("-2.99999"), Some(Amount::new(-2_9999)));
}

#[test]
fn parse_edge_cases() {
    assert_eq!(Amount::from_str(""), None);
    assert_eq!(Amount::from_str("-"), None);
    assert_eq!(Amount::from_str(".5"), None);
    assert_eq!(Amount::from_str("5."), Some(Amount::new(5_0000)));
    assert_eq!(Amount::from_str("+5"), Some(Amount::new(5_0000)));
    assert_eq!(Amount::from_str("1.2.3"), None);
    assert_eq!(Amount::from_str("007.25"), Some(Amount::new(7_2500)));
    assert_eq!(Amount::from_str("922337203685478"), None);
    assert_eq!(Amount::from_str("99999999999999999999"), None);
}

#[test]
fn checked_arithmetic_reports_overflow() {
    let max = Amount::new(i64::MAX);
    let one = Amount::new(1);
    assert_eq!(one.add(one).unwrap(), Amount::new(2));
    assert_eq!(one.sub(Amount::new(3)).unwrap(), Amount::new(-2));
    assert_eq!(one.neg().unwrap(), Amount::new(-1));
    let e = max.add(one).unwrap_err();
    assert_eq!(e.lhs, max);
    assert_eq!(e.rhs, Some(one));
    assert_eq!(e.op, "+");
    let e = Amount::new(i64::MIN).sub(one).unwrap_err();
    assert_eq!(e.op, "-");
    let e = Amount::new(i64::MIN).neg().unwrap_err();
    assert_eq!(e.rhs, None);
    assert_eq!(e.op, "-");
}
