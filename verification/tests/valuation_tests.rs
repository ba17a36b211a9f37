use options_chart::{calculate_expected_gain_loss, OptionLeg, OptionType, Position, MAX_LEGS};

fn call(strike_price: i32, premium: i32, amount: i32) -> OptionLeg {
    OptionLeg {
        contract_type: OptionType::Call,
        strike_price,
        premium,
        amount,
    }
}

fn put(strike_price: i32, premium: i32, amount: i32) -> OptionLeg {
    OptionLeg {
        contract_type: OptionType::Put,
        strike_price,
        premium,
        amount,
    }
}

fn bought(price: i32, amount_owned: i32, leg: OptionLeg) -> Position {
    Position {
        price,
        amount_owned,
        options_bought: vec![leg],
        options_sold: Vec::new(),
    }
}

fn sold(price: i32, amount_owned: i32, leg: OptionLeg) -> Position {
    Position {
        price,
        amount_owned,
        options_bought: Vec::new(),
        options_sold: vec![leg],
    }
}

#[test]
fn without_options_the_gain_is_the_price_change_on_every_unit() {
    for (price, amount_owned, expected_price) in [
        (1500, 500, 1600),
        (1500, 500, 1500),
        (1500, 500, 1400),
        (1500, -500, 1600),
        (0, 7, 12),
        (1500, 0, 99_999),
        (-20, 3, -50),
    ] {
        let position = Position::no_options(price, amount_owned);
        assert_eq!(
            calculate_expected_gain_loss(&position, expected_price),
            i128::from(expected_price - i64::from(price)) * i128::from(amount_owned)
        );
    }
}

#[test]
fn at_the_reference_price_a_plain_holding_gains_nothing() {
    let position = Position::no_options(1500, 500);
    assert_eq!(calculate_expected_gain_loss(&position, 1500), 0);
}

#[test]
fn a_short_holding_gains_when_the_price_falls() {
    let position = Position::no_options(1500, -100);
    assert_eq!(calculate_expected_gain_loss(&position, 1400), 10_000);
    assert_eq!(calculate_expected_gain_loss(&position, 1600), -10_000);
}

#[test]
fn buyer_and_seller_of_an_unexercised_leg_differ_by_twice_the_premium() {
    let leg = call(1600, 15, 2);
    let buyer = calculate_expected_gain_loss(&bought(1500, 0, leg), 1500);
    let seller = calculate_expected_gain_loss(&sold(1500, 0, leg), 1500);
    assert_eq!(leg.premiums(), 3_000);
    assert_eq!(buyer, -3_000);
    assert_eq!(seller, 3_000);
    assert_eq!(buyer - seller, -2 * leg.premiums());
}

#[test]
fn buyer_and_seller_of_a_leg_mirror_each_other_at_every_price() {
    for leg in [call(1450, 25, 1), put(1450, 25, 1), call(1450, 25, -3), put(0, 0, 5)] {
        for expected_price in [-100, 0, 1300, 1449, 1450, 1451, 1600, 1_000_000] {
            let buyer = calculate_expected_gain_loss(&bought(1500, 0, leg), expected_price);
            let seller = calculate_expected_gain_loss(&sold(1500, 0, leg), expected_price);
            assert_eq!(buyer, -seller);
        }
    }
}

#[test]
fn a_bought_call_has_no_jump_at_its_strike() {
    let position = bought(1500, 100, call(1450, 25, 1));
    assert_eq!(calculate_expected_gain_loss(&position, 1448), -7_700);
    assert_eq!(calculate_expected_gain_loss(&position, 1449), -7_600);
    assert_eq!(calculate_expected_gain_loss(&position, 1450), -7_500);
    assert_eq!(calculate_expected_gain_loss(&position, 1451), -7_300);
    assert_eq!(calculate_expected_gain_loss(&position, 1452), -7_100);
}

#[test]
fn a_bought_put_has_no_jump_at_its_strike() {
    let position = bought(1500, 100, put(1450, 25, 1));
    assert_eq!(calculate_expected_gain_loss(&position, 1452), -7_300);
    assert_eq!(calculate_expected_gain_loss(&position, 1451), -7_400);
    assert_eq!(calculate_expected_gain_loss(&position, 1450), -7_500);
    assert_eq!(calculate_expected_gain_loss(&position, 1449), -7_500);
    assert_eq!(calculate_expected_gain_loss(&position, 1448), -7_500);
}

#[test]
fn a_sold_call_caps_the_gain_of_the_holding() {
    let position = sold(1500, 100, call(1600, 15, 1));
    assert_eq!(calculate_expected_gain_loss(&position, 1600), 11_500);
    assert_eq!(calculate_expected_gain_loss(&position, 1601), 11_500);
    assert_eq!(calculate_expected_gain_loss(&position, 5000), 11_500);
}

#[test]
fn between_strikes_the_payoff_is_a_straight_line() {
    let position = Position {
        price: 1500,
        amount_owned: 100,
        options_bought: vec![put(1450, 25, 1)],
        options_sold: vec![call(1600, 15, 1)],
    };
    let from = calculate_expected_gain_loss(&position, 1451);
    for step in 0..149 {
        assert_eq!(
            calculate_expected_gain_loss(&position, 1451 + step),
            from + 100 * i128::from(step)
        );
    }
}

#[test]
fn each_leg_is_valued_by_its_own_kind_and_side() {
    let position = Position {
        price: 1500,
        amount_owned: 0,
        options_bought: vec![call(1450, 75, 1), put(1350, 5, 1)],
        options_sold: vec![call(1650, 50, 1), put(1550, 85, 1)],
    };
    assert_eq!(calculate_expected_gain_loss(&position, 1300), -14_500);
    assert_eq!(calculate_expected_gain_loss(&position, 1350), -14_500);
    assert_eq!(calculate_expected_gain_loss(&position, 1450), -4_500);
    assert_eq!(calculate_expected_gain_loss(&position, 1500), 5_500);
    assert_eq!(calculate_expected_gain_loss(&position, 1550), 15_500);
    assert_eq!(calculate_expected_gain_loss(&position, 1650), 25_500);
    assert_eq!(calculate_expected_gain_loss(&position, 1725), 25_500);
}

#[test]
fn negative_amounts_are_valued_as_they_stand() {
    let position = bought(1500, -100, call(1450, 25, -1));
    assert_eq!(calculate_expected_gain_loss(&position, 1550), -12_500);
}

#[test]
fn valuation_leaves_the_position_unchanged() {
    let position = bought(1500, 100, call(1450, 25, 1));
    let first = calculate_expected_gain_loss(&position, 1550);
    let second = calculate_expected_gain_loss(&position, 1550);
    assert_eq!(first, 12_500);
    assert_eq!(second, 12_500);
    assert_eq!(position.options_bought, vec![call(1450, 25, 1)]);
}

#[test]
fn the_largest_position_is_valued_without_overflow() {
    let legs = i128::try_from(MAX_LEGS).unwrap();
    let most = i128::from(i32::MAX);
    let least = i128::from(i32::MIN);
    let position = Position {
        price: i32::MIN,
        amount_owned: i32::MAX,
        options_bought: vec![call(i32::MIN, i32::MIN, i32::MAX); MAX_LEGS],
        options_sold: vec![put(i32::MAX, i32::MAX, i32::MIN); MAX_LEGS],
    };
    let expected_price = i64::MAX - 1;
    let premiums = legs * (most * least * 100) - legs * (least * most * 100);
    let bought_cash = legs * -(least * most * 100);
    let sold_cash = 0;
    let units = most + legs * (most * 100);
    let expected =
        premiums + bought_cash - sold_cash + units * i128::from(expected_price) - least * most;
    assert_eq!(
        calculate_expected_gain_loss(&position, expected_price),
        expected
    );

    let expected_price = i64::MIN;
    let sold_cash = legs * (most * least * 100);
    let units = most - legs * -(least * 100);
    let expected = premiums - sold_cash + units * i128::from(expected_price) - least * most;
    assert_eq!(
        calculate_expected_gain_loss(&position, expected_price),
        expected
    );
}
