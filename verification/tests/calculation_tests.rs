use options_chart::{calculate_expected_gain_loss, OptionLeg, OptionType, Position};

// Prices are counted in hundredths of a currency unit, amounts in whole
// shares and contracts; money is then counted in hundredths too.

fn ticks(price: f64) -> i32 {
    (price * 100.0).round() as i32
}

fn at(price: f64) -> i64 {
    i64::from(ticks(price))
}

fn lots(amount: f64) -> i32 {
    amount.round() as i32
}

fn currency(money: i128) -> f64 {
    money as f64 / 100.0
}

#[test]
fn calculation_tests_no_options() {
    let position = Position::no_options(ticks(15.0), lots(500.0));
    assert_eq!(
        currency(calculate_expected_gain_loss(&position, at(16.0))),
        500.0
    );
}

#[test]
fn calculation_tests_with_worthless_options() {
    let position = Position {
        price: ticks(15.0),
        amount_owned: lots(100.0),
        options_bought: vec![OptionLeg {
            strike_price: ticks(14.5),
            contract_type: OptionType::Put,
            amount: lots(1.0),
            premium: ticks(0.25),
        }],
        options_sold: vec![OptionLeg {
            strike_price: ticks(16.0),
            contract_type: OptionType::Call,
            amount: lots(1.0),
            premium: ticks(0.15),
        }],
    };
    assert_eq!(
        currency(calculate_expected_gain_loss(&position, at(15.5))),
        40.0
    );
}

#[test]
fn calculation_tests_with_exercised_sold_call_option() {
    let position = Position {
        price: ticks(15.0),
        amount_owned: lots(100.0),
        options_bought: vec![OptionLeg {
            strike_price: ticks(14.5),
            contract_type: OptionType::Put,
            amount: lots(1.0),
            premium: ticks(0.25),
        }],
        options_sold: vec![OptionLeg {
            strike_price: ticks(16.0),
            contract_type: OptionType::Call,
            amount: lots(1.0),
            premium: ticks(0.15),
        }],
    };
    assert_eq!(
        currency(calculate_expected_gain_loss(&position, at(16.5))),
        90.0
    );
}

#[test]
fn calculation_tests_with_exercised_bought_call_option() {
    let position = Position {
        price: ticks(15.0),
        amount_owned: lots(100.0),
        options_bought: vec![OptionLeg {
            strike_price: ticks(14.5),
            contract_type: OptionType::Call,
            amount: lots(1.0),
            premium: ticks(0.25),
        }],
        ..Position::default()
    };
    assert_eq!(
        currency(calculate_expected_gain_loss(&position, at(15.5))),
        125.0
    );
}

#[test]
fn calculation_tests_with_exercised_sold_put_option() {
    let position = Position {
        price: ticks(15.0),
        amount_owned: lots(100.0),
        options_sold: vec![OptionLeg {
            strike_price: ticks(14.5),
            contract_type: OptionType::Put,
            amount: lots(1.0),
            premium: ticks(0.25),
        }],
        ..Position::default()
    };
    assert_eq!(
        currency(calculate_expected_gain_loss(&position, at(13.0))),
        -325.0
    );
}

#[test]
fn calculation_tests_with_exercised_bought_put_option() {
    let position = Position {
        price: ticks(15.0),
        amount_owned: lots(100.0),
        options_bought: vec![OptionLeg {
            strike_price: ticks(14.5),
            contract_type: OptionType::Put,
            amount: lots(1.0),
            premium: ticks(0.25),
        }],
        ..Position::default()
    };
    assert_eq!(
        currency(calculate_expected_gain_loss(&position, at(13.0))),
        -75.0
    );
}

#[test]
fn calculation_tests_with_no_equity_owned() {
    let position = Position {
        price: ticks(15.0),
        amount_owned: lots(0.0),
        options_bought: vec![
            OptionLeg {
                strike_price: ticks(14.5),
                contract_type: OptionType::Call,
                amount: lots(1.0),
                premium: ticks(0.75),
            },
            OptionLeg {
                strike_price: ticks(13.5),
                contract_type: OptionType::Put,
                amount: lots(1.0),
                premium: ticks(0.05),
            },
        ],
        options_sold: vec![
            OptionLeg {
                strike_price: ticks(16.5),
                contract_type: OptionType::Call,
                amount: lots(1.0),
                premium: ticks(0.5),
            },
            OptionLeg {
                strike_price: ticks(15.5),
                contract_type: OptionType::Put,
                amount: lots(1.0),
                premium: ticks(0.85),
            },
        ],
    };
    assert_eq!(
        currency(calculate_expected_gain_loss(&position, at(13.0))),
        -145.0
    );
}
