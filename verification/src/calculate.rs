//! The valuation: what a position gains or loses if the underlying reaches a
//! given price at expiry.
//!
//! The price may be given in ticks, and the gain is then counted in ticks
//! times lots; or in steps of a chart's axis, and the gain is then counted in
//! steps times lots. Both are one valuation, of the position with its prices
//! counted in the unit of the price given.
use crate::models::{
    leg_views, lemma_product_bound, lemma_scaled_bound, OptionLeg, OptionLegView, Position,
    PositionView, CHART_STEPS_PER_TICK, MAX_LEGS,
};
use vstd::prelude::*;

verus! {

/// The premiums of all `legs` together.
pub open spec fn total_premiums(legs: Seq<OptionLegView>) -> int
    decreases legs.len(),
{
    if legs.len() == 0 {
        0
    } else {
        total_premiums(legs.drop_last()) + legs.last().premiums()
    }
}

/// The units of the underlying that the holder of `legs` gains by exercising
/// those in the money at `expected_price`.
pub open spec fn exercised_amount(legs: Seq<OptionLegView>, expected_price: int) -> int
    decreases legs.len(),
{
    if legs.len() == 0 {
        0
    } else {
        exercised_amount(legs.drop_last(), expected_price) + if legs.last().should_exercise(
            expected_price,
        ) {
            legs.last().amount_change()
        } else {
            0
        }
    }
}

/// The cash that the holder of `legs` receives by exercising those in the
/// money at `expected_price`.
pub open spec fn exercised_cash(legs: Seq<OptionLegView>, expected_price: int) -> int
    decreases legs.len(),
{
    if legs.len() == 0 {
        0
    } else {
        exercised_cash(legs.drop_last(), expected_price) + if legs.last().should_exercise(
            expected_price,
        ) {
            legs.last().cash_change()
        } else {
            0
        }
    }
}

impl PositionView {
    /// What the holding cost at the reference price.
    pub open spec fn cost_basis(self) -> int {
        self.price * self.amount_owned
    }

    /// Premiums received for the legs sold less premiums paid for the legs
    /// bought.
    pub open spec fn net_premiums(self) -> int {
        total_premiums(self.options_sold) - total_premiums(self.options_bought)
    }

    /// Cash from exercise at `expected_price`: the legs bought are exercised
    /// by the position's owner, the legs sold against the owner.
    pub open spec fn net_proceeds(self, expected_price: int) -> int {
        exercised_cash(self.options_bought, expected_price) - exercised_cash(
            self.options_sold,
            expected_price,
        )
    }

    /// Units of the underlying held once every leg in the money at
    /// `expected_price` has been exercised.
    pub open spec fn amount_still_owned(self, expected_price: int) -> int {
        self.amount_owned + exercised_amount(self.options_bought, expected_price)
            - exercised_amount(self.options_sold, expected_price)
    }

    /// The gain (negative: loss) of the position if the underlying stands at
    /// `expected_price` at expiry: premiums, exercise cash flows and the value
    /// of what is then held, less what the holding cost.
    pub open spec fn expected_gain_loss(self, expected_price: int) -> int {
        self.net_premiums() + self.net_proceeds(expected_price) + self.amount_still_owned(
            expected_price,
        ) * expected_price - self.cost_basis()
    }
}

/// The largest magnitude of one leg's premium total or exercise cash flow,
/// counted in the finest unit: twenty times a hundred times the product of
/// two 32-bit quantities.
#[verifier::inline]
spec fn leg_cash_bound() -> int {
    0x1F4_0000_0000_0000_0000int
}

/// The largest magnitude of one leg's change in units held.
#[verifier::inline]
spec fn leg_amount_bound() -> int {
    100 * 0x8000_0000int
}

/// The models of `legs` with their prices counted in a unit of which
/// `factor` make a tick.
spec fn scaled_views(legs: Seq<OptionLeg>, factor: int) -> Seq<OptionLegView> {
    leg_views(legs).map_values(|leg: OptionLegView| leg.scaled(factor))
}

/// The first `n + 1` legs are the first `n` and the one after them.
proof fn lemma_take_next(legs: Seq<OptionLeg>, factor: int, n: int)
    requires
        0 <= n < legs.len(),
    ensures
        scaled_views(legs, factor).take(n + 1).drop_last() == scaled_views(legs, factor).take(n),
        scaled_views(legs, factor).take(n + 1).last() == legs[n]@.scaled(factor),
{
}

/// In a unit of which `factor` make a tick, the premiums and the exercise
/// cash of a leg are `factor` times what they are in ticks, and the units it
/// delivers are the same.
pub proof fn lemma_scaled_leg(leg: OptionLegView, factor: int)
    ensures
        leg.scaled(factor).premiums() == leg.premiums() * factor,
        leg.scaled(factor).cash_change() == leg.cash_change() * factor,
        leg.scaled(factor).amount_change() == leg.amount_change(),
{
    assert(leg.premium * factor * leg.amount * 100 == leg.premium * leg.amount * 100 * factor)
        by (nonlinear_arith);
    assert(leg.strike_price * factor * leg.amount * 100 == leg.strike_price * leg.amount * 100
        * factor) by (nonlinear_arith);
    assert(-(leg.strike_price * leg.amount * 100 * factor) == (-(leg.strike_price * leg.amount
        * 100)) * factor) by (nonlinear_arith);
}

/// The product of the units held and a price stays within 125 bits.
proof fn lemma_holding_value_bound(amount: int, price: int)
    by (nonlinear_arith)
    requires
        -0x2000_0000_0000_0000 <= amount <= 0x2000_0000_0000_0000,
        -0x8000_0000_0000_0000 <= price <= 0x8000_0000_0000_0000,
    ensures
        -0x1000_0000_0000_0000_0000_0000_0000_0000 <= amount * price
            <= 0x1000_0000_0000_0000_0000_0000_0000_0000,
{
}

/// The gain or loss of `position` if the underlying stands at `price` at
/// expiry, where `price` is counted in a unit of which `scale` make a tick.
/// The gain is counted in that unit times lots.
fn gain_loss_at_scale(position: &Position, price: i64, scale: i64) -> (gain: i128)
    requires
        position.within_limits(),
        1 <= scale <= CHART_STEPS_PER_TICK,
    ensures
        gain == position@.scaled(scale as int).expected_gain_loss(price as int),
{
    let ghost factor = scale as int;
    let ghost x = price as int;
    proof {
        lemma_product_bound(position.price as int, position.amount_owned as int);
    }
    let cost_in_ticks: i128 = (position.price as i128) * (position.amount_owned as i128);
    proof {
        lemma_scaled_bound(cost_in_ticks as int, scale as int, 0x4000_0000_0000_0000);
        assert(position.price * factor * position.amount_owned == position.price
            * position.amount_owned * factor) by (nonlinear_arith);
    }
    let cost_basis: i128 = cost_in_ticks * (scale as i128);
    let mut amount_still_owned: i128 = position.amount_owned as i128;
    let mut net_options_premiums: i128 = 0;
    let mut net_options_proceeds: i128 = 0;

    let bought = &position.options_bought;
    let sold = &position.options_sold;

    let mut i: usize = 0;
    while i < bought.len()
        invariant
            i <= bought.len() <= MAX_LEGS,
            x == price,
            factor == scale,
            1 <= scale <= 20,
            net_options_premiums == -total_premiums(scaled_views(bought@, factor).take(i as int)),
            net_options_proceeds == exercised_cash(scaled_views(bought@, factor).take(i as int), x),
            amount_still_owned == position.amount_owned + exercised_amount(
                scaled_views(bought@, factor).take(i as int),
                x,
            ),
            -(i * leg_cash_bound()) <= net_options_premiums <= i * leg_cash_bound(),
            -(i * leg_cash_bound()) <= net_options_proceeds <= i * leg_cash_bound(),
            -(i * leg_amount_bound()) <= amount_still_owned - position.amount_owned <= i
                * leg_amount_bound(),
        decreases bought.len() - i,
    {
        let leg = &bought[i];
        proof {
            lemma_take_next(bought@, factor, i as int);
            lemma_scaled_leg(leg@, factor);
            lemma_product_bound(leg.premium as int, leg.amount as int);
            lemma_product_bound(leg.strike_price as int, leg.amount as int);
        }
        let premiums_in_ticks = leg.premiums();
        proof {
            lemma_scaled_bound(
                premiums_in_ticks as int,
                scale as int,
                100 * 0x4000_0000_0000_0000int,
            );
        }
        net_options_premiums -= premiums_in_ticks * (scale as i128);
        if leg.should_exercise_at_scale(price, scale) {
            let outcome = leg.exercise();
            proof {
                lemma_scaled_bound(
                    outcome.cash_change as int,
                    scale as int,
                    100 * 0x4000_0000_0000_0000int,
                );
            }
            amount_still_owned += outcome.amount_change as i128;
            net_options_proceeds += outcome.cash_change * (scale as i128);
        }
        i += 1;
    }
    assert(scaled_views(bought@, factor).take(i as int) =~= position@.scaled(
        factor,
    ).options_bought);

    let ghost paid = net_options_premiums;
    let ghost bought_cash = net_options_proceeds;
    let ghost bought_amount = amount_still_owned;
    let mut j: usize = 0;
    while j < sold.len()
        invariant
            j <= sold.len() <= MAX_LEGS,
            i <= MAX_LEGS,
            x == price,
            factor == scale,
            1 <= scale <= 20,
            net_options_premiums == paid + total_premiums(
                scaled_views(sold@, factor).take(j as int),
            ),
            net_options_proceeds == bought_cash - exercised_cash(
                scaled_views(sold@, factor).take(j as int),
                x,
            ),
            amount_still_owned == bought_amount - exercised_amount(
                scaled_views(sold@, factor).take(j as int),
                x,
            ),
            -((i + j) * leg_cash_bound()) <= net_options_premiums <= (i + j) * leg_cash_bound(),
            -((i + j) * leg_cash_bound()) <= net_options_proceeds <= (i + j) * leg_cash_bound(),
            -((i + j) * leg_amount_bound()) <= amount_still_owned - position.amount_owned <= (i
                + j) * leg_amount_bound(),
        decreases sold.len() - j,
    {
        let leg = &sold[j];
        proof {
            lemma_take_next(sold@, factor, j as int);
            lemma_scaled_leg(leg@, factor);
            lemma_product_bound(leg.premium as int, leg.amount as int);
            lemma_product_bound(leg.strike_price as int, leg.amount as int);
        }
        let premiums_in_ticks = leg.premiums();
        proof {
            lemma_scaled_bound(
                premiums_in_ticks as int,
                scale as int,
                100 * 0x4000_0000_0000_0000int,
            );
        }
        net_options_premiums += premiums_in_ticks * (scale as i128);
        if leg.should_exercise_at_scale(price, scale) {
            let outcome = leg.exercise();
            proof {
                lemma_scaled_bound(
                    outcome.cash_change as int,
                    scale as int,
                    100 * 0x4000_0000_0000_0000int,
                );
            }
            amount_still_owned -= outcome.amount_change as i128;
            net_options_proceeds -= outcome.cash_change * (scale as i128);
        }
        j += 1;
    }
    assert(scaled_views(sold@, factor).take(j as int) =~= position@.scaled(factor).options_sold);

    proof {
        lemma_holding_value_bound(amount_still_owned as int, x);
    }
    let holding_value: i128 = amount_still_owned * (price as i128);
    net_options_premiums + net_options_proceeds + holding_value - cost_basis
}

/// The gain or loss of `position` if the underlying stands at
/// `expected_price` at expiry. The price is counted in ticks and the gain in
/// ticks times lots.
pub fn calculate_expected_gain_loss(position: &Position, expected_price: i64) -> (gain: i128)
    requires
        position.within_limits(),
    ensures
        gain == position@.expected_gain_loss(expected_price as int),
{
    proof {
        lemma_scaled_by_one(position@);
    }
    gain_loss_at_scale(position, expected_price, 1)
}

/// The gain or loss of `position` if the underlying stands at `chart_price`
/// at expiry. The price is counted in steps of a chart's axis and the gain in
/// steps times lots, as the points of a chart are.
pub fn calculate_chart_gain_loss(position: &Position, chart_price: i64) -> (gain: i128)
    requires
        position.within_limits(),
    ensures
        gain == position@.on_chart().expected_gain_loss(chart_price as int),
{
    gain_loss_at_scale(position, chart_price, CHART_STEPS_PER_TICK)
}

/// Counted in ticks, a position is as it stands.
pub proof fn lemma_scaled_by_one(position: PositionView)
    ensures
        position.scaled(1) == position,
{
    assert(position.scaled(1).options_bought =~= position.options_bought);
    assert(position.scaled(1).options_sold =~= position.options_sold);
}

} // verus!
