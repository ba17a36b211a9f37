//! What holds of the valuation and of the chart, for every position and
//! every price.
use crate::calculate::{exercised_amount, exercised_cash, total_premiums};
use crate::chart::{chart_xs, is_payoff_chart, leg_prices, lemma_leg_prices_len};
use crate::models::{ChartPoint, OptionLegView, OptionType, PositionView};
use crate::sorting::lemma_sorted_extrema;
use vstd::prelude::*;
use vstd::seq_lib::lemma_sorted_unique;

verus! {

/// The position that holds nothing of the underlying and has bought `leg`
/// alone.
pub open spec fn flat_with_bought(price: int, leg: OptionLegView) -> PositionView {
    PositionView {
        price,
        amount_owned: 0,
        options_bought: seq![leg],
        options_sold: Seq::empty(),
    }
}

/// The position that holds nothing of the underlying and has sold `leg`
/// alone.
pub open spec fn flat_with_sold(price: int, leg: OptionLegView) -> PositionView {
    PositionView {
        price,
        amount_owned: 0,
        options_bought: Seq::empty(),
        options_sold: seq![leg],
    }
}

/// The payoffs of all `legs` together, as their holder sees them.
pub open spec fn total_payoff(legs: Seq<OptionLegView>, expected_price: int) -> int
    decreases legs.len(),
{
    if legs.len() == 0 {
        0
    } else {
        total_payoff(legs.drop_last(), expected_price) + legs.last().payoff(expected_price)
    }
}

/// The units by which one unit of `leg` changes in intrinsic value for every
/// tick between `from` and `to`, when the strike does not lie strictly
/// between them.
pub open spec fn intrinsic_slope(leg: OptionLegView, from: int, to: int) -> int {
    match leg.contract_type {
        OptionType::Call => if leg.strike_price <= from {
            1
        } else {
            0
        },
        OptionType::Put => if leg.strike_price >= to {
            -1
        } else {
            0
        },
    }
}

/// The units by which the holder of `legs` is richer for every tick between
/// `from` and `to`, when no strike lies strictly between them.
pub open spec fn total_slope(legs: Seq<OptionLegView>, from: int, to: int) -> int
    decreases legs.len(),
{
    if legs.len() == 0 {
        0
    } else {
        total_slope(legs.drop_last(), from, to) + intrinsic_slope(legs.last(), from, to)
            * legs.last().amount * 100
    }
}

/// Whether no strike of `legs` lies strictly between `from` and `to`.
pub open spec fn no_strike_inside(legs: Seq<OptionLegView>, from: int, to: int) -> bool {
    forall|k: int|
        0 <= k < legs.len() ==> (#[trigger] legs[k]).strike_price <= from || legs[k].strike_price
            >= to
}

/// Multiplication distributes over the difference of two prices.
proof fn lemma_holding_difference(amount: int, from: int, to: int)
    by (nonlinear_arith)
    ensures
        amount * to - amount * from == amount * (to - from),
        amount * to - from * amount == (to - from) * amount,
{
}

/// A single leg's sums are the leg's own terms.
proof fn lemma_single_leg(leg: OptionLegView, expected_price: int)
    ensures
        total_premiums(seq![leg]) == leg.premiums(),
        exercised_amount(seq![leg], expected_price) == if leg.should_exercise(expected_price) {
            leg.amount_change()
        } else {
            0
        },
        exercised_cash(seq![leg], expected_price) == if leg.should_exercise(expected_price) {
            leg.cash_change()
        } else {
            0
        },
{
    reveal_with_fuel(total_premiums, 2);
    reveal_with_fuel(exercised_amount, 2);
    reveal_with_fuel(exercised_cash, 2);
}

/// Without options a position gains or loses the change in price on every
/// unit it holds.
pub proof fn lemma_no_options_gain(position: PositionView, expected_price: int)
    requires
        position.options_bought.len() == 0,
        position.options_sold.len() == 0,
    ensures
        position.expected_gain_loss(expected_price) == (expected_price - position.price)
            * position.amount_owned,
{
    lemma_holding_difference(position.amount_owned, position.price, expected_price);
}

/// A leg's premium flows out of a position that buys it and into a position
/// that sells it: the one's net premiums fall by the leg's premium total, the
/// other's rise by it.
pub proof fn lemma_premium_flows_mirror(position: PositionView, leg: OptionLegView)
    ensures
        (PositionView {
            options_bought: position.options_bought.push(leg),
            ..position
        }).net_premiums() == position.net_premiums() - leg.premiums(),
        (PositionView {
            options_sold: position.options_sold.push(leg),
            ..position
        }).net_premiums() == position.net_premiums() + leg.premiums(),
{
    assert(position.options_bought.push(leg).drop_last() =~= position.options_bought);
    assert(position.options_sold.push(leg).drop_last() =~= position.options_sold);
}

/// Buying a leg and selling the same leg are mirror images: on positions
/// that hold nothing else, what the buyer gains at a price the seller loses.
/// At a price at which the leg is not exercised the buyer is out the premium
/// total and the seller has it, so the two differ by twice the premium total.
pub proof fn lemma_bought_sold_mirror(price: int, leg: OptionLegView, expected_price: int)
    ensures
        flat_with_bought(price, leg).expected_gain_loss(expected_price) == -flat_with_sold(
            price,
            leg,
        ).expected_gain_loss(expected_price),
        !leg.should_exercise(expected_price) ==> {
            &&& flat_with_bought(price, leg).expected_gain_loss(expected_price)
                == -leg.premiums()
            &&& flat_with_sold(price, leg).expected_gain_loss(expected_price) == leg.premiums()
            &&& flat_with_bought(price, leg).expected_gain_loss(expected_price)
                - flat_with_sold(price, leg).expected_gain_loss(expected_price) == -2
                * leg.premiums()
        },
{
    lemma_single_leg(leg, expected_price);
    let amount = exercised_amount(seq![leg], expected_price);
    assert((0 - amount) * expected_price == -(amount * expected_price)) by (nonlinear_arith);
}

/// A call is exercised above its strike and nowhere else, a put below its
/// strike and nowhere else. So a call exercised at one price is exercised at
/// every higher price, and a put at every lower one.
pub proof fn lemma_exercise_monotonic(leg: OptionLegView, lower: int, higher: int)
    requires
        lower <= higher,
    ensures
        leg.contract_type == OptionType::Call ==> (leg.should_exercise(lower) <==> leg.strike_price
            < lower),
        leg.contract_type == OptionType::Put ==> (leg.should_exercise(lower) <==> lower
            < leg.strike_price),
        leg.contract_type == OptionType::Call && leg.should_exercise(lower)
            ==> leg.should_exercise(higher),
        leg.contract_type == OptionType::Put && leg.should_exercise(higher)
            ==> leg.should_exercise(lower),
{
}

/// The payoff of a holding with one call bought has no jump at the strike.
/// Up to the strike the call is left alone and the position moves with the
/// units held; above the strike it moves with the units held and those the
/// call delivers. Both lines pass through the value at the strike.
pub proof fn lemma_bought_call_continuous(position: PositionView, distance: int)
    requires
        position.options_bought.len() == 1,
        position.options_bought[0].contract_type == OptionType::Call,
        position.options_sold.len() == 0,
        distance >= 0,
    ensures
        ({
            let call = position.options_bought[0];
            let strike = call.strike_price;
            &&& !call.should_exercise(strike - distance)
            &&& distance > 0 ==> call.should_exercise(strike + distance)
            &&& position.expected_gain_loss(strike) == (strike - position.price)
                * position.amount_owned - call.premiums()
            &&& position.expected_gain_loss(strike - distance) == position.expected_gain_loss(
                strike,
            ) - distance * position.amount_owned
            &&& position.expected_gain_loss(strike + distance) == position.expected_gain_loss(
                strike,
            ) + distance * (position.amount_owned + call.amount * 100)
        }),
{
    let call = position.options_bought[0];
    let strike = call.strike_price;
    let owned = position.amount_owned;
    let units = call.amount * 100;
    assert(position.options_bought =~= seq![call]);
    lemma_single_leg(call, strike);
    lemma_single_leg(call, strike - distance);
    lemma_single_leg(call, strike + distance);
    assert(owned * strike - position.price * owned == (strike - position.price) * owned)
        by (nonlinear_arith);
    assert(owned * (strike - distance) == owned * strike - distance * owned)
        by (nonlinear_arith);
    if distance > 0 {
        assert(-(strike * call.amount * 100) + (owned + units) * (strike + distance) == owned
            * strike + distance * (owned + units)) by (nonlinear_arith)
            requires
                units == call.amount * 100,
        ;
    }
}

/// Legs whose exercise does not change between two prices contribute the
/// same units and the same cash at both.
proof fn lemma_same_exercise(legs: Seq<OptionLegView>, from: int, to: int)
    requires
        forall|k: int|
            0 <= k < legs.len() ==> (#[trigger] legs[k]).should_exercise(from)
                == legs[k].should_exercise(to),
    ensures
        exercised_amount(legs, from) == exercised_amount(legs, to),
        exercised_cash(legs, from) == exercised_cash(legs, to),
    decreases legs.len(),
{
    if legs.len() > 0 {
        lemma_same_exercise(legs.drop_last(), from, to);
    }
}

/// Between two prices at which the same legs are exercised the payoff is a
/// straight line: it changes by the units then held for every tick.
pub proof fn lemma_linear_between_strikes(position: PositionView, from: int, to: int)
    requires
        forall|k: int|
            0 <= k < position.options_bought.len() ==> (
            #[trigger] position.options_bought[k]).should_exercise(from)
                == position.options_bought[k].should_exercise(to),
        forall|k: int|
            0 <= k < position.options_sold.len() ==> (
            #[trigger] position.options_sold[k]).should_exercise(from)
                == position.options_sold[k].should_exercise(to),
    ensures
        position.amount_still_owned(to) == position.amount_still_owned(from),
        position.expected_gain_loss(to) - position.expected_gain_loss(from)
            == position.amount_still_owned(from) * (to - from),
{
    lemma_same_exercise(position.options_bought, from, to);
    lemma_same_exercise(position.options_sold, from, to);
    lemma_holding_difference(position.amount_still_owned(from), from, to);
}

/// Exercising a leg in the money turns its intrinsic value into units and
/// cash: the cash received and the value of the units gained come to the
/// intrinsic value of every unit.
proof fn lemma_exercise_realizes_intrinsic_value(leg: OptionLegView, expected_price: int)
    by (nonlinear_arith)
    ensures
        leg.should_exercise(expected_price) ==> leg.cash_change() + leg.amount_change()
            * expected_price == leg.intrinsic_value(expected_price) * leg.amount * 100,
        !leg.should_exercise(expected_price) ==> leg.intrinsic_value(expected_price) * leg.amount
            * 100 == 0,
{
}

/// What the holder of `legs` receives on exercise, with the units valued at
/// `expected_price`, less the premiums paid is the sum of the legs' payoffs.
proof fn lemma_legs_payoff(legs: Seq<OptionLegView>, expected_price: int)
    ensures
        exercised_cash(legs, expected_price) + exercised_amount(legs, expected_price)
            * expected_price - total_premiums(legs) == total_payoff(legs, expected_price),
    decreases legs.len(),
{
    if legs.len() > 0 {
        let rest = legs.drop_last();
        let leg = legs.last();
        lemma_legs_payoff(rest, expected_price);
        lemma_exercise_realizes_intrinsic_value(leg, expected_price);
        let units = exercised_amount(rest, expected_price);
        let change = exercised_amount(legs, expected_price) - units;
        assert((units + change) * expected_price == units * expected_price + change
            * expected_price) by (nonlinear_arith);
    }
}

/// The gain of a position is the gain on the units it holds, plus the payoff
/// of every leg bought, less the payoff of every leg sold.
pub proof fn lemma_gain_is_sum_of_payoffs(position: PositionView, expected_price: int)
    ensures
        position.expected_gain_loss(expected_price) == (expected_price - position.price)
            * position.amount_owned + total_payoff(position.options_bought, expected_price)
            - total_payoff(position.options_sold, expected_price),
{
    lemma_legs_payoff(position.options_bought, expected_price);
    lemma_legs_payoff(position.options_sold, expected_price);
    let owned = position.amount_owned;
    let gained = exercised_amount(position.options_bought, expected_price);
    let given = exercised_amount(position.options_sold, expected_price);
    assert((owned + gained - given) * expected_price == owned * expected_price + gained
        * expected_price - given * expected_price) by (nonlinear_arith);
    lemma_holding_difference(owned, position.price, expected_price);
}

/// The intrinsic value of a leg never jumps: from one tick to the next it
/// changes by one tick at most, and it is never negative.
pub proof fn lemma_intrinsic_value_continuous(leg: OptionLegView, expected_price: int)
    ensures
        leg.intrinsic_value(expected_price) >= 0,
        -1 <= leg.intrinsic_value(expected_price + 1) - leg.intrinsic_value(expected_price) <= 1,
        expected_price == leg.strike_price ==> leg.intrinsic_value(expected_price) == 0,
{
}

/// At the breakeven price of a leg bought at a premium that is not negative,
/// the intrinsic value of a unit is the premium paid for it, so the leg has
/// brought its holder nothing and cost nothing. The breakeven price of the
/// same leg sold lies as far from the strike on the other side.
pub proof fn lemma_breakeven(leg: OptionLegView)
    ensures
        leg.premium >= 0 ==> leg.intrinsic_value(leg.chart_point_of_interest(true))
            == leg.premium,
        leg.premium >= 0 ==> leg.payoff(leg.chart_point_of_interest(true)) == 0,
        leg.chart_point_of_interest(true) - leg.strike_price == leg.strike_price
            - leg.chart_point_of_interest(false),
{
}

/// Between two prices with no strike strictly between them, the payoff of a
/// leg is a straight line.
proof fn lemma_leg_payoff_linear(leg: OptionLegView, from: int, to: int, price: int)
    requires
        from <= price <= to,
        leg.strike_price <= from || leg.strike_price >= to,
    ensures
        leg.payoff(price) == leg.payoff(from) + intrinsic_slope(leg, from, to) * leg.amount * 100
            * (price - from),
{
    let slope = intrinsic_slope(leg, from, to);
    let start = leg.intrinsic_value(from);
    assert((start + slope * (price - from)) * leg.amount * 100 == start * leg.amount * 100 + slope
        * leg.amount * 100 * (price - from)) by (nonlinear_arith);
}

/// Between two prices with no strike strictly between them, the payoffs of
/// `legs` together are a straight line.
proof fn lemma_legs_payoff_linear(legs: Seq<OptionLegView>, from: int, to: int, price: int)
    requires
        from <= price <= to,
        no_strike_inside(legs, from, to),
    ensures
        total_payoff(legs, price) == total_payoff(legs, from) + total_slope(legs, from, to) * (price
            - from),
    decreases legs.len(),
{
    if legs.len() > 0 {
        let rest = legs.drop_last();
        let leg = legs.last();
        lemma_legs_payoff_linear(rest, from, to, price);
        lemma_leg_payoff_linear(leg, from, to, price);
        let before = total_slope(rest, from, to);
        let added = intrinsic_slope(leg, from, to) * leg.amount * 100;
        assert((before + added) * (price - from) == before * (price - from) + added * (price
            - from)) by (nonlinear_arith);
    }
}

/// Between two prices with no strike strictly between them the payoff of a
/// position is a straight line, the two prices included: it rises by the
/// same number of units for every tick.
pub proof fn lemma_linear_without_strike_inside(
    position: PositionView,
    from: int,
    to: int,
    price: int,
)
    requires
        from <= price <= to,
        no_strike_inside(position.options_bought, from, to),
        no_strike_inside(position.options_sold, from, to),
    ensures
        position.expected_gain_loss(price) == position.expected_gain_loss(from) + (
        position.amount_owned + total_slope(position.options_bought, from, to) - total_slope(
            position.options_sold,
            from,
            to,
        )) * (price - from),
{
    lemma_gain_is_sum_of_payoffs(position, price);
    lemma_gain_is_sum_of_payoffs(position, from);
    lemma_legs_payoff_linear(position.options_bought, from, to, price);
    lemma_legs_payoff_linear(position.options_sold, from, to, price);
    let owned = position.amount_owned;
    let up = total_slope(position.options_bought, from, to);
    let down = total_slope(position.options_sold, from, to);
    assert((price - position.price) * owned + up * (price - from) - down * (price - from) == (from
        - position.price) * owned + (owned + up - down) * (price - from)) by (nonlinear_arith);
}

/// The strike of the leg at `index` is the price at twice that index among
/// the prices of `legs`, and its breakeven price is the next.
proof fn lemma_leg_prices_at(legs: Seq<OptionLegView>, bought: bool, index: int)
    requires
        0 <= index < legs.len(),
    ensures
        leg_prices(legs, bought).len() == 2 * legs.len(),
        leg_prices(legs, bought)[2 * index] == legs[index].strike_price,
        leg_prices(legs, bought)[2 * index + 1] == legs[index].chart_point_of_interest(bought),
    decreases legs.len(),
{
    lemma_leg_prices_len(legs.drop_last(), bought);
    if index < legs.len() - 1 {
        lemma_leg_prices_at(legs.drop_last(), bought, index);
    }
}

/// Every strike of a position is among its prices of interest.
pub proof fn lemma_strikes_are_of_interest(position: PositionView)
    ensures
        forall|k: int|
            0 <= k < position.options_bought.len() ==> position.prices_of_interest().contains(
                (#[trigger] position.options_bought[k]).strike_price,
            ),
        forall|k: int|
            0 <= k < position.options_sold.len() ==> position.prices_of_interest().contains(
                (#[trigger] position.options_sold[k]).strike_price,
            ),
{
    let interest = position.prices_of_interest();
    let bought = leg_prices(position.options_bought, true);
    assert forall|k: int| 0 <= k < position.options_bought.len() implies interest.contains(
        (#[trigger] position.options_bought[k]).strike_price,
    ) by {
        lemma_leg_prices_at(position.options_bought, true, k);
        assert(interest[1 + 2 * k] == position.options_bought[k].strike_price);
    }
    assert forall|k: int| 0 <= k < position.options_sold.len() implies interest.contains(
        (#[trigger] position.options_sold[k]).strike_price,
    ) by {
        lemma_leg_prices_at(position.options_sold, false, k);
        assert(interest[1 + bought.len() + 2 * k] == position.options_sold[k].strike_price);
    }
}

/// The chart traces the payoff exactly: at every price between two
/// neighbouring points of the chart, the payoff lies on the straight line
/// through the two points. Prices and payoffs are counted as the chart
/// counts them.
pub proof fn lemma_chart_traces_payoff(
    position: PositionView,
    points: Seq<ChartPoint>,
    index: int,
    chart_price: int,
)
    requires
        is_payoff_chart(points, position),
        0 <= index,
        index + 1 < points.len(),
        points[index].x <= chart_price <= points[index + 1].x,
    ensures
        (position.on_chart().expected_gain_loss(chart_price) - points[index].y) * (points[index
            + 1].x - points[index].x) == (points[index + 1].y - points[index].y) * (chart_price
            - points[index].x),
{
    let fine = position.on_chart();
    let xs = chart_xs(points);
    let from = xs[index];
    let to = xs[index + 1];
    let interest = position.prices_of_interest();
    let sampled = position.sampled_prices();
    xs.to_multiset_ensures();
    sampled.to_multiset_ensures();
    lemma_strikes_are_of_interest(position);
    assert forall|strike: int| interest.contains(strike) implies 20 * strike <= from || 20
        * strike >= to by {
        let at = choose|k: int| 0 <= k < interest.len() && interest[k] == strike;
        assert(sampled[at] == 20 * strike);
        assert(xs.to_multiset().count(20 * strike) > 0);
        let found = choose|k: int| 0 <= k < xs.len() && xs[k] == 20 * strike;
        if found <= index {
            assert(xs[found] <= xs[index]);
        } else {
            assert(xs[index + 1] <= xs[found]);
        }
    }
    assert forall|k: int| 0 <= k < fine.options_bought.len() implies (
    #[trigger] fine.options_bought[k]).strike_price <= from || fine.options_bought[k].strike_price
        >= to by {
        assert(interest.contains(position.options_bought[k].strike_price));
    }
    assert forall|k: int| 0 <= k < fine.options_sold.len() implies (
    #[trigger] fine.options_sold[k]).strike_price <= from || fine.options_sold[k].strike_price
        >= to by {
        assert(interest.contains(position.options_sold[k].strike_price));
    }
    lemma_linear_without_strike_inside(fine, from, to, chart_price);
    lemma_linear_without_strike_inside(fine, from, to, to);
    let slope = fine.amount_owned + total_slope(fine.options_bought, from, to) - total_slope(
        fine.options_sold,
        from,
        to,
    );
    assert((slope * (chart_price - from)) * (to - from) == (slope * (to - from)) * (chart_price
        - from)) by (nonlinear_arith);
}

/// At a whole number of ticks the chart's valuation and the valuation in
/// ticks agree: the one counts in twentieths what the other counts whole.
pub proof fn lemma_chart_valuation_agrees(position: PositionView, expected_price: int)
    ensures
        position.on_chart().expected_gain_loss(20 * expected_price) == 20
            * position.expected_gain_loss(expected_price),
{
    let fine = position.on_chart();
    lemma_legs_on_chart(position.options_bought, expected_price);
    lemma_legs_on_chart(position.options_sold, expected_price);
    let held = position.amount_still_owned(expected_price);
    assert(held * (20 * expected_price) == 20 * (held * expected_price)) by (nonlinear_arith);
    assert((position.price * 20) * position.amount_owned == 20 * (position.price
        * position.amount_owned)) by (nonlinear_arith);
}

/// The models of `legs` with their prices counted in steps of a chart's
/// axis.
pub open spec fn legs_on_chart(legs: Seq<OptionLegView>) -> Seq<OptionLegView> {
    legs.map_values(|leg: OptionLegView| leg.scaled(20))
}

/// At a whole number of ticks, legs counted in steps are exercised as they
/// are counted in ticks, for twenty times the premiums and the cash and for
/// the same units.
proof fn lemma_legs_on_chart(legs: Seq<OptionLegView>, expected_price: int)
    ensures
        total_premiums(legs_on_chart(legs)) == 20 * total_premiums(legs),
        exercised_cash(legs_on_chart(legs), 20 * expected_price) == 20 * exercised_cash(
            legs,
            expected_price,
        ),
        exercised_amount(legs_on_chart(legs), 20 * expected_price) == exercised_amount(
            legs,
            expected_price,
        ),
    decreases legs.len(),
{
    if legs.len() > 0 {
        lemma_legs_on_chart(legs.drop_last(), expected_price);
        assert(legs_on_chart(legs).drop_last() =~= legs_on_chart(legs.drop_last()));
        crate::calculate::lemma_scaled_leg(legs.last(), 20);
    }
}

/// For a reference price above zero the chart ends strictly above every
/// price of interest, a twentieth of the reference price beyond the highest.
/// Where the lowest price of interest is at least a twentieth of the
/// reference price, the chart begins that twentieth below it, strictly below
/// every price of interest. Where the lowest is less but above zero, the
/// chart begins at zero, still strictly below. Where the lowest is zero or
/// less, the chart begins at that price itself.
pub proof fn lemma_padding_outside_span(position: PositionView, points: Seq<ChartPoint>)
    requires
        is_payoff_chart(points, position),
        position.price > 0,
    ensures
        points.len() == position.prices_of_interest().len() + 2,
        points.last().x == 20 * position.prices_of_interest().max() + position.price,
        forall|k: int|
            0 <= k < position.prices_of_interest().len() ==> 20
                * #[trigger] position.prices_of_interest()[k] < points.last().x,
        20 * position.prices_of_interest().min() >= position.price ==> points.first().x == 20
            * position.prices_of_interest().min() - position.price,
        0 < 20 * position.prices_of_interest().min() < position.price ==> points.first().x == 0,
        position.prices_of_interest().min() > 0 ==> forall|k: int|
            0 <= k < position.prices_of_interest().len() ==> points.first().x < 20
                * #[trigger] position.prices_of_interest()[k],
        position.prices_of_interest().min() <= 0 ==> points.first().x == 20
            * position.prices_of_interest().min(),
{
    let interest = position.prices_of_interest();
    let sampled = position.sampled_prices();
    let upper = position.upper_padding_price();
    let lower = position.lower_padding_price();
    let xs = chart_xs(points);
    let n = interest.len() as int;
    assert(sampled[n] == upper);
    assert(sampled[n + 1] == lower);
    assert(forall|k: int| 0 <= k < interest.len() ==> sampled[k] == 20 * interest[k]);
    interest.min_ensures();
    interest.max_ensures();
    sampled.min_ensures();
    sampled.max_ensures();
    lemma_sorted_extrema(xs, sampled);
    let least = choose|k: int| 0 <= k < interest.len() && interest[k] == interest.min();
    let most = choose|k: int| 0 <= k < interest.len() && interest[k] == interest.max();
    assert(sampled[least] == 20 * interest.min());
    assert(sampled[most] == 20 * interest.max());
    assert(interest[0] == position.price);
}

/// A position has one payoff chart: two sequences of points that both meet
/// what [`crate::chart::get_chart_points`] promises of its result are equal.
pub proof fn lemma_payoff_chart_unique(
    position: PositionView,
    first: Seq<ChartPoint>,
    second: Seq<ChartPoint>,
)
    requires
        is_payoff_chart(first, position),
        is_payoff_chart(second, position),
    ensures
        first == second,
{
    let leq = |a: int, b: int| a <= b;
    lemma_sorted_unique(chart_xs(first), chart_xs(second), leq);
    assert forall|k: int| 0 <= k < first.len() implies first[k] == second[k] by {
        assert(chart_xs(first)[k] == chart_xs(second)[k]);
    }
}

} // verus!
