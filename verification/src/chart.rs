//! The chart sampler: the prices at which a position's payoff is worth
//! plotting, and the payoff at each of them.
//!
//! A payoff is a polygonal line whose corners lie at the strikes, so the
//! sampler takes the reference price, every leg's strike and breakeven
//! price, and one more price on either side of them: a twentieth of the
//! reference price above the highest, and as much below the lowest, but not
//! below zero.
//!
//! The chart counts its prices in steps, twenty to the tick, so a twentieth
//! of a price of so many ticks is as many steps. A reference price above
//! zero thus always puts the last point of the chart beyond every other
//! price, and the first as well unless the lowest price of interest is zero
//! or less, where the chart begins at that price.
use crate::calculate::calculate_chart_gain_loss;
use crate::laws::lemma_padding_outside_span;
use crate::models::{leg_views, ChartPoint, OptionLeg, OptionLegView, Position, PositionView};
use crate::sorting::{as_ints, is_sorted, lemma_sorted_extrema, sort_ascending};
use vstd::prelude::*;

verus! {

/// For each of `legs` in turn, its strike and then its breakeven price.
pub open spec fn leg_prices(legs: Seq<OptionLegView>, bought: bool) -> Seq<int>
    decreases legs.len(),
{
    if legs.len() == 0 {
        Seq::empty()
    } else {
        leg_prices(legs.drop_last(), bought).push(legs.last().strike_price).push(
            legs.last().chart_point_of_interest(bought),
        )
    }
}

impl PositionView {
    /// The prices at which the payoff may turn or cross a leg's breakeven:
    /// the reference price, then the prices of the legs bought, then those of
    /// the legs sold.
    pub open spec fn prices_of_interest(self) -> Seq<int> {
        seq![self.price] + leg_prices(self.options_bought, true) + leg_prices(
            self.options_sold,
            false,
        )
    }

    /// The margin shown beyond the prices of interest, in steps of the
    /// chart's axis: a twentieth of the reference price, which is as many
    /// steps as the price has ticks.
    pub open spec fn padding(self) -> int {
        self.price
    }

    /// The price one margin above the highest price of interest, in steps of
    /// the chart's axis.
    pub open spec fn upper_padding_price(self) -> int {
        20 * self.prices_of_interest().max() + self.padding()
    }

    /// The price one margin below the lowest price of interest, or zero if
    /// that would be negative, in steps of the chart's axis.
    pub open spec fn lower_padding_price(self) -> int {
        let below = 20 * self.prices_of_interest().min() - self.padding();
        if below < 0 {
            0
        } else {
            below
        }
    }

    /// Every price the chart shows, in steps of its axis and in no particular
    /// order: the prices of interest and the two padding prices.
    pub open spec fn sampled_prices(self) -> Seq<int> {
        on_axis(self.prices_of_interest()).push(self.upper_padding_price()).push(
            self.lower_padding_price(),
        )
    }
}

/// The prices `ticks`, counted in steps of the chart's axis.
pub open spec fn on_axis(ticks: Seq<int>) -> Seq<int> {
    ticks.map_values(|price: int| 20 * price)
}

/// The abscissas of `points`, in order.
pub open spec fn chart_xs(points: Seq<ChartPoint>) -> Seq<int> {
    points.map_values(|point: ChartPoint| point.x as int)
}

/// Whether `points` is the payoff chart of `position`: its abscissas are the
/// sampled prices of the position in ascending order, and each ordinate is
/// the gain or loss of the position at its abscissa, both counted in steps
/// of the chart's axis.
pub open spec fn is_payoff_chart(points: Seq<ChartPoint>, position: PositionView) -> bool {
    &&& is_sorted(chart_xs(points))
    &&& chart_xs(points).to_multiset() == position.sampled_prices().to_multiset()
    &&& forall|i: int|
        0 <= i < points.len() ==> (#[trigger] points[i]).y
            == position.on_chart().expected_gain_loss(points[i].x as int)
}

/// Every leg contributes two prices.
pub proof fn lemma_leg_prices_len(legs: Seq<OptionLegView>, bought: bool)
    ensures
        leg_prices(legs, bought).len() == 2 * legs.len(),
    decreases legs.len(),
{
    if legs.len() > 0 {
        lemma_leg_prices_len(legs.drop_last(), bought);
    }
}

/// Whether `price` can be a strike or a breakeven price: the sum or
/// difference of two 32-bit quantities.
pub open spec fn is_leg_price(price: i64) -> bool {
    -0x1_0000_0000 <= price <= 0x1_0000_0000
}

/// Appends the strike and the breakeven price of each of `legs` to `prices`.
fn push_leg_prices(prices: &mut Vec<i64>, legs: &Vec<OptionLeg>, bought: bool)
    requires
        forall|k: int| 0 <= k < old(prices)@.len() ==> is_leg_price(#[trigger] old(prices)@[k]),
    ensures
        as_ints(final(prices)@) == as_ints(old(prices)@) + leg_prices(leg_views(legs@), bought),
        forall|k: int| 0 <= k < final(prices)@.len() ==> is_leg_price(#[trigger] final(prices)@[k]),
{
    let ghost before = as_ints(prices@);
    let mut i: usize = 0;
    while i < legs.len()
        invariant
            i <= legs.len(),
            as_ints(prices@) == before + leg_prices(leg_views(legs@).take(i as int), bought),
            forall|k: int| 0 <= k < prices@.len() ==> is_leg_price(#[trigger] prices@[k]),
        decreases legs.len() - i,
    {
        let leg = &legs[i];
        let ghost so_far = prices@;
        prices.push(leg.strike_price as i64);
        prices.push(leg.get_chart_point_of_interest(bought));
        proof {
            let shorter = leg_views(legs@).take(i as int);
            let longer = leg_views(legs@).take(i + 1);
            assert(longer.drop_last() =~= shorter);
            assert(as_ints(prices@) =~= as_ints(so_far).push(leg@.strike_price).push(
                leg@.chart_point_of_interest(bought),
            ));
        }
        i += 1;
    }
    assert(leg_views(legs@).take(i as int) =~= leg_views(legs@));
}

/// The prices of interest of `position`, in the order of
/// [`PositionView::prices_of_interest`].
pub fn prices_of_interest(position: &Position) -> (prices: Vec<i64>)
    ensures
        as_ints(prices@) == position@.prices_of_interest(),
        forall|k: int| 0 <= k < prices@.len() ==> is_leg_price(#[trigger] prices@[k]),
{
    let mut prices: Vec<i64> = Vec::new();
    prices.push(position.price as i64);
    push_leg_prices(&mut prices, &position.options_bought, true);
    push_leg_prices(&mut prices, &position.options_sold, false);
    prices
}

/// The points of the payoff chart of `position`, from the lowest price to the
/// highest: one for every sampled price, each with the gain or loss at that
/// price. Prices are counted in steps of the chart's axis and gains in steps
/// times lots.
pub fn get_chart_points(position: &Position) -> (points: Vec<ChartPoint>)
    requires
        position.within_limits(),
    ensures
        is_payoff_chart(points@, position@),
        points.len() == 2 * (position.options_bought.len() + position.options_sold.len()) + 3,
        position@.price > 0 ==> {
            &&& points@.last().x == 20 * position@.prices_of_interest().max() + position@.price
            &&& forall|k: int|
                0 <= k < position@.prices_of_interest().len() ==> 20
                    * #[trigger] position@.prices_of_interest()[k] < points@.last().x
        },
        position@.price > 0 && 20 * position@.prices_of_interest().min() >= position@.price ==> {
            &&& points@.first().x == 20 * position@.prices_of_interest().min() - position@.price
            &&& forall|k: int|
                0 <= k < position@.prices_of_interest().len() ==> points@.first().x < 20
                    * #[trigger] position@.prices_of_interest()[k]
        },
        position@.price > 0 && 0 < 20 * position@.prices_of_interest().min() < position@.price
            ==> {
            &&& points@.first().x == 0
            &&& forall|k: int|
                0 <= k < position@.prices_of_interest().len() ==> points@.first().x < 20
                    * #[trigger] position@.prices_of_interest()[k]
        },
{
    let interest = prices_of_interest(position);
    let sorted = sort_ascending(&interest);
    proof {
        lemma_sorted_extrema(as_ints(sorted@), as_ints(interest@));
        as_ints(interest@).min_ensures();
        as_ints(interest@).max_ensures();
    }
    let price: i64 = position.price as i64;
    let highest: i64 = sorted[sorted.len() - 1];
    let lowest: i64 = sorted[0];
    let upper: i64 = 20 * highest + price;
    let below: i64 = 20 * lowest - price;
    let lower: i64 = if below < 0 {
        0
    } else {
        below
    };

    let mut prices: Vec<i64> = Vec::new();
    let mut n: usize = 0;
    while n < interest.len()
        invariant
            n <= interest.len(),
            prices.len() == n,
            forall|k: int| 0 <= k < interest@.len() ==> is_leg_price(#[trigger] interest@[k]),
            forall|k: int| 0 <= k < n ==> #[trigger] prices@[k] == 20 * interest@[k],
        decreases interest.len() - n,
    {
        prices.push(20 * interest[n]);
        n += 1;
    }
    prices.push(upper);
    prices.push(lower);
    assert(as_ints(prices@) =~= position@.sampled_prices());
    let sampled = sort_ascending(&prices);

    let mut points: Vec<ChartPoint> = Vec::new();
    let mut i: usize = 0;
    while i < sampled.len()
        invariant
            i <= sampled.len(),
            position.within_limits(),
            points.len() == i,
            forall|k: int| 0 <= k < i ==> (#[trigger] points[k]).x == sampled[k],
            forall|k: int|
                0 <= k < i ==> (#[trigger] points[k]).y
                    == position@.on_chart().expected_gain_loss(sampled[k] as int),
        decreases sampled.len() - i,
    {
        let x = sampled[i];
        let y = calculate_chart_gain_loss(position, x);
        points.push(ChartPoint { x, y });
        i += 1;
    }
    proof {
        assert(chart_xs(points@) =~= as_ints(sampled@));
        chart_xs(points@).to_multiset_ensures();
        position@.sampled_prices().to_multiset_ensures();
        lemma_leg_prices_len(position@.options_bought, true);
        lemma_leg_prices_len(position@.options_sold, false);
        if position@.price > 0 {
            lemma_padding_outside_span(position@, points@);
        }
    }
    points
}

} // verus!
