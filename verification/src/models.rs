//! The data model: a position in an underlying, its option legs, and the
//! points of a payoff chart.
//!
//! All quantities are exact integers. Prices (the reference price, strikes,
//! premiums, the chart's abscissas) count *ticks*, the smallest price step
//! the caller cares to distinguish. Amounts (shares held, contracts bought or
//! sold) count *lots*, the smallest quantity step. Money (premium totals,
//! exercise cash flows, gains and losses) is then counted in ticks times
//! lots, so every product in the valuation is exact and nothing is rounded.
//! What a tick and a lot are worth is the caller's choice. One option
//! contract stands for 100 units of the underlying.
//!
//! A payoff chart needs prices that lie a twentieth of the reference price
//! beyond the others, and a twentieth of a whole number of ticks need not be
//! a whole number of ticks. So the axis of a chart counts *steps*, twenty to
//! the tick, and the money on a chart is counted in steps times lots. On
//! that axis the margin is exact as well.
use vstd::prelude::*;

verus! {

/// The most legs a position may hold on either side. Within this limit every
/// intermediate value of a valuation fits the machine integers used for it.
pub const MAX_LEGS: usize = 1_000_000;

/// Steps of a chart's axis in one tick.
pub const CHART_STEPS_PER_TICK: i64 = 20;

/// The two kinds of option contract.
#[derive(Clone, Copy, Debug, PartialEq, Eq, Structural)]
pub enum OptionType {
    Call,
    Put,
}

/// The mathematical model of an [`OptionLeg`]: the same fields over
/// unbounded integers.
pub struct OptionLegView {
    pub contract_type: OptionType,
    pub strike_price: int,
    pub premium: int,
    pub amount: int,
}

impl OptionLegView {
    /// What the leg's premium comes to over all its contracts.
    pub open spec fn premiums(self) -> int {
        self.premium * self.amount * 100
    }

    /// The change in units of the underlying held when the holder exercises:
    /// a call delivers them, a put takes them away.
    pub open spec fn amount_change(self) -> int {
        match self.contract_type {
            OptionType::Call => self.amount * 100,
            OptionType::Put => -(self.amount * 100),
        }
    }

    /// The cash that flows to the holder on exercise: a call is paid for at
    /// the strike, a put pays out at the strike.
    pub open spec fn cash_change(self) -> int {
        match self.contract_type {
            OptionType::Call => -(self.strike_price * self.amount * 100),
            OptionType::Put => self.strike_price * self.amount * 100,
        }
    }

    /// The same leg with its prices counted in a unit of which `factor` make
    /// a tick.
    pub open spec fn scaled(self, factor: int) -> OptionLegView {
        OptionLegView {
            contract_type: self.contract_type,
            strike_price: self.strike_price * factor,
            premium: self.premium * factor,
            amount: self.amount,
        }
    }

    /// Whether the leg is in the money at `expected_price`.
    pub open spec fn should_exercise(self, expected_price: int) -> bool {
        match self.contract_type {
            OptionType::Call => self.strike_price < expected_price,
            OptionType::Put => self.strike_price > expected_price,
        }
    }

    /// What one unit of the leg is worth to its holder at expiry: for a call
    /// the excess of `expected_price` over the strike, for a put the excess of
    /// the strike over `expected_price`, and nothing where there is no excess.
    pub open spec fn intrinsic_value(self, expected_price: int) -> int {
        match self.contract_type {
            OptionType::Call => if self.strike_price < expected_price {
                expected_price - self.strike_price
            } else {
                0
            },
            OptionType::Put => if self.strike_price > expected_price {
                self.strike_price - expected_price
            } else {
                0
            },
        }
    }

    /// What the leg brings its holder at expiry: the intrinsic value of every
    /// unit, less the premiums.
    pub open spec fn payoff(self, expected_price: int) -> int {
        self.intrinsic_value(expected_price) * self.amount * 100 - self.premiums()
    }

    /// The price at which the leg's intrinsic value makes up for its premium.
    /// `bought` tells the holder's side from the writer's.
    pub open spec fn chart_point_of_interest(self, bought: bool) -> int {
        match self.contract_type {
            OptionType::Call => if bought {
                self.strike_price + self.premium
            } else {
                self.strike_price - self.premium
            },
            OptionType::Put => if bought {
                self.strike_price - self.premium
            } else {
                self.strike_price + self.premium
            },
        }
    }
}

/// One option leg of a position: a number of contracts of one kind at one
/// strike, bought or sold at one premium per unit.
#[derive(Clone, Copy, Debug, PartialEq, Eq, Structural)]
pub struct OptionLeg {
    pub contract_type: OptionType,
    /// In ticks.
    pub strike_price: i32,
    /// In ticks per unit of the underlying.
    pub premium: i32,
    /// Contracts, in lots.
    pub amount: i32,
}

impl View for OptionLeg {
    type V = OptionLegView;

    open spec fn view(&self) -> OptionLegView {
        OptionLegView {
            contract_type: self.contract_type,
            strike_price: self.strike_price as int,
            premium: self.premium as int,
            amount: self.amount as int,
        }
    }
}

/// What exercising a leg does to the holder.
#[derive(Clone, Copy, Debug, PartialEq, Eq, Structural)]
pub struct ExerciseResult {
    /// Units of the underlying gained (negative: given up), in lots.
    pub amount_change: i64,
    /// Cash received (negative: paid), in ticks times lots.
    pub cash_change: i128,
}

impl OptionLeg {
    /// The total premium of the leg.
    pub fn premiums(&self) -> (total: i128)
        ensures
            total == self@.premiums(),
    {
        proof {
            lemma_product_bound(self.premium as int, self.amount as int);
        }
        let per_unit: i128 = (self.premium as i128) * (self.amount as i128);
        per_unit * 100
    }

    /// The outcome of exercising the leg, from the holder's side.
    pub fn exercise(&self) -> (outcome: ExerciseResult)
        ensures
            outcome.amount_change == self@.amount_change(),
            outcome.cash_change == self@.cash_change(),
    {
        proof {
            lemma_product_bound(self.strike_price as int, self.amount as int);
        }
        let units: i64 = (self.amount as i64) * 100;
        let per_unit: i128 = (self.strike_price as i128) * (self.amount as i128);
        let cash: i128 = per_unit * 100;
        match self.contract_type {
            OptionType::Call => ExerciseResult { amount_change: units, cash_change: -cash },
            OptionType::Put => ExerciseResult { amount_change: -units, cash_change: cash },
        }
    }

    /// Whether the leg is exercised when the underlying stands at
    /// `expected_price`: a call strictly below it, a put strictly above it.
    pub fn should_exercise(&self, expected_price: i64) -> (exercised: bool)
        ensures
            exercised == self@.should_exercise(expected_price as int),
    {
        self.should_exercise_at_scale(expected_price, 1)
    }

    /// Whether the leg is exercised when the underlying stands at `price`,
    /// where `price` is counted in a unit of which `scale` make a tick.
    pub fn should_exercise_at_scale(&self, price: i64, scale: i64) -> (exercised: bool)
        ensures
            exercised == self@.scaled(scale as int).should_exercise(price as int),
    {
        proof {
            lemma_wide_product_bound(self.strike_price as int, scale as int);
        }
        let strike: i128 = (self.strike_price as i128) * (scale as i128);
        match self.contract_type {
            OptionType::Call => strike < price as i128,
            OptionType::Put => strike > price as i128,
        }
    }

    /// The leg's breakeven price, which a payoff chart should show.
    pub fn get_chart_point_of_interest(&self, bought: bool) -> (price: i64)
        ensures
            price == self@.chart_point_of_interest(bought),
    {
        let strike: i64 = self.strike_price as i64;
        let premium: i64 = self.premium as i64;
        match self.contract_type {
            OptionType::Call => if bought {
                strike + premium
            } else {
                strike - premium
            },
            OptionType::Put => if bought {
                strike - premium
            } else {
                strike + premium
            },
        }
    }
}

/// The product of two 32-bit quantities stays within 62 bits.
pub(crate) proof fn lemma_product_bound(a: int, b: int)
    by (nonlinear_arith)
    requires
        -0x8000_0000 <= a <= 0x7fff_ffff,
        -0x8000_0000 <= b <= 0x7fff_ffff,
    ensures
        -0x4000_0000_0000_0000 <= a * b <= 0x4000_0000_0000_0000,
{
}

/// The product of a 32-bit and a 64-bit quantity stays within 94 bits.
proof fn lemma_wide_product_bound(a: int, b: int)
    by (nonlinear_arith)
    requires
        -0x8000_0000 <= a <= 0x7fff_ffff,
        -0x8000_0000_0000_0000 <= b <= 0x7fff_ffff_ffff_ffff,
    ensures
        -0x4000_0000_0000_0000_0000_0000 <= a * b <= 0x4000_0000_0000_0000_0000_0000,
{
}

/// A quantity within a bound stays within twenty times the bound when it is
/// counted in a unit up to twenty times finer.
pub(crate) proof fn lemma_scaled_bound(value: int, scale: int, bound: int)
    by (nonlinear_arith)
    requires
        -bound <= value <= bound,
        1 <= scale <= 20,
    ensures
        -(20 * bound) <= value * scale <= 20 * bound,
{
}

/// The mathematical model of a [`Position`].
pub struct PositionView {
    pub price: int,
    pub amount_owned: int,
    pub options_bought: Seq<OptionLegView>,
    pub options_sold: Seq<OptionLegView>,
}

/// A holding of an underlying together with the option legs bought and sold
/// on it.
#[derive(Clone, Debug, PartialEq, Eq)]
pub struct Position {
    /// The reference price of the underlying, in ticks.
    pub price: i32,
    pub options_bought: Vec<OptionLeg>,
    pub options_sold: Vec<OptionLeg>,
    /// Units of the underlying held, in lots; negative for a short holding.
    pub amount_owned: i32,
}

/// The models of a run of legs, in order.
pub open spec fn leg_views(legs: Seq<OptionLeg>) -> Seq<OptionLegView> {
    legs.map_values(|leg: OptionLeg| leg@)
}

impl View for Position {
    type V = PositionView;

    open spec fn view(&self) -> PositionView {
        PositionView {
            price: self.price as int,
            amount_owned: self.amount_owned as int,
            options_bought: leg_views(self.options_bought@),
            options_sold: leg_views(self.options_sold@),
        }
    }
}

impl PositionView {
    /// The same position with its prices counted in a unit of which `factor`
    /// make a tick.
    pub open spec fn scaled(self, factor: int) -> PositionView {
        PositionView {
            price: self.price * factor,
            amount_owned: self.amount_owned,
            options_bought: self.options_bought.map_values(
                |leg: OptionLegView| leg.scaled(factor),
            ),
            options_sold: self.options_sold.map_values(|leg: OptionLegView| leg.scaled(factor)),
        }
    }

    /// The same position with its prices counted in steps of a chart's axis.
    pub open spec fn on_chart(self) -> PositionView {
        self.scaled(20)
    }
}

impl Position {
    /// Neither side holds more than [`MAX_LEGS`] legs.
    pub open spec fn within_limits(&self) -> bool {
        &&& self.options_bought@.len() <= MAX_LEGS
        &&& self.options_sold@.len() <= MAX_LEGS
    }

    /// Whether the position is [`Position::within_limits`].
    pub fn is_within_limits(&self) -> (ok: bool)
        ensures
            ok == self.within_limits(),
    {
        self.options_bought.len() <= MAX_LEGS && self.options_sold.len() <= MAX_LEGS
    }

    /// A position in the underlying alone.
    pub fn no_options(price: i32, amount_owned: i32) -> (position: Position)
        ensures
            position.price == price,
            position.amount_owned == amount_owned,
            position.options_bought@ == Seq::<OptionLeg>::empty(),
            position.options_sold@ == Seq::<OptionLeg>::empty(),
            position@ == (PositionView {
                price: price as int,
                amount_owned: amount_owned as int,
                options_bought: Seq::empty(),
                options_sold: Seq::empty(),
            }),
            position.within_limits(),
    {
        let position = Position {
            price,
            options_bought: Vec::new(),
            options_sold: Vec::new(),
            amount_owned,
        };
        assert(position@.options_bought =~= Seq::empty());
        assert(position@.options_sold =~= Seq::empty());
        position
    }
}

impl Default for Position {
    /// The empty position: nothing held at price zero.
    fn default() -> (position: Position)
        ensures
            position.price == 0,
            position.amount_owned == 0,
            position.options_bought@ == Seq::<OptionLeg>::empty(),
            position.options_sold@ == Seq::<OptionLeg>::empty(),
            position@ == (PositionView {
                price: 0,
                amount_owned: 0,
                options_bought: Seq::empty(),
                options_sold: Seq::empty(),
            }),
            position.within_limits(),
    {
        Position::no_options(0, 0)
    }
}

/// One point of a payoff chart.
#[derive(Clone, Copy, Debug, PartialEq, Eq, Structural)]
pub struct ChartPoint {
    /// A price of the underlying, in steps of the chart's axis: twentieths of
    /// a tick.
    pub x: i64,
    /// The gain or loss at that price, in steps times lots: twentieths of the
    /// money counted in ticks times lots.
    pub y: i128,
}

/// A payoff chart as two parallel columns: the prices, and the gain or loss
/// at each, counted as the points of a chart are.
#[derive(Clone, Debug, PartialEq, Eq)]
pub struct ReturnData {
    pub labels: Vec<i64>,
    pub data: Vec<i128>,
}

impl ReturnData {
    /// The columns of `points`: `labels` holds their prices and `data` their
    /// gains or losses, both in the order of `points`.
    pub fn from_points(points: &Vec<ChartPoint>) -> (columns: ReturnData)
        ensures
            columns.labels@ == points@.map_values(|point: ChartPoint| point.x),
            columns.data@ == points@.map_values(|point: ChartPoint| point.y),
    {
        let mut labels: Vec<i64> = Vec::with_capacity(points.len());
        let mut data: Vec<i128> = Vec::with_capacity(points.len());
        let mut i: usize = 0;
        while i < points.len()
            invariant
                i <= points.len(),
                labels@ == points@.take(i as int).map_values(|point: ChartPoint| point.x),
                data@ == points@.take(i as int).map_values(|point: ChartPoint| point.y),
            decreases points.len() - i,
        {
            labels.push(points[i].x);
            data.push(points[i].y);
            i += 1;
        }
        ReturnData { labels, data }
    }
}

} // verus!
