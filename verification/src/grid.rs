//! The linear grid strategy: a price range cut into evenly spaced zones.

use vstd::prelude::*;

use crate::decimal::add_res;
use crate::decimal::div_res;
use crate::decimal::mul_res;
use crate::decimal::sub_res;
use crate::decimal::trunc_model;
use crate::decimal::zero_v;
use crate::decimal::DecV;
use crate::decimal::Decimal;
use crate::math::Range;
use crate::position::Position;

verus! {

/// Parameters of the linear partition: an investment split evenly over
/// `copies` zones of one price range.
#[derive(Debug, Clone, PartialEq)]
pub struct Grid {
    pub investment: Decimal,
    pub range: Range<Decimal>,
    pub copies: usize,
}

/// The model value of `copies`.
pub open spec fn grid_copies_v(g: Grid) -> DecV {
    DecV { m: g.copies as int, s: 0 }
}

/// The rung width: the range divided into `copies + 1` steps, truncated to
/// 6 fractional digits.
pub open spec fn grid_interval(g: Grid) -> DecV {
    trunc_model(
        div_res(
            sub_res(g.range.spec_max(), g.range.spec_min()).unwrap(),
            add_res(grid_copies_v(g), DecV { m: 1, s: 0 }).unwrap(),
        ).unwrap(),
        6,
    )
}

/// Half a rung width.
pub open spec fn grid_half(g: Grid) -> DecV {
    div_res(grid_interval(g), DecV { m: 2, s: 0 }).unwrap()
}

/// The quote allocation of each zone: the investment divided by `copies`,
/// truncated to 6 fractional digits.
pub open spec fn grid_quota(g: Grid) -> DecV {
    trunc_model(div_res(g.investment@, grid_copies_v(g)).unwrap(), 6)
}

/// The lower bound of zone `i`'s buying band.
pub open spec fn grid_buy_lo(g: Grid, i: int) -> DecV {
    add_res(g.range.spec_min(), mul_res(grid_interval(g), DecV { m: i, s: 0 }).unwrap()).unwrap()
}

/// The upper bound of zone `i`'s buying band: half a rung above its lower
/// bound.
pub open spec fn grid_buy_hi(g: Grid, i: int) -> DecV {
    add_res(grid_buy_lo(g, i), grid_half(g)).unwrap()
}

/// The lower bound of zone `i`'s selling band: half a rung under the rung
/// two steps up.
pub open spec fn grid_sell_lo(g: Grid, i: int) -> DecV {
    sub_res(
        add_res(g.range.spec_min(), mul_res(grid_interval(g), DecV { m: i + 2, s: 0 }).unwrap()).unwrap(),
        grid_half(g),
    ).unwrap()
}

/// When the whole partition is representable: at least one zone, and every
/// arithmetic step lands inside the decimal range.
pub open spec fn grid_defined(g: Grid) -> bool {
    &&& g.copies >= 1
    &&& sub_res(g.range.spec_max(), g.range.spec_min()) is Some
    &&& add_res(grid_copies_v(g), DecV { m: 1, s: 0 }) is Some
    &&& div_res(
        sub_res(g.range.spec_max(), g.range.spec_min()).unwrap(),
        add_res(grid_copies_v(g), DecV { m: 1, s: 0 }).unwrap(),
    ) is Some
    &&& div_res(grid_interval(g), DecV { m: 2, s: 0 }) is Some
    &&& div_res(g.investment@, grid_copies_v(g)) is Some
    &&& forall|i: int|
        0 <= i < g.copies ==> {
            &&& #[trigger] mul_res(grid_interval(g), DecV { m: i, s: 0 }) is Some
            &&& add_res(
                g.range.spec_min(),
                mul_res(grid_interval(g), DecV { m: i, s: 0 }).unwrap(),
            ) is Some
            &&& add_res(grid_buy_lo(g, i), grid_half(g)) is Some
            &&& mul_res(grid_interval(g), DecV { m: i + 2, s: 0 }) is Some
            &&& add_res(
                g.range.spec_min(),
                mul_res(grid_interval(g), DecV { m: i + 2, s: 0 }).unwrap(),
            ) is Some
            &&& sub_res(
                add_res(
                    g.range.spec_min(),
                    mul_res(grid_interval(g), DecV { m: i + 2, s: 0 }).unwrap(),
                ).unwrap(),
                grid_half(g),
            ) is Some
        }
}

/// Zone `i` of the partition: one buying band half a rung wide starting at
/// rung `i`, one selling band from half a rung under rung `i + 2` to the
/// top of the range, no base inventory, and the even quota of the
/// investment as quote.
pub open spec fn grid_position_ok(g: Grid, p: Position, i: int) -> bool {
    &&& p.buying_prices@.len() == 1
    &&& p.buying_prices@[0].0@ == grid_buy_lo(g, i)
    &&& p.buying_prices@[0].1@ == grid_buy_hi(g, i)
    &&& p.selling_prices@.len() == 1
    &&& p.selling_prices@[0].0@ == grid_sell_lo(g, i)
    &&& p.selling_prices@[0].1@ == g.range.spec_max()
    &&& p.base_quantity@ == zero_v()
    &&& p.quote_quantity@ == grid_quota(g)
}

impl Grid {
    pub fn new(investment: Decimal, range: Range<Decimal>, copies: usize) -> (r: Grid)
        ensures
            r == (Grid { investment, range, copies }),
    {
        Grid { investment, range, copies }
    }

    /// Lays the partition out: one position per zone, each buying a local
    /// dip and selling into the rung two steps up.
    #[verifier::loop_isolation(false)]
    pub fn trap(&self) -> (r: Vec<Position>)
        requires
            grid_defined(*self),
        ensures
            r@.len() == self.copies,
            forall|i: int| 0 <= i < r@.len() ==> grid_position_ok(*self, #[trigger] r@[i], i),
    {
        let mut result: Vec<Position> = Vec::new();
        let copies = Decimal::from_u64(self.copies as u64);
        let price_highest = *self.range.max();
        let price_lowest = *self.range.min();

        let diff = price_highest.checked_sub(&price_lowest).unwrap();
        let denom = copies.checked_add(&Decimal::one()).unwrap();
        let interval = diff.checked_div(&denom).unwrap().trunc_with_scale(6);
        let quota = self.investment.checked_div(&copies).unwrap().trunc_with_scale(6);
        let half = interval.checked_div(&Decimal::two()).unwrap();

        let mut i: usize = 0;
        while i < self.copies
            invariant
                0 <= i <= self.copies,
                result@.len() == i,
                forall|j: int| 0 <= j < i ==> grid_position_ok(*self, #[trigger] result@[j], j),
            decreases self.copies - i,
        {
            let rung = Decimal::from_u64(i as u64);
            proof {
                crate::decimal::lemma_v_zero(DecV { m: i as int, s: 0 });
                crate::decimal::lemma_v_zero(DecV { m: 2, s: 0 });
                assert(crate::decimal::pow10(0) == 1);
            }
            let rung2 = rung.checked_add(&Decimal::two()).unwrap();
            proof {
                assert(rung2@ == (DecV { m: i + 2, s: 0 }));
            }
            let buying = price_lowest.checked_add(&interval.checked_mul(&rung).unwrap()).unwrap();
            let buy_hi = buying.checked_add(&half).unwrap();
            let selling = price_lowest.checked_add(
                &interval.checked_mul(&rung2).unwrap(),
            ).unwrap();
            let sell_lo = selling.checked_sub(&half).unwrap();

            let mut buying_prices: Vec<Range<Decimal>> = Vec::new();
            buying_prices.push(Range(buying, buy_hi));
            let mut selling_prices: Vec<Range<Decimal>> = Vec::new();
            selling_prices.push(Range(sell_lo, price_highest));
            let position = Position {
                buying_prices,
                selling_prices,
                base_quantity: Decimal::zero(),
                quote_quantity: quota,
            };
            result.push(position);
            i = i + 1;
        }
        result
    }
}

} // verus!
