//! The geometric grid strategy: a ladder of prices growing by a fixed
//! fraction, cut into overlapping windows of four rungs whose starts
//! advance by three, so consecutive zones share one boundary rung.

use vstd::prelude::*;

use crate::decimal::add_res;
use crate::decimal::mul_res;
use crate::decimal::sub_res;
use crate::decimal::trunc_model;
use crate::decimal::zero_v;
use crate::decimal::DecV;
use crate::decimal::Decimal;
use crate::math::Range;
use crate::position::Position;
use crate::strategy::Strategy;

verus! {

/// Parameters of the geometric partition: each rung sits `percent` above
/// the one below, and `percent_lost` (when strictly between zero and one)
/// adds a stop-loss exit band under each zone.
#[derive(Debug, Clone, PartialEq)]
pub struct GridPercent {
    pub investment: Decimal,
    pub range: Range<Decimal>,
    pub percent: Decimal,
    pub percent_lost: Decimal,
}

/// The growth factor of the ladder: `1 + percent`.
pub open spec fn gp_factor(g: GridPercent) -> DecV {
    add_res(DecV { m: 1, s: 0 }, g.percent@).unwrap()
}

/// The stop-loss factor: `1 - percent_lost`.
pub open spec fn gp_lost_factor(g: GridPercent) -> DecV {
    sub_res(DecV { m: 1, s: 0 }, g.percent_lost@).unwrap()
}

/// Whether a stop-loss band is added: the factor lies strictly between
/// zero and one.
pub open spec fn gp_stop_loss_active(g: GridPercent) -> bool {
    0 < gp_lost_factor(g).v() < (DecV { m: 1, s: 0 }).v()
}

/// Rung `n` of the price ladder: the bottom of the range, grown `n` times
/// by the factor and truncated to 12 fractional digits at each step.
pub open spec fn ladder_at(g: GridPercent, n: nat) -> Option<DecV>
    decreases n,
{
    if n == 0 {
        Some(g.range.spec_min())
    } else {
        match ladder_at(g, (n - 1) as nat) {
            None => None,
            Some(p) => match mul_res(p, gp_factor(g)) {
                None => None,
                Some(x) => Some(trunc_model(x, 12)),
            },
        }
    }
}

/// Rung `m` exists and still lies under the top of the range.
pub open spec fn ladder_ok_below(g: GridPercent, m: int) -> bool {
    ladder_at(g, m as nat) matches Some(p) && p.v() < g.range.spec_max().v()
}

/// `len` is the length of the generated ladder: every rung after the first
/// and before `len` lies under the top of the range, and rung `len` — the
/// first value not appended — reaches it.
pub open spec fn gp_ladder_len(g: GridPercent, len: int) -> bool {
    &&& len >= 1
    &&& (forall|m: int| 1 <= m < len ==> ladder_ok_below(g, m))
    &&& ladder_at(g, len as nat) matches Some(p) && p.v() >= g.range.spec_max().v()
}

/// When the partition is representable and the ladder stops: the factors
/// exist, the stop-loss product of every rung exists while stop-loss is
/// active, and some rung reaches the top of the range.
pub open spec fn gp_defined(g: GridPercent) -> bool {
    &&& add_res(DecV { m: 1, s: 0 }, g.percent@) is Some
    &&& sub_res(DecV { m: 1, s: 0 }, g.percent_lost@) is Some
    &&& (gp_stop_loss_active(g) ==> forall|n: nat|
        (#[trigger] ladder_at(g, n)) matches Some(p) ==> mul_res(p, gp_lost_factor(g)) is Some)
    &&& exists|n: nat|
        n >= 1 && ((#[trigger] ladder_at(g, n)) matches Some(p) && p.v()
            >= g.range.spec_max().v())
}

/// Zone `i` of the partition: a buying band between rungs `3i` and
/// `3i + 1`, a selling band from rung `3i + 2` to the top of the range,
/// the stop-loss exit band below that rung when active, no base inventory,
/// and the whole investment as quote.
pub open spec fn gp_position_ok(g: GridPercent, p: Position, i: int) -> bool {
    let b0 = ladder_at(g, (3 * i) as nat).unwrap();
    let b1 = ladder_at(g, (3 * i + 1) as nat).unwrap();
    let s0 = ladder_at(g, (3 * i + 2) as nat).unwrap();
    &&& p.buying_prices@.len() == 1
    &&& p.buying_prices@[0].0@ == b0
    &&& p.buying_prices@[0].1@ == b1
    &&& p.selling_prices@[0].0@ == s0
    &&& p.selling_prices@[0].1@ == g.range.spec_max()
    &&& if gp_stop_loss_active(g) {
        p.selling_prices@.len() == 2 && p.selling_prices@[1].0@ == zero_v()
            && p.selling_prices@[1].1@ == mul_res(s0, gp_lost_factor(g)).unwrap()
    } else {
        p.selling_prices@.len() == 1
    }
    &&& p.base_quantity@ == zero_v()
    &&& p.quote_quantity@ == g.investment@
}

/// What `assign_position` yields: one position per complete window of four
/// rungs, window starts three rungs apart.
pub open spec fn gp_post(g: GridPercent, ps: Seq<Position>) -> bool {
    &&& exists|len: int| #[trigger] gp_ladder_len(g, len) && ps.len() == (len - 1) / 3
    &&& forall|i: int| 0 <= i < ps.len() ==> gp_position_ok(g, #[trigger] ps[i], i)
}

/// A ladder defined at `b` is defined at every rung below.
pub proof fn lemma_ladder_some(g: GridPercent, a: nat, b: nat)
    requires
        a <= b,
        ladder_at(g, b) is Some,
    ensures
        ladder_at(g, a) is Some,
    decreases b,
{
    if a < b {
        lemma_ladder_some(g, a, (b - 1) as nat);
    }
}

impl GridPercent {
    pub fn new(investment: Decimal, range: Range<Decimal>, percent: Decimal, percent_lost: Decimal) -> (r: GridPercent)
        ensures
            r == (GridPercent { investment, range, percent, percent_lost }),
    {
        GridPercent { investment, range, percent, percent_lost }
    }

    /// Builds the ladder bottom-up until a rung reaches the top of the
    /// range, then cuts it into windows of four rungs — buy between the
    /// first two, sell from the third to the top — funding every zone with
    /// the whole investment. The window start advances by three rungs, so
    /// consecutive zones share one boundary rung; the fourth rung of each
    /// window serves only as the lookahead guard that the zone is
    /// complete. Fewer than four rungs yield no positions.
    pub fn assign_position(&self) -> (r: Vec<Position>)
        requires
            gp_defined(*self),
        ensures
            gp_post(*self, r@),
    {
        let ghost g = *self;
        let initial_price = *self.range.min();
        let termination_price = *self.range.max();
        let percentage_increase = Decimal::one().checked_add(&self.percent).unwrap();
        let percentage_lost = Decimal::one().checked_sub(&self.percent_lost).unwrap();

        let ghost n_stop = choose|n: nat|
            n >= 1 && ((#[trigger] ladder_at(g, n)) matches Some(p) && p.v()
                >= g.range.spec_max().v());

        let mut prices: Vec<Decimal> = Vec::new();
        prices.push(initial_price);
        let mut last = initial_price;
        loop
            invariant_except_break
                1 <= prices@.len() <= n_stop,
                n_stop >= 1,
                ladder_at(g, n_stop as nat) matches Some(p) && p.v() >= g.range.spec_max().v(),
                percentage_increase@ == gp_factor(g),
                termination_price@ == g.range.spec_max(),
                ladder_at(g, (prices@.len() - 1) as nat) == Some(last@),
                forall|m: int|
                    0 <= m < prices@.len() ==> ((#[trigger] ladder_at(g, m as nat)) matches Some(
                    p) && prices@[m]@ == p),
                forall|m: int| 1 <= m < prices@.len() ==> prices@[m]@.v() < termination_price@.v(),
            ensures
                gp_ladder_len(g, prices@.len() as int),
                forall|m: int|
                    0 <= m < prices@.len() ==> ((#[trigger] ladder_at(g, m as nat)) matches Some(
                    p) && prices@[m]@ == p),
            decreases n_stop - prices@.len(),
        {
            proof {
                lemma_ladder_some(g, prices@.len() as nat, n_stop as nat);
            }
            let new_price = last.checked_mul(&percentage_increase).unwrap().trunc_with_scale(12);
            proof {
                assert(ladder_at(g, prices@.len() as nat) == Some(new_price@));
            }
            if !new_price.lt(&termination_price) {
                break;
            }
            prices.push(new_price);
            last = new_price;
            proof {
                if prices@.len() > n_stop {
                    assert(prices@[n_stop as int]@.v() < termination_price@.v());
                    assert(false);
                }
            }
        }

        let mut positions: Vec<Position> = Vec::new();
        let mut i: usize = 0;
        while i < (prices.len() - 1) / 3
            invariant
                g == *self,
                gp_defined(g),
                prices@.len() >= 1,
                0 <= i <= (prices@.len() - 1) / 3,
                positions@.len() == i,
                gp_ladder_len(g, prices@.len() as int),
                termination_price@ == g.range.spec_max(),
                percentage_lost@ == gp_lost_factor(g),
                forall|m: int|
                    0 <= m < prices@.len() ==> ((#[trigger] ladder_at(g, m as nat)) matches Some(
                    p) && prices@[m]@ == p),
                forall|k: int| 0 <= k < i ==> gp_position_ok(g, #[trigger] positions@[k], k),
            decreases (prices@.len() - 1) / 3 - i,
        {
            let idx = 3 * i;
            let buy_0 = prices[idx];
            let buy_1 = prices[idx + 1];
            let sell_0 = prices[idx + 2];

            let mut selling_prices: Vec<Range<Decimal>> = Vec::new();
            selling_prices.push(Range(sell_0, termination_price));
            if Decimal::zero().lt(&percentage_lost) && percentage_lost.lt(&Decimal::one()) {
                proof {
                    assert((ladder_at(g, (idx + 2) as nat) matches Some(p) && prices@[idx + 2]@
                        == p));
                }
                let stop = sell_0.checked_mul(&percentage_lost).unwrap();
                selling_prices.push(Range(Decimal::zero(), stop));
            }
            let mut buying_prices: Vec<Range<Decimal>> = Vec::new();
            buying_prices.push(Range(buy_0, buy_1));
            positions.push(
                Position {
                    buying_prices,
                    selling_prices,
                    base_quantity: Decimal::zero(),
                    quote_quantity: self.investment,
                },
            );
            i = i + 1;
        }
        proof {
            assert(gp_ladder_len(g, prices@.len() as int) && positions@.len() == (
            prices@.len() as int - 1) / 3);
        }
        positions
    }
}

impl Strategy for GridPercent {
    open spec fn assignable(&self) -> bool {
        gp_defined(*self)
    }

    /// The geometric partition of the configured range; the full contract
    /// of the inherent `assign_position` carries over.
    fn assign_position(&self) -> (r: Vec<Position>)
        ensures
            gp_post(*self, r@),
    {
        GridPercent::assign_position(self)
    }
}

/// Stop-loss band law: while the stop-loss factor lies strictly between
/// zero and one, every assigned zone carries exactly two selling bands —
/// the rung-to-top band and the exit band from zero to the rung scaled by
/// the factor; otherwise exactly the one selling band.
pub proof fn lemma_stop_loss_bands(g: GridPercent, ps: Seq<Position>, i: int)
    requires
        gp_post(g, ps),
        0 <= i < ps.len(),
    ensures
        gp_stop_loss_active(g) ==> ps[i].selling_prices@.len() == 2
            && ps[i].selling_prices@[1].0@ == zero_v() && ps[i].selling_prices@[1].1@ == mul_res(
            ladder_at(g, (3 * i + 2) as nat).unwrap(),
            gp_lost_factor(g),
        ).unwrap(),
        !gp_stop_loss_active(g) ==> ps[i].selling_prices@.len() == 1,
{
    assert(gp_position_ok(g, ps[i], i));
}

} // verus!
