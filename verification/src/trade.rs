//! Executed fills, their cost model, and the aggregate profit of a history.

use vstd::prelude::*;

use crate::decimal::add_model;
use crate::decimal::add_res;
use crate::decimal::can_add_exact;
use crate::decimal::can_sub_exact;
use crate::decimal::div_res;
use crate::decimal::lemma_add_model_v;
use crate::decimal::lemma_sub_model_v;
use crate::decimal::mul_res;
use crate::decimal::spec_max_scale;
use crate::decimal::sub_model;
use crate::decimal::sub_res;
use crate::decimal::zero_v;
use crate::decimal::DecV;
use crate::decimal::Decimal;
use crate::time;

verus! {

/// The direction of a fill: a Buy converts quote into base, a Sell converts
/// base into quote.
#[derive(Debug, Clone, Copy, PartialEq, Eq, Structural)]
pub enum TradeSide {
    Buy,
    Sell,
}

/// Why a trading operation was refused.
#[derive(Debug, Clone, Copy, PartialEq, Eq, Structural)]
pub enum TradeError {
    /// A price at or below zero was submitted.
    InvalidPrice,
    /// A negative quantity was submitted.
    InvalidQuantity,
    /// The trading venue rejected the request.
    TraderFailure,
    /// An inventory update left the representable decimal range.
    Overflow,
}

/// The capability that places orders. Implementations convert a requested
/// amount into one or more fills at or near the given price, or fail; a
/// price at or below zero or a negative quantity must be refused.
pub trait Trader {
    /// Spends `quantity` of the quote asset buying base at `price`: fails on
    /// a non-positive price or a negative quantity, and every fill it
    /// reports is a Buy.
    fn buy(&self, price: &Decimal, quantity: &Decimal) -> (r: Result<Vec<Trade>, TradeError>)
        ensures
            price@.v() <= 0 || quantity@.v() < 0 ==> r is Err,
            r matches Ok(ts) ==> forall|i: int|
                0 <= i < ts@.len() ==> (#[trigger] ts@[i]).side == TradeSide::Buy,
    ;

    /// Sells `quantity` of the base asset at `price`: fails on a
    /// non-positive price or a negative quantity, and every fill it reports
    /// is a Sell.
    fn sell(&self, price: &Decimal, quantity: &Decimal) -> (r: Result<Vec<Trade>, TradeError>)
        ensures
            price@.v() <= 0 || quantity@.v() < 0 ==> r is Err,
            r matches Ok(ts) ==> forall|i: int|
                0 <= i < ts@.len() ==> (#[trigger] ts@[i]).side == TradeSide::Sell,
    ;
}

/// Something that reacts to an observed market price by attempting fills
/// through a `Trader`.
pub trait Executor {
    /// Reacts to one observed `price`.
    fn trap<T: Trader>(&mut self, agent: &T, price: &Decimal) -> Result<Vec<Trade>, TradeError>;
}

/// An executed fill, immutable once created.
#[derive(Debug, Clone, Copy)]
pub struct Trade {
    pub side: TradeSide,
    /// Price the fill was executed at.
    pub price: Decimal,
    /// Actual base amount moved by the fill.
    pub base_quantity: Decimal,
    /// Actual quote amount moved by the fill.
    pub quote_quantity: Decimal,
    /// Wall-clock milliseconds at construction.
    pub timestamp: u128,
}

/// The decimals of a trade lie in the representable range.
pub open spec fn trade_wf(t: Trade) -> bool {
    t.price@.wf() && t.base_quantity@.wf() && t.quote_quantity@.wf()
}

impl Trade {
    pub fn new(
        side: TradeSide,
        price: Decimal,
        base_quantity: Decimal,
        quote_quantity: Decimal,
        timestamp: u128,
    ) -> (r: Trade)
        ensures
            r == (Trade { side, price, base_quantity, quote_quantity, timestamp }),
    {
        Trade { side, price, base_quantity, quote_quantity, timestamp }
    }

    /// A Buy fill at the current wall-clock time.
    pub fn with_buy(price: Decimal, base_quantity: Decimal, quote_quantity: Decimal) -> (r: Trade)
        ensures
            r.side == TradeSide::Buy,
            r.price == price,
            r.base_quantity == base_quantity,
            r.quote_quantity == quote_quantity,
    {
        Trade::new(TradeSide::Buy, price, base_quantity, quote_quantity, time::timestamp())
    }

    /// A Sell fill at the current wall-clock time.
    pub fn with_sell(price: Decimal, base_quantity: Decimal, quote_quantity: Decimal) -> (r: Trade)
        ensures
            r.side == TradeSide::Sell,
            r.price == price,
            r.base_quantity == base_quantity,
            r.quote_quantity == quote_quantity,
    {
        Trade::new(TradeSide::Sell, price, base_quantity, quote_quantity, time::timestamp())
    }

    /// A Buy fill at the current wall-clock time.
    pub fn with_buy_side(price: Decimal, base_quantity: Decimal, quote_quantity: Decimal) -> (r:
        Trade)
        ensures
            r.side == TradeSide::Buy,
            r.price == price,
            r.base_quantity == base_quantity,
            r.quote_quantity == quote_quantity,
    {
        Trade::with_buy(price, base_quantity, quote_quantity)
    }

    /// A Sell fill at the current wall-clock time.
    pub fn with_sell_side(price: Decimal, base_quantity: Decimal, quote_quantity: Decimal) -> (r:
        Trade)
        ensures
            r.side == TradeSide::Sell,
            r.price == price,
            r.base_quantity == base_quantity,
            r.quote_quantity == quote_quantity,
    {
        Trade::with_sell(price, base_quantity, quote_quantity)
    }

    /// The quote value lost to slippage or fees: the gap between an ideal
    /// conversion at the quoted price and the recorded quantities.
    pub fn costs(&self) -> (r: Decimal)
        requires
            costs_defined(*self),
        ensures
            r@ == spec_costs(*self),
    {
        match self.side {
            TradeSide::Buy => {
                let orgin_base = self.quote_quantity.checked_div(&self.price).unwrap();
                if self.base_quantity == orgin_base {
                    Decimal::zero()
                } else {
                    let diff = orgin_base.checked_sub(&self.base_quantity).unwrap();
                    diff.checked_mul(&self.price).unwrap()
                }
            },
            TradeSide::Sell => {
                let orgin_quote = self.base_quantity.checked_mul(&self.price).unwrap();
                if self.quote_quantity == orgin_quote {
                    Decimal::zero()
                } else {
                    orgin_quote.checked_sub(&self.quote_quantity).unwrap()
                }
            },
        }
    }

    /// The net signed change `(base, quote)` that a trade history applies to
    /// an inventory: Buys gain base and spend quote, Sells the reverse.
    pub fn profit(value: &Vec<Trade>) -> (r: (Decimal, Decimal))
        requires
            profit_fold(value@) is Some || profit_fits(value@),
        ensures
            profit_fold(value@) is Some,
            r.0@ == profit_fold(value@).unwrap().0,
            r.1@ == profit_fold(value@).unwrap().1,
            profit_fits(value@) ==> r.0@.v() == signed_base(value@) && r.1@.v() == signed_quote(
                value@,
            ),
    {
        let ghost s = value@;
        let mut base = Decimal::zero();
        let mut quote = Decimal::zero();
        let mut i: usize = 0;
        while i < value.len()
            invariant
                0 <= i <= s.len(),
                value@ == s,
                profit_fold(s) is Some || profit_fits(s),
                profit_fold(s.take(i as int)) is Some,
                base@ == profit_fold(s.take(i as int)).unwrap().0,
                quote@ == profit_fold(s.take(i as int)).unwrap().1,
                profit_fits(s) ==> profit_fits(s.take(i as int)) && base@ == profit_model(
                    s.take(i as int),
                ).0 && quote@ == profit_model(s.take(i as int)).1,
                forall|j: int| 0 <= j < i ==> trade_wf(s[j]),
            decreases s.len() - i,
        {
            let t = &value[i];
            proof {
                use_type_invariant(&t.price);
                use_type_invariant(&t.base_quantity);
                use_type_invariant(&t.quote_quantity);
                assert(s.take(i + 1).drop_last() =~= s.take(i as int));
                assert(s.take(i + 1).last() == s[i as int]);
                if profit_fold(s) is Some {
                    lemma_profit_fold_prefix(s, i + 1);
                }
                if profit_fits(s) {
                    lemma_profit_fits_prefix(s, i + 1);
                }
            }
            match t.side {
                TradeSide::Buy => {
                    base = base.checked_add(&t.base_quantity).unwrap();
                    quote = quote.checked_sub(&t.quote_quantity).unwrap();
                },
                TradeSide::Sell => {
                    base = base.checked_sub(&t.base_quantity).unwrap();
                    quote = quote.checked_add(&t.quote_quantity).unwrap();
                },
            }
            i = i + 1;
        }
        proof {
            assert(s.take(s.len() as int) =~= s);
            if profit_fits(s) {
                lemma_profit_model_v(s);
            }
        }
        (base, quote)
    }
}

/// When the cost of a trade is representable: the ideal conversion at the
/// quoted price exists, and so does the difference from the recorded
/// quantities.
pub open spec fn costs_defined(t: Trade) -> bool {
    match t.side {
        TradeSide::Buy => div_res(t.quote_quantity@, t.price@) matches Some(orgin) && (orgin.v()
            == t.base_quantity@.v() || (sub_res(orgin, t.base_quantity@) matches Some(diff)
            && mul_res(diff, t.price@) is Some)),
        TradeSide::Sell => mul_res(t.base_quantity@, t.price@) matches Some(orgin) && (
        t.quote_quantity@.v() == orgin.v() || sub_res(orgin, t.quote_quantity@) is Some),
    }
}

/// The cost of a trade. For a Buy, the shortfall of the received base
/// against `quote / price`, valued at the price; for a Sell, the shortfall
/// of the received quote against `base * price`.
pub open spec fn spec_costs(t: Trade) -> DecV {
    match t.side {
        TradeSide::Buy => {
            let orgin = div_res(t.quote_quantity@, t.price@).unwrap();
            if orgin.v() == t.base_quantity@.v() {
                zero_v()
            } else {
                mul_res(sub_res(orgin, t.base_quantity@).unwrap(), t.price@).unwrap()
            }
        },
        TradeSide::Sell => {
            let orgin = mul_res(t.base_quantity@, t.price@).unwrap();
            if t.quote_quantity@.v() == orgin.v() {
                zero_v()
            } else {
                sub_res(orgin, t.quote_quantity@).unwrap()
            }
        },
    }
}

/// The signed base/quote delta of a history, folded left to right through
/// decimal arithmetic; `None` as soon as a step cannot be represented.
pub open spec fn profit_fold(s: Seq<Trade>) -> Option<(DecV, DecV)>
    decreases s.len(),
{
    if s.len() == 0 {
        Some((zero_v(), zero_v()))
    } else {
        match profit_fold(s.drop_last()) {
            None => None,
            Some(acc) => {
                let t = s.last();
                match t.side {
                    TradeSide::Buy => match (
                        add_res(acc.0, t.base_quantity@),
                        sub_res(acc.1, t.quote_quantity@),
                    ) {
                        (Some(b), Some(q)) => Some((b, q)),
                        _ => None,
                    },
                    TradeSide::Sell => match (
                        sub_res(acc.0, t.base_quantity@),
                        add_res(acc.1, t.quote_quantity@),
                    ) {
                        (Some(b), Some(q)) => Some((b, q)),
                        _ => None,
                    },
                }
            },
        }
    }
}

/// The same fold under the assumption that every step is exact.
pub open spec fn profit_model(s: Seq<Trade>) -> (DecV, DecV)
    decreases s.len(),
{
    if s.len() == 0 {
        (zero_v(), zero_v())
    } else {
        let acc = profit_model(s.drop_last());
        let t = s.last();
        match t.side {
            TradeSide::Buy => (
                add_model(acc.0, t.base_quantity@),
                sub_model(acc.1, t.quote_quantity@),
            ),
            TradeSide::Sell => (
                sub_model(acc.0, t.base_quantity@),
                add_model(acc.1, t.quote_quantity@),
            ),
        }
    }
}

/// Every partial sum of the profit fold stays within 96 bits, so the whole
/// fold is exact.
pub open spec fn profit_fits(s: Seq<Trade>) -> bool
    decreases s.len(),
{
    if s.len() == 0 {
        true
    } else {
        profit_fits(s.drop_last()) && {
            let acc = profit_model(s.drop_last());
            let t = s.last();
            match t.side {
                TradeSide::Buy => can_add_exact(acc.0, t.base_quantity@) && can_sub_exact(
                    acc.1,
                    t.quote_quantity@,
                ),
                TradeSide::Sell => can_sub_exact(acc.0, t.base_quantity@) && can_add_exact(
                    acc.1,
                    t.quote_quantity@,
                ),
            }
        }
    }
}

/// The base delta of a history: the sum of Buy base amounts minus Sell base
/// amounts.
pub open spec fn signed_base(s: Seq<Trade>) -> int
    decreases s.len(),
{
    if s.len() == 0 {
        0
    } else {
        signed_base(s.drop_last()) + match s.last().side {
            TradeSide::Buy => s.last().base_quantity@.v(),
            TradeSide::Sell => -s.last().base_quantity@.v(),
        }
    }
}

/// The quote delta of a history: the sum of Sell quote amounts minus Buy
/// quote amounts.
pub open spec fn signed_quote(s: Seq<Trade>) -> int
    decreases s.len(),
{
    if s.len() == 0 {
        0
    } else {
        signed_quote(s.drop_last()) + match s.last().side {
            TradeSide::Buy => -s.last().quote_quantity@.v(),
            TradeSide::Sell => s.last().quote_quantity@.v(),
        }
    }
}

/// `start` plus the quote amount of each fill, left to right; `None` as
/// soon as a sum cannot be represented.
pub open spec fn quote_fold(q: DecV, s: Seq<Trade>) -> Option<DecV>
    decreases s.len(),
{
    if s.len() == 0 {
        Some(q)
    } else {
        match quote_fold(q, s.drop_last()) {
            None => None,
            Some(acc) => add_res(acc, s.last().quote_quantity@),
        }
    }
}

/// `start` plus the base amount of each fill, left to right.
pub open spec fn base_fold(b: DecV, s: Seq<Trade>) -> Option<DecV>
    decreases s.len(),
{
    if s.len() == 0 {
        Some(b)
    } else {
        match base_fold(b, s.drop_last()) {
            None => None,
            Some(acc) => add_res(acc, s.last().base_quantity@),
        }
    }
}

/// A quote fold that fails on a prefix fails on the whole sequence.
pub proof fn lemma_quote_fold_none(q: DecV, s: Seq<Trade>, i: int)
    requires
        0 <= i <= s.len(),
        quote_fold(q, s.take(i)) is None,
    ensures
        quote_fold(q, s) is None,
    decreases s.len() - i,
{
    if i == s.len() {
        assert(s.take(i) =~= s);
    } else {
        assert(s.take(i + 1).drop_last() =~= s.take(i));
        lemma_quote_fold_none(q, s, i + 1);
    }
}

/// A base fold that fails on a prefix fails on the whole sequence.
pub proof fn lemma_base_fold_none(b: DecV, s: Seq<Trade>, i: int)
    requires
        0 <= i <= s.len(),
        base_fold(b, s.take(i)) is None,
    ensures
        base_fold(b, s) is None,
    decreases s.len() - i,
{
    if i == s.len() {
        assert(s.take(i) =~= s);
    } else {
        assert(s.take(i + 1).drop_last() =~= s.take(i));
        lemma_base_fold_none(b, s, i + 1);
    }
}

/// The quote on hand after collecting the quote side of every fill:
/// `start` plus the fills' quote amounts, or `Overflow` as soon as a sum
/// leaves the representable range.
#[verifier::loop_isolation(false)]
pub fn quote_after_fills(start: &Decimal, fills: &Vec<Trade>) -> (r: Result<Decimal, TradeError>)
    ensures
        r is Ok <==> quote_fold(start@, fills@) is Some,
        r matches Ok(d) ==> quote_fold(start@, fills@) == Some(d@),
        r matches Err(e) ==> e == TradeError::Overflow,
{
    let ghost s = fills@;
    let mut acc = *start;
    let mut i: usize = 0;
    while i < fills.len()
        invariant
            0 <= i <= s.len(),
            quote_fold(start@, s.take(i as int)) == Some(acc@),
        decreases s.len() - i,
    {
        proof {
            assert(s.take(i + 1).drop_last() =~= s.take(i as int));
            assert(s.take(i + 1).last() == s[i as int]);
        }
        acc = match acc.checked_add(&fills[i].quote_quantity) {
            Some(x) => x,
            None => {
                proof {
                    lemma_quote_fold_none(start@, s, i + 1);
                }
                return Err(TradeError::Overflow);
            },
        };
        i = i + 1;
    }
    proof {
        assert(s.take(s.len() as int) =~= s);
    }
    Ok(acc)
}

/// The base on hand after collecting the base side of every fill: `start`
/// plus the fills' base amounts, or `Overflow` as soon as a sum leaves the
/// representable range.
#[verifier::loop_isolation(false)]
pub fn base_after_fills(start: &Decimal, fills: &Vec<Trade>) -> (r: Result<Decimal, TradeError>)
    ensures
        r is Ok <==> base_fold(start@, fills@) is Some,
        r matches Ok(d) ==> base_fold(start@, fills@) == Some(d@),
        r matches Err(e) ==> e == TradeError::Overflow,
{
    let ghost s = fills@;
    let mut acc = *start;
    let mut i: usize = 0;
    while i < fills.len()
        invariant
            0 <= i <= s.len(),
            base_fold(start@, s.take(i as int)) == Some(acc@),
        decreases s.len() - i,
    {
        proof {
            assert(s.take(i + 1).drop_last() =~= s.take(i as int));
            assert(s.take(i + 1).last() == s[i as int]);
        }
        acc = match acc.checked_add(&fills[i].base_quantity) {
            Some(x) => x,
            None => {
                proof {
                    lemma_base_fold_none(start@, s, i + 1);
                }
                return Err(TradeError::Overflow);
            },
        };
        i = i + 1;
    }
    proof {
        assert(s.take(s.len() as int) =~= s);
    }
    Ok(acc)
}

/// A fold that succeeds on a whole history succeeds on each prefix.
pub proof fn lemma_profit_fold_prefix(s: Seq<Trade>, i: int)
    requires
        profit_fold(s) is Some,
        0 <= i <= s.len(),
    ensures
        profit_fold(s.take(i)) is Some,
    decreases s.len() - i,
{
    if i == s.len() {
        assert(s.take(i) =~= s);
    } else {
        lemma_profit_fold_prefix(s, i + 1);
        assert(s.take(i + 1).drop_last() =~= s.take(i));
    }
}

/// A history whose partial sums all fit has prefixes whose partial sums all
/// fit.
pub proof fn lemma_profit_fits_prefix(s: Seq<Trade>, i: int)
    requires
        profit_fits(s),
        0 <= i <= s.len(),
    ensures
        profit_fits(s.take(i)),
    decreases s.len() - i,
{
    if i == s.len() {
        assert(s.take(i) =~= s);
    } else {
        lemma_profit_fits_prefix(s, i + 1);
        assert(s.take(i + 1).drop_last() =~= s.take(i));
    }
}

/// The exact profit fold denotes the signed base and quote sums, and its
/// partial results keep scales within range.
pub proof fn lemma_profit_model_v(s: Seq<Trade>)
    requires
        forall|j: int| 0 <= j < s.len() ==> trade_wf(#[trigger] s[j]),
    ensures
        0 <= profit_model(s).0.s <= spec_max_scale(),
        0 <= profit_model(s).1.s <= spec_max_scale(),
        profit_model(s).0.v() == signed_base(s),
        profit_model(s).1.v() == signed_quote(s),
    decreases s.len(),
{
    if s.len() > 0 {
        assert(forall|j: int| 0 <= j < s.drop_last().len() ==> trade_wf(
            #[trigger] s.drop_last()[j],
        ));
        lemma_profit_model_v(s.drop_last());
        let acc = profit_model(s.drop_last());
        let t = s.last();
        assert(trade_wf(t));
        match t.side {
            TradeSide::Buy => {
                lemma_add_model_v(acc.0, t.base_quantity@);
                lemma_sub_model_v(acc.1, t.quote_quantity@);
            },
            TradeSide::Sell => {
                lemma_sub_model_v(acc.0, t.base_quantity@);
                lemma_add_model_v(acc.1, t.quote_quantity@);
            },
        }
    }
}

impl PartialEq for Trade {
    /// Two trades are the same fill when side, price, and both quantities
    /// agree; the construction timestamp carries no identity.
    fn eq(&self, other: &Trade) -> (r: bool) {
        self.side == other.side && self.price == other.price && self.base_quantity
            == other.base_quantity && self.quote_quantity == other.quote_quantity
    }
}

impl vstd::std_specs::cmp::PartialEqSpecImpl for Trade {
    open spec fn obeys_eq_spec() -> bool {
        true
    }

    open spec fn eq_spec(&self, other: &Trade) -> bool {
        self.side == other.side && self.price@.v() == other.price@.v() && self.base_quantity@.v()
            == other.base_quantity@.v() && self.quote_quantity@.v() == other.quote_quantity@.v()
    }
}

} // verus!
