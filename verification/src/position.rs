//! Trading zones: price bands plus the inventory they manage.

use vstd::prelude::*;

use crate::decimal::add_res;
use crate::decimal::spec_mantissa_bound;
use crate::decimal::sub_res;
use crate::decimal::zero_v;
use crate::decimal::DecV;
use crate::decimal::Decimal;
use crate::math::Range;
use crate::trade::base_after_fills;
use crate::trade::base_fold;
use crate::trade::quote_after_fills;
use crate::trade::quote_fold;
use crate::trade::Executor;
use crate::trade::Trade;
use crate::trade::TradeError;
use crate::trade::TradeSide;
use crate::trade::Trader;

verus! {

/// One independently funded trading zone: bands where it may buy or sell,
/// and its current inventory in the base and quote assets.
#[derive(Debug, Clone, PartialEq)]
pub struct Position {
    pub buying_prices: Vec<Range<Decimal>>,
    pub selling_prices: Vec<Range<Decimal>>,
    pub base_quantity: Decimal,
    pub quote_quantity: Decimal,
}

/// Whether `x` lies in any of the bands.
pub open spec fn in_bands(s: Seq<Range<Decimal>>, x: int) -> bool {
    exists|j: int| 0 <= j < s.len() && (#[trigger] s[j]).spec_contains(x)
}

/// The largest band maximum, folded left to right from the zero sentinel.
pub open spec fn spec_max_buying(s: Seq<Range<Decimal>>) -> DecV
    decreases s.len(),
{
    if s.len() == 0 {
        DecV { m: 0, s: 0 }
    } else {
        let acc = spec_max_buying(s.drop_last());
        if s.last().spec_max().v() > acc.v() {
            s.last().spec_max()
        } else {
            acc
        }
    }
}

/// The smallest band minimum, folded left to right from the largest
/// representable decimal as sentinel.
pub open spec fn spec_min_selling(s: Seq<Range<Decimal>>) -> DecV
    decreases s.len(),
{
    if s.len() == 0 {
        DecV { m: spec_mantissa_bound() - 1, s: 0 }
    } else {
        let acc = spec_min_selling(s.drop_last());
        if s.last().spec_min().v() < acc.v() {
            s.last().spec_min()
        } else {
            acc
        }
    }
}

/// Applying Sell fills to an inventory, left to right: each fill removes
/// its base amount and adds its quote amount. `None` as soon as a step
/// cannot be represented.
pub open spec fn apply_sells(b: DecV, q: DecV, s: Seq<Trade>) -> Option<(DecV, DecV)>
    decreases s.len(),
{
    if s.len() == 0 {
        Some((b, q))
    } else {
        match apply_sells(b, q, s.drop_last()) {
            None => None,
            Some(acc) => {
                let t = s.last();
                match (sub_res(acc.0, t.base_quantity@), add_res(acc.1, t.quote_quantity@)) {
                    (Some(nb), Some(nq)) => Some((nb, nq)),
                    _ => None,
                }
            },
        }
    }
}

/// Applying Buy fills to an inventory, left to right: each fill adds its
/// base amount and removes its quote amount.
pub open spec fn apply_buys(b: DecV, q: DecV, s: Seq<Trade>) -> Option<(DecV, DecV)>
    decreases s.len(),
{
    if s.len() == 0 {
        Some((b, q))
    } else {
        match apply_buys(b, q, s.drop_last()) {
            None => None,
            Some(acc) => {
                let t = s.last();
                match (add_res(acc.0, t.base_quantity@), sub_res(acc.1, t.quote_quantity@)) {
                    (Some(nb), Some(nq)) => Some((nb, nq)),
                    _ => None,
                }
            },
        }
    }
}

/// The bands of `post` are those of `pre`: a fill changes inventory only.
pub open spec fn bands_unchanged(pre: Position, post: Position) -> bool {
    post.buying_prices@ == pre.buying_prices@ && post.selling_prices@ == pre.selling_prices@
}

/// How one call to `trap` relates the old and new state to the returned
/// trades: the first `k` trades are the Sell leg, applied first; the rest
/// are the Buy leg, applied to the intermediate inventory. A leg is empty
/// whenever its band does not contain the price or its funding side is
/// empty at the moment it is decided.
pub open spec fn trap_split(pre: Position, post: Position, price: int, ts: Seq<Trade>, k: int) -> bool {
    &&& 0 <= k <= ts.len()
    &&& (!(in_bands(pre.selling_prices@, price) && pre.base_quantity@.v() != 0) ==> k == 0)
    &&& (forall|j: int| 0 <= j < k ==> (#[trigger] ts[j]).side == TradeSide::Sell)
    &&& (forall|j: int| k <= j < ts.len() ==> (#[trigger] ts[j]).side == TradeSide::Buy)
    &&& apply_sells(pre.base_quantity@, pre.quote_quantity@, ts.take(k)) matches Some(mid) && {
        &&& (!(in_bands(pre.buying_prices@, price) && mid.1.v() != 0) ==> k == ts.len())
        &&& apply_buys(mid.0, mid.1, ts.skip(k)) matches Some(fin) && post.base_quantity@ == fin.0
            && post.quote_quantity@ == fin.1
    }
}

/// The state a failed `trap` call leaves behind: the old inventory with
/// some Sell fills applied and committed — nothing (the failure came
/// before the Sell leg committed) or the whole Sell leg (the failure came
/// in the Buy leg). Bands never change.
pub open spec fn position_err_state(pre: Position, post: Position) -> bool {
    exists|ts: Seq<Trade>|
        {
            &&& (forall|j: int| 0 <= j < ts.len() ==> (#[trigger] ts[j]).side == TradeSide::Sell)
            &&& ((#[trigger] apply_sells(pre.base_quantity@, pre.quote_quantity@, ts)) matches Some(
                mid,
            ) && post.base_quantity@ == mid.0 && post.quote_quantity@ == mid.1)
        }
}

/// The observable outcome of a successful `trap` call: some prefix of the
/// returned trades forms the Sell leg and the rest the Buy leg.
pub open spec fn trap_post(pre: Position, post: Position, price: int, ts: Seq<Trade>) -> bool {
    exists|k: int| trap_split(pre, post, price, ts, k)
}

/// The observable outcome of a successful `min_profit_trades` call: the
/// returned trades split into the three legs.
pub open spec fn min_profit_post(p: Position, ts: Seq<Trade>) -> bool {
    exists|k1: int, k2: int| min_profit_split(p, ts, k1, k2)
}

/// How the trades of one `min_profit_trades` call are laid out: a Sell leg
/// (empty when the position started short), then a Buy leg, then the
/// closing Sell leg. The Buy leg was funded with the position's quote plus
/// the Sell leg's proceeds (`quote_fold` over the first segment), and the
/// closing Sell disposed of the base the Buy leg yielded (`base_fold` over
/// the second segment); both folds are representable.
pub open spec fn min_profit_split(p: Position, ts: Seq<Trade>, k1: int, k2: int) -> bool {
    &&& 0 <= k1 <= k2 <= ts.len()
    &&& (p.spec_is_short() ==> k1 == 0)
    &&& quote_fold(p.quote_quantity@, ts.subrange(0, k1)) is Some
    &&& base_fold(zero_v(), ts.subrange(k1, k2)) is Some
    &&& (forall|j: int| 0 <= j < k1 ==> (#[trigger] ts[j]).side == TradeSide::Sell)
    &&& (forall|j: int| k1 <= j < k2 ==> (#[trigger] ts[j]).side == TradeSide::Buy)
    &&& (forall|j: int| k2 <= j < ts.len() ==> (#[trigger] ts[j]).side == TradeSide::Sell)
}

impl Position {
    /// Short means no base inventory at all.
    pub open spec fn spec_is_short(self) -> bool {
        self.base_quantity@.v() == 0
    }

    /// Whether the position holds no base asset.
    pub fn is_short(&self) -> (r: bool)
        ensures
            r <==> self.spec_is_short(),
    {
        self.base_quantity.is_zero()
    }

    /// The highest price this position is still willing to buy at: the
    /// largest maximum over the buying bands, or zero when there are none.
    pub fn max_buying_price(&self) -> (r: Decimal)
        ensures
            r@ == spec_max_buying(self.buying_prices@),
    {
        let ghost s = self.buying_prices@;
        let mut max_buy_price = Decimal::zero();
        let mut i: usize = 0;
        while i < self.buying_prices.len()
            invariant
                0 <= i <= s.len(),
                self.buying_prices@ == s,
                max_buy_price@ == spec_max_buying(s.take(i as int)),
            decreases s.len() - i,
        {
            proof {
                assert(s.take(i + 1).drop_last() =~= s.take(i as int));
                assert(s.take(i + 1).last() == s[i as int]);
            }
            let m = *self.buying_prices[i].max();
            if max_buy_price.lt(&m) {
                max_buy_price = m;
            }
            i = i + 1;
        }
        proof {
            assert(s.take(s.len() as int) =~= s);
        }
        max_buy_price
    }

    /// The lowest price this position is still willing to sell at: the
    /// smallest minimum over the selling bands, or the largest representable
    /// decimal when there are none.
    pub fn min_selling_price(&self) -> (r: Decimal)
        ensures
            r@ == spec_min_selling(self.selling_prices@),
    {
        let ghost s = self.selling_prices@;
        let mut min_sell_price = Decimal::max_value();
        let mut i: usize = 0;
        while i < self.selling_prices.len()
            invariant
                0 <= i <= s.len(),
                self.selling_prices@ == s,
                min_sell_price@ == spec_min_selling(s.take(i as int)),
            decreases s.len() - i,
        {
            proof {
                assert(s.take(i + 1).drop_last() =~= s.take(i as int));
                assert(s.take(i + 1).last() == s[i as int]);
            }
            let m = *self.selling_prices[i].min();
            if m.lt(&min_sell_price) {
                min_sell_price = m;
            }
            i = i + 1;
        }
        proof {
            assert(s.take(s.len() as int) =~= s);
        }
        min_sell_price
    }

    /// Whether `value` lies in any buying band.
    pub fn is_within_buying_price(&self, value: &Decimal) -> (r: bool)
        ensures
            r <==> in_bands(self.buying_prices@, value@.v()),
    {
        if self.buying_prices.is_empty() {
            return false;
        }
        let mut i: usize = 0;
        while i < self.buying_prices.len()
            invariant
                0 <= i <= self.buying_prices@.len(),
                forall|j: int| 0 <= j < i ==> !(#[trigger] self.buying_prices@[j]).spec_contains(
                    value@.v(),
                ),
            decreases self.buying_prices@.len() - i,
        {
            if self.buying_prices[i].is_within(value) {
                return true;
            }
            i = i + 1;
        }
        false
    }

    /// Reacts to one observed price: if the price sits in a selling band
    /// and base inventory is held, sells it all; then, if the price sits in
    /// a buying band and quote remains, spends the quote buying. The fills
    /// the trader reports are applied to the inventory leg by leg; a
    /// failure aborts the call and keeps whatever an earlier leg already
    /// committed.
    #[verifier::loop_isolation(false)]
    pub fn trap<T: Trader>(&mut self, agent: &T, price: &Decimal) -> (r: Result<
        Vec<Trade>,
        TradeError,
    >)
        ensures
            bands_unchanged(*old(self), *final(self)),
            !(in_bands(old(self).selling_prices@, price@.v()) && old(self).base_quantity@.v()
                != 0) && !(in_bands(old(self).buying_prices@, price@.v())
                && old(self).quote_quantity@.v() != 0) ==> (r matches Ok(ts) && ts@.len() == 0
                && *final(self) == *old(self)),
            r is Ok ==> trap_post(*old(self), *final(self), price@.v(), (r->Ok_0)@),
            r is Err ==> position_err_state(*old(self), *final(self)),
            r is Err && !(in_bands(old(self).selling_prices@, price@.v())
                && old(self).base_quantity@.v() != 0) ==> *final(self) == *old(self),
    {
        let ghost pre = *self;
        let mut trades: Vec<Trade> = Vec::new();
        if self.is_within_selling_price(price) && !self.base_quantity.is_zero() {
            let sold = match agent.sell(price, &self.base_quantity) {
                Ok(v) => v,
                Err(e) => {
                    proof {
                        assert(apply_sells(
                            pre.base_quantity@,
                            pre.quote_quantity@,
                            Seq::<Trade>::empty(),
                        ) == Some((pre.base_quantity@, pre.quote_quantity@)));
                        assert(position_err_state(pre, *self));
                    }
                    return Err(e);
                },
            };
            let mut nb = self.base_quantity;
            let mut nq = self.quote_quantity;
            let mut i: usize = 0;
            while i < sold.len()
                invariant
                    0 <= i <= sold@.len(),
                    *self == pre,
                    trades@ == sold@.take(i as int),
                    apply_sells(pre.base_quantity@, pre.quote_quantity@, sold@.take(i as int))
                        == Some((nb@, nq@)),
                    forall|j: int|
                        0 <= j < sold@.len() ==> (#[trigger] sold@[j]).side == TradeSide::Sell,
                decreases sold@.len() - i,
            {
                proof {
                    assert(sold@.take(i + 1).drop_last() =~= sold@.take(i as int));
                    assert(sold@.take(i + 1).last() == sold@[i as int]);
                    assert(apply_sells(
                        pre.base_quantity@,
                        pre.quote_quantity@,
                        Seq::<Trade>::empty(),
                    ) == Some((pre.base_quantity@, pre.quote_quantity@)));
                }
                let t = sold[i];
                nb = match nb.checked_sub(&t.base_quantity) {
                    Some(x) => x,
                    None => {
                        proof {
                            assert(position_err_state(pre, *self));
                        }
                        return Err(TradeError::Overflow);
                    },
                };
                nq = match nq.checked_add(&t.quote_quantity) {
                    Some(x) => x,
                    None => {
                        proof {
                            assert(position_err_state(pre, *self));
                        }
                        return Err(TradeError::Overflow);
                    },
                };
                trades.push(t);
                proof {
                    assert(trades@ =~= sold@.take(i + 1));
                }
                i = i + 1;
            }
            proof {
                assert(sold@.take(sold@.len() as int) =~= sold@);
            }
            self.base_quantity = nb;
            self.quote_quantity = nq;
        }
        let ghost k = trades@.len() as int;
        let ghost sell_part = trades@;
        let ghost mid = (self.base_quantity@, self.quote_quantity@);
        proof {
            assert(apply_sells(pre.base_quantity@, pre.quote_quantity@, sell_part) == Some(mid));
        }
        if self.is_within_buying_price(price) && !self.quote_quantity.is_zero() {
            let bought = match agent.buy(price, &self.quote_quantity) {
                Ok(v) => v,
                Err(e) => {
                    proof {
                        assert(position_err_state(pre, *self));
                    }
                    return Err(e);
                },
            };
            let mut nb = self.base_quantity;
            let mut nq = self.quote_quantity;
            let mut i: usize = 0;
            while i < bought.len()
                invariant
                    0 <= i <= bought@.len(),
                    self.base_quantity@ == mid.0,
                    self.quote_quantity@ == mid.1,
                    bands_unchanged(pre, *self),
                    apply_sells(pre.base_quantity@, pre.quote_quantity@, sell_part) == Some(mid),
                    trades@ == sell_part + bought@.take(i as int),
                    apply_buys(mid.0, mid.1, bought@.take(i as int)) == Some((nb@, nq@)),
                    forall|j: int|
                        0 <= j < bought@.len() ==> (#[trigger] bought@[j]).side == TradeSide::Buy,
                decreases bought@.len() - i,
            {
                proof {
                    assert(bought@.take(i + 1).drop_last() =~= bought@.take(i as int));
                    assert(bought@.take(i + 1).last() == bought@[i as int]);
                }
                let t = bought[i];
                nb = match nb.checked_add(&t.base_quantity) {
                    Some(x) => x,
                    None => {
                        proof {
                            assert(position_err_state(pre, *self));
                        }
                        return Err(TradeError::Overflow);
                    },
                };
                nq = match nq.checked_sub(&t.quote_quantity) {
                    Some(x) => x,
                    None => {
                        proof {
                            assert(position_err_state(pre, *self));
                        }
                        return Err(TradeError::Overflow);
                    },
                };
                trades.push(t);
                proof {
                    assert(trades@ =~= sell_part + bought@.take(i + 1));
                }
                i = i + 1;
            }
            proof {
                assert(bought@.take(bought@.len() as int) =~= bought@);
            }
            self.base_quantity = nb;
            self.quote_quantity = nq;
            proof {
                assert(trades@.skip(k) =~= bought@);
            }
        }
        proof {
            assert(trades@.take(k) =~= sell_part);
            if trades@.len() == k {
                assert(trades@.skip(k) =~= Seq::<Trade>::empty());
            }
            assert forall|j: int| 0 <= j < k implies (#[trigger] trades@[j]).side
                == TradeSide::Sell by {
                assert(trades@[j] == sell_part[j]);
            }
            assert forall|j: int| k <= j < trades@.len() implies (#[trigger] trades@[j]).side
                == TradeSide::Buy by {
                assert(trades@[j] == trades@.skip(k)[j - k]);
            }
            assert(trap_split(pre, *self, price@.v(), trades@, k));
            assert(trap_post(pre, *self, price@.v(), trades@));
        }
        Ok(trades)
    }

    /// Sequences the minimal cycle that returns the position to an
    /// all-quote state while capturing the spread between its bands: an
    /// optional Sell of the held base at the least selling price, a Buy at
    /// the greatest buying price funded with the quote then on hand
    /// (`quote_after_fills` over the Sell leg), and a Sell of the base that
    /// Buy yielded (`base_after_fills` over the Buy leg). The position
    /// itself is never changed; the trades are returned for the caller to
    /// judge or record. A trader failure or an unrepresentable running
    /// amount aborts the sequence at that leg; the shared error type does
    /// not record which of the two it was.
    #[verifier::loop_isolation(false)]
    pub fn min_profit_trades<T: Trader>(&self, agent: &T) -> (r: Result<Vec<Trade>, TradeError>)
        ensures
            r is Ok ==> min_profit_post(*self, (r->Ok_0)@),
    {
        let buying_price = self.max_buying_price();
        let selling_price = self.min_selling_price();
        let mut result: Vec<Trade> = Vec::new();

        let quote_quantity = if self.is_short() {
            self.quote_quantity
        } else {
            let sold = match agent.sell(&selling_price, &self.base_quantity) {
                Ok(v) => v,
                Err(e) => {
                    return Err(e);
                },
            };
            let working = match quote_after_fills(&self.quote_quantity, &sold) {
                Ok(d) => d,
                Err(e) => {
                    return Err(e);
                },
            };
            let mut i: usize = 0;
            while i < sold.len()
                invariant
                    0 <= i <= sold@.len(),
                    result@ == sold@.take(i as int),
                    forall|j: int|
                        0 <= j < sold@.len() ==> (#[trigger] sold@[j]).side == TradeSide::Sell,
                decreases sold@.len() - i,
            {
                result.push(sold[i]);
                proof {
                    assert(result@ =~= sold@.take(i + 1));
                }
                i = i + 1;
            }
            proof {
                assert(sold@.take(sold@.len() as int) =~= sold@);
            }
            working
        };
        let ghost k1 = result@.len() as int;
        let ghost sell_part = result@;
        proof {
            assert(quote_fold(self.quote_quantity@, sell_part) is Some);
        }

        let bought = match agent.buy(&buying_price, &quote_quantity) {
            Ok(v) => v,
            Err(e) => {
                return Err(e);
            },
        };
        let base = match base_after_fills(&Decimal::zero(), &bought) {
            Ok(d) => d,
            Err(e) => {
                return Err(e);
            },
        };
        let mut i: usize = 0;
        while i < bought.len()
            invariant
                0 <= i <= bought@.len(),
                result@ == sell_part + bought@.take(i as int),
                forall|j: int| 0 <= j < k1 ==> (#[trigger] sell_part[j]).side == TradeSide::Sell,
                k1 == sell_part.len(),
                forall|j: int|
                    0 <= j < bought@.len() ==> (#[trigger] bought@[j]).side == TradeSide::Buy,
            decreases bought@.len() - i,
        {
            result.push(bought[i]);
            proof {
                assert(result@ =~= sell_part + bought@.take(i + 1));
            }
            i = i + 1;
        }
        proof {
            assert(bought@.take(bought@.len() as int) =~= bought@);
        }
        let ghost k2 = result@.len() as int;
        let ghost buy_part = result@;

        let sold_back = match agent.sell(&selling_price, &base) {
            Ok(v) => v,
            Err(e) => {
                return Err(e);
            },
        };
        let mut i: usize = 0;
        while i < sold_back.len()
            invariant
                0 <= i <= sold_back@.len(),
                result@ == buy_part + sold_back@.take(i as int),
                k1 <= k2 == buy_part.len(),
                forall|j: int| 0 <= j < k1 ==> (#[trigger] buy_part[j]).side == TradeSide::Sell,
                forall|j: int| k1 <= j < k2 ==> (#[trigger] buy_part[j]).side == TradeSide::Buy,
                forall|j: int|
                    0 <= j < sold_back@.len() ==> (#[trigger] sold_back@[j]).side
                        == TradeSide::Sell,
            decreases sold_back@.len() - i,
        {
            let t = sold_back[i];
            result.push(t);
            proof {
                assert(result@ =~= buy_part + sold_back@.take(i + 1));
            }
            i = i + 1;
        }
        proof {
            assert(sold_back@.take(sold_back@.len() as int) =~= sold_back@);
            assert forall|j: int| 0 <= j < k1 implies (#[trigger] result@[j]).side
                == TradeSide::Sell by {
                assert(result@[j] == buy_part[j] && buy_part[j] == sell_part[j]);
            }
            assert forall|j: int| k1 <= j < k2 implies (#[trigger] result@[j]).side
                == TradeSide::Buy by {
                assert(result@[j] == buy_part[j]);
            }
            assert forall|j: int| k2 <= j < result@.len() implies (#[trigger] result@[j]).side
                == TradeSide::Sell by {
                assert(result@[j] == sold_back@[j - k2]);
            }
            assert(result@.subrange(0, k1) =~= sell_part);
            assert(result@.subrange(k1, k2) =~= buy_part.subrange(k1, k2));
            assert(buy_part.subrange(k1, k2) =~= bought@);
            assert(min_profit_split(*self, result@, k1, k2));
            assert(min_profit_post(*self, result@));
        }
        Ok(result)
    }

    /// Whether `value` lies in any selling band.
    pub fn is_within_selling_price(&self, value: &Decimal) -> (r: bool)
        ensures
            r <==> in_bands(self.selling_prices@, value@.v()),
    {
        if self.selling_prices.is_empty() {
            return false;
        }
        let mut i: usize = 0;
        while i < self.selling_prices.len()
            invariant
                0 <= i <= self.selling_prices@.len(),
                forall|j: int| 0 <= j < i ==> !(#[trigger] self.selling_prices@[j]).spec_contains(
                    value@.v(),
                ),
            decreases self.selling_prices@.len() - i,
        {
            if self.selling_prices[i].is_within(value) {
                return true;
            }
            i = i + 1;
        }
        false
    }
}

impl Executor for Position {
    /// One price tick against a single position; the full contract of
    /// `Position::trap` carries over.
    fn trap<T: Trader>(&mut self, agent: &T, price: &Decimal) -> (r: Result<
        Vec<Trade>,
        TradeError,
    >)
        ensures
            bands_unchanged(*old(self), *final(self)),
            !(in_bands(old(self).selling_prices@, price@.v()) && old(self).base_quantity@.v()
                != 0) && !(in_bands(old(self).buying_prices@, price@.v())
                && old(self).quote_quantity@.v() != 0) ==> (r matches Ok(ts) && ts@.len() == 0
                && *final(self) == *old(self)),
            r is Ok ==> trap_post(*old(self), *final(self), price@.v(), (r->Ok_0)@),
            r is Err ==> position_err_state(*old(self), *final(self)),
    {
        Position::trap(self, agent, price)
    }
}

/// A successful pass over a collection: every position went through its
/// own tick against `price`, with `fills[i]` the trades position `i`
/// reported.
pub open spec fn trap_all_post(
    pre: Seq<Position>,
    post: Seq<Position>,
    price: int,
    fills: Seq<Seq<Trade>>,
) -> bool {
    &&& post.len() == pre.len()
    &&& fills.len() == pre.len()
    &&& forall|i: int|
        0 <= i < pre.len() ==> trap_post(pre[i], post[i], price, #[trigger] fills[i])
}

/// The observable outcome of a successful collection pass: the returned
/// trades are the concatenation, in index order, of per-position fills,
/// each related to its position by `trap_post`.
pub open spec fn trap_all_ok(
    pre: Seq<Position>,
    post: Seq<Position>,
    price: int,
    ts: Seq<Trade>,
) -> bool {
    exists|fills: Seq<Seq<Trade>>|
        #[trigger] trap_all_post(pre, post, price, fills) && ts == fills.flatten()
}

/// No position would fire at `price`: for every position the price lies
/// in no selling band with base inventory and in no buying band with
/// quote.
pub open spec fn all_quiet(ps: Seq<Position>, price: int) -> bool {
    forall|i: int|
        0 <= i < ps.len() ==> !((in_bands((#[trigger] ps[i]).selling_prices@, price)
            && ps[i].base_quantity@.v() != 0) || (in_bands(ps[i].buying_prices@, price)
            && ps[i].quote_quantity@.v() != 0))
}

/// The state a failed collection pass leaves behind: the positions before
/// the failing one each went through their tick, the failing one — whose
/// bands did admit the price with funding — sits in its own failure state,
/// and the positions after it were never touched.
pub open spec fn trap_all_err_at(
    pre: Seq<Position>,
    post: Seq<Position>,
    price: int,
    fills: Seq<Seq<Trade>>,
) -> bool {
    let j = fills.len() as int;
    &&& post.len() == pre.len()
    &&& j < pre.len()
    &&& forall|i: int| 0 <= i < j ==> trap_post(pre[i], post[i], price, #[trigger] fills[i])
    &&& ((in_bands(pre[j].selling_prices@, price) && pre[j].base_quantity@.v() != 0) || (
    in_bands(pre[j].buying_prices@, price) && pre[j].quote_quantity@.v() != 0))
    &&& position_err_state(pre[j], post[j])
    &&& forall|i: int| j < i < pre.len() ==> post[i] == #[trigger] pre[i]
}

/// Some position failed its tick after those before it completed theirs.
pub open spec fn trap_all_err(pre: Seq<Position>, post: Seq<Position>, price: int) -> bool {
    exists|fills: Seq<Seq<Trade>>| #[trigger] trap_all_err_at(pre, post, price, fills)
}

/// Drives every position in turn against one observed price, concatenating
/// the fills in index order; the first failure stops the pass, leaving the
/// positions already driven as their own fills left them and the rest
/// untouched. When no position's bands admit the price with funding, the
/// pass succeeds with no trades and changes nothing.
#[verifier::loop_isolation(false)]
pub fn trap_positions<T: Trader>(
    positions: &mut Vec<Position>,
    agent: &T,
    price: &Decimal,
) -> (r: Result<Vec<Trade>, TradeError>)
    ensures
        final(positions)@.len() == old(positions)@.len(),
        forall|i: int|
            0 <= i < old(positions)@.len() ==> bands_unchanged(
                #[trigger] old(positions)@[i],
                final(positions)@[i],
            ),
        all_quiet(old(positions)@, price@.v()) ==> (r matches Ok(ts) && ts@.len() == 0
            && final(positions)@ == old(positions)@),
        r is Ok ==> trap_all_ok(old(positions)@, final(positions)@, price@.v(), (r->Ok_0)@),
        r is Err ==> trap_all_err(old(positions)@, final(positions)@, price@.v()),
{
    let ghost pre = positions@;
    let ghost mut fills: Seq<Seq<Trade>> = Seq::empty();
    let mut trades: Vec<Trade> = Vec::new();
    let mut i: usize = 0;
    proof {
        assert(fills.flatten() =~= Seq::<Trade>::empty());
    }
    while i < positions.len()
        invariant
            0 <= i <= pre.len(),
            positions@.len() == pre.len(),
            fills.len() == i,
            trades@ == fills.flatten(),
            forall|j: int| 0 <= j < i ==> trap_post(pre[j], positions@[j], price@.v(), #[trigger] fills[j]),
            forall|j: int| 0 <= j < i ==> bands_unchanged(#[trigger] pre[j], positions@[j]),
            forall|j: int| i <= j < pre.len() ==> positions@[j] == #[trigger] pre[j],
            all_quiet(pre, price@.v()) ==> trades@.len() == 0 && positions@ == pre,
        decreases pre.len() - i,
    {
        let got = match positions[i].trap(agent, price) {
            Ok(v) => v,
            Err(e) => {
                proof {
                    assert(!all_quiet(pre, price@.v()));
                    assert(trap_all_err_at(pre, positions@, price@.v(), fills));
                }
                return Err(e);
            },
        };
        proof {
            if all_quiet(pre, price@.v()) {
                assert(positions@ =~= pre);
            }
        }
        let ghost prev_fills = fills;
        proof {
            prev_fills.lemma_flatten_push(got@);
            fills = prev_fills.push(got@);
            assert(trades@ =~= prev_fills.flatten() + got@.take(0));
        }
        let mut j: usize = 0;
        while j < got.len()
            invariant
                0 <= j <= got@.len(),
                trades@ == prev_fills.flatten() + got@.take(j as int),
            decreases got@.len() - j,
        {
            trades.push(got[j]);
            proof {
                assert(trades@ =~= prev_fills.flatten() + got@.take(j + 1));
            }
            j = j + 1;
        }
        proof {
            assert(got@.take(got@.len() as int) =~= got@);
            assert(trades@ =~= fills.flatten());
        }
        i = i + 1;
    }
    proof {
        assert(trap_all_post(pre, positions@, price@.v(), fills));
    }
    Ok(trades)
}

impl Executor for Vec<Position> {
    /// One price tick against every position in the collection; the full
    /// contract of `trap_positions` carries over.
    fn trap<T: Trader>(&mut self, agent: &T, price: &Decimal) -> (r: Result<
        Vec<Trade>,
        TradeError,
    >)
        ensures
            final(self)@.len() == old(self)@.len(),
            forall|i: int|
                0 <= i < old(self)@.len() ==> bands_unchanged(
                    #[trigger] old(self)@[i],
                    final(self)@[i],
                ),
            all_quiet(old(self)@, price@.v()) ==> (r matches Ok(ts) && ts@.len() == 0
                && final(self)@ == old(self)@),
            r is Ok ==> trap_all_ok(old(self)@, final(self)@, price@.v(), (r->Ok_0)@),
            r is Err ==> trap_all_err(old(self)@, final(self)@, price@.v()),
    {
        trap_positions(self, agent, price)
    }
}

} // verus!
