//! Aggregate statistics over a trade history.

use vstd::prelude::*;

use crate::decimal::abs_v;
use crate::decimal::add_res;
use crate::decimal::can_add_exact;
use crate::decimal::can_sub_exact;
use crate::decimal::lemma_add_model_v;
use crate::decimal::lemma_sub_model_v;
use crate::decimal::lemma_v_zero;
use crate::decimal::spec_mantissa_bound;
use crate::decimal::sub_res;
use crate::decimal::zero_v;
use crate::decimal::DecV;
use crate::decimal::Decimal;
use crate::trade::costs_defined;
use crate::trade::signed_base;
use crate::trade::signed_quote;
use crate::trade::spec_costs;
use crate::trade::Trade;
use crate::trade::TradeSide;

verus! {

/// The aggregate of a trade history: traded volumes, the net inventory
/// drift, trade counts per side, the price extremes seen, and the summed
/// costs.
#[derive(Debug, Clone, PartialEq)]
pub struct Evaluate {
    pub volume_base_quantity: Decimal,
    pub volume_quote_quantity: Decimal,
    pub leave_base_quantity: Decimal,
    pub leave_quote_quantity: Decimal,
    pub buy_count: usize,
    pub sell_count: usize,
    pub max_price: Decimal,
    pub min_price: Decimal,
    pub costs: Decimal,
}

/// The ghost image of an `Evaluate` under construction.
pub ghost struct EvalV {
    pub volume_base: DecV,
    pub volume_quote: DecV,
    pub leave_base: DecV,
    pub leave_quote: DecV,
    pub buys: int,
    pub sells: int,
    pub max_price: DecV,
    pub min_price: DecV,
    pub costs: DecV,
}

/// The aggregate of an empty history: sums at zero, no price seen yet, so
/// the maximum starts at zero and the minimum at the largest representable
/// decimal.
pub open spec fn eval_init() -> EvalV {
    EvalV {
        volume_base: zero_v(),
        volume_quote: zero_v(),
        leave_base: zero_v(),
        leave_quote: zero_v(),
        buys: 0,
        sells: 0,
        max_price: zero_v(),
        min_price: DecV { m: spec_mantissa_bound() - 1, s: 0 },
        costs: zero_v(),
    }
}

/// One trade folded into the aggregate; `None` when its cost is undefined
/// or a sum cannot be represented.
pub open spec fn eval_step(acc: EvalV, t: Trade) -> Option<EvalV> {
    if !costs_defined(t) {
        None
    } else {
        let max_price = if t.price@.v() > acc.max_price.v() {
            t.price@
        } else {
            acc.max_price
        };
        let min_price = if t.price@.v() < acc.min_price.v() {
            t.price@
        } else {
            acc.min_price
        };
        match (
            add_res(acc.costs, spec_costs(t)),
            add_res(acc.volume_base, abs_v(t.base_quantity@)),
            add_res(acc.volume_quote, abs_v(t.quote_quantity@)),
        ) {
            (Some(costs), Some(volume_base), Some(volume_quote)) => match t.side {
                TradeSide::Buy => match (
                    add_res(acc.leave_base, t.base_quantity@),
                    sub_res(acc.leave_quote, t.quote_quantity@),
                ) {
                    (Some(leave_base), Some(leave_quote)) => Some(
                        EvalV {
                            volume_base,
                            volume_quote,
                            leave_base,
                            leave_quote,
                            buys: acc.buys + 1,
                            sells: acc.sells,
                            max_price,
                            min_price,
                            costs,
                        },
                    ),
                    _ => None,
                },
                TradeSide::Sell => match (
                    sub_res(acc.leave_base, t.base_quantity@),
                    add_res(acc.leave_quote, t.quote_quantity@),
                ) {
                    (Some(leave_base), Some(leave_quote)) => Some(
                        EvalV {
                            volume_base,
                            volume_quote,
                            leave_base,
                            leave_quote,
                            buys: acc.buys,
                            sells: acc.sells + 1,
                            max_price,
                            min_price,
                            costs,
                        },
                    ),
                    _ => None,
                },
            },
            _ => None,
        }
    }
}

/// The whole history folded into its aggregate, left to right.
pub open spec fn eval_fold(s: Seq<Trade>) -> Option<EvalV>
    decreases s.len(),
{
    if s.len() == 0 {
        Some(eval_init())
    } else {
        match eval_fold(s.drop_last()) {
            None => None,
            Some(acc) => eval_step(acc, s.last()),
        }
    }
}

/// The summed base volume of a history: absolute amounts.
pub open spec fn sum_base(s: Seq<Trade>) -> int
    decreases s.len(),
{
    if s.len() == 0 {
        0
    } else {
        sum_base(s.drop_last()) + abs_v(s.last().base_quantity@).v()
    }
}

/// The summed quote volume of a history: absolute amounts.
pub open spec fn sum_quote(s: Seq<Trade>) -> int
    decreases s.len(),
{
    if s.len() == 0 {
        0
    } else {
        sum_quote(s.drop_last()) + abs_v(s.last().quote_quantity@).v()
    }
}

/// The summed costs of a history.
pub open spec fn sum_costs(s: Seq<Trade>) -> int
    decreases s.len(),
{
    if s.len() == 0 {
        0
    } else {
        sum_costs(s.drop_last()) + spec_costs(s.last()).v()
    }
}

/// Every sum in the fold stays within 96 bits, so the whole aggregate is
/// exact.
pub open spec fn eval_exact(s: Seq<Trade>) -> bool
    decreases s.len(),
{
    if s.len() == 0 {
        true
    } else {
        eval_exact(s.drop_last()) && (eval_fold(s.drop_last()) matches Some(acc) && {
            let t = s.last();
            &&& can_add_exact(acc.costs, spec_costs(t))
            &&& can_add_exact(acc.volume_base, abs_v(t.base_quantity@))
            &&& can_add_exact(acc.volume_quote, abs_v(t.quote_quantity@))
            &&& match t.side {
                TradeSide::Buy => can_add_exact(acc.leave_base, t.base_quantity@)
                    && can_sub_exact(acc.leave_quote, t.quote_quantity@),
                TradeSide::Sell => can_sub_exact(acc.leave_base, t.base_quantity@)
                    && can_add_exact(acc.leave_quote, t.quote_quantity@),
            }
        })
    }
}

/// A history whose sums all fit has prefixes whose sums all fit.
pub proof fn lemma_eval_exact_prefix(s: Seq<Trade>, i: int)
    requires
        eval_exact(s),
        0 <= i <= s.len(),
    ensures
        eval_exact(s.take(i)),
    decreases s.len() - i,
{
    if i == s.len() {
        assert(s.take(i) =~= s);
    } else {
        lemma_eval_exact_prefix(s, i + 1);
        assert(s.take(i + 1).drop_last() =~= s.take(i));
    }
}

/// A fold that succeeds on a whole history succeeds on each prefix.
pub proof fn lemma_eval_fold_prefix(s: Seq<Trade>, i: int)
    requires
        eval_fold(s) is Some,
        0 <= i <= s.len(),
    ensures
        eval_fold(s.take(i)) is Some,
    decreases s.len() - i,
{
    if i == s.len() {
        assert(s.take(i) =~= s);
    } else {
        lemma_eval_fold_prefix(s, i + 1);
        assert(s.take(i + 1).drop_last() =~= s.take(i));
    }
}

/// The `leave` fields of an aggregate are the net signed inventory change
/// of the history: whenever the aggregate exists, so does the profit fold,
/// and the two agree pair by pair.
pub proof fn lemma_leave_is_profit(s: Seq<Trade>)
    requires
        eval_fold(s) is Some,
    ensures
        crate::trade::profit_fold(s) matches Some(p) && p.0 == eval_fold(s).unwrap().leave_base
            && p.1 == eval_fold(s).unwrap().leave_quote,
    decreases s.len(),
{
    if s.len() > 0 {
        lemma_leave_is_profit(s.drop_last());
    }
}

/// An exec aggregate showing exactly the ghost aggregate `e`.
pub open spec fn eval_matches(r: Evaluate, e: EvalV) -> bool {
    &&& r.volume_base_quantity@ == e.volume_base
    &&& r.volume_quote_quantity@ == e.volume_quote
    &&& r.leave_base_quantity@ == e.leave_base
    &&& r.leave_quote_quantity@ == e.leave_quote
    &&& r.buy_count == e.buys
    &&& r.sell_count == e.sells
    &&& r.max_price@ == e.max_price
    &&& r.min_price@ == e.min_price
    &&& r.costs@ == e.costs
}

impl Default for Evaluate {
    /// The aggregate of an empty history.
    fn default() -> (r: Evaluate)
        ensures
            eval_matches(r, eval_init()),
    {
        Evaluate {
            volume_base_quantity: Decimal::zero(),
            volume_quote_quantity: Decimal::zero(),
            leave_base_quantity: Decimal::zero(),
            leave_quote_quantity: Decimal::zero(),
            buy_count: 0,
            sell_count: 0,
            max_price: Decimal::zero(),
            min_price: Decimal::max_value(),
            costs: Decimal::zero(),
        }
    }
}

/// Folds a history into its aggregate: price extremes and per-side counts
/// over every trade, summed absolute volumes and summed costs, and the net
/// signed inventory drift (`leave` fields).
#[verifier::loop_isolation(false)]
pub fn evaluate_trades(trades: &Vec<Trade>) -> (r: Evaluate)
    requires
        eval_fold(trades@) is Some,
    ensures
        eval_matches(r, eval_fold(trades@).unwrap()),
        eval_exact(trades@) ==> r.volume_base_quantity@.v() == sum_base(trades@)
            && r.volume_quote_quantity@.v() == sum_quote(trades@) && r.costs@.v() == sum_costs(
            trades@,
        ) && r.leave_base_quantity@.v() == signed_base(trades@) && r.leave_quote_quantity@.v()
            == signed_quote(trades@),
{
    let ghost s = trades@;
    let mut report = Evaluate::default();
    proof {
        lemma_v_zero(zero_v());
    }
    if trades.is_empty() {
        proof {
            assert(s.take(0) =~= s);
        }
        return report;
    }
    let mut i: usize = 0;
    while i < trades.len()
        invariant
            0 <= i <= s.len(),
            eval_fold(s.take(i as int)) is Some,
            eval_matches(report, eval_fold(s.take(i as int)).unwrap()),
            report.buy_count + report.sell_count <= i,
            eval_exact(s) ==> report.volume_base_quantity@.v() == sum_base(s.take(i as int))
                && report.volume_quote_quantity@.v() == sum_quote(s.take(i as int))
                && report.costs@.v() == sum_costs(s.take(i as int))
                && report.leave_base_quantity@.v() == signed_base(s.take(i as int))
                && report.leave_quote_quantity@.v() == signed_quote(s.take(i as int)),
        decreases s.len() - i,
    {
        proof {
            assert(s.take(i + 1).drop_last() =~= s.take(i as int));
            assert(s.take(i + 1).last() == s[i as int]);
            lemma_eval_fold_prefix(s, i + 1);
            if eval_exact(s) {
                lemma_eval_exact_prefix(s, i + 1);
            }
        }
        let t = &trades[i];
        let t_costs = t.costs();
        proof {
            use_type_invariant(&t.base_quantity);
            use_type_invariant(&t.quote_quantity);
            use_type_invariant(&t_costs);
            use_type_invariant(&report.volume_base_quantity);
            use_type_invariant(&report.volume_quote_quantity);
            use_type_invariant(&report.leave_base_quantity);
            use_type_invariant(&report.leave_quote_quantity);
            use_type_invariant(&report.costs);
            if eval_exact(s) {
                let acc = eval_fold(s.take(i as int)).unwrap();
                lemma_add_model_v(acc.costs, spec_costs(s[i as int]));
                lemma_add_model_v(acc.volume_base, abs_v(t.base_quantity@));
                lemma_add_model_v(acc.volume_quote, abs_v(t.quote_quantity@));
                match t.side {
                    TradeSide::Buy => {
                        lemma_add_model_v(acc.leave_base, t.base_quantity@);
                        lemma_sub_model_v(acc.leave_quote, t.quote_quantity@);
                    },
                    TradeSide::Sell => {
                        lemma_sub_model_v(acc.leave_base, t.base_quantity@);
                        lemma_add_model_v(acc.leave_quote, t.quote_quantity@);
                    },
                }
            }
        }
        if report.max_price.lt(&t.price) {
            report.max_price = t.price;
        }
        if t.price.lt(&report.min_price) {
            report.min_price = t.price;
        }
        report.costs = report.costs.checked_add(&t_costs).unwrap();
        report.volume_base_quantity = report.volume_base_quantity.checked_add(
            &t.base_quantity.abs(),
        ).unwrap();
        report.volume_quote_quantity = report.volume_quote_quantity.checked_add(
            &t.quote_quantity.abs(),
        ).unwrap();
        match t.side {
            TradeSide::Buy => {
                report.buy_count = report.buy_count + 1;
                report.leave_base_quantity = report.leave_base_quantity.checked_add(
                    &t.base_quantity,
                ).unwrap();
                report.leave_quote_quantity = report.leave_quote_quantity.checked_sub(
                    &t.quote_quantity,
                ).unwrap();
            },
            TradeSide::Sell => {
                report.sell_count = report.sell_count + 1;
                report.leave_base_quantity = report.leave_base_quantity.checked_sub(
                    &t.base_quantity,
                ).unwrap();
                report.leave_quote_quantity = report.leave_quote_quantity.checked_add(
                    &t.quote_quantity,
                ).unwrap();
            },
        }
        i = i + 1;
    }
    proof {
        assert(s.take(s.len() as int) =~= s);
    }
    report
}

/// Something that can be folded into an `Evaluate` aggregate.
pub trait Evaluater {
    /// Whether the aggregate is representable.
    spec fn evaluable(&self) -> bool;

    /// Folds the history into its aggregate.
    fn evaluate(&self) -> Evaluate
        requires
            self.evaluable(),
    ;
}

impl Evaluater for Vec<Trade> {
    open spec fn evaluable(&self) -> bool {
        eval_fold(self@) is Some
    }

    /// Folds the history; the full contract of `evaluate_trades` carries
    /// over.
    fn evaluate(&self) -> (r: Evaluate)
        ensures
            eval_matches(r, eval_fold(self@).unwrap()),
            eval_exact(self@) ==> r.volume_base_quantity@.v() == sum_base(self@)
                && r.volume_quote_quantity@.v() == sum_quote(self@) && r.costs@.v() == sum_costs(
                self@,
            ) && r.leave_base_quantity@.v() == signed_base(self@) && r.leave_quote_quantity@.v()
                == signed_quote(self@),
    {
        evaluate_trades(self)
    }
}

} // verus!
