//! The grid computation engine: a stateful session that turns percentage
//! drop levels into trigger prices, step sizes, and running totals.
//!
//! All arithmetic is exact rational arithmetic over [`Rat`]. Each operation
//! that the engine performs can therefore run out of `i64` range; a step
//! reports that by returning `None` and leaving the session untouched.

use crate::rational::{
    fits_rat, lemma_norm_preserves_value, lemma_pos_times_pos, lemma_rat_eq_trans, norm_add,
    norm_div, norm_mul, norm_sub, rat_div, rat_eq, rat_mul, rat_norm, rat_sub, Rat,
};
use vstd::prelude::*;

verus! {

/// What a level's percentage is measured against.
#[derive(Clone, Copy, Debug, PartialEq, Eq, Structural)]
pub enum GridType {
    /// Relative to the initial reference price.
    Fixed,
    /// Relative to the running average price.
    Average,
}

/// How each step's position size is derived.
#[derive(Clone, Copy, Debug, PartialEq, Eq, Structural)]
pub enum PositionMode {
    /// The base size, every step.
    Fixed,
    /// A multiple of the whole accumulated position.
    CurrentMultiple,
    /// A multiple of the previous step's size.
    IncrementMultiple,
}

/// Snapshot of the engine state after one step was folded in.
#[derive(Clone, Copy, Debug, PartialEq, Eq, Structural)]
pub struct GridResult {
    pub grid_price: Rat,
    pub position_size: Rat,
    pub total_position: Rat,
    pub average_price: Rat,
    pub total_cost: Rat,
}

/// Mathematical value of a [`GridResult`]: each field as a
/// numerator/denominator pair.
#[verifier::ext_equal]
pub ghost struct StepView {
    pub grid_price: (int, int),
    pub position_size: (int, int),
    pub total_position: (int, int),
    pub average_price: (int, int),
    pub total_cost: (int, int),
}

impl View for GridResult {
    type V = StepView;

    open spec fn view(&self) -> StepView {
        StepView {
            grid_price: self.grid_price@,
            position_size: self.position_size@,
            total_position: self.total_position@,
            average_price: self.average_price@,
            total_cost: self.total_cost@,
        }
    }
}

/// Mathematical value of a whole session: the five immutable parameters and
/// the five pieces of mutable state, plus the recorded history.
#[verifier::ext_equal]
pub ghost struct CalcView {
    pub initial_price: (int, int),
    pub grid_type: GridType,
    pub position_mode: PositionMode,
    pub base_size: (int, int),
    pub multiplier: (int, int),
    pub position: (int, int),
    pub cost: (int, int),
    pub average: (int, int),
    pub last_increment: (int, int),
    pub history: Seq<StepView>,
}

/// The state of a freshly constructed (or freshly reset) session.
pub open spec fn spec_fresh(
    initial_price: (int, int),
    grid_type: GridType,
    position_mode: PositionMode,
    base_size: (int, int),
    multiplier: (int, int),
) -> CalcView {
    CalcView {
        initial_price,
        grid_type,
        position_mode,
        base_size,
        multiplier,
        position: (0int, 1int),
        cost: (0int, 1int),
        average: initial_price,
        last_increment: (0int, 1int),
        history: Seq::empty(),
    }
}

/// `1 - level/100`: the factor a basis price is scaled by for a level.
pub open spec fn spec_discount(level: (int, int)) -> (int, int) {
    norm_sub((1int, 1int), norm_div(level, (100int, 1int)))
}

/// The trigger price for a level, from pre-step state: the chosen basis
/// price (initial or running average) scaled by `1 - level/100`.
pub open spec fn spec_grid_price(v: CalcView, level: (int, int)) -> (int, int) {
    match v.grid_type {
        GridType::Fixed => norm_mul(v.initial_price, spec_discount(level)),
        GridType::Average => norm_mul(v.average, spec_discount(level)),
    }
}

/// The size acquired by the next step, from pre-step state. A value of
/// exactly zero (not a step counter) selects the seeding fallback.
pub open spec fn spec_position_size(v: CalcView) -> (int, int) {
    match v.position_mode {
        PositionMode::Fixed => v.base_size,
        PositionMode::CurrentMultiple => if v.position.0 == 0 {
            v.base_size
        } else {
            norm_mul(v.position, v.multiplier)
        },
        PositionMode::IncrementMultiple => if v.last_increment.0 == 0 {
            v.base_size
        } else {
            norm_mul(v.last_increment, v.multiplier)
        },
    }
}

/// One full step: the post-step session state and the snapshot it records.
/// The average is updated only while the position is strictly positive.
pub open spec fn spec_step(v: CalcView, level: (int, int)) -> (CalcView, StepView) {
    let price = spec_grid_price(v, level);
    let size = spec_position_size(v);
    let new_position = norm_add(v.position, size);
    let new_cost = norm_add(v.cost, norm_mul(size, price));
    let new_average = if new_position.0 > 0 {
        norm_div(new_cost, new_position)
    } else {
        v.average
    };
    let entry = StepView {
        grid_price: price,
        position_size: size,
        total_position: new_position,
        average_price: new_average,
        total_cost: new_cost,
    };
    let next = CalcView {
        initial_price: v.initial_price,
        grid_type: v.grid_type,
        position_mode: v.position_mode,
        base_size: v.base_size,
        multiplier: v.multiplier,
        position: new_position,
        cost: new_cost,
        average: new_average,
        last_increment: size,
        history: v.history.push(entry),
    };
    (next, entry)
}

/// Whether the size for the next step is representable in `i64` terms.
pub open spec fn spec_size_fits(v: CalcView) -> bool {
    match v.position_mode {
        PositionMode::Fixed => true,
        PositionMode::CurrentMultiple => v.position.0 == 0 || fits_rat(
            norm_mul(v.position, v.multiplier),
        ),
        PositionMode::IncrementMultiple => v.last_increment.0 == 0 || fits_rat(
            norm_mul(v.last_increment, v.multiplier),
        ),
    }
}

/// Whether every intermediate value of one step fits into a `Rat`. Exactly
/// when this holds, [`GridCalculator::calculate_grid`] succeeds.
pub open spec fn spec_step_fits(v: CalcView, level: (int, int)) -> bool {
    let price = spec_grid_price(v, level);
    let size = spec_position_size(v);
    let new_position = norm_add(v.position, size);
    let step_cost = norm_mul(size, price);
    let new_cost = norm_add(v.cost, step_cost);
    fits_rat(norm_div(level, (100int, 1int))) && fits_rat(spec_discount(level)) && fits_rat(price)
        && spec_size_fits(v) && fits_rat(new_position) && fits_rat(step_cost) && fits_rat(new_cost)
        && (new_position.0 > 0 ==> fits_rat(norm_div(new_cost, new_position)))
}

/// The position accumulated by a history: the sum of its step sizes,
/// folded in call order from zero.
pub open spec fn spec_sum_sizes(h: Seq<StepView>) -> (int, int)
    decreases h.len(),
{
    if h.len() == 0 {
        (0int, 1int)
    } else {
        norm_add(spec_sum_sizes(h.drop_last()), h.last().position_size)
    }
}

/// The cost accumulated by a history: the sum of price times size over its
/// steps, folded in call order from zero.
pub open spec fn spec_sum_costs(h: Seq<StepView>) -> (int, int)
    decreases h.len(),
{
    if h.len() == 0 {
        (0int, 1int)
    } else {
        norm_add(spec_sum_costs(h.drop_last()), norm_mul(h.last().position_size, h.last().grid_price))
    }
}

/// All five fields of a snapshot have positive denominators.
pub open spec fn entry_wf(e: StepView) -> bool {
    e.grid_price.1 > 0 && e.position_size.1 > 0 && e.total_position.1 > 0 && e.average_price.1 > 0
        && e.total_cost.1 > 0
}

/// Entry `i` of a history is a faithful running snapshot: its totals equal
/// the sums over the steps up to and including it, and its average is cost
/// over position whenever its position is strictly positive.
pub open spec fn snapshot_inv(h: Seq<StepView>, i: int) -> bool {
    entry_wf(h[i]) && h[i].total_position == spec_sum_sizes(h.take(i + 1)) && h[i].total_cost
        == spec_sum_costs(h.take(i + 1)) && (h[i].total_position.0 > 0 ==> h[i].average_price
        == norm_div(h[i].total_cost, h[i].total_position))
}

/// Step `i` continued the geometric sequence: unless the previous size was
/// the zero sentinel, it is the previous size times the multiplier.
pub open spec fn geom_step(h: Seq<StepView>, m: (int, int), i: int) -> bool {
    h[i - 1].position_size.0 != 0 ==> h[i].position_size == norm_mul(h[i - 1].position_size, m)
}

/// The session invariant. It carries the structural bookkeeping facts:
/// positive denominators everywhere, the position and cost as exact sums
/// over the history, the average as cost over position while the position
/// is positive, the last increment as the last recorded size, and, under
/// `IncrementMultiple` sizing, the geometric relation between consecutive
/// recorded sizes.
pub open spec fn calc_wf(v: CalcView) -> bool {
    &&& v.initial_price.1 > 0
    &&& v.base_size.1 > 0
    &&& v.multiplier.1 > 0
    &&& v.position.1 > 0
    &&& v.cost.1 > 0
    &&& v.average.1 > 0
    &&& v.last_increment.1 > 0
    &&& v.position == spec_sum_sizes(v.history)
    &&& v.cost == spec_sum_costs(v.history)
    &&& (v.position.0 > 0 ==> v.average == norm_div(v.cost, v.position))
    &&& (v.history.len() == 0 ==> v.average == v.initial_price && v.last_increment == (0int, 1int))
    &&& (v.history.len() > 0 ==> v.last_increment == v.history.last().position_size)
    &&& (forall|i: int| 0 <= i < v.history.len() ==> #[trigger] snapshot_inv(v.history, i))
    &&& (v.position_mode == PositionMode::IncrementMultiple ==> forall|i: int|
        1 <= i < v.history.len() ==> #[trigger] geom_step(v.history, v.multiplier, i))
}

/// The grid engine. One instance is one calculation session: construct it
/// with the fixed policy and parameters, then fold in one level at a time
/// with [`GridCalculator::calculate_grid`].
pub struct GridCalculator {
    initial_price: Rat,
    grid_type: GridType,
    position_mode: PositionMode,
    base_size: Rat,
    multiplier: Rat,
    current_position: Rat,
    total_cost: Rat,
    average_price: Rat,
    last_increment: Rat,
    grid_history: Vec<GridResult>,
}

impl View for GridCalculator {
    type V = CalcView;

    closed spec fn view(&self) -> CalcView {
        CalcView {
            initial_price: self.initial_price@,
            grid_type: self.grid_type,
            position_mode: self.position_mode,
            base_size: self.base_size@,
            multiplier: self.multiplier@,
            position: self.current_position@,
            cost: self.total_cost@,
            average: self.average_price@,
            last_increment: self.last_increment@,
            history: self.grid_history@.map_values(|g: GridResult| g@),
        }
    }
}

impl GridCalculator {
    pub open spec fn inv(self) -> bool {
        calc_wf(self@)
    }

    /// Stores the five parameters verbatim and starts a session with zero
    /// position, zero cost, the average equal to the initial price, a zero
    /// last increment, and an empty history. No validation happens here.
    pub fn new(
        initial_price: Rat,
        grid_type: GridType,
        position_mode: PositionMode,
        base_size: Rat,
        multiplier: Rat,
    ) -> (r: GridCalculator)
        requires
            initial_price.wf(),
            base_size.wf(),
            multiplier.wf(),
        ensures
            r@ == spec_fresh(initial_price@, grid_type, position_mode, base_size@, multiplier@),
            r.inv(),
    {
        let r = GridCalculator {
            initial_price,
            grid_type,
            position_mode,
            base_size,
            multiplier,
            current_position: Rat::from_int(0),
            total_cost: Rat::from_int(0),
            average_price: initial_price,
            last_increment: Rat::from_int(0),
            grid_history: Vec::new(),
        };
        proof {
            assert(r@.history =~= Seq::<StepView>::empty());
            assert(r@ =~= spec_fresh(
                initial_price@,
                grid_type,
                position_mode,
                base_size@,
                multiplier@,
            ));
        }
        r
    }

    /// Computes one grid level and folds it into the session, in this
    /// order: the trigger price from the pre-step basis, the step size from
    /// pre-step state, then the state fold (last increment, position, cost,
    /// and — only while the position is strictly positive — the average).
    /// The returned snapshot shows the post-fold state and is also appended
    /// to the history.
    ///
    /// Returns `None`, leaving the session exactly as it was, when an
    /// intermediate value no longer fits into a `Rat`.
    pub fn calculate_grid(&mut self, grid_percent: Rat) -> (r: Option<GridResult>)
        requires
            old(self).inv(),
            grid_percent.wf(),
        ensures
            final(self).inv(),
            r is Some <==> spec_step_fits(old(self)@, grid_percent@),
            r is None ==> final(self)@ == old(self)@,
            r matches Some(res) ==> res@ == spec_step(old(self)@, grid_percent@).1 && final(self)@
                == spec_step(old(self)@, grid_percent@).0,
    {
        let hundred = Rat::from_int(100);
        let one = Rat::from_int(1);
        let frac = match grid_percent.checked_div(&hundred) {
            Some(f) => f,
            None => { return None; },
        };
        let discount = match one.checked_sub(&frac) {
            Some(x) => x,
            None => { return None; },
        };
        let basis_price = match self.grid_type {
            GridType::Fixed => self.initial_price,
            GridType::Average => self.average_price,
        };
        let grid_price = match basis_price.checked_mul(&discount) {
            Some(p) => p,
            None => { return None; },
        };
        let position_size = match self.position_mode {
            PositionMode::Fixed => self.base_size,
            PositionMode::CurrentMultiple => {
                if self.current_position.is_zero() {
                    self.base_size
                } else {
                    match self.current_position.checked_mul(&self.multiplier) {
                        Some(s) => s,
                        None => { return None; },
                    }
                }
            },
            PositionMode::IncrementMultiple => {
                if self.last_increment.is_zero() {
                    self.base_size
                } else {
                    match self.last_increment.checked_mul(&self.multiplier) {
                        Some(s) => s,
                        None => { return None; },
                    }
                }
            },
        };
        let new_position = match self.current_position.checked_add(&position_size) {
            Some(p) => p,
            None => { return None; },
        };
        let step_cost = match position_size.checked_mul(&grid_price) {
            Some(c) => c,
            None => { return None; },
        };
        let new_cost = match self.total_cost.checked_add(&step_cost) {
            Some(c) => c,
            None => { return None; },
        };
        let new_average = if new_position.is_pos() {
            match new_cost.checked_div(&new_position) {
                Some(a) => a,
                None => { return None; },
            }
        } else {
            self.average_price
        };
        self.last_increment = position_size;
        self.current_position = new_position;
        self.total_cost = new_cost;
        self.average_price = new_average;
        let result = GridResult {
            grid_price,
            position_size,
            total_position: new_position,
            average_price: new_average,
            total_cost: new_cost,
        };
        self.grid_history.push(result);
        proof {
            let v = old(self)@;
            let v1 = spec_step(v, grid_percent@).0;
            let e = spec_step(v, grid_percent@).1;
            assert(result@ == e);
            assert(self.grid_history@ == old(self).grid_history@.push(result));
            assert(self@.history =~= v.history.push(e));
            assert(self@ =~= v1);
            assert(v.history.push(e).drop_last() =~= v.history);
            assert(v.history.push(e).last() == e);
            assert(v1.position == spec_sum_sizes(v1.history));
            assert(v1.cost == spec_sum_costs(v1.history));
            assert forall|i: int| 0 <= i < v1.history.len() implies #[trigger] snapshot_inv(
                v1.history,
                i,
            ) by {
                if i < v.history.len() {
                    assert(snapshot_inv(v.history, i));
                    assert(v1.history.take(i + 1) =~= v.history.take(i + 1));
                    assert(v1.history[i] == v.history[i]);
                } else {
                    assert(v1.history.take(i + 1) =~= v1.history);
                }
            }
            if v.position_mode == PositionMode::IncrementMultiple {
                assert forall|i: int| 1 <= i < v1.history.len() implies #[trigger] geom_step(
                    v1.history,
                    v.multiplier,
                    i,
                ) by {
                    if i < v.history.len() {
                        assert(geom_step(v.history, v.multiplier, i));
                        assert(v1.history[i] == v.history[i]);
                        assert(v1.history[i - 1] == v.history[i - 1]);
                    } else {
                        assert(v1.history[i - 1] == v.history.last());
                        assert(v.last_increment == v.history.last().position_size);
                    }
                }
            }
        }
        Some(result)
    }

    /// Restores position, cost, and last increment to zero, the average to
    /// the initial price, and clears the history; the five immutable
    /// parameters are untouched. The session is afterwards exactly the
    /// state a freshly constructed engine with the same parameters starts
    /// in, so the next step behaves like a first step.
    pub fn reset(&mut self)
        requires
            old(self)@.initial_price.1 > 0,
            old(self)@.base_size.1 > 0,
            old(self)@.multiplier.1 > 0,
        ensures
            final(self).inv(),
            final(self)@ == spec_fresh(
                old(self)@.initial_price,
                old(self)@.grid_type,
                old(self)@.position_mode,
                old(self)@.base_size,
                old(self)@.multiplier,
            ),
    {
        self.current_position = Rat::from_int(0);
        self.total_cost = Rat::from_int(0);
        self.average_price = self.initial_price;
        self.last_increment = Rat::from_int(0);
        self.grid_history.clear();
        proof {
            assert(self@.history =~= Seq::<StepView>::empty());
            assert(self@ =~= spec_fresh(
                old(self)@.initial_price,
                old(self)@.grid_type,
                old(self)@.position_mode,
                old(self)@.base_size,
                old(self)@.multiplier,
            ));
        }
    }

    /// Read-only view of every snapshot recorded since the last reset, in
    /// call order.
    pub fn get_history(&self) -> (r: &Vec<GridResult>)
        ensures
            r@.map_values(|g: GridResult| g@) == self@.history,
    {
        &self.grid_history
    }
}

/// After any number of steps, the accumulated position is exactly the sum
/// of the recorded step sizes, and the accumulated cost exactly the sum of
/// trigger price times step size over the recorded steps.
pub proof fn lemma_totals_match_history(c: &GridCalculator)
    requires
        c.inv(),
    ensures
        c@.position == spec_sum_sizes(c@.history),
        c@.cost == spec_sum_costs(c@.history),
{
}

/// Whenever the accumulated position is strictly positive, the running
/// average price is exactly the accumulated cost over the accumulated
/// position.
pub proof fn lemma_average_is_cost_per_unit(c: &GridCalculator)
    requires
        c.inv(),
        c@.position.0 > 0,
    ensures
        c@.average == norm_div(c@.cost, c@.position),
{
}

/// Under the `Fixed` grid basis, the trigger price for a level depends
/// only on the initial price and the level itself, never on session
/// history: two sessions with the same initial price compute the same
/// price, whatever state they are in.
pub proof fn lemma_fixed_price_ignores_history(a: CalcView, b: CalcView, level: (int, int))
    requires
        a.grid_type == GridType::Fixed,
        b.grid_type == GridType::Fixed,
        a.initial_price == b.initial_price,
    ensures
        spec_grid_price(a, level) == spec_grid_price(b, level),
        spec_grid_price(a, level) == norm_mul(a.initial_price, spec_discount(level)),
{
}

/// Under the `Average` grid basis, the trigger price follows the pre-step
/// running average: once the average has moved away from the initial
/// price, the price for a level below one hundred percent differs (as a
/// rational value) from what the `Fixed` basis would give for that level.
pub proof fn lemma_average_price_tracks_average(v: CalcView, level: (int, int))
    requires
        v.grid_type == GridType::Average,
        v.average.1 > 0,
        v.initial_price.1 > 0,
        level.1 > 0,
        !rat_eq(v.average, v.initial_price),
        level.0 != 100 * level.1,
    ensures
        !rat_eq(spec_grid_price(v, level), norm_mul(v.initial_price, spec_discount(level))),
{
    lemma_discount_nonzero(level);
    lemma_norm_scaling_keeps_apart(v.average, v.initial_price, spec_discount(level));
}

proof fn lemma_scaling_keeps_apart(a0: int, a1: int, b0: int, b1: int, c0: int, c1: int)
    by (nonlinear_arith)
    requires
        a0 * b1 != b0 * a1,
        c0 != 0,
        c1 > 0,
    ensures
        (a0 * c0) * (b1 * c1) != (b0 * c0) * (a1 * c1),
{
}

/// Reduction keeps a zero numerator zero and a nonzero numerator nonzero.
proof fn lemma_norm_zero_iff(p: (int, int))
    requires
        p.1 > 0,
    ensures
        rat_norm(p).0 == 0 <==> p.0 == 0,
{
    lemma_norm_preserves_value(p);
    let q = rat_norm(p);
    assert(q.0 == 0 <==> p.0 == 0) by (nonlinear_arith)
        requires
            q.0 * p.1 == p.0 * q.1,
            p.1 > 0,
            q.1 > 0,
    ;
}

/// For a level other than exactly one hundred percent, the scale factor
/// `1 - level/100` has a positive denominator and a nonzero numerator.
proof fn lemma_discount_nonzero(level: (int, int))
    requires
        level.1 > 0,
        level.0 != 100 * level.1,
    ensures
        spec_discount(level).1 > 0,
        spec_discount(level).0 != 0,
{
    let raw_frac = rat_div(level, (100int, 1int));
    assert(raw_frac.0 == level.0 * 1 && raw_frac.1 == level.1 * 100);
    lemma_norm_preserves_value(raw_frac);
    let nf = rat_norm(raw_frac);
    let raw_sub = rat_sub((1int, 1int), nf);
    assert(raw_sub.0 == 1 * nf.1 - nf.0 * 1 && raw_sub.1 == 1 * nf.1);
    lemma_norm_preserves_value(raw_sub);
    if nf.0 == nf.1 {
        assert(rat_eq(nf, (1int, 1int)));
        lemma_rat_eq_trans(raw_frac, nf, (1int, 1int));
        assert(false);
    }
    lemma_norm_zero_iff(raw_sub);
}

/// Scaling two rational values that differ by the same nonzero factor
/// keeps them different, also after reduction to lowest terms.
proof fn lemma_norm_scaling_keeps_apart(a: (int, int), b: (int, int), c: (int, int))
    requires
        a.1 > 0,
        b.1 > 0,
        c.1 > 0,
        c.0 != 0,
        !rat_eq(a, b),
    ensures
        !rat_eq(norm_mul(a, c), norm_mul(b, c)),
{
    lemma_pos_times_pos(a.1, c.1);
    lemma_pos_times_pos(b.1, c.1);
    lemma_norm_preserves_value(rat_mul(a, c));
    lemma_norm_preserves_value(rat_mul(b, c));
    lemma_scaling_keeps_apart(a.0, a.1, b.0, b.1, c.0, c.1);
    let n1 = norm_mul(a, c);
    let n2 = norm_mul(b, c);
    if rat_eq(n1, n2) {
        lemma_rat_eq_trans(rat_mul(a, c), n1, n2);
        lemma_rat_eq_trans(rat_mul(a, c), n2, rat_mul(b, c));
        assert(false);
    }
}

/// A reset session and a freshly constructed session with the same five
/// parameters are in the same state, so either computes the same snapshot
/// and successor state for a level: a step after [`GridCalculator::reset`]
/// behaves exactly like a first step.
pub proof fn lemma_reset_behaves_like_fresh(a: &GridCalculator, b: &GridCalculator, level: (int, int))
    requires
        a@ == spec_fresh(a@.initial_price, a@.grid_type, a@.position_mode, a@.base_size, a@.multiplier),
        b@ == spec_fresh(a@.initial_price, a@.grid_type, a@.position_mode, a@.base_size, a@.multiplier),
    ensures
        spec_step(a@, level) == spec_step(b@, level),
        spec_step_fits(a@, level) == spec_step_fits(b@, level),
{
}

/// Under `IncrementMultiple` sizing, every recorded step after the first
/// whose predecessor had a nonzero size took exactly the predecessor's
/// size times the multiplier: the sizes form a geometric sequence.
pub proof fn lemma_increment_multiple_is_geometric(c: &GridCalculator, i: int)
    requires
        c.inv(),
        c@.position_mode == PositionMode::IncrementMultiple,
        1 <= i < c@.history.len(),
        c@.history[i - 1].position_size.0 != 0,
    ensures
        c@.history[i].position_size == norm_mul(c@.history[i - 1].position_size, c@.multiplier),
{
    assert(geom_step(c@.history, c@.multiplier, i));
}

} // verus!
