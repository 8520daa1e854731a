//! Running a validated configuration end to end: validation, policy
//! parsing, engine construction, and one step per level in order.

use crate::config::{
    parse_grid_type, parse_position_mode, spec_grid_type_of, spec_position_mode_of, spec_validate,
    Config, ConfigError,
};
use crate::grid_calculator::{
    spec_fresh, spec_step, spec_step_fits, CalcView, GridCalculator, GridResult, StepView,
};
use crate::rational::Rat;
use vstd::prelude::*;

verus! {

/// Why a session run produced no result list.
#[derive(Clone, Debug, PartialEq, Eq)]
pub enum RunError {
    /// The configuration was rejected; the payload says why.
    Invalid(ConfigError),
    /// An intermediate value of some step outgrew the representable range.
    Overflow,
}

/// Stepping a view through a list of levels: `None` as soon as one step
/// does not fit, otherwise the final view and the snapshots in call order.
pub open spec fn spec_run(v: CalcView, levels: Seq<(int, int)>) -> Option<(CalcView, Seq<StepView>)>
    decreases levels.len(),
{
    if levels.len() == 0 {
        Some((v, Seq::empty()))
    } else {
        match spec_run(v, levels.drop_last()) {
            Some(p) => if spec_step_fits(p.0, levels.last()) {
                Some(
                    (
                        spec_step(p.0, levels.last()).0,
                        p.1.push(spec_step(p.0, levels.last()).1),
                    ),
                )
            } else {
                None
            },
            None => None,
        }
    }
}

/// The mathematical values of a list of levels.
pub open spec fn spec_levels_of(levels: Seq<Rat>) -> Seq<(int, int)> {
    levels.map_values(|l: Rat| l@)
}

/// The fresh session a validated configuration induces: policy strings
/// parsed into the closed enums, and a missing multiplier defaulting to
/// one, exactly as the engine is constructed from ad-hoc parameters.
pub open spec fn spec_initial_view(c: Config) -> CalcView {
    spec_fresh(
        c.base.initial_price@,
        spec_grid_type_of(c.base.grid_type@),
        spec_position_mode_of(c.position.mode@),
        c.position.base_size@,
        match c.position.multiplier {
            Some(m) => m@,
            None => (1int, 1int),
        },
    )
}

proof fn lemma_run_none_prefix(v: CalcView, levels: Seq<(int, int)>, i: int)
    requires
        0 <= i <= levels.len(),
        spec_run(v, levels.take(i)) is None,
    ensures
        spec_run(v, levels) is None,
    decreases levels.len() - i,
{
    if i == levels.len() {
        assert(levels.take(i) =~= levels);
    } else {
        assert(levels.take(i + 1).drop_last() =~= levels.take(i));
        assert(spec_run(v, levels.take(i + 1)) is None);
        lemma_run_none_prefix(v, levels, i + 1);
    }
}

/// Validates the configuration, builds a fresh engine from it, and folds
/// every level in, in order, returning the snapshot of every step. A
/// rejected configuration is reported before any step runs; a step whose
/// intermediate values no longer fit stops the run with `Overflow`.
pub fn run_calculation(config: &Config) -> (r: Result<Vec<GridResult>, RunError>)
    requires
        config.wf(),
    ensures
        (match spec_validate(
            config.base.initial_price,
            config.base.grid_type,
            config.position.mode,
            config.position.multiplier,
            config.grid.levels@,
        ) {
            Err(e) => r == Err::<Vec<GridResult>, RunError>(RunError::Invalid(e)),
            Ok(()) => match spec_run(
                spec_initial_view(*config),
                spec_levels_of(config.grid.levels@),
            ) {
                None => r == Err::<Vec<GridResult>, RunError>(RunError::Overflow),
                Some(p) => r matches Ok(results) && results@.map_values(|g: GridResult| g@)
                    == p.1,
            },
        }),
{
    match config.validate() {
        Ok(()) => {},
        Err(e) => { return Err(RunError::Invalid(e)); },
    }
    let grid_type = match parse_grid_type(config.base.grid_type.as_str()) {
        Ok(t) => t,
        Err(e) => {
            proof { assert(false); }
            return Err(RunError::Invalid(e));
        },
    };
    let position_mode = match parse_position_mode(config.position.mode.as_str()) {
        Ok(m) => m,
        Err(e) => {
            proof { assert(false); }
            return Err(RunError::Invalid(e));
        },
    };
    let multiplier = match config.position.multiplier {
        Some(m) => m,
        None => Rat::from_int(1),
    };
    let mut calc = GridCalculator::new(
        config.base.initial_price,
        grid_type,
        position_mode,
        config.position.base_size,
        multiplier,
    );
    let ghost v0 = spec_initial_view(*config);
    let ghost lvls = spec_levels_of(config.grid.levels@);
    let mut results: Vec<GridResult> = Vec::new();
    proof {
        assert(calc@ == v0);
        assert(lvls.take(0) =~= Seq::<(int, int)>::empty());
        assert(results@.map_values(|g: GridResult| g@) =~= Seq::<StepView>::empty());
        assert(spec_run(v0, lvls.take(0)) == Some(
            (calc@, results@.map_values(|g: GridResult| g@)),
        ));
    }
    let mut i: usize = 0;
    while i < config.grid.levels.len()
        invariant
            0 <= i <= config.grid.levels@.len(),
            config.wf(),
            calc.inv(),
            v0 == spec_initial_view(*config),
            lvls == spec_levels_of(config.grid.levels@),
            lvls.len() == config.grid.levels@.len(),
            spec_validate(
                config.base.initial_price,
                config.base.grid_type,
                config.position.mode,
                config.position.multiplier,
                config.grid.levels@,
            ) is Ok,
            spec_run(v0, lvls.take(i as int)) == Some(
                (calc@, results@.map_values(|g: GridResult| g@)),
            ),
        decreases config.grid.levels@.len() - i,
    {
        let level = config.grid.levels[i];
        let ghost pre = calc@;
        let ghost pre_results = results@.map_values(|g: GridResult| g@);
        proof {
            assert(lvls[i as int] == level@);
            assert(lvls.take(i as int + 1).drop_last() =~= lvls.take(i as int));
            assert(lvls.take(i as int + 1).last() == lvls[i as int]);
        }
        match calc.calculate_grid(level) {
            Some(res) => {
                results.push(res);
                proof {
                    assert(results@.map_values(|g: GridResult| g@) =~= pre_results.push(res@));
                    assert(spec_run(v0, lvls.take(i as int + 1)) == Some(
                        (calc@, results@.map_values(|g: GridResult| g@)),
                    ));
                }
            },
            None => {
                proof {
                    assert(spec_run(v0, lvls.take(i as int + 1)) is None);
                    lemma_run_none_prefix(v0, lvls, i as int + 1);
                }
                return Err(RunError::Overflow);
            },
        }
        i += 1;
    }
    proof {
        assert(lvls.take(config.grid.levels@.len() as int) =~= lvls);
    }
    Ok(results)
}

} // verus!
