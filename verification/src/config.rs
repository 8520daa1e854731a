//! Validated configuration for a calculation session.
//!
//! A configuration carries open strings for the two policy fields, exactly
//! as a configuration file does; [`Config::validate`] checks them (and the
//! levels, and the conditional multiplier requirement) before anything is
//! parsed into the closed policy enums of the engine.

use crate::grid_calculator::{GridType, PositionMode};
use crate::rational::{rat_lt, spec_rat_text, Rat};
use vstd::prelude::*;
use vstd::string::StringExecFns;

verus! {

/// Why a configuration was rejected.
#[derive(Clone, Debug, PartialEq, Eq)]
pub enum ConfigError {
    /// The initial price is not strictly positive.
    InvalidInitialPrice { price: Rat },
    /// The grid type string is neither `"fixed"` nor `"average"`.
    InvalidGridType { value: String },
    /// The position mode string is not one of the three accepted modes.
    InvalidPositionMode { value: String },
    /// The named "multiple" position mode was chosen without a multiplier.
    MissingMultiplier { mode: String },
    /// The level list is empty.
    EmptyLevels,
    /// A level lies outside the open interval (0, 100).
    InvalidLevel { level: Rat },
}

/// A rejection of one named strategy: the strategy's name together with
/// what was wrong, so that the report can identify the strategy.
#[derive(Clone, Debug, PartialEq, Eq)]
pub struct StrategyError {
    pub strategy: String,
    pub error: ConfigError,
}

/// Reference price and grid-price basis.
#[derive(Clone, Debug)]
pub struct BaseConfig {
    pub initial_price: Rat,
    pub grid_type: String,
}

/// The ordered percentage drop levels.
#[derive(Clone, Debug)]
pub struct GridConfig {
    pub levels: Vec<Rat>,
}

/// Position sizing policy.
#[derive(Clone, Debug)]
pub struct PositionConfig {
    pub mode: String,
    pub base_size: Rat,
    pub multiplier: Option<Rat>,
}

/// One named, self-contained parameter set.
#[derive(Clone, Debug)]
pub struct Strategy {
    pub name: String,
    pub initial_price: Rat,
    pub grid_type: String,
    pub levels: Vec<Rat>,
    pub position_mode: String,
    pub base_size: Rat,
    pub multiplier: Option<Rat>,
}

/// A full configuration: the main parameter set plus optional named
/// alternative strategies.
#[derive(Clone, Debug)]
pub struct Config {
    pub base: BaseConfig,
    pub grid: GridConfig,
    pub position: PositionConfig,
    pub strategies: Option<Vec<Strategy>>,
}

/// The accepted grid type strings.
pub open spec fn valid_grid_type(s: Seq<char>) -> bool {
    s == "fixed"@ || s == "average"@
}

/// The accepted position mode strings.
pub open spec fn valid_position_mode(s: Seq<char>) -> bool {
    s == "fixed"@ || s == "current-multiple"@ || s == "increment-multiple"@
}

/// The modes that require a multiplier: both "multiple" modes.
pub open spec fn mode_needs_multiplier(s: Seq<char>) -> bool {
    s == "current-multiple"@ || s == "increment-multiple"@
}

/// A level percentage must lie strictly between 0 and 100.
pub open spec fn valid_level(l: (int, int)) -> bool {
    rat_lt((0int, 1int), l) && rat_lt(l, (100int, 1int))
}

/// The grid type an accepted string denotes.
pub open spec fn spec_grid_type_of(s: Seq<char>) -> GridType {
    if s == "fixed"@ {
        GridType::Fixed
    } else {
        GridType::Average
    }
}

/// The position mode an accepted string denotes.
pub open spec fn spec_position_mode_of(s: Seq<char>) -> PositionMode {
    if s == "fixed"@ {
        PositionMode::Fixed
    } else if s == "current-multiple"@ {
        PositionMode::CurrentMultiple
    } else {
        PositionMode::IncrementMultiple
    }
}

/// Scanning the levels front to back: the first out-of-range level is
/// reported, otherwise the scan passes.
pub open spec fn spec_validate_levels(levels: Seq<Rat>) -> Result<(), ConfigError>
    decreases levels.len(),
{
    if levels.len() == 0 {
        Ok(())
    } else if !valid_level(levels[0]@) {
        Err(ConfigError::InvalidLevel { level: levels[0] })
    } else {
        spec_validate_levels(levels.skip(1))
    }
}

/// Validation of one parameter set, reporting the first violation in this
/// order: non-positive initial price, grid type, position mode, missing
/// multiplier, empty levels, then each level in sequence order.
pub open spec fn spec_validate(
    initial_price: Rat,
    grid_type: String,
    mode: String,
    multiplier: Option<Rat>,
    levels: Seq<Rat>,
) -> Result<(), ConfigError> {
    if initial_price@.0 <= 0 {
        Err(ConfigError::InvalidInitialPrice { price: initial_price })
    } else if !valid_grid_type(grid_type@) {
        Err(ConfigError::InvalidGridType { value: grid_type })
    } else if !valid_position_mode(mode@) {
        Err(ConfigError::InvalidPositionMode { value: mode })
    } else if mode_needs_multiplier(mode@) && multiplier is None {
        Err(ConfigError::MissingMultiplier { mode })
    } else if levels.len() == 0 {
        Err(ConfigError::EmptyLevels)
    } else {
        spec_validate_levels(levels)
    }
}

/// Exec comparison of two string slices by their character sequences.
fn str_is(s: &str, t: &str) -> (r: bool)
    ensures
        r == (s@ == t@),
{
    let a: String = s.to_owned();
    let b: String = t.to_owned();
    a.eq(&b)
}

proof fn lemma_validate_levels_prefix(levels: Seq<Rat>, i: int)
    requires
        0 <= i <= levels.len(),
        forall|j: int| 0 <= j < i ==> valid_level(#[trigger] levels[j]@),
    ensures
        spec_validate_levels(levels.skip(i)) == spec_validate_levels(levels),
    decreases i,
{
    if i == 0 {
        assert(levels.skip(0) =~= levels);
    } else {
        lemma_validate_levels_prefix(levels, i - 1);
        let s = levels.skip(i - 1);
        assert(s[0] == levels[i - 1]);
        assert(valid_level(s[0]@));
        assert(s.skip(1) =~= levels.skip(i));
    }
}

fn validate_params(
    initial_price: &Rat,
    grid_type: &String,
    mode: &String,
    multiplier: &Option<Rat>,
    levels: &Vec<Rat>,
) -> (r: Result<(), ConfigError>)
    requires
        forall|i: int| 0 <= i < levels@.len() ==> (#[trigger] levels@[i]).wf(),
    ensures
        r == spec_validate(*initial_price, *grid_type, *mode, *multiplier, levels@),
{
    if !initial_price.is_pos() {
        return Err(ConfigError::InvalidInitialPrice { price: *initial_price });
    }
    if !(str_is(grid_type.as_str(), "fixed") || str_is(grid_type.as_str(), "average")) {
        return Err(ConfigError::InvalidGridType { value: grid_type.clone() });
    }
    let needs_multiplier = str_is(mode.as_str(), "current-multiple") || str_is(
        mode.as_str(),
        "increment-multiple",
    );
    if !(str_is(mode.as_str(), "fixed") || needs_multiplier) {
        return Err(ConfigError::InvalidPositionMode { value: mode.clone() });
    }
    if needs_multiplier && multiplier.is_none() {
        return Err(ConfigError::MissingMultiplier { mode: mode.clone() });
    }
    if levels.len() == 0 {
        return Err(ConfigError::EmptyLevels);
    }
    let hundred = Rat::from_int(100);
    let mut i: usize = 0;
    while i < levels.len()
        invariant
            0 <= i <= levels@.len(),
            initial_price@.0 > 0,
            valid_grid_type(grid_type@),
            valid_position_mode(mode@),
            !(mode_needs_multiplier(mode@) && multiplier is None),
            levels@.len() > 0,
            forall|j: int| 0 <= j < levels@.len() ==> (#[trigger] levels@[j]).wf(),
            forall|j: int| 0 <= j < i ==> valid_level(#[trigger] levels@[j]@),
            hundred@ == (100int, 1int),
        decreases levels@.len() - i,
    {
        let level = levels[i];
        proof {
            assert(level == levels@[i as int]);
            assert(rat_lt((0int, 1int), level@) <==> level@.0 > 0) by {
                assert(0 * level@.1 == 0);
                assert(level@.0 * 1 == level@.0);
            }
        }
        if !(level.is_pos() && level.lt_rat(&hundred)) {
            proof {
                assert(!valid_level(levels@[i as int]@));
                lemma_validate_levels_prefix(levels@, i as int);
                assert(levels@.skip(i as int).len() == levels@.len() - i as int);
                assert(levels@.skip(i as int)[0] == levels@[i as int]);
                assert(spec_validate_levels(levels@.skip(i as int)) == Err::<(), ConfigError>(
                    ConfigError::InvalidLevel { level: levels@[i as int] },
                ));
            }
            return Err(ConfigError::InvalidLevel { level });
        }
        proof {
            assert(valid_level(levels@[i as int]@));
        }
        i += 1;
    }
    proof {
        lemma_validate_levels_prefix(levels@, levels@.len() as int);
        assert(levels@.skip(levels@.len() as int).len() == 0);
    }
    Ok(())
}

impl Config {
    /// Every rational the configuration holds has a positive denominator.
    pub open spec fn wf(&self) -> bool {
        &&& self.base.initial_price.wf()
        &&& self.position.base_size.wf()
        &&& (self.position.multiplier matches Some(m) ==> m.wf())
        &&& (forall|i: int|
            0 <= i < self.grid.levels@.len() ==> (#[trigger] self.grid.levels@[i]).wf())
        &&& (self.strategies matches Some(ss) ==> forall|i: int|
            0 <= i < ss@.len() ==> (#[trigger] ss@[i]).wf())
    }

    /// Checks the main parameter set: the initial price must be strictly
    /// positive, grid type and position mode must be accepted strings, a
    /// "multiple" mode must come with a multiplier, and the levels must be
    /// a non-empty list of percentages strictly between 0 and 100. The
    /// first violation, in that order, is reported.
    pub fn validate(&self) -> (r: Result<(), ConfigError>)
        requires
            self.wf(),
        ensures
            r == spec_validate(
                self.base.initial_price,
                self.base.grid_type,
                self.position.mode,
                self.position.multiplier,
                self.grid.levels@,
            ),
    {
        validate_params(
            &self.base.initial_price,
            &self.base.grid_type,
            &self.position.mode,
            &self.position.multiplier,
            &self.grid.levels,
        )
    }
}

impl Strategy {
    /// Every rational the strategy holds has a positive denominator.
    pub open spec fn wf(&self) -> bool {
        &&& self.initial_price.wf()
        &&& self.base_size.wf()
        &&& (self.multiplier matches Some(m) ==> m.wf())
        &&& (forall|i: int| 0 <= i < self.levels@.len() ==> (#[trigger] self.levels@[i]).wf())
    }

    /// Checks this strategy's parameter set under exactly the rules of
    /// [`Config::validate`]; a rejection carries this strategy's name, so
    /// that the report can say which strategy was at fault.
    pub fn validate(&self) -> (r: Result<(), StrategyError>)
        requires
            self.wf(),
        ensures
            r == match spec_validate(
                self.initial_price,
                self.grid_type,
                self.position_mode,
                self.multiplier,
                self.levels@,
            ) {
                Ok(()) => Ok::<(), StrategyError>(()),
                Err(e) => Err(StrategyError { strategy: self.name, error: e }),
            },
    {
        match validate_params(
            &self.initial_price,
            &self.grid_type,
            &self.position_mode,
            &self.multiplier,
            &self.levels,
        ) {
            Ok(()) => Ok(()),
            Err(e) => Err(StrategyError { strategy: self.name.clone(), error: e }),
        }
    }

    /// Repackages the strategy as a stand-alone configuration with no
    /// nested strategies.
    pub fn to_config(&self) -> (r: Config)
        ensures
            r.base.initial_price == self.initial_price,
            r.base.grid_type == self.grid_type,
            r.grid.levels@ == self.levels@,
            r.position.mode == self.position_mode,
            r.position.base_size == self.base_size,
            r.position.multiplier == self.multiplier,
            r.strategies is None,
            self.wf() ==> r.wf(),
    {
        Config {
            base: BaseConfig {
                initial_price: self.initial_price,
                grid_type: self.grid_type.clone(),
            },
            grid: GridConfig { levels: self.levels.clone() },
            position: PositionConfig {
                mode: self.position_mode.clone(),
                base_size: self.base_size,
                multiplier: self.multiplier,
            },
            strategies: None,
        }
    }
}

/// Turns an accepted grid type string into the closed policy enum; any
/// other string is rejected with the offending value.
pub fn parse_grid_type(grid_type: &str) -> (r: Result<GridType, ConfigError>)
    ensures
        r is Ok <==> valid_grid_type(grid_type@),
        r matches Ok(t) ==> t == spec_grid_type_of(grid_type@),
        r matches Err(e) ==> e matches ConfigError::InvalidGridType { value } && value@
            == grid_type@,
{
    if str_is(grid_type, "fixed") {
        Ok(GridType::Fixed)
    } else if str_is(grid_type, "average") {
        Ok(GridType::Average)
    } else {
        Err(ConfigError::InvalidGridType { value: grid_type.to_owned() })
    }
}

/// Turns an accepted position mode string into the closed policy enum; any
/// other string is rejected with the offending value.
pub fn parse_position_mode(mode: &str) -> (r: Result<PositionMode, ConfigError>)
    ensures
        r is Ok <==> valid_position_mode(mode@),
        r matches Ok(m) ==> m == spec_position_mode_of(mode@),
        r matches Err(e) ==> e matches ConfigError::InvalidPositionMode { value } && value@
            == mode@,
{
    if str_is(mode, "fixed") {
        Ok(PositionMode::Fixed)
    } else if str_is(mode, "current-multiple") {
        Ok(PositionMode::CurrentMultiple)
    } else if str_is(mode, "increment-multiple") {
        Ok(PositionMode::IncrementMultiple)
    } else {
        Err(ConfigError::InvalidPositionMode { value: mode.to_owned() })
    }
}

/// The position of the first strategy with the given name, if any.
pub fn find_strategy(strategies: &Vec<Strategy>, name: &str) -> (r: Option<usize>)
    ensures
        r is Some <==> exists|i: int|
            0 <= i < strategies@.len() && (#[trigger] strategies@[i]).name@ == name@,
        r matches Some(i) ==> 0 <= i < strategies@.len() && strategies@[i as int].name@ == name@
            && (forall|j: int| 0 <= j < i ==> (#[trigger] strategies@[j]).name@ != name@),
{
    let mut i: usize = 0;
    while i < strategies.len()
        invariant
            0 <= i <= strategies@.len(),
            forall|j: int| 0 <= j < i ==> (#[trigger] strategies@[j]).name@ != name@,
        decreases strategies@.len() - i,
    {
        if str_is(strategies[i].name.as_str(), name) {
            return Some(i);
        }
        i += 1;
    }
    None
}

impl ConfigError {
    /// A human-readable description of the rejection, naming the offending
    /// field and the offending value, where there is one.
    pub fn message(&self) -> (r: String)
        ensures
            self matches ConfigError::InvalidInitialPrice { price } ==> r@
                == "Invalid initial price: "@ + spec_rat_text(price@)
                + ". Must be greater than 0"@,
            self matches ConfigError::InvalidGridType { value } ==> r@ == "Invalid grid_type: "@
                + value@ + ". Must be 'fixed' or 'average'"@,
            self matches ConfigError::InvalidPositionMode { value } ==> r@
                == "Invalid position mode: "@ + value@
                + ". Must be 'fixed', 'current-multiple', or 'increment-multiple'"@,
            self is MissingMultiplier ==> r@
                == "Multiplier is required for multiple position modes"@,
            self is EmptyLevels ==> r@ == "Grid levels cannot be empty"@,
            self matches ConfigError::InvalidLevel { level } ==> r@ == "Invalid grid level: "@
                + spec_rat_text(level@) + ". Must be between 0 and 100"@,
    {
        match self {
            ConfigError::InvalidInitialPrice { price } => {
                let s = String::from_str("Invalid initial price: ").concat(price.to_text().as_str());
                s.concat(". Must be greater than 0")
            },
            ConfigError::InvalidGridType { value } => {
                let s = String::from_str("Invalid grid_type: ").concat(value.as_str());
                s.concat(". Must be 'fixed' or 'average'")
            },
            ConfigError::InvalidPositionMode { value } => {
                let s = String::from_str("Invalid position mode: ").concat(value.as_str());
                s.concat(". Must be 'fixed', 'current-multiple', or 'increment-multiple'")
            },
            ConfigError::MissingMultiplier { mode: _ } => String::from_str(
                "Multiplier is required for multiple position modes",
            ),
            ConfigError::EmptyLevels => String::from_str("Grid levels cannot be empty"),
            ConfigError::InvalidLevel { level } => {
                let s = String::from_str("Invalid grid level: ").concat(level.to_text().as_str());
                s.concat(". Must be between 0 and 100")
            },
        }
    }
}

impl StrategyError {
    /// A human-readable description of the rejection, naming the strategy
    /// it concerns, the offending field, and the offending value, where
    /// there is one.
    pub fn message(&self) -> (r: String)
        ensures
            self.error matches ConfigError::InvalidInitialPrice { price } ==> r@
                == "Invalid initial price in strategy '"@ + self.strategy@ + "': "@
                + spec_rat_text(price@) + ". Must be greater than 0"@,
            self.error matches ConfigError::InvalidGridType { value } ==> r@
                == "Invalid grid_type in strategy '"@ + self.strategy@ + "': "@ + value@
                + ". Must be 'fixed' or 'average'"@,
            self.error matches ConfigError::InvalidPositionMode { value } ==> r@
                == "Invalid position mode in strategy '"@ + self.strategy@ + "': "@ + value@
                + ". Must be 'fixed', 'current-multiple', or 'increment-multiple'"@,
            self.error matches ConfigError::MissingMultiplier { mode } ==> r@
                == "Multiplier is required for strategy '"@ + self.strategy@
                + "' with position mode '"@ + mode@ + "'"@,
            self.error is EmptyLevels ==> r@ == "Grid levels cannot be empty for strategy '"@
                + self.strategy@ + "'"@,
            self.error matches ConfigError::InvalidLevel { level } ==> r@
                == "Invalid grid level in strategy '"@ + self.strategy@ + "': "@
                + spec_rat_text(level@) + ". Must be between 0 and 100"@,
    {
        match &self.error {
            ConfigError::InvalidInitialPrice { price } => {
                let s = String::from_str("Invalid initial price in strategy '").concat(
                    self.strategy.as_str(),
                );
                let s = s.concat("': ").concat(price.to_text().as_str());
                s.concat(". Must be greater than 0")
            },
            ConfigError::InvalidGridType { value } => {
                let s = String::from_str("Invalid grid_type in strategy '").concat(
                    self.strategy.as_str(),
                );
                let s = s.concat("': ").concat(value.as_str());
                s.concat(". Must be 'fixed' or 'average'")
            },
            ConfigError::InvalidPositionMode { value } => {
                let s = String::from_str("Invalid position mode in strategy '").concat(
                    self.strategy.as_str(),
                );
                let s = s.concat("': ").concat(value.as_str());
                s.concat(". Must be 'fixed', 'current-multiple', or 'increment-multiple'")
            },
            ConfigError::MissingMultiplier { mode } => {
                let s = String::from_str("Multiplier is required for strategy '").concat(
                    self.strategy.as_str(),
                );
                let s = s.concat("' with position mode '").concat(mode.as_str());
                s.concat("'")
            },
            ConfigError::EmptyLevels => {
                let s = String::from_str("Grid levels cannot be empty for strategy '").concat(
                    self.strategy.as_str(),
                );
                s.concat("'")
            },
            ConfigError::InvalidLevel { level } => {
                let s = String::from_str("Invalid grid level in strategy '").concat(
                    self.strategy.as_str(),
                );
                let s = s.concat("': ").concat(level.to_text().as_str());
                s.concat(". Must be between 0 and 100")
            },
        }
    }
}

} // verus!
