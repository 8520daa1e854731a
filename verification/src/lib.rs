//! Grid trading calculator: staged entry levels for an averaging-down
//! strategy, computed over exact rational arithmetic.
//!
//! Given an initial reference price, a sequence of percentage drop levels,
//! and a position-sizing policy, the engine produces, for each level, the
//! trigger price, the size to acquire, the cumulative position, and the
//! running average cost.

pub mod config;
pub mod grid_calculator;
pub mod rational;
pub mod session;

pub use config::{
    find_strategy, parse_grid_type, parse_position_mode, BaseConfig, Config, ConfigError,
    GridConfig, PositionConfig, Strategy, StrategyError,
};
pub use grid_calculator::{GridCalculator, GridResult, GridType, PositionMode};
pub use rational::Rat;
pub use session::{run_calculation, RunError};
