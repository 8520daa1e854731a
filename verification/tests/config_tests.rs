use grid_calculator::{
    find_strategy, parse_grid_type, parse_position_mode, BaseConfig, Config, ConfigError,
    GridConfig, GridType, PositionConfig, PositionMode, Rat, Strategy,
};

fn rat(n: i64) -> Rat {
    Rat::from_int(n)
}

fn base_config(grid_type: &str, mode: &str, multiplier: Option<Rat>) -> Config {
    Config {
        base: BaseConfig {
            initial_price: rat(100),
            grid_type: grid_type.to_string(),
        },
        grid: GridConfig {
            levels: vec![rat(1), rat(2), rat(3)],
        },
        position: PositionConfig {
            mode: mode.to_string(),
            base_size: rat(100),
            multiplier,
        },
        strategies: None,
    }
}

#[test]
fn test_config_validation() {
    let config = base_config("fixed", "fixed", None);
    assert!(config.validate().is_ok());
}

#[test]
fn test_invalid_grid_type() {
    let config = base_config("invalid", "fixed", None);
    assert!(config.validate().is_err());
}

#[test]
fn test_missing_multiplier() {
    let config = base_config("fixed", "current-multiple", None);
    assert!(config.validate().is_err());
}

#[test]
fn test_missing_multiplier_is_reported_as_such() {
    let config = base_config("average", "increment-multiple", None);
    match config.validate() {
        Err(ConfigError::MissingMultiplier { mode }) => assert_eq!(mode, "increment-multiple"),
        other => panic!("expected MissingMultiplier, got {:?}", other),
    }
    let e = ConfigError::MissingMultiplier {
        mode: "current-multiple".to_string(),
    };
    assert_eq!(e.message(), "Multiplier is required for multiple position modes");
    // With the multiplier supplied the same configuration passes.
    let config = base_config("average", "increment-multiple", Some(rat(2)));
    assert!(config.validate().is_ok());
}

#[test]
fn test_invalid_position_mode_is_reported() {
    let config = base_config("fixed", "martingale", None);
    match config.validate() {
        Err(ConfigError::InvalidPositionMode { value }) => assert_eq!(value, "martingale"),
        other => panic!("expected InvalidPositionMode, got {:?}", other),
    }
}

#[test]
fn test_invalid_grid_type_carries_value_and_message() {
    let config = base_config("linear", "fixed", None);
    match config.validate() {
        Err(e @ ConfigError::InvalidGridType { .. }) => {
            assert_eq!(
                e.message(),
                "Invalid grid_type: linear. Must be 'fixed' or 'average'"
            );
        }
        other => panic!("expected InvalidGridType, got {:?}", other),
    }
}

#[test]
fn test_empty_levels_rejected() {
    let mut config = base_config("fixed", "fixed", None);
    config.grid.levels = vec![];
    match config.validate() {
        Err(ConfigError::EmptyLevels) => {}
        other => panic!("expected EmptyLevels, got {:?}", other),
    }
}

#[test]
fn test_out_of_range_levels_rejected() {
    let mut config = base_config("fixed", "fixed", None);
    config.grid.levels = vec![rat(1), rat(0), rat(2)];
    match config.validate() {
        Err(e @ ConfigError::InvalidLevel { level }) => {
            assert!(level.eq_rat(&rat(0)));
            assert_eq!(e.message(), "Invalid grid level: 0. Must be between 0 and 100");
        }
        other => panic!("expected InvalidLevel, got {:?}", other),
    }
    config.grid.levels = vec![rat(100)];
    assert!(config.validate().is_err());
    config.grid.levels = vec![rat(-5)];
    assert!(config.validate().is_err());
    config.grid.levels = vec![Rat::new(1, 2), Rat::new(199, 2)];
    assert!(config.validate().is_ok());
}

#[test]
fn test_parse_grid_type() {
    assert!(matches!(parse_grid_type("fixed"), Ok(GridType::Fixed)));
    assert!(matches!(parse_grid_type("average"), Ok(GridType::Average)));
    assert!(matches!(
        parse_grid_type("neither"),
        Err(ConfigError::InvalidGridType { .. })
    ));
}

#[test]
fn test_parse_position_mode() {
    assert!(matches!(parse_position_mode("fixed"), Ok(PositionMode::Fixed)));
    assert!(matches!(
        parse_position_mode("current-multiple"),
        Ok(PositionMode::CurrentMultiple)
    ));
    assert!(matches!(
        parse_position_mode("increment-multiple"),
        Ok(PositionMode::IncrementMultiple)
    ));
    assert!(matches!(
        parse_position_mode("flat"),
        Err(ConfigError::InvalidPositionMode { .. })
    ));
}

fn strategy(name: &str) -> Strategy {
    Strategy {
        name: name.to_string(),
        initial_price: rat(50),
        grid_type: "average".to_string(),
        levels: vec![rat(2), rat(4)],
        position_mode: "current-multiple".to_string(),
        base_size: rat(10),
        multiplier: Some(rat(2)),
    }
}

#[test]
fn test_strategy_validate_and_to_config() {
    let strat = strategy("aggressive");
    assert!(strat.validate().is_ok());

    let config = strat.to_config();
    assert!(config.base.initial_price.eq_rat(&rat(50)));
    assert_eq!(config.base.grid_type, "average");
    assert_eq!(config.grid.levels.len(), 2);
    assert!(config.grid.levels[1].eq_rat(&rat(4)));
    assert_eq!(config.position.mode, "current-multiple");
    assert!(config.position.multiplier.unwrap().eq_rat(&rat(2)));
    assert!(config.strategies.is_none());
    assert!(config.validate().is_ok());

    let mut bad = strategy("bad");
    bad.multiplier = None;
    let err = bad.validate().unwrap_err();
    assert_eq!(err.strategy, "bad");
    assert!(matches!(err.error, ConfigError::MissingMultiplier { .. }));
    assert_eq!(
        err.message(),
        "Multiplier is required for strategy 'bad' with position mode 'current-multiple'"
    );
}

#[test]
fn test_non_positive_initial_price_rejected() {
    let mut config = base_config("fixed", "fixed", None);
    config.base.initial_price = rat(0);
    match config.validate() {
        Err(e @ ConfigError::InvalidInitialPrice { price }) => {
            assert!(price.eq_rat(&rat(0)));
            assert_eq!(e.message(), "Invalid initial price: 0. Must be greater than 0");
        }
        other => panic!("expected InvalidInitialPrice, got {:?}", other),
    }
    config.base.initial_price = rat(-3);
    assert!(matches!(
        config.validate(),
        Err(ConfigError::InvalidInitialPrice { .. })
    ));
    config.base.initial_price = Rat::new(1, 2);
    assert!(config.validate().is_ok());
}

#[test]
fn test_strategy_error_messages_name_the_strategy() {
    let mut strat = strategy("careful");
    strat.grid_type = "linear".to_string();
    assert_eq!(
        strat.validate().unwrap_err().message(),
        "Invalid grid_type in strategy 'careful': linear. Must be 'fixed' or 'average'"
    );
    let mut strat = strategy("careful");
    strat.levels = vec![];
    assert_eq!(
        strat.validate().unwrap_err().message(),
        "Grid levels cannot be empty for strategy 'careful'"
    );
    let mut strat = strategy("careful");
    strat.levels = vec![Rat::new(201, 2)];
    assert_eq!(
        strat.validate().unwrap_err().message(),
        "Invalid grid level in strategy 'careful': 201/2. Must be between 0 and 100"
    );
    let mut strat = strategy("careful");
    strat.initial_price = rat(-1);
    assert_eq!(
        strat.validate().unwrap_err().message(),
        "Invalid initial price in strategy 'careful': -1. Must be greater than 0"
    );
}

#[test]
fn test_find_strategy() {
    let strategies = vec![strategy("alpha"), strategy("beta"), strategy("beta")];
    assert_eq!(find_strategy(&strategies, "alpha"), Some(0));
    // The first match wins.
    assert_eq!(find_strategy(&strategies, "beta"), Some(1));
    assert_eq!(find_strategy(&strategies, "gamma"), None);
}
