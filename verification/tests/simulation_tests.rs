use monte_walk::fixed::SCALE;
use monte_walk::prices::daily_price_changes;
use monte_walk::statistics::calibrate;
use monte_walk::models::{Config, RandomWalks, SimulationError, SimulationResults, Walk};
use monte_walk::simulations::{
    calculate_simulation_percentiles, parallel_walks, random_walk,
};

#[test]
fn config_new_keeps_fields() {
    let config = Config::new(String::from("bitcoin"), SCALE, 1000, 7);
    assert_eq!(config.coin, "bitcoin");
    assert_eq!(config.start, SCALE);
    assert_eq!(config.simulations, 1000);
    assert_eq!(config.steps, 7);
}

#[test]
fn model_constructors_keep_fields() {
    let w = Walk::new(vec![1, 2, 3]);
    assert_eq!(w.walk, vec![1, 2, 3]);
    let rw = RandomWalks::new(vec![Walk::new(vec![4]), Walk::new(vec![5])]);
    assert_eq!(rw.walks.len(), 2);
    assert_eq!(rw.walks[1].walk, vec![5]);
    let sr = SimulationResults::new(
        Walk::new(vec![1]),
        Walk::new(vec![2]),
        Walk::new(vec![3]),
    );
    assert_eq!(sr.fifth.walk, vec![1]);
    assert_eq!(sr.fiftieth.walk, vec![2]);
    assert_eq!(sr.ninety_fifth.walk, vec![3]);
}

#[test]
fn random_walk_starts_at_start_value() {
    let growths = vec![1_100_000_000, 900_000_000];
    let walk = random_walk(SCALE, &growths).unwrap();
    assert_eq!(walk.walk.len(), 3);
    assert_eq!(walk.walk[0], SCALE);
    assert_eq!(walk.walk, vec![SCALE, 1_100_000_000, 990_000_000]);
}

#[test]
fn random_walk_of_one_step_is_the_start_alone() {
    let walk = random_walk(25 * SCALE, &Vec::new()).unwrap();
    assert_eq!(walk.walk, vec![25 * SCALE]);
}

#[test]
fn random_walk_reports_overflow() {
    let growths = vec![2 * SCALE];
    assert_eq!(
        random_walk(i64::MAX, &growths).map(|w| w.walk),
        Err(SimulationError::NumericError)
    );
}

#[test]
fn parallel_walks_rejects_zero_trials() {
    let growths: Vec<Vec<i64>> = Vec::new();
    let r = parallel_walks(&growths, 7, SCALE);
    assert!(matches!(r, Err(SimulationError::ConfigurationError)));
}

#[test]
fn parallel_walks_rejects_zero_steps() {
    let growths = vec![Vec::new()];
    let r = parallel_walks(&growths, 0, SCALE);
    assert!(matches!(r, Err(SimulationError::ConfigurationError)));
}

#[test]
fn parallel_walks_rejects_misshapen_rows() {
    let growths = vec![vec![SCALE, SCALE], vec![SCALE]];
    let r = parallel_walks(&growths, 3, SCALE);
    assert!(matches!(r, Err(SimulationError::ConfigurationError)));
}

#[test]
fn parallel_walks_matches_sequential_generation() {
    let rows = vec![
        vec![1_100_000_000, 900_000_000],
        vec![500_000_000, 3 * SCALE],
        vec![1 * SCALE, 1 * SCALE],
    ];
    let ensemble = parallel_walks(&rows, 3, 2 * SCALE).unwrap();
    assert_eq!(ensemble.walks.len(), 3);
    for (row, walk) in rows.iter().zip(ensemble.walks.iter()) {
        let alone = random_walk(2 * SCALE, row).unwrap();
        assert_eq!(walk.walk, alone.walk);
    }
    assert_eq!(ensemble.walks[0].walk, vec![2 * SCALE, 2_200_000_000, 1_980_000_000]);
    assert_eq!(ensemble.walks[1].walk, vec![2 * SCALE, 1 * SCALE, 3 * SCALE]);
    assert_eq!(ensemble.walks[2].walk, vec![2 * SCALE, 2 * SCALE, 2 * SCALE]);
}

#[test]
fn parallel_walks_repeated_runs_agree() {
    let rows = vec![
        vec![1_234_567_890, 987_654_321],
        vec![1_111_111_111, 222_222_222],
    ];
    let a = parallel_walks(&rows, 3, SCALE).unwrap();
    let b = parallel_walks(&rows, 3, SCALE).unwrap();
    let a_values: Vec<Vec<i64>> = a.walks.into_iter().map(|w| w.walk).collect();
    let b_values: Vec<Vec<i64>> = b.walks.into_iter().map(|w| w.walk).collect();
    assert_eq!(a_values, b_values);
}

#[test]
fn parallel_walks_reports_overflowing_trial() {
    let rows = vec![vec![1 * SCALE], vec![i64::MAX]];
    let r = parallel_walks(&rows, 2, i64::MAX);
    assert!(matches!(r, Err(SimulationError::NumericError)));
}

#[test]
fn percentiles_of_ten_distinct_walks() {
    // Ten one-step walks whose values at step 0 are 1..=10: the
    // nearest-rank indices are 0, 5 and 9.
    let walks = RandomWalks {
        walks: (1..=10).map(|k| Walk { walk: vec![k * SCALE] }).collect(),
    };
    let result = calculate_simulation_percentiles(&walks, 1, SCALE).unwrap();
    assert_eq!(result.fifth.walk, vec![1 * SCALE]);
    assert_eq!(result.fiftieth.walk, vec![6 * SCALE]);
    assert_eq!(result.ninety_fifth.walk, vec![10 * SCALE]);
}

#[test]
fn median_band_stays_between_extremes() {
    let walks = RandomWalks {
        walks: vec![
            Walk { walk: vec![3 * SCALE, 9 * SCALE] },
            Walk { walk: vec![1 * SCALE, 4 * SCALE] },
            Walk { walk: vec![7 * SCALE, 2 * SCALE] },
        ],
    };
    let result = calculate_simulation_percentiles(&walks, 2, SCALE).unwrap();
    for t in 0..2 {
        let mut step: Vec<i64> = walks.walks.iter().map(|w| w.walk[t]).collect();
        step.sort();
        let median = result.fiftieth.walk[t];
        assert!(step[0] <= median && median <= step[2]);
    }
    assert_eq!(result.fiftieth.walk, vec![3 * SCALE, 4 * SCALE]);
}

#[test]
fn percentiles_rescale_by_current_price() {
    // Normalized median 1.05 rescaled by a current price of 100.
    let walks = RandomWalks {
        walks: vec![Walk { walk: vec![1_050_000_000] }],
    };
    let result = calculate_simulation_percentiles(&walks, 1, 100 * SCALE).unwrap();
    assert_eq!(result.fifth.walk, vec![105 * SCALE]);
    assert_eq!(result.fiftieth.walk, vec![105 * SCALE]);
    assert_eq!(result.ninety_fifth.walk, vec![105 * SCALE]);
}

#[test]
fn percentiles_report_unrepresentable_band() {
    let walks = RandomWalks {
        walks: vec![Walk { walk: vec![i64::MAX] }],
    };
    let r = calculate_simulation_percentiles(&walks, 1, 2 * SCALE);
    assert!(matches!(r, Err(SimulationError::NumericError)));
}

#[test]
fn one_step_run_yields_the_rescaled_start_everywhere() {
    let rows: Vec<Vec<i64>> = vec![Vec::new(), Vec::new(), Vec::new()];
    let start = 1_500_000_000;
    let ensemble = parallel_walks(&rows, 1, start).unwrap();
    let result = calculate_simulation_percentiles(&ensemble, 1, 10 * SCALE).unwrap();
    assert_eq!(result.fifth.walk, vec![15 * SCALE]);
    assert_eq!(result.fiftieth.walk, vec![15 * SCALE]);
    assert_eq!(result.ninety_fifth.walk, vec![15 * SCALE]);
}

#[test]
fn full_pipeline_on_fixed_growth_rates() {
    let prices = vec![100 * SCALE, 110 * SCALE, 99 * SCALE, 99 * SCALE];
    let changes = daily_price_changes(&prices).unwrap();
    assert_eq!(changes, vec![1_100_000_000, 900_000_000, 1 * SCALE]);
    let params = calibrate(&changes).unwrap();
    assert_eq!(params.mean, 1 * SCALE);
    assert!(params.validate().is_ok());

    // Two trials drawn as constant rates around the calibrated mean.
    let rows = vec![vec![1_100_000_000, 1_100_000_000], vec![900_000_000, 900_000_000]];
    let ensemble = parallel_walks(&rows, 3, SCALE).unwrap();
    let result = calculate_simulation_percentiles(&ensemble, 3, 99 * SCALE).unwrap();
    assert_eq!(result.fifth.walk.len(), 3);
    // Step 0 of every walk is the normalized start, rescaled to 99.
    assert_eq!(result.fifth.walk[0], 99 * SCALE);
    assert_eq!(result.ninety_fifth.walk[0], 99 * SCALE);
    // With two walks the 50th percentile rank is round(0.5 * 1) = 1:
    // the larger of the two values.
    assert_eq!(result.fiftieth.walk[1], 108_900_000_000);
    assert_eq!(result.fifth.walk[1], 89_100_000_000);
    assert_eq!(result.ninety_fifth.walk[1], 108_900_000_000);
}
