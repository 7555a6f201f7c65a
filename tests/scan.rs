use bedrock_finder::scan::{
    Band, Check, ConfigError, MatchResult, MatchTemplate, Progress, ScanConfig, samples_in,
};
use bedrock_finder::{Generator, OldPaperLegacyGenerator};

fn checks(list: &[(i32, i32, u8)]) -> Vec<Check> {
    list.iter().map(|&(dx, dz, e)| Check { dx, dz, expected: e == 1 }).collect()
}

fn scenario_template() -> MatchTemplate {
    let certain = checks(&[
        (1, 1, 0), (2, 1, 0), (3, 1, 1), (4, 1, 0), (1, 2, 0), (2, 2, 0), (3, 2, 1), (4, 2, 0),
        (1, 3, 1), (2, 3, 0), (3, 3, 0), (4, 3, 0), (1, 4, 0), (2, 4, 0), (3, 4, 0), (4, 4, 0),
        (1, 5, 0), (2, 5, 0), (3, 5, 0), (4, 5, 0),
    ]);
    let uncertain = checks(&[
        (11, 12, 1), (1, 0, 0), (2, 0, 1), (3, 0, 0), (4, 0, 0), (0, 1, 0), (0, 2, 0), (0, 3, 1),
        (0, 4, 0), (0, 5, 0), (5, 1, 0), (5, 2, 0), (5, 3, 1), (5, 4, 1), (5, 5, 0), (1, 6, 1),
        (2, 6, 0), (3, 6, 1), (4, 6, 0),
    ]);
    MatchTemplate { certain, uncertain }
}

fn empty_template() -> MatchTemplate {
    MatchTemplate { certain: Vec::new(), uncertain: Vec::new() }
}

fn all_results(config: &ScanConfig, g: &OldPaperLegacyGenerator) -> Vec<MatchResult> {
    let mut out = Vec::new();
    for band in config.partition_bands() {
        for i in band.start..band.end {
            out.extend(config.scan_column(g, config.x_at(i)));
        }
    }
    out
}

#[test]
fn scan_finds_exactly_the_planted_point() {
    let config = ScanConfig::new(0, 64, -16, 64, 4, 3, 2, scenario_template()).unwrap();
    let g = OldPaperLegacyGenerator::new(64149200);
    let found = all_results(&config, &g);
    assert_eq!(found, vec![MatchResult { x: 16, z: 32, score: 17, total: 19 }]);
}

#[test]
fn scan_respects_threshold() {
    let config = ScanConfig::new(0, 64, -16, 64, 4, 2, 1, scenario_template()).unwrap();
    let g = OldPaperLegacyGenerator::new(64149200);
    assert_eq!(all_results(&config, &g), vec![]);
    assert_eq!(config.evaluate_point(&g, 16, 32), None);
}

#[test]
fn point_evaluation_scores_the_uncertain_tier() {
    let config = ScanConfig::new(0, 64, -16, 64, 4, 1, 2, scenario_template()).unwrap();
    let g = OldPaperLegacyGenerator::new(64149200);
    assert_eq!(
        config.evaluate_point(&g, 16, 32),
        Some(MatchResult { x: 16, z: 32, score: 17, total: 19 })
    );
    assert_eq!(config.evaluate_point(&g, 0, 0), None);
}

#[test]
fn empty_template_matches_everywhere() {
    let config = ScanConfig::new(0, 40, 0, 20, 1, 1, 0, empty_template()).unwrap();
    let g = OldPaperLegacyGenerator::new(1);
    assert_eq!(
        config.scan_column(&g, 32),
        vec![
            MatchResult { x: 32, z: 0, score: 0, total: 0 },
            MatchResult { x: 32, z: 16, score: 0, total: 0 },
        ]
    );
}

#[test]
fn sample_counts() {
    assert_eq!(samples_in(0, 0), 0);
    assert_eq!(samples_in(5, 0), 0);
    assert_eq!(samples_in(0, 1), 1);
    assert_eq!(samples_in(0, 16), 1);
    assert_eq!(samples_in(0, 17), 2);
    assert_eq!(samples_in(-3_750_000, 3_750_000), 468750);
    assert_eq!(samples_in(i32::MIN, i32::MAX), 268435456);
}

#[test]
fn partition_covers_every_column_once() {
    for workers in 1..=12usize {
        for (lo, hi) in [(0, 16), (0, 160), (-100, 333), (7, 8)] {
            let config = ScanConfig::new(lo, hi, 0, 16, 4, workers, 0, empty_template()).unwrap();
            let n = config.x_samples();
            let bands = config.partition_bands();
            assert!(bands.len() <= workers);
            let mut seen = Vec::new();
            for b in &bands {
                assert!(b.start < b.end);
                for i in b.start..b.end {
                    seen.push(config.x_at(i));
                }
            }
            let expected: Vec<i32> = (lo..hi).step_by(16).collect();
            assert_eq!(seen, expected);
            assert_eq!(bands.iter().map(|b| b.end - b.start).sum::<usize>(), n);
        }
    }
}

#[test]
fn partition_of_ten_workers() {
    let config = ScanConfig::new(0, 16 * 25, 0, 16, 4, 10, 0, empty_template()).unwrap();
    let bands = config.partition_bands();
    assert_eq!(bands.len(), 9);
    assert_eq!(bands[0], Band { start: 0, end: 3 });
    assert_eq!(bands[8], Band { start: 24, end: 25 });
}

#[test]
fn progress_accounting() {
    for workers in [1usize, 3, 7] {
        let config = ScanConfig::new(-40, 200, 0, 50, 2, workers, 0, empty_template()).unwrap();
        let total = config.total_progress();
        assert_eq!(total, 15 * 4);
        assert_eq!(config.column_progress(), 4);
        let mut p = Progress::new(total);
        let mut columns = 0;
        for b in config.partition_bands() {
            for _ in b.start..b.end {
                assert!(!p.is_complete());
                p.update(config.column_progress());
                columns += 1;
            }
        }
        assert!(p.is_complete());
        assert_eq!(columns, config.x_samples());
        assert_eq!(p.completed, total);
    }
}

#[test]
fn progress_saturates() {
    let mut p = Progress::new(10);
    p.update(u64::MAX - 1);
    p.update(5);
    assert_eq!(p.completed, u64::MAX);
    assert!(p.is_complete());
}

#[test]
fn config_errors() {
    assert_eq!(ScanConfig::new(0, 0, 0, 16, 4, 1, 0, empty_template()).err(), Some(ConfigError::EmptyXRange));
    assert_eq!(ScanConfig::new(0, 16, 16, 0, 4, 1, 0, empty_template()).err(), Some(ConfigError::EmptyZRange));
    assert_eq!(ScanConfig::new(0, 16, 0, 16, 4, 0, 0, empty_template()).err(), Some(ConfigError::NoWorkers));
    assert_eq!(ScanConfig::new(0, 16, 0, 16, 5, 1, 0, empty_template()).err(), Some(ConfigError::InvalidLayer));
    assert_eq!(ScanConfig::new(0, 16, 0, 16, 4, 1, 1, empty_template()).err(), Some(ConfigError::ThresholdTooLarge));
    let far = MatchTemplate { certain: checks(&[(2, 0, 1)]), uncertain: Vec::new() };
    assert_eq!(
        ScanConfig::new(0, i32::MAX, 0, 16, 4, 1, 0, far).err(),
        Some(ConfigError::OffsetOutOfRange)
    );
    let low = MatchTemplate { certain: Vec::new(), uncertain: checks(&[(0, -1, 0)]) };
    assert_eq!(
        ScanConfig::new(0, 16, i32::MIN, 0, 4, 1, 0, low).err(),
        Some(ConfigError::OffsetOutOfRange)
    );
}

#[test]
fn generator_is_shared_read_only() {
    let g = OldPaperLegacyGenerator::new(64149200);
    let config = ScanConfig::new(0, 64, -16, 64, 4, 3, 2, scenario_template()).unwrap();
    let first = config.scan_column(&g, 16);
    let again = config.scan_column(&OldPaperLegacyGenerator::new(64149200), 16);
    assert_eq!(first, again);
    assert_eq!(g.is_bedrock(17, 4, 33), g.is_bedrock(17, 4, 33));
}

#[test]
fn whole_scan_finds_the_planted_point() {
    let config = ScanConfig::new(0, 64, -16, 64, 4, 3, 2, scenario_template()).unwrap();
    let g = OldPaperLegacyGenerator::new(64149200);
    let report = config.scan(&g);
    assert_eq!(report.results, vec![MatchResult { x: 16, z: 32, score: 17, total: 19 }]);
    assert_eq!(report.increments, vec![5, 5, 5, 5]);
}

#[test]
fn whole_scan_progress_for_any_worker_count() {
    for workers in 1..=9usize {
        let config = ScanConfig::new(-40, 200, 0, 50, 2, workers, 0, empty_template()).unwrap();
        let g = OldPaperLegacyGenerator::new(7);
        let report = config.scan(&g);
        assert_eq!(report.increments.len(), 15);
        assert_eq!(report.increments.iter().sum::<u64>(), config.total_progress());
        assert_eq!(report.results.len(), 15 * 4);
    }
}

#[test]
fn band_scan_appends_its_columns() {
    let config = ScanConfig::new(0, 64, -16, 64, 4, 2, 2, scenario_template()).unwrap();
    let g = OldPaperLegacyGenerator::new(64149200);
    let mut results = vec![MatchResult { x: 0, z: 0, score: 0, total: 0 }];
    let mut increments = vec![99];
    config.scan_band(&g, Band { start: 1, end: 3 }, &mut results, &mut increments);
    assert_eq!(
        results,
        vec![
            MatchResult { x: 0, z: 0, score: 0, total: 0 },
            MatchResult { x: 16, z: 32, score: 17, total: 19 },
        ]
    );
    assert_eq!(increments, vec![99, 5, 5]);
    config.scan_band(&g, Band { start: 2, end: 2 }, &mut results, &mut increments);
    assert_eq!(increments.len(), 3);
}
