use bedrock_finder::generator::{bedrock_decision, derive_base_seed};
use bedrock_finder::{hashcode, Generator, GeneratorError, LegacyGenerator, OldPaperLegacyGenerator};

fn row<G: Generator>(g: &G, y: i32, z: i32) -> Vec<bool> {
    (0..8).map(|x| g.is_bedrock(x, y, z).unwrap()).collect()
}

#[test]
fn hash_reference_vectors() {
    assert_eq!(hashcode(0, 0, 0), 0);
    assert_eq!(hashcode(1, 1, 1), 60311958971344);
    assert_eq!(hashcode(2147483647, 1, 2147483647), -69698304744496);
    assert_eq!(hashcode(-2147483648, 4, -2147483648), 49956791396443);
    assert_eq!(hashcode(100, 2, -100), 132585366227906);
    assert_eq!(hashcode(-1, 3, -1), 60018739850405);
}

#[test]
fn iterate_seed_reference_values() {
    assert_eq!(LegacyGenerator::iterate_seed(0), 11);
    assert_eq!(LegacyGenerator::iterate_seed(1), 25214903928);
    assert_eq!(LegacyGenerator::iterate_seed(123456789), 119305093197820);
    assert_eq!(LegacyGenerator::iterate_seed(0xffffffffffff), 281449761806750);
    assert_eq!(LegacyGenerator::iterate_seed(-1), 281449761806750);
}

#[test]
fn set_seed_value_reference_values() {
    assert_eq!(LegacyGenerator::set_seed_value(0), -4962768465676381896);
    assert_eq!(LegacyGenerator::set_seed_value(1), -4964420948893066024);
    assert_eq!(LegacyGenerator::set_seed_value(-1), 4961115982468162243);
    assert_eq!(LegacyGenerator::set_seed_value(64149200), 2201951805133548407);
    assert_eq!(LegacyGenerator::set_seed_value(i64::MIN), -4962768465676381896);
    assert_eq!(LegacyGenerator::set_seed_value(i64::MAX), 4961115982468162243);
}

#[test]
fn base_seed_reference_values() {
    assert_eq!(derive_base_seed(0), -7693059141002965223);
    assert_eq!(derive_base_seed(-1), 2033341542029687050);
    assert_eq!(LegacyGenerator::new(64149200).seed, 767460569003807498);
    assert_eq!(OldPaperLegacyGenerator::new(64149200).seed, 767460569003807498);
}

#[test]
fn construction_is_deterministic() {
    let a = OldPaperLegacyGenerator::new(64149200);
    let b = OldPaperLegacyGenerator::new(64149200);
    assert_eq!(a.seed, b.seed);
    for x in -20..20 {
        for z in -20..20 {
            assert_eq!(a.is_bedrock(x, 4, z), b.is_bedrock(x, 4, z));
            assert_eq!(a.is_bedrock(x, 4, z), a.is_bedrock(x, 4, z));
        }
    }
}

#[test]
fn canonical_rows() {
    let g = LegacyGenerator::new(64149200);
    assert_eq!(row(&g, 4, 0), vec![true, false, false, false, false, false, false, false]);
    assert_eq!(row(&g, 1, 0), vec![true, false, true, true, true, true, true, true]);
}

#[test]
fn defective_rows() {
    let g = OldPaperLegacyGenerator::new(64149200);
    assert_eq!(row(&g, 4, 0), vec![false, false, true, false, true, false, false, false]);
    assert_eq!(row(&g, 1, 0), vec![true, false, true, false, true, true, false, true]);
}

#[test]
fn variants_differ_only_in_hash_layer() {
    let canonical = LegacyGenerator::new(64149200);
    let defective = OldPaperLegacyGenerator::new(64149200);
    let seed = canonical.seed;
    let mut differ = 0;
    for x in -30..30 {
        for z in -30..30 {
            for y in 1..=4 {
                assert_eq!(defective.is_bedrock(x, y, z), bedrock_decision(seed, x, 0, y, z));
                assert_eq!(canonical.is_bedrock(x, y, z), bedrock_decision(seed, x, y, y, z));
                if canonical.is_bedrock(x, y, z) != defective.is_bedrock(x, y, z) {
                    differ += 1;
                }
            }
        }
    }
    assert!(differ > 0);
}

#[test]
fn layer_frequencies_rise_toward_the_bottom() {
    let g = LegacyGenerator::new(64149200);
    let mut counts = Vec::new();
    for y in [4, 3, 2, 1] {
        let mut c = 0;
        for x in 0..100 {
            for z in 0..100 {
                if g.is_bedrock(x, y, z).unwrap() {
                    c += 1;
                }
            }
        }
        counts.push(c);
    }
    assert_eq!(counts, vec![1981, 3980, 6019, 8074]);
    assert!(counts.windows(2).all(|w| w[0] <= w[1]));
}

#[test]
fn defective_monotone_per_block() {
    let g = OldPaperLegacyGenerator::new(64149200);
    for x in -20..20 {
        for z in -20..20 {
            for y in 2..=4 {
                if g.is_bedrock(x, y, z).unwrap() {
                    assert!(g.is_bedrock(x, y - 1, z).unwrap());
                }
            }
        }
    }
}

#[test]
fn invalid_layer_is_an_error() {
    let g = LegacyGenerator::new(64149200);
    assert_eq!(g.is_bedrock(0, 0, 0), Err(GeneratorError::InvalidLayer { y: 0 }));
    assert_eq!(g.is_bedrock(0, 5, 0), Err(GeneratorError::InvalidLayer { y: 5 }));
    let d = OldPaperLegacyGenerator::new(64149200);
    assert_eq!(d.is_bedrock(3, -1, 3), Err(GeneratorError::InvalidLayer { y: -1 }));
}
