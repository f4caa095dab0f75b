use zulrah_sim::rng::pcg_seed;
use zulrah_sim::simulator::{RollOutcome, ACCURACY_SCALE, DPS};

#[test]
fn zero_accuracy_always_takes_the_miss_branch() {
    let d = DPS::new(4, 41, 0);
    let mut g = pcg_seed(1234, 1234);
    for _ in 0..1000 {
        // The branch itself must be a miss, not merely a zero value.
        assert_eq!(d.roll(&mut g), RollOutcome::Miss);
        assert_eq!(d.hit(&mut g), 0);
    }
}

#[test]
fn full_accuracy_never_takes_the_miss_branch() {
    let d = DPS::new(4, 41, ACCURACY_SCALE);
    let mut g = pcg_seed(99, 7);
    let mut saw_zero_damage_hit = false;
    for _ in 0..2000 {
        match d.roll(&mut g) {
            RollOutcome::Miss => panic!("a full-accuracy roll missed"),
            RollOutcome::Hit(h) => {
                assert!(h <= 41);
                if h == 0 {
                    // Zero is reachable, but only as a legitimate hit roll.
                    saw_zero_damage_hit = true;
                }
            }
        }
    }
    assert!(saw_zero_damage_hit);
}

#[test]
fn hit_damage_spans_the_inclusive_range() {
    let d = DPS::new(2, 5, ACCURACY_SCALE);
    let mut g = pcg_seed(5, 5);
    let mut seen = [false; 6];
    for _ in 0..2000 {
        match d.roll(&mut g) {
            RollOutcome::Miss => panic!("a full-accuracy roll missed"),
            RollOutcome::Hit(h) => {
                assert!(h <= 5);
                seen[h as usize] = true;
            }
        }
    }
    // Both endpoints of [0, max_hit] must be reachable.
    assert!(seen.iter().all(|&b| b));
}

#[test]
fn reroll_cap_confines_large_hits() {
    let capped = DPS::new(4, 500, ACCURACY_SCALE).with_reroll_cap();
    let mut g = pcg_seed(42, 42);
    for _ in 0..2000 {
        match capped.roll(&mut g) {
            RollOutcome::Miss => panic!("a full-accuracy roll missed"),
            RollOutcome::Hit(h) => assert!(h <= 50),
        }
    }
}

#[test]
fn reroll_cap_is_off_by_default() {
    let plain = DPS::new(4, 500, ACCURACY_SCALE);
    let mut g = pcg_seed(42, 42);
    let mut saw_large_hit = false;
    for _ in 0..2000 {
        if let RollOutcome::Hit(h) = plain.roll(&mut g) {
            assert!(h <= 500);
            if h > 50 {
                saw_large_hit = true;
            }
        }
    }
    assert!(saw_large_hit);
}

#[test]
fn average_hit_exact_values() {
    // 41 * 9084 / 20000 = 18 (truncated from 18.62...)
    assert_eq!(DPS::new(4, 41, 9084).average_hit(), 18);
    // 32 * 6357 / 20000 = 10 (truncated from 10.17...)
    assert_eq!(DPS::new(2, 32, 6357).average_hit(), 10);
    assert_eq!(DPS::new(4, 41, 0).average_hit(), 0);
    assert_eq!(DPS::new(4, 40, ACCURACY_SCALE).average_hit(), 20);
}

#[test]
fn rolls_are_reproducible_from_the_seed() {
    let d = DPS::new(4, 41, 9084);
    let mut g1 = pcg_seed(7777, 7777);
    let mut g2 = pcg_seed(7777, 7777);
    for _ in 0..500 {
        assert_eq!(d.roll(&mut g1), d.roll(&mut g2));
    }
}
