use zulrah_sim::rng::pcg_seed;
use zulrah_sim::simulator::{average_kill_time, beats_time, test_kill_zulrah, Player, DPS};
use zulrah_sim::zulrah::{Rot, Zulrah};

fn spec_player(seed: u64) -> Player {
    Player {
        green: DPS::new(4, 41, 9084),
        red: DPS::new(4, 41, 6914),
        blue: DPS::new(2, 32, 6357),
        rng_gen: pcg_seed(seed, seed),
    }
}

fn same_kill(a: &Zulrah, b: &Zulrah) -> bool {
    if a.ttk() != b.ttk() || a.kill_history().len() != b.kill_history().len() {
        return false;
    }
    a.kill_history().iter().zip(b.kill_history().iter()).all(|(pa, pb)| {
        pa.form == pb.form
            && pa.loc == pb.loc
            && pa.budget == pb.budget
            && pa.time == pb.time
            && pa.damage_log() == pb.damage_log()
    })
}

#[test]
fn trials_are_deterministic_given_the_seed() {
    let mut p1 = spec_player(987654321);
    let mut p2 = spec_player(987654321);
    for &rot in [Rot::Southgreen, Rot::Westgreen, Rot::Eastgreen, Rot::Eastblue].iter() {
        let (t1, z1) = test_kill_zulrah(&mut p1, rot).expect("trial hit the step cap");
        let (t2, z2) = test_kill_zulrah(&mut p2, rot).expect("trial hit the step cap");
        assert_eq!(t1, t2);
        assert!(same_kill(&z1, &z2));
    }
}

#[test]
fn single_trial_terminates_with_plausible_ticks() {
    let mut p = spec_player(42);
    let (ticks, z) = test_kill_zulrah(&mut p, Rot::Southgreen).expect("trial hit the step cap");
    assert!(z.is_dead());
    assert_eq!(z.ttk(), ticks);
    assert!(ticks > 0);
    assert!(ticks <= 500);
    // The archived history carries the whole fight's damage.
    let total: u64 = z.kill_history().iter().map(|p| p.total_damage()).sum();
    assert_eq!(total, 500);
}

#[test]
fn mean_over_many_trials_is_plausible() {
    let mut p = spec_player(42);
    let trials = 100_000;
    let stats = average_kill_time(&mut p, Rot::Southgreen, trials).expect("a trial hit the step cap");
    assert_eq!(stats.trials, trials);
    let mean = stats.total_ticks / trials;
    assert!((80..=160).contains(&mean), "mean {} out of range", mean);
    assert!(stats.fastest <= mean);
    assert!(stats.fastest > 0);
    assert!(stats.fastest_kill.is_dead());
    assert_eq!(stats.fastest_kill.ttk(), stats.fastest);
}

#[test]
fn fastest_never_exceeds_any_observed_trial() {
    let mut p = spec_player(3141592653);
    let stats = average_kill_time(&mut p, Rot::Eastblue, 200).expect("a trial hit the step cap");
    // Re-run the same batch from the same seed: every trial is at or above
    // the reported minimum.
    let mut q = spec_player(3141592653);
    let mut min_seen = u64::MAX;
    for _ in 0..200 {
        let (t, _) = test_kill_zulrah(&mut q, Rot::Eastblue).expect("trial hit the step cap");
        assert!(stats.fastest <= t);
        min_seen = min_seen.min(t);
    }
    assert_eq!(stats.fastest, min_seen);
}

#[test]
fn success_counts_are_bounded_and_monotone_in_the_threshold() {
    let trials = 10_000;
    let count_at = |threshold: u64| {
        let mut p = spec_player(271828);
        beats_time(&mut p, Rot::Southgreen, trials, threshold).expect("a trial hit the step cap")
    };
    let c80 = count_at(80);
    let c90 = count_at(90);
    let c100 = count_at(100);
    assert!(c80 <= trials);
    assert!(c90 <= trials);
    assert!(c100 <= trials);
    // Same seed, same trials: raising the threshold never lowers the count.
    assert!(c80 <= c90);
    assert!(c90 <= c100);
    // A threshold nothing can beat, and one everything beats.
    assert_eq!(count_at(0), 0);
    assert_eq!(count_at(u64::MAX), trials);
    // No trials, no qualifying trials.
    let mut p = spec_player(271828);
    assert_eq!(beats_time(&mut p, Rot::Southgreen, 0, 90), Some(0));
}

#[test]
fn all_rotations_simulate_end_to_end() {
    let mut p = spec_player(123456789);
    let mut grand_total: u64 = 0;
    for &rot in [Rot::Southgreen, Rot::Westgreen, Rot::Eastgreen, Rot::Eastblue].iter() {
        let stats = average_kill_time(&mut p, rot, 2000).expect("a trial hit the step cap");
        let mean = stats.total_ticks / stats.trials;
        assert!((60..=200).contains(&mean), "mean {} out of range", mean);
        grand_total += mean;
    }
    let combined = grand_total / 4;
    assert!((60..=200).contains(&combined));
}
