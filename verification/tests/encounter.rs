use zulrah_sim::zulrah::{Form, Location, Return, Rot, Rotation, Zulrah};

#[test]
fn fresh_encounter_state() {
    let z = Zulrah::new_rot(Rot::Southgreen);
    assert_eq!(z.hitpoints(), 500);
    assert_eq!(z.ttk(), 0);
    assert!(!z.is_dead());
    assert_eq!(z.form(), Form::Serpentine);
    assert_eq!(z.rotation_name(), Rot::Southgreen);
    let p = z.current_phase();
    assert_eq!(p.time, 20);
    assert_eq!(p.budget, 20);
    assert_eq!(p.loc, Location::Middle);
    assert!(p.damage_log().is_empty());
    assert!(z.kill_history().is_empty());
}

#[test]
fn default_rotation_is_south_green() {
    let z = Zulrah::new();
    assert_eq!(z.rotation_name(), Rot::Southgreen);
    assert_eq!(z.hitpoints(), 500);
}

#[test]
fn phase_transition_accounting() {
    let mut z = Zulrah::new_rot(Rot::Southgreen);
    // The opening phase has 20 ticks left; 100 elapsed ticks are clamped to
    // 20, the phase ends, and the 7-tick inter-phase delay is charged.
    let r = z.damage(10, 100);
    assert_eq!(r, Return::Phase);
    assert_eq!(z.ttk(), 27);
    assert_eq!(z.hitpoints(), 490);
    assert_eq!(z.form(), Form::Magma);
    assert_eq!(z.current_phase().time, 14);
    assert_eq!(z.kill_history().len(), 1);
    // Within the next phase, raw ticks are added and subtracted symmetrically.
    let r2 = z.damage(3, 4);
    assert_eq!(r2, Return::Alive);
    assert_eq!(z.ttk(), 31);
    assert_eq!(z.hitpoints(), 487);
    assert_eq!(z.current_phase().time, 10);
}

#[test]
fn hitpoints_never_increase() {
    let mut z = Zulrah::new_rot(Rot::Eastblue);
    let mut last = z.hitpoints();
    let hits = [0u16, 12, 0, 7, 3, 0, 41, 2, 30, 0, 11, 25, 0, 9];
    for &h in hits.iter() {
        if z.is_dead() {
            break;
        }
        z.damage(h, 4);
        let hp = z.hitpoints();
        assert!(hp <= last);
        last = hp;
    }
}

#[test]
fn tick_totals_are_exact_over_a_full_cycle() {
    // Drive one encounter with misses only until two phases complete, and
    // check the elapsed total against the scripted durations by hand:
    // 20 (opening) + 7 (delay) + 14 (first Magma phase) + 7 (delay).
    let mut z = Zulrah::new_rot(Rot::Southgreen);
    let mut transitions = 0;
    while transitions < 2 {
        let r = z.damage(0, 4);
        assert!(!z.is_dead());
        if r == Return::Phase {
            transitions += 1;
        }
    }
    assert_eq!(z.ttk(), 20 + 7 + 14 + 7);
    assert_eq!(z.kill_history().len(), 2);
}

#[test]
fn lethal_damage_logs_remaining_hitpoints_only() {
    let mut z = Zulrah::new_rot(Rot::Westgreen);
    let r1 = z.damage(490, 4);
    assert_eq!(r1, Return::Alive);
    assert_eq!(z.hitpoints(), 10);
    // Overkill: the phase records exactly the 10 remaining hitpoints.
    let r2 = z.damage(9999, 4);
    assert_eq!(r2, Return::Dead);
    assert!(z.is_dead());
    assert_eq!(z.hitpoints(), 0);
    let history = z.kill_history();
    assert_eq!(history.len(), 1);
    let last = &history[0];
    assert_eq!(last.damage_log(), vec![490, 10]);
    assert_eq!(last.total_damage(), 500);
}

#[test]
fn dead_encounter_is_frozen() {
    let mut z = Zulrah::new_rot(Rot::Southgreen);
    let r = z.damage(500, 4);
    assert_eq!(r, Return::Dead);
    let ttk = z.ttk();
    assert_eq!(ttk, 4);
    // Further mutation attempts fail and change nothing.
    for _ in 0..3 {
        assert_eq!(z.try_damage(40, 4), None);
        assert_eq!(z.ttk(), ttk);
        assert_eq!(z.hitpoints(), 0);
        assert_eq!(z.kill_history().len(), 1);
    }
}

#[test]
fn try_damage_matches_damage_while_alive() {
    let mut a = Zulrah::new_rot(Rot::Eastgreen);
    let mut b = Zulrah::new_rot(Rot::Eastgreen);
    let ra = a.damage(25, 4);
    let rb = b.try_damage(25, 4);
    assert_eq!(rb, Some(ra));
    assert_eq!(a.ttk(), b.ttk());
    assert_eq!(a.hitpoints(), b.hitpoints());
}

fn drain(rot: &mut Rotation, n: usize) -> Vec<(Form, Location, u16)> {
    let mut out = Vec::new();
    for _ in 0..n {
        let p = rot.next_phase();
        assert_eq!(p.time, p.budget);
        assert!(p.damage_log().is_empty());
        out.push((p.form, p.loc, p.budget));
    }
    out
}

#[test]
fn south_green_script_contents() {
    let mut rot = Rotation::new(Rot::Southgreen);
    let phases = drain(&mut rot, 4);
    assert_eq!(
        phases,
        vec![
            (Form::Serpentine, Location::Middle, 20),
            (Form::Magma, Location::Middle, 14),
            (Form::Tanzanite, Location::Middle, 11),
            (Form::Serpentine, Location::South, 33),
        ]
    );
}

#[test]
fn east_blue_script_contents() {
    let mut rot = Rotation::new(Rot::Eastblue);
    let phases = drain(&mut rot, 3);
    assert_eq!(
        phases,
        vec![
            (Form::Serpentine, Location::Middle, 20),
            (Form::Tanzanite, Location::East, 30),
            (Form::Serpentine, Location::South, 18),
        ]
    );
}

#[test]
fn exhausted_rotation_regenerates_the_same_sequence() {
    let pattern_lens = [
        (Rot::Southgreen, 10),
        (Rot::Westgreen, 10),
        (Rot::Eastgreen, 11),
        (Rot::Eastblue, 12),
    ];
    for &(name, len) in pattern_lens.iter() {
        let mut rot = Rotation::new(name);
        let _opening = drain(&mut rot, 1);
        let first_cycle = drain(&mut rot, len);
        // The queue is now exhausted; the next pulls regenerate the script.
        let second_cycle = drain(&mut rot, len);
        let third_cycle = drain(&mut rot, len);
        assert_eq!(first_cycle, second_cycle);
        assert_eq!(first_cycle, third_cycle);
    }
}
