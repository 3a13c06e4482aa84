//! Behavioral tests for the hotkey engine: construction limits, bit
//! independence, shared-key chords, edge triggering, the acceleration ramp,
//! counter reset, and irrelevant-key invariance.

use crosshair_overlay::hotkey::{move_ramp, scale_ramp, HotkeyManager, KeyBindings};
use crosshair_overlay::keycode::Keycode;
use crosshair_overlay::platform::KeycodeType;

/// All 111 keycodes in ordinal order, recovered by scanning the index space.
fn all_keycodes() -> Vec<Keycode> {
    // enumerate via the canonical list used by the bindings below plus the
    // well-known variants; simplest is to build from the known ordering
    let keys = [
        Keycode::Key0,
        Keycode::Key1,
        Keycode::Key2,
        Keycode::Key3,
        Keycode::Key4,
        Keycode::Key5,
        Keycode::Key6,
        Keycode::Key7,
        Keycode::Key8,
        Keycode::Key9,
        Keycode::A,
        Keycode::B,
        Keycode::C,
        Keycode::D,
        Keycode::E,
        Keycode::F,
        Keycode::G,
        Keycode::H,
        Keycode::I,
        Keycode::J,
        Keycode::K,
        Keycode::L,
        Keycode::M,
        Keycode::N,
        Keycode::O,
        Keycode::P,
        Keycode::Q,
        Keycode::R,
        Keycode::S,
        Keycode::T,
        Keycode::U,
        Keycode::V,
        Keycode::W,
        Keycode::X,
        Keycode::Y,
        Keycode::Z,
    ];
    keys.to_vec()
}

fn default_bindings() -> KeyBindings {
    KeyBindings::default()
}

/// A manager with the default bindings.
fn default_manager() -> HotkeyManager {
    HotkeyManager::new(&default_bindings()).unwrap()
}

#[test]
fn construction_succeeds_up_to_32_distinct_keys() {
    // spread 32 distinct letters/digits over the movement bindings
    let keys = all_keycodes();
    let mut kb = default_bindings();
    kb.up = keys[0..8].to_vec();
    kb.down = keys[8..16].to_vec();
    kb.left = keys[16..24].to_vec();
    kb.right = keys[24..32].to_vec();
    // reuse already-assigned keys elsewhere: reuse costs no new bits
    kb.cycle_monitor = vec![keys[0], keys[8]];
    kb.scale_increase = vec![keys[1]];
    kb.scale_decrease = vec![keys[2]];
    kb.toggle_hidden = vec![keys[3]];
    kb.toggle_adjust = vec![keys[4]];
    kb.toggle_color_picker = vec![keys[5]];
    assert!(HotkeyManager::new(&kb).is_ok());
}

#[test]
fn construction_fails_at_33_distinct_keys() {
    let keys = all_keycodes();
    assert_eq!(keys.len(), 36);
    let mut kb = default_bindings();
    kb.up = keys[0..8].to_vec();
    kb.down = keys[8..16].to_vec();
    kb.left = keys[16..24].to_vec();
    kb.right = keys[24..33].to_vec(); // the 33rd distinct key breaks the limit
    kb.cycle_monitor = vec![];
    kb.scale_increase = vec![];
    kb.scale_decrease = vec![];
    kb.toggle_hidden = vec![];
    kb.toggle_adjust = vec![];
    kb.toggle_color_picker = vec![];
    assert!(HotkeyManager::new(&kb).is_err());
}

#[test]
fn bit_independence_of_disjoint_actions() {
    // toggle_hidden = [A, B] and cycle_monitor = [C, D] share no keys:
    // pressing one chord never activates the other
    let mut kb = default_bindings();
    kb.toggle_hidden = vec![Keycode::A, Keycode::B];
    kb.cycle_monitor = vec![Keycode::C, Keycode::D];
    let mut manager = HotkeyManager::new(&kb).unwrap();

    manager.process_keys(&[Keycode::A, Keycode::B]);
    assert!(manager.toggle_hidden());
    assert!(!manager.cycle_monitor());

    manager.process_keys(&[]);
    manager.process_keys(&[Keycode::C, Keycode::D]);
    assert!(manager.cycle_monitor());
    assert!(!manager.toggle_hidden());
}

#[test]
fn shared_key_chords_stay_distinct() {
    // toggle_hidden = [LControl, H], toggle_adjust = [LControl, J]: pressing
    // {LControl, H} activates only toggle_hidden although both chords share
    // LControl's bit
    let mut manager = default_manager();
    manager.process_keys(&[Keycode::LControl, Keycode::H]);
    assert!(manager.toggle_hidden());
    assert!(!manager.toggle_adjust());
}

#[test]
fn edge_fires_once_per_press() {
    let mut manager = default_manager();
    manager.process_keys(&[]);
    assert!(!manager.toggle_hidden());

    let chord = [Keycode::LControl, Keycode::H];
    for tick in 0..5 {
        manager.process_keys(&chord);
        if tick == 0 {
            assert!(manager.toggle_hidden(), "must fire on the first held tick");
        } else {
            assert!(!manager.toggle_hidden(), "must not fire on held tick {tick}");
        }
    }

    manager.process_keys(&[]);
    assert!(!manager.toggle_hidden(), "must not fire on release");

    // a fresh press fires again
    manager.process_keys(&chord);
    assert!(manager.toggle_hidden());
}

#[test]
fn ramp_table_is_exact() {
    let frames = [0u32, 1, 2, 9, 10, 24, 25, 34, 35, 54, 55, 74, 75];
    let outputs = [1u32, 1, 0, 0, 1, 1, 4, 4, 16, 16, 32, 32, 64];
    for (&f, &out) in frames.iter().zip(outputs.iter()) {
        assert_eq!(move_ramp(f), out, "move ramp at {f}");
        assert_eq!(scale_ramp(f), out, "scale ramp at {f}");
    }
}

#[test]
fn held_movement_follows_the_ramp() {
    // move_up = [Up] held continuously for 80 ticks: after tick t the
    // movement counter is t, so the output must be the ramp of t
    let mut manager = default_manager();
    for tick in 1..=80u32 {
        manager.process_keys(&[Keycode::Up]);
        assert_eq!(manager.move_up(), move_ramp(tick), "at held tick {tick}");
        assert_eq!(manager.move_down(), 0, "down is not pressed");
    }
}

#[test]
fn counter_resets_on_release() {
    // hold scale_increase for 40 ticks, release for one tick, re-press: the
    // next active tick must report the magnitude for a fresh hold (1), not
    // the continuation of the old one
    let mut manager = default_manager();
    let chord = [Keycode::PageUp];
    for _ in 0..40 {
        manager.process_keys(&chord);
    }
    assert_eq!(manager.scale_increase(), scale_ramp(40));
    assert_eq!(manager.scale_increase(), 16);

    manager.process_keys(&[]);
    assert_eq!(manager.scale_increase(), 0);

    manager.process_keys(&chord);
    assert_eq!(manager.scale_increase(), 1, "a fresh press starts the ramp over");
}

#[test]
fn irrelevant_keys_change_nothing() {
    // Z appears in no default binding: adding it to any pressed set must not
    // change any query's result
    let pressed_sets: [&[Keycode]; 4] = [
        &[],
        &[Keycode::Up],
        &[Keycode::LControl, Keycode::H],
        &[Keycode::PageUp, Keycode::LControl],
    ];
    for pressed in pressed_sets {
        let mut plain = default_manager();
        let mut noisy = default_manager();
        let mut with_noise = pressed.to_vec();
        with_noise.push(Keycode::Z);

        for _ in 0..3 {
            plain.process_keys(pressed);
            noisy.process_keys(&with_noise);
            assert_eq!(plain.toggle_hidden(), noisy.toggle_hidden());
            assert_eq!(plain.toggle_adjust(), noisy.toggle_adjust());
            assert_eq!(plain.toggle_color_picker(), noisy.toggle_color_picker());
            assert_eq!(plain.cycle_monitor(), noisy.cycle_monitor());
            assert_eq!(plain.move_up(), noisy.move_up());
            assert_eq!(plain.move_down(), noisy.move_down());
            assert_eq!(plain.move_left(), noisy.move_left());
            assert_eq!(plain.move_right(), noisy.move_right());
            assert_eq!(plain.scale_increase(), noisy.scale_increase());
            assert_eq!(plain.scale_decrease(), noisy.scale_decrease());
        }
    }
}

#[test]
fn unrelated_pressed_keys_do_not_block_chords() {
    // chords are not exclusive: extra bound keys held alongside a chord do
    // not prevent its activation
    let mut manager = default_manager();
    manager.process_keys(&[Keycode::LControl, Keycode::H, Keycode::Up]);
    assert!(manager.toggle_hidden());
    assert_eq!(manager.move_up(), 1);
}

#[test]
fn default_bindings_compile() {
    assert!(HotkeyManager::new(&KeyBindings::default()).is_ok());
}

#[test]
fn keycode_indexes_are_dense_and_distinct() {
    assert_eq!(Keycode::num_variants(), 111);
    let some = [Keycode::Key0, Keycode::A, Keycode::Up, Keycode::NumpadDecimal, Keycode::LControl];
    for (i, a) in some.iter().enumerate() {
        assert!(a.index() < Keycode::num_variants());
        for b in &some[i + 1..] {
            assert_ne!(a.index(), b.index());
        }
    }
    assert_eq!(Keycode::NumpadDecimal.index(), 110);
}
