use nes_pacer::input::{
    button_for_key, Button, GamePad, KEY_DOWN, KEY_ENTER, KEY_LEFT, KEY_RIGHT, KEY_SPACE, KEY_UP,
    KEY_X, KEY_Z,
};
use nes_pacer::pace::StepOutcome;
use nes_pacer::session::System;

const BUTTONS: [Button; 8] = [
    Button::A,
    Button::B,
    Button::Select,
    Button::Start,
    Button::Up,
    Button::Down,
    Button::Left,
    Button::Right,
];

const KEYS: [(u8, Button); 8] = [
    (88, Button::A),
    (90, Button::B),
    (32, Button::Select),
    (13, Button::Start),
    (38, Button::Up),
    (40, Button::Down),
    (37, Button::Left),
    (39, Button::Right),
];

fn levels(system: &System) -> Vec<bool> {
    BUTTONS.iter().map(|button| system.is_pressed(*button)).collect()
}

fn recognised(code: u8) -> bool {
    KEYS.iter().any(|(key, _)| *key == code)
}

#[test]
fn key_codes_have_their_values() {
    assert_eq!(KEY_SPACE, 32);
    assert_eq!(KEY_ENTER, 13);
    assert_eq!(KEY_UP, 38);
    assert_eq!(KEY_DOWN, 40);
    assert_eq!(KEY_LEFT, 37);
    assert_eq!(KEY_RIGHT, 39);
    assert_eq!(KEY_Z, 90);
    assert_eq!(KEY_X, 88);
}

#[test]
fn each_recognised_key_has_its_button() {
    assert_eq!(button_for_key(KEY_X), Some(Button::A));
    assert_eq!(button_for_key(KEY_Z), Some(Button::B));
    assert_eq!(button_for_key(KEY_SPACE), Some(Button::Select));
    assert_eq!(button_for_key(KEY_ENTER), Some(Button::Start));
    assert_eq!(button_for_key(KEY_UP), Some(Button::Up));
    assert_eq!(button_for_key(KEY_DOWN), Some(Button::Down));
    assert_eq!(button_for_key(KEY_LEFT), Some(Button::Left));
    assert_eq!(button_for_key(KEY_RIGHT), Some(Button::Right));
}

#[test]
fn exactly_eight_keys_are_recognised() {
    let mut count = 0;
    let mut code: u8 = 0;
    loop {
        if button_for_key(code).is_some() {
            assert!(recognised(code));
            count += 1;
        } else {
            assert!(!recognised(code));
        }
        if code == u8::MAX {
            break;
        }
        code += 1;
    }
    assert_eq!(count, 8);
}

#[test]
fn fresh_session_has_every_button_released() {
    let system = System::new();
    assert_eq!(levels(&system), vec![false; 8]);
}

#[test]
fn key_down_presses_only_its_button() {
    for (index, (code, button)) in KEYS.iter().enumerate() {
        let mut system = System::new();
        system.key_down(*code);
        let mut expected = vec![false; 8];
        expected[index] = true;
        assert_eq!(levels(&system), expected);
        assert!(system.is_pressed(*button));
    }
}

#[test]
fn key_up_releases_only_its_button() {
    for (index, (code, button)) in KEYS.iter().enumerate() {
        let mut system = System::new();
        for (other, _) in KEYS.iter() {
            system.key_down(*other);
        }
        assert_eq!(levels(&system), vec![true; 8]);
        assert!(system.is_pressed(*button));
        system.key_up(*code);
        let mut expected = vec![true; 8];
        expected[index] = false;
        assert_eq!(levels(&system), expected);
    }
}

#[test]
fn key_down_then_key_up_leaves_the_button_released() {
    for (code, button) in KEYS.iter() {
        let mut system = System::new();
        system.key_down(*code);
        system.key_up(*code);
        assert!(!system.is_pressed(*button));
        assert_eq!(levels(&system), vec![false; 8]);
    }
}

#[test]
fn key_down_then_key_up_keeps_the_other_buttons() {
    let mut system = System::new();
    system.key_down(KEY_LEFT);
    system.key_down(KEY_Z);
    let before = levels(&system);
    system.key_down(KEY_X);
    system.key_up(KEY_X);
    assert_eq!(levels(&system), before);
    assert!(system.is_pressed(Button::Left));
    assert!(system.is_pressed(Button::B));
    assert!(!system.is_pressed(Button::A));
}

#[test]
fn repeated_key_down_keeps_the_button_pressed() {
    let mut system = System::new();
    system.key_down(KEY_ENTER);
    system.key_down(KEY_ENTER);
    assert!(system.is_pressed(Button::Start));
    system.key_up(KEY_ENTER);
    assert!(!system.is_pressed(Button::Start));
}

#[test]
fn unrecognised_codes_change_no_button() {
    let mut system = System::new();
    system.key_down(KEY_UP);
    system.key_down(KEY_X);
    let before = levels(&system);
    let mut code: u8 = 0;
    loop {
        if !recognised(code) {
            let pad = system.game_pad();
            system.key_down(code);
            assert_eq!(levels(&system), before);
            assert_eq!(system.game_pad(), pad);
            system.key_up(code);
            assert_eq!(levels(&system), before);
            assert_eq!(system.game_pad(), pad);
        }
        if code == u8::MAX {
            break;
        }
        code += 1;
    }
}

#[test]
fn unrecognised_codes_change_nothing_on_a_fresh_session() {
    let mut system = System::new();
    for code in [0u8, 1, 12, 14, 31, 33, 36, 41, 87, 89, 91, 255] {
        assert_eq!(button_for_key(code), None);
        system.key_down(code);
        assert_eq!(system.game_pad(), GamePad::new());
        system.key_up(code);
        assert_eq!(system.game_pad(), GamePad::new());
        assert_eq!(levels(&system), vec![false; 8]);
    }
}

#[test]
fn key_events_leave_the_pacing_and_the_frame_alone() {
    let mut system = System::new();
    system.run_for(10, |frame, _pad| {
        frame[5] = 42;
        StepOutcome { cycles: 3, frame_written: true }
    });
    system.key_down(KEY_RIGHT);
    system.key_up(KEY_SPACE);
    system.key_down(200);
    assert_eq!(system.emulated_cycles(), 21);
    assert_eq!(system.target_cycles(), 20);
    assert_eq!(system.get_frame()[5], 42);
}

#[test]
fn pressed_buttons_stay_pressed_across_slices() {
    let mut system = System::new();
    system.key_down(KEY_DOWN);
    system.run_for(10, |_frame, _pad| StepOutcome { cycles: 3, frame_written: false });
    assert!(system.is_pressed(Button::Down));
    system.run_for(10, |_frame, _pad| StepOutcome { cycles: 3, frame_written: false });
    assert!(system.is_pressed(Button::Down));
}

#[test]
fn every_step_is_handed_the_current_levels() {
    let mut system = System::new();
    let mut seen: Vec<GamePad> = Vec::new();
    system.run_for(3, |_frame, pad| {
        seen.push(pad);
        StepOutcome { cycles: 2, frame_written: false }
    });
    assert_eq!(seen, vec![GamePad::new(); 3]);

    system.key_down(KEY_X);
    system.key_down(KEY_LEFT);
    let mut pressed = GamePad::new();
    pressed.a = true;
    pressed.left = true;
    let mut seen: Vec<GamePad> = Vec::new();
    system.run_for(2, |_frame, pad| {
        seen.push(pad);
        StepOutcome { cycles: 2, frame_written: false }
    });
    assert_eq!(seen, vec![pressed; 2]);

    system.key_up(KEY_X);
    pressed.a = false;
    let mut seen: Vec<GamePad> = Vec::new();
    system.run_for(1, |_frame, pad| {
        seen.push(pad);
        StepOutcome { cycles: 2, frame_written: false }
    });
    assert_eq!(seen, vec![pressed]);
}

#[test]
fn key_pressed_and_released_between_steps_is_never_seen_pressed() {
    let mut system = System::new();
    system.run_for(1, |_frame, _pad| StepOutcome { cycles: 2, frame_written: false });
    system.key_down(KEY_Z);
    system.key_up(KEY_Z);
    let mut seen: Vec<GamePad> = Vec::new();
    system.run_for(2, |_frame, pad| {
        seen.push(pad);
        StepOutcome { cycles: 2, frame_written: false }
    });
    assert_eq!(seen, vec![GamePad::new(); 2]);
}

#[test]
fn game_pad_sets_and_reads_levels() {
    let mut pad = GamePad::new();
    for button in BUTTONS.iter() {
        assert!(!pad.is_pressed(*button));
    }
    pad.set_button_pressed(Button::Select, true);
    assert!(pad.is_pressed(Button::Select));
    assert!(pad.select);
    for button in BUTTONS.iter() {
        if *button != Button::Select {
            assert!(!pad.is_pressed(*button));
        }
    }
    pad.set_button_pressed(Button::Select, false);
    assert_eq!(pad, GamePad::new());
}

#[test]
fn game_pad_last_write_wins() {
    let mut pad = GamePad::new();
    pad.set_button_pressed(Button::A, true);
    pad.set_button_pressed(Button::A, false);
    pad.set_button_pressed(Button::A, true);
    assert!(pad.is_pressed(Button::A));
    assert_eq!(
        pad,
        GamePad {
            a: true,
            b: false,
            select: false,
            start: false,
            up: false,
            down: false,
            left: false,
            right: false,
        }
    );
}
