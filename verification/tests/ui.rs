use rayhunter::display::{Color565, DisplayState};
use rayhunter::framebuffer::Framebuffer;
use rayhunter::ui::{
    parse_input_event, progress_due, rest_millis, stripes, ui_enabled, ButtonAction, InputEvent,
    MenuButton, Render, Ui,
};

fn warning(severity: &str) -> DisplayState {
    DisplayState::AnalysisWarning { message: "seen".to_string(), severity: severity.to_string() }
}

fn status(name: &str, warnings: usize) -> DisplayState {
    DisplayState::DetailedStatus {
        qmdl_name: name.to_string(),
        qmdl_size_bytes: 10,
        analysis_size_bytes: 20,
        num_warnings: warnings,
        last_warning: Some("w".to_string()),
    }
}

#[test]
fn display_starts_with_an_empty_status() {
    let ui = Ui::new(false);
    assert_eq!(ui.current_state, DisplayState::DetailedStatus {
        qmdl_name: "RAYHUNTER".to_string(),
        qmdl_size_bytes: 0,
        analysis_size_bytes: 0,
        num_warnings: 0,
        last_warning: None,
    });
    assert_eq!(ui.display_color, Color565::Pink);
    assert!(!ui.black_screen_drawn);
    assert_eq!(Ui::new(true).display_color, Color565::Blue);
}

#[test]
fn detailed_status_replaces_the_state_and_keeps_the_color() {
    let mut ui = Ui::new(false);
    ui.update(status("one", 3));
    assert_eq!(ui.current_state, status("one", 3));
    assert_eq!(ui.display_color, Color565::Pink);
}

#[test]
fn other_states_change_the_color_of_a_detailed_status() {
    let mut ui = Ui::new(false);
    ui.update(DisplayState::Recording);
    assert_eq!(ui.display_color, Color565::Green);
    assert!(matches!(ui.current_state, DisplayState::DetailedStatus { .. }));
    ui.update(warning("Medium"));
    assert_eq!(ui.display_color, Color565::Yellow);
    assert!(matches!(ui.current_state, DisplayState::DetailedStatus { .. }));
    ui.update(DisplayState::Paused);
    assert_eq!(ui.display_color, Color565::White);
}

#[test]
fn other_states_replace_a_state_that_is_no_detailed_status() {
    let mut ui = Ui {
        current_state: DisplayState::Recording,
        display_color: Color565::Green,
        black_screen_drawn: false,
    };
    ui.update(warning("High"));
    assert_eq!(ui.current_state, warning("High"));
    assert_eq!(ui.display_color, Color565::Red);
    ui.update(DisplayState::WarningDetected);
    assert_eq!(ui.current_state, DisplayState::WarningDetected);
    ui.update(status("s", 0));
    assert_eq!(ui.current_state, status("s", 0));
    assert_eq!(ui.display_color, Color565::Red);
}

#[test]
fn hidden_display_gets_one_black_screen() {
    let mut ui = Ui::new(false);
    assert_eq!(ui.render(1, false), Render::BlackScreen);
    assert!(ui.black_screen_drawn);
    assert_eq!(ui.render(1, false), Render::Nothing);
    assert_eq!(ui.render(2, false), Render::Nothing);
    assert!(matches!(ui.render(1, true), Render::Status { .. }));
    assert!(!ui.black_screen_drawn);
    assert_eq!(ui.render(1, false), Render::BlackScreen);
}

#[test]
fn visible_display_draws_by_level_and_state() {
    let mut ui = Ui::new(true);
    assert_eq!(ui.render(2, true), Render::Gif);
    assert_eq!(ui.render(3, true), Render::Image);
    assert_eq!(ui.render(128, true), Render::Stripes);
    ui.update(status("rec", 2));
    for level in [1u8, 0, 4, 127, 129, 255] {
        assert_eq!(ui.render(level, true), Render::Status {
            qmdl_name: "rec".to_string(),
            qmdl_size_bytes: 10,
            analysis_size_bytes: 20,
            num_warnings: 2,
            last_warning: Some("w".to_string()),
            color: Color565::Blue,
        });
    }
    let mut warned = Ui {
        current_state: warning("Low"),
        display_color: Color565::Cyan,
        black_screen_drawn: false,
    };
    assert_eq!(warned.render(1, true), Render::Warning {
        message: "seen".to_string(),
        severity: "Low".to_string(),
        color: Color565::Cyan,
    });
    let mut paused = Ui {
        current_state: DisplayState::Paused,
        display_color: Color565::White,
        black_screen_drawn: true,
    };
    assert_eq!(paused.render(1, true), Render::EmptyStatus { color: Color565::White });
}

#[test]
fn display_rests_longer_while_hidden() {
    assert_eq!(rest_millis(true), 100);
    assert_eq!(rest_millis(false), 500);
    assert!(!ui_enabled(0));
    assert!(ui_enabled(1));
    assert!(ui_enabled(255));
}

#[test]
fn stripes_are_five_bars() {
    assert_eq!(stripes(), [
        (Color565::Cyan, 128),
        (Color565::Pink, 102),
        (Color565::White, 76),
        (Color565::Pink, 50),
        (Color565::Cyan, 25),
    ]);
}

#[test]
fn dots_count_from_the_left() {
    let fb = Framebuffer::new();
    let pixel = |frame: &[u8], x: usize, y: usize| -> u16 {
        u16::from_le_bytes([frame[2 * (y * 128 + x)], frame[2 * (y * 128 + x) + 1]])
    };
    assert!(fb.draw_dots(0).iter().all(|byte| *byte == 0));
    assert_eq!(fb.draw_dots(13), fb.draw_dots(20));
    assert_ne!(fb.draw_dots(12), fb.draw_dots(13));
    for count in [1usize, 2, 3, 4, 5, 13] {
        let frame = fb.draw_dots(count as u32);
        assert_eq!(frame.len(), 2 * 128 * 128);
        for y in 0..128 {
            for x in 0..128 {
                let white = y < 5 && x % 10 < 5 && x / 10 < count;
                assert_eq!(pixel(&frame, x, y), if white { 0xffff } else { 0 });
            }
        }
    }
}

fn key(value: u8) -> InputEvent {
    InputEvent { event_type: 1, key_code: 0x0a, value }
}

#[test]
fn input_event_is_read_from_three_bytes() {
    let mut buffer = [0u8; 24];
    buffer[8] = 1;
    buffer[10] = 0x0a;
    buffer[12] = 1;
    buffer[9] = 0xff;
    buffer[11] = 0xff;
    assert_eq!(parse_input_event(&buffer), key(1));
}

#[test]
fn long_press_toggles_the_display() {
    let mut button = MenuButton::new();
    assert_eq!(button.on_event(key(1), 1000, true), ButtonAction::Nothing);
    assert_eq!(button, MenuButton { pressed: true, pressed_at: Some(1000) });
    assert_eq!(button.on_event(key(0), 6000, true), ButtonAction::ToggleUi);
    assert_eq!(button, MenuButton::new());
}

#[test]
fn short_press_does_nothing() {
    let mut button = MenuButton::new();
    assert_eq!(button.on_event(key(1), 1000, false), ButtonAction::ShowProgress);
    assert_eq!(button.on_event(key(0), 5999, false), ButtonAction::Nothing);
    assert_eq!(button, MenuButton::new());
    assert_eq!(button.on_event(key(1), 7000, false), ButtonAction::ShowProgress);
    assert_eq!(button.on_event(key(0), 6000, false), ButtonAction::Nothing);
}

#[test]
fn repeats_and_other_keys_are_ignored() {
    let mut button = MenuButton::new();
    assert_eq!(button.on_event(key(0), 0, false), ButtonAction::Nothing);
    assert_eq!(button, MenuButton::new());
    assert_eq!(button.on_event(key(1), 10, false), ButtonAction::ShowProgress);
    assert_eq!(button.on_event(key(1), 20, false), ButtonAction::Nothing);
    assert_eq!(button.on_event(key(2), 30, false), ButtonAction::Nothing);
    assert_eq!(button, MenuButton { pressed: true, pressed_at: Some(10) });
    let other_key = InputEvent { event_type: 1, key_code: 0x0b, value: 0 };
    let other_type = InputEvent { event_type: 2, key_code: 0x0a, value: 0 };
    assert_eq!(button.on_event(other_key, 9000, false), ButtonAction::Nothing);
    assert_eq!(button.on_event(other_type, 9000, false), ButtonAction::Nothing);
    assert_eq!(button, MenuButton { pressed: true, pressed_at: Some(10) });
    assert_eq!(button.on_event(key(0), 9000, false), ButtonAction::ToggleUi);
}

#[test]
fn progress_follows_the_seconds_held() {
    assert!(progress_due(1000, 1));
    assert!(!progress_due(999, 1));
    assert!(progress_due(5000, 5));
    assert!(!progress_due(4999, 5));
    assert!(progress_due(0, 0));
    assert!(progress_due(u64::MAX, u32::MAX));
    assert!(!progress_due(4_294_967_294_999, u32::MAX));
    assert!(progress_due(4_294_967_295_000, u32::MAX));
}
