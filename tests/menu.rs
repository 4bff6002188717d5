use oled_panel::menu::{screen_for_key, Action, ButtonEvent, Menu, Screen, ShutdownChoice};

#[test]
fn key1_then_idle_then_key3_screen_sequence() {
    let mut m = Menu::new(0);
    let events = [
        ButtonEvent::Key1Pressed,
        ButtonEvent::NoPress,
        ButtonEvent::NoPress,
        ButtonEvent::Key3Pressed,
    ];
    let mut screens = Vec::new();
    let mut actions = Vec::new();
    for (i, ev) in events.iter().enumerate() {
        actions.push(m.tick(*ev, 25 * (i as u64 + 1)));
        screens.push(m.screen);
    }
    assert_eq!(
        screens,
        vec![Screen::Clock, Screen::Clock, Screen::Clock, Screen::ShutdownPrompt]
    );
    assert_eq!(
        actions,
        vec![
            Action::Nothing,
            Action::Render(Screen::Clock),
            Action::Render(Screen::Clock),
            Action::Nothing,
        ]
    );
}

#[test]
fn toggle_twice_restores_choice() {
    assert_eq!(ShutdownChoice::No.toggle().toggle(), ShutdownChoice::No);
    assert_eq!(ShutdownChoice::Yes.toggle().toggle(), ShutdownChoice::Yes);
    let mut m = Menu::new(0);
    m.tick(ButtonEvent::Key3Pressed, 1);
    assert_eq!(m.choice, ShutdownChoice::No);
    m.tick(ButtonEvent::Key3Pressed, 2);
    assert_eq!(m.choice, ShutdownChoice::Yes);
    assert_eq!(m.screen, Screen::ShutdownPrompt);
    m.tick(ButtonEvent::Key3Pressed, 3);
    assert_eq!(m.choice, ShutdownChoice::No);
    assert_eq!(m.screen, Screen::ShutdownPrompt);
}

#[test]
fn key_table() {
    assert_eq!(screen_for_key(ButtonEvent::Key1Pressed), Some(Screen::Clock));
    assert_eq!(screen_for_key(ButtonEvent::Key2Pressed), Some(Screen::SystemStats));
    assert_eq!(screen_for_key(ButtonEvent::Key3Pressed), Some(Screen::ShutdownPrompt));
    assert_eq!(screen_for_key(ButtonEvent::Key4Pressed), None);
    assert_eq!(screen_for_key(ButtonEvent::NoPress), None);
}

#[test]
fn static_screen_renders_once_per_entry() {
    let mut m = Menu::new(0);
    assert_eq!(m.tick(ButtonEvent::Key2Pressed, 10), Action::Nothing);
    assert_eq!(m.tick(ButtonEvent::NoPress, 20), Action::Render(Screen::SystemStats));
    assert_eq!(m.last_render_ms, 20);
    assert_eq!(m.tick(ButtonEvent::NoPress, 30), Action::Nothing);
    assert_eq!(m.tick(ButtonEvent::NoPress, 100_000), Action::Nothing);
    assert_eq!(m.tick(ButtonEvent::Key2Pressed, 100_010), Action::Nothing);
    assert_eq!(m.tick(ButtonEvent::NoPress, 100_020), Action::Render(Screen::SystemStats));
}

#[test]
fn clock_renders_every_idle_tick_even_if_time_goes_back() {
    let mut m = Menu::new(1000);
    assert_eq!(m.tick(ButtonEvent::NoPress, 1000), Action::Render(Screen::Clock));
    assert_eq!(m.tick(ButtonEvent::NoPress, 500), Action::Render(Screen::Clock));
    assert!(m.is_render_due(500));
}

#[test]
fn held_button_refires_without_rendering() {
    let mut m = Menu::new(0);
    for t in 1..5u64 {
        assert_eq!(m.tick(ButtonEvent::Key2Pressed, t), Action::Nothing);
        assert_eq!(m.screen, Screen::SystemStats);
    }
}

#[test]
fn confirm_with_yes_requests_shutdown() {
    let mut m = Menu::new(0);
    m.tick(ButtonEvent::Key3Pressed, 1);
    m.tick(ButtonEvent::Key3Pressed, 2);
    assert_eq!(m.tick(ButtonEvent::Key4Pressed, 3), Action::Shutdown);
    assert_eq!(m.screen, Screen::ShutdownConfirm);
    assert_eq!(m.tick(ButtonEvent::NoPress, 4), Action::Render(Screen::ShutdownConfirm));
}

#[test]
fn confirm_with_no_returns_to_clock() {
    let mut m = Menu::new(0);
    m.tick(ButtonEvent::Key3Pressed, 1);
    assert_eq!(m.tick(ButtonEvent::Key4Pressed, 2), Action::Nothing);
    assert_eq!(m.screen, Screen::Clock);
}

#[test]
fn confirm_key_elsewhere_is_an_idle_tick() {
    let mut m = Menu::new(0);
    m.tick(ButtonEvent::Key2Pressed, 1);
    assert_eq!(m.tick(ButtonEvent::Key4Pressed, 2), Action::Render(Screen::SystemStats));
    assert_eq!(m.screen, Screen::SystemStats);
    assert_eq!(m.tick(ButtonEvent::Key4Pressed, 3), Action::Nothing);
}

#[test]
fn leaving_prompt_resets_choice() {
    let mut m = Menu::new(0);
    m.tick(ButtonEvent::Key3Pressed, 1);
    m.tick(ButtonEvent::Key3Pressed, 2);
    assert_eq!(m.choice, ShutdownChoice::Yes);
    m.tick(ButtonEvent::Key1Pressed, 3);
    assert_eq!(m.screen, Screen::Clock);
    m.tick(ButtonEvent::Key3Pressed, 4);
    assert_eq!(m.choice, ShutdownChoice::No);
}
