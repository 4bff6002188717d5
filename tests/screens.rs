use oled_panel::framebuffer::Framebuffer;
use oled_panel::menu::{Screen, ShutdownChoice};
use oled_panel::screens::{compose, font_height, screen_layout, BoxItem, Font};
use oled_panel::text::{Glyph, GlyphPixel};

fn texts(s: Screen, choice: ShutdownChoice, lines: &[&str]) -> Vec<(i32, i32, Font, String)> {
    let lines: Vec<String> = lines.iter().map(|l| l.to_string()).collect();
    screen_layout(s, choice, &lines)
        .texts
        .into_iter()
        .map(|t| (t.x, t.y, t.font, t.text))
        .collect()
}

#[test]
fn clock_layout() {
    let t = texts(Screen::Clock, ShutdownChoice::No, &["Monday", " 5 Jan 2026", "12:00:00"]);
    assert_eq!(
        t,
        vec![
            (6, 2, Font::Medium, "Monday".to_string()),
            (6, 20, Font::Medium, " 5 Jan 2026".to_string()),
            (6, 36, Font::Large, "12:00:00".to_string()),
        ]
    );
}

#[test]
fn stats_layout_fills_missing_lines_with_empty_text() {
    let t = texts(Screen::SystemStats, ShutdownChoice::No, &["IPv4: 10.0.0.2", "Disk: 3/29GB 11%"]);
    assert_eq!(t.len(), 5);
    assert_eq!(t[0], (6, 2, Font::Small, "IPv4: 10.0.0.2".to_string()));
    assert_eq!(t[1], (6, 14, Font::Small, "Disk: 3/29GB 11%".to_string()));
    assert_eq!(t[4], (6, 50, Font::Small, String::new()));
}

#[test]
fn prompt_box_follows_choice() {
    let none: Vec<String> = Vec::new();
    let no = screen_layout(Screen::ShutdownPrompt, ShutdownChoice::No, &none);
    let yes = screen_layout(Screen::ShutdownPrompt, ShutdownChoice::Yes, &none);
    assert_eq!(no.boxes, vec![BoxItem { x1: 4, y1: 22, x2: 124, y2: 34 }]);
    assert_eq!(yes.boxes, vec![BoxItem { x1: 4, y1: 36, x2: 124, y2: 48 }]);
    assert_eq!(no.texts[0].text, "Shutdown?");
    assert_eq!(no.texts[3].text, "F3: Toggle Choices");
}

#[test]
fn blank_and_splash_have_no_items() {
    let none: Vec<String> = Vec::new();
    for s in [Screen::Blank, Screen::Splash] {
        let l = screen_layout(s, ShutdownChoice::No, &none);
        assert!(l.texts.is_empty() && l.boxes.is_empty());
    }
    let c = screen_layout(Screen::ShutdownConfirm, ShutdownChoice::Yes, &none);
    assert_eq!(c.texts.len(), 4);
    assert_eq!(c.texts[3].y, 64);
}

#[test]
fn font_sizes() {
    assert_eq!(font_height(Font::Tiny), 8);
    assert_eq!(font_height(Font::Small), 10);
    assert_eq!(font_height(Font::Medium), 15);
    assert_eq!(font_height(Font::Large), 25);
}

#[test]
fn compose_draws_box_and_text() {
    let none: Vec<String> = Vec::new();
    let layout = screen_layout(Screen::ShutdownPrompt, ShutdownChoice::No, &none);
    let runs: Vec<Vec<Glyph>> = layout
        .texts
        .iter()
        .map(|_| {
            vec![Glyph { advance: 2, pixels: vec![GlyphPixel { dx: 0, dy: 0, coverage: 255 }] }]
        })
        .collect();
    let fb: Framebuffer = compose(&layout, &runs);
    assert!(fb.get_pixel(4, 22));
    assert!(fb.get_pixel(124, 34));
    assert!(!fb.get_pixel(5, 23));
    assert!(fb.get_pixel(6, 2));
    assert!(fb.get_pixel(6, 54));
    assert!(!fb.get_pixel(8, 2));
}
