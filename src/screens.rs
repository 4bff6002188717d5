use vstd::prelude::*;

use crate::framebuffer::{in_bounds, on_outline, Framebuffer, HEIGHT, WIDTH};
use crate::menu::{Screen, ShutdownChoice};
use crate::text::{draw_text, text_lights, Glyph};

verus! {

/// The type sizes the screens use.
#[derive(Clone, Copy, Debug, PartialEq, Eq, Structural)]
pub enum Font {
    Tiny,
    Small,
    Medium,
    Large,
}

/// Height in pixels at which text of a font size is rasterized.
pub open spec fn font_pixels(f: Font) -> u32 {
    match f {
        Font::Tiny => 8,
        Font::Small => 10,
        Font::Medium => 15,
        Font::Large => 25,
    }
}

pub fn font_height(f: Font) -> (r: u32)
    ensures
        r == font_pixels(f),
{
    match f {
        Font::Tiny => 8,
        Font::Small => 10,
        Font::Medium => 15,
        Font::Large => 25,
    }
}

/// A line of text placed on a screen.
pub struct TextItem {
    pub x: i32,
    pub y: i32,
    pub font: Font,
    pub text: String,
}

/// A rectangle outline placed on a screen, by its inclusive corners.
#[derive(Clone, Copy, Debug, PartialEq, Eq, Structural)]
pub struct BoxItem {
    pub x1: i64,
    pub y1: i64,
    pub x2: i64,
    pub y2: i64,
}

/// What a screen shows: text lines and rectangle outlines, drawn on a cleared
/// framebuffer.
pub struct Layout {
    pub texts: Vec<TextItem>,
    pub boxes: Vec<BoxItem>,
}

pub open spec fn text_view(t: TextItem) -> (i32, i32, Font, Seq<char>) {
    (t.x, t.y, t.font, t.text@)
}

/// Line `i` of the collaborator's text, or an empty line where it gave fewer.
pub open spec fn line(lines: Seq<Seq<char>>, i: int) -> Seq<char> {
    if i < lines.len() {
        lines[i]
    } else {
        Seq::empty()
    }
}

/// The text lines of `s`. `lines` holds the collaborator's text: weekday,
/// date and time for the clock; address, disk, memory, processor load and
/// temperature for the system screen.
pub open spec fn screen_texts(s: Screen, lines: Seq<Seq<char>>) -> Seq<(i32, i32, Font, Seq<char>)> {
    match s {
        Screen::Clock => seq![
            (6i32, 2i32, Font::Medium, line(lines, 0)),
            (6i32, 20i32, Font::Medium, line(lines, 1)),
            (6i32, 36i32, Font::Large, line(lines, 2)),
        ],
        Screen::SystemStats => seq![
            (6i32, 2i32, Font::Small, line(lines, 0)),
            (6i32, 14i32, Font::Small, line(lines, 1)),
            (6i32, 26i32, Font::Small, line(lines, 2)),
            (6i32, 38i32, Font::Small, line(lines, 3)),
            (6i32, 50i32, Font::Small, line(lines, 4)),
        ],
        Screen::ShutdownPrompt => seq![
            (6i32, 2i32, Font::Medium, "Shutdown?"@),
            (6i32, 22i32, Font::Small, "No"@),
            (6i32, 36i32, Font::Small, "Yes"@),
            (6i32, 54i32, Font::Tiny, "F3: Toggle Choices"@),
        ],
        Screen::ShutdownConfirm => seq![
            (6i32, 2i32, Font::Medium, "Shutdown system?"@),
            (6i32, 24i32, Font::Small, "Confirm with:"@),
            (6i32, 54i32, Font::Tiny, "F3: Toggle Choices"@),
            (6i32, 64i32, Font::Tiny, "F4: Cancel"@),
        ],
        _ => Seq::empty(),
    }
}

/// The rectangle outlines of `s`: on the prompt, a box around the
/// highlighted choice.
pub open spec fn screen_boxes(s: Screen, choice: ShutdownChoice) -> Seq<BoxItem> {
    match s {
        Screen::ShutdownPrompt => match choice {
            ShutdownChoice::No => seq![BoxItem { x1: 4, y1: 22, x2: 124, y2: 34 }],
            ShutdownChoice::Yes => seq![BoxItem { x1: 4, y1: 36, x2: 124, y2: 48 }],
        },
        _ => Seq::empty(),
    }
}

fn text_at(x: i32, y: i32, font: Font, text: &str) -> (r: TextItem)
    ensures
        text_view(r) == (x, y, font, text@),
{
    TextItem { x, y, font, text: text.to_owned() }
}

fn line_at(x: i32, y: i32, font: Font, lines: &Vec<String>, i: usize) -> (r: TextItem)
    ensures
        text_view(r) == (x, y, font, line(lines@.map_values(|l: String| l@), i as int)),
{
    let text = if i < lines.len() {
        lines[i].clone()
    } else {
        String::new()
    };
    proof {
        assert(text@ =~= line(lines@.map_values(|l: String| l@), i as int));
    }
    TextItem { x, y, font, text }
}

/// The layout of screen `s` with `choice` highlighted on the prompt and the
/// collaborator's `lines` in the clock and system screens. The splash and
/// blank screens hold no text or boxes.
pub fn screen_layout(s: Screen, choice: ShutdownChoice, lines: &Vec<String>) -> (r: Layout)
    ensures
        r.texts@.map_values(|t: TextItem| text_view(t)) == screen_texts(
            s,
            lines@.map_values(|l: String| l@),
        ),
        r.boxes@ == screen_boxes(s, choice),
{
    let ghost ls = lines@.map_values(|l: String| l@);
    let mut texts: Vec<TextItem> = Vec::new();
    let mut boxes: Vec<BoxItem> = Vec::new();
    match s {
        Screen::Clock => {
            texts.push(line_at(6, 2, Font::Medium, lines, 0));
            texts.push(line_at(6, 20, Font::Medium, lines, 1));
            texts.push(line_at(6, 36, Font::Large, lines, 2));
        },
        Screen::SystemStats => {
            texts.push(line_at(6, 2, Font::Small, lines, 0));
            texts.push(line_at(6, 14, Font::Small, lines, 1));
            texts.push(line_at(6, 26, Font::Small, lines, 2));
            texts.push(line_at(6, 38, Font::Small, lines, 3));
            texts.push(line_at(6, 50, Font::Small, lines, 4));
        },
        Screen::ShutdownPrompt => {
            texts.push(text_at(6, 2, Font::Medium, "Shutdown?"));
            texts.push(text_at(6, 22, Font::Small, "No"));
            texts.push(text_at(6, 36, Font::Small, "Yes"));
            texts.push(text_at(6, 54, Font::Tiny, "F3: Toggle Choices"));
            match choice {
                ShutdownChoice::No => boxes.push(BoxItem { x1: 4, y1: 22, x2: 124, y2: 34 }),
                ShutdownChoice::Yes => boxes.push(BoxItem { x1: 4, y1: 36, x2: 124, y2: 48 }),
            }
        },
        Screen::ShutdownConfirm => {
            texts.push(text_at(6, 2, Font::Medium, "Shutdown system?"));
            texts.push(text_at(6, 24, Font::Small, "Confirm with:"));
            texts.push(text_at(6, 54, Font::Tiny, "F3: Toggle Choices"));
            texts.push(text_at(6, 64, Font::Tiny, "F4: Cancel"));
        },
        _ => {},
    }
    proof {
        assert(texts@.map_values(|t: TextItem| text_view(t)) =~= screen_texts(s, ls));
        assert(boxes@ =~= screen_boxes(s, choice));
    }
    Layout { texts, boxes }
}


/// `(x, y)` lies on the outline of box `b`.
pub open spec fn box_lights(b: BoxItem, x: int, y: int) -> bool {
    on_outline(b.x1 as int, b.y1 as int, b.x2 as int, b.y2 as int, x, y)
}

/// One of the first `n` boxes lights `(x, y)`.
pub open spec fn boxes_light(boxes: Seq<BoxItem>, n: int, x: int, y: int) -> bool {
    exists|k: int| 0 <= k < n && #[trigger] box_lights(boxes[k], x, y)
}

/// Text line `i`, drawn with the glyphs `run`, lights `(x, y)`.
pub open spec fn line_lights(t: TextItem, run: Seq<Glyph>, x: int, y: int) -> bool {
    text_lights(run, t.x as int, t.y as int, run.len() as int, x, y)
}

/// One of the first `n` text lines lights `(x, y)`.
pub open spec fn texts_light(
    texts: Seq<TextItem>,
    runs: Seq<Vec<Glyph>>,
    n: int,
    x: int,
    y: int,
) -> bool {
    exists|i: int| 0 <= i < n && #[trigger] line_lights(texts[i], runs[i]@, x, y)
}

/// Draws a layout on a cleared framebuffer the size of the panel. `runs[i]`
/// holds the rasterized glyphs of text line `i`. A pixel ends up lit exactly
/// where a box outline or a line's glyphs light it; anything placed outside
/// the panel is clipped.
pub fn compose(layout: &Layout, runs: &Vec<Vec<Glyph>>) -> (r: Framebuffer)
    requires
        runs@.len() == layout.texts@.len(),
    ensures
        r.wf(),
        r.width_spec() == WIDTH,
        r.height_spec() == HEIGHT,
        forall|x: int, y: int|
            in_bounds(WIDTH as nat, HEIGHT as nat, x, y) ==> #[trigger] r.pixel(x, y) == (
            boxes_light(layout.boxes@, layout.boxes@.len() as int, x, y) || texts_light(
                layout.texts@,
                runs@,
                runs@.len() as int,
                x,
                y,
            )),
{
    let ghost bs = layout.boxes@;
    let ghost ts = layout.texts@;
    let ghost rs = runs@;
    let mut fb = Framebuffer::panel();
    let mut k: usize = 0;
    while k < layout.boxes.len()
        invariant
            bs == layout.boxes@,
            k <= bs.len(),
            fb.wf(),
            fb.width_spec() == WIDTH,
            fb.height_spec() == HEIGHT,
            forall|x: int, y: int|
                in_bounds(WIDTH as nat, HEIGHT as nat, x, y) ==> #[trigger] fb.pixel(x, y)
                    == boxes_light(bs, k as int, x, y),
        decreases bs.len() - k,
    {
        let b = layout.boxes[k];
        let ghost before = fb;
        fb.draw_rect_outline(b.x1, b.y1, b.x2, b.y2, true);
        proof {
            assert forall|x: int, y: int|
                in_bounds(WIDTH as nat, HEIGHT as nat, x, y) implies #[trigger] fb.pixel(x, y)
                == boxes_light(bs, k + 1, x, y) by {
                assert(before.pixel(x, y) == boxes_light(bs, k as int, x, y));
                if box_lights(b, x, y) {
                    assert(box_lights(bs[k as int], x, y));
                }
                if boxes_light(bs, k + 1, x, y) {
                    let kk = choose|kk: int| 0 <= kk < k + 1 && #[trigger] box_lights(bs[kk], x, y);
                    if kk < k {
                        assert(boxes_light(bs, k as int, x, y));
                    }
                }
            }
        }
        k = k + 1;
    }
    let mut i: usize = 0;
    while i < runs.len()
        invariant
            bs == layout.boxes@,
            ts == layout.texts@,
            rs == runs@,
            rs.len() == ts.len(),
            i <= rs.len(),
            fb.wf(),
            fb.width_spec() == WIDTH,
            fb.height_spec() == HEIGHT,
            forall|x: int, y: int|
                in_bounds(WIDTH as nat, HEIGHT as nat, x, y) ==> #[trigger] fb.pixel(x, y) == (
                boxes_light(bs, bs.len() as int, x, y) || texts_light(ts, rs, i as int, x, y)),
        decreases rs.len() - i,
    {
        let t = &layout.texts[i];
        let ghost before = fb;
        draw_text(&mut fb, t.x, t.y, &runs[i]);
        proof {
            assert forall|x: int, y: int|
                in_bounds(WIDTH as nat, HEIGHT as nat, x, y) implies #[trigger] fb.pixel(x, y) == (
                boxes_light(bs, bs.len() as int, x, y) || texts_light(ts, rs, i + 1, x, y)) by {
                assert(before.pixel(x, y) == (boxes_light(bs, bs.len() as int, x, y)
                    || texts_light(ts, rs, i as int, x, y)));
                if line_lights(ts[i as int], rs[i as int]@, x, y) {
                    assert(texts_light(ts, rs, i + 1, x, y));
                }
                if texts_light(ts, rs, i + 1, x, y) {
                    let ii = choose|ii: int|
                        0 <= ii < i + 1 && #[trigger] line_lights(ts[ii], rs[ii]@, x, y);
                    if ii < i {
                        assert(texts_light(ts, rs, i as int, x, y));
                    }
                }
            }
        }
        i = i + 1;
    }
    fb
}

} // verus!
