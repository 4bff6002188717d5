use oled_panel::encoder::{
    chunk_writes, command, decode_frame, encode_frame, encode_pages, init_sequence,
    render_writes, startup_writes, BLOCK_SIZE, CONTROL_DATA, DISPLAY_OFF,
};
use oled_panel::framebuffer::Framebuffer;

fn pattern(width: usize, height: usize) -> Framebuffer {
    let mut fb = Framebuffer::new(width, height);
    for y in 0..height as i64 {
        for x in 0..width as i64 {
            if (x * 7 + y * 3) % 5 == 0 || x == y {
                fb.set_pixel(x, y, true);
            }
        }
    }
    fb
}

fn same_pixels(a: &Framebuffer, b: &Framebuffer) -> bool {
    if a.width() != b.width() || a.height() != b.height() {
        return false;
    }
    for y in 0..a.height() {
        for x in 0..a.width() {
            if a.get_pixel(x, y) != b.get_pixel(x, y) {
                return false;
            }
        }
    }
    true
}

#[test]
fn round_trip_panel() {
    let mut fb = Framebuffer::panel();
    fb.fill_rect(4, 22, 124, 34, true);
    fb.draw_rect_outline(0, 0, 127, 63, true);
    fb.set_pixel(64, 40, false);
    let writes = encode_frame(&fb);
    let back = decode_frame(&writes, 128, 64).unwrap();
    assert!(same_pixels(&fb, &back));
}

#[test]
fn round_trip_height_not_multiple_of_eight() {
    let fb = pattern(13, 21);
    let writes = encode_frame(&fb);
    let back = decode_frame(&writes, 13, 21).unwrap();
    assert!(same_pixels(&fb, &back));
}

#[test]
fn panel_frame_is_thirty_two_full_blocks() {
    let fb = pattern(128, 64);
    let writes = encode_frame(&fb);
    assert_eq!(writes.len(), 32);
    for w in &writes {
        assert_eq!(w.len(), BLOCK_SIZE + 1);
        assert_eq!(w[0], CONTROL_DATA);
    }
}

#[test]
fn encoding_twice_is_identical() {
    let fb = pattern(128, 64);
    let a = encode_frame(&fb);
    let b = encode_frame(&fb);
    assert_eq!(a, b);
    assert_eq!(a.len(), b.len());
    let c = encode_frame(&pattern(128, 64));
    assert_eq!(a, c);
}

#[test]
fn last_block_may_be_short() {
    let data: Vec<u8> = (0..70u8).collect();
    let writes = chunk_writes(&data);
    assert_eq!(writes.len(), 3);
    assert_eq!(writes[0].len(), 33);
    assert_eq!(writes[1].len(), 33);
    assert_eq!(writes[2], vec![0x40, 64, 65, 66, 67, 68, 69]);
    assert_eq!(writes[1][1], 32);
    assert!(chunk_writes(&Vec::new()).is_empty());
}

#[test]
fn column_byte_bit_order() {
    let mut fb = Framebuffer::new(3, 16);
    fb.set_pixel(0, 0, true);
    fb.set_pixel(1, 7, true);
    fb.set_pixel(2, 0, true);
    fb.set_pixel(2, 2, true);
    fb.set_pixel(0, 9, true);
    let data = encode_pages(&fb);
    assert_eq!(data, vec![0x01, 0x80, 0x05, 0x02, 0x00, 0x00]);
}

#[test]
fn partial_last_page_pads_with_off() {
    let mut fb = Framebuffer::new(2, 10);
    fb.fill_rect(0, 0, 1, 9, true);
    let data = encode_pages(&fb);
    assert_eq!(data, vec![0xFF, 0xFF, 0x03, 0x03]);
}

#[test]
fn decode_rejects_command_write() {
    let fb = pattern(8, 8);
    let mut writes = encode_frame(&fb);
    writes[0][0] = 0x00;
    assert!(decode_frame(&writes, 8, 8).is_none());
}

#[test]
fn decode_rejects_empty_write() {
    let fb = pattern(8, 8);
    let mut writes = encode_frame(&fb);
    writes.push(Vec::new());
    assert!(decode_frame(&writes, 8, 8).is_none());
}

#[test]
fn decode_rejects_wrong_length() {
    let fb = pattern(8, 8);
    let writes = encode_frame(&fb);
    assert!(decode_frame(&writes, 9, 8).is_none());
    assert!(decode_frame(&writes, 8, 16).is_none());
    assert!(decode_frame(&writes, 8, 1).is_some());
}

#[test]
fn init_sequence_in_documented_order() {
    let expected: Vec<u8> = vec![
        0x00, 0xAE, 0x00, 0x00, 0x00, 0x10, 0x00, 0x40, 0x00, 0xB0, 0x00, 0x81, 0x00, 0xCF,
        0x00, 0xA1, 0x00, 0xA8, 0x00, 0x3F, 0x00, 0xC8, 0x00, 0xD3, 0x00, 0x00, 0x00, 0xD5,
        0x00, 0x80, 0x00, 0xD9, 0x00, 0xF1, 0x00, 0xDA, 0x00, 0x12, 0x00, 0xDB, 0x00, 0x40,
        0x00, 0x8D, 0x00, 0x14, 0x00, 0xA6, 0x00, 0x20, 0x00, 0x00, 0x00, 0xAF,
    ];
    assert_eq!(init_sequence(), expected);
}

#[test]
fn startup_sends_same_init_for_any_frame() {
    let blank = Framebuffer::panel();
    let busy = pattern(128, 64);
    let a = startup_writes(&blank);
    let b = startup_writes(&busy);
    assert_eq!(a[0], init_sequence());
    assert_eq!(b[0], init_sequence());
    assert_eq!(a[1..].to_vec(), encode_frame(&blank));
    assert_eq!(b[1..].to_vec(), encode_frame(&busy));
    assert_ne!(a, b);
}

#[test]
fn render_switches_display_on_first() {
    let fb = pattern(128, 64);
    let w = render_writes(&fb);
    assert_eq!(w[0], vec![0x00, 0xAF]);
    assert_eq!(w.len(), 33);
    assert_eq!(command(DISPLAY_OFF), vec![0x00, 0xAE]);
}
