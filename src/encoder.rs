use vstd::prelude::*;

use crate::framebuffer::{in_bounds, Framebuffer, MAX_SIDE};

use vstd::arithmetic::div_mod::{
    lemma_fundamental_div_mod_converse_div,
    lemma_fundamental_div_mod_converse_mod,
};

verus! {

/// Rows of pixels in one page of controller memory.
pub const PAGE_HEIGHT: usize = 8;

/// Control byte that marks the following byte as a controller command.
pub const CONTROL_COMMAND: u8 = 0x00;

/// Control byte that marks the following bytes as pixel data.
pub const CONTROL_DATA: u8 = 0x40;

/// Pixel bytes carried by one bus write.
pub const BLOCK_SIZE: usize = 32;

/// Number of pages that cover `h` rows; the last one may be partly unused.
pub open spec fn page_count(h: nat) -> nat {
    (h + 7) / 8
}

/// Whether the controller should show `(x, y)` lit; rows below the
/// framebuffer, in the last page, are off.
pub open spec fn lit(fb: &Framebuffer, x: int, y: int) -> bool {
    y < fb.height_spec() && fb.pixel(x, y)
}

/// Bit `k` of `b`, bit 0 being the least significant.
pub open spec fn get_bit(b: u8, k: int) -> bool {
    (b >> (k as u8)) & 1 == 1
}

/// The mask of bit `k` if `on`, else zero.
pub open spec fn bit_mask(on: bool, k: int) -> u8 {
    if on {
        1u8 << (k as u8)
    } else {
        0
    }
}

/// The byte of column `x` in page `p`, from its first `n` rows. Bit `j`
/// holds row `8 * p + j`: the top row of a page is the least significant
/// bit, as the controller reads it.
pub open spec fn pack_column(fb: &Framebuffer, p: int, x: int, n: int) -> u8
    decreases n,
{
    if n <= 0 {
        0
    } else {
        pack_column(fb, p, x, n - 1) | bit_mask(lit(fb, x, 8 * p + n - 1), n - 1)
    }
}

pub open spec fn column_byte(fb: &Framebuffer, p: int, x: int) -> u8 {
    pack_column(fb, p, x, 8)
}

/// The framebuffer as the controller stores it: page after page, column
/// after column, one byte per column of a page.
pub open spec fn page_data(fb: &Framebuffer) -> Seq<u8> {
    Seq::new(
        page_count(fb.height_spec()) * fb.width_spec(),
        |i: int| column_byte(fb, i / (fb.width_spec() as int), i % (fb.width_spec() as int)),
    )
}

/// The bus writes that carry `data`: blocks of `BLOCK_SIZE` bytes, the last
/// one possibly shorter, each after the pixel-data control byte.
pub open spec fn chunks(data: Seq<u8>) -> Seq<Seq<u8>>
    decreases data.len(),
{
    if data.len() == 0 {
        Seq::empty()
    } else if data.len() <= BLOCK_SIZE {
        seq![seq![CONTROL_DATA] + data]
    } else {
        seq![seq![CONTROL_DATA] + data.take(BLOCK_SIZE as int)] + chunks(
            data.skip(BLOCK_SIZE as int),
        )
    }
}

/// The bus writes that flush a framebuffer.
pub open spec fn frame_writes(fb: &Framebuffer) -> Seq<Seq<u8>> {
    chunks(page_data(fb))
}

/// The contents of a sequence of byte vectors.
pub open spec fn views(ws: Seq<Vec<u8>>) -> Seq<Seq<u8>> {
    ws.map_values(|v: Vec<u8>| v@)
}

/// The pixel bytes that a sequence of data writes carries, in order.
pub open spec fn payload(ws: Seq<Seq<u8>>) -> Seq<u8>
    decreases ws.len(),
{
    if ws.len() == 0 {
        Seq::empty()
    } else {
        payload(ws.drop_last()) + ws.last().skip(1)
    }
}

/// Every write is a data write.
pub open spec fn all_data_writes(ws: Seq<Seq<u8>>) -> bool {
    forall|c: int| 0 <= c < ws.len() ==> #[trigger] ws[c].len() >= 1 && ws[c][0] == CONTROL_DATA
}

/// The writes form a whole frame of `w` by `h` pixels.
pub open spec fn frame_accepted(ws: Seq<Seq<u8>>, w: nat, h: nat) -> bool {
    all_data_writes(ws) && payload(ws).len() == page_count(h) * w
}

/// Pixel `(x, y)` as stored in page-ordered bytes of a `w` wide frame.
pub open spec fn decoded_pixel(data: Seq<u8>, w: nat, x: int, y: int) -> bool {
    get_bit(data[(y / 8) * w + x], y % 8)
}

proof fn lemma_or_bit(a: u8, n: u8, k: u8)
    requires
        n < 8,
        k < 8,
    ensures
        ((a | (1u8 << n)) >> k) & 1 == 1 <==> (((a >> k) & 1 == 1) || k == n),
        ((a | 0u8) >> k) & 1 == 1 <==> ((a >> k) & 1 == 1),
        (0u8 >> k) & 1 != 1,
{
    assert(((a | (1u8 << n)) >> k) & 1 == 1 <==> (((a >> k) & 1 == 1) || k == n)) by (bit_vector)
        requires
            n < 8,
            k < 8,
    ;
    assert(((a | 0u8) >> k) & 1 == 1 <==> ((a >> k) & 1 == 1)) by (bit_vector);
    assert((0u8 >> k) & 1 != 1) by (bit_vector);
}

/// Bit `k` of a partly packed column byte is row `k` of the page if that
/// row was packed already.
proof fn lemma_pack_bit(fb: &Framebuffer, p: int, x: int, n: int, k: int)
    requires
        0 <= n <= 8,
        0 <= k < 8,
    ensures
        get_bit(pack_column(fb, p, x, n), k) == (k < n && lit(fb, x, 8 * p + k)),
    decreases n,
{
    if n == 0 {
        lemma_or_bit(0, 0, k as u8);
    } else {
        lemma_pack_bit(fb, p, x, n - 1, k);
        lemma_or_bit(pack_column(fb, p, x, n - 1), (n - 1) as u8, k as u8);
    }
}

/// Page-ordered bytes decode back to the pixels they were packed from.
proof fn lemma_page_data_decodes(fb: &Framebuffer, x: int, y: int)
    requires
        fb.wf(),
        in_bounds(fb.width_spec(), fb.height_spec(), x, y),
    ensures
        (y / 8) * fb.width_spec() + x < page_data(fb).len(),
        decoded_pixel(page_data(fb), fb.width_spec(), x, y) == fb.pixel(x, y),
{
    let w = fb.width_spec() as int;
    let h = fb.height_spec() as int;
    let p = y / 8;
    let i = p * w + x;
    assert(0 <= p < page_count(h as nat));
    assert(0 <= i < page_count(h as nat) * w) by (nonlinear_arith)
        requires
            0 <= p < page_count(h as nat),
            0 <= x < w,
            i == p * w + x,
    ;
    lemma_fundamental_div_mod_converse_div(i, w, p, x);
    lemma_fundamental_div_mod_converse_mod(i, w, p, x);
    lemma_pack_bit(fb, p, x, 8, y % 8);
}

/// Fixed-size blocks, put back together, give the bytes they were cut from.
proof fn lemma_chunks_payload(data: Seq<u8>)
    ensures
        payload(chunks(data)) == data,
        all_data_writes(chunks(data)),
    decreases data.len(),
{
    if data.len() == 0 {
        assert(payload(chunks(data)) =~= data);
    } else if data.len() <= BLOCK_SIZE {
        let ws = chunks(data);
        assert(ws.drop_last() =~= Seq::<Seq<u8>>::empty());
        assert(ws.last() == seq![CONTROL_DATA] + data);
        assert(payload(ws.drop_last()) =~= Seq::<u8>::empty());
        assert(payload(ws) == payload(ws.drop_last()) + ws.last().skip(1));
        assert((seq![CONTROL_DATA] + data).skip(1) =~= data);
        assert(payload(ws) =~= data);
    } else {
        let head = seq![CONTROL_DATA] + data.take(BLOCK_SIZE as int);
        let rest = data.skip(BLOCK_SIZE as int);
        lemma_chunks_payload(rest);
        lemma_payload_cons(head, chunks(rest));
        assert(head.skip(1) =~= data.take(BLOCK_SIZE as int));
        assert(data.take(BLOCK_SIZE as int) + rest =~= data);
    }
}

proof fn lemma_payload_cons(head: Seq<u8>, rest: Seq<Seq<u8>>)
    ensures
        payload(seq![head] + rest) == head.skip(1) + payload(rest),
    decreases rest.len(),
{
    let ws = seq![head] + rest;
    if rest.len() == 0 {
        assert(ws.drop_last() =~= Seq::<Seq<u8>>::empty());
        assert(payload(rest) =~= Seq::<u8>::empty());
        assert(ws.last() == head);
        assert(payload(ws.drop_last()) =~= Seq::<u8>::empty());
        assert(payload(ws) == payload(ws.drop_last()) + ws.last().skip(1));
        assert(payload(ws) =~= head.skip(1) + payload(rest));
    } else {
        lemma_payload_cons(head, rest.drop_last());
        assert(ws.drop_last() =~= seq![head] + rest.drop_last());
        assert(ws.last() == rest.last());
        assert(payload(ws) == payload(ws.drop_last()) + ws.last().skip(1));
        assert(payload(rest) == payload(rest.drop_last()) + rest.last().skip(1));
        assert(payload(ws) =~= head.skip(1) + payload(rest));
    }
}

/// Encoding a framebuffer and reassembling the bus writes gives back every
/// pixel that was drawn.
pub proof fn lemma_round_trip(fb: &Framebuffer)
    requires
        fb.wf(),
    ensures
        frame_accepted(frame_writes(fb), fb.width_spec(), fb.height_spec()),
        forall|x: int, y: int|
            in_bounds(fb.width_spec(), fb.height_spec(), x, y) ==> #[trigger] decoded_pixel(
                payload(frame_writes(fb)),
                fb.width_spec(),
                x,
                y,
            ) == fb.pixel(x, y),
{
    lemma_chunks_payload(page_data(fb));
    assert forall|x: int, y: int|
        in_bounds(fb.width_spec(), fb.height_spec(), x, y) implies #[trigger] decoded_pixel(
        payload(frame_writes(fb)),
        fb.width_spec(),
        x,
        y,
    ) == fb.pixel(x, y) by {
        lemma_page_data_decodes(fb, x, y);
    }
}


proof fn lemma_pack_equal(a: &Framebuffer, b: &Framebuffer, p: int, x: int, n: int)
    requires
        forall|j: int| 0 <= j < n ==> #[trigger] lit(a, x, 8 * p + j) == lit(b, x, 8 * p + j),
    ensures
        pack_column(a, p, x, n) == pack_column(b, p, x, n),
    decreases n,
{
    if n > 0 {
        lemma_pack_equal(a, b, p, x, n - 1);
        assert(lit(a, x, 8 * p + n - 1) == lit(b, x, 8 * p + n - 1));
    }
}

/// Encoding depends on the image alone: two framebuffers that hold the same
/// image give the same bus writes, block for block.
pub proof fn lemma_encoding_deterministic(a: &Framebuffer, b: &Framebuffer)
    requires
        a.wf(),
        b.wf(),
        a.same_image(b),
    ensures
        frame_writes(a) == frame_writes(b),
        frame_writes(a).len() == frame_writes(b).len(),
{
    let w = a.width_spec() as int;
    assert forall|i: int| 0 <= i < page_data(a).len() implies page_data(a)[i] == page_data(b)[i] by {
        assert(w > 0) by (nonlinear_arith)
            requires
                0 <= i < page_data(a).len(),
                page_data(a).len() == page_count(a.height_spec()) * w,
        ;
        let p = i / w;
        let x = i % w;
        assert(0 <= p && 0 <= x < w) by (nonlinear_arith)
            requires
                w > 0,
                0 <= i,
                p == i / w,
                x == i % w,
        ;
        assert forall|j: int| 0 <= j < 8 implies #[trigger] lit(a, x, 8 * p + j) == lit(b, x, 8 * p + j) by {
            if 8 * p + j < a.height_spec() {
                assert(in_bounds(a.width_spec(), a.height_spec(), x, 8 * p + j));
                assert(a.pixel(x, 8 * p + j) == b.pixel(x, 8 * p + j));
            }
        }
        lemma_pack_equal(a, b, p, x, 8);
    }
    assert(page_data(a) =~= page_data(b));
}

/// How the pixel bytes are cut: `ceil(n / BLOCK_SIZE)` writes for `n` bytes,
/// each a data write with `BLOCK_SIZE` bytes after the control byte, but for
/// the last one, which carries the rest.
pub proof fn lemma_chunk_shape(data: Seq<u8>)
    ensures
        chunks(data).len() == (data.len() + BLOCK_SIZE - 1) / (BLOCK_SIZE as int),
        forall|c: int|
            0 <= c < chunks(data).len() ==> {
                &&& (#[trigger] chunks(data)[c]).len() == 1 + if data.len() - BLOCK_SIZE * c
                    < BLOCK_SIZE {
                    data.len() - BLOCK_SIZE * c
                } else {
                    BLOCK_SIZE as int
                }
                &&& chunks(data)[c][0] == CONTROL_DATA
            },
    decreases data.len(),
{
    if data.len() > BLOCK_SIZE {
        let rest = data.skip(BLOCK_SIZE as int);
        lemma_chunk_shape(rest);
        assert forall|c: int| 0 < c < chunks(data).len() implies #[trigger] chunks(data)[c]
            == chunks(rest)[c - 1] by {}
    }
}

/// The page-ordered bytes of a framebuffer, as the controller stores them.
pub fn encode_pages(fb: &Framebuffer) -> (r: Vec<u8>)
    requires
        fb.wf(),
    ensures
        r@ == page_data(fb),
{
    let w = fb.width();
    let h = fb.height();
    let pages: usize = (h + 7) / 8;
    let mut data: Vec<u8> = Vec::new();
    let mut p: usize = 0;
    while p < pages
        invariant
            fb.wf(),
            w == fb.width_spec(),
            h == fb.height_spec(),
            w <= MAX_SIDE,
            h <= MAX_SIDE,
            pages == page_count(h as nat),
            p <= pages,
            data@.len() == p * w,
            forall|i: int|
                0 <= i < data@.len() ==> #[trigger] data@[i] == column_byte(
                    fb,
                    i / (w as int),
                    i % (w as int),
                ),
        decreases pages - p,
    {
        let mut x: usize = 0;
        while x < w
            invariant
                fb.wf(),
                w == fb.width_spec(),
                h == fb.height_spec(),
                w <= MAX_SIDE,
                h <= MAX_SIDE,
                pages == page_count(h as nat),
                p < pages,
                x <= w,
                data@.len() == p * w + x,
                forall|i: int|
                    0 <= i < data@.len() ==> #[trigger] data@[i] == column_byte(
                        fb,
                        i / (w as int),
                        i % (w as int),
                    ),
            decreases w - x,
        {
            let mut byte: u8 = 0;
            let mut j: usize = 0;
            while j < PAGE_HEIGHT
                invariant
                    fb.wf(),
                    w == fb.width_spec(),
                    h == fb.height_spec(),
                    h <= MAX_SIDE,
                    p < pages,
                    pages == page_count(h as nat),
                    x < w,
                    j <= 8,
                    byte == pack_column(fb, p as int, x as int, j as int),
                decreases 8 - j,
            {
                let y: usize = p * 8 + j;
                let on = y < h && fb.get_pixel(x, y);
                let mask: u8 = if on {
                    1u8 << (j as u8)
                } else {
                    0
                };
                byte = byte | mask;
                j = j + 1;
            }
            proof {
                let i = data@.len() as int;
                assert(i == p * w + x);
                lemma_fundamental_div_mod_converse_div(i, w as int, p as int, x as int);
                lemma_fundamental_div_mod_converse_mod(i, w as int, p as int, x as int);
                assert((p + 1) * w <= pages * w) by (nonlinear_arith)
                    requires
                        p < pages,
                ;
                assert(pages * w <= 513 * MAX_SIDE) by (nonlinear_arith)
                    requires
                        pages <= 513,
                        w <= MAX_SIDE,
                ;
                assert((p + 1) * w == p * w + w) by (nonlinear_arith);
            }
            data.push(byte);
            x = x + 1;
        }
        proof {
            assert((p + 1) * w == p * w + w) by (nonlinear_arith);
        }
        p = p + 1;
    }
    assert(data@ =~= page_data(fb));
    data
}

/// Cuts page-ordered bytes into data writes of `BLOCK_SIZE` bytes each, the
/// last one possibly shorter, each led by the pixel-data control byte.
pub fn chunk_writes(data: &Vec<u8>) -> (r: Vec<Vec<u8>>)
    ensures
        views(r@) == chunks(data@),
{
    let n = data.len();
    let mut ws: Vec<Vec<u8>> = Vec::new();
    let mut pos: usize = 0;
    proof {
        assert(data@.skip(0) =~= data@);
        assert(views(ws@) =~= Seq::<Seq<u8>>::empty());
        assert(views(ws@) + chunks(data@.skip(0)) =~= chunks(data@));
    }
    while pos < n
        invariant
            n == data@.len(),
            pos <= n,
            views(ws@) + chunks(data@.skip(pos as int)) == chunks(data@),
        decreases n - pos,
    {
        let end: usize = if n - pos <= BLOCK_SIZE {
            n
        } else {
            pos + BLOCK_SIZE
        };
        let mut w: Vec<u8> = Vec::new();
        w.push(CONTROL_DATA);
        let mut k: usize = pos;
        while k < end
            invariant
                n == data@.len(),
                pos <= k <= end <= n,
                w@ == seq![CONTROL_DATA] + data@.subrange(pos as int, k as int),
            decreases end - k,
        {
            w.push(data[k]);
            k = k + 1;
            assert(w@ =~= seq![CONTROL_DATA] + data@.subrange(pos as int, k as int));
        }
        proof {
            let s = data@.skip(pos as int);
            if s.len() <= BLOCK_SIZE {
                assert(s =~= data@.subrange(pos as int, end as int));
                assert(data@.skip(end as int) =~= Seq::<u8>::empty());
                assert(chunks(data@.skip(end as int)) =~= Seq::<Seq<u8>>::empty());
            } else {
                assert(s.take(BLOCK_SIZE as int) =~= data@.subrange(pos as int, end as int));
                assert(s.skip(BLOCK_SIZE as int) =~= data@.skip(end as int));
            }
            assert(chunks(s) =~= seq![w@] + chunks(data@.skip(end as int)));
            assert(views(ws@.push(w)) =~= views(ws@).push(w@));
            assert(views(ws@).push(w@) + chunks(data@.skip(end as int)) =~= views(ws@) + chunks(s));
        }
        ws.push(w);
        pos = end;
    }
    proof {
        assert(data@.skip(pos as int) =~= Seq::<u8>::empty());
        assert(views(ws@) + chunks(data@.skip(pos as int)) =~= views(ws@));
    }
    ws
}

/// The bus writes that flush `fb` to the panel.
pub fn encode_frame(fb: &Framebuffer) -> (r: Vec<Vec<u8>>)
    requires
        fb.wf(),
    ensures
        views(r@) == frame_writes(fb),
{
    let data = encode_pages(fb);
    chunk_writes(&data)
}


/// Reassembles data writes into a `width` by `height` framebuffer, as the
/// controller would store them. Gives `None` unless every write is a data
/// write and together they carry exactly one frame.
pub fn decode_frame(writes: &Vec<Vec<u8>>, width: usize, height: usize) -> (r: Option<
    Framebuffer,
>)
    requires
        width <= MAX_SIDE,
        height <= MAX_SIDE,
    ensures
        r.is_some() <==> frame_accepted(views(writes@), width as nat, height as nat),
        r matches Some(fb) ==> {
            &&& fb.wf()
            &&& fb.width_spec() == width
            &&& fb.height_spec() == height
            &&& forall|x: int, y: int|
                in_bounds(width as nat, height as nat, x, y) ==> #[trigger] fb.pixel(x, y)
                    == decoded_pixel(payload(views(writes@)), width as nat, x, y)
        },
{
    let ghost ws = views(writes@);
    let mut data: Vec<u8> = Vec::new();
    let mut c: usize = 0;
    while c < writes.len()
        invariant
            ws == views(writes@),
            c <= writes@.len(),
            data@ == payload(ws.take(c as int)),
            all_data_writes(ws.take(c as int)),
        decreases writes@.len() - c,
    {
        let w = &writes[c];
        if w.len() == 0 || w[0] != CONTROL_DATA {
            assert(!(ws[c as int].len() >= 1 && ws[c as int][0] == CONTROL_DATA));
            return None;
        }
        let ghost before = data@;
        let mut k: usize = 1;
        while k < w.len()
            invariant
                1 <= k <= w@.len(),
                data@ == before + w@.subrange(1, k as int),
            decreases w@.len() - k,
        {
            data.push(w[k]);
            k = k + 1;
            assert(data@ =~= before + w@.subrange(1, k as int));
        }
        proof {
            let t = ws.take(c + 1);
            assert(t.drop_last() =~= ws.take(c as int));
            assert(t.last() == w@);
            assert(w@.subrange(1, k as int) =~= w@.skip(1));
            assert(payload(t) == payload(t.drop_last()) + t.last().skip(1));
            assert(all_data_writes(t)) by {
                assert forall|i: int| 0 <= i < t.len() implies #[trigger] t[i].len() >= 1
                    && t[i][0] == CONTROL_DATA by {
                    if i < c {
                        assert(ws.take(c as int)[i] == t[i]);
                    }
                }
            }
        }
        c = c + 1;
    }
    proof {
        assert(ws.take(c as int) =~= ws);
    }
    let pages: usize = (height + 7) / 8;
    proof {
        assert(pages * width <= 513 * MAX_SIDE) by (nonlinear_arith)
            requires
                pages <= 513,
                width <= MAX_SIDE,
        ;
    }
    if data.len() != pages * width {
        return None;
    }
    let mut fb = Framebuffer::new(width, height);
    let mut y: usize = 0;
    while y < height
        invariant
            fb.wf(),
            fb.width_spec() == width,
            fb.height_spec() == height,
            width <= MAX_SIDE,
            height <= MAX_SIDE,
            pages == page_count(height as nat),
            data@ == payload(ws),
            data@.len() == pages * width,
            y <= height,
            forall|i: int, j: int|
                in_bounds(width as nat, height as nat, i, j) ==> #[trigger] fb.pixel(i, j) == (j
                    < y && decoded_pixel(data@, width as nat, i, j)),
        decreases height - y,
    {
        let mut x: usize = 0;
        while x < width
            invariant
                fb.wf(),
                fb.width_spec() == width,
                fb.height_spec() == height,
                width <= MAX_SIDE,
                height <= MAX_SIDE,
                pages == page_count(height as nat),
                data@ == payload(ws),
                data@.len() == pages * width,
                y < height,
                x <= width,
                forall|i: int, j: int|
                    in_bounds(width as nat, height as nat, i, j) ==> #[trigger] fb.pixel(i, j) == ((
                    j < y || (j == y && i < x)) && decoded_pixel(data@, width as nat, i, j)),
            decreases width - x,
        {
            proof {
                let p = y / 8;
                assert(p < pages);
                assert(p * width + x < pages * width) by (nonlinear_arith)
                    requires
                        p < pages,
                        x < width,
                ;
                assert(0 <= p * width) by (nonlinear_arith)
                    requires
                        0 <= p,
                ;
                assert(pages * width <= 513 * MAX_SIDE) by (nonlinear_arith)
                    requires
                        pages <= 513,
                        width <= MAX_SIDE,
                ;
            }
            let b = data[(y / 8) * width + x];
            let on = (b >> ((y % 8) as u8)) & 1 == 1;
            fb.set_pixel(x as i64, y as i64, on);
            x = x + 1;
        }
        y = y + 1;
    }
    Some(fb)
}

/// The commands that configure the controller at start, each as a pair of
/// the command control byte and the command: display off, column and start
/// line addresses, page address, contrast, segment remap, multiplex ratio,
/// COM scan direction, display offset, clock divider, pre-charge period,
/// COM pins, VCOMH level, charge pump on, normal (not inverted) display,
/// horizontal addressing, and last display on.
pub open spec fn init_commands() -> Seq<u8> {
    seq![
        0x00, 0xAE,
        0x00, 0x00,
        0x00, 0x10,
        0x00, 0x40,
        0x00, 0xB0,
        0x00, 0x81,
        0x00, 0xCF,
        0x00, 0xA1,
        0x00, 0xA8,
        0x00, 0x3F,
        0x00, 0xC8,
        0x00, 0xD3,
        0x00, 0x00,
        0x00, 0xD5,
        0x00, 0x80,
        0x00, 0xD9,
        0x00, 0xF1,
        0x00, 0xDA,
        0x00, 0x12,
        0x00, 0xDB,
        0x00, 0x40,
        0x00, 0x8D,
        0x00, 0x14,
        0x00, 0xA6,
        0x00, 0x20,
        0x00, 0x00,
        0x00, 0xAF,
    ]
}

/// Command that switches the panel on.
pub const DISPLAY_ON: u8 = 0xAF;

/// Command that switches the panel off.
pub const DISPLAY_OFF: u8 = 0xAE;

fn push_command(out: &mut Vec<u8>, cmd: u8)
    ensures
        final(out)@ == old(out)@ + seq![CONTROL_COMMAND, cmd],
{
    out.push(CONTROL_COMMAND);
    out.push(cmd);
    assert(final(out)@ =~= old(out)@ + seq![CONTROL_COMMAND, cmd]);
}

/// The bus write that configures the controller at start.
pub fn init_sequence() -> (r: Vec<u8>)
    ensures
        r@ == init_commands(),
{
    let mut out: Vec<u8> = Vec::new();
    push_command(&mut out, 0xAE);
    push_command(&mut out, 0x00);
    push_command(&mut out, 0x10);
    push_command(&mut out, 0x40);
    push_command(&mut out, 0xB0);
    push_command(&mut out, 0x81);
    push_command(&mut out, 0xCF);
    push_command(&mut out, 0xA1);
    push_command(&mut out, 0xA8);
    push_command(&mut out, 0x3F);
    push_command(&mut out, 0xC8);
    push_command(&mut out, 0xD3);
    push_command(&mut out, 0x00);
    push_command(&mut out, 0xD5);
    push_command(&mut out, 0x80);
    push_command(&mut out, 0xD9);
    push_command(&mut out, 0xF1);
    push_command(&mut out, 0xDA);
    push_command(&mut out, 0x12);
    push_command(&mut out, 0xDB);
    push_command(&mut out, 0x40);
    push_command(&mut out, 0x8D);
    push_command(&mut out, 0x14);
    push_command(&mut out, 0xA6);
    push_command(&mut out, 0x20);
    push_command(&mut out, 0x00);
    push_command(&mut out, DISPLAY_ON);
    assert(out@ =~= init_commands());
    out
}

/// A bus write that carries one controller command.
pub fn command(cmd: u8) -> (r: Vec<u8>)
    ensures
        r@ == seq![CONTROL_COMMAND, cmd],
{
    let mut out: Vec<u8> = Vec::new();
    push_command(&mut out, cmd);
    assert(out@ =~= seq![CONTROL_COMMAND, cmd]);
    out
}

/// The writes of a session's start: the configuration, then the first frame.
pub open spec fn startup(fb: &Framebuffer) -> Seq<Seq<u8>> {
    seq![init_commands()] + frame_writes(fb)
}

/// The writes of one render: the panel is switched on, then the frame
/// follows.
pub open spec fn render(fb: &Framebuffer) -> Seq<Seq<u8>> {
    seq![seq![CONTROL_COMMAND, DISPLAY_ON]] + frame_writes(fb)
}

fn prepend(first: Vec<u8>, rest: Vec<Vec<u8>>) -> (r: Vec<Vec<u8>>)
    ensures
        views(r@) == seq![first@] + views(rest@),
{
    let ghost f = first@;
    let ghost r0 = rest@;
    let mut rest = rest;
    let mut out: Vec<Vec<u8>> = Vec::new();
    out.push(first);
    out.append(&mut rest);
    assert(views(out@) =~= seq![f] + views(r0));
    out
}

/// The writes that start the panel and show `fb` on it.
pub fn startup_writes(fb: &Framebuffer) -> (r: Vec<Vec<u8>>)
    requires
        fb.wf(),
    ensures
        views(r@) == startup(fb),
{
    prepend(init_sequence(), encode_frame(fb))
}

/// The writes that show `fb` on a panel that was started already.
pub fn render_writes(fb: &Framebuffer) -> (r: Vec<Vec<u8>>)
    requires
        fb.wf(),
    ensures
        views(r@) == render(fb),
{
    prepend(command(DISPLAY_ON), encode_frame(fb))
}

/// The start of a session sends the same configuration, in the same order,
/// whatever frame is shown after it; the frame follows unchanged.
pub proof fn lemma_init_independent_of_frame(a: &Framebuffer, b: &Framebuffer)
    ensures
        startup(a)[0] == init_commands(),
        startup(a)[0] == startup(b)[0],
        startup(a).skip(1) == frame_writes(a),
{
    assert(startup(a).skip(1) =~= frame_writes(a));
}

} // verus!
