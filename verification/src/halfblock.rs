//! Halfblock encoder — encodes NES frames as ANSI halfblock characters
//! (▀, U+2580).
//!
//! Each terminal cell covers 2 vertical NES pixels: the foreground colour is
//! the top pixel, the background colour the bottom pixel. After the first
//! frame only the cells that changed since the previous frame are emitted.

use vstd::prelude::*;
use crate::frame::{pixel_offset, Frame, BPP, HEIGHT, WIDTH};
use crate::render::Renderer;
use crate::text::{dec_bytes, lemma_dec_bytes_are_digits, push_decimal};

verus! {

/// Terminal rows used by a frame: two pixel rows per terminal row.
pub const ROW_PAIRS: usize = HEIGHT / 2;
/// Cells in a frame.
pub const CELL_COUNT: usize = ROW_PAIRS * WIDTH;

/// The colours of one terminal cell: foreground = top pixel, background =
/// bottom pixel.
#[derive(Clone, Copy, Debug, PartialEq, Eq, Structural)]
pub struct Cell {
    pub top_r: u8,
    pub top_g: u8,
    pub top_b: u8,
    pub bottom_r: u8,
    pub bottom_g: u8,
    pub bottom_b: u8,
}

/// The cell in terminal row `ry`, column `x`: pixel `(x, 2 * ry)` on top,
/// pixel `(x, 2 * ry + 1)` below.
pub open spec fn cell_at(px: Seq<u8>, ry: int, x: int) -> Cell {
    let top = pixel_offset(x, 2 * ry);
    let bot = pixel_offset(x, 2 * ry + 1);
    Cell {
        top_r: px[top],
        top_g: px[top + 1],
        top_b: px[top + 2],
        bottom_r: px[bot],
        bottom_g: px[bot + 1],
        bottom_b: px[bot + 2],
    }
}

/// All cells of a frame, row by row: cell `ry * WIDTH + x` is `cell_at(px, ry, x)`.
pub open spec fn frame_cells(px: Seq<u8>) -> Seq<Cell> {
    Seq::new(CELL_COUNT as nat, |i: int| cell_at(px, i / WIDTH as int, i % WIDTH as int))
}

/// Whether cell `idx` has to be painted: always on the first draw, and
/// afterwards when it differs from the remembered frame's cell (cells beyond
/// the end of a shorter remembered sequence count as different).
pub open spec fn is_changed(cur: Seq<Cell>, prev: Option<Seq<Cell>>, idx: int) -> bool {
    match prev {
        None => true,
        Some(p) => idx >= p.len() || p[idx] != cur[idx],
    }
}

pub open spec fn esc_bracket() -> Seq<u8> {
    seq![27u8, 91u8]
}

/// `ESC [ row ; col H`: move the cursor (1-based).
pub open spec fn cursor_bytes(row: nat, col: nat) -> Seq<u8> {
    esc_bracket() + dec_bytes(row) + seq![59u8] + dec_bytes(col) + seq![72u8]
}

/// `ESC [ <kind> 8 ; 2 ; r ; g ; b m`: 24-bit colour, `kind` = `3`
/// (foreground) or `4` (background).
pub open spec fn color_bytes(kind: u8, r: u8, g: u8, b: u8) -> Seq<u8> {
    esc_bracket() + seq![kind, 56u8, 59u8, 50u8, 59u8] + dec_bytes(r as nat) + seq![59u8]
        + dec_bytes(g as nat) + seq![59u8] + dec_bytes(b as nat) + seq![109u8]
}

/// The UTF-8 encoding of `▀`.
pub open spec fn halfblock_bytes() -> Seq<u8> {
    seq![0xe2u8, 0x96u8, 0x80u8]
}

/// `ESC [ 0 m`: reset all attributes.
pub open spec fn reset_bytes() -> Seq<u8> {
    seq![27u8, 91u8, 48u8, 109u8]
}

/// One painted cell: foreground and background colour, then `▀`.
pub open spec fn cell_bytes(c: Cell) -> Seq<u8> {
    color_bytes(51u8, c.top_r, c.top_g, c.top_b) + color_bytes(52u8, c.bottom_r, c.bottom_g, c.bottom_b)
        + halfblock_bytes()
}

/// What cell `(ry, x)` contributes: nothing when unchanged; otherwise its
/// bytes, preceded by a cursor move when it starts a row or follows a
/// skipped cell.
pub open spec fn cell_output(cur: Seq<Cell>, prev: Option<Seq<Cell>>, ry: int, x: int) -> Seq<u8> {
    let idx = ry * WIDTH + x;
    if !is_changed(cur, prev, idx) {
        Seq::empty()
    } else if x == 0 || !is_changed(cur, prev, idx - 1) {
        cursor_bytes((ry + 1) as nat, (x + 1) as nat) + cell_bytes(cur[idx])
    } else {
        cell_bytes(cur[idx])
    }
}

/// Output of the first `n` cells of terminal row `ry`.
pub open spec fn row_output(cur: Seq<Cell>, prev: Option<Seq<Cell>>, ry: int, n: int) -> Seq<u8>
    decreases n,
{
    if n <= 0 {
        Seq::empty()
    } else {
        row_output(cur, prev, ry, n - 1) + cell_output(cur, prev, ry, n - 1)
    }
}

/// Output of the first `m` terminal rows.
pub open spec fn rows_output(cur: Seq<Cell>, prev: Option<Seq<Cell>>, m: int) -> Seq<u8>
    decreases m,
{
    if m <= 0 {
        Seq::empty()
    } else {
        rows_output(cur, prev, m - 1) + row_output(cur, prev, m - 1, WIDTH as int)
    }
}

/// Everything one draw emits: the rows, then an attribute reset.
pub open spec fn frame_output(cur: Seq<Cell>, prev: Option<Seq<Cell>>) -> Seq<u8> {
    rows_output(cur, prev, ROW_PAIRS as int) + reset_bytes()
}

/// A NES frame rendered as halfblock characters into a byte sink `out`.
/// Remembers the cells of the last frame it encoded, so that the next frame
/// only repaints what changed.
pub struct HalfblockRenderer<W> {
    pub out: W,
    /// The frame that the next encoding is relative to.
    pub memory: FrameMemory,
}

/// The cells of the frame last sent to the terminal.
pub struct FrameMemory {
    /// Previous frame's cells, indexed by `row_pair * WIDTH + x`.
    /// `None` until first draw — first draw paints everything.
    prev: Option<Vec<Cell>>,
}

impl FrameMemory {
    /// The remembered cells, if any.
    pub closed spec fn cells(&self) -> Option<Seq<Cell>> {
        match self.prev {
            None => None,
            Some(v) => Some(v@),
        }
    }
}

/// The bytes that draw a frame, and the frame's cells.
pub struct EncodedFrame {
    pub bytes: Vec<u8>,
    pub cells: Vec<Cell>,
}

/// Appends the cursor move to `(row, col)`.
fn push_cursor(out: &mut Vec<u8>, row: usize, col: usize)
    ensures
        final(out)@ == old(out)@ + cursor_bytes(row as nat, col as nat),
{
    out.push(27);
    out.push(91);
    push_decimal(out, row as u64);
    out.push(59);
    push_decimal(out, col as u64);
    out.push(72);
    assert(final(out)@ =~= old(out)@ + cursor_bytes(row as nat, col as nat));
}

/// Appends a 24-bit colour escape.
fn push_color(out: &mut Vec<u8>, kind: u8, r: u8, g: u8, b: u8)
    ensures
        final(out)@ == old(out)@ + color_bytes(kind, r, g, b),
{
    out.push(27);
    out.push(91);
    out.push(kind);
    out.push(56);
    out.push(59);
    out.push(50);
    out.push(59);
    push_decimal(out, r as u64);
    out.push(59);
    push_decimal(out, g as u64);
    out.push(59);
    push_decimal(out, b as u64);
    out.push(109);
    assert(final(out)@ =~= old(out)@ + color_bytes(kind, r, g, b));
}

/// Appends one painted cell.
fn push_cell(out: &mut Vec<u8>, c: Cell)
    ensures
        final(out)@ == old(out)@ + cell_bytes(c),
{
    push_color(out, 51, c.top_r, c.top_g, c.top_b);
    push_color(out, 52, c.bottom_r, c.bottom_g, c.bottom_b);
    out.push(0xe2);
    out.push(0x96);
    out.push(0x80);
    assert(final(out)@ =~= old(out)@ + cell_bytes(c));
}

/// The cells of `frame`.
fn collect_cells(frame: &Frame) -> (cells: Vec<Cell>)
    ensures
        cells@ == frame_cells(frame.pixels@),
{
    let mut cells: Vec<Cell> = Vec::new();
    let mut idx: usize = 0;
    while idx < CELL_COUNT
        invariant
            idx <= CELL_COUNT,
            cells@.len() == idx,
            frame.pixels@.len() == 184320,
            forall|i: int|
                0 <= i < idx ==> #[trigger] cells@[i] == cell_at(
                    frame.pixels@,
                    i / WIDTH as int,
                    i % WIDTH as int,
                ),
        decreases CELL_COUNT - idx,
    {
        let ry = idx / WIDTH;
        let x = idx % WIDTH;
        let top = (2 * ry * WIDTH + x) * BPP;
        let bot = ((2 * ry + 1) * WIDTH + x) * BPP;
        assert(top == pixel_offset(x as int, 2 * ry as int));
        assert(bot == pixel_offset(x as int, 2 * ry + 1));
        let c = Cell {
            top_r: frame.pixels[top],
            top_g: frame.pixels[top + 1],
            top_b: frame.pixels[top + 2],
            bottom_r: frame.pixels[bot],
            bottom_g: frame.pixels[bot + 1],
            bottom_b: frame.pixels[bot + 2],
        };
        cells.push(c);
        idx = idx + 1;
    }
    assert(cells@ =~= frame_cells(frame.pixels@));
    cells
}

impl<W> HalfblockRenderer<W> {
    /// The cells of the last frame remembered, if any.
    pub open spec fn previous(&self) -> Option<Seq<Cell>> {
        self.memory.cells()
    }

    /// A renderer writing to `out` that has not drawn anything yet.
    pub fn with_writer(out: W) -> (r: Self)
        ensures
            r.out == out,
            r.previous() is None,
    {
        HalfblockRenderer { out, memory: FrameMemory { prev: None } }
    }

    /// Whether cell `idx` has to be painted for `cur`.
    fn cell_changed(&self, cur: &Vec<Cell>, idx: usize) -> (b: bool)
        requires
            idx < cur@.len(),
        ensures
            b == is_changed(cur@, self.previous(), idx as int),
    {
        match &self.memory.prev {
            None => true,
            Some(p) => idx >= p.len() || p[idx] != cur[idx],
        }
    }

    /// Encodes `frame` as the bytes to send to the terminal, relative to the
    /// frame remembered last. The result also carries the frame's cells, to
    /// be remembered with [`Self::remember`] once the bytes were sent.
    pub fn encode_frame(&self, frame: &Frame) -> (e: EncodedFrame)
        ensures
            e.bytes@ == frame_output(frame_cells(frame.pixels@), self.previous()),
            e.cells@ == frame_cells(frame.pixels@),
    {
        let current = collect_cells(frame);
        let ghost cur = current@;
        let ghost prev = self.previous();
        let mut out: Vec<u8> = Vec::new();
        let mut ry: usize = 0;
        while ry < ROW_PAIRS
            invariant
                ry <= ROW_PAIRS,
                current@ == cur,
                cur.len() == CELL_COUNT,
                self.previous() == prev,
                out@ == rows_output(cur, prev, ry as int),
            decreases ROW_PAIRS - ry,
        {
            // The x of the last cell painted in this row, when it is the cell
            // just before the current one: then no cursor move is needed.
            let mut last_drawn_x: Option<usize> = None;
            let mut x: usize = 0;
            while x < WIDTH
                invariant
                    ry < ROW_PAIRS,
                    x <= WIDTH,
                    current@ == cur,
                    cur.len() == CELL_COUNT,
                    self.previous() == prev,
                    out@ == rows_output(cur, prev, ry as int) + row_output(
                        cur,
                        prev,
                        ry as int,
                        x as int,
                    ),
                    last_drawn_x == (if x > 0 && is_changed(cur, prev, ry * WIDTH + x - 1) {
                        Some((x - 1) as usize)
                    } else {
                        None::<usize>
                    }),
                decreases WIDTH - x,
            {
                let idx = ry * WIDTH + x;
                let changed = self.cell_changed(&current, idx);
                let ghost before = out@;
                if changed {
                    let need_cursor = match last_drawn_x {
                        None => true,
                        Some(lx) => x == 0 || lx != x - 1,
                    };
                    if need_cursor {
                        push_cursor(&mut out, ry + 1, x + 1);
                    }
                    push_cell(&mut out, current[idx]);
                    last_drawn_x = Some(x);
                } else {
                    last_drawn_x = None;
                }
                assert(out@ =~= before + cell_output(cur, prev, ry as int, x as int));
                x = x + 1;
            }
            ry = ry + 1;
        }
        out.push(27);
        out.push(91);
        out.push(48);
        out.push(109);
        assert(out@ =~= frame_output(cur, prev));
        EncodedFrame { bytes: out, cells: current }
    }

    /// Makes `cells` the frame that the next encoding is relative to.
    pub fn remember(&mut self, cells: Vec<Cell>)
        ensures
            final(self).previous() == Some(cells@),
            final(self).out == old(self).out,
    {
        self.memory = FrameMemory { prev: Some(cells) };
    }
}

impl Renderer for HalfblockRenderer<Vec<u8>> {
    /// A byte sink has no terminal state to change.
    fn enter(&mut self) -> (r: Result<(), std::io::Error>)
        ensures
            r is Ok,
            final(self).out@ == old(self).out@,
            final(self).previous() == old(self).previous(),
    {
        Ok(())
    }

    /// Appends the encoding of `frame` to the sink.
    fn draw(&mut self, frame: &Frame) -> (r: Result<(), std::io::Error>)
        ensures
            r is Ok,
            final(self).out@ == old(self).out@ + frame_output(
                frame_cells(frame.pixels@),
                old(self).previous(),
            ),
            final(self).previous() == Some(frame_cells(frame.pixels@)),
    {
        let encoded = self.encode_frame(frame);
        let mut bytes = encoded.bytes;
        self.out.append(&mut bytes);
        self.remember(encoded.cells);
        Ok(())
    }

    /// A byte sink has no terminal state to restore.
    fn leave(&mut self) -> (r: Result<(), std::io::Error>)
        ensures
            r is Ok,
            final(self).out@ == old(self).out@,
            final(self).previous() == old(self).previous(),
    {
        Ok(())
    }
}


/// How many times `b` occurs in `s`.
pub open spec fn count_byte(s: Seq<u8>, b: u8) -> nat
    decreases s.len(),
{
    if s.len() == 0 {
        0
    } else {
        count_byte(s.drop_last(), b) + if s.last() == b {
            1nat
        } else {
            0nat
        }
    }
}

/// How many of the cells `0..n` have to be painted.
pub open spec fn changed_count(cur: Seq<Cell>, prev: Option<Seq<Cell>>, n: int) -> nat
    decreases n,
{
    if n <= 0 {
        0
    } else {
        changed_count(cur, prev, n - 1) + if is_changed(cur, prev, n - 1) {
            1nat
        } else {
            0nat
        }
    }
}

proof fn lemma_count_concat(a: Seq<u8>, c: Seq<u8>, b: u8)
    ensures
        count_byte(a + c, b) == count_byte(a, b) + count_byte(c, b),
    decreases c.len(),
{
    if c.len() > 0 {
        lemma_count_concat(a, c.drop_last(), b);
        assert((a + c).drop_last() =~= a + c.drop_last());
    }
}

proof fn lemma_count_absent(s: Seq<u8>, b: u8)
    requires
        forall|i: int| 0 <= i < s.len() ==> #[trigger] s[i] != b,
    ensures
        count_byte(s, b) == 0,
    decreases s.len(),
{
    if s.len() > 0 {
        lemma_count_absent(s.drop_last(), b);
    }
}

proof fn lemma_dec_bytes_no_lead(n: nat)
    ensures
        count_byte(dec_bytes(n), 0xe2u8) == 0,
{
    lemma_dec_bytes_are_digits(n);
    lemma_count_absent(dec_bytes(n), 0xe2u8);
}

proof fn lemma_cursor_count(row: nat, col: nat)
    ensures
        count_byte(cursor_bytes(row, col), 0xe2u8) == 0,
{
    lemma_dec_bytes_no_lead(row);
    lemma_dec_bytes_no_lead(col);
    lemma_count_concat(esc_bracket(), dec_bytes(row), 0xe2u8);
    lemma_count_concat(esc_bracket() + dec_bytes(row), seq![59u8], 0xe2u8);
    lemma_count_concat(esc_bracket() + dec_bytes(row) + seq![59u8], dec_bytes(col), 0xe2u8);
    lemma_count_concat(
        esc_bracket() + dec_bytes(row) + seq![59u8] + dec_bytes(col),
        seq![72u8],
        0xe2u8,
    );
    lemma_count_absent(esc_bracket(), 0xe2u8);
    lemma_count_absent(seq![59u8], 0xe2u8);
    lemma_count_absent(seq![72u8], 0xe2u8);
}

proof fn lemma_color_count(kind: u8, r: u8, g: u8, b: u8)
    requires
        kind < 128,
    ensures
        count_byte(color_bytes(kind, r, g, b), 0xe2u8) == 0,
{
    let p0 = esc_bracket();
    let p1 = seq![kind, 56u8, 59u8, 50u8, 59u8];
    let semi = seq![59u8];
    let m = seq![109u8];
    lemma_dec_bytes_no_lead(r as nat);
    lemma_dec_bytes_no_lead(g as nat);
    lemma_dec_bytes_no_lead(b as nat);
    lemma_count_absent(p0, 0xe2u8);
    lemma_count_absent(p1, 0xe2u8);
    lemma_count_absent(semi, 0xe2u8);
    lemma_count_absent(m, 0xe2u8);
    lemma_count_concat(p0, p1, 0xe2u8);
    lemma_count_concat(p0 + p1, dec_bytes(r as nat), 0xe2u8);
    lemma_count_concat(p0 + p1 + dec_bytes(r as nat), semi, 0xe2u8);
    lemma_count_concat(p0 + p1 + dec_bytes(r as nat) + semi, dec_bytes(g as nat), 0xe2u8);
    lemma_count_concat(p0 + p1 + dec_bytes(r as nat) + semi + dec_bytes(g as nat), semi, 0xe2u8);
    lemma_count_concat(
        p0 + p1 + dec_bytes(r as nat) + semi + dec_bytes(g as nat) + semi,
        dec_bytes(b as nat),
        0xe2u8,
    );
    lemma_count_concat(
        p0 + p1 + dec_bytes(r as nat) + semi + dec_bytes(g as nat) + semi + dec_bytes(b as nat),
        m,
        0xe2u8,
    );
}

proof fn lemma_cell_count(c: Cell)
    ensures
        count_byte(cell_bytes(c), 0xe2u8) == 1,
{
    let fg = color_bytes(51u8, c.top_r, c.top_g, c.top_b);
    let bg = color_bytes(52u8, c.bottom_r, c.bottom_g, c.bottom_b);
    lemma_color_count(51u8, c.top_r, c.top_g, c.top_b);
    lemma_color_count(52u8, c.bottom_r, c.bottom_g, c.bottom_b);
    lemma_count_concat(fg, bg, 0xe2u8);
    lemma_count_concat(fg + bg, halfblock_bytes(), 0xe2u8);
    reveal_with_fuel(count_byte, 4);
    assert(halfblock_bytes().drop_last() =~= seq![0xe2u8, 0x96u8]);
    assert(halfblock_bytes().drop_last().drop_last() =~= seq![0xe2u8]);
    assert(halfblock_bytes().drop_last().drop_last().drop_last() =~= Seq::<u8>::empty());
}

proof fn lemma_cell_output_count(cur: Seq<Cell>, prev: Option<Seq<Cell>>, ry: int, x: int)
    requires
        0 <= ry,
        0 <= x,
    ensures
        count_byte(cell_output(cur, prev, ry, x), 0xe2u8) == if is_changed(cur, prev, ry * WIDTH + x) {
            1nat
        } else {
            0nat
        },
{
    let idx = ry * WIDTH + x;
    if is_changed(cur, prev, idx) {
        lemma_cell_count(cur[idx]);
        if x == 0 || !is_changed(cur, prev, idx - 1) {
            lemma_cursor_count((ry + 1) as nat, (x + 1) as nat);
            lemma_count_concat(cursor_bytes((ry + 1) as nat, (x + 1) as nat), cell_bytes(cur[idx]), 0xe2u8);
        }
    } else {
        lemma_count_absent(Seq::<u8>::empty(), 0xe2u8);
    }
}

proof fn lemma_row_count(cur: Seq<Cell>, prev: Option<Seq<Cell>>, ry: int, n: int)
    requires
        0 <= ry,
        0 <= n <= WIDTH,
    ensures
        count_byte(row_output(cur, prev, ry, n), 0xe2u8) + changed_count(cur, prev, ry * WIDTH)
            == changed_count(cur, prev, ry * WIDTH + n),
    decreases n,
{
    if n == 0 {
        lemma_count_absent(Seq::<u8>::empty(), 0xe2u8);
    } else {
        lemma_row_count(cur, prev, ry, n - 1);
        lemma_cell_output_count(cur, prev, ry, n - 1);
        lemma_count_concat(row_output(cur, prev, ry, n - 1), cell_output(cur, prev, ry, n - 1), 0xe2u8);
    }
}

proof fn lemma_rows_count(cur: Seq<Cell>, prev: Option<Seq<Cell>>, m: int)
    requires
        0 <= m,
    ensures
        count_byte(rows_output(cur, prev, m), 0xe2u8) == changed_count(cur, prev, m * WIDTH),
    decreases m,
{
    if m == 0 {
        lemma_count_absent(Seq::<u8>::empty(), 0xe2u8);
    } else {
        lemma_rows_count(cur, prev, m - 1);
        lemma_row_count(cur, prev, m - 1, WIDTH as int);
        lemma_count_concat(rows_output(cur, prev, m - 1), row_output(cur, prev, m - 1, WIDTH as int), 0xe2u8);
        assert((m - 1) * WIDTH + WIDTH == m * WIDTH);
    }
}

/// The UTF-8 lead byte of `▀` (0xE2) occurs in a draw's output exactly once
/// per painted cell — escapes and digits are ASCII — and the painted cells
/// are exactly the changed ones.
pub proof fn lemma_halfblocks_match_changed_cells(cur: Seq<Cell>, prev: Option<Seq<Cell>>)
    ensures
        count_byte(frame_output(cur, prev), 0xe2u8) == changed_count(cur, prev, CELL_COUNT as int),
{
    lemma_rows_count(cur, prev, ROW_PAIRS as int);
    lemma_count_absent(reset_bytes(), 0xe2u8);
    lemma_count_concat(rows_output(cur, prev, ROW_PAIRS as int), reset_bytes(), 0xe2u8);
}

/// The first draw paints every cell: `▀` occurs `WIDTH * HEIGHT / 2` times.
pub proof fn lemma_first_draw_paints_every_cell(cur: Seq<Cell>)
    ensures
        count_byte(frame_output(cur, None), 0xe2u8) == CELL_COUNT,
{
    lemma_halfblocks_match_changed_cells(cur, None);
    lemma_all_changed(cur, CELL_COUNT as int);
}

proof fn lemma_all_changed(cur: Seq<Cell>, n: int)
    requires
        0 <= n,
    ensures
        changed_count(cur, None, n) == n,
    decreases n,
{
    if n > 0 {
        lemma_all_changed(cur, n - 1);
    }
}

proof fn lemma_none_changed_rows(cur: Seq<Cell>, m: int)
    requires
        0 <= m <= ROW_PAIRS,
        cur.len() == CELL_COUNT,
    ensures
        rows_output(cur, Some(cur), m) == Seq::<u8>::empty(),
    decreases m,
{
    if m > 0 {
        lemma_none_changed_rows(cur, m - 1);
        lemma_none_changed_row(cur, m - 1, WIDTH as int);
        assert(rows_output(cur, Some(cur), m) =~= Seq::<u8>::empty());
    }
}

proof fn lemma_none_changed_row(cur: Seq<Cell>, ry: int, n: int)
    requires
        0 <= ry < ROW_PAIRS,
        0 <= n <= WIDTH,
        cur.len() == CELL_COUNT,
    ensures
        row_output(cur, Some(cur), ry, n) == Seq::<u8>::empty(),
    decreases n,
{
    if n > 0 {
        lemma_none_changed_row(cur, ry, n - 1);
        assert(ry * WIDTH + n - 1 < CELL_COUNT);
        assert(row_output(cur, Some(cur), ry, n) =~= Seq::<u8>::empty());
    }
}

/// Drawing the same frame again emits nothing but the attribute reset.
pub proof fn lemma_identical_redraw_is_reset_only(cur: Seq<Cell>)
    requires
        cur.len() == CELL_COUNT,
    ensures
        frame_output(cur, Some(cur)) == reset_bytes(),
{
    lemma_none_changed_rows(cur, ROW_PAIRS as int);
    assert(frame_output(cur, Some(cur)) =~= reset_bytes());
}

/// When exactly one cell differs from the previous frame, one halfblock is
/// emitted.
pub proof fn lemma_single_change_paints_one_cell(cur: Seq<Cell>, prev: Seq<Cell>, k: int)
    requires
        cur.len() == CELL_COUNT,
        prev.len() == CELL_COUNT,
        0 <= k < CELL_COUNT,
        forall|i: int| 0 <= i < CELL_COUNT && i != k ==> prev[i] == cur[i],
        prev[k] != cur[k],
    ensures
        count_byte(frame_output(cur, Some(prev)), 0xe2u8) == 1,
{
    lemma_halfblocks_match_changed_cells(cur, Some(prev));
    lemma_single_changed_count(cur, prev, k, CELL_COUNT as int);
}

proof fn lemma_single_changed_count(cur: Seq<Cell>, prev: Seq<Cell>, k: int, n: int)
    requires
        cur.len() == CELL_COUNT,
        prev.len() == CELL_COUNT,
        0 <= k < CELL_COUNT,
        0 <= n <= CELL_COUNT,
        forall|i: int| 0 <= i < CELL_COUNT && i != k ==> prev[i] == cur[i],
        prev[k] != cur[k],
    ensures
        changed_count(cur, Some(prev), n) == if n > k {
            1nat
        } else {
            0nat
        },
    decreases n,
{
    if n > 0 {
        lemma_single_changed_count(cur, prev, k, n - 1);
    }
}


/// The bytes of cells `a..b` of terminal row `ry`, back to back.
pub open spec fn cells_bytes(cur: Seq<Cell>, ry: int, a: int, b: int) -> Seq<u8>
    decreases b - a,
{
    if b <= a {
        Seq::empty()
    } else {
        cells_bytes(cur, ry, a, b - 1) + cell_bytes(cur[ry * WIDTH + b - 1])
    }
}

/// A row is written run by run: an unchanged cell adds nothing, and a
/// maximal run `a..=b` of changed cells (one that starts the row or follows
/// an unchanged cell) adds one cursor move to `(ry + 1, a + 1)` followed by
/// the bytes of its cells, in order.
pub proof fn lemma_row_is_written_by_runs(
    cur: Seq<Cell>,
    prev: Option<Seq<Cell>>,
    ry: int,
    a: int,
    b: int,
)
    requires
        0 <= ry,
        0 <= a <= b < WIDTH,
        forall|x: int| a <= x <= b ==> #[trigger] is_changed(cur, prev, ry * WIDTH + x),
        a == 0 || !is_changed(cur, prev, ry * WIDTH + a - 1),
    ensures
        row_output(cur, prev, ry, b + 1) == row_output(cur, prev, ry, a) + cursor_bytes(
            (ry + 1) as nat,
            (a + 1) as nat,
        ) + cells_bytes(cur, ry, a, b + 1),
    decreases b - a,
{
    assert(is_changed(cur, prev, ry * WIDTH + b));
    if b == a {
        assert(cells_bytes(cur, ry, a, a) =~= Seq::<u8>::empty());
        assert(row_output(cur, prev, ry, b + 1) =~= row_output(cur, prev, ry, a) + cursor_bytes(
            (ry + 1) as nat,
            (a + 1) as nat,
        ) + cells_bytes(cur, ry, a, b + 1));
    } else {
        lemma_row_is_written_by_runs(cur, prev, ry, a, b - 1);
        assert(is_changed(cur, prev, ry * WIDTH + b - 1));
        assert(row_output(cur, prev, ry, b + 1) =~= row_output(cur, prev, ry, a) + cursor_bytes(
            (ry + 1) as nat,
            (a + 1) as nat,
        ) + cells_bytes(cur, ry, a, b + 1));
    }
}

/// An unchanged cell adds nothing to its row.
pub proof fn lemma_unchanged_cell_adds_nothing(cur: Seq<Cell>, prev: Option<Seq<Cell>>, ry: int, x: int)
    requires
        0 <= x,
        !is_changed(cur, prev, ry * WIDTH + x),
    ensures
        row_output(cur, prev, ry, x + 1) == row_output(cur, prev, ry, x),
{
    assert(row_output(cur, prev, ry, x + 1) =~= row_output(cur, prev, ry, x));
}


/// Which pixels a cell shows: cell `256 * ry + x` of a frame (`ry < 120`,
/// `x < 256`) has as foreground the RGB bytes at `1536 * ry + 3 * x` (pixel
/// `(x, 2 * ry)`) and as background those 768 bytes further on (pixel
/// `(x, 2 * ry + 1)`, the next pixel row); a frame has 30720 cells.
pub proof fn lemma_cell_shows_two_pixels(px: Seq<u8>, ry: int, x: int)
    requires
        0 <= ry < 120,
        0 <= x < 256,
    ensures
        frame_cells(px).len() == 30720,
        frame_cells(px)[256 * ry + x] == (Cell {
            top_r: px[1536 * ry + 3 * x],
            top_g: px[1536 * ry + 3 * x + 1],
            top_b: px[1536 * ry + 3 * x + 2],
            bottom_r: px[1536 * ry + 768 + 3 * x],
            bottom_g: px[1536 * ry + 768 + 3 * x + 1],
            bottom_b: px[1536 * ry + 768 + 3 * x + 2],
        }),
{
    let i = 256 * ry + x;
    assert(i / 256 == ry && i % 256 == x) by {
        assert(i == ry * 256 + x);
    }
}

/// The escapes, byte by byte: a cursor move is `ESC [ row ; col H`; a cell
/// is the foreground colour escape (kind `3`, byte 51) of the top pixel, the
/// background colour escape (kind `4`, byte 52) of the bottom pixel, then
/// `▀` (E2 96 80); the reset is `ESC [ 0 m`. Numbers are decimal numerals
/// (see `lemma_dec_bytes_is_numeral`).
pub proof fn lemma_escape_bytes(c: Cell, row: nat, col: nat)
    ensures
        cursor_bytes(row, col) == seq![27u8, 91u8] + dec_bytes(row) + seq![59u8] + dec_bytes(col)
            + seq![72u8],
        cell_bytes(c) == color_bytes(51u8, c.top_r, c.top_g, c.top_b) + color_bytes(
            52u8,
            c.bottom_r,
            c.bottom_g,
            c.bottom_b,
        ) + seq![0xe2u8, 0x96u8, 0x80u8],
        reset_bytes() == seq![27u8, 91u8, 48u8, 109u8],
{
}

/// A colour escape, byte by byte: `ESC [ kind 8 ; 2 ; r ; g ; b m`.
pub proof fn lemma_color_escape_bytes(kind: u8, r: u8, g: u8, b: u8)
    ensures
        color_bytes(kind, r, g, b) == seq![27u8, 91u8, kind, 56u8, 59u8, 50u8, 59u8] + dec_bytes(
            r as nat,
        ) + seq![59u8] + dec_bytes(g as nat) + seq![59u8] + dec_bytes(b as nat) + seq![109u8],
{
    assert(esc_bracket() + seq![kind, 56u8, 59u8, 50u8, 59u8] =~= seq![
        27u8,
        91u8,
        kind,
        56u8,
        59u8,
        50u8,
        59u8,
    ]);
}

proof fn lemma_single_change_row(cur: Seq<Cell>, prev: Seq<Cell>, k: int, ry: int, n: int)
    requires
        cur.len() == CELL_COUNT,
        prev.len() == CELL_COUNT,
        0 <= k < CELL_COUNT,
        forall|i: int| 0 <= i < CELL_COUNT && i != k ==> prev[i] == cur[i],
        prev[k] != cur[k],
        0 <= ry < ROW_PAIRS,
        0 <= n <= WIDTH,
    ensures
        row_output(cur, Some(prev), ry, n) == if ry == k / 256 && n > k % 256 {
            cell_output(cur, Some(prev), ry, k % 256)
        } else {
            Seq::<u8>::empty()
        },
    decreases n,
{
    if n > 0 {
        lemma_single_change_row(cur, prev, k, ry, n - 1);
        let idx = ry * WIDTH + n - 1;
        assert(k == (k / 256) * 256 + k % 256);
        if idx != k {
            assert(!is_changed(cur, Some(prev), idx));
            assert(cell_output(cur, Some(prev), ry, n - 1) =~= Seq::<u8>::empty());
        }
        assert(row_output(cur, Some(prev), ry, n) =~= (if ry == k / 256 && n > k % 256 {
            cell_output(cur, Some(prev), ry, k % 256)
        } else {
            Seq::<u8>::empty()
        }));
    }
}

proof fn lemma_single_change_rows(cur: Seq<Cell>, prev: Seq<Cell>, k: int, m: int)
    requires
        cur.len() == CELL_COUNT,
        prev.len() == CELL_COUNT,
        0 <= k < CELL_COUNT,
        forall|i: int| 0 <= i < CELL_COUNT && i != k ==> prev[i] == cur[i],
        prev[k] != cur[k],
        0 <= m <= ROW_PAIRS,
    ensures
        rows_output(cur, Some(prev), m) == if m > k / 256 {
            cell_output(cur, Some(prev), k / 256, k % 256)
        } else {
            Seq::<u8>::empty()
        },
    decreases m,
{
    if m > 0 {
        lemma_single_change_rows(cur, prev, k, m - 1);
        lemma_single_change_row(cur, prev, k, m - 1, WIDTH as int);
        assert(rows_output(cur, Some(prev), m) =~= (if m > k / 256 {
            cell_output(cur, Some(prev), k / 256, k % 256)
        } else {
            Seq::<u8>::empty()
        }));
    }
}

/// When exactly cell `k` differs from the remembered frame, a draw writes a
/// cursor move to that cell — row `k / 256 + 1`, column `k % 256 + 1` — its
/// bytes, and the reset, and nothing else.
pub proof fn lemma_single_change_output(cur: Seq<Cell>, prev: Seq<Cell>, k: int)
    requires
        cur.len() == CELL_COUNT,
        prev.len() == CELL_COUNT,
        0 <= k < CELL_COUNT,
        forall|i: int| 0 <= i < CELL_COUNT && i != k ==> prev[i] == cur[i],
        prev[k] != cur[k],
    ensures
        frame_output(cur, Some(prev)) == cursor_bytes((k / 256 + 1) as nat, (k % 256 + 1) as nat)
            + cell_bytes(cur[k]) + reset_bytes(),
{
    lemma_single_change_rows(cur, prev, k, ROW_PAIRS as int);
    assert(k == (k / 256) * 256 + k % 256);
    if k % 256 != 0 {
        assert(!is_changed(cur, Some(prev), k - 1));
    }
    assert(frame_output(cur, Some(prev)) =~= cursor_bytes(
        (k / 256 + 1) as nat,
        (k % 256 + 1) as nat,
    ) + cell_bytes(cur[k]) + reset_bytes());
}

} // verus!
