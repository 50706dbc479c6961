//! Mapping of the byte buffer onto the 16-column grid, and the status line,
//! as a sequence of draw commands for a terminal.

use vstd::prelude::*;
use crate::classify::{byte_is_graphic, category_of, color_of, get_color_by_category, is_graphic, Paint};
use crate::navigation::{rows_for_height, step, Command, DisplayMode, NavigationState};
use crate::text::{
    all_ascii, ascii_chars, decimal_digit_count, decimal_width, digit_byte, digit_of, digits,
    hex_field, hex_padded, lemma_digits_ascii, lemma_padded_ascii, pad_left, padded,
    radix_digits, text_from_ascii,
};

verus! {

/// Screen columns from one cell to the next.
pub const CELL_STRIDE: u16 = 4;

/// Screen column of the percentage field.
pub const PERCENTAGE_POSITION: u16 = 55;

/// One instruction to the terminal.
#[derive(Debug, PartialEq, Eq)]
pub enum DrawCommand {
    /// Put the cursor at this column and row.
    MoveTo(u16, u16),
    SetForeground(Paint),
    SetBackground(Paint),
    /// Write this text at the cursor.
    Print(String),
    /// Back to the terminal's default colours.
    ResetColor,
}

/// A draw command with its text as a sequence of characters.
pub enum DrawOp {
    MoveTo(u16, u16),
    SetForeground(Paint),
    SetBackground(Paint),
    Print(Seq<char>),
    ResetColor,
}

impl View for DrawCommand {
    type V = DrawOp;

    open spec fn view(&self) -> DrawOp {
        match *self {
            DrawCommand::MoveTo(column, row) => DrawOp::MoveTo(column, row),
            DrawCommand::SetForeground(paint) => DrawOp::SetForeground(paint),
            DrawCommand::SetBackground(paint) => DrawOp::SetBackground(paint),
            DrawCommand::Print(text) => DrawOp::Print(text@),
            DrawCommand::ResetColor => DrawOp::ResetColor,
        }
    }
}

/// The views of a sequence of draw commands.
pub open spec fn ops_of(cmds: Seq<DrawCommand>) -> Seq<DrawOp> {
    Seq::new(cmds.len(), |i: int| cmds[i]@)
}

/// A cell past the end of the buffer: two spaces.
pub open spec fn blank_glyph() -> Seq<u8> {
    seq![32u8, 32u8]
}

/// A byte in hexadecimal mode: two lowercase digits, zero-padded.
pub open spec fn hex_glyph(byte: u8) -> Seq<u8> {
    hex_field(byte as nat, 2)
}

/// A byte in character mode: the character itself when it is printable, else
/// a space, followed by one space that fills the two-character field.
pub open spec fn char_glyph(byte: u8) -> Seq<u8> {
    seq![if is_graphic(byte) { byte } else { 32u8 }, 32u8]
}

/// The commands for the `k`-th cell of the grid, counted row by row from the
/// top left: the byte at `offset + k`, or a blank past the end of the buffer.
pub open spec fn cell_ops(buf: Seq<u8>, offset: nat, mode: DisplayMode, k: nat) -> Seq<DrawOp> {
    let at = DrawOp::MoveTo((4 * (k % 16)) as u16, (k / 16) as u16);
    let i = offset + k;
    if i >= buf.len() {
        seq![at, DrawOp::Print(ascii_chars(blank_glyph()))]
    } else {
        match mode {
            DisplayMode::Hex => seq![
                at,
                DrawOp::SetForeground(color_of(category_of(buf[i as int]))),
                DrawOp::Print(ascii_chars(hex_glyph(buf[i as int]))),
            ],
            DisplayMode::Char => seq![at, DrawOp::Print(ascii_chars(char_glyph(buf[i as int])))],
        }
    }
}

/// The commands for the first `cells` cells of the grid, after the cursor
/// was put in the top-left corner.
pub open spec fn grid_ops(buf: Seq<u8>, offset: nat, mode: DisplayMode, cells: nat) -> Seq<DrawOp>
    decreases cells,
{
    if cells == 0 {
        seq![DrawOp::MoveTo(0, 0)]
    } else {
        grid_ops(buf, offset, mode, (cells - 1) as nat) + cell_ops(
            buf,
            offset,
            mode,
            (cells - 1) as nat,
        )
    }
}

/// Index just past the last cell of a frame: `offset + 16 * rows`, whether
/// or not the buffer reaches that far.
pub open spec fn frame_end(offset: nat, rows: nat) -> nat {
    offset + 16 * rows
}

/// The range text of the status line: `[0x<start>, 0x<end>] / 0x<total>`,
/// each number in hexadecimal, zero-padded to the count of decimal digits
/// of `total`.
pub open spec fn range_text(start: nat, end: nat, total: nat) -> Seq<u8> {
    let width = decimal_width(total);
    seq![91u8, 48u8, 120u8] + hex_field(start, width) + seq![44u8, 32u8, 48u8, 120u8] + hex_field(
        end,
        width,
    ) + seq![93u8, 32u8, 47u8, 32u8, 48u8, 120u8] + hex_field(total, width)
}

/// `end / total` as a percentage in hundredths of a percent, rounded to the
/// nearest, a tie to the even neighbour; zero for an empty buffer.
pub open spec fn percent_hundredths(end: nat, total: nat) -> nat {
    if total == 0 {
        0
    } else {
        let whole = (end * 10000) / total;
        let rest = (end * 10000) % total;
        if 2 * rest > total || (2 * rest == total && whole % 2 == 1) {
            whole + 1
        } else {
            whole
        }
    }
}

/// The percentage text: two decimals, right-aligned in six columns, then `%`.
pub open spec fn percent_text(end: nat, total: nat) -> Seq<u8> {
    let h = percent_hundredths(end, total);
    padded(
        digits(h / 100, 10) + seq![46u8, digit_byte((h % 100) / 10), digit_byte(h % 10)],
        6,
        32,
    ).push(37u8)
}

/// The commands for the status line, on the row directly below the grid, dark on light.
pub open spec fn status_ops(offset: nat, rows: u16, total: nat) -> Seq<DrawOp> {
    let end = frame_end(offset, rows as nat);
    seq![
        DrawOp::MoveTo(0, rows),
        DrawOp::SetBackground(Paint::White),
        DrawOp::SetForeground(Paint::Black),
        DrawOp::Print(ascii_chars(range_text(offset, end, total))),
        DrawOp::ResetColor,
        DrawOp::MoveTo(55, rows),
        DrawOp::SetBackground(Paint::White),
        DrawOp::SetForeground(Paint::Black),
        DrawOp::Print(ascii_chars(percent_text(end, total))),
        DrawOp::ResetColor,
    ]
}

/// The commands of one frame: the grid of 16 columns by `rows` rows, then the status line.
pub open spec fn frame_ops(buf: Seq<u8>, offset: nat, rows: u16, mode: DisplayMode) -> Seq<DrawOp> {
    grid_ops(buf, offset, mode, 16 * (rows as nat)) + status_ops(offset, rows, buf.len())
}

/// A hexadecimal glyph is exactly the two digits of the byte, high then low.
pub proof fn lemma_hex_glyph_two_digits(byte: u8)
    ensures
        hex_glyph(byte) =~= seq![digit_byte((byte / 16) as nat), digit_byte((byte % 16) as nat)],
{
    let v = byte as nat;
    if v < 16 {
        assert(digits(v, 16) =~= seq![digit_byte(v)]);
        assert(padded(digits(v, 16), 2, 48) =~= seq![48u8, digit_byte(v)]);
    } else {
        assert(digits(v / 16, 16) =~= seq![digit_byte(v / 16)]);
        assert(digits(v, 16) =~= seq![digit_byte(v / 16), digit_byte(v % 16)]);
    }
}

/// A cell whose index lies at or past the end of the buffer is blank
/// padding: two spaces, no colour, whatever the mode.
pub proof fn lemma_cell_past_end_is_blank(buf: Seq<u8>, offset: nat, mode: DisplayMode, k: nat)
    requires
        offset + k >= buf.len(),
    ensures
        cell_ops(buf, offset, mode, k) == seq![
            DrawOp::MoveTo((4 * (k % 16)) as u16, (k / 16) as u16),
            DrawOp::Print(seq![' ', ' ']),
        ],
{
    assert(ascii_chars(blank_glyph()) =~= seq![' ', ' ']);
}

/// Two buffers look the same at position `i`: both end before it, or both
/// hold the same byte there.
pub open spec fn same_at(a: Seq<u8>, b: Seq<u8>, i: int) -> bool {
    (i < a.len() <==> i < b.len()) && (i < a.len() ==> a[i] == b[i])
}

/// The grid reads the buffer only at `offset .. offset + cells`: two buffers
/// that look the same there give the same grid.
pub proof fn lemma_grid_reads_only_the_window(
    a: Seq<u8>,
    b: Seq<u8>,
    offset: nat,
    mode: DisplayMode,
    cells: nat,
)
    requires
        forall|i: int| offset <= i < offset + cells ==> #[trigger] same_at(a, b, i),
    ensures
        grid_ops(a, offset, mode, cells) == grid_ops(b, offset, mode, cells),
    decreases cells,
{
    if cells > 0 {
        lemma_grid_reads_only_the_window(a, b, offset, mode, (cells - 1) as nat);
        assert(same_at(a, b, offset + cells - 1));
    }
}

/// Toggling the display mode twice gives the frame that was on screen before.
pub proof fn lemma_toggle_twice_same_frame(buf: Seq<u8>, s: NavigationState)
    requires
        s.wf(),
    ensures
        ({
            let t = step(step(s, Command::ToggleMode), Command::ToggleMode);
            frame_ops(buf, t.offset as nat, t.visible_rows, t.mode) == frame_ops(
                buf,
                s.offset as nat,
                s.visible_rows,
                s.mode,
            )
        }),
{
}

/// A print command for ASCII text.
pub fn print_ascii(bytes: Vec<u8>) -> (cmd: DrawCommand)
    requires
        all_ascii(bytes@),
    ensures
        cmd@ == DrawOp::Print(ascii_chars(bytes@)),
{
    DrawCommand::Print(text_from_ascii(bytes))
}

/// The two-character text of a byte in the given mode.
pub fn glyph(byte: u8, mode: DisplayMode) -> (res: Vec<u8>)
    ensures
        res@ == match mode {
            DisplayMode::Hex => hex_glyph(byte),
            DisplayMode::Char => char_glyph(byte),
        },
        res@.len() == 2,
        all_ascii(res@),
{
    match mode {
        DisplayMode::Hex => {
            proof {
                lemma_hex_glyph_two_digits(byte);
            }
            hex_padded(byte as u128, 2)
        },
        DisplayMode::Char => {
            let mut out: Vec<u8> = Vec::new();
            out.push(if byte_is_graphic(byte) { byte } else { 32 });
            out.push(32);
            assert(out@ =~= char_glyph(byte));
            out
        },
    }
}

/// Appends the commands for the `k`-th cell of the grid to `out`.
pub fn draw_cell(out: &mut Vec<DrawCommand>, buffer: &[u8], offset: usize, mode: DisplayMode, k: usize)
    requires
        k < 16 * 65536,
    ensures
        ops_of(final(out)@) == ops_of(old(out)@) + cell_ops(buffer@, offset as nat, mode, k as nat),
{
    let column: u16 = (CELL_STRIDE as usize * (k % 16)) as u16;
    let row: u16 = (k / 16) as u16;
    out.push(DrawCommand::MoveTo(column, row));
    if offset >= buffer.len() || k >= buffer.len() - offset {
        let mut blank: Vec<u8> = Vec::new();
        blank.push(32);
        blank.push(32);
        assert(blank@ =~= blank_glyph());
        out.push(print_ascii(blank));
    } else {
        let byte = buffer[offset + k];
        match mode {
            DisplayMode::Hex => {
                out.push(DrawCommand::SetForeground(get_color_by_category(byte)));
            },
            DisplayMode::Char => {},
        }
        out.push(print_ascii(glyph(byte, mode)));
    }
    assert(ops_of(out@) =~= ops_of(old(out)@) + cell_ops(
        buffer@,
        offset as nat,
        mode,
        k as nat,
    ));
}

/// The range text of the status line for a frame of `rows` rows at `offset`
/// over a buffer of `total` bytes.
pub fn status_range(offset: usize, rows: u16, total: usize) -> (res: Vec<u8>)
    ensures
        res@ == range_text(offset as nat, frame_end(offset as nat, rows as nat), total as nat),
        all_ascii(res@),
{
    let width = decimal_digit_count(total);
    let end: u128 = offset as u128 + 16 * (rows as u128);
    let mut out: Vec<u8> = Vec::new();
    out.push(91);
    out.push(48);
    out.push(120);
    let mut start_field = hex_padded(offset as u128, width);
    out.append(&mut start_field);
    out.push(44);
    out.push(32);
    out.push(48);
    out.push(120);
    let mut end_field = hex_padded(end, width);
    out.append(&mut end_field);
    out.push(93);
    out.push(32);
    out.push(47);
    out.push(32);
    out.push(48);
    out.push(120);
    let mut total_field = hex_padded(total as u128, width);
    out.append(&mut total_field);
    proof {
        let w = width as nat;
        lemma_digits_ascii(offset as nat, 16);
        lemma_digits_ascii(end as nat, 16);
        lemma_digits_ascii(total as nat, 16);
        lemma_padded_ascii(digits(offset as nat, 16), w, 48);
        lemma_padded_ascii(digits(end as nat, 16), w, 48);
        lemma_padded_ascii(digits(total as nat, 16), w, 48);
        assert(out@ =~= range_text(
            offset as nat,
            frame_end(offset as nat, rows as nat),
            total as nat,
        ));
    }
    out
}

/// The percentage text of the status line: how far `offset + 16 * rows`
/// lies into a buffer of `total` bytes.
pub fn status_percentage(offset: usize, rows: u16, total: usize) -> (res: Vec<u8>)
    ensures
        res@ == percent_text(frame_end(offset as nat, rows as nat), total as nat),
        all_ascii(res@),
{
    let end: u128 = offset as u128 + 16 * (rows as u128);
    let h: u128 = if total == 0 {
        0
    } else {
        let scaled: u128 = end * 10000;
        let whole: u128 = scaled / (total as u128);
        let rest: u128 = scaled % (total as u128);
        if 2 * rest > total as u128 || (2 * rest == total as u128 && whole % 2 == 1) {
            whole + 1
        } else {
            whole
        }
    };
    let mut out = radix_digits(h / 100, 10);
    proof {
        lemma_digits_ascii((h / 100) as nat, 10);
    }
    out.push(46);
    out.push(digit_of(((h % 100) / 10) as u8));
    out.push(digit_of((h % 10) as u8));
    let ghost body = out@;
    let mut out = pad_left(out, 6, 32);
    proof {
        lemma_padded_ascii(body, 6, 32);
    }
    out.push(37);
    out
}

/// The commands that draw the status line on the row below the grid.
pub fn draw_status(out: &mut Vec<DrawCommand>, offset: usize, rows: u16, total: usize)
    ensures
        ops_of(final(out)@) == ops_of(old(out)@) + status_ops(offset as nat, rows, total as nat),
{
    out.push(DrawCommand::MoveTo(0, rows));
    out.push(DrawCommand::SetBackground(Paint::White));
    out.push(DrawCommand::SetForeground(Paint::Black));
    out.push(print_ascii(status_range(offset, rows, total)));
    out.push(DrawCommand::ResetColor);
    out.push(DrawCommand::MoveTo(PERCENTAGE_POSITION, rows));
    out.push(DrawCommand::SetBackground(Paint::White));
    out.push(DrawCommand::SetForeground(Paint::Black));
    out.push(print_ascii(status_percentage(offset, rows, total)));
    out.push(DrawCommand::ResetColor);
    assert(ops_of(out@) =~= ops_of(old(out)@) + status_ops(offset as nat, rows, total as nat));
}

/// Draws one frame: the bytes from `offset` on, 16 to a row, in `visible_rows`
/// rows, each in the given mode, blank where the buffer has ended; then the
/// status line.
pub fn render(buffer: &[u8], offset: usize, visible_rows: u16, mode: DisplayMode) -> (out: Vec<
    DrawCommand,
>)
    ensures
        ops_of(out@) == frame_ops(buffer@, offset as nat, visible_rows, mode),
{
    let mut out: Vec<DrawCommand> = Vec::new();
    out.push(DrawCommand::MoveTo(0, 0));
    assert(ops_of(out@) =~= grid_ops(buffer@, offset as nat, mode, 0));
    let cells: usize = 16 * (visible_rows as usize);
    let mut k: usize = 0;
    while k < cells
        invariant
            k <= cells,
            cells == 16 * (visible_rows as nat),
            ops_of(out@) == grid_ops(buffer@, offset as nat, mode, k as nat),
        decreases cells - k,
    {
        draw_cell(&mut out, buffer, offset, mode, k);
        k = k + 1;
    }
    draw_status(&mut out, offset, visible_rows, buffer.len());
    out
}

/// Draws one frame in hexadecimal mode for a terminal of the given
/// (width, height); the last terminal row is left to the status line.
pub fn render_as_hex(buffer: &[u8], start: usize, size: (u16, u16)) -> (out: Vec<DrawCommand>)
    ensures
        ops_of(out@) == frame_ops(
            buffer@,
            start as nat,
            rows_for_height(size.1),
            DisplayMode::Hex,
        ),
{
    let rows: u16 = if size.1 >= 1 {
        size.1 - 1
    } else {
        0
    };
    render(buffer, start, rows, DisplayMode::Hex)
}

/// Draws one frame in character mode for a terminal of the given
/// (width, height); the last terminal row is left to the status line.
pub fn render_as_char(buffer: &[u8], start: usize, size: (u16, u16)) -> (out: Vec<DrawCommand>)
    ensures
        ops_of(out@) == frame_ops(
            buffer@,
            start as nat,
            rows_for_height(size.1),
            DisplayMode::Char,
        ),
{
    let rows: u16 = if size.1 >= 1 {
        size.1 - 1
    } else {
        0
    };
    render(buffer, start, rows, DisplayMode::Char)
}

} // verus!
