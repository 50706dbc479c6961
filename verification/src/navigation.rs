//! The scroll position and display mode of a viewing session, and the
//! commands that change them.

use vstd::prelude::*;

verus! {

/// Bytes per grid row.
pub const ROW_BYTES: usize = 16;

/// How a byte is drawn in its cell.
#[derive(Clone, Copy, Debug, PartialEq, Eq, Structural)]
pub enum DisplayMode {
    /// Two lowercase hexadecimal digits.
    Hex,
    /// The printable character, or a blank.
    Char,
}

/// What the user or the terminal asks for.
#[derive(Clone, Copy, Debug, PartialEq, Eq, Structural)]
pub enum Command {
    MoveUp,
    MoveDown,
    PageUp,
    PageDown,
    Home,
    End,
    ToggleMode,
    /// The terminal now has this width and height.
    Resize(u16, u16),
    Export,
    Quit,
}

/// What the caller has to do after a command was applied.
#[derive(Clone, Copy, Debug, PartialEq, Eq, Structural)]
pub enum Effect {
    /// Draw the next frame.
    Redraw,
    /// Clear the whole screen, then draw the next frame.
    ClearScreen,
    /// Extract the strings and write them out, then draw the next frame.
    Export,
    /// Restore the terminal and leave.
    Quit,
}

/// Session state: where the view starts, how bytes are drawn, how many rows fit.
#[derive(Clone, Copy, Debug, PartialEq, Eq, Structural)]
pub struct NavigationState {
    /// Index of the byte in the top-left cell.
    pub offset: usize,
    pub mode: DisplayMode,
    /// Grid rows on screen: the terminal height less the status row.
    pub visible_rows: u16,
    /// Length of the buffer being viewed; fixed for the session.
    pub len: usize,
}

/// Start of the last full row boundary: `16 * floor(len / 16)`.
pub open spec fn last_row_start(len: nat) -> nat {
    16 * (len / 16)
}

/// An offset sits on a row boundary and not beyond the last one.
pub open spec fn valid_offset(offset: nat, len: nat) -> bool {
    offset % 16 == 0 && offset <= last_row_start(len)
}

/// One row up, unless already in the first row.
pub open spec fn row_up(offset: nat) -> nat {
    if offset >= 16 {
        (offset - 16) as nat
    } else {
        offset
    }
}

/// One row down, unless the next row starts at or past the end of the buffer.
pub open spec fn row_down(offset: nat, len: nat) -> nat {
    if offset + 16 < len {
        offset + 16
    } else {
        offset
    }
}

/// `row_up` applied `times` times.
pub open spec fn rows_up(offset: nat, times: nat) -> nat
    decreases times,
{
    if times == 0 {
        offset
    } else {
        row_up(rows_up(offset, (times - 1) as nat))
    }
}

/// `row_down` applied `times` times.
pub open spec fn rows_down(offset: nat, len: nat, times: nat) -> nat
    decreases times,
{
    if times == 0 {
        offset
    } else {
        row_down(rows_down(offset, len, (times - 1) as nat), len)
    }
}

/// Grid rows of a terminal of the given height: one row is the status line.
pub open spec fn rows_for_height(height: u16) -> u16 {
    if height >= 1 {
        (height - 1) as u16
    } else {
        0
    }
}

/// The offset after a command.
pub open spec fn next_offset(offset: nat, len: nat, rows: nat, cmd: Command) -> nat {
    match cmd {
        Command::MoveUp => row_up(offset),
        Command::MoveDown => row_down(offset, len),
        Command::PageUp => rows_up(offset, rows),
        Command::PageDown => rows_down(offset, len, rows),
        Command::Home => 0,
        Command::End => last_row_start(len),
        _ => offset,
    }
}

/// The mode after a command.
pub open spec fn next_mode(mode: DisplayMode, cmd: Command) -> DisplayMode {
    match (cmd, mode) {
        (Command::ToggleMode, DisplayMode::Hex) => DisplayMode::Char,
        (Command::ToggleMode, DisplayMode::Char) => DisplayMode::Hex,
        _ => mode,
    }
}

/// The number of grid rows after a command.
pub open spec fn next_rows(rows: u16, cmd: Command) -> u16 {
    match cmd {
        Command::Resize(_, height) => rows_for_height(height),
        _ => rows,
    }
}

/// The state after a command.
pub open spec fn step(s: NavigationState, cmd: Command) -> NavigationState {
    NavigationState {
        offset: next_offset(s.offset as nat, s.len as nat, s.visible_rows as nat, cmd) as usize,
        mode: next_mode(s.mode, cmd),
        visible_rows: next_rows(s.visible_rows, cmd),
        len: s.len,
    }
}

/// What the caller does after a command.
pub open spec fn effect_of(cmd: Command) -> Effect {
    match cmd {
        Command::ToggleMode => Effect::ClearScreen,
        Command::Resize(_, _) => Effect::ClearScreen,
        Command::Export => Effect::Export,
        Command::Quit => Effect::Quit,
        _ => Effect::Redraw,
    }
}

/// The state after a sequence of commands, applied first to last.
pub open spec fn run(s: NavigationState, cmds: Seq<Command>) -> NavigationState
    decreases cmds.len(),
{
    if cmds.len() == 0 {
        s
    } else {
        step(run(s, cmds.drop_last()), cmds.last())
    }
}

/// Row stepping keeps an offset valid, whatever the count.
pub proof fn lemma_rows_keep_offset_valid(offset: nat, len: nat, times: nat)
    requires
        valid_offset(offset, len),
    ensures
        valid_offset(rows_up(offset, times), len),
        valid_offset(rows_down(offset, len, times), len),
        rows_up(offset, times) <= offset,
        offset <= rows_down(offset, len, times),
    decreases times,
{
    if times > 0 {
        lemma_rows_keep_offset_valid(offset, len, (times - 1) as nat);
    }
}

/// Paging up moves by whole rows and stops in the first row.
pub proof fn lemma_rows_up_closed_form(offset: nat, times: nat)
    ensures
        rows_up(offset, times) == if 16 * times <= offset {
            (offset - 16 * times) as nat
        } else {
            offset % 16
        },
    decreases times,
{
    if times > 0 {
        lemma_rows_up_closed_form(offset, (times - 1) as nat);
    }
}

/// Paging down moves by whole rows while the row reached starts inside the buffer.
pub proof fn lemma_rows_down_closed_form(offset: nat, len: nat, times: nat)
    requires
        offset + 16 * times < len,
    ensures
        rows_down(offset, len, times) == offset + 16 * times,
    decreases times,
{
    if times > 0 {
        lemma_rows_down_closed_form(offset, len, (times - 1) as nat);
    }
}

/// Start of the last row that row stepping can reach: the last row boundary
/// that lies inside the buffer.
pub open spec fn last_reachable_row(len: nat) -> nat {
    if len == 0 {
        0
    } else {
        16 * ((len - 1) as nat / 16)
    }
}

/// Paging down from a row boundary moves by whole rows and stops at the last
/// row boundary inside the buffer; an offset already at or past it stays.
pub proof fn lemma_rows_down_clamps(offset: nat, len: nat, times: nat)
    requires
        offset % 16 == 0,
    ensures
        rows_down(offset, len, times) == if offset + 16 * times <= last_reachable_row(len) {
            offset + 16 * times
        } else if offset <= last_reachable_row(len) {
            last_reachable_row(len)
        } else {
            offset
        },
    decreases times,
{
    if times > 0 {
        lemma_rows_down_clamps(offset, len, (times - 1) as nat);
    }
}

/// No command takes a valid offset to an invalid one.
pub proof fn lemma_step_keeps_offset_valid(s: NavigationState, cmd: Command)
    requires
        s.wf(),
    ensures
        step(s, cmd).wf(),
        step(s, cmd).len == s.len,
        next_offset(s.offset as nat, s.len as nat, s.visible_rows as nat, cmd) == step(
            s,
            cmd,
        ).offset,
{
    lemma_rows_keep_offset_valid(s.offset as nat, s.len as nat, s.visible_rows as nat);
}

/// After any sequence of commands the offset is a multiple of 16 between 0
/// and `16 * floor(len / 16)`.
pub proof fn lemma_run_keeps_offset_valid(s: NavigationState, cmds: Seq<Command>)
    requires
        s.wf(),
    ensures
        run(s, cmds).wf(),
        run(s, cmds).len == s.len,
        run(s, cmds).offset % 16 == 0,
        0 <= run(s, cmds).offset <= 16 * (s.len / 16),
    decreases cmds.len(),
{
    if cmds.len() > 0 {
        lemma_run_keeps_offset_valid(s, cmds.drop_last());
        lemma_step_keeps_offset_valid(run(s, cmds.drop_last()), cmds.last());
    }
}

/// Away from both ends, moving up and then down returns to the same offset.
pub proof fn lemma_down_undoes_up(offset: nat, len: nat)
    requires
        offset >= 16,
        offset + 16 < len,
    ensures
        row_down(row_up(offset), len) == offset,
{
}

/// Away from both ends, `MoveUp` followed by `MoveDown` restores the state.
pub proof fn lemma_move_down_undoes_move_up(s: NavigationState)
    requires
        s.wf(),
        s.offset >= 16,
        s.offset + 16 < s.len,
    ensures
        step(step(s, Command::MoveUp), Command::MoveDown) == s,
{
}

/// Toggling the mode twice restores the state.
pub proof fn lemma_toggle_twice_restores(s: NavigationState)
    requires
        s.wf(),
    ensures
        step(step(s, Command::ToggleMode), Command::ToggleMode) == s,
        step(s, Command::ToggleMode).mode != s.mode,
        step(s, Command::ToggleMode).offset == s.offset,
        step(s, Command::ToggleMode).visible_rows == s.visible_rows,
{
}

impl NavigationState {
    /// The offset is on a row boundary, at most `16 * floor(len / 16)`.
    pub open spec fn wf(&self) -> bool {
        valid_offset(self.offset as nat, self.len as nat)
    }

    /// The state at start-up: top of the buffer, hexadecimal, and as many
    /// rows as the terminal has below the status row.
    pub fn new(len: usize, terminal_height: u16) -> (s: Self)
        ensures
            s.wf(),
            s == (NavigationState {
                offset: 0,
                mode: DisplayMode::Hex,
                visible_rows: rows_for_height(terminal_height),
                len,
            }),
    {
        NavigationState {
            offset: 0,
            mode: DisplayMode::Hex,
            visible_rows: if terminal_height >= 1 {
                terminal_height - 1
            } else {
                0
            },
            len,
        }
    }

    /// Moves one row towards the start, if there is one.
    pub fn move_up(&mut self)
        requires
            old(self).wf(),
        ensures
            final(self).wf(),
            *final(self) == step(*old(self), Command::MoveUp),
    {
        if self.offset >= ROW_BYTES {
            self.offset = self.offset - ROW_BYTES;
        }
    }

    /// Moves one row towards the end, if the next row starts inside the buffer.
    pub fn move_down(&mut self)
        requires
            old(self).wf(),
        ensures
            final(self).wf(),
            *final(self) == step(*old(self), Command::MoveDown),
    {
        if self.len - self.offset > ROW_BYTES {
            self.offset = self.offset + ROW_BYTES;
        }
    }

    /// Moves up one row for each visible row, stopping at the start.
    pub fn page_up(&mut self)
        requires
            old(self).wf(),
        ensures
            final(self).wf(),
            *final(self) == step(*old(self), Command::PageUp),
    {
        let mut done: u16 = 0;
        while done < self.visible_rows
            invariant
                done <= self.visible_rows,
                self.wf(),
                self.len == old(self).len,
                self.mode == old(self).mode,
                self.visible_rows == old(self).visible_rows,
                self.offset == rows_up(old(self).offset as nat, done as nat),
            decreases self.visible_rows - done,
        {
            self.move_up();
            done = done + 1;
        }
    }

    /// Moves down one row for each visible row, stopping at the last row
    /// that starts inside the buffer.
    pub fn page_down(&mut self)
        requires
            old(self).wf(),
        ensures
            final(self).wf(),
            *final(self) == step(*old(self), Command::PageDown),
    {
        let mut done: u16 = 0;
        while done < self.visible_rows
            invariant
                done <= self.visible_rows,
                self.wf(),
                self.len == old(self).len,
                self.mode == old(self).mode,
                self.visible_rows == old(self).visible_rows,
                self.offset == rows_down(old(self).offset as nat, self.len as nat, done as nat),
            decreases self.visible_rows - done,
        {
            self.move_down();
            done = done + 1;
        }
    }

    /// Jumps to the first byte.
    pub fn home(&mut self)
        requires
            old(self).wf(),
        ensures
            final(self).wf(),
            *final(self) == step(*old(self), Command::Home),
    {
        self.offset = 0;
    }

    /// Jumps to the last row boundary, `16 * floor(len / 16)`.
    pub fn end(&mut self)
        requires
            old(self).wf(),
        ensures
            final(self).wf(),
            *final(self) == step(*old(self), Command::End),
    {
        self.offset = ROW_BYTES * (self.len / ROW_BYTES);
    }

    /// Switches between hexadecimal and character display.
    pub fn toggle_mode(&mut self)
        requires
            old(self).wf(),
        ensures
            final(self).wf(),
            *final(self) == step(*old(self), Command::ToggleMode),
    {
        self.mode = match self.mode {
            DisplayMode::Hex => DisplayMode::Char,
            DisplayMode::Char => DisplayMode::Hex,
        };
    }

    /// Takes over a new terminal size; the offset stays.
    pub fn resize(&mut self, width: u16, height: u16)
        requires
            old(self).wf(),
        ensures
            final(self).wf(),
            *final(self) == step(*old(self), Command::Resize(width, height)),
    {
        self.visible_rows = if height >= 1 {
            height - 1
        } else {
            0
        };
    }

    /// Applies one command and says what the caller has to do next.
    pub fn apply(&mut self, cmd: Command) -> (effect: Effect)
        requires
            old(self).wf(),
        ensures
            final(self).wf(),
            *final(self) == step(*old(self), cmd),
            effect == effect_of(cmd),
    {
        match cmd {
            Command::MoveUp => {
                self.move_up();
                Effect::Redraw
            },
            Command::MoveDown => {
                self.move_down();
                Effect::Redraw
            },
            Command::PageUp => {
                self.page_up();
                Effect::Redraw
            },
            Command::PageDown => {
                self.page_down();
                Effect::Redraw
            },
            Command::Home => {
                self.home();
                Effect::Redraw
            },
            Command::End => {
                self.end();
                Effect::Redraw
            },
            Command::ToggleMode => {
                self.toggle_mode();
                Effect::ClearScreen
            },
            Command::Resize(width, height) => {
                self.resize(width, height);
                Effect::ClearScreen
            },
            Command::Export => Effect::Export,
            Command::Quit => Effect::Quit,
        }
    }
}

} // verus!
