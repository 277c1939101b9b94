//! The consumer's byte dispatch: each byte popped from the queue is either
//! the carriage-return control byte, which clears the serial terminal and
//! reprints the prompt while repositioning the display cursor, or a
//! printable byte echoed verbatim to both sinks.
//!
//! The `Console` records exactly what has been commanded of the two sinks —
//! every byte sent down the serial line, every character appended to the
//! display, and the last commanded cursor position — so the dispatch logic
//! is verified against the sinks' full history, not just the latest byte.

use vstd::prelude::*;

use crate::inbox::try_pop;
use crate::inbox::Inbox;
use crate::queue::ByteQueue;

verus! {

/// The reserved control byte: a carriage return resets the prompt.
pub const CONTROL_RESET: u8 = 13;

/// The consumer's two logical states: freshly reset, or actively echoing.
#[derive(Clone, Copy, PartialEq, Eq, Structural, Debug)]
pub enum Mode {
    Prompt,
    Echoing,
}

/// What one dispatched byte asks of the sinks: reset the prompt, or echo
/// the byte to both.
#[derive(Clone, Copy, PartialEq, Eq, Structural, Debug)]
pub enum Action {
    Reset,
    Echo(u8),
}

/// The byte a single popped byte maps to: the control byte resets, every
/// other byte value is printable and echoed verbatim.
pub open spec fn spec_dispatch(b: u8) -> Action {
    if b == CONTROL_RESET {
        Action::Reset
    } else {
        Action::Echo(b)
    }
}

/// The state the consumer moves to on dispatching a byte: the control byte
/// enters `Prompt`, any other byte enters `Echoing`.
pub open spec fn spec_next_mode(b: u8) -> Mode {
    if b == CONTROL_RESET {
        Mode::Prompt
    } else {
        Mode::Echoing
    }
}

/// Decide what one byte asks of the sinks.
pub fn dispatch(b: u8) -> (a: Action)
    ensures
        a == spec_dispatch(b),
{
    if b == CONTROL_RESET {
        Action::Reset
    } else {
        Action::Echo(b)
    }
}

/// The exact bytes the reset action sends down the serial line: the
/// clear-screen and cursor-home escape sequences, then the prompt text as
/// UTF-8.
pub open spec fn reset_sequence() -> Seq<u8> {
    seq![
        27u8, 91, 50, 74, 27, 91, 72, 72, 225, 187, 141, 32, 118, 195, 160, 32, 116, 195, 170,
        110, 32, 115, 105, 110, 104, 32, 118, 105, 195, 170, 110, 58, 32,
    ]
}

/// The reset sequence as a value the serial sink can be handed.
pub fn reset_sequence_bytes() -> (r: Vec<u8>)
    ensures
        r@ == reset_sequence(),
{
    let r: Vec<u8> = vec![
        27u8, 91, 50, 74, 27, 91, 72, 72, 225, 187, 141, 32, 118, 195, 160, 32, 116, 195, 170,
        110, 32, 115, 105, 110, 104, 32, 118, 105, 195, 170, 110, 58, 32,
    ];
    proof {
        assert(r@ =~= reset_sequence());
    }
    r
}

/// Everything the consumer has commanded of its sinks, plus its state.
#[verifier::ext_equal]
pub struct ConsoleView {
    pub mode: Mode,
    pub serial: Seq<u8>,
    pub display: Seq<u8>,
    pub cursor_col: u8,
    pub cursor_row: u8,
}

/// One consumer iteration that found a byte.  The control byte sends the
/// reset sequence to the serial sink and repositions the display cursor to
/// column 0, row 1 — deliberately without clearing the display's own
/// characters.  Any other byte goes verbatim to the serial sink and is
/// appended to the display.
pub open spec fn spec_step(c: ConsoleView, b: u8) -> ConsoleView {
    if b == CONTROL_RESET {
        ConsoleView {
            mode: Mode::Prompt,
            serial: c.serial + reset_sequence(),
            display: c.display,
            cursor_col: 0,
            cursor_row: 1,
        }
    } else {
        ConsoleView {
            mode: Mode::Echoing,
            serial: c.serial.push(b),
            display: c.display.push(b),
            cursor_col: c.cursor_col,
            cursor_row: c.cursor_row,
        }
    }
}

/// A run of consumer iterations over a whole sequence of popped bytes.
pub open spec fn spec_run(c: ConsoleView, bs: Seq<u8>) -> ConsoleView
    decreases bs.len(),
{
    if bs.len() == 0 {
        c
    } else {
        spec_run(spec_step(c, bs[0]), bs.drop_first())
    }
}

/// The consumer's sink-facing state: its mode and the commanded history of
/// both sinks.
pub struct Console {
    mode: Mode,
    serial: Vec<u8>,
    display: Vec<u8>,
    cursor_col: u8,
    cursor_row: u8,
}

impl View for Console {
    type V = ConsoleView;

    closed spec fn view(&self) -> ConsoleView {
        ConsoleView {
            mode: self.mode,
            serial: self.serial@,
            display: self.display@,
            cursor_col: self.cursor_col,
            cursor_row: self.cursor_row,
        }
    }
}

impl Console {
    /// A console at the prompt, before any byte has been dispatched.
    pub fn new() -> (c: Console)
        ensures
            c@.mode == Mode::Prompt,
            c@.serial == Seq::<u8>::empty(),
            c@.display == Seq::<u8>::empty(),
            c@.cursor_col == 0,
            c@.cursor_row == 0,
    {
        Console { mode: Mode::Prompt, serial: Vec::new(), display: Vec::new(), cursor_col: 0, cursor_row: 0 }
    }

    pub fn mode(&self) -> (m: Mode)
        ensures
            m == self@.mode,
    {
        self.mode
    }

    /// Every byte sent to the serial sink so far, in order.
    pub fn serial(&self) -> (s: &Vec<u8>)
        ensures
            s@ == self@.serial,
    {
        &self.serial
    }

    /// Every character appended to the display so far, in order.
    pub fn display(&self) -> (d: &Vec<u8>)
        ensures
            d@ == self@.display,
    {
        &self.display
    }

    /// The last commanded cursor position, as (column, row).
    pub fn cursor(&self) -> (p: (u8, u8))
        ensures
            p.0 == self@.cursor_col,
            p.1 == self@.cursor_row,
    {
        (self.cursor_col, self.cursor_row)
    }

    /// Dispatch one popped byte to the sinks.
    pub fn step(&mut self, b: u8)
        ensures
            final(self)@ == spec_step(old(self)@, b),
            final(self)@.mode == spec_next_mode(b),
    {
        match dispatch(b) {
            Action::Reset => {
                let mut r = reset_sequence_bytes();
                self.serial.append(&mut r);
                self.cursor_col = 0;
                self.cursor_row = 1;
                self.mode = Mode::Prompt;
            },
            Action::Echo(c) => {
                self.serial.push(c);
                self.display.push(c);
                self.mode = Mode::Echoing;
            },
        }
        proof {
            assert(self@ =~= spec_step(old(self)@, b));
        }
    }

    /// One iteration of the main cooperative loop: pop at most one byte
    /// from the inbox and dispatch it to the sinks.  Never blocks: with
    /// nothing to pop, and defensively while the inbox is not yet
    /// installed, it reports no progress and changes nothing.  A caller
    /// whose critical section is real keeps only the pop inside it,
    /// calling `try_pop` there and `step` outside, to the same effect.
    pub fn poll(&mut self, slot: &mut Option<Inbox>) -> (processed: bool)
        requires
            (*old(slot)) matches Some(i) ==> i.wf(),
        ensures
            (*old(slot)) is None ==> (*final(slot)) is None && final(self)@ == old(self)@
                && !processed,
            (*old(slot)) matches Some(i) ==> (*final(slot)) matches Some(j) && j.wf()
                && (i.queue@.len() == 0 ==> !processed && j.queue@ == i.queue@
                && final(self)@ == old(self)@)
                && (i.queue@.len() > 0 ==> processed && j.queue@ == i.queue@.drop_first()
                && final(self)@ == spec_step(old(self)@, i.queue@[0])),
    {
        match try_pop(slot) {
            None => false,
            Some(b) => {
                self.step(b);
                true
            },
        }
    }

    /// The main loop's steady state, run to quiescence: pop one byte per
    /// iteration and dispatch it, until the queue reports empty.
    pub fn drain(&mut self, q: &mut ByteQueue)
        requires
            old(q).wf(),
        ensures
            final(q).wf(),
            final(q)@.len() == 0,
            final(self)@ == spec_run(old(self)@, old(q)@),
    {
        let ghost c0 = self@;
        let ghost q0 = q@;
        loop
            invariant
                q.wf(),
                spec_run(self@, q@) == spec_run(c0, q0),
            ensures
                q@.len() == 0,
                spec_run(self@, q@) == spec_run(c0, q0),
            decreases q@.len(),
        {
            let ghost cs = self@;
            let ghost qs = q@;
            match q.pop() {
                None => {
                    break;
                },
                Some(b) => {
                    self.step(b);
                    proof {
                        assert(spec_run(cs, qs) == spec_run(spec_step(cs, qs[0]), qs.drop_first()));
                    }
                },
            }
        }
    }
}

} // verus!
