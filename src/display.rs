//! The text of a one-line status display on a terminal.

use crate::text::{chars_of, push_decimal, push_str, string_from_chars, decimal};
use vstd::prelude::*;
use vstd::string::StringSliceAdditionalSpecFns;

verus! {

/// The width of the progress bar, in characters.
pub const BAR_WIDTH: usize = 30;

/// `n` copies of `c`.
pub open spec fn repeated(c: char, n: nat) -> Seq<char> {
    Seq::new(n, |i: int| c)
}

/// Appends `n` copies of `c`.
fn push_repeated(out: &mut Vec<char>, c: char, n: usize)
    ensures
        final(out)@ == old(out)@ + repeated(c, n as nat),
{
    let mut i: usize = 0;
    while i < n
        invariant
            i <= n,
            out@ == old(out)@ + repeated(c, i as nat),
        decreases n - i,
    {
        out.push(c);
        assert(out@ =~= old(out)@ + repeated(c, i as nat + 1));
        i += 1;
    }
}

/// `message` cut to `width` characters, ending in `...` when cut.
pub open spec fn truncated(message: Seq<char>, width: nat) -> Seq<char> {
    if message.len() > width {
        message.take(if width >= 3 { width - 3 } else { 0 }) + "..."@
    } else {
        message
    }
}

/// The bar for `current` out of `total`, with its count and percentage.
pub open spec fn bar_text(current: nat, total: nat, message: Seq<char>) -> Seq<char> {
    let filled: nat = if total == 0 {
        0
    } else {
        (BAR_WIDTH as nat * current / total) as nat
    };
    let percent: nat = if total == 0 {
        0
    } else {
        (current * 100 / total) as nat
    };
    "["@ + repeated('=', filled) + repeated(' ', (BAR_WIDTH - filled) as nat) + "] "@ + decimal(
        current,
    ) + "/"@ + decimal(total) + " ("@ + decimal(percent) + "%) "@ + message
}

/// What rewrites the status line: back to its start, blanks over the last
/// message, back again, then the new message.
pub open spec fn status_text(last_len: nat, message: Seq<char>) -> Seq<char> {
    "\r"@ + repeated(' ', last_len) + "\r"@ + message
}

/// A one-line status display. Each method returns the text to write.
pub struct StatusDisplay {
    last_line_length: usize,
    terminal_width: usize,
}

impl StatusDisplay {
    pub closed spec fn spec_last_len(&self) -> nat {
        self.last_line_length as nat
    }

    pub closed spec fn spec_width(&self) -> nat {
        self.terminal_width as nat
    }

    /// A display for a terminal `terminal_width` characters wide.
    pub fn new(terminal_width: usize) -> (r: Self)
        ensures
            r.spec_last_len() == 0,
            r.spec_width() == terminal_width,
    {
        StatusDisplay { last_line_length: 0, terminal_width }
    }

    /// Replaces the status line with `message`.
    pub fn update_status(&mut self, message: &str) -> (r: String)
        ensures
            r@ == status_text(old(self).spec_last_len(), message@),
            final(self).spec_last_len() == message.spec_bytes().len(),
            final(self).spec_width() == old(self).spec_width(),
    {
        let mut out: Vec<char> = Vec::new();
        push_str(&mut out, "\r");
        push_repeated(&mut out, ' ', self.last_line_length);
        push_str(&mut out, "\r");
        push_str(&mut out, message);
        self.last_line_length = message.as_bytes().len();
        assert(out@ =~= status_text(old(self).spec_last_len(), message@));
        string_from_chars(out.as_slice())
    }

    /// `message` cut to the terminal's width.
    pub fn truncate_message(&self, message: &str) -> (r: String)
        ensures
            r@ == truncated(message@, self.spec_width()),
    {
        let cs = chars_of(message);
        if cs.len() > self.terminal_width {
            let keep = if self.terminal_width >= 3 {
                self.terminal_width - 3
            } else {
                0
            };
            let mut out: Vec<char> = Vec::new();
            let mut i: usize = 0;
            while i < keep
                invariant
                    i <= keep,
                    keep <= cs@.len(),
                    out@ == cs@.take(i as int),
                decreases keep - i,
            {
                out.push(cs[i]);
                assert(out@ =~= cs@.take(i as int + 1));
                i += 1;
            }
            push_str(&mut out, "...");
            string_from_chars(out.as_slice())
        } else {
            string_from_chars(cs.as_slice())
        }
    }

    /// Replaces the status line with a bar for `current` out of `total`
    /// and `message`, cut to the terminal's width.
    pub fn update_progress(&mut self, current: usize, total: usize, message: &str) -> (r: String)
        requires
            current <= total,
        ensures
            r@ == status_text(
                old(self).spec_last_len(),
                truncated(bar_text(current as nat, total as nat, message@), old(self).spec_width()),
            ),
            final(self).spec_width() == old(self).spec_width(),
    {
        let filled: usize = if total == 0 {
            0
        } else {
            ((BAR_WIDTH as u128) * (current as u128) / (total as u128)) as usize
        };
        let percent: u128 = if total == 0 {
            0
        } else {
            (current as u128) * 100 / (total as u128)
        };
        assert(total > 0 ==> (30 * current as int) / (total as int) <= 30) by (nonlinear_arith)
            requires
                current <= total,
        ;
        assert(total > 0 ==> (current as int * 100) / (total as int) <= 100) by (nonlinear_arith)
            requires
                current <= total,
        ;
        let mut out: Vec<char> = Vec::new();
        push_str(&mut out, "[");
        push_repeated(&mut out, '=', filled);
        push_repeated(&mut out, ' ', BAR_WIDTH - filled);
        push_str(&mut out, "] ");
        push_decimal(&mut out, current as u64);
        push_str(&mut out, "/");
        push_decimal(&mut out, total as u64);
        push_str(&mut out, " (");
        push_decimal(&mut out, percent as u64);
        push_str(&mut out, "%) ");
        push_str(&mut out, message);
        assert(out@ =~= bar_text(current as nat, total as nat, message@));
        let bar = string_from_chars(out.as_slice());
        let cut = self.truncate_message(bar.as_str());
        self.update_status(cut.as_str())
    }

    /// Ends the status line.
    pub fn finish(&mut self) -> (r: String)
        ensures
            r@ == "\n"@,
            final(self).spec_width() == old(self).spec_width(),
    {
        let mut out: Vec<char> = Vec::new();
        push_str(&mut out, "\n");
        string_from_chars(out.as_slice())
    }
}

} // verus!
