//! The data side of the interactive surface: the commands the menu can
//! select, and what a typed confirmation means.  Prompt text and input
//! retries stay with the driver; only the decisions live here.

use vstd::prelude::*;

verus! {

/// One operation the interactive menu can select.  A tagged variant per
/// operation keeps dispatch exhaustive instead of resting on a numeric
/// range check.
#[derive(Clone, Copy, Debug, PartialEq, Eq, Structural)]
pub enum Command {
    /// Enter wave parameters by hand and append the segment.
    AddManual,
    /// Append the segments of one or more presets.
    AddPresets,
    /// Show the history log.
    ViewHistory,
    /// Empty the buffer and the history.
    Clear,
    /// Write the buffer and the history out.
    Export,
    /// View or edit the preset catalog.
    EditPresets,
    /// Change the sample rate.
    EditSampleRate,
    /// Leave the program.
    Exit,
}

/// The 1-based menu slot each command sits in, in menu order.
pub open spec fn menu_slot(c: Command) -> int {
    match c {
        Command::AddManual => 1,
        Command::AddPresets => 2,
        Command::ViewHistory => 3,
        Command::Clear => 4,
        Command::Export => 5,
        Command::EditPresets => 6,
        Command::EditSampleRate => 7,
        Command::Exit => 8,
    }
}

/// Maps a typed menu number to its command: exactly the numbers 1 through 8
/// select one, each its own slot.
pub fn command_from_menu_choice(choice: u8) -> (r: Option<Command>)
    ensures
        r is Some <==> 1 <= choice <= 8,
        r is Some ==> menu_slot(r->0) == choice,
{
    match choice {
        1 => Some(Command::AddManual),
        2 => Some(Command::AddPresets),
        3 => Some(Command::ViewHistory),
        4 => Some(Command::Clear),
        5 => Some(Command::Export),
        6 => Some(Command::EditPresets),
        7 => Some(Command::EditSampleRate),
        8 => Some(Command::Exit),
        _ => None,
    }
}

/// ASCII whitespace, as trimmed from a typed confirmation.
pub open spec fn is_space(b: u8) -> bool {
    b == 32 || b == 9 || b == 10 || b == 13
}

/// The input with leading whitespace dropped.
pub open spec fn trim_front(s: Seq<u8>) -> Seq<u8>
    decreases s.len(),
{
    if s.len() > 0 && is_space(s[0]) {
        trim_front(s.drop_first())
    } else {
        s
    }
}

/// The input with trailing whitespace dropped.
pub open spec fn trim_back(s: Seq<u8>) -> Seq<u8>
    decreases s.len(),
{
    if s.len() > 0 && is_space(s[s.len() - 1]) {
        trim_back(s.drop_last())
    } else {
        s
    }
}

/// The input with whitespace dropped at both ends.
pub open spec fn trimmed(s: Seq<u8>) -> Seq<u8> {
    trim_back(trim_front(s))
}

/// The byte lowercased, for the ASCII letters.
pub open spec fn lower_byte(b: u8) -> u8 {
    if 65 <= b <= 90 {
        (b + 32) as u8
    } else {
        b
    }
}

/// The whole input lowercased bytewise.
pub open spec fn lower_bytes(s: Seq<u8>) -> Seq<u8> {
    s.map_values(|b: u8| lower_byte(b))
}

/// Whether a typed confirmation means yes: trimmed and lowercased it reads
/// `y` or `yes`.
pub open spec fn means_yes(s: Seq<u8>) -> bool {
    lower_bytes(trimmed(s)) == seq![121u8] || lower_bytes(trimmed(s)) == seq![121u8, 101u8, 115u8]
}

/// Dropping leading whitespace is skipping to the first non-space byte.
proof fn lemma_trim_front_skip(s: Seq<u8>, lo: int)
    requires
        0 <= lo <= s.len(),
        forall|j: int| 0 <= j < lo ==> is_space(s[j]),
        lo < s.len() ==> !is_space(s[lo]),
    ensures
        trim_front(s) == s.skip(lo),
    decreases lo,
{
    if lo == 0 {
        assert(s.skip(0) =~= s);
    } else {
        assert(is_space(s[0]));
        assert forall|j: int| 0 <= j < lo - 1 implies is_space(s.drop_first()[j]) by {
            assert(s.drop_first()[j] == s[j + 1]);
        }
        lemma_trim_front_skip(s.drop_first(), lo - 1);
        assert(s.drop_first().skip(lo - 1) =~= s.skip(lo));
    }
}

/// Dropping trailing whitespace is taking the bytes up to the last
/// non-space one.
proof fn lemma_trim_back_take(s: Seq<u8>, hi: int)
    requires
        0 <= hi <= s.len(),
        forall|j: int| hi <= j < s.len() ==> is_space(s[j]),
        hi > 0 ==> !is_space(s[hi - 1]),
    ensures
        trim_back(s) == s.take(hi),
    decreases s.len() - hi,
{
    if hi == s.len() {
        assert(s.take(hi) =~= s);
    } else {
        assert(is_space(s[s.len() - 1]));
        lemma_trim_back_take(s.drop_last(), hi);
        assert(s.drop_last().take(hi) =~= s.take(hi));
    }
}

/// Whether a typed confirmation input means yes.  The decision behind the
/// interactive yes/no gates: trim the input, lowercase it, compare with `y`
/// and `yes`.
pub fn is_affirmative(input: &Vec<u8>) -> (r: bool)
    ensures
        r == means_yes(input@),
{
    let mut lo: usize = 0;
    while lo < input.len() && is_space_byte(input[lo])
        invariant
            0 <= lo <= input@.len(),
            forall|j: int| 0 <= j < lo ==> is_space(input@[j]),
        decreases input@.len() - lo,
    {
        lo = lo + 1;
    }
    let mut hi: usize = input.len();
    while hi > lo && is_space_byte(input[hi - 1])
        invariant
            lo <= hi <= input@.len(),
            forall|j: int| hi <= j < input@.len() ==> is_space(input@[j]),
        decreases hi,
    {
        hi = hi - 1;
    }
    proof {
        lemma_trim_front_skip(input@, lo as int);
        let tail = input@.skip(lo as int);
        assert forall|j: int| hi - lo <= j < tail.len() implies is_space(tail[j]) by {
            assert(tail[j] == input@[lo + j]);
        }
        if hi > lo {
            assert(tail[hi - lo - 1] == input@[hi - 1]);
        }
        lemma_trim_back_take(tail, hi - lo);
        assert(trimmed(input@) =~= input@.subrange(lo as int, hi as int));
    }
    if hi - lo == 1 {
        let r = lower_byte_exec(input[lo]) == 121;
        proof {
            let t = trimmed(input@);
            assert(t[0] == input@[lo as int]);
            assert(lower_bytes(t).len() == 1);
            assert(lower_bytes(t)[0] == lower_byte(t[0]));
            if lower_byte(t[0]) == 121 {
                assert(lower_bytes(t) =~= seq![121u8]);
            }
            assert(lower_bytes(t).len() != 3);
        }
        r
    } else if hi - lo == 3 {
        let r = lower_byte_exec(input[lo]) == 121 && lower_byte_exec(input[lo + 1]) == 101
            && lower_byte_exec(input[lo + 2]) == 115;
        proof {
            let t = trimmed(input@);
            assert(t[0] == input@[lo as int]);
            assert(t[1] == input@[lo as int + 1]);
            assert(t[2] == input@[lo as int + 2]);
            assert(lower_bytes(t).len() == 3);
            assert(lower_bytes(t)[0] == lower_byte(t[0]) && lower_bytes(t)[1] == lower_byte(t[1])
                && lower_bytes(t)[2] == lower_byte(t[2]));
            if lower_byte(t[0]) == 121 && lower_byte(t[1]) == 101 && lower_byte(t[2]) == 115 {
                assert(lower_bytes(t) =~= seq![121u8, 101u8, 115u8]);
            } else {
                assert(lower_bytes(t) != seq![121u8, 101u8, 115u8]);
            }
            assert(lower_bytes(t).len() != 1);
        }
        r
    } else {
        proof {
            assert(lower_bytes(trimmed(input@)).len() == hi - lo);
        }
        false
    }
}

/// Executable twin of `is_space`.
fn is_space_byte(b: u8) -> (r: bool)
    ensures
        r == is_space(b),
{
    b == 32 || b == 9 || b == 10 || b == 13
}

/// Executable twin of `lower_byte`.
fn lower_byte_exec(b: u8) -> (r: u8)
    ensures
        r == lower_byte(b),
{
    if b >= 65 && b <= 90 {
        b + 32
    } else {
        b
    }
}

} // verus!
