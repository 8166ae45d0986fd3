//! How a process joins its group, between when it is started and when it
//! becomes the program it is to run.
//!
//! Nothing here allocates: at that point only little may be done.

use crate::digits::{decimal, digit_char};
use vstd::prelude::*;

verus! {

/// What a process writes to join a control group itself.
pub const JOIN_MESSAGE: [u8; 2] = [48, 10];

/// What came of a write.
#[derive(Clone, Copy, Debug, PartialEq, Eq, Structural)]
pub enum RawWrite {
    /// So many bytes were written.
    Written(usize),
    /// It was interrupted before any byte was written.
    Interrupted,
    /// It failed with this error number.
    Failed(i32),
}

/// How to go on after a write.
#[derive(Clone, Copy, Debug, PartialEq, Eq, Structural)]
pub enum JoinStep {
    /// Write what remains.
    Write,
    /// It is done.
    Done,
    /// The system took the message in part.
    ShortWrite,
    /// It failed with this error number.
    Fail(i32),
}

/// How a process goes on after it wrote that it joins a control group. The
/// message has to be taken as a whole.
pub fn write_cgroup_procs(outcome: RawWrite) -> (r: JoinStep)
    ensures
        r == (match outcome {
            RawWrite::Interrupted => JoinStep::Write,
            RawWrite::Failed(error) => JoinStep::Fail(error),
            RawWrite::Written(n) => if n == JOIN_MESSAGE@.len() {
                JoinStep::Done
            } else {
                JoinStep::ShortWrite
            },
        }),
{
    match outcome {
        RawWrite::Interrupted => JoinStep::Write,
        RawWrite::Failed(error) => JoinStep::Fail(error),
        RawWrite::Written(n) => {
            if n == JOIN_MESSAGE.len() {
                JoinStep::Done
            } else {
                JoinStep::ShortWrite
            }
        },
    }
}

/// The bytes of a text of ASCII characters.
pub open spec fn ascii(s: Seq<char>) -> Seq<u8> {
    s.map_values(|c: char| c as u8)
}

/// The line that tells a watchdog which process leads the session.
pub open spec fn pid_line(pid: u32) -> Seq<u8> {
    ascii(decimal(pid as nat)).push(10)
}

/// How many bytes the longest line has room for.
pub const PID_LINE_ROOM: usize = 32;

/// What remains to be written of the line that tells a watchdog which process
/// leads the session.
pub struct PidLine {
    bytes: [u8; 32],
    start: usize,
}

impl View for PidLine {
    type V = Seq<u8>;

    closed spec fn view(&self) -> Seq<u8> {
        self.bytes@.skip(self.start as int)
    }
}

proof fn decimal_length(n: nat, k: nat, bound: nat)
    requires
        k >= 1,
        bound == vstd::arithmetic::power::pow(10, k),
        n < bound,
    ensures
        decimal(n).len() <= k,
    decreases k,
{
    reveal_with_fuel(vstd::arithmetic::power::pow, 2);
    if k == 1 {
        assert(n < 10);
    } else if n >= 10 {
        let less = vstd::arithmetic::power::pow(10, (k - 1) as nat);
        vstd::arithmetic::power::lemma_pow_positive(10, (k - 1) as nat);
        assert(bound == 10 * less);
        decimal_length(n / 10, (k - 1) as nat, less as nat);
    }
}

proof fn pid_has_ten_digits_at_most(pid: u32)
    ensures
        decimal(pid as nat).len() <= 10,
{
    reveal_with_fuel(vstd::arithmetic::power::pow, 11);
    assert(vstd::arithmetic::power::pow(10, 10) == 10_000_000_000);
    decimal_length(pid as nat, 10, 10_000_000_000);
}

impl PidLine {
    /// It is consistent.
    pub closed spec fn wf(&self) -> bool {
        self.start <= PID_LINE_ROOM
    }

    /// The line for a process.
    pub fn new(pid: u32) -> (r: Self)
        ensures
            r.wf(),
            r@ == pid_line(pid),
    {
        let mut bytes: [u8; 32] = [0; 32];
        let mut start: usize = PID_LINE_ROOM - 1;
        bytes[start] = 10;
        let mut rest: u32 = pid;
        let mut more = true;
        proof {
            pid_has_ten_digits_at_most(pid);
            assert(bytes@.skip(31) =~= seq![10u8]);
            assert(ascii(decimal(pid as nat)) + bytes@.skip(31) =~= pid_line(pid));
        }
        while more
            invariant
                bytes@.len() == 32,
                21 <= start <= 31,
                more ==> decimal(rest as nat).len() <= start - 21,
                more ==> ascii(decimal(rest as nat)) + bytes@.skip(start as int) == pid_line(pid),
                !more ==> bytes@.skip(start as int) == pid_line(pid),
            decreases start,
        {
            let ghost before = bytes@;
            let ghost digits = decimal(rest as nat);
            let digit: u8 = (rest % 10) as u8;
            proof {
                assert(digits.len() > 0);
                assert(digits.last() == digit_char((rest % 10) as nat));
                assert(digits.last() as u8 == 48 + digit);
                if rest >= 10 {
                    assert(digits.drop_last() =~= decimal((rest / 10) as nat));
                }
            }
            start = start - 1;
            bytes[start] = 48 + digit;
            proof {
                assert(bytes@.skip(start as int) =~= seq![(48 + digit) as u8] + before.skip(
                    start + 1,
                ));
                assert(ascii(digits) =~= ascii(digits.drop_last()).push((48 + digit) as u8));
                assert(ascii(digits) + before.skip(start + 1) =~= ascii(digits.drop_last())
                    + bytes@.skip(start as int));
                if rest < 10 {
                    assert(digits.drop_last() =~= Seq::empty());
                    assert(ascii(digits.drop_last()) + bytes@.skip(start as int) =~= bytes@.skip(
                        start as int,
                    ));
                }
            }
            rest = rest / 10;
            if rest == 0 {
                more = false;
            }
        }
        PidLine { bytes, start }
    }

    /// The bytes that remain to be written.
    pub fn remaining(&self) -> (r: &[u8])
        requires
            self.wf(),
        ensures
            r@ == self@,
    {
        vstd::slice::slice_subrange(self.bytes.as_slice(), self.start, PID_LINE_ROOM)
    }

    /// Goes on after the remaining bytes were handed to the system, of which it
    /// takes no more than there are.
    pub fn step(&mut self, outcome: RawWrite) -> (r: JoinStep)
        requires
            old(self).wf(),
            outcome matches RawWrite::Written(n) ==> n <= old(self)@.len(),
        ensures
            final(self).wf(),
            match outcome {
                RawWrite::Interrupted => r == JoinStep::Write && final(self)@ == old(self)@,
                RawWrite::Failed(error) => r == JoinStep::Fail(error) && final(self)@ == old(
                    self,
                )@,
                RawWrite::Written(n) => {
                    &&& final(self)@ == old(self)@.skip(n as int)
                    &&& r == (if n == old(self)@.len() {
                        JoinStep::Done
                    } else {
                        JoinStep::Write
                    })
                },
            },
    {
        match outcome {
            RawWrite::Interrupted => JoinStep::Write,
            RawWrite::Failed(error) => JoinStep::Fail(error),
            RawWrite::Written(n) => {
                let ghost before = self@;
                self.start = self.start + n;
                assert(self@ =~= before.skip(n as int));
                if self.start == PID_LINE_ROOM {
                    JoinStep::Done
                } else {
                    JoinStep::Write
                }
            },
        }
    }
}

/// What of a line was written, and what remains, after the system took so many
/// bytes of what remained each time.
pub open spec fn written_in_parts(line: Seq<u8>, taken: Seq<nat>) -> (Seq<u8>, Seq<u8>)
    decreases taken.len(),
{
    if taken.len() == 0 {
        (Seq::empty(), line)
    } else {
        let (written, remaining) = written_in_parts(line, taken.drop_last());
        (
            written + remaining.take(taken.last() as int),
            remaining.skip(taken.last() as int),
        )
    }
}

/// Whether the system never took more than there was.
pub open spec fn fits_each_time(line: Seq<u8>, taken: Seq<nat>) -> bool
    decreases taken.len(),
{
    taken.len() == 0 || (fits_each_time(line, taken.drop_last()) && taken.last()
        <= written_in_parts(line, taken.drop_last()).1.len())
}

/// However the system takes the line, in whichever parts, nothing of it is lost
/// and nothing is written twice.
pub proof fn line_arrives_whole(line: Seq<u8>, taken: Seq<nat>)
    requires
        fits_each_time(line, taken),
    ensures
        written_in_parts(line, taken).0 + written_in_parts(line, taken).1 == line,
    decreases taken.len(),
{
    if taken.len() == 0 {
        assert(Seq::<u8>::empty() + line =~= line);
    } else {
        line_arrives_whole(line, taken.drop_last());
        let (written, remaining) = written_in_parts(line, taken.drop_last());
        let n = taken.last() as int;
        assert(written + remaining.take(n) + remaining.skip(n) =~= written + remaining);
    }
}

/// The line that tells which process leads the session is the decimal number of
/// the process, digit by digit, and a line feed.
pub proof fn line_is_the_number_and_a_line_feed(pid: u32, i: int)
    ensures
        pid_line(pid).len() == decimal(pid as nat).len() + 1,
        pid_line(pid).last() == 10,
        0 <= i < decimal(pid as nat).len() ==> pid_line(pid)[i] == decimal(pid as nat)[i] as u8
            && 48 <= pid_line(pid)[i] <= 57,
{
    crate::digits::numeral_denotes_its_number(pid as nat, 10);
}

/// A process joins by writing the digit zero, which stands for itself, and a
/// line feed.
pub proof fn joining_writes_zero_and_a_line_feed()
    ensures
        JOIN_MESSAGE@ == seq![48u8, 10u8],
{
    assert(JOIN_MESSAGE@ =~= seq![48u8, 10u8]);
}

} // verus!
