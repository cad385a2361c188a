//! The event log the band shows the tail of.

use vstd::prelude::*;

verus! {

/// How many lines the log keeps.
pub const ROLL_LOG_CAPACITY: usize = 32;

/// The lines a log holds after one more: the line appended, and the oldest dropped once
/// there are more than the capacity.
pub open spec fn spec_pushed(lines: Seq<String>, line: String) -> Seq<String> {
    if lines.len() + 1 > ROLL_LOG_CAPACITY {
        lines.push(line).drop_first()
    } else {
        lines.push(line)
    }
}

/// The event log, oldest first, with the roll math; the band shows its tail.
#[derive(Debug, Clone, Default, PartialEq, Eq)]
pub struct RollLog(pub Vec<String>);

impl RollLog {
    /// Append a line, dropping the oldest past the capacity.
    pub fn push(&mut self, line: String)
        ensures
            final(self).0@ == spec_pushed(old(self).0@, line),
    {
        self.0.push(line);
        if self.0.len() > ROLL_LOG_CAPACITY {
            self.0.remove(0);
        }
    }

    /// Forget every line.
    pub fn clear(&mut self)
        ensures
            final(self).0@ == Seq::<String>::empty(),
    {
        self.0.clear();
    }
}

/// A log within its capacity stays within it after a push, ends with the pushed line, and
/// keeps the lines before it in order: all of them while there is room, all but the oldest
/// once it is full.
pub proof fn lemma_push_keeps_the_tail(lines: Seq<String>, line: String)
    requires
        lines.len() <= ROLL_LOG_CAPACITY,
    ensures
        spec_pushed(lines, line).len() <= ROLL_LOG_CAPACITY,
        spec_pushed(lines, line).last() == line,
        lines.len() < ROLL_LOG_CAPACITY ==> spec_pushed(lines, line).drop_last() == lines,
        lines.len() == ROLL_LOG_CAPACITY ==> spec_pushed(lines, line).drop_last() == lines.drop_first(),
{
    if lines.len() == ROLL_LOG_CAPACITY {
        assert(lines.push(line).drop_first().drop_last() =~= lines.drop_first());
    } else {
        assert(lines.push(line).drop_last() =~= lines);
    }
}

} // verus!
