//! The lines of the run's log.

use vstd::prelude::*;

verus! {

/// A line of the log: the time stamp in square brackets, a space, the
/// message, and a line feed.
pub open spec fn log_line(timestamp: Seq<char>, message: Seq<char>) -> Seq<char> {
    seq!['['] + timestamp + seq![']', ' '] + message + seq!['\n']
}

/// Writes the line that records `message` at the time `timestamp`.
pub fn format_log_line(timestamp: &str, message: &str) -> (line: String)
    ensures
        line@ == log_line(timestamp@, message@),
{
    let mut line = String::new();
    line.append("[");
    line.append(timestamp);
    line.append("] ");
    line.append(message);
    line.append("\n");
    proof {
        reveal_strlit("[");
        reveal_strlit("] ");
        reveal_strlit("\n");
        assert(line@ =~= log_line(timestamp@, message@));
    }
    line
}

} // verus!
