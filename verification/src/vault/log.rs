//! The lines of the vault's audit logs.

use crate::util::text::padded;
use crate::util::text::show_padded;
use vstd::prelude::*;

verus! {

/// `[time] message`, as a line.
pub open spec fn logged(time: Seq<char>, message: Seq<char>) -> Seq<char> {
    "["@ + time + "] "@ + message + "\n"@
}

/// `[time] message`, as a line.
pub fn log_line(time: &str, message: &str) -> (r: String)
    ensures
        r@ == logged(time@, message@),
{
    let mut r = "[".to_owned();
    r.append(time);
    r.append("] ");
    r.append(message);
    r.append("\n");
    r
}

/// `[time] SECTION: message`, as a line.
pub fn log_section(time: &str, section: &str, message: &str) -> (r: String)
    ensures
        r@ == logged(time@, section@ + ": "@ + message@),
{
    let mut m = section.to_owned();
    m.append(": ");
    m.append(message);
    log_line(time, m.as_str())
}

/// A date and a time of the local clock.
pub struct LocalTime {
    pub year: u64,
    pub month: u64,
    pub day: u64,
    pub hour: u64,
    pub minute: u64,
    pub second: u64,
}

impl LocalTime {
    /// `YYYYMMDD-HHMMSS`.
    pub open spec fn stamp(self) -> Seq<char> {
        padded(self.year as nat, 4) + padded(self.month as nat, 2) + padded(self.day as nat, 2)
            + "-"@ + padded(self.hour as nat, 2) + padded(self.minute as nat, 2) + padded(
            self.second as nat,
            2,
        )
    }

    /// A timestamp in `YYYYMMDD-HHMMSS` format.
    pub fn timestamp_str(&self) -> (r: String)
        ensures
            r@ == self.stamp(),
    {
        let mut r = show_padded(self.year, 4);
        r.append(show_padded(self.month, 2).as_str());
        r.append(show_padded(self.day, 2).as_str());
        r.append("-");
        r.append(show_padded(self.hour, 2).as_str());
        r.append(show_padded(self.minute, 2).as_str());
        r.append(show_padded(self.second, 2).as_str());
        r
    }
}

} // verus!
