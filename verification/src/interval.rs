//! The sampling intervals that the quotes service offers.

use vstd::prelude::*;

verus! {

/// The distance between two rows of a price table.
#[derive(Debug)]
pub enum Interval {
    /// One day.
    D1,
    /// Five days.
    D5,
    /// One week.
    W1,
    /// One month.
    M1,
    /// Three months.
    M3,
}

impl Interval {
    /// The code by which the service knows this interval.
    pub open spec fn code(&self) -> Seq<char> {
        match self {
            Interval::D1 => seq!['1', 'd'],
            Interval::D5 => seq!['5', 'd'],
            Interval::W1 => seq!['1', 'w'],
            Interval::M1 => seq!['1', 'm'],
            Interval::M3 => seq!['3', 'm'],
        }
    }

    /// The code of this interval as it stands in a request.
    pub fn as_str(&self) -> (s: &'static str)
        ensures
            s@ == self.code(),
    {
        proof {
            reveal_strlit("1d");
            reveal_strlit("5d");
            reveal_strlit("1w");
            reveal_strlit("1m");
            reveal_strlit("3m");
        }
        let s = match self {
            Interval::D1 => "1d",
            Interval::D5 => "5d",
            Interval::W1 => "1w",
            Interval::M1 => "1m",
            Interval::M3 => "3m",
        };
        assert(s@ =~= self.code());
        s
    }

    /// The code of this interval, as an owned string.
    pub fn to_string(&self) -> (s: String)
        ensures
            s@ == self.code(),
    {
        String::from_str(self.as_str())
    }
}

} // verus!
