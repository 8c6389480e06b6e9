//! The units in which a period is counted.

use vstd::prelude::*;

verus! {

/// A calendar unit. Days and weeks form one family, months and years the
/// other: a length converts exactly within a family and not across.
#[derive(Copy, Clone, PartialEq, Eq, Structural, PartialOrd, Ord, Debug)]
pub enum TimeUnit {
    Days,
    Weeks,
    Months,
    Years,
}

impl TimeUnit {
    /// The English name of the unit, in the plural.
    pub open spec fn name(self) -> Seq<char> {
        match self {
            TimeUnit::Days => "Days"@,
            TimeUnit::Weeks => "Weeks"@,
            TimeUnit::Months => "Months"@,
            TimeUnit::Years => "Years"@,
        }
    }

    /// Whether the unit is counted in days: `Days` or `Weeks`.
    pub open spec fn is_day_based(self) -> bool {
        self == TimeUnit::Days || self == TimeUnit::Weeks
    }

    /// How many of the finer unit of its family make one of this unit: 7 for
    /// `Weeks`, 12 for `Years`, 1 for `Days` and `Months`.
    pub open spec fn per_base(self) -> int {
        match self {
            TimeUnit::Days => 1,
            TimeUnit::Weeks => 7,
            TimeUnit::Months => 1,
            TimeUnit::Years => 12,
        }
    }

    /// The finer unit of the family: `Days` for `Days` and `Weeks`, `Months`
    /// for `Months` and `Years`.
    pub open spec fn base(self) -> TimeUnit {
        match self {
            TimeUnit::Days => TimeUnit::Days,
            TimeUnit::Weeks => TimeUnit::Days,
            TimeUnit::Months => TimeUnit::Months,
            TimeUnit::Years => TimeUnit::Months,
        }
    }

    /// The text that stands for the unit when it is printed: its name.
    pub fn to_string(&self) -> (text: String)
        ensures
            text@ == self.name(),
    {
        let name: &'static str = match self {
            TimeUnit::Days => "Days",
            TimeUnit::Weeks => "Weeks",
            TimeUnit::Months => "Months",
            TimeUnit::Years => "Years",
        };
        String::from_str(name)
    }
}

} // verus!
