//! How often in a year something occurs.

use vstd::prelude::*;

verus! {

/// A named rate of occurrence.
#[derive(Copy, Clone, PartialEq, Eq, Structural, PartialOrd, Ord, Debug)]
pub enum Frequency {
    /// No frequency at all.
    NoFrequency,
    /// A single occurrence.
    Once,
    /// Once a year.
    Annual,
    /// Twice a year.
    Semiannual,
    /// Every fourth month.
    EveryFourthMonth,
    /// Every third month.
    Quarterly,
    /// Every second month.
    Bimonthly,
    /// Once a month.
    Monthly,
    /// Every fourth week.
    EveryFourthWeek,
    /// Every second week.
    Biweekly,
    /// Once a week.
    Weekly,
    /// Once a day.
    Daily,
    /// A frequency that has no name here.
    OtherFrequency,
}

impl Frequency {
    /// The number of occurrences in a year; -1 for `NoFrequency` and 999 for
    /// `OtherFrequency`, which have none.
    pub open spec fn per_year(self) -> int {
        match self {
            Frequency::NoFrequency => -1,
            Frequency::Once => 0,
            Frequency::Annual => 1,
            Frequency::Semiannual => 2,
            Frequency::EveryFourthMonth => 3,
            Frequency::Quarterly => 4,
            Frequency::Bimonthly => 6,
            Frequency::Monthly => 12,
            Frequency::EveryFourthWeek => 13,
            Frequency::Biweekly => 26,
            Frequency::Weekly => 52,
            Frequency::Daily => 365,
            Frequency::OtherFrequency => 999,
        }
    }

    /// The frequency that divides the year into `times` whole numbers of
    /// months; `OtherFrequency` where there is none.
    pub open spec fn of_times_per_year(times: int) -> Frequency {
        if times == 12 {
            Frequency::Monthly
        } else if times == 6 {
            Frequency::Bimonthly
        } else if times == 4 {
            Frequency::Quarterly
        } else if times == 3 {
            Frequency::EveryFourthMonth
        } else if times == 2 {
            Frequency::Semiannual
        } else if times == 1 {
            Frequency::Annual
        } else {
            Frequency::OtherFrequency
        }
    }

    /// The text that stands for the frequency when it is printed.
    pub open spec fn name(self) -> Seq<char> {
        match self {
            Frequency::NoFrequency => "No-Frequency"@,
            Frequency::Once => "Once"@,
            Frequency::Annual => "Annual"@,
            Frequency::Semiannual => "Semiannual"@,
            Frequency::EveryFourthMonth => "Every-Fourth-Month"@,
            Frequency::Quarterly => "Quarterly"@,
            Frequency::Bimonthly => "Bimonthly"@,
            Frequency::Monthly => "Monthly"@,
            Frequency::EveryFourthWeek => "Every-fourth-week"@,
            Frequency::Biweekly => "Biweekly"@,
            Frequency::Weekly => "Weekly"@,
            Frequency::Daily => "Daily"@,
            Frequency::OtherFrequency => "Unknown frequency"@,
        }
    }

    /// The number of occurrences in a year, with the two sentinels.
    pub fn occurrences(self) -> (count: i32)
        ensures
            count == self.per_year(),
    {
        match self {
            Frequency::NoFrequency => -1,
            Frequency::Once => 0,
            Frequency::Annual => 1,
            Frequency::Semiannual => 2,
            Frequency::EveryFourthMonth => 3,
            Frequency::Quarterly => 4,
            Frequency::Bimonthly => 6,
            Frequency::Monthly => 12,
            Frequency::EveryFourthWeek => 13,
            Frequency::Biweekly => 26,
            Frequency::Weekly => 52,
            Frequency::Daily => 365,
            Frequency::OtherFrequency => 999,
        }
    }

    /// The frequency of something that occurs `nth_times` a year at equal
    /// distances of whole months.
    pub fn from_nth_times_per_year(nth_times: u32) -> (frequency: Frequency)
        ensures
            frequency == Frequency::of_times_per_year(nth_times as int),
    {
        match nth_times {
            12 => Frequency::Monthly,
            6 => Frequency::Bimonthly,
            4 => Frequency::Quarterly,
            3 => Frequency::EveryFourthMonth,
            2 => Frequency::Semiannual,
            1 => Frequency::Annual,
            _ => Frequency::OtherFrequency,
        }
    }

    /// The text that stands for the frequency when it is printed.
    pub fn to_string(&self) -> (text: String)
        ensures
            text@ == self.name(),
    {
        let name: &'static str = match self {
            Frequency::NoFrequency => "No-Frequency",
            Frequency::Once => "Once",
            Frequency::Annual => "Annual",
            Frequency::Semiannual => "Semiannual",
            Frequency::EveryFourthMonth => "Every-Fourth-Month",
            Frequency::Quarterly => "Quarterly",
            Frequency::Bimonthly => "Bimonthly",
            Frequency::Monthly => "Monthly",
            Frequency::EveryFourthWeek => "Every-fourth-week",
            Frequency::Biweekly => "Biweekly",
            Frequency::Weekly => "Weekly",
            Frequency::Daily => "Daily",
            Frequency::OtherFrequency => "Unknown frequency",
        };
        String::from_str(name)
    }
}

/// A frequency named by its count of occurrences gives that count back.
pub proof fn lemma_times_per_year(times: int)
    ensures
        Frequency::of_times_per_year(times) != Frequency::OtherFrequency
            ==> Frequency::of_times_per_year(times).per_year() == times,
{
}

} // verus!
