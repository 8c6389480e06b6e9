//! The days of the week.

use crate::time::error::TimeError;
use vstd::prelude::*;

verus! {

/// The ordinal of a weekday, from 1 for Sunday to 7 for Saturday.
pub type WeekDayIndex = usize;

/// A day of the week.
#[derive(Copy, Clone, PartialEq, Eq, Structural, PartialOrd, Ord, Debug)]
pub enum Weekday {
    Sunday,
    Monday,
    Tuesday,
    Wednesday,
    Thursday,
    Friday,
    Saturday,
}

impl Weekday {
    /// The ordinal of the weekday: 1 for Sunday up to 7 for Saturday.
    pub open spec fn ordinal(self) -> int {
        match self {
            Weekday::Sunday => 1,
            Weekday::Monday => 2,
            Weekday::Tuesday => 3,
            Weekday::Wednesday => 4,
            Weekday::Thursday => 5,
            Weekday::Friday => 6,
            Weekday::Saturday => 7,
        }
    }

    /// The weekday with the given ordinal; Saturday stands for every ordinal
    /// that no weekday has.
    pub open spec fn of_ordinal(ordinal: int) -> Weekday {
        if ordinal == 1 {
            Weekday::Sunday
        } else if ordinal == 2 {
            Weekday::Monday
        } else if ordinal == 3 {
            Weekday::Tuesday
        } else if ordinal == 4 {
            Weekday::Wednesday
        } else if ordinal == 5 {
            Weekday::Thursday
        } else if ordinal == 6 {
            Weekday::Friday
        } else {
            Weekday::Saturday
        }
    }

    /// The full English name.
    pub open spec fn long_name(self) -> Seq<char> {
        match self {
            Weekday::Sunday => "Sunday"@,
            Weekday::Monday => "Monday"@,
            Weekday::Tuesday => "Tuesday"@,
            Weekday::Wednesday => "Wednesday"@,
            Weekday::Thursday => "Thursday"@,
            Weekday::Friday => "Friday"@,
            Weekday::Saturday => "Saturday"@,
        }
    }

    /// The three-letter English name.
    pub open spec fn short_name(self) -> Seq<char> {
        match self {
            Weekday::Sunday => "Sun"@,
            Weekday::Monday => "Mon"@,
            Weekday::Tuesday => "Tue"@,
            Weekday::Wednesday => "Wed"@,
            Weekday::Thursday => "Thu"@,
            Weekday::Friday => "Fri"@,
            Weekday::Saturday => "Sat"@,
        }
    }

    /// The two-letter English name.
    pub open spec fn shortest_name(self) -> Seq<char> {
        match self {
            Weekday::Sunday => "Su"@,
            Weekday::Monday => "Mo"@,
            Weekday::Tuesday => "Tu"@,
            Weekday::Wednesday => "We"@,
            Weekday::Thursday => "Th"@,
            Weekday::Friday => "Fr"@,
            Weekday::Saturday => "Sa"@,
        }
    }

    /// The ordinal of the weekday.
    pub fn index(self) -> (index: WeekDayIndex)
        ensures
            index == self.ordinal(),
            1 <= index <= 7,
    {
        match self {
            Weekday::Sunday => 1,
            Weekday::Monday => 2,
            Weekday::Tuesday => 3,
            Weekday::Wednesday => 4,
            Weekday::Thursday => 5,
            Weekday::Friday => 6,
            Weekday::Saturday => 7,
        }
    }

    /// The weekday with ordinal `number`, which must lie in `1..=7`.
    pub fn from_index(number: WeekDayIndex) -> (result: Result<Weekday, TimeError>)
        ensures
            1 <= number <= 7 ==> result == Ok::<Weekday, TimeError>(
                Weekday::of_ordinal(number as int),
            ),
            !(1 <= number <= 7) ==> result == Err::<Weekday, TimeError>(
                TimeError::WeekdayOutOfRange,
            ),
            result matches Ok(weekday) ==> weekday.ordinal() == number,
    {
        match number {
            1 => Ok(Weekday::Sunday),
            2 => Ok(Weekday::Monday),
            3 => Ok(Weekday::Tuesday),
            4 => Ok(Weekday::Wednesday),
            5 => Ok(Weekday::Thursday),
            6 => Ok(Weekday::Friday),
            7 => Ok(Weekday::Saturday),
            _ => Err(TimeError::WeekdayOutOfRange),
        }
    }

    /// The weekday with ordinal `number`, if there is one.
    pub fn from_i32(number: i32) -> (result: Option<Weekday>)
        ensures
            1 <= number <= 7 ==> result == Some(Weekday::of_ordinal(number as int)),
            !(1 <= number <= 7) ==> result.is_none(),
            result matches Some(weekday) ==> weekday.ordinal() == number,
    {
        if 1 <= number && number <= 7 {
            match Weekday::from_index(number as usize) {
                Ok(weekday) => Some(weekday),
                Err(_) => None,
            }
        } else {
            None
        }
    }

    /// The weekday `days` places later in the week. The week does not wrap
    /// round: a result past Saturday is refused.
    pub fn add(self, days: WeekDayIndex) -> (result: Result<Weekday, TimeError>)
        ensures
            self.ordinal() + days <= 7 ==> result == Ok::<Weekday, TimeError>(
                Weekday::of_ordinal(self.ordinal() + days),
            ),
            self.ordinal() + days > 7 ==> result == Err::<Weekday, TimeError>(
                TimeError::WeekdayOutOfRange,
            ),
    {
        if days > 6 {
            Err(TimeError::WeekdayOutOfRange)
        } else {
            Weekday::from_index(self.index() + days)
        }
    }

    /// The weekday `days` places earlier in the week. The week does not wrap
    /// round: a result before Sunday is refused.
    pub fn sub(self, days: WeekDayIndex) -> (result: Result<Weekday, TimeError>)
        ensures
            self.ordinal() - days >= 1 ==> result == Ok::<Weekday, TimeError>(
                Weekday::of_ordinal(self.ordinal() - days),
            ),
            self.ordinal() - days < 1 ==> result == Err::<Weekday, TimeError>(
                TimeError::WeekdayOutOfRange,
            ),
    {
        let index = self.index();
        if days >= index {
            Err(TimeError::WeekdayOutOfRange)
        } else {
            Weekday::from_index(index - days)
        }
    }

    /// The full English name.
    pub fn long_weekday(&self) -> (name: &'static str)
        ensures
            name@ == self.long_name(),
    {
        match self {
            Weekday::Sunday => "Sunday",
            Weekday::Monday => "Monday",
            Weekday::Tuesday => "Tuesday",
            Weekday::Wednesday => "Wednesday",
            Weekday::Thursday => "Thursday",
            Weekday::Friday => "Friday",
            Weekday::Saturday => "Saturday",
        }
    }

    /// The three-letter English name.
    pub fn short_weekday(&self) -> (name: &'static str)
        ensures
            name@ == self.short_name(),
    {
        match self {
            Weekday::Sunday => "Sun",
            Weekday::Monday => "Mon",
            Weekday::Tuesday => "Tue",
            Weekday::Wednesday => "Wed",
            Weekday::Thursday => "Thu",
            Weekday::Friday => "Fri",
            Weekday::Saturday => "Sat",
        }
    }

    /// The two-letter English name.
    pub fn shortest_weekday(&self) -> (name: &'static str)
        ensures
            name@ == self.shortest_name(),
    {
        match self {
            Weekday::Sunday => "Su",
            Weekday::Monday => "Mo",
            Weekday::Tuesday => "Tu",
            Weekday::Wednesday => "We",
            Weekday::Thursday => "Th",
            Weekday::Friday => "Fr",
            Weekday::Saturday => "Sa",
        }
    }

    /// The text that stands for the weekday when it is printed: its full name.
    pub fn to_string(&self) -> (text: String)
        ensures
            text@ == self.long_name(),
    {
        String::from_str(self.long_weekday())
    }
}

/// The ordinals and the weekdays correspond one to one.
pub proof fn lemma_weekday_ordinal(weekday: Weekday, ordinal: int)
    ensures
        1 <= weekday.ordinal() <= 7,
        Weekday::of_ordinal(weekday.ordinal()) == weekday,
        1 <= ordinal <= 7 ==> Weekday::of_ordinal(ordinal).ordinal() == ordinal,
{
}

/// The full English name of a weekday.
pub fn long_weekday(weekday: Weekday) -> (name: &'static str)
    ensures
        name@ == weekday.long_name(),
{
    weekday.long_weekday()
}

/// The three-letter English name of a weekday.
pub fn short_weekday(weekday: Weekday) -> (name: &'static str)
    ensures
        name@ == weekday.short_name(),
{
    weekday.short_weekday()
}

/// The two-letter English name of a weekday.
pub fn shortest_weekday(weekday: Weekday) -> (name: &'static str)
    ensures
        name@ == weekday.shortest_name(),
{
    weekday.shortest_weekday()
}

} // verus!
