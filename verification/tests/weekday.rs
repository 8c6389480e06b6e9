use code_rust::io;
use code_rust::time::error::TimeError;
use code_rust::time::weekday::{WeekDayIndex, Weekday};

#[test]
fn weekday_long_weekday_outputs_correct_names() {
    let cases: [(Weekday, &str); 7] = [
        (Weekday::Sunday, "Sunday"),
        (Weekday::Monday, "Monday"),
        (Weekday::Tuesday, "Tuesday"),
        (Weekday::Wednesday, "Wednesday"),
        (Weekday::Thursday, "Thursday"),
        (Weekday::Friday, "Friday"),
        (Weekday::Saturday, "Saturday"),
    ];

    for (weekday, expected) in cases {
        assert_eq!(format!("{}", io::long_weekday(weekday)), expected, "Failed for {:?}", weekday);
    }
}

#[test]
fn long_weekday_outputs_correct_names() {
    let cases: [(Weekday, &str); 7] = [
        (Weekday::Sunday, "Sunday"),
        (Weekday::Monday, "Monday"),
        (Weekday::Tuesday, "Tuesday"),
        (Weekday::Wednesday, "Wednesday"),
        (Weekday::Thursday, "Thursday"),
        (Weekday::Friday, "Friday"),
        (Weekday::Saturday, "Saturday"),
    ];

    for (weekday, expected) in cases {
        assert_eq!(weekday.long_weekday(), expected, "Failed for {:?}", weekday);
    }
}

#[test]
fn weekday_short_weekday_outputs_correct_abbreviations() {
    let cases: [(Weekday, &str); 7] = [
        (Weekday::Sunday, "Sun"),
        (Weekday::Monday, "Mon"),
        (Weekday::Tuesday, "Tue"),
        (Weekday::Wednesday, "Wed"),
        (Weekday::Thursday, "Thu"),
        (Weekday::Friday, "Fri"),
        (Weekday::Saturday, "Sat"),
    ];

    for (weekday, expected) in cases {
        assert_eq!(format!("{}", io::short_weekday(weekday)), expected, "Failed for {:?}", weekday);
    }
}

#[test]
fn short_weekday_outputs_correct_abbreviations() {
    let cases: [(Weekday, &str); 7] = [
        (Weekday::Sunday, "Sun"),
        (Weekday::Monday, "Mon"),
        (Weekday::Tuesday, "Tue"),
        (Weekday::Wednesday, "Wed"),
        (Weekday::Thursday, "Thu"),
        (Weekday::Friday, "Fri"),
        (Weekday::Saturday, "Sat"),
    ];

    for (weekday, expected) in cases {
        assert_eq!(weekday.short_weekday(), expected, "Failed for {:?}", weekday);
    }
}

#[test]
fn weekday_shortest_weekday_outputs_correct_abbreviations() {
    let cases: [(Weekday, &str); 7] = [
        (Weekday::Sunday, "Su"),
        (Weekday::Monday, "Mo"),
        (Weekday::Tuesday, "Tu"),
        (Weekday::Wednesday, "We"),
        (Weekday::Thursday, "Th"),
        (Weekday::Friday, "Fr"),
        (Weekday::Saturday, "Sa"),
    ];

    for (weekday, expected) in cases {
        assert_eq!(
            format!("{}", io::shortest_weekday(weekday)),
            expected,
            "Failed for {:?}",
            weekday
        );
    }
}

#[test]
fn shortest_weekday_outputs_correct_abbreviations() {
    let cases: [(Weekday, &str); 7] = [
        (Weekday::Sunday, "Su"),
        (Weekday::Monday, "Mo"),
        (Weekday::Tuesday, "Tu"),
        (Weekday::Wednesday, "We"),
        (Weekday::Thursday, "Th"),
        (Weekday::Friday, "Fr"),
        (Weekday::Saturday, "Sa"),
    ];

    for (weekday, expected) in cases {
        assert_eq!(weekday.shortest_weekday(), expected, "Failed for {:?}", weekday);
    }
}

#[test]
fn weekday_display_trait_outputs_long_weekday() {
    let cases: [(Weekday, &str); 7] = [
        (Weekday::Sunday, "Sunday"),
        (Weekday::Monday, "Monday"),
        (Weekday::Tuesday, "Tuesday"),
        (Weekday::Wednesday, "Wednesday"),
        (Weekday::Thursday, "Thursday"),
        (Weekday::Friday, "Friday"),
        (Weekday::Saturday, "Saturday"),
    ];

    for (weekday, expected) in cases {
        assert_eq!(weekday.to_string(), expected, "Failed for {:?}", weekday);
    }
}

#[test]
fn display_trait_outputs_long_weekday() {
    let cases: [(Weekday, &str); 7] = [
        (Weekday::Sunday, "Sunday"),
        (Weekday::Monday, "Monday"),
        (Weekday::Tuesday, "Tuesday"),
        (Weekday::Wednesday, "Wednesday"),
        (Weekday::Thursday, "Thursday"),
        (Weekday::Friday, "Friday"),
        (Weekday::Saturday, "Saturday"),
    ];

    for (weekday, expected) in cases {
        assert_eq!(format!("{}", weekday.to_string()), expected, "Failed for {:?}", weekday);
    }
}

#[test]
fn from_index_valid_inputs() {
    let cases: [(WeekDayIndex, Weekday); 7] = [
        (1, Weekday::Sunday),
        (2, Weekday::Monday),
        (3, Weekday::Tuesday),
        (4, Weekday::Wednesday),
        (5, Weekday::Thursday),
        (6, Weekday::Friday),
        (7, Weekday::Saturday),
    ];

    for (num, expected) in cases {
        assert_eq!(Weekday::from_index(num).unwrap(), expected);
        assert_eq!(Weekday::from_i32(num as i32), Some(expected));
        assert_eq!(expected.index(), num);
    }
}

#[test]
fn from_index_invalid_inputs_panic() {
    let invalid_cases: [WeekDayIndex; 3] = [0, 8, 100];
    for num in invalid_cases {
        assert_eq!(
            Weekday::from_index(num),
            Err(TimeError::WeekdayOutOfRange),
            "Expected a refusal for input {}",
            num
        );
        assert_eq!(Weekday::from_i32(num as i32), None);
    }
    assert_eq!(Weekday::from_i32(-1), None);
}

#[test]
fn add_weekday_within_bounds() {
    assert_eq!(Weekday::Sunday.add(1).unwrap(), Weekday::Monday);
    assert_eq!(Weekday::Friday.add(1).unwrap(), Weekday::Saturday);
}

#[test]
fn sub_weekday_within_bounds() {
    assert_eq!(Weekday::Tuesday.sub(1).unwrap(), Weekday::Monday);
    assert_eq!(Weekday::Monday.sub(1).unwrap(), Weekday::Sunday);
}

#[test]
fn add_weekday_out_of_bounds_panics() {
    let cases = [(Weekday::Saturday, 1), (Weekday::Friday, 3)];

    for (weekday, addend) in cases {
        assert_eq!(
            weekday.add(addend),
            Err(TimeError::WeekdayOutOfRange),
            "Expected a refusal for {:?} + {}",
            weekday,
            addend
        );
    }
    assert_eq!(Weekday::Sunday.add(usize::MAX), Err(TimeError::WeekdayOutOfRange));
    assert_eq!(Weekday::Sunday.add(6), Ok(Weekday::Saturday));
    assert_eq!(Weekday::Wednesday.add(0), Ok(Weekday::Wednesday));
}

#[test]
fn sub_weekday_out_of_bounds_panics() {
    let cases = [(Weekday::Sunday, 1), (Weekday::Monday, 5)];

    for (weekday, subtrahend) in cases {
        assert_eq!(
            weekday.sub(subtrahend),
            Err(TimeError::WeekdayOutOfRange),
            "Expected a refusal for {:?} - {}",
            weekday,
            subtrahend
        );
    }
    assert_eq!(Weekday::Saturday.sub(6), Ok(Weekday::Sunday));
    assert_eq!(Weekday::Saturday.sub(usize::MAX), Err(TimeError::WeekdayOutOfRange));
}
