//! Holidays that name an album's day.
use crate::timeline::calendar::{lunar_in_range, solar_to_lunar, CivilDate, LunarDate};
use vstd::prelude::*;

verus! {

/// The Chinese festival on a lunar date outside a leap month, if any.
pub open spec fn lunar_holiday_spec(lunar: LunarDate) -> Option<Seq<char>> {
    if lunar.is_leap_month {
        None
    } else if lunar.month == 1 && lunar.day == 1 {
        Some("春节"@)
    } else if lunar.month == 1 && lunar.day == 15 {
        Some("元宵"@)
    } else if lunar.month == 5 && lunar.day == 5 {
        Some("端午"@)
    } else if lunar.month == 8 && lunar.day == 15 {
        Some("中秋"@)
    } else {
        None
    }
}

/// The fixed Gregorian holiday on a date, if any.
pub open spec fn gregorian_holiday_spec(date: CivilDate) -> Option<Seq<char>> {
    if date.month == 1 && date.day == 1 {
        Some("元旦"@)
    } else if date.month == 5 && date.day == 1 {
        Some("劳动节"@)
    } else if date.month == 10 && date.day == 1 {
        Some("国庆节"@)
    } else if date.month == 12 && date.day == 25 {
        Some("Christmas"@)
    } else {
        None
    }
}

/// The holiday of a date whose lunar date is known (or could not be found): a Chinese
/// festival first, then a fixed Gregorian holiday.
pub open spec fn holiday_spec(date: CivilDate, lunar: Option<LunarDate>) -> Option<Seq<char>> {
    match lunar {
        Some(l) => match lunar_holiday_spec(l) {
            Some(name) => Some(name),
            None => gregorian_holiday_spec(date),
        },
        None => gregorian_holiday_spec(date),
    }
}

/// `h` is the holiday of the date for some lunar date within the calendar's bounds, or
/// for none: a festival of that lunar date, else the date's Gregorian holiday.
pub open spec fn holiday_named(date: CivilDate, h: Option<Seq<char>>) -> bool {
    exists|l: Option<LunarDate>|
        (l matches Some(x) ==> lunar_in_range(x)) && #[trigger] holiday_spec(date, l) == h
}

/// The holiday of a date given its lunar date, as [`holiday_for`] finds it.
pub fn holiday_from_lunar(date: CivilDate, lunar: Option<LunarDate>) -> (r: Option<&'static str>)
    ensures
        match r {
            Some(s) => holiday_spec(date, lunar) == Some(s@),
            None => holiday_spec(date, lunar) is None,
        },
{
    if let Some(l) = lunar {
        if !l.is_leap_month {
            if l.month == 1 && l.day == 1 {
                return Some("春节");
            } else if l.month == 1 && l.day == 15 {
                return Some("元宵");
            } else if l.month == 5 && l.day == 5 {
                return Some("端午");
            } else if l.month == 8 && l.day == 15 {
                return Some("中秋");
            }
        }
    }
    if date.month == 1 && date.day == 1 {
        Some("元旦")
    } else if date.month == 5 && date.day == 1 {
        Some("劳动节")
    } else if date.month == 10 && date.day == 1 {
        Some("国庆节")
    } else if date.month == 12 && date.day == 25 {
        Some("Christmas")
    } else {
        None
    }
}

/// The holiday observed on a date, through the lunar date `lunar_lite` gives it. Chinese
/// lunar festivals take precedence over fixed Gregorian holidays when both fall on the
/// same day.
pub fn holiday_for(date: CivilDate) -> (r: Option<&'static str>)
    ensures
        holiday_named(
            date,
            match r {
                Some(s) => Some(s@),
                None => None,
            },
        ),
{
    let lunar = solar_to_lunar(date);
    let r = holiday_from_lunar(date, lunar);
    assert(holiday_spec(date, lunar) == match r {
        Some(s) => Some(s@),
        None => None::<Seq<char>>,
    });
    r
}

/// A lunar festival names the day even when a Gregorian holiday falls on it too.
pub proof fn lemma_lunar_festival_wins(date: CivilDate, lunar: LunarDate)
    requires
        lunar_holiday_spec(lunar) is Some,
    ensures
        holiday_spec(date, Some(lunar)) == lunar_holiday_spec(lunar),
{
}

/// Without a lunar festival, the Gregorian holiday (or none) names the day.
pub proof fn lemma_gregorian_otherwise(date: CivilDate, lunar: Option<LunarDate>)
    requires
        !(lunar matches Some(l) && lunar_holiday_spec(l) is Some),
    ensures
        holiday_spec(date, lunar) == gregorian_holiday_spec(date),
{
}

} // verus!
