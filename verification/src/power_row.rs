//! Texts of the power footer: the tile labels with their arm/confirm state
//! and the clock line.

use vstd::prelude::*;

use crate::power::PowerAction;
use crate::text::{self, decimal, decimal2};

verus! {

/// The label a power tile shows.
pub open spec fn tile_label(action: PowerAction, armed: Option<PowerAction>) -> Seq<char> {
    if armed == Some(action) {
        "Confirm?"@
    } else {
        match action {
            PowerAction::LogOut => "Log out"@,
            PowerAction::Restart => "Restart"@,
            PowerAction::Shutdown => "Power"@,
            PowerAction::Lock => "Lock"@,
            PowerAction::Sleep => "Sleep"@,
            PowerAction::Hibernate => "Hibernate"@,
        }
    }
}

/// Tile label: "Confirm?" while this very action is armed, else its name.
/// `armed` is the action waiting for confirmation, if any.
pub fn label_for(action: PowerAction, armed: Option<PowerAction>) -> (r: &'static str)
    ensures
        r@ == tile_label(action, armed),
{
    let is_armed = match armed {
        Some(a) => a == action,
        None => false,
    };
    if is_armed {
        "Confirm?"
    } else {
        match action {
            PowerAction::LogOut => "Log out",
            PowerAction::Restart => "Restart",
            PowerAction::Shutdown => "Power",
            PowerAction::Lock => "Lock",
            PowerAction::Sleep => "Sleep",
            PowerAction::Hibernate => "Hibernate",
        }
    }
}

/// The Russian month abbreviation for a zero-based month, `???` past
/// December.
pub open spec fn month_abbrev(month0: u32) -> Seq<char> {
    if month0 == 0 {
        "янв"@
    } else if month0 == 1 {
        "фев"@
    } else if month0 == 2 {
        "мар"@
    } else if month0 == 3 {
        "апр"@
    } else if month0 == 4 {
        "май"@
    } else if month0 == 5 {
        "июн"@
    } else if month0 == 6 {
        "июл"@
    } else if month0 == 7 {
        "авг"@
    } else if month0 == 8 {
        "сен"@
    } else if month0 == 9 {
        "окт"@
    } else if month0 == 10 {
        "ноя"@
    } else if month0 == 11 {
        "дек"@
    } else {
        "???"@
    }
}

fn month_name(month0: u32) -> (r: &'static str)
    ensures
        r@ == month_abbrev(month0),
{
    if month0 == 0 {
        "янв"
    } else if month0 == 1 {
        "фев"
    } else if month0 == 2 {
        "мар"
    } else if month0 == 3 {
        "апр"
    } else if month0 == 4 {
        "май"
    } else if month0 == 5 {
        "июн"
    } else if month0 == 6 {
        "июл"
    } else if month0 == 7 {
        "авг"
    } else if month0 == 8 {
        "сен"
    } else if month0 == 9 {
        "окт"
    } else if month0 == 10 {
        "ноя"
    } else if month0 == 11 {
        "дек"
    } else {
        "???"
    }
}

/// The clock line `HH:MM · D mon` for a local time.
pub open spec fn clock_line(hour: u32, minute: u32, day: u32, month0: u32) -> Seq<char> {
    decimal2(hour as nat) + seq![':'] + decimal2(minute as nat) + seq![' ', '·', ' '] + decimal(
        day as nat,
    ) + seq![' '] + month_abbrev(month0)
}

/// Formats the footer clock from the fields of a local time (`%H:%M`, the
/// day of the month, and the zero-based month).
pub fn clock_text(hour: u32, minute: u32, day: u32, month0: u32) -> (r: String)
    ensures
        r@ == clock_line(hour, minute, day, month0),
{
    let mut v: Vec<char> = Vec::new();
    text::push_decimal2(&mut v, hour as u64);
    v.push(':');
    text::push_decimal2(&mut v, minute as u64);
    v.push(' ');
    v.push('·');
    v.push(' ');
    text::push_decimal(&mut v, day as u64);
    v.push(' ');
    text::extend_str(&mut v, month_name(month0));
    assert(v@ =~= clock_line(hour, minute, day, month0));
    text::string_of(&v)
}

/// The Russian month abbreviations in calendar order, January first.
pub open spec fn calendar_months() -> Seq<Seq<char>> {
    seq![
        "янв"@,
        "фев"@,
        "мар"@,
        "апр"@,
        "май"@,
        "июн"@,
        "июл"@,
        "авг"@,
        "сен"@,
        "окт"@,
        "ноя"@,
        "дек"@,
    ]
}

/// The clock names month `month0` (zero-based) by the `month0`-th entry of
/// the calendar-ordered list, for every month of the year: the line ends
/// with that abbreviation after a space.
pub proof fn lemma_clock_names_calendar_month(hour: u32, minute: u32, day: u32, month0: u32)
    requires
        month0 < 12,
    ensures
        month_abbrev(month0) == calendar_months()[month0 as int],
        ({
            let line = clock_line(hour, minute, day, month0);
            let m = calendar_months()[month0 as int];
            line.len() >= m.len() + 1 && line.subrange(line.len() - m.len(), line.len() as int) == m
                && line[line.len() - m.len() - 1] == ' '
        }),
{
    let line = clock_line(hour, minute, day, month0);
    let m = calendar_months()[month0 as int];
    assert(month_abbrev(month0) == m);
    let pre = decimal2(hour as nat) + seq![':'] + decimal2(minute as nat) + seq![' ', '·', ' ']
        + decimal(day as nat) + seq![' '];
    assert(line == pre + m);
    assert(line.subrange(line.len() - m.len(), line.len() as int) =~= m);
    assert(line[line.len() - m.len() - 1] == pre[pre.len() - 1]);
}

} // verus!
