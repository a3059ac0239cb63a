//! Normalises the site's locale-specific date and time strings into
//! the canonical local-datetime form the calendar collaborator takes.

use vstd::prelude::*;
use vstd::string::StrSliceExecFns;
use vstd::string::StringExecFns;
use crate::errors::SyncError;
use crate::text::dec2_digits;
use crate::text::dec_signed;
use crate::text::find_from;
use crate::text::lemma_find_from_bounds;
use crate::text::lemma_token_end_from_bounds;
use crate::text::parse_u8_range;
use crate::text::parse_u8_spec;
use crate::text::push_dec2_u32;
use crate::text::push_dec_i32;
use crate::text::scan_find;
use crate::text::scan_past_ws;
use crate::text::scan_token_end;
use crate::text::skip_ws_from;
use crate::text::str_eq;
use crate::text::token_end_from;

verus! {

/// What [`parse_sp_timestring`] returns for a given input.
///
/// The input is expected to look like `"H:MM AM"` or `"H:MM PM"`; the
/// sentinel `"-:-"` means "no time".  The first whitespace-separated
/// token is split at its first colon into an hour numeral and a
/// minutes part (anything after a second colon is dropped); the second
/// token must read `AM` or `PM`, and `PM` adds twelve to the hour with
/// no wraparound, so `"12:00 PM"` comes out as `"24:00"` just as the
/// site's consumers have always seen it.  The minutes part is kept
/// verbatim.  Any other shape yields `None`.
pub open spec fn norm_time(s: Seq<char>) -> Option<Seq<char>> {
    if s == "-:-"@ {
        None
    } else {
        let a0 = skip_ws_from(s, 0);
        let b0 = token_end_from(s, a0);
        let a1 = skip_ws_from(s, b0);
        let b1 = token_end_from(s, a1);
        let c0 = find_from(s, a0, ':');
        if a0 >= s.len() || a1 >= s.len() || c0 >= b0 {
            None
        } else {
            let c1 = find_from(s, c0 + 1, ':');
            let m_end = if c1 < b0 {
                c1
            } else {
                b0
            };
            let minutes = s.subrange(c0 + 1, m_end);
            let meridiem = s.subrange(a1, b1);
            match parse_u8_spec(s.subrange(a0, c0)) {
                None => None,
                Some(h) => if meridiem == "AM"@ {
                    Some(dec2_digits(h as int) + seq![':'] + minutes)
                } else if meridiem == "PM"@ {
                    Some(dec2_digits(h as int + 12) + seq![':'] + minutes)
                } else {
                    None
                },
            }
        }
    }
}

/// Turn one of the site's time strings into a zero-padded 24-hour
/// `HH:MM` string, or `None` for the "no time" sentinel and anything
/// unreadable.  See [`norm_time`] for the exact shape accepted.
pub fn parse_sp_timestring(input: &str) -> (r: Option<String>)
    ensures
        r.deep_view() == norm_time(input@),
{
    if str_eq(input, "-:-") {
        return None;
    }
    let len = input.unicode_len();
    let a0 = scan_past_ws(input, 0);
    if a0 == len {
        return None;
    }
    let b0 = scan_token_end(input, a0);
    let a1 = scan_past_ws(input, b0);
    if a1 == len {
        return None;
    }
    let b1 = scan_token_end(input, a1);
    let c0 = scan_find(input, a0, ':');
    if c0 >= b0 {
        return None;
    }
    let c1 = scan_find(input, c0 + 1, ':');
    let m_end = if c1 < b0 {
        c1
    } else {
        b0
    };
    proof {
        lemma_token_end_from_bounds(input@, a1 as int);
        lemma_find_from_bounds(input@, c0 as int + 1, ':');
    }
    let h = match parse_u8_range(input, a0, c0) {
        Some(h) => h,
        None => {
            return None;
        },
    };
    let ghost meridiem = input@.subrange(a1 as int, b1 as int);
    let two = b1 - a1 == 2;
    let is_am = two && input.get_char(a1) == 'A' && input.get_char(a1 + 1) == 'M';
    let is_pm = two && input.get_char(a1) == 'P' && input.get_char(a1 + 1) == 'M';
    proof {
        reveal_strlit("AM");
        reveal_strlit("PM");
        if is_am {
            assert(meridiem =~= "AM"@);
        } else {
            assert(meridiem != "AM"@) by {
                if meridiem == "AM"@ {
                    assert(meridiem.len() == 2);
                    assert(meridiem[0] == 'A' && meridiem[1] == 'M');
                    assert(input@[a1 as int] == 'A' && input@[a1 as int + 1] == 'M');
                }
            }
        }
        if is_pm {
            assert(meridiem =~= "PM"@);
        } else {
            assert(meridiem != "PM"@) by {
                if meridiem == "PM"@ {
                    assert(meridiem.len() == 2);
                    assert(meridiem[0] == 'P' && meridiem[1] == 'M');
                    assert(input@[a1 as int] == 'P' && input@[a1 as int + 1] == 'M');
                }
            }
        }
    }
    if !is_am && !is_pm {
        return None;
    }
    let h24: u32 = if is_pm {
        h as u32 + 12
    } else {
        h as u32
    };
    let mut out = String::new();
    push_dec2_u32(h24, &mut out);
    out.append(":");
    let minutes = input.substring_char(c0 + 1, m_end);
    out.append(minutes);
    proof {
        reveal_strlit(":");
        assert(out@ =~= dec2_digits(h24 as int) + seq![':'] + input@.subrange(
            c0 as int + 1,
            m_end as int,
        ));
    }
    Some(out)
}

/// What [`normalize_date`] returns: the `(year, month, day)` triple
/// read from a `"DD/MM"` date string.
///
/// The day is the numeral before the first slash, the month the one
/// between the first slash and the next (or the end).  The year is
/// inferred from the reference date: when `reference_month - 1` is at
/// most the parsed month the event still falls in the reference year,
/// otherwise it has rolled over into the next one.  This heuristic is
/// exact only within a month of the year-end rollover, which is all
/// the schedule page ever shows.  A missing slash or an unreadable
/// numeral is a missing field.
pub open spec fn spec_normalize_date(s: Seq<char>, ref_year: int, ref_month: int) -> Result<
    (int, int, int),
    SyncError,
> {
    let sl = find_from(s, 0, '/');
    if sl >= s.len() {
        Err(SyncError::MissingField)
    } else {
        let sl2 = find_from(s, sl + 1, '/');
        match (parse_u8_spec(s.subrange(0, sl)), parse_u8_spec(s.subrange(sl + 1, sl2))) {
            (Some(d), Some(m)) => {
                let year = if ref_month - 1 <= m as int {
                    ref_year
                } else {
                    ref_year + 1
                };
                Ok((year, m as int, d as int))
            },
            _ => Err(SyncError::MissingField),
        }
    }
}

/// Read a `"DD/MM"` date string and infer its year from the reference
/// date, handling the year-end rollover.  See [`spec_normalize_date`].
pub fn normalize_date(raw: &str, reference_year: i32, reference_month: u8) -> (r: Result<
    (i32, u8, u8),
    SyncError,
>)
    requires
        1 <= reference_month <= 12,
        reference_year < i32::MAX,
    ensures
        match r {
            Ok(ymd) => spec_normalize_date(raw@, reference_year as int, reference_month as int)
                == Ok::<(int, int, int), SyncError>((ymd.0 as int, ymd.1 as int, ymd.2 as int)),
            Err(e) => spec_normalize_date(raw@, reference_year as int, reference_month as int)
                == Err::<(int, int, int), SyncError>(e),
        },
{
    let len = raw.unicode_len();
    let sl = scan_find(raw, 0, '/');
    if sl == len {
        return Err(SyncError::MissingField);
    }
    let sl2 = scan_find(raw, sl + 1, '/');
    let day = parse_u8_range(raw, 0, sl);
    let month = parse_u8_range(raw, sl + 1, sl2);
    match (day, month) {
        (Some(d), Some(m)) => {
            let year: i32 = if reference_month as i32 - 1 <= m as i32 {
                reference_year
            } else {
                reference_year + 1
            };
            Ok((year, m, d))
        },
        _ => Err(SyncError::MissingField),
    }
}

/// The canonical local datetime string: `YYYY-MM-DDTHH:MM:00`, with no
/// explicit offset (the timezone identifier travels separately).
pub open spec fn spec_local_datetime(year: int, month: int, day: int, time: Seq<char>) -> Seq<
    char,
> {
    dec_signed(year) + seq!['-'] + dec2_digits(month) + seq!['-'] + dec2_digits(day) + seq!['T']
        + time + seq![':', '0', '0']
}

/// Combine a normalised date and a normalised `HH:MM` time into the
/// canonical local datetime string.
pub fn format_local_datetime(year: i32, month: u8, day: u8, time: &str) -> (r: String)
    ensures
        r@ == spec_local_datetime(year as int, month as int, day as int, time@),
{
    let mut out = String::new();
    push_dec_i32(year, &mut out);
    out.append("-");
    push_dec2_u32(month as u32, &mut out);
    out.append("-");
    push_dec2_u32(day as u32, &mut out);
    out.append("T");
    out.append(time);
    out.append(":00");
    proof {
        reveal_strlit("-");
        reveal_strlit("T");
        reveal_strlit(":00");
        assert(out@ =~= spec_local_datetime(year as int, month as int, day as int, time@));
    }
    out
}

} // verus!
