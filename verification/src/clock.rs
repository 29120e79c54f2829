//! The machine's clock, as the one thing that the prompt takes from
//! outside, and the form in which a moment is written.

use crate::number::{all_digits, is_digit};
use crate::text::chars_of;
use vstd::prelude::*;
use vstd::string::*;

verus! {

/// The form of a timestamp after its year: month, day, hour, minute,
/// second, six digits of the second's fraction, and the offset from UTC in
/// hours and minutes. A `9` stands for any digit, the `+` for either sign,
/// every other character for itself.
pub const STAMP_FORM: &'static str = "-99-99T99:99:99.999999+99:99";

/// `text` has the form `form`, character for character.
pub open spec fn has_form(text: Seq<char>, form: Seq<char>) -> bool {
    &&& text.len() == form.len()
    &&& forall|i: int|
        0 <= i < form.len() ==> if form[i] == '9' {
            is_digit(text[i])
        } else if form[i] == '+' {
            text[i] == '+' || text[i] == '-'
        } else {
            text[i] == form[i]
        }
}

/// `year` is a year as a timestamp begins with it: four digits, or a sign
/// and four digits or more for a year that four digits cannot hold.
pub open spec fn is_stamp_year(year: Seq<char>) -> bool {
    ||| year.len() == 4 && all_digits(year)
    ||| year.len() >= 5 && (year[0] == '+' || year[0] == '-') && all_digits(
        year.subrange(1, year.len() as int),
    )
}

/// `stamp` is a timestamp: a year, and after it what `STAMP_FORM` shows,
/// as in `2023-09-14T10:20:30.123456+02:00`.
pub open spec fn is_timestamp(stamp: Seq<char>) -> bool {
    &&& stamp.len() >= 4 + STAMP_FORM@.len()
    &&& is_stamp_year(stamp.subrange(0, stamp.len() - STAMP_FORM@.len()))
    &&& has_form(
        stamp.subrange(stamp.len() - STAMP_FORM@.len(), stamp.len() as int),
        STAMP_FORM@,
    )
}

fn fits_form(text: &Vec<char>, from: usize, form: &Vec<char>) -> (fits: bool)
    requires
        from + form.len() == text.len(),
    ensures
        fits == has_form(text@.subrange(from as int, text.len() as int), form@),
{
    let ghost part = text@.subrange(from as int, text.len() as int);
    let mut i: usize = 0;
    while i < form.len()
        invariant
            i <= form.len(),
            from + form.len() == text.len(),
            part == text@.subrange(from as int, text.len() as int),
            forall|k: int|
                0 <= k < i ==> if form@[k] == '9' {
                    is_digit(part[k])
                } else if form@[k] == '+' {
                    part[k] == '+' || part[k] == '-'
                } else {
                    part[k] == form@[k]
                },
        decreases form.len() - i,
    {
        let c = text[from + i];
        assert(c == part[i as int]);
        let fits = if form[i] == '9' {
            '0' <= c && c <= '9'
        } else if form[i] == '+' {
            c == '+' || c == '-'
        } else {
            c == form[i]
        };
        if !fits {
            return false;
        }
        i = i + 1;
    }
    true
}

fn digits_only(text: &Vec<char>, from: usize, to: usize) -> (only: bool)
    requires
        from <= to <= text.len(),
    ensures
        only == all_digits(text@.subrange(from as int, to as int)),
{
    let ghost part = text@.subrange(from as int, to as int);
    let mut i: usize = from;
    while i < to
        invariant
            from <= i <= to <= text.len(),
            part == text@.subrange(from as int, to as int),
            forall|k: int| 0 <= k < i - from ==> is_digit(part[k]),
        decreases to - i,
    {
        let c = text[i];
        assert(c == part[i - from]);
        if !('0' <= c && c <= '9') {
            return false;
        }
        i = i + 1;
    }
    true
}

/// Whether `stamp` is a timestamp.
pub fn is_timestamp_text(stamp: &str) -> (is: bool)
    ensures
        is == is_timestamp(stamp@),
{
    let text = chars_of(stamp);
    let form = chars_of(STAMP_FORM);
    let n = text.len();
    if form.len() > n || n - form.len() < 4 {
        return false;
    }
    let split = n - form.len();
    let ghost year = stamp@.subrange(0, split as int);
    let year_fits = if split == 4 {
        digits_only(&text, 0, split)
    } else {
        assert(year.subrange(1, year.len() as int) =~= text@.subrange(1, split as int));
        (text[0] == '+' || text[0] == '-') && digits_only(&text, 1, split)
    };
    year_fits && fits_form(&text, split, &form)
}

/// Trusted: reads the clock with `chrono::Local::now` and writes the moment
/// with `DateTime::to_rfc3339_opts`, with microseconds and a numeric
/// offset. Which moment is written depends on the time of the call and on
/// the machine's time zone; what is promised is the form that `chrono`
/// gives every moment it writes this way. `chrono` panics here where the
/// clock stands before 1970, where the time zone gives an offset of a day
/// or more, or where the moment lies beyond the years it can count.
#[verifier::external_body]
pub(crate) fn local_timestamp() -> (stamp: String)
    ensures
        is_timestamp(stamp@),
{
    chrono::Local::now().to_rfc3339_opts(chrono::SecondsFormat::Micros, false)
}

/// Every character of a timestamp is a digit, a sign, a colon, a full stop
/// or the letter `T`.
pub proof fn lemma_timestamp_characters(stamp: Seq<char>)
    requires
        is_timestamp(stamp),
    ensures
        forall|i: int|
            0 <= i < stamp.len() ==> is_digit(#[trigger] stamp[i]) || stamp[i] == '+' || stamp[i]
                == '-' || stamp[i] == ':' || stamp[i] == '.' || stamp[i] == 'T',
{
    reveal_strlit("-99-99T99:99:99.999999+99:99");
    let form = STAMP_FORM@;
    let split = stamp.len() - form.len();
    let year = stamp.subrange(0, split);
    let rest = stamp.subrange(split, stamp.len() as int);
    assert forall|i: int| 0 <= i < stamp.len() implies is_digit(#[trigger] stamp[i]) || stamp[i]
        == '+' || stamp[i] == '-' || stamp[i] == ':' || stamp[i] == '.' || stamp[i] == 'T' by {
        if i < split {
            assert(stamp[i] == year[i]);
            if year.len() >= 5 && i > 0 {
                assert(year[i] == year.subrange(1, year.len() as int)[i - 1]);
            }
        } else {
            assert(stamp[i] == rest[i - split]);
            assert(0 <= i - split < form.len());
        }
    }
}

} // verus!
