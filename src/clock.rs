//! Durations in seconds rendered as `HH:MM:SS` and as words.
use vstd::prelude::*;
use crate::text::{decimal, padded2, push_decimal, push_padded2};

verus! {

/// Seconds in a minute.
pub const SECONDS_PER_MINUTE: u64 = 60;

/// Seconds in an hour.
pub const SECONDS_PER_HOUR: u64 = 3600;

/// Seconds in a day.
pub const SECONDS_PER_DAY: u64 = 86400;

/// `HH:MM:SS` for a number of seconds: whole hours (unbounded), then the
/// minutes and seconds left over, each at least two digits.
pub open spec fn clock_text(total: nat) -> Seq<char> {
    padded2(total / 3600) + seq![':'] + padded2((total % 3600) / 60) + seq![':'] + padded2(
        total % 60,
    )
}

/// Formats a number of seconds as `HH:MM:SS`.
pub fn get_clock_format(elapsed: u64) -> (r: String)
    ensures
        r@ == clock_text(elapsed as nat),
{
    let hours = elapsed / SECONDS_PER_HOUR;
    let minutes = (elapsed % SECONDS_PER_HOUR) / SECONDS_PER_MINUTE;
    let seconds = elapsed % SECONDS_PER_MINUTE;
    let mut out = String::new();
    push_padded2(&mut out, hours);
    proof { reveal_strlit(":"); }
    out.append(":");
    push_padded2(&mut out, minutes);
    out.append(":");
    push_padded2(&mut out, seconds);
    assert(out@ =~= clock_text(elapsed as nat));
    out
}

/// One unit of a worded duration: `1 Day`, `2 Hours`.
pub open spec fn unit_words(count: nat, unit: Seq<char>) -> Seq<char> {
    decimal(count) + seq![' '] + unit + if count > 1 {
        seq!['s']
    } else {
        Seq::<char>::empty()
    }
}

/// The unit words of a count, or none where the count is zero.
pub open spec fn unit_part(count: nat, unit: Seq<char>) -> Seq<Seq<char>> {
    if count > 0 {
        seq![unit_words(count, unit)]
    } else {
        Seq::empty()
    }
}

/// The unit name `Day`.
pub open spec fn day_word() -> Seq<char> {
    seq!['D', 'a', 'y']
}

/// The unit name `Hour`.
pub open spec fn hour_word() -> Seq<char> {
    seq!['H', 'o', 'u', 'r']
}

/// The unit name `Minute`.
pub open spec fn minute_word() -> Seq<char> {
    seq!['M', 'i', 'n', 'u', 't', 'e']
}

/// The unit name `Second`.
pub open spec fn second_word() -> Seq<char> {
    seq!['S', 'e', 'c', 'o', 'n', 'd']
}

/// The non-zero units of a duration, largest first.
pub open spec fn duration_parts(total: nat) -> Seq<Seq<char>> {
    unit_part(total / 86400, day_word()) + unit_part((total % 86400) / 3600, hour_word())
        + unit_part((total % 3600) / 60, minute_word()) + unit_part(total % 60, second_word())
}

/// Items separated by `, `.
pub open spec fn comma_list(items: Seq<Seq<char>>) -> Seq<char>
    decreases items.len(),
{
    if items.len() == 0 {
        Seq::empty()
    } else if items.len() == 1 {
        items[0]
    } else {
        comma_list(items.drop_last()) + seq![',', ' '] + items.last()
    }
}

/// Items in English list form: `a`, `a and b`, `a, b, and c`.
pub open spec fn word_list(items: Seq<Seq<char>>) -> Seq<char> {
    if items.len() <= 1 {
        comma_list(items)
    } else if items.len() == 2 {
        items[0] + seq![' ', 'a', 'n', 'd', ' '] + items[1]
    } else {
        comma_list(items.drop_last()) + seq![',', ' ', 'a', 'n', 'd', ' '] + items.last()
    }
}

/// A duration in words, such as `1 Day, 1 Hour, 1 Minute, and 39 Seconds`;
/// empty for zero seconds.
pub open spec fn duration_words(total: nat) -> Seq<char> {
    word_list(duration_parts(total))
}

fn unit_text(count: u64, unit: &str) -> (r: String)
    ensures
        r@ == unit_words(count as nat, unit@),
{
    let mut out = String::new();
    push_decimal(&mut out, count as u128);
    proof {
        reveal_strlit(" ");
        reveal_strlit("s");
    }
    out.append(" ");
    out.append(unit);
    if count > 1 {
        out.append("s");
    }
    assert(out@ =~= unit_words(count as nat, unit@));
    out
}

fn push_unit(parts: &mut Vec<String>, count: u64, unit: &str)
    ensures
        final(parts)@.map_values(|p: String| p@) == old(parts)@.map_values(|p: String| p@)
            + unit_part(count as nat, unit@),
{
    if count > 0 {
        let t = unit_text(count, unit);
        parts.push(t);
    }
    assert(final(parts)@.map_values(|p: String| p@) =~= old(parts)@.map_values(|p: String| p@)
        + unit_part(count as nat, unit@));
}

/// Joins items in English list form.
fn join_words(items: &Vec<String>) -> (r: String)
    ensures
        r@ == word_list(items@.map_values(|p: String| p@)),
{
    let ghost v = items@.map_values(|p: String| p@);
    let n = items.len();
    proof {
        reveal_strlit(", ");
        reveal_strlit(" and ");
        reveal_strlit(", and ");
    }
    if n == 0 {
        String::new()
    } else if n == 1 {
        items[0].clone()
    } else if n == 2 {
        let mut out = items[0].clone();
        out.append(" and ");
        out.append(items[1].as_str());
        out
    } else {
        let mut out = items[0].clone();
        let mut i: usize = 1;
        assert(v.take(1).drop_last() =~= Seq::<Seq<char>>::empty());
        while i < n - 1
            invariant
                1 <= i <= n - 1,
                n == items@.len(),
                v == items@.map_values(|p: String| p@),
                out@ == comma_list(v.take(i as int)),
            decreases n - i,
        {
            proof { reveal_strlit(", "); }
            out.append(", ");
            out.append(items[i].as_str());
            assert(v.take(i as int + 1).drop_last() =~= v.take(i as int));
            assert(v.take(i as int + 1).last() == items@[i as int]@);
            assert(out@ =~= comma_list(v.take(i as int)) + seq![',', ' '] + v.take(
                i as int + 1,
            ).last());
            i = i + 1;
        }
        assert(v.drop_last() =~= v.take(n - 1));
        out.append(", and ");
        out.append(items[n - 1].as_str());
        assert(out@ =~= word_list(v));
        out
    }
}

/// Writes a number of seconds as words, largest unit first, leaving out
/// units that are zero: `4 Hours, 45 Minutes, and 53 Seconds`.
pub fn duration_as_words(total: u64) -> (r: String)
    ensures
        r@ == duration_words(total as nat),
{
    let days = total / SECONDS_PER_DAY;
    let hours = (total % SECONDS_PER_DAY) / SECONDS_PER_HOUR;
    let minutes = (total % SECONDS_PER_HOUR) / SECONDS_PER_MINUTE;
    let seconds = total % SECONDS_PER_MINUTE;
    let mut parts: Vec<String> = Vec::new();
    proof {
        reveal_strlit("Day");
        reveal_strlit("Hour");
        reveal_strlit("Minute");
        reveal_strlit("Second");
        assert(parts@.map_values(|p: String| p@) =~= Seq::<Seq<char>>::empty());
    }
    push_unit(&mut parts, days, "Day");
    push_unit(&mut parts, hours, "Hour");
    push_unit(&mut parts, minutes, "Minute");
    push_unit(&mut parts, seconds, "Second");
    assert("Day"@ =~= day_word() && "Hour"@ =~= hour_word() && "Minute"@ =~= minute_word()
        && "Second"@ =~= second_word());
    assert(parts@.map_values(|p: String| p@) =~= duration_parts(total as nat));
    join_words(&parts)
}

} // verus!
