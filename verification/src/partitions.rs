//! Daily partitions of the measurements table: what each is called, which
//! day a name stands for, which days still lack one, and which have aged out.
use vstd::prelude::*;
use vstd::string::StringExecFns;

use crate::calendar::{Day, MAX_YEAR, MIN_YEAR};
use crate::numbers::{
    i32_of, lemma_padded_value, padded, parse_i32, parse_u32, push_padded, u32_of, signed_value,
    unsigned_value,
};
use crate::text::same_text;

verus! {

/// The partitioned table.
pub const PARENT: &'static str = "measurements";

/// The partition rows land in when no daily partition takes them.
pub const DEFAULT_PARTITION: &'static str = "measurements_default";

/// What every daily partition's name starts with.
pub open spec fn prefix() -> Seq<char> {
    "measurements_"@
}

/// What the partition for `day` is called: the table, then the zero-padded
/// year, month and day, joined by underscores.
pub open spec fn name_of(day: Day) -> Seq<char> {
    prefix() + padded(day.year as int, 4) + seq!['_'] + padded(day.month as int, 2) + seq!['_']
        + padded(day.day as int, 2)
}

/// Index of the first underscore in `text`, or its length when there is none.
pub open spec fn underscore_at(text: Seq<char>) -> int
    decreases text.len(),
{
    if text.len() == 0 {
        0
    } else if text[0] == '_' {
        0
    } else {
        1 + underscore_at(text.skip(1))
    }
}

/// `text` split around its first underscore, if it has one.
pub open spec fn split_once(text: Seq<char>) -> Option<(Seq<char>, Seq<char>)> {
    let at = underscore_at(text);
    if at < text.len() {
        Some((text.take(at), text.skip(at + 1)))
    } else {
        None
    }
}

/// The day a partition name stands for: the table's name and an underscore,
/// then year, month and day separated by underscores, each read as an
/// integer, naming a real calendar day.
pub open spec fn partition_of(name: Seq<char>) -> Option<Day> {
    if name.len() < prefix().len() || name.take(prefix().len() as int) != prefix() {
        None
    } else {
        let suffix = name.skip(prefix().len() as int);
        match split_once(suffix) {
            None => None,
            Some((year, rest)) => match split_once(rest) {
                None => None,
                Some((month, day)) => match (i32_of(year), u32_of(month), u32_of(day)) {
                    (Some(y), Some(m), Some(d)) => {
                        let found = Day { year: y, month: m, day: d };
                        if found.valid() {
                            Some(found)
                        } else {
                            None
                        }
                    },
                    _ => None,
                },
            },
        }
    }
}

proof fn lemma_underscore_at(text: Seq<char>, k: int)
    requires
        0 <= k <= text.len(),
        k == text.len() || text[k] == '_',
        forall|i: int| 0 <= i < k ==> text[i] != '_',
    ensures
        underscore_at(text) == k,
    decreases k,
{
    if k > 0 {
        lemma_underscore_at(text.skip(1), k - 1);
    }
}

/// The day after `start`.
pub fn next_day(start: Day) -> (next: Option<Day>)
    requires
        start.valid(),
    ensures
        next == start.successor(),
{
    start.next()
}

/// What a day's partition is called.
pub fn partition_name(start: Day) -> (name: String)
    requires
        start.valid(),
    ensures
        name@ == name_of(start),
{
    proof {
        reveal_strlit("measurements_");
    }
    let mut name = String::from_str("measurements_");
    push_padded(&mut name, start.year as i64, 4);
    name.append("_");
    push_padded(&mut name, start.month as i64, 2);
    name.append("_");
    push_padded(&mut name, start.day as i64, 2);
    proof {
        reveal_strlit("_");
        assert(name@ =~= name_of(start));
    }
    name
}

/// The first underscore at or after `from`, or the end.
fn find_underscore(chars: &Vec<char>, from: usize) -> (at: usize)
    requires
        from <= chars@.len(),
    ensures
        from <= at <= chars@.len(),
        underscore_at(chars@.skip(from as int)) == at - from,
{
    let mut at = from;
    while at < chars.len() && chars[at] != '_'
        invariant
            from <= at <= chars@.len(),
            forall|i: int| from <= i < at ==> chars@[i] != '_',
        decreases chars@.len() - at,
    {
        at = at + 1;
    }
    proof {
        let tail = chars@.skip(from as int);
        assert forall|i: int| 0 <= i < at - from implies tail[i] != '_' by {
            assert(tail[i] == chars@[from + i]);
        }
        lemma_underscore_at(tail, at - from);
    }
    at
}

fn chars_of(text: &str) -> (chars: Vec<char>)
    ensures
        chars@ == text@,
{
    let length = text.unicode_len();
    let mut chars: Vec<char> = Vec::new();
    let mut i: usize = 0;
    while i < length
        invariant
            length == text@.len(),
            i <= length,
            chars@ == text@.take(i as int),
        decreases length - i,
    {
        chars.push(text.get_char(i));
        i = i + 1;
        assert(chars@ =~= text@.take(i as int));
    }
    assert(text@.take(length as int) =~= text@);
    chars
}

/// The day a partition name stands for, or `None` for a name that is not a
/// daily partition's.
pub fn parse_partition_name(name: &str) -> (day: Option<Day>)
    ensures
        day == partition_of(name@),
{
    proof {
        reveal_strlit("measurements_");
    }
    let length = name.unicode_len();
    if length < 13 {
        return None;
    }
    if !same_text(name.substring_char(0, 13), "measurements_") {
        return None;
    }
    let chars = chars_of(name);
    let ghost suffix = name@.skip(13);
    let first = find_underscore(&chars, 13);
    assert(chars@.skip(13) =~= suffix);
    if first >= length {
        return None;
    }
    let second = find_underscore(&chars, first + 1);
    proof {
        let rest = suffix.skip(first - 13 + 1);
        assert(rest =~= chars@.skip(first + 1));
        assert(split_once(suffix) == Some((suffix.take(first - 13), rest)));
    }
    if second >= length {
        return None;
    }
    let year_text = name.substring_char(13, first);
    let month_text = name.substring_char(first + 1, second);
    let day_text = name.substring_char(second + 1, length);
    proof {
        let rest = suffix.skip(first - 13 + 1);
        assert(year_text@ =~= suffix.take(first - 13));
        assert(month_text@ =~= rest.take(second - first - 1));
        assert(day_text@ =~= rest.skip(second - first - 1 + 1));
        assert(split_once(rest) == Some((rest.take(second - first - 1), rest.skip(
            second - first - 1 + 1,
        ))));
    }
    let year = match parse_i32(year_text) {
        Some(year) => year,
        None => return None,
    };
    let month = match parse_u32(month_text) {
        Some(month) => month,
        None => return None,
    };
    let day = match parse_u32(day_text) {
        Some(day) => day,
        None => return None,
    };
    Day::from_ymd(year, month, day)
}

/// A partition name read back gives the day it was made from.
pub proof fn lemma_partition_name_round_trip(day: Day)
    requires
        day.valid(),
    ensures
        partition_of(name_of(day)) == Some(day),
{
    let y = padded(day.year as int, 4);
    let m = padded(day.month as int, 2);
    let d = padded(day.day as int, 2);
    lemma_padded_value(day.year as int, 4);
    lemma_padded_value(day.month as int, 2);
    lemma_padded_value(day.day as int, 2);
    let name = name_of(day);
    assert(name.take(prefix().len() as int) =~= prefix());
    let suffix = name.skip(prefix().len() as int);
    assert(suffix =~= y + seq!['_'] + m + seq!['_'] + d);
    lemma_underscore_at(suffix, y.len() as int);
    let rest = suffix.skip(y.len() as int + 1);
    assert(suffix.take(y.len() as int) =~= y);
    assert(rest =~= m + seq!['_'] + d);
    lemma_underscore_at(rest, m.len() as int);
    assert(rest.take(m.len() as int) =~= m);
    assert(rest.skip(m.len() as int + 1) =~= d);
    assert(i32_of(y) == Some(day.year));
    assert(u32_of(m) == Some(day.month));
    assert(u32_of(d) == Some(day.day));
}

/// The catch-all partition is never taken for a daily one.
pub proof fn lemma_default_is_not_daily()
    ensures
        partition_of(DEFAULT_PARTITION@) is None,
{
    reveal_strlit("measurements_default");
    reveal_strlit("measurements_");
    let name = DEFAULT_PARTITION@;
    let suffix = name.skip(13);
    assert(suffix =~= "default"@) by {
        reveal_strlit("default");
    }
    assert forall|i: int| 0 <= i < suffix.len() implies suffix[i] != '_' by {
        reveal_strlit("default");
    }
    lemma_underscore_at(suffix, suffix.len() as int);
}

/// Whether the partition `name` holds only days that end at or before
/// `cutoff`: a daily partition, not the catch-all, whose day's successor is
/// not after the cutoff.
pub open spec fn is_stale(name: Seq<char>, cutoff: Day) -> bool {
    name != DEFAULT_PARTITION@ && match partition_of(name) {
        Some(start) => match start.successor() {
            Some(end) => !cutoff.before(end),
            None => false,
        },
        None => false,
    }
}

/// The partitions to drop for a retention cutoff, in the order listed.
pub fn stale_partitions(existing: &Vec<String>, cutoff: Day) -> (stale: Vec<String>)
    ensures
        stale@ == existing@.filter(|name: String| is_stale(name@, cutoff)),
{
    let mut stale: Vec<String> = Vec::new();
    let mut k: usize = 0;
    while k < existing.len()
        invariant
            k <= existing@.len(),
            stale@ == existing@.take(k as int).filter(|name: String| is_stale(name@, cutoff)),
        decreases existing@.len() - k,
    {
        let name = &existing[k];
        let wanted = if !same_text(name.as_str(), DEFAULT_PARTITION) {
            match parse_partition_name(name.as_str()) {
                Some(start) => match start.next() {
                    Some(end) => !cutoff.is_before(&end),
                    None => false,
                },
                None => false,
            }
        } else {
            false
        };
        assert(wanted == is_stale(existing@[k as int]@, cutoff));
        if wanted {
            stale.push(name.clone());
        }
        proof {
            reveal_with_fuel(Seq::<_>::filter, 1);
            assert(existing@.take(k + 1).drop_last() =~= existing@.take(k as int));
        }
        k = k + 1;
    }
    assert(existing@.take(k as int) =~= existing@);
    stale
}

/// An ordinal that grows with every later day.
pub open spec fn ordinal(day: Day) -> int {
    (day.year - MIN_YEAR) * 372 + (day.month - 1) * 31 + (day.day - 1)
}

pub proof fn lemma_successor_grows(day: Day)
    requires
        day.valid(),
    ensures
        day.successor() matches Some(next) ==> next.valid() && ordinal(next) > ordinal(day),
{
}

/// Whether `name` is among the partitions already there.
pub open spec fn known_name(known: Seq<String>, name: Seq<char>) -> bool {
    exists|i: int| 0 <= i < known.len() && (#[trigger] known[i])@ == name
}

fn is_known(known: &Vec<String>, name: &String) -> (found: bool)
    ensures
        found == known_name(known@, name@),
{
    let mut i: usize = 0;
    while i < known.len()
        invariant
            i <= known@.len(),
            forall|j: int| 0 <= j < i ==> (#[trigger] known@[j])@ != name@,
        decreases known@.len() - i,
    {
        if same_text(known[i].as_str(), name.as_str()) {
            return true;
        }
        i = i + 1;
    }
    false
}

/// The days from `first` to `last` inclusive, one after another.
pub open spec fn days_between(first: Day, last: Day) -> Seq<Day>
    decreases ordinal(last) - ordinal(first),
{
    if last.before(first) || !first.valid() || !last.valid() {
        Seq::empty()
    } else {
        match first.successor() {
            Some(next) => if ordinal(next) > ordinal(first) && !last.before(next) && next.valid() {
                seq![first] + days_between(next, last)
            } else {
                seq![first]
            },
            None => seq![first],
        }
    }
}

/// The days from `first` to `last` inclusive whose partition is not yet
/// there, in calendar order.
pub fn missing_partitions(first: Day, last: Day, known: &Vec<String>) -> (missing: Vec<Day>)
    requires
        first.valid(),
        last.valid(),
    ensures
        missing@ == days_between(first, last).filter(|d: Day| !known_name(known@, name_of(d))),
    decreases ordinal(last) - ordinal(first),
{
    if last.is_before(&first) {
        return Vec::new();
    }
    let name = partition_name(first);
    let known_now = is_known(known, &name);
    proof {
        lemma_successor_grows(first);
    }
    let mut rest = match first.next() {
        Some(next) => if last.is_before(&next) {
            Vec::new()
        } else {
            missing_partitions(next, last, known)
        },
        None => Vec::new(),
    };
    proof {
        lemma_successor_grows(first);
        let all = days_between(first, last);
        let keep = |d: Day| !known_name(known@, name_of(d));
        assert(all == seq![first] + days_between_after(first, last));
        reveal_with_fuel(Seq::<_>::filter, 2);
        assert((seq![first] + days_between_after(first, last)).filter(keep) =~= seq![first].filter(
            keep,
        ) + days_between_after(first, last).filter(keep)) by {
            Seq::filter_distributes_over_add(seq![first], days_between_after(first, last), keep);
        }
        assert(seq![first].filter(keep) == (if keep(first) { seq![first] } else { Seq::empty() })) by {
            assert(seq![first].drop_last() =~= Seq::<Day>::empty());
        }
    }
    if known_now {
        assert(rest@ =~= days_between(first, last).filter(|d: Day| !known_name(known@, name_of(d))));
        rest
    } else {
        let mut missing = Vec::new();
        missing.push(first);
        missing.append(&mut rest);
        assert(missing@ =~= days_between(first, last).filter(|d: Day| !known_name(known@, name_of(d))));
        missing
    }
}

/// The days after `first` up to `last`.
pub open spec fn days_between_after(first: Day, last: Day) -> Seq<Day> {
    match first.successor() {
        Some(next) => if last.before(next) {
            Seq::empty()
        } else {
            days_between(next, last)
        },
        None => Seq::empty(),
    }
}

} // verus!
