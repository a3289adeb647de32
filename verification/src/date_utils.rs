//! Elapsed time as text.
use crate::text::{decimal_digits, join, push_decimal, texts};
use vstd::prelude::*;
use vstd::string::StringExecFns;

verus! {

/// A count with its unit, or nothing for a count of zero.
pub open spec fn duration_part(count: nat, unit: Seq<char>) -> Seq<Seq<char>> {
    if count > 0 {
        seq![decimal_digits(count) + unit]
    } else {
        Seq::empty()
    }
}

/// The parts of a duration of `ms` milliseconds: hours, minutes, seconds
/// and milliseconds, each left out where it is zero.
pub open spec fn duration_parts(ms: nat) -> Seq<Seq<char>> {
    duration_part(ms / 3_600_000, "h"@) + duration_part((ms % 3_600_000) / 60_000, "m"@)
        + duration_part((ms % 60_000) / 1_000, "s"@) + duration_part(ms % 1_000, "ms"@)
}

/// A duration of `total_ms` milliseconds as text, such as `1h 2m 3s 4ms`.
/// A duration of nothing, or of less, is `0ms`.
pub open spec fn duration_text(total_ms: int) -> Seq<char> {
    if total_ms <= 0 {
        "0ms"@
    } else {
        join(duration_parts(total_ms as nat), " "@)
    }
}

/// Appends a count with its unit to the parts, unless the count is zero.
fn push_duration_part(parts: &mut Vec<String>, count: u64, unit: &str)
    ensures
        texts(final(parts)@) == texts(old(parts)@)
            + duration_part(count as nat, unit@),
{
    if count > 0 {
        let mut part = String::new();
        push_decimal(&mut part, count as u128);
        part.append(unit);
        let ghost before = parts@;
        parts.push(part);
        assert(texts(parts@) =~= texts(before) + duration_part(
            count as nat,
            unit@,
        ));
    } else {
        assert(texts(parts@) =~= texts(parts@) + duration_part(
            count as nat,
            unit@,
        ));
    }
}

/// Writes a duration of `total_ms` milliseconds as text.
pub fn format_duration(total_ms: i64) -> (text: String)
    ensures
        text@ == duration_text(total_ms as int),
{
    if total_ms <= 0 {
        return String::from_str("0ms");
    }
    let ms: u64 = total_ms as u64;
    let mut parts: Vec<String> = Vec::new();
    assert(texts(parts@) =~= Seq::<Seq<char>>::empty());
    push_duration_part(&mut parts, ms / 3_600_000, "h");
    push_duration_part(&mut parts, (ms % 3_600_000) / 60_000, "m");
    push_duration_part(&mut parts, (ms % 60_000) / 1_000, "s");
    push_duration_part(&mut parts, ms % 1_000, "ms");
    assert(texts(parts@) =~= duration_parts(ms as nat));
    let mut text = String::new();
    let ghost views = texts(parts@);
    let mut i: usize = 0;
    while i < parts.len()
        invariant
            i <= parts.len(),
            views == texts(parts@),
            text@ == join(views.take(i as int), " "@),
        decreases parts.len() - i,
    {
        proof {
            assert(views.take(i + 1).drop_last() =~= views.take(i as int));
            assert(views.take(i + 1).last() == parts@[i as int]@);
        }
        if i > 0 {
            text.append(" ");
        }
        text.append(parts[i].as_str());
        assert(text@ =~= join(views.take(i + 1), " "@));
        i += 1;
    }
    assert(views.take(i as int) =~= views);
    text
}

} // verus!
