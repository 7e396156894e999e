use crate::text::{decimal, push_decimal, push_three_digits, three_digits};
use vstd::prelude::*;

verus! {

/// A span of time as it is reported: hours, minutes and seconds where it
/// reaches an hour, minutes and seconds where it reaches a minute, and else
/// seconds with milliseconds.
pub open spec fn duration_text(elapsed_ms: nat) -> Seq<char> {
    let total_seconds = elapsed_ms / 1000;
    let hours = total_seconds / 3600;
    let minutes = (total_seconds % 3600) / 60;
    let seconds = total_seconds % 60;
    let millis = elapsed_ms % 1000;
    if hours > 0 {
        decimal(hours) + "時間"@ + decimal(minutes) + "分"@ + decimal(seconds) + "秒"@
    } else if minutes > 0 {
        decimal(minutes) + "分"@ + decimal(seconds) + "秒"@
    } else {
        decimal(seconds) + "."@ + three_digits(millis) + "秒"@
    }
}

/// Renders a span of time, given in milliseconds, for a report.
pub fn format_duration(elapsed_ms: u64) -> (text: String)
    ensures
        text@ == duration_text(elapsed_ms as nat),
{
    let total_seconds: u64 = elapsed_ms / 1000;
    let hours: u64 = total_seconds / 3600;
    let minutes: u64 = (total_seconds % 3600) / 60;
    let seconds: u64 = total_seconds % 60;
    let millis: u64 = elapsed_ms % 1000;
    let mut text = String::new();
    if hours > 0 {
        push_decimal(&mut text, hours);
        text.append("時間");
        push_decimal(&mut text, minutes);
        text.append("分");
        push_decimal(&mut text, seconds);
        text.append("秒");
    } else if minutes > 0 {
        push_decimal(&mut text, minutes);
        text.append("分");
        push_decimal(&mut text, seconds);
        text.append("秒");
    } else {
        push_decimal(&mut text, seconds);
        text.append(".");
        push_three_digits(&mut text, millis);
        text.append("秒");
    }
    assert(text@ =~= duration_text(elapsed_ms as nat));
    text
}

} // verus!
