//! The clock line of the heads-up display.

use vstd::prelude::*;
use crate::panels::{MINUTES_PER_DAY, push_time, spec_day, spec_time};
use crate::text::{push_decimal, push_str, spec_decimal};

verus! {

/// The clock as `Day d, hh:mm`: the day counted from one, the minute of the day.
pub fn clock_text(elapsed: i64) -> (r: String)
    ensures
        r@ == "Day "@ + spec_decimal(spec_day(elapsed as int)) + ", "@ + spec_time(elapsed as int),
{
    let day = match elapsed.checked_div_euclid(MINUTES_PER_DAY) {
        Some(q) => q + 1,
        None => 1,
    };
    let minute = match elapsed.checked_rem_euclid(MINUTES_PER_DAY) {
        Some(m) => m,
        None => 0,
    };
    assert(day == spec_day(elapsed as int));
    assert(minute == elapsed % 1440);
    let mut text = "Day ".to_owned();
    push_decimal(&mut text, day);
    push_str(&mut text, ", ");
    let mut time = String::new();
    push_time(&mut time, minute);
    push_str(&mut text, time.as_str());
    proof {
        assert(time@ =~= spec_time(elapsed as int));
    }
    text
}

} // verus!
