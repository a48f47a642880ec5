//! Rules of the interactive session: starting it, and its timing.

use crate::text;
use vstd::prelude::*;

verus! {

/// How often the screen is redrawn while waiting for input, so the "last
/// refresh" clock keeps moving between refreshes. In nanoseconds.
pub const REDRAW_INTERVAL: u64 = 250_000_000;

/// The TUI writes to sysfs, so it needs root; without it the user is asked
/// whether to run under `sudo`. An empty answer, `y` and `yes` accept.
pub fn ensure_root(answer: &str) -> (r: bool)
    ensures
        r == ({
            let word = text::lowered(text::trimmed(answer@));
            word == ""@ || word == "y"@ || word == "yes"@
        }),
{
    let word: String = text::lowercase(text::trim(answer));
    let w: &str = word.as_str();
    text::same(w, "") || text::same(w, "y") || text::same(w, "yes")
}

/// The wait for input in nanoseconds: until the next refresh, but at most until
/// the next redraw.
pub open spec fn wait(interval: u64, elapsed: u128) -> int {
    let left = if interval * 1_000_000 > elapsed {
        interval * 1_000_000 - elapsed
    } else {
        0
    };
    if left < REDRAW_INTERVAL {
        left
    } else {
        REDRAW_INTERVAL as int
    }
}

/// How long to wait for input, in nanoseconds: until the next refresh, but at
/// most until the next redraw. `interval` is in milliseconds, `elapsed` in
/// nanoseconds since the last refresh.
pub fn poll_timeout(interval: u64, elapsed: u128) -> (r: u64)
    ensures
        r == wait(interval, elapsed),
{
    let period: u128 = (interval as u128) * 1_000_000;
    let left: u128 = if period > elapsed {
        period - elapsed
    } else {
        0
    };
    if left < REDRAW_INTERVAL as u128 {
        left as u64
    } else {
        REDRAW_INTERVAL
    }
}

/// Whether a refresh is due.
pub fn refresh_due(interval: u64, elapsed: u128) -> (r: bool)
    ensures
        r == (elapsed >= interval * 1_000_000),
{
    elapsed >= (interval as u128) * 1_000_000
}

/// The wait never outlasts the refresh it waits for: when it ends, either a
/// redraw is due or the refresh is.
pub proof fn law_waiting_ends_in_time(interval: u64, elapsed: u128)
    ensures
        0 <= wait(interval, elapsed) <= REDRAW_INTERVAL,
        wait(interval, elapsed) < REDRAW_INTERVAL ==> elapsed + wait(interval, elapsed) >= interval
            * 1_000_000,
{
}

/// The wait ends with whatever comes first, the redraw after a quarter of a
/// second or the refresh: it is never longer than either, and always as long as
/// one of them. Once the refresh is due there is no wait.
pub proof fn law_the_wait_ends_with_what_comes_first(
    interval: u64,
    elapsed: u128,
    wait: u64,
    due: bool,
)
    requires
        call_ensures(poll_timeout, (interval, elapsed), wait),
        call_ensures(refresh_due, (interval, elapsed), due),
    ensures
        wait <= 250_000_000,
        elapsed <= interval * 1_000_000 ==> elapsed + wait <= interval * 1_000_000,
        elapsed >= interval * 1_000_000 ==> wait == 0,
        wait == 250_000_000 || elapsed + wait >= interval * 1_000_000,
        due <==> elapsed >= interval * 1_000_000,
        due <==> wait == 0,
{
}

/// Running under `sudo` is agreed to by Enter alone and by `y` and `yes`, in any
/// case and with white space around them; by nothing else.
pub proof fn law_root_takes_a_yes(answer: &str, r: bool)
    requires
        call_ensures(ensure_root, (answer,), r),
    ensures
        r <==> {
            ||| text::trimmed(answer@).len() == 0
            ||| text::lowered(text::trimmed(answer@)) == "y"@
            ||| text::lowered(text::trimmed(answer@)) == "yes"@
        },
{
    reveal_strlit("");
    let word = text::lowered(text::trimmed(answer@));
    assert(word.len() == text::trimmed(answer@).len());
    if word.len() == 0 {
        assert(word =~= ""@);
    }
}

} // verus!
