//! Two-way integration with `power-profiles-daemon` over the system D-Bus.
//!
//! `busctl` and `gdbus` do the talking; this module says what to ask them and
//! what their answers mean.

use crate::error::Error;
use crate::error::Fault;
use crate::error::Problem;
use crate::profile;
use crate::profile::Profile;
use crate::profile::ProfileView;
use crate::profile::Profiles;
use crate::sysfs;
use crate::text;
use vstd::prelude::*;
use vstd::string::StrSliceExecFns;

verus! {

/// Bus names under which the daemon may be found. The interface name matches the
/// bus name. Newer builds live under the `UPower` namespace, older ones under
/// net.hadess, so each is probed in order.
pub const ENDPOINT_NAMES: [&'static str; 2] = [
    "net.hadess.PowerProfiles",
    "org.freedesktop.UPower.PowerProfiles",
];

/// The object path for each of [`ENDPOINT_NAMES`].
pub const ENDPOINT_PATHS: [&'static str; 2] = [
    "/net/hadess/PowerProfiles",
    "/org/freedesktop/UPower/PowerProfiles",
];

pub const PROPERTY: &'static str = "ActiveProfile";

/// How long power-profiles-daemon is given to appear, in nanoseconds.
pub const WAIT_TIMEOUT: u128 = 30_000_000_000;

/// How often it is probed again while waiting, in nanoseconds.
pub const WAIT_POLL: u128 = 500_000_000;

/// Which endpoint to use: the one found before, which stays found, or else the
/// first that answers.
pub open spec fn chosen_endpoint(found: Option<usize>, first: bool, second: bool) -> Option<usize> {
    if found is Some {
        found
    } else if first {
        Some(0)
    } else if second {
        Some(1)
    } else {
        None
    }
}

/// The first endpoint whose `ActiveProfile` can be read, or `None` when
/// power-profiles-daemon is not reachable on the system bus. A hit is remembered
/// (`found`); a miss deliberately is not, since the daemon may still be starting.
pub fn endpoint(found: Option<usize>, first: bool, second: bool) -> (r: Option<usize>)
    ensures
        r == chosen_endpoint(found, first, second),
{
    if found.is_some() {
        found
    } else if first {
        Some(0)
    } else if second {
        Some(1)
    } else {
        None
    }
}

pub fn is_available(found: Option<usize>, first: bool, second: bool) -> (r: bool)
    ensures
        r == (found is Some || first || second),
{
    endpoint(found, first, second).is_some()
}

pub fn require_endpoint(found: Option<usize>, first: bool, second: bool) -> (r: Result<
    usize,
    Error,
>)
    ensures
        match chosen_endpoint(found, first, second) {
            Some(i) => r == Ok::<usize, Error>(i),
            None => r is Err && r->Err_0@ == Fault::NoPowerProfiles,
        },
{
    match endpoint(found, first, second) {
        Some(i) => Ok(i),
        None => Err(Problem::NoPowerProfiles),
    }
}

/// What to do while waiting for the daemon to appear.
#[derive(Clone, Copy, Debug, PartialEq, Eq, Structural)]
pub enum Wait {
    Found,
    GiveUp,
    ProbeAgain,
}

/// One step of waiting for power-profiles-daemon, given whether it just
/// answered and how long the wait has lasted, in nanoseconds.
///
/// The sync unit is not ordered `After=power-profiles-daemon.service` — that
/// ordering forms a boot-time cycle (see the unit's own comment) — so at boot
/// the two race. Polling absorbs the race without the ordering.
pub fn wait_until_available(available: bool, waited: u128) -> (r: Wait)
    ensures
        r == if available {
            Wait::Found
        } else if waited >= WAIT_TIMEOUT {
            Wait::GiveUp
        } else {
            Wait::ProbeAgain
        },
{
    if available {
        Wait::Found
    } else if waited >= WAIT_TIMEOUT {
        Wait::GiveUp
    } else {
        Wait::ProbeAgain
    }
}

/// Arguments for `busctl` to read the active profile.
pub fn get_property_args(dest: &str, path: &str) -> (r: Vec<String>)
    ensures
        text::views(r@) == seq!["--system"@, "get-property"@, dest@, path@, dest@, PROPERTY@],
{
    let mut args: Vec<String> = Vec::new();
    text::push_text(&mut args, "--system");
    text::push_text(&mut args, "get-property");
    text::push_text(&mut args, dest);
    text::push_text(&mut args, path);
    text::push_text(&mut args, dest);
    text::push_text(&mut args, PROPERTY);
    proof {
        assert(text::views(args@) =~= seq![
            "--system"@,
            "get-property"@,
            dest@,
            path@,
            dest@,
            PROPERTY@,
        ]);
    }
    args
}

/// Arguments for `busctl` to set the active profile. Setting it to its current
/// value is a no-op, so this is safe to call from the sync daemon without
/// causing feedback loops.
pub fn set(dest: &str, path: &str, profile: &str) -> (r: Vec<String>)
    ensures
        text::views(r@) == seq![
            "--system"@,
            "set-property"@,
            dest@,
            path@,
            dest@,
            PROPERTY@,
            "s"@,
            profile@,
        ],
{
    let mut args: Vec<String> = Vec::new();
    text::push_text(&mut args, "--system");
    text::push_text(&mut args, "set-property");
    text::push_text(&mut args, dest);
    text::push_text(&mut args, path);
    text::push_text(&mut args, dest);
    text::push_text(&mut args, PROPERTY);
    text::push_text(&mut args, "s");
    text::push_text(&mut args, profile);
    proof {
        assert(text::views(args@) =~= seq![
            "--system"@,
            "set-property"@,
            dest@,
            path@,
            dest@,
            PROPERTY@,
            "s"@,
            profile@,
        ]);
    }
    args
}

/// Arguments for `gdbus` to watch for changes.
pub fn watch_args(dest: &str, path: &str) -> (r: Vec<String>)
    ensures
        text::views(r@) == seq!["monitor"@, "--system"@, "--dest"@, dest@, "--object-path"@, path@],
{
    let mut args: Vec<String> = Vec::new();
    text::push_text(&mut args, "monitor");
    text::push_text(&mut args, "--system");
    text::push_text(&mut args, "--dest");
    text::push_text(&mut args, dest);
    text::push_text(&mut args, "--object-path");
    text::push_text(&mut args, path);
    proof {
        assert(text::views(args@) =~= seq![
            "monitor"@,
            "--system"@,
            "--dest"@,
            dest@,
            "--object-path"@,
            path@,
        ]);
    }
    args
}

/// The string in the output of `busctl get-property`: what follows `s `, without
/// the quotes.
pub open spec fn property_text(out: Seq<char>) -> Option<Seq<char>> {
    let line = text::trimmed(out);
    if text::begins(line, "s "@) {
        Some(
            text::without_trailing(
                text::without_leading(text::trimmed(line.skip("s "@.len() as int)), '"'),
                '"',
            ),
        )
    } else {
        None
    }
}

/// Parses a `busctl get-property` scalar string (`s "balanced"`).
pub fn parse_property_string(out: &str) -> (r: Option<String>)
    ensures
        sysfs::text_view(r) == property_text(out@),
{
    match text::strip_prefix(text::trim(out), "s ") {
        Some(rest) => Some(
            text::strip_trailing(text::strip_leading(text::trim(rest), '"'), '"').to_owned(),
        ),
        None => None,
    }
}

/// The currently-active power profile (e.g. `"balanced"`), from what `busctl`
/// answered.
pub fn get(out: &str) -> (r: Result<String, Error>)
    ensures
        match property_text(out@) {
            Some(t) => r is Ok && r->Ok_0@ == t,
            None => r is Err && r->Err_0@ == (Fault::PropertyFormat { out: out@ }),
        },
{
    match parse_property_string(out) {
        Some(t) => Ok(t),
        None => Err(Problem::PropertyFormat { out: out.to_owned() }),
    }
}

/// What introduces the new profile in a line of `gdbus monitor`.
pub const CHANGE_KEY: &'static str = "'ActiveProfile': <'";

/// Whether `profile` is the one that a line announces: what stands between the
/// first [`CHANGE_KEY`] and the next quote.
pub open spec fn announces(line: Seq<char>, profile: Option<Seq<char>>) -> bool {
    match profile {
        Some(p) => exists|at: int|
            {
                &&& text::leftmost(line, CHANGE_KEY@, Some(at))
                &&& text::leftmost(
                    line.skip(at + CHANGE_KEY@.len()),
                    "'"@,
                    Some(p.len() as int),
                )
                &&& p == line.skip(at + CHANGE_KEY@.len()).take(p.len() as int)
            },
        None => text::leftmost(line, CHANGE_KEY@, None) || exists|at: int|
            {
                &&& text::leftmost(line, CHANGE_KEY@, Some(at))
                &&& text::leftmost(line.skip(at + CHANGE_KEY@.len()), "'"@, None)
            },
    }
}

/// Extracts the new profile from a `gdbus monitor` `PropertiesChanged` line of
/// the form `... {'ActiveProfile': <'performance'>} ...`.
pub fn parse_active_profile_change(line: &str) -> (r: Option<String>)
    ensures
        announces(line@, sysfs::text_view(r)),
{
    match text::find(line, CHANGE_KEY) {
        Some(at) => {
            let end: usize = line.unicode_len();
            let from: usize = at + CHANGE_KEY.unicode_len();
            let rest: &str = line.substring_char(from, end);
            proof {
                assert(rest@ =~= line@.skip(at + CHANGE_KEY@.len()));
                assert(text::leftmost(line@, CHANGE_KEY@, Some(at as int)));
            }
            match text::find(rest, "'") {
                Some(n) => {
                    let profile: &str = rest.substring_char(0, n);
                    proof {
                        assert(profile@ =~= rest@.take(n as int));
                        assert(profile@.len() == n);
                    }
                    Some(profile.to_owned())
                },
                None => None,
            }
        },
        None => None,
    }
}

/// Whether a profile is mapped to a power profile.
pub open spec fn maps_to(profile: ProfileView, ppd: Seq<char>) -> bool {
    profile.ppd_profile is Some && text::alike(profile.ppd_profile->0, ppd)
}

fn is_mapped(profile: &Profile, ppd: &str) -> (r: bool)
    ensures
        r == maps_to(profile@, ppd@),
{
    match &profile.ppd_profile {
        Some(p) => text::same_ignoring_case(p.as_str(), ppd),
        None => false,
    }
}

/// Finds the saved profile mapped to the given power profile. If several map to
/// the same one, the alphabetically-first name wins so the choice is stable.
pub fn mapped_profile<'a>(profiles: &'a Profiles, ppd: &str) -> (r: Option<(&'a String, &'a Profile)>)
    requires
        profiles.well_formed(),
    ensures
        match r {
            Some((name, p)) => {
                &&& profile::lookup(profiles@, name@) == Some(p@)
                &&& maps_to(p@, ppd@)
                &&& forall|other: Seq<char>|
                    (#[trigger] profile::lookup(profiles@, other)) is Some && maps_to(
                        profile::lookup(profiles@, other)->0,
                        ppd@,
                    ) && other != name@ ==> text::precedes(name@, other)
            },
            None => forall|other: Seq<char>|
                (#[trigger] profile::lookup(profiles@, other)) is Some ==> !maps_to(
                    profile::lookup(profiles@, other)->0,
                    ppd@,
                ),
        },
{
    let mut i: usize = 0;
    while i < profiles.entries.len()
        invariant
            profiles.well_formed(),
            i <= profiles.entries@.len(),
            forall|j: int| 0 <= j < i ==> !maps_to((#[trigger] profiles@[j]).1, ppd@),
        decreases profiles.entries@.len() - i,
    {
        let entry: &(String, Profile) = &profiles.entries[i];
        if is_mapped(&entry.1, ppd) {
            proof {
                assert(profiles@[i as int] == (entry.0@, entry.1@));
                profile::lemma_lookup_at(profiles@, i as int);
                assert forall|other: Seq<char>|
                    (#[trigger] profile::lookup(profiles@, other)) is Some && maps_to(
                        profile::lookup(profiles@, other)->0,
                        ppd@,
                    ) && other != entry.0@ implies text::precedes(entry.0@, other) by {
                    profile::lemma_lookup_in(profiles@, other);
                    let k = choose|k: int|
                        0 <= k < profiles@.len() && (#[trigger] profiles@[k]).0 == other
                            && profiles@[k].1 == profile::lookup(profiles@, other)->0;
                    assert(text::precedes(profiles@[i as int].0, profiles@[k].0));
                }
            }
            return Some((&entry.0, &entry.1));
        }
        i = i + 1;
    }
    proof {
        assert forall|other: Seq<char>|
            (#[trigger] profile::lookup(profiles@, other)) is Some implies !maps_to(
            profile::lookup(profiles@, other)->0,
            ppd@,
        ) by {
            profile::lemma_lookup_in(profiles@, other);
            let k = choose|k: int|
                0 <= k < profiles@.len() && (#[trigger] profiles@[k]).0 == other && profiles@[k].1
                    == profile::lookup(profiles@, other)->0;
            assert(!maps_to(profiles@[k].1, ppd@));
        }
    }
    None
}

/// A profile that `busctl` prints is read back, whatever it holds but quotes.
pub proof fn law_a_printed_profile_reads_back(profile: Seq<char>)
    requires
        !profile.contains('"'),
    ensures
        property_text("s \""@ + profile + "\""@) == Some(profile),
{
    reveal_strlit("s \"");
    reveal_strlit("\"");
    reveal_strlit("s ");
    let quoted = "\""@ + profile + "\""@;
    let line = "s \""@ + profile + "\""@;
    assert(text::trimmed(line) == line);
    assert(line.take(2) =~= "s "@);
    assert(line.skip(2) =~= quoted);
    assert(text::trimmed(quoted) == quoted);
    let tail = profile + "\""@;
    assert(quoted.drop_first() =~= tail);
    assert(text::without_leading(quoted, '"') == text::without_leading(tail, '"'));
    if profile.len() == 0 {
        assert(tail.drop_first() =~= profile);
        assert(text::without_leading(profile, '"') == profile);
        assert(text::without_leading(tail, '"') == profile);
        assert(text::without_trailing(profile, '"') == profile);
    } else {
        assert(profile.contains(profile[0]));
        assert(profile.contains(profile[profile.len() - 1]));
        assert(tail[0] == profile[0]);
        assert(text::without_leading(tail, '"') == tail);
        assert(tail.drop_last() =~= profile);
        assert(text::without_trailing(profile, '"') == profile);
    }
}

/// A line announces one profile at most.
pub proof fn law_a_line_announces_one_profile(
    line: Seq<char>,
    a: Option<Seq<char>>,
    b: Option<Seq<char>>,
)
    requires
        announces(line, a),
        announces(line, b),
    ensures
        a == b,
{
    let key = CHANGE_KEY@;
    assert forall|i: int, j: int|
        text::leftmost(line, key, Some(i)) && text::leftmost(line, key, Some(j)) implies i == j by {
    }
    match (a, b) {
        (Some(p), Some(q)) => {
            let at = choose|at: int|
                {
                    &&& text::leftmost(line, key, Some(at))
                    &&& text::leftmost(line.skip(at + key.len()), "'"@, Some(p.len() as int))
                    &&& p == line.skip(at + key.len()).take(p.len() as int)
                };
            let rest = line.skip(at + key.len());
            assert(text::leftmost(rest, "'"@, Some(q.len() as int)));
            assert(p.len() == q.len());
        },
        _ => {},
    }
}

/// A mapping works in both directions: the power profile that a profile switches
/// to is one that it is applied for.
pub proof fn law_mappings_work_both_ways(profile: ProfileView)
    requires
        profile.ppd_profile is Some,
    ensures
        maps_to(profile, profile.ppd_profile->0),
{
}

/// An endpoint that was found stays in use. Otherwise the first that answers is
/// taken, and the older name is tried before the newer one.
pub proof fn law_the_first_endpoint_that_answers_is_taken(
    found: Option<usize>,
    first: bool,
    second: bool,
    r: Option<usize>,
    there: bool,
)
    requires
        call_ensures(endpoint, (found, first, second), r),
        call_ensures(is_available, (found, first, second), there),
    ensures
        found is Some ==> r == found,
        found is None && first ==> r == Some(0usize),
        found is None && !first && second ==> r == Some(1usize),
        found is None && !first && !second ==> r is None,
        there <==> r is Some,
        ENDPOINT_NAMES@[0]@ == "net.hadess.PowerProfiles"@,
        ENDPOINT_NAMES@[1]@ == "org.freedesktop.UPower.PowerProfiles"@,
{
}

/// The daemon is waited for until it answers, for half a minute at most.
pub proof fn law_the_daemon_is_waited_for(available: bool, waited: u128, r: Wait)
    requires
        call_ensures(wait_until_available, (available, waited), r),
    ensures
        r is Found <==> available,
        r is GiveUp <==> !available && waited >= 30_000_000_000,
        r is ProbeAgain <==> !available && waited < 30_000_000_000,
{
}

/// A line of the monitor that announces a change names the new profile, whatever
/// stands around it.
pub proof fn law_a_change_is_read_off_the_line(
    line: &str,
    r: Option<String>,
    before: Seq<char>,
    profile: Seq<char>,
    after: Seq<char>,
)
    requires
        call_ensures(parse_active_profile_change, (line,), r),
        line@ == before + "'ActiveProfile': <'"@ + profile + "'"@ + after,
        !profile.contains('\''),
        forall|i: int|
            0 <= i < before.len() ==> !(#[trigger] text::occurs_at(
                line@,
                "'ActiveProfile': <'"@,
                i,
            )),
    ensures
        sysfs::text_view(r) == Some(profile),
{
    reveal_strlit("'");
    let key = "'ActiveProfile': <'"@;
    let at = before.len() as int;
    assert(line@.subrange(at, at + key.len()) =~= key);
    assert(text::leftmost(line@, key, Some(at)));
    let rest = line@.skip(at + key.len());
    assert(rest =~= profile + "'"@ + after);
    let n = profile.len() as int;
    assert(rest.subrange(n, n + 1) =~= "'"@);
    assert forall|j: int| 0 <= j < profile.len() implies !(#[trigger] text::occurs_at(
        rest,
        "'"@,
        j,
    )) by {
        if text::occurs_at(rest, "'"@, j) {
            assert(rest.subrange(j, j + 1)[0] == '\'');
            assert(profile.contains(profile[j]));
        }
    }
    assert(text::leftmost(rest, "'"@, Some(profile.len() as int)));
    assert(rest.take(profile.len() as int) =~= profile);
    assert(announces(line@, Some(profile)));
    law_a_line_announces_one_profile(line@, sysfs::text_view(r), Some(profile));
}

/// A line without the key announces nothing.
pub proof fn law_other_lines_announce_nothing(line: &str, r: Option<String>)
    requires
        call_ensures(parse_active_profile_change, (line,), r),
        !text::includes(line@, "'ActiveProfile': <'"@),
    ensures
        r is None,
{
    if r is Some {
        let p = sysfs::text_view(r)->0;
        let at = choose|at: int|
            {
                &&& text::leftmost(line@, CHANGE_KEY@, Some(at))
                &&& text::leftmost(
                    line@.skip(at + CHANGE_KEY@.len()),
                    "'"@,
                    Some(p.len() as int),
                )
                &&& p == line@.skip(at + CHANGE_KEY@.len()).take(p.len() as int)
            };
        assert(text::occurs_at(line@, "'ActiveProfile': <'"@, at));
    }
}

/// A profile is applied for the power profile that it names, in any case, and
/// for no other; one that names none is applied for none. Of several the first in
/// the order of the names is taken, and one is taken whenever there is any.
pub proof fn law_the_first_mapped_profile_is_taken<'a>(
    profiles: &'a Profiles,
    power: &str,
    r: Option<(&'a String, &'a Profile)>,
    i: int,
)
    requires
        call_ensures(mapped_profile, (profiles, power), r),
        profiles.well_formed(),
    ensures
        r matches Some((name, profile)) ==> {
            &&& profile.ppd_profile matches Some(own)
            &&& text::lowered(own@) == text::lowered(power@)
            &&& exists|k: int|
                0 <= k < profiles@.len() && #[trigger] profiles@[k] == (name@, profile@)
        },
        0 <= i < profiles@.len() && profiles@[i].1.ppd_profile is Some && text::lowered(
            profiles@[i].1.ppd_profile->0,
        ) == text::lowered(power@) ==> (r matches Some((name, _)) && (name@ == profiles@[i].0
            || text::precedes(name@, profiles@[i].0))),
{
    if r is Some {
        let (name, p) = r->0;
        profile::lemma_lookup_in(profiles@, name@);
        let k = choose|k: int|
            0 <= k < profiles@.len() && (#[trigger] profiles@[k]).0 == name@ && profiles@[k].1 == p@;
        assert(profiles@[k] == (name@, p@));
    }
    if 0 <= i < profiles@.len() {
        profile::lemma_lookup_at(profiles@, i);
        assert(profile::lookup(profiles@, profiles@[i].0) == Some(profiles@[i].1));
    }
}

/// The power profile in an answer of the bus is what stands between the quotes.
pub proof fn law_the_active_profile_is_read(out: &str, r: Result<String, Error>, profile: Seq<char>)
    requires
        call_ensures(get, (out,), r),
        !profile.contains('"'),
        out@ == "s \""@ + profile + "\""@,
    ensures
        r matches Ok(read) && read@ == profile,
{
    law_a_printed_profile_reads_back(profile);
}

/// Setting the power profile hands the name of the profile to the property that
/// reading it asks for.
pub proof fn law_what_is_set_is_what_is_asked_for(
    dest: &str,
    path: &str,
    profile: &str,
    asked: Vec<String>,
    told: Vec<String>,
    i: int,
)
    requires
        call_ensures(get_property_args, (dest, path), asked),
        call_ensures(set, (dest, path, profile), told),
    ensures
        asked@.len() == 6,
        told@.len() == 8,
        asked@[1]@ == "get-property"@,
        told@[1]@ == "set-property"@,
        2 <= i < 6 ==> told@[i]@ == asked@[i]@,
        told@[2]@ == dest@,
        told@[3]@ == path@,
        told@[5]@ == "ActiveProfile"@,
        told@[7]@ == profile@,
{
    let a = text::views(asked@);
    let b = text::views(told@);
    assert(a.len() == asked@.len());
    assert(b.len() == told@.len());
    assert(forall|k: int| 0 <= k < a.len() ==> #[trigger] a[k] == asked@[k]@);
    assert(forall|k: int| 0 <= k < b.len() ==> #[trigger] b[k] == told@[k]@);
    assert(a[1] == asked@[1]@);
    assert(b[1] == told@[1]@);
    assert(b[2] == told@[2]@);
    assert(b[3] == told@[3]@);
    assert(b[5] == told@[5]@);
    assert(b[7] == told@[7]@);
    if 2 <= i < 6 {
        assert(a[i] == asked@[i]@);
        assert(b[i] == told@[i]@);
    }
}

} // verus!
