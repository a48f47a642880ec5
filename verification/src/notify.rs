//! Optional desktop notifications for temperature thresholds.
//!
//! Disabled unless switched on in the config. Alerts are rate-limited per
//! sensor so a machine sitting above its threshold does not spam the session.

use crate::config::Notifications;
use crate::degrees::Celsius;
use crate::order;
use crate::sensors::Temps;
use crate::sysfs;
use crate::system;
use crate::text;
use crate::text::Cut;
use vstd::prelude::*;
use vstd::string::StringExecFns;

verus! {

/// Where per-user runtime state lives. A `bus` socket under it means that user
/// has a session a notification can be delivered to.
pub const RUNTIME_ROOT: &'static str = "/run/user";

/// Which sensor an alert came from.
#[derive(Clone, Copy, Debug, PartialEq, Eq, Structural)]
pub enum Source {
    Cpu,
    Gpu,
}

pub open spec fn source_text(source: Source) -> Seq<char> {
    match source {
        Source::Cpu => "CPU"@,
        Source::Gpu => "GPU"@,
    }
}

impl Source {
    pub fn label(self) -> (r: &'static str)
        ensures
            r@ == source_text(self),
    {
        match self {
            Source::Cpu => "CPU",
            Source::Gpu => "GPU",
        }
    }
}

/// A sensor at or above its threshold.
#[derive(Clone, Copy, Debug, PartialEq, Eq, Structural)]
pub struct Alert {
    pub source: Source,
    pub temp: Celsius,
    pub threshold: Celsius,
}

impl Alert {
    pub fn summary(&self) -> (r: String)
        ensures
            r@ == source_text(self.source) + " temperature high"@,
    {
        let mut r: String = self.source.label().to_owned();
        r.append(" temperature high");
        r
    }

    /// The message, given the temperature and the threshold as rounded numbers.
    pub fn body(&self, temp: &str, threshold: &str) -> (r: String)
        ensures
            r@ == source_text(self.source) + " is at "@ + temp@ + "°C (threshold "@ + threshold@
                + "°C)"@,
    {
        let mut r: String = text::concat5(
            self.source.label(),
            " is at ",
            temp,
            "°C (threshold ",
            threshold,
        );
        r.append("°C)");
        r
    }
}

/// Whether enough time has passed since an alert at `last`. Times are in
/// nanoseconds.
pub open spec fn rested(last: Option<u128>, now: u128, cooldown_secs: u64) -> bool {
    match last {
        Some(at) => (if now > at {
            now - at
        } else {
            0
        }) >= cooldown_secs * 1_000_000_000,
        None => true,
    }
}

/// Raises the alerts and remembers when each sensor last did.
#[derive(Clone, Copy, Debug, PartialEq, Eq, Structural)]
pub struct Notifier {
    pub config: Notifications,
    /// When the CPU last raised an alert.
    pub last_cpu: Option<u128>,
    /// When the GPU last raised an alert.
    pub last_gpu: Option<u128>,
}

impl Notifier {
    pub open spec fn last_of(self, source: Source) -> Option<u128> {
        match source {
            Source::Cpu => self.last_cpu,
            Source::Gpu => self.last_gpu,
        }
    }

    pub open spec fn threshold_of(self, source: Source) -> Celsius {
        match source {
            Source::Cpu => self.config.cpu_temp,
            Source::Gpu => self.config.gpu_temp,
        }
    }

    /// The alert that a sensor raises when it reads `temp` at the time `now`.
    pub open spec fn alert(self, source: Source, temp: Option<Celsius>, now: u128) -> Option<
        Alert,
    > {
        match temp {
            Some(temp) => if self.config.enabled && temp.reaches(self.threshold_of(source))
                && rested(self.last_of(source), now, self.config.cooldown_secs) {
                Some(Alert { source, temp, threshold: self.threshold_of(source) })
            } else {
                None
            },
            None => None,
        }
    }

    /// All alerts that the readings raise.
    pub open spec fn alerts(self, temps: Temps, now: u128) -> Seq<Alert> {
        listed(self.alert(Source::Cpu, temps.cpu, now)) + listed(
            self.alert(Source::Gpu, temps.gpu, now),
        )
    }

    /// The notifier after it saw the readings.
    pub open spec fn notified(self, temps: Temps, now: u128) -> Notifier {
        Notifier {
            config: self.config,
            last_cpu: if self.alert(Source::Cpu, temps.cpu, now) is Some {
                Some(now)
            } else {
                self.last_cpu
            },
            last_gpu: if self.alert(Source::Gpu, temps.gpu, now) is Some {
                Some(now)
            } else {
                self.last_gpu
            },
        }
    }

    pub fn new(config: &Notifications) -> (r: Self)
        ensures
            r == (Notifier { config: *config, last_cpu: None, last_gpu: None }),
    {
        Notifier { config: *config, last_cpu: None, last_gpu: None }
    }

    /// The alerts for any sensor over its threshold. Cheap and silent when
    /// notifications are off, which is the default.
    pub fn check(&mut self, temps: Temps, now: u128) -> (r: Vec<Alert>)
        ensures
            r@ == old(self).alerts(temps, now),
            *final(self) == old(self).notified(temps, now),
    {
        let mut alerts: Vec<Alert> = Vec::new();
        if !self.config.enabled {
            return alerts;
        }
        match temps.cpu {
            Some(temp) => {
                if temp.at_least(self.config.cpu_temp) && self.due(Source::Cpu, now) {
                    self.last_cpu = Some(now);
                    alerts.push(
                        Alert { source: Source::Cpu, temp, threshold: self.config.cpu_temp },
                    );
                }
            },
            None => {},
        }
        proof {
            assert(alerts@ =~= listed(old(self).alert(Source::Cpu, temps.cpu, now)));
        }
        match temps.gpu {
            Some(temp) => {
                if temp.at_least(self.config.gpu_temp) && self.due(Source::Gpu, now) {
                    self.last_gpu = Some(now);
                    alerts.push(
                        Alert { source: Source::Gpu, temp, threshold: self.config.gpu_temp },
                    );
                }
            },
            None => {},
        }
        proof {
            assert(alerts@ =~= old(self).alerts(temps, now));
        }
        alerts
    }

    /// Whether enough time has passed since this sensor's last alert.
    pub fn due(&self, source: Source, now: u128) -> (r: bool)
        ensures
            r == rested(self.last_of(source), now, self.config.cooldown_secs),
    {
        let last: Option<u128> = match source {
            Source::Cpu => self.last_cpu,
            Source::Gpu => self.last_gpu,
        };
        match last {
            Some(at) => {
                let passed: u128 = if now > at {
                    now - at
                } else {
                    0
                };
                passed >= (self.config.cooldown_secs as u128) * 1_000_000_000
            },
            None => true,
        }
    }
}

/// A value that may be missing, as a list.
pub open spec fn listed<T>(value: Option<T>) -> Seq<T> {
    match value {
        Some(v) => seq![v],
        None => Seq::empty(),
    }
}

// --- Delivery ---

/// A logged-in user a notification can be delivered to.
#[derive(Debug, PartialEq, Eq)]
pub struct Session {
    /// Name accepted by `sudo -u`, or `#<uid>` when it cannot be resolved.
    pub user: String,
    pub uid: u32,
}

#[verifier::ext_equal]
pub struct SessionView {
    pub user: Seq<char>,
    pub uid: u32,
}

impl View for Session {
    type V = SessionView;

    open spec fn view(&self) -> SessionView {
        SessionView { user: self.user@, uid: self.uid }
    }
}

pub open spec fn session_views(sessions: Seq<Session>) -> Seq<SessionView> {
    Seq::new(sessions.len(), |i: int| sessions[i]@)
}

/// Whose desktop an alert should be shown on.
#[derive(Debug, PartialEq, Eq)]
pub enum Delivery {
    /// This process's own session bus.
    Own,
    /// Other users' session buses, because we are root and root's bus is not
    /// what the desktop is listening on.
    Sessions(Vec<Session>),
}

/// Works out who should see the alert.
///
/// Run by hand it is simply this session. Under `sudo` it is the invoking user,
/// whose uid `id -u` gave. As a system service there is no invoking user, so
/// every logged-in session gets it — that is the case that lets the sync service
/// notify a desktop.
pub fn delivery(
    is_root: bool,
    sudo_user: Option<String>,
    sudo_uid: Option<&str>,
    active: Vec<Session>,
) -> (r: Delivery)
    ensures
        !is_root ==> r is Own,
        is_root ==> (r matches Delivery::Sessions(sessions) && session_views(sessions@) == match (
            sudo_user,
            sudo_uid,
        ) {
            (Some(user), Some(uid)) => match text::parsed_nat(uid@, u32::MAX as nat) {
                Some(n) => seq![SessionView { user: user@, uid: n as u32 }],
                None => session_views(active@),
            },
            _ => session_views(active@),
        }),
{
    if !is_root {
        return Delivery::Own;
    }
    match (sudo_user, sudo_uid) {
        (Some(user), Some(uid)) => match text::parse_u32(uid) {
            Some(uid) => {
                let mut sessions: Vec<Session> = Vec::new();
                let ghost name = user@;
                sessions.push(Session { user, uid });
                proof {
                    assert(session_views(sessions@) =~= seq![SessionView { user: name, uid }]);
                }
                Delivery::Sessions(sessions)
            },
            None => Delivery::Sessions(active),
        },
        _ => Delivery::Sessions(active),
    }
}

/// An entry of [`RUNTIME_ROOT`]: its name, whether it holds a `bus`, and the
/// passwd entry of the user with that number, where there is one.
#[derive(Debug)]
pub struct RuntimeDir {
    pub name: String,
    pub has_bus: bool,
    pub passwd: Option<String>,
}

impl RuntimeDir {
    /// The session that the entry stands for, if it does.
    pub open spec fn session(self) -> Option<SessionView> {
        match plain_uid(self.name@) {
            Some(uid) => if self.has_bus {
                Some(SessionView { user: login_name(uid, sysfs::text_view(self.passwd)), uid })
            } else {
                None
            },
            None => None,
        }
    }

    fn read(&self) -> (r: Option<Session>)
        ensures
            match r {
                Some(session) => self.session() == Some(session@),
                None => self.session() is None,
            },
    {
        match runtime_dir_uid(self.name.as_str()) {
            Some(uid) => {
                if self.has_bus {
                    Some(Session { user: user_name(uid, &self.passwd), uid })
                } else {
                    None
                }
            },
            None => None,
        }
    }
}

/// The sessions that the entries stand for, in the order of the entries.
pub open spec fn running(dirs: Seq<RuntimeDir>) -> Seq<SessionView>
    decreases dirs.len(),
{
    if dirs.len() == 0 {
        Seq::empty()
    } else {
        running(dirs.drop_last()) + listed(dirs.last().session())
    }
}

/// Sessions are ordered by their user's number.
pub open spec fn by_uid() -> spec_fn(SessionView) -> int {
    |session: SessionView| session.uid as int
}

fn place(sessions: &mut Vec<Session>, session: Session)
    ensures
        session_views(final(sessions)@) == order::placed(
            session_views(old(sessions)@),
            session@,
            by_uid(),
        ),
{
    let ghost before = session_views(sessions@);
    let mut at: usize = sessions.len();
    while at > 0 && sessions[at - 1].uid > session.uid
        invariant
            at <= sessions@.len(),
            before == session_views(sessions@),
            forall|i: int|
                at <= i < sessions@.len() ==> by_uid()(session@) < by_uid()(#[trigger] before[i]),
        decreases at,
    {
        at = at - 1;
        assert(before[at as int] == sessions@[at as int]@);
    }
    proof {
        if at > 0 {
            assert(before[at - 1] == sessions@[at - 1]@);
        }
        order::lemma_placed_at(before, session@, by_uid(), at as int);
    }
    let ghost fresh = session@;
    sessions.insert(at, session);
    proof {
        assert(session_views(sessions@) =~= before.insert(at as int, fresh));
    }
}

/// Users with a running session bus, by their number. The user's own systemd
/// instance creates `/run/user/<uid>/bus` at login, so reading the directory
/// needs no extra tools and no D-Bus round trip.
pub fn active_sessions(dirs: &[RuntimeDir]) -> (r: Vec<Session>)
    ensures
        session_views(r@) == order::arranged(running(dirs@), by_uid()),
{
    let mut sessions: Vec<Session> = Vec::new();
    let mut i: usize = 0;
    proof {
        assert(dirs@.take(0) =~= Seq::empty());
        assert(session_views(sessions@) =~= Seq::empty());
    }
    while i < dirs.len()
        invariant
            i <= dirs@.len(),
            session_views(sessions@) == order::arranged(running(dirs@.take(i as int)), by_uid()),
        decreases dirs@.len() - i,
    {
        proof {
            let here = dirs@.take(i + 1);
            let before = running(dirs@.take(i as int));
            assert(here.drop_last() =~= dirs@.take(i as int));
            if dirs@[i as int].session() is Some {
                assert(running(here).drop_last() =~= before);
            } else {
                assert(running(here) =~= before);
            }
        }
        match dirs[i].read() {
            Some(session) => {
                place(&mut sessions, session);
            },
            None => {},
        }
        i = i + 1;
    }
    proof {
        assert(dirs@.take(i as int) =~= dirs@);
    }
    sessions
}

/// The uid that a plain number stands for: digits, and nothing but digits.
pub open spec fn plain_uid(name: Seq<char>) -> Option<u32> {
    if text::all_digits(name) {
        match text::parsed_nat(name, u32::MAX as nat) {
            Some(n) => Some(n as u32),
            None => None,
        }
    } else {
        None
    }
}

/// The uid a `/run/user` entry belongs to. Anything that is not a plain number
/// is not a runtime directory.
pub fn runtime_dir_uid(name: &str) -> (r: Option<u32>)
    ensures
        r == plain_uid(name@),
{
    if text::starts_with(name, "+") {
        proof {
            reveal_strlit("+");
            assert(name@.take(1)[0] == '+');
            assert(!text::is_digit(name@[0]));
        }
        return None;
    }
    proof {
        reveal_strlit("+");
        if name@.len() > 0 && name@[0] == '+' {
            assert(name@.take(1) =~= "+"@);
        }
    }
    text::parse_u32(name)
}

/// What to call a user, given their passwd entry.
pub open spec fn login_name(uid: u32, entry: Option<Seq<char>>) -> Seq<char> {
    let name = match entry {
        Some(e) => system::filled(text::piece_of(e, Cut::At(':'), 0)),
        None => None,
    };
    match name {
        Some(n) => n,
        None => "#"@ + text::decimal(uid as nat),
    }
}

/// The login name for a uid, falling back to the `#<uid>` form `sudo -u`
/// accepts when the passwd database cannot be read.
pub fn user_name(uid: u32, entry: &Option<String>) -> (r: String)
    ensures
        r@ == login_name(uid, sysfs::text_view(*entry)),
{
    let name: Option<String> = match entry {
        Some(e) => system::non_empty(text::piece(e.as_str(), Cut::At(':'), 0)),
        None => None,
    };
    match name {
        Some(n) => n,
        None => {
            let mut r: String = "#".to_owned();
            r.append(text::decimal_of(uid as u64).as_str());
            r
        },
    }
}

/// The arguments of `notify-send`.
pub open spec fn message_args(summary: Seq<char>, body: Seq<char>) -> Seq<Seq<char>> {
    seq!["--app-name=gigabytectl"@, "--urgency=critical"@, summary, body]
}

/// Arguments for `notify-send` on this process's own session bus.
pub fn own_args(summary: &str, body: &str) -> (r: Vec<String>)
    ensures
        text::views(r@) == message_args(summary@, body@),
{
    let mut args: Vec<String> = Vec::new();
    text::push_text(&mut args, "--app-name=gigabytectl");
    text::push_text(&mut args, "--urgency=critical");
    text::push_text(&mut args, summary);
    text::push_text(&mut args, body);
    proof {
        assert(text::views(args@) =~= message_args(summary@, body@));
    }
    args
}

/// Arguments for `sudo` to run `notify-send` on a user's session bus.
pub fn session_args(session: &Session, summary: &str, body: &str) -> (r: Vec<String>)
    ensures
        text::views(r@) == seq![
            "-u"@,
            session.user@,
            "DBUS_SESSION_BUS_ADDRESS=unix:path=/run/user/"@ + text::decimal(session.uid as nat)
                + "/bus"@,
            "XDG_RUNTIME_DIR=/run/user/"@ + text::decimal(session.uid as nat),
            "notify-send"@,
        ] + message_args(summary@, body@),
{
    let uid: String = text::decimal_of(session.uid as u64);
    let mut dir: String = "XDG_RUNTIME_DIR=/run/user/".to_owned();
    dir.append(uid.as_str());
    let mut args: Vec<String> = Vec::new();
    text::push_text(&mut args, "-u");
    text::push_text(&mut args, session.user.as_str());
    text::push_text(
        &mut args,
        text::concat3(
            "DBUS_SESSION_BUS_ADDRESS=unix:path=/run/user/",
            uid.as_str(),
            "/bus",
        ).as_str(),
    );
    text::push_text(&mut args, dir.as_str());
    text::push_text(&mut args, "notify-send");
    text::push_text(&mut args, "--app-name=gigabytectl");
    text::push_text(&mut args, "--urgency=critical");
    text::push_text(&mut args, summary);
    text::push_text(&mut args, body);
    proof {
        assert(text::views(args@) =~= seq![
            "-u"@,
            session.user@,
            "DBUS_SESSION_BUS_ADDRESS=unix:path=/run/user/"@ + text::decimal(session.uid as nat)
                + "/bus"@,
            "XDG_RUNTIME_DIR=/run/user/"@ + text::decimal(session.uid as nat),
            "notify-send"@,
        ] + message_args(summary@, body@));
    }
    args
}

// --- Laws ---

/// Nothing is raised, and nothing remembered, while notifications are off.
pub proof fn law_switched_off_means_silent(notifier: Notifier, temps: Temps, now: u128)
    requires
        !notifier.config.enabled,
    ensures
        notifier.alerts(temps, now) == Seq::<Alert>::empty(),
        notifier.notified(temps, now) == notifier,
{
    assert(notifier.alerts(temps, now) =~= Seq::<Alert>::empty());
}

/// After a sensor raised an alert it stays silent until the cooldown has passed,
/// however hot it is and however often it is looked at in between.
pub proof fn law_alerts_of_a_sensor_are_a_cooldown_apart(
    notifier: Notifier,
    source: Source,
    first: Temps,
    at: u128,
    between: Seq<(Temps, u128)>,
    temp: Option<Celsius>,
    now: u128,
)
    requires
        notifier.alert(
            source,
            match source {
                Source::Cpu => first.cpu,
                Source::Gpu => first.gpu,
            },
            at,
        ) is Some,
        forall|i: int|
            0 <= i < between.len() ==> at <= (#[trigger] between[i]).1 < at
                + notifier.config.cooldown_secs * 1_000_000_000,
        at <= now < at + notifier.config.cooldown_secs * 1_000_000_000,
    ensures
        after(notifier.notified(first, at), between).alert(source, temp, now) is None,
        after(notifier.notified(first, at), between).last_of(source) == Some(at),
    decreases between.len(),
{
    if between.len() > 0 {
        let seen = between.last();
        let reading = match source {
            Source::Cpu => seen.0.cpu,
            Source::Gpu => seen.0.gpu,
        };
        assert(seen == between[between.len() - 1]);
        law_alerts_of_a_sensor_are_a_cooldown_apart(
            notifier,
            source,
            first,
            at,
            between.drop_last(),
            reading,
            seen.1,
        );
        lemma_config_is_kept(notifier.notified(first, at), between);
    }
}

/// A notifier after a series of readings.
pub open spec fn after(notifier: Notifier, readings: Seq<(Temps, u128)>) -> Notifier
    decreases readings.len(),
{
    if readings.len() == 0 {
        notifier
    } else {
        after(notifier, readings.drop_last()).notified(readings.last().0, readings.last().1)
    }
}

proof fn lemma_config_is_kept(notifier: Notifier, readings: Seq<(Temps, u128)>)
    ensures
        after(notifier, readings).config == notifier.config,
    decreases readings.len(),
{
    if readings.len() > 0 {
        lemma_config_is_kept(notifier, readings.drop_last());
    }
}

/// Without a cooldown every reading at or above the threshold raises an alert.
pub proof fn law_no_cooldown_means_an_alert_each_time(
    notifier: Notifier,
    source: Source,
    temp: Celsius,
    now: u128,
)
    requires
        notifier.config.enabled,
        notifier.config.cooldown_secs == 0,
    ensures
        (notifier.alert(source, Some(temp), now) is Some) == temp.reaches(
            notifier.threshold_of(source),
        ),
{
}

/// A sensor without a reading raises nothing.
pub proof fn law_missing_readings_are_ignored(notifier: Notifier, now: u128)
    ensures
        notifier.alerts((Temps { cpu: None, gpu: None }), now) == Seq::<Alert>::empty(),
        notifier.notified((Temps { cpu: None, gpu: None }), now) == notifier,
{
    assert(notifier.alerts((Temps { cpu: None, gpu: None }), now) =~= Seq::<Alert>::empty());
}

proof fn lemma_running_holds(dirs: Seq<RuntimeDir>, i: int)
    requires
        0 <= i < dirs.len(),
        dirs[i].session() is Some,
    ensures
        running(dirs).contains(dirs[i].session()->0),
    decreases dirs.len(),
{
    let front = running(dirs.drop_last());
    let all = running(dirs);
    if i == dirs.len() - 1 {
        assert(all[all.len() - 1] == dirs[i].session()->0);
    } else {
        lemma_running_holds(dirs.drop_last(), i);
        let k = choose|k: int| 0 <= k < front.len() && front[k] == dirs[i].session()->0;
        assert(all[k] == front[k]);
    }
}

/// Every user with a session bus gets the alert.
pub proof fn law_every_session_is_notified(dirs: Seq<RuntimeDir>, i: int)
    requires
        0 <= i < dirs.len(),
        dirs[i].session() is Some,
    ensures
        order::arranged(running(dirs), by_uid()).contains(dirs[i].session()->0),
{
    lemma_running_holds(dirs, i);
    order::law_arranged_leaves_nothing_out(running(dirs), by_uid(), dirs[i].session()->0);
}

/// With notifications on, each sensor raises an alert exactly when it reads at
/// least its own threshold and has either never raised one or last did so a whole
/// cooldown ago or longer. An alert says which sensor read what against which
/// threshold; that of the CPU comes first. The time of an alert is remembered
/// for its sensor, and nothing else changes.
pub proof fn law_an_alert_comes_whenever_one_is_due(
    notifier: &mut Notifier,
    temps: Temps,
    now: u128,
    alerts: Vec<Alert>,
)
    requires
        call_ensures(Notifier::check, (notifier, temps, now), alerts),
        old(notifier).config.enabled,
    ensures
        ({
            let config = old(notifier).config;
            let pause = config.cooldown_secs * 1_000_000_000;
            let cpu = {
                &&& temps.cpu is Some
                &&& temps.cpu->0.reaches(config.cpu_temp)
                &&& old(notifier).last_cpu matches Some(at) ==> pause == 0 || at + pause <= now
            };
            let gpu = {
                &&& temps.gpu is Some
                &&& temps.gpu->0.reaches(config.gpu_temp)
                &&& old(notifier).last_gpu matches Some(at) ==> pause == 0 || at + pause <= now
            };
            let hot_cpu = Alert {
                source: Source::Cpu,
                temp: temps.cpu->0,
                threshold: config.cpu_temp,
            };
            let hot_gpu = Alert {
                source: Source::Gpu,
                temp: temps.gpu->0,
                threshold: config.gpu_temp,
            };
            &&& cpu && gpu ==> alerts@ == seq![hot_cpu, hot_gpu]
            &&& cpu && !gpu ==> alerts@ == seq![hot_cpu]
            &&& !cpu && gpu ==> alerts@ == seq![hot_gpu]
            &&& !cpu && !gpu ==> alerts@.len() == 0
            &&& cpu ==> final(notifier).last_cpu == Some(now)
            &&& !cpu ==> final(notifier).last_cpu == old(notifier).last_cpu
            &&& gpu ==> final(notifier).last_gpu == Some(now)
            &&& !gpu ==> final(notifier).last_gpu == old(notifier).last_gpu
            &&& final(notifier).config == config
        }),
{
    let one = Seq::<Alert>::empty();
    assert(forall|a: Alert| #[trigger] seq![a] + one =~= seq![a]);
    assert(forall|a: Alert| #[trigger] (one + seq![a]) =~= seq![a]);
    assert(forall|a: Alert, b: Alert| #[trigger] (seq![a] + seq![b]) =~= seq![a, b]);
}

/// A sensor may alert again exactly when its last alert is a whole cooldown ago
/// or longer, however much longer.
pub proof fn law_a_cooldown_ends(notifier: Notifier, source: Source, now: u128, r: bool)
    requires
        call_ensures(Notifier::due, (&notifier, source, now), r),
    ensures
        ({
            let last = match source {
                Source::Cpu => notifier.last_cpu,
                Source::Gpu => notifier.last_gpu,
            };
            let pause = notifier.config.cooldown_secs * 1_000_000_000;
            &&& last is None ==> r
            &&& last matches Some(at) ==> (r <==> pause == 0 || now - at >= pause)
        }),
{
}

/// Once an alert may be repeated, that stays so as time goes on.
pub proof fn law_a_rested_sensor_stays_rested(
    notifier: Notifier,
    source: Source,
    now: u128,
    later: u128,
    r: bool,
)
    requires
        call_ensures(Notifier::due, (&notifier, source, now), true),
        call_ensures(Notifier::due, (&notifier, source, later), r),
        now <= later,
    ensures
        r,
{
}

/// While notifications are off a reading raises nothing and changes nothing.
pub proof fn law_nothing_is_said_while_off(
    notifier: &mut Notifier,
    temps: Temps,
    now: u128,
    alerts: Vec<Alert>,
)
    requires
        call_ensures(Notifier::check, (notifier, temps, now), alerts),
        !old(notifier).config.enabled,
    ensures
        alerts@.len() == 0,
        *final(notifier) == *old(notifier),
{
}

/// An alert is shown on this process's own desktop, unless the process is root:
/// then on that of the user who ran `sudo`, or else on every one that is there.
pub proof fn law_alerts_reach_the_user(
    is_root: bool,
    sudo_user: Option<String>,
    sudo_uid: Option<&str>,
    active: Vec<Session>,
    uid: u32,
    r: Delivery,
)
    requires
        call_ensures(delivery, (is_root, sudo_user, sudo_uid, active), r),
    ensures
        (r is Own) == !is_root,
        is_root && sudo_user is None ==> session_views(r->Sessions_0@) == session_views(active@),
        is_root && sudo_user is Some && sudo_uid is Some && sudo_uid->0@ == text::decimal(
            uid as nat,
        ) ==> {
            &&& r->Sessions_0@.len() == 1
            &&& r->Sessions_0@[0].uid == uid
            &&& r->Sessions_0@[0].user@ == sudo_user->0@
        },
{
    text::law_decimal_reads_back(uid as nat, u32::MAX as nat);
    if is_root && sudo_user is Some && sudo_uid is Some && sudo_uid->0@ == text::decimal(
        uid as nat,
    ) {
        let views = session_views(r->Sessions_0@);
        assert(views.len() == 1);
        assert(views[0] == r->Sessions_0@[0]@);
    }
}

/// Only what a session bus was found for gets an alert, and nobody twice for the
/// same entry: every session that is listed stands for an entry named by its
/// user's number, and they come in the order of these numbers.
pub proof fn law_sessions_stand_for_entries(dirs: &[RuntimeDir], r: Vec<Session>, uid: u32, i: int)
    requires
        call_ensures(active_sessions, (dirs,), r),
    ensures
        forall|a: int, b: int|
            0 <= a <= b < r@.len() ==> (#[trigger] r@[a]).uid <= (#[trigger] r@[b]).uid,
        0 <= i < dirs@.len() && dirs@[i].has_bus && dirs@[i].name@ == text::decimal(uid as nat)
            ==> exists|k: int| 0 <= k < r@.len() && (#[trigger] r@[k]).uid == uid,
        forall|k: int|
            0 <= k < r@.len() ==> exists|j: int|
                {
                    &&& 0 <= j < dirs@.len()
                    &&& (#[trigger] dirs@[j]).has_bus
                    &&& text::all_digits(dirs@[j].name@)
                    &&& text::digits_value(dirs@[j].name@) == (#[trigger] r@[k]).uid
                },
{
    let all = running(dirs@);
    let listed = session_views(r@);
    order::law_arranged_is_a_stable_sort(all, by_uid());
    assert forall|a: int, b: int| 0 <= a <= b < r@.len() implies (#[trigger] r@[a]).uid <= (
    #[trigger] r@[b]).uid by {
        assert(by_uid()(listed[a]) <= by_uid()(listed[b]));
    }
    if 0 <= i < dirs@.len() && dirs@[i].has_bus && dirs@[i].name@ == text::decimal(uid as nat) {
        text::law_decimal_reads_back(uid as nat, u32::MAX as nat);
        text::lemma_decimal_shape(uid as nat);
        law_every_session_is_notified(dirs@, i);
        let view = dirs@[i].session()->0;
        let k = choose|k: int| 0 <= k < listed.len() && listed[k] == view;
        assert(r@[k]@ == view);
    }
    assert forall|k: int| 0 <= k < r@.len() implies exists|j: int|
        {
            &&& 0 <= j < dirs@.len()
            &&& (#[trigger] dirs@[j]).has_bus
            &&& text::all_digits(dirs@[j].name@)
            &&& text::digits_value(dirs@[j].name@) == (#[trigger] r@[k]).uid
        } by {
        assert(listed[k] == r@[k]@);
        order::law_arranged_adds_nothing(all, by_uid(), listed[k]);
        lemma_running_comes_from(dirs@, listed[k]);
        let j = choose|j: int|
            0 <= j < dirs@.len() && (#[trigger] dirs@[j]).session() == Some(listed[k]);
        assert(dirs@[j].has_bus);
        let name = dirs@[j].name@;
        if name.len() > 0 {
            assert(text::is_digit(name[0]));
        }
    }
}

proof fn lemma_running_comes_from(dirs: Seq<RuntimeDir>, session: SessionView)
    requires
        running(dirs).contains(session),
    ensures
        exists|j: int| 0 <= j < dirs.len() && (#[trigger] dirs[j]).session() == Some(session),
    decreases dirs.len(),
{
    let all = running(dirs);
    let k = choose|k: int| 0 <= k < all.len() && all[k] == session;
    if dirs.len() > 0 {
        let front = running(dirs.drop_last());
        if k < front.len() {
            assert(front[k] == session);
            lemma_running_comes_from(dirs.drop_last(), session);
            let j = choose|j: int|
                0 <= j < dirs.drop_last().len() && (#[trigger] dirs.drop_last()[j]).session()
                    == Some(session);
            assert(dirs[j].session() == Some(session));
        } else {
            assert(dirs[dirs.len() - 1].session() == Some(session));
        }
    }
}

/// An alert names its sensor first, then the temperature, and the threshold last.
pub proof fn law_an_alert_says_what_is_hot(
    alert: Alert,
    temp: &str,
    threshold: &str,
    title: String,
    message: String,
)
    requires
        call_ensures(Alert::summary, (&alert,), title),
        call_ensures(Alert::body, (&alert, temp, threshold), message),
    ensures
        ({
            let sensor = match alert.source {
                Source::Cpu => "CPU"@,
                Source::Gpu => "GPU"@,
            };
            &&& text::begins(title@, sensor)
            &&& text::begins(message@, sensor + " is at "@ + temp@ + "°C (threshold "@)
            &&& text::finishes(message@, threshold@ + "°C)"@)
        }),
{
    let sensor = match alert.source {
        Source::Cpu => "CPU"@,
        Source::Gpu => "GPU"@,
    };
    let head = sensor + " is at "@ + temp@ + "°C (threshold "@;
    let tail = threshold@ + "°C)"@;
    assert(title@.take(sensor.len() as int) =~= sensor);
    assert(message@ =~= head + tail);
    assert(message@.take(head.len() as int) =~= head);
    assert(message@.skip(message@.len() - tail.len()) =~= tail);
}

/// A user goes by the name that the entry begins with, and by the number where
/// there is no entry or no name in it.
pub proof fn law_users_go_by_their_entries(
    uid: u32,
    entry: Option<String>,
    name: Seq<char>,
    rest: Seq<char>,
    r: String,
)
    requires
        call_ensures(user_name, (uid, &entry), r),
        !name.contains(':'),
    ensures
        entry is None ==> r@ == "#"@ + text::decimal(uid as nat),
        entry is Some && entry->0@ == name.push(':') + rest ==> r@ == if name.len() > 0 {
            name
        } else {
            "#"@ + text::decimal(uid as nat)
        },
{
    let cut = Cut::At(':');
    assert forall|i: int| 0 <= i < name.len() implies !cut.cuts(#[trigger] name[i]) by {
        assert(name.contains(name[i]));
    }
    text::law_the_first_piece_ends_at_the_first_cut(name, ':', rest, cut);
    text::lemma_pieces_not_empty(name.push(':') + rest, cut);
}

} // verus!
