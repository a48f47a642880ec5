//! User configuration and saved hardware profiles.

use crate::degrees::Celsius;
use crate::error::Error;
use crate::error::Fault;
use crate::error::Problem;
use crate::path;
use crate::profile::Profiles;
use crate::text;
use vstd::prelude::*;

verus! {

/// System-wide config directory, used as a fallback when reading profiles so the
/// sync service (which runs as root under systemd with `HOME=/root` and no
/// `SUDO_USER`) can find profiles that don't live in any user's home.
pub const SYSTEM_CONFIG_DIR: &'static str = "/etc/gigabytectl";

pub const PROFILES_FILE: &'static str = "profiles.toml";

pub const CONFIG_FILE: &'static str = "config.toml";

pub const UPDATE_CHECK_FILE: &'static str = "update-check.json";

/// The TUI redraws between refreshes, so very small intervals only add load.
/// In milliseconds.
pub const MIN_REFRESH_INTERVAL: u64 = 100;

/// Temperatures move slowly, and the sync service polls them for the whole
/// uptime of the machine, so there is a floor on how often it may sample. In
/// seconds.
pub const MIN_POLL_INTERVAL: u64 = 1;

/// Ninety degrees, as the bits of a [`Celsius`].
pub const DEFAULT_THRESHOLD: u32 = 0x42b4_0000;

#[derive(Clone, Copy, Debug, PartialEq, Eq, Structural)]
pub enum Units {
    Celsius,
    Fahrenheit,
}

impl Default for Units {
    fn default() -> (r: Self)
        ensures
            r == Units::Celsius,
    {
        Units::Celsius
    }
}

impl Units {
    pub open spec fn symbol_text(self) -> Seq<char> {
        match self {
            Units::Celsius => "°C"@,
            Units::Fahrenheit => "°F"@,
        }
    }

    pub fn symbol(self) -> (r: &'static str)
        ensures
            r@ == self.symbol_text(),
    {
        match self {
            Units::Celsius => "°C",
            Units::Fahrenheit => "°F",
        }
    }
}

/// Desktop notifications for temperature thresholds. Off unless switched on.
#[derive(Clone, Copy, Debug, PartialEq, Eq, Structural)]
pub struct Notifications {
    /// Opt in to temperature alerts.
    pub enabled: bool,
    /// CPU threshold in degrees Celsius, whatever `units` is set to display.
    pub cpu_temp: Celsius,
    /// GPU threshold in degrees Celsius.
    pub gpu_temp: Celsius,
    /// Minimum gap between alerts for the same sensor.
    pub cooldown_secs: u64,
    /// How often the sync service samples temperatures. Only used there: the
    /// TUI and `monitor` alert on the samples they already take.
    pub poll_interval_secs: u64,
}

impl Default for Notifications {
    fn default() -> (r: Self)
        ensures
            r == Notifications::standard(),
    {
        Notifications {
            enabled: false,
            cpu_temp: Celsius { bits: DEFAULT_THRESHOLD },
            gpu_temp: Celsius { bits: DEFAULT_THRESHOLD },
            cooldown_secs: 300,
            poll_interval_secs: 10,
        }
    }
}

impl Notifications {
    pub open spec fn standard() -> Notifications {
        Notifications {
            enabled: false,
            cpu_temp: Celsius { bits: DEFAULT_THRESHOLD },
            gpu_temp: Celsius { bits: DEFAULT_THRESHOLD },
            cooldown_secs: 300,
            poll_interval_secs: 10,
        }
    }

    /// How often the sync service reads the sensors, in seconds, floored so a
    /// mistyped value cannot turn the service into a busy loop.
    pub fn poll_interval(&self) -> (r: u64)
        ensures
            r == if self.poll_interval_secs < MIN_POLL_INTERVAL {
                MIN_POLL_INTERVAL
            } else {
                self.poll_interval_secs
            },
    {
        if self.poll_interval_secs < MIN_POLL_INTERVAL {
            MIN_POLL_INTERVAL
        } else {
            self.poll_interval_secs
        }
    }
}

#[derive(Clone, Copy, Debug, PartialEq, Eq, Structural)]
pub struct Config {
    /// TUI auto-refresh interval in milliseconds (also the default for `monitor`).
    pub refresh_interval_ms: u64,
    /// Temperature unit used for display.
    pub units: Units,
    /// Number of samples kept in the TUI history graph.
    pub history_length: usize,
    /// Whether the TUI checks GitHub for a newer release in the background.
    pub update_check: bool,
    /// Temperature alerts (disabled by default).
    pub notifications: Notifications,
}

impl Default for Config {
    fn default() -> (r: Self)
        ensures
            r == Config::standard(),
    {
        Config {
            refresh_interval_ms: 1000,
            units: Units::Celsius,
            history_length: 120,
            update_check: true,
            notifications: Notifications::default(),
        }
    }
}

/// The value of one key: text, or a temperature, which is shown as the number
/// it stands for.
#[derive(Clone, Debug)]
pub enum Setting<T> {
    Text(T),
    Degrees(Celsius),
}

impl View for Setting<String> {
    type V = Setting<Seq<char>>;

    open spec fn view(&self) -> Setting<Seq<char>> {
        match *self {
            Setting::Text(t) => Setting::Text(t@),
            Setting::Degrees(d) => Setting::Degrees(d),
        }
    }
}

pub open spec fn bool_text(value: bool) -> Seq<char> {
    if value {
        "true"@
    } else {
        "false"@
    }
}

fn bool_name(value: bool) -> (r: String)
    ensures
        r@ == bool_text(value),
{
    if value {
        "true".to_owned()
    } else {
        "false".to_owned()
    }
}

/// What a key is set to, or `None` for an unknown key.
pub open spec fn setting_of(config: Config, key: Seq<char>) -> Option<Setting<Seq<char>>> {
    if key == "refresh_interval_ms"@ {
        Some(Setting::Text(text::decimal(config.refresh_interval_ms as nat)))
    } else if key == "units"@ {
        Some(
            Setting::Text(
                match config.units {
                    Units::Celsius => "celsius"@,
                    Units::Fahrenheit => "fahrenheit"@,
                },
            ),
        )
    } else if key == "history_length"@ {
        Some(Setting::Text(text::decimal(config.history_length as nat)))
    } else if key == "update_check"@ {
        Some(Setting::Text(bool_text(config.update_check)))
    } else if key == "notifications.enabled"@ {
        Some(Setting::Text(bool_text(config.notifications.enabled)))
    } else if key == "notifications.cpu_temp"@ {
        Some(Setting::Degrees(config.notifications.cpu_temp))
    } else if key == "notifications.gpu_temp"@ {
        Some(Setting::Degrees(config.notifications.gpu_temp))
    } else if key == "notifications.cooldown_secs"@ {
        Some(Setting::Text(text::decimal(config.notifications.cooldown_secs as nat)))
    } else if key == "notifications.poll_interval_secs"@ {
        Some(Setting::Text(text::decimal(config.notifications.poll_interval_secs as nat)))
    } else {
        None
    }
}

/// A number read from a value, or the complaint that it is not one.
pub open spec fn number_for(key: Seq<char>, value: Seq<char>, max: nat) -> Result<nat, Fault> {
    match text::parsed_nat(value, max) {
        Some(n) => Ok(n),
        None => Err(Fault::BadValue { key, value }),
    }
}

/// A switch read from a value, or the complaint that it is not one.
pub open spec fn bool_for(key: Seq<char>, value: Seq<char>) -> Result<bool, Fault> {
    let word = text::lowered(value);
    if word == "true"@ || word == "yes"@ || word == "on"@ || word == "1"@ {
        Ok(true)
    } else if word == "false"@ || word == "no"@ || word == "off"@ || word == "0"@ {
        Ok(false)
    } else {
        Err(Fault::NotBool { key, got: word })
    }
}

pub open spec fn units_for(value: Seq<char>) -> Result<Units, Fault> {
    let word = text::lowered(value);
    if word == "celsius"@ || word == "c"@ {
        Ok(Units::Celsius)
    } else if word == "fahrenheit"@ || word == "f"@ {
        Ok(Units::Fahrenheit)
    } else {
        Err(Fault::BadUnits { got: word })
    }
}

pub open spec fn degrees_for(
    key: Seq<char>,
    value: Seq<char>,
    degrees: Option<Celsius>,
) -> Result<Celsius, Fault> {
    match degrees {
        Some(d) => Ok(d),
        None => Err(Fault::BadValue { key, value }),
    }
}

/// The configuration after `value` has been assigned to `key`, or why it cannot
/// be. `degrees` is the temperature that the trimmed value stands for, if it
/// stands for one.
pub open spec fn assigned(
    config: Config,
    key: Seq<char>,
    value: Seq<char>,
    degrees: Option<Celsius>,
) -> Result<Config, Fault> {
    let value = text::trimmed(value);
    let alerts = config.notifications;
    if key == "refresh_interval_ms"@ {
        match number_for(key, value, u64::MAX as nat) {
            Ok(n) => Ok(Config { refresh_interval_ms: n as u64, ..config }),
            Err(f) => Err(f),
        }
    } else if key == "units"@ {
        match units_for(value) {
            Ok(units) => Ok(Config { units, ..config }),
            Err(f) => Err(f),
        }
    } else if key == "history_length"@ {
        match number_for(key, value, usize::MAX as nat) {
            Ok(n) => Ok(Config { history_length: n as usize, ..config }),
            Err(f) => Err(f),
        }
    } else if key == "update_check"@ {
        match bool_for(key, value) {
            Ok(update_check) => Ok(Config { update_check, ..config }),
            Err(f) => Err(f),
        }
    } else if key == "notifications.enabled"@ {
        match bool_for(key, value) {
            Ok(enabled) => Ok(
                Config { notifications: Notifications { enabled, ..alerts }, ..config },
            ),
            Err(f) => Err(f),
        }
    } else if key == "notifications.cpu_temp"@ {
        match degrees_for(key, value, degrees) {
            Ok(cpu_temp) => Ok(
                Config { notifications: Notifications { cpu_temp, ..alerts }, ..config },
            ),
            Err(f) => Err(f),
        }
    } else if key == "notifications.gpu_temp"@ {
        match degrees_for(key, value, degrees) {
            Ok(gpu_temp) => Ok(
                Config { notifications: Notifications { gpu_temp, ..alerts }, ..config },
            ),
            Err(f) => Err(f),
        }
    } else if key == "notifications.cooldown_secs"@ {
        match number_for(key, value, u64::MAX as nat) {
            Ok(n) => Ok(
                Config {
                    notifications: Notifications { cooldown_secs: n as u64, ..alerts },
                    ..config
                },
            ),
            Err(f) => Err(f),
        }
    } else if key == "notifications.poll_interval_secs"@ {
        match number_for(key, value, u64::MAX as nat) {
            Ok(n) => Ok(
                Config {
                    notifications: Notifications { poll_interval_secs: n as u64, ..alerts },
                    ..config
                },
            ),
            Err(f) => Err(f),
        }
    } else {
        Err(Fault::UnknownKey { key })
    }
}

/// Whether an executable result is the one that a specification names.
pub open spec fn agrees<T>(r: Result<T, Error>, expected: Result<T, Fault>) -> bool {
    match expected {
        Ok(v) => r == Ok::<T, Error>(v),
        Err(f) => r is Err && r->Err_0@ == f,
    }
}

pub open spec fn as_u64(r: Result<nat, Fault>) -> Result<u64, Fault> {
    match r {
        Ok(n) => Ok(n as u64),
        Err(f) => Err(f),
    }
}

fn parse_value(key: &str, value: &str, max: u64) -> (r: Result<u64, Error>)
    ensures
        agrees(r, as_u64(number_for(key@, value@, max as nat))),
        r matches Ok(n) ==> number_for(key@, value@, max as nat) == Ok::<nat, Fault>(n as nat) && n
            <= max,
{
    match text::parse_nat(value, max) {
        Some(n) => Ok(n),
        None => Err(Problem::BadValue { key: key.to_owned(), value: value.to_owned() }),
    }
}

fn parse_bool(key: &str, value: &str) -> (r: Result<bool, Error>)
    ensures
        agrees(r, bool_for(key@, value@)),
{
    let word: String = text::lowercase(value);
    let w: &str = word.as_str();
    if text::same(w, "true") || text::same(w, "yes") || text::same(w, "on") || text::same(w, "1") {
        Ok(true)
    } else if text::same(w, "false") || text::same(w, "no") || text::same(w, "off") || text::same(
        w,
        "0",
    ) {
        Ok(false)
    } else {
        Err(Problem::NotBool { key: key.to_owned(), got: word })
    }
}

fn parse_units(value: &str) -> (r: Result<Units, Error>)
    ensures
        agrees(r, units_for(value@)),
{
    let word: String = text::lowercase(value);
    let w: &str = word.as_str();
    if text::same(w, "celsius") || text::same(w, "c") {
        Ok(Units::Celsius)
    } else if text::same(w, "fahrenheit") || text::same(w, "f") {
        Ok(Units::Fahrenheit)
    } else {
        Err(Problem::BadUnits { got: word })
    }
}

fn take_degrees(key: &str, value: &str, degrees: Option<Celsius>) -> (r: Result<Celsius, Error>)
    ensures
        agrees(r, degrees_for(key@, value@, degrees)),
{
    match degrees {
        Some(d) => Ok(d),
        None => Err(Problem::BadValue { key: key.to_owned(), value: value.to_owned() }),
    }
}

impl Config {
    /// Every key `config get`/`config set` understands.
    pub const KEYS: [&'static str; 9] = [
        "refresh_interval_ms",
        "units",
        "history_length",
        "update_check",
        "notifications.enabled",
        "notifications.cpu_temp",
        "notifications.gpu_temp",
        "notifications.cooldown_secs",
        "notifications.poll_interval_secs",
    ];

    pub open spec fn standard() -> Config {
        Config {
            refresh_interval_ms: 1000,
            units: Units::Celsius,
            history_length: 120,
            update_check: true,
            notifications: Notifications::standard(),
        }
    }

    /// The time between refreshes, in milliseconds.
    pub fn refresh_interval(&self) -> (r: u64)
        ensures
            r == if self.refresh_interval_ms < MIN_REFRESH_INTERVAL {
                MIN_REFRESH_INTERVAL
            } else {
                self.refresh_interval_ms
            },
    {
        if self.refresh_interval_ms < MIN_REFRESH_INTERVAL {
            MIN_REFRESH_INTERVAL
        } else {
            self.refresh_interval_ms
        }
    }

    /// Reads one key by its dotted name.
    pub fn get(&self, key: &str) -> (r: Result<Setting<String>, Error>)
        ensures
            match setting_of(*self, key@) {
                Some(s) => r is Ok && r->Ok_0@ == s,
                None => r is Err && r->Err_0@ == (Fault::UnknownKey { key: key@ }),
            },
    {
        if text::same(key, "refresh_interval_ms") {
            Ok(Setting::Text(text::decimal_of(self.refresh_interval_ms)))
        } else if text::same(key, "units") {
            Ok(
                Setting::Text(
                    match self.units {
                        Units::Celsius => "celsius".to_owned(),
                        Units::Fahrenheit => "fahrenheit".to_owned(),
                    },
                ),
            )
        } else if text::same(key, "history_length") {
            Ok(Setting::Text(text::decimal_of(self.history_length as u64)))
        } else if text::same(key, "update_check") {
            Ok(Setting::Text(bool_name(self.update_check)))
        } else if text::same(key, "notifications.enabled") {
            Ok(Setting::Text(bool_name(self.notifications.enabled)))
        } else if text::same(key, "notifications.cpu_temp") {
            Ok(Setting::Degrees(self.notifications.cpu_temp))
        } else if text::same(key, "notifications.gpu_temp") {
            Ok(Setting::Degrees(self.notifications.gpu_temp))
        } else if text::same(key, "notifications.cooldown_secs") {
            Ok(Setting::Text(text::decimal_of(self.notifications.cooldown_secs)))
        } else if text::same(key, "notifications.poll_interval_secs") {
            Ok(Setting::Text(text::decimal_of(self.notifications.poll_interval_secs)))
        } else {
            Err(Problem::UnknownKey { key: key.to_owned() })
        }
    }

    /// Writes one key by its dotted name, parsing `value` for that key's type.
    ///
    /// `degrees` is the number that the trimmed value stands for, where it
    /// stands for one; only the two temperature keys look at it.
    pub fn set(&mut self, key: &str, value: &str, degrees: Option<Celsius>) -> (r: Result<
        (),
        Error,
    >)
        ensures
            match assigned(*old(self), key@, value@, degrees) {
                Ok(config) => r is Ok && *final(self) == config,
                Err(f) => r is Err && r->Err_0@ == f && *final(self) == *old(self),
            },
    {
        let value: &str = text::trim(value);
        if text::same(key, "refresh_interval_ms") {
            self.refresh_interval_ms = parse_value(key, value, u64::MAX)?;
        } else if text::same(key, "units") {
            self.units = parse_units(value)?;
        } else if text::same(key, "history_length") {
            self.history_length = parse_value(key, value, usize::MAX as u64)? as usize;
        } else if text::same(key, "update_check") {
            self.update_check = parse_bool(key, value)?;
        } else if text::same(key, "notifications.enabled") {
            self.notifications.enabled = parse_bool(key, value)?;
        } else if text::same(key, "notifications.cpu_temp") {
            self.notifications.cpu_temp = take_degrees(key, value, degrees)?;
        } else if text::same(key, "notifications.gpu_temp") {
            self.notifications.gpu_temp = take_degrees(key, value, degrees)?;
        } else if text::same(key, "notifications.cooldown_secs") {
            self.notifications.cooldown_secs = parse_value(key, value, u64::MAX)?;
        } else if text::same(key, "notifications.poll_interval_secs") {
            self.notifications.poll_interval_secs = parse_value(key, value, u64::MAX)?;
        } else {
            return Err(Problem::UnknownKey { key: key.to_owned() });
        }
        Ok(())
    }
}

proof fn lemma_words_are_plain()
    ensures
        text::trimmed("celsius"@) == "celsius"@,
        text::lowered("celsius"@) == "celsius"@,
        text::trimmed("fahrenheit"@) == "fahrenheit"@,
        text::lowered("fahrenheit"@) == "fahrenheit"@,
        text::trimmed("true"@) == "true"@,
        text::lowered("true"@) == "true"@,
        text::trimmed("false"@) == "false"@,
        text::lowered("false"@) == "false"@,
        "fahrenheit"@ != "celsius"@,
        "fahrenheit"@ != "c"@,
        "false"@ != "true"@,
        "false"@ != "yes"@,
        "false"@ != "on"@,
        "false"@ != "1"@,
{
    reveal_strlit("celsius");
    reveal_strlit("c");
    reveal_strlit("fahrenheit");
    reveal_strlit("true");
    reveal_strlit("false");
    reveal_strlit("yes");
    reveal_strlit("on");
    reveal_strlit("1");
    assert(text::lowered("celsius"@) =~= "celsius"@);
    assert(text::lowered("fahrenheit"@) =~= "fahrenheit"@);
    assert(text::lowered("true"@) =~= "true"@);
    assert(text::lowered("false"@) =~= "false"@);
    assert("false"@[0] != "true"@[0]);
}

/// What `get` prints for a key, `set` accepts for it and changes nothing.
pub proof fn law_what_get_prints_set_accepts(
    config: Config,
    key: Seq<char>,
    value: Seq<char>,
    degrees: Option<Celsius>,
)
    requires
        setting_of(config, key) is Some,
    ensures
        match setting_of(config, key)->0 {
            Setting::Text(t) => assigned(config, key, t, degrees) == Ok::<Config, Fault>(config),
            Setting::Degrees(d) => assigned(config, key, value, Some(d)) == Ok::<Config, Fault>(
                config,
            ),
        },
{
    lemma_words_are_plain();
    let alerts = config.notifications;
    lemma_number_is_accepted(config.refresh_interval_ms as nat, u64::MAX as nat);
    lemma_number_is_accepted(config.history_length as nat, usize::MAX as nat);
    lemma_number_is_accepted(alerts.cooldown_secs as nat, u64::MAX as nat);
    lemma_number_is_accepted(alerts.poll_interval_secs as nat, u64::MAX as nat);
}

proof fn lemma_number_is_accepted(n: nat, max: nat)
    requires
        n <= max,
    ensures
        text::parsed_nat(text::trimmed(text::decimal(n)), max) == Some(n),
{
    text::law_decimal_is_trimmed(n);
    text::law_decimal_reads_back(n, max);
}

/// After a `set`, `get` shows a spelling of what was set: the temperature
/// itself, or a text that would have had the same effect.
pub proof fn law_get_shows_what_was_set(
    config: Config,
    key: Seq<char>,
    value: Seq<char>,
    degrees: Option<Celsius>,
)
    requires
        assigned(config, key, value, degrees) is Ok,
    ensures
        ({
            let after = assigned(config, key, value, degrees)->Ok_0;
            match setting_of(after, key) {
                Some(Setting::Degrees(d)) => degrees == Some(d),
                Some(Setting::Text(t)) => assigned(config, key, t, None) == Ok::<Config, Fault>(
                    after,
                ),
                None => false,
            }
        }),
{
    lemma_words_are_plain();
    let after = assigned(config, key, value, degrees)->Ok_0;
    lemma_number_is_accepted(after.refresh_interval_ms as nat, u64::MAX as nat);
    lemma_number_is_accepted(after.history_length as nat, usize::MAX as nat);
    lemma_number_is_accepted(after.notifications.cooldown_secs as nat, u64::MAX as nat);
    lemma_number_is_accepted(after.notifications.poll_interval_secs as nat, u64::MAX as nat);
}

/// Setting one key leaves every other key as it was.
pub proof fn law_set_leaves_other_keys_alone(
    config: Config,
    key: Seq<char>,
    value: Seq<char>,
    degrees: Option<Celsius>,
    other: Seq<char>,
)
    requires
        assigned(config, key, value, degrees) is Ok,
        other != key,
    ensures
        setting_of(assigned(config, key, value, degrees)->Ok_0, other) == setting_of(config, other),
{
}

/// Exactly the documented keys can be read and written.
pub proof fn law_the_documented_keys_are_the_known_ones(config: Config, key: Seq<char>)
    ensures
        setting_of(config, key) is Some <==> exists|i: int|
            0 <= i < Config::KEYS@.len() && (#[trigger] Config::KEYS@[i])@ == key,
{
    let keys = Config::KEYS@;
    assert(keys[0]@ == "refresh_interval_ms"@);
    assert(keys[1]@ == "units"@);
    assert(keys[2]@ == "history_length"@);
    assert(keys[3]@ == "update_check"@);
    assert(keys[4]@ == "notifications.enabled"@);
    assert(keys[5]@ == "notifications.cpu_temp"@);
    assert(keys[6]@ == "notifications.gpu_temp"@);
    assert(keys[7]@ == "notifications.cooldown_secs"@);
    assert(keys[8]@ == "notifications.poll_interval_secs"@);
}

// --- Where things are kept ---

/// What the environment says about where configuration is kept. A variable that
/// is unset, or not valid text, is `None`.
#[derive(Debug)]
pub struct Environment {
    /// `$XDG_CONFIG_HOME`
    pub xdg_config_home: Option<String>,
    /// `$XDG_CACHE_HOME`
    pub xdg_cache_home: Option<String>,
    /// Home of the user who ran `sudo`, where there is one and it is known.
    pub sudo_home: Option<String>,
    /// `$HOME`
    pub home: Option<String>,
}

/// The home directory that settings belong to: the invoking user's under `sudo`.
pub open spec fn home_text(env: Environment) -> Seq<char> {
    match env.sudo_home {
        Some(h) => h@,
        None => match env.home {
            Some(h) => h@,
            None => "/root"@,
        },
    }
}

/// Our directory under a base directory, or under `fallback` in the home.
pub open spec fn base_dir(
    env: Environment,
    base: Option<String>,
    fallback: Seq<char>,
) -> Seq<char> {
    if base is Some && base->0@.len() > 0 {
        path::joined_path(base->0@, "gigabytectl"@)
    } else {
        path::joined_path(path::joined_path(home_text(env), fallback), "gigabytectl"@)
    }
}

pub open spec fn config_home(env: Environment) -> Seq<char> {
    base_dir(env, env.xdg_config_home, ".config"@)
}

pub open spec fn cache_home(env: Environment) -> Seq<char> {
    base_dir(env, env.xdg_cache_home, ".cache"@)
}

/// Our directory under an XDG base directory, honouring the environment
/// variable and falling back to `$HOME/<fallback>`.
fn xdg_dir(env: &Environment, base: &Option<String>, fallback: &str) -> (r: String)
    ensures
        r@ == base_dir(*env, *base, fallback@),
{
    if let Some(xdg) = base {
        if !xdg.as_str().is_empty() {
            return path::join(xdg.as_str(), "gigabytectl");
        }
    }
    let home: &str = match &env.sudo_home {
        Some(h) => h.as_str(),
        None => match &env.home {
            Some(h) => h.as_str(),
            None => "/root",
        },
    };
    path::join(path::join(home, fallback).as_str(), "gigabytectl")
}

/// Resolves the config directory, accounting for being run under `sudo`.
/// Prefers the invoking user's home (via `$SUDO_USER`) so config lives in the
/// real user's `~/.config`, not root's.
pub fn config_dir(env: &Environment) -> (r: String)
    ensures
        r@ == config_home(*env),
{
    xdg_dir(env, &env.xdg_config_home, ".config")
}

/// Where cached state that is not configuration lives — currently only the
/// result of the update check. Resolved like [`config_dir`], so the TUI running
/// under `sudo` caches in the invoking user's home rather than root's.
pub fn cache_dir(env: &Environment) -> (r: String)
    ensures
        r@ == cache_home(*env),
{
    xdg_dir(env, &env.xdg_cache_home, ".cache")
}

pub fn cache_path(env: &Environment) -> (r: String)
    ensures
        r@ == path::joined_path(cache_home(*env), UPDATE_CHECK_FILE@),
{
    path::join(cache_dir(env).as_str(), UPDATE_CHECK_FILE)
}

/// The directory that configuration is kept in, system-wide or the user's.
pub open spec fn settings_dir(env: Environment, system: bool) -> Seq<char> {
    if system {
        SYSTEM_CONFIG_DIR@
    } else {
        config_home(env)
    }
}

pub fn config_path(env: &Environment, system: bool) -> (r: String)
    ensures
        r@ == path::joined_path(settings_dir(*env, system), CONFIG_FILE@),
{
    if system {
        path::join(SYSTEM_CONFIG_DIR, CONFIG_FILE)
    } else {
        path::join(config_dir(env).as_str(), CONFIG_FILE)
    }
}

/// Path profiles are written to.
pub fn profiles_path(env: &Environment) -> (r: String)
    ensures
        r@ == path::joined_path(config_home(*env), PROFILES_FILE@),
{
    path::join(config_dir(env).as_str(), PROFILES_FILE)
}

pub fn system_profiles_path() -> (r: String)
    ensures
        r@ == path::joined_path(SYSTEM_CONFIG_DIR@, PROFILES_FILE@),
{
    path::join(SYSTEM_CONFIG_DIR, PROFILES_FILE)
}

/// The user's settings are the system-wide ones.
pub open spec fn user_is_system(env: Environment) -> bool {
    path::same_rooted(config_home(env), SYSTEM_CONFIG_DIR@)
}

/// The directories searched for settings, in order.
pub open spec fn searched(env: Environment) -> Seq<Seq<char>> {
    if user_is_system(env) {
        seq![config_home(env)]
    } else {
        seq![config_home(env), SYSTEM_CONFIG_DIR@]
    }
}

/// Ordered directories searched for configuration. The invoking user's config
/// dir wins; the system-wide dir is the fallback that makes the root-run sync
/// service work.
pub fn search_dirs(env: &Environment) -> (r: Vec<String>)
    ensures
        text::views(r@) == searched(*env),
{
    let user: String = config_dir(env);
    let alone: bool = path::same_rooted_path(user.as_str(), SYSTEM_CONFIG_DIR);
    let mut r: Vec<String> = Vec::new();
    r.push(user);
    if !alone {
        r.push(SYSTEM_CONFIG_DIR.to_owned());
    }
    proof {
        assert(text::views(r@) =~= searched(*env));
    }
    r
}

/// Ordered paths searched for `config.toml`, mirroring how profiles are
/// resolved so a root-run service sees the same settings.
pub fn config_search_dirs(env: &Environment) -> (r: Vec<String>)
    ensures
        text::views(r@) == searched(*env),
{
    search_dirs(env)
}

// --- Files ---

/// A file that was looked for: its path, and where it could be read what it
/// holds, or why that makes no sense.
#[derive(Debug)]
pub struct Looked<T> {
    pub path: String,
    pub contents: Option<Result<T, String>>,
}

/// The first of the files that could be read.
pub open spec fn first_read<T>(files: Seq<Looked<T>>) -> Option<Looked<T>>
    decreases files.len(),
{
    if files.len() == 0 {
        None
    } else if files[0].contents is Some {
        Some(files[0])
    } else {
        first_read(files.skip(1))
    }
}

fn first_place<T>(files: &[Looked<T>]) -> (r: Option<usize>)
    ensures
        match r {
            Some(i) => {
                &&& i < files@.len()
                &&& files@[i as int].contents is Some
                &&& first_read(files@) == Some(files@[i as int])
            },
            None => first_read(files@) is None,
        },
{
    let mut i: usize = 0;
    proof {
        assert(files@.skip(0) =~= files@);
    }
    while i < files.len()
        invariant
            i <= files@.len(),
            first_read(files@) == first_read(files@.skip(i as int)),
        decreases files@.len() - i,
    {
        proof {
            assert(files@.skip(i as int)[0] == files@[i as int]);
            assert(files@.skip(i as int).skip(1) =~= files@.skip(i + 1));
        }
        if files[i].contents.is_some() {
            return Some(i);
        }
        i = i + 1;
    }
    None
}

/// Settings, and the warning about the file that they should have come from.
#[derive(Debug)]
pub struct Loaded {
    pub config: Config,
    pub warning: Option<String>,
}

/// What a file gives: the settings in it, or the standard ones.
pub open spec fn given(file: Option<Looked<Config>>) -> Config {
    match file {
        Some(file) => match file.contents {
            Some(Ok(config)) => config,
            _ => Config::standard(),
        },
        None => Config::standard(),
    }
}

/// A file that fails to parse is reported rather than silently ignored.
pub open spec fn warned(file: Option<Looked<Config>>, instead: Seq<char>) -> Option<Seq<char>> {
    match file {
        Some(file) => match file.contents {
            Some(Err(e)) => Some(
                "Warning: failed to parse "@ + file.path@ + ": "@ + e@ + ". "@ + instead,
            ),
            _ => None,
        },
        None => None,
    }
}

fn take_config(file: &Looked<Config>, instead: &str) -> (r: Loaded)
    ensures
        r.config == given(Some(*file)),
        crate::sysfs::text_view(r.warning) == warned(Some(*file), instead@),
{
    match &file.contents {
        Some(Ok(config)) => Loaded { config: *config, warning: None },
        Some(Err(e)) => {
            let mut warning: String = text::concat5(
                "Warning: failed to parse ",
                file.path.as_str(),
                ": ",
                e.as_str(),
                ". ",
            );
            warning.append(instead);
            Loaded { config: Config::default(), warning: Some(warning) }
        },
        None => Loaded { config: Config::default(), warning: None },
    }
}

impl Config {
    /// The settings from the first of the files that could be read (the user's,
    /// then the system-wide one), and the standard ones where there is none or
    /// it does not parse.
    pub fn load(files: &[Looked<Config>]) -> (r: Loaded)
        ensures
            r.config == given(first_read(files@)),
            crate::sysfs::text_view(r.warning) == warned(first_read(files@), "Using defaults."@),
    {
        match first_place(files) {
            Some(i) => take_config(&files[i], "Using defaults."),
            None => Loaded { config: Config::default(), warning: None },
        }
    }
}

/// The settings in one specific file, or the standard ones when it is missing or
/// does not parse. Used when editing a file rather than the merged view.
pub fn load_config_file(file: &Looked<Config>) -> (r: Loaded)
    ensures
        r.config == given(Some(*file)),
        crate::sysfs::text_view(r.warning) == warned(Some(*file), "Starting from defaults."@),
{
    take_config(file, "Starting from defaults.")
}

/// The saved profiles from the first of the files that could be read; none where
/// there is none.
pub fn load_profiles(files: &[Looked<Profiles>]) -> (r: Result<Profiles, Error>)
    requires
        forall|i: int|
            0 <= i < files@.len() ==> ((#[trigger] files@[i]).contents matches Some(Ok(p))
                ==> p.well_formed()),
    ensures
        match first_read(files@) {
            Some(file) => match file.contents {
                Some(Ok(profiles)) => r is Ok && r->Ok_0@ == profiles@,
                Some(Err(e)) => r is Err && r->Err_0@ == (Fault::Unparsable {
                    path: file.path@,
                    cause: e@,
                }),
                None => true,
            },
            None => r is Ok && r->Ok_0@.len() == 0,
        },
        r matches Ok(profiles) ==> profiles.well_formed(),
{
    match first_place(files) {
        Some(i) => match &files[i].contents {
            Some(Ok(profiles)) => Ok(profiles.clone()),
            Some(Err(e)) => Err(
                Problem::Unparsable { path: files[i].path.clone(), cause: e.clone() },
            ),
            None => Ok(Profiles::new()),
        },
        None => Ok(Profiles::new()),
    }
}

/// Whether the system-wide copy of a file is to be kept in step with the
/// user's: only where there is one, and it is not the user's own.
pub open spec fn mirrors(env: Environment, present: bool) -> bool {
    present && !user_is_system(env)
}

/// Whether to mirror the user's config into the system-wide copy the root-run
/// sync service reads, given whether that copy exists. Only a copy that already
/// exists is updated, since creating one implies installing system state — that
/// is `install-service`'s job.
pub fn sync_config_to_system(env: &Environment, present: bool, is_root: bool) -> (r: Result<
    bool,
    Error,
>)
    ensures
        agrees(
            r,
            if !mirrors(*env, present) {
                Ok(false)
            } else if is_root {
                Ok(true)
            } else {
                Err(
                    Fault::SystemConfigNeedsRoot {
                        path: path::joined_path(SYSTEM_CONFIG_DIR@, CONFIG_FILE@),
                    },
                )
            },
        ),
{
    let user: String = config_dir(env);
    if !present || path::same_rooted_path(user.as_str(), SYSTEM_CONFIG_DIR) {
        Ok(false)
    } else if is_root {
        Ok(true)
    } else {
        Err(Problem::SystemConfigNeedsRoot { path: path::join(SYSTEM_CONFIG_DIR, CONFIG_FILE) })
    }
}

/// Whether to mirror the user's profiles into the system-wide copy, on the same
/// terms as [`sync_config_to_system`].
pub fn sync_profiles_to_system(env: &Environment, present: bool, is_root: bool) -> (r: Result<
    bool,
    Error,
>)
    ensures
        agrees(
            r,
            if !mirrors(*env, present) {
                Ok(false)
            } else if is_root {
                Ok(true)
            } else {
                Err(
                    Fault::SystemProfilesNeedRoot {
                        path: path::joined_path(SYSTEM_CONFIG_DIR@, PROFILES_FILE@),
                    },
                )
            },
        ),
{
    let user: String = config_dir(env);
    if !present || path::same_rooted_path(user.as_str(), SYSTEM_CONFIG_DIR) {
        Ok(false)
    } else if is_root {
        Ok(true)
    } else {
        Err(Problem::SystemProfilesNeedRoot { path: system_profiles_path() })
    }
}

/// Under `sudo` settings and cached state are looked for where the invoking user
/// keeps them, as long as no base directory is set.
pub proof fn law_sudo_keeps_the_users_directories(user: Environment, root: Environment)
    requires
        user.sudo_home is None,
        user.home is Some,
        root.sudo_home is Some,
        root.sudo_home->0@ == user.home->0@,
        user.xdg_config_home is None,
        root.xdg_config_home is None,
        user.xdg_cache_home is None,
        root.xdg_cache_home is None,
    ensures
        config_home(root) == config_home(user),
        cache_home(root) == cache_home(user),
        searched(root) == searched(user),
{
}

/// The user's settings win over the system-wide ones, which count only where the
/// user has none; where neither are there, the standard ones hold.
pub proof fn law_the_users_settings_win(user: Looked<Config>, system: Looked<Config>)
    ensures
        given(first_read(seq![user, system])) == match (user.contents, system.contents) {
            (Some(Ok(config)), _) => config,
            (None, Some(Ok(config))) => config,
            _ => Config::standard(),
        },
{
    let files = seq![user, system];
    assert(files.skip(1) =~= seq![system]);
    assert(seq![system].skip(1) =~= Seq::<Looked<Config>>::empty());
    reveal_with_fuel(first_read, 3);
}

/// The directory of settings is one of ours, wherever it lies.
pub proof fn law_the_settings_lie_in_our_directory(env: Environment)
    ensures
        path::ends_in(config_home(env), "gigabytectl"@),
        path::ends_in(cache_home(env), "gigabytectl"@),
        path::ends_in(SYSTEM_CONFIG_DIR@, "gigabytectl"@),
{
    reveal_strlit("gigabytectl");
    reveal_strlit(".");
    reveal_strlit("/etc");
    reveal_strlit("/");
    reveal_strlit("/etc/gigabytectl");
    assert(!"gigabytectl"@.contains('/'));
    let home = home_text(env);
    if env.xdg_config_home is Some {
        path::law_joined_paths_end_in_the_name(env.xdg_config_home->0@, "gigabytectl"@);
    }
    if env.xdg_cache_home is Some {
        path::law_joined_paths_end_in_the_name(env.xdg_cache_home->0@, "gigabytectl"@);
    }
    path::law_joined_paths_end_in_the_name(
        path::joined_path(home, ".config"@),
        "gigabytectl"@,
    );
    path::law_joined_paths_end_in_the_name(path::joined_path(home, ".cache"@), "gigabytectl"@);
    path::law_joined_paths_end_in_the_name("/etc"@, "gigabytectl"@);
    assert(path::joined_path("/etc"@, "gigabytectl"@) =~= SYSTEM_CONFIG_DIR@);
}

proof fn lemma_keys_differ()
    ensures
        "refresh_interval_ms"@.len() == 19,
        "units"@.len() == 5,
        "history_length"@.len() == 14,
        "update_check"@.len() == 12,
        "notifications.enabled"@.len() == 21,
        "notifications.cpu_temp"@.len() == 22,
        "notifications.gpu_temp"@.len() == 22,
        "notifications.cpu_temp"@ != "notifications.gpu_temp"@,
        "notifications.cooldown_secs"@.len() == 27,
        "notifications.poll_interval_secs"@.len() == 32,
{
    reveal_strlit("refresh_interval_ms");
    reveal_strlit("units");
    reveal_strlit("history_length");
    reveal_strlit("update_check");
    reveal_strlit("notifications.enabled");
    reveal_strlit("notifications.cpu_temp");
    reveal_strlit("notifications.gpu_temp");
    reveal_strlit("notifications.cooldown_secs");
    reveal_strlit("notifications.poll_interval_secs");
    assert("notifications.cpu_temp"@[14] != "notifications.gpu_temp"@[14]);
}

/// A number that is set is the number in the field of that key, and no other
/// field changes.
pub proof fn law_numbers_go_to_their_own_field(
    config: &mut Config,
    key: &str,
    value: &str,
    degrees: Option<Celsius>,
    r: Result<(), Error>,
    n: u64,
)
    requires
        call_ensures(Config::set, (config, key, value, degrees), r),
        value@ == text::decimal(n as nat),
    ensures
        key@ == "refresh_interval_ms"@ ==> r is Ok && *final(config) == (Config {
            refresh_interval_ms: n,
            ..*old(config)
        }),
        key@ == "history_length"@ && n <= usize::MAX ==> r is Ok && *final(config) == (Config {
            history_length: n as usize,
            ..*old(config)
        }),
        key@ == "notifications.cooldown_secs"@ ==> r is Ok && *final(config) == (Config {
            notifications: Notifications { cooldown_secs: n, ..old(config).notifications },
            ..*old(config)
        }),
        key@ == "notifications.poll_interval_secs"@ ==> r is Ok && *final(config) == (Config {
            notifications: Notifications { poll_interval_secs: n, ..old(config).notifications },
            ..*old(config)
        }),
{
    lemma_keys_differ();
    text::law_decimal_is_trimmed(n as nat);
    text::law_decimal_reads_back(n as nat, u64::MAX as nat);
    if n <= usize::MAX {
        text::law_decimal_reads_back(n as nat, usize::MAX as nat);
    }
}

/// A switch, a unit or a threshold that is set goes to the field of its key, and
/// no other field changes.
pub proof fn law_words_go_to_their_own_field(
    config: &mut Config,
    key: &str,
    value: &str,
    degrees: Option<Celsius>,
    r: Result<(), Error>,
)
    requires
        call_ensures(Config::set, (config, key, value, degrees), r),
    ensures
        ({
            let word = text::lowered(text::trimmed(value@));
            let on = word == "true"@ || word == "yes"@ || word == "on"@ || word == "1"@;
            let off = word == "false"@ || word == "no"@ || word == "off"@ || word == "0"@;
            let before = *old(config);
            let after = *final(config);
            &&& key@ == "update_check"@ && on ==> r is Ok && after == (Config {
                update_check: true,
                ..before
            })
            &&& key@ == "update_check"@ && off ==> r is Ok && after == (Config {
                update_check: false,
                ..before
            })
            &&& key@ == "notifications.enabled"@ && on ==> r is Ok && after == (Config {
                notifications: Notifications { enabled: true, ..before.notifications },
                ..before
            })
            &&& key@ == "notifications.enabled"@ && off ==> r is Ok && after == (Config {
                notifications: Notifications { enabled: false, ..before.notifications },
                ..before
            })
            &&& (key@ == "update_check"@ || key@ == "notifications.enabled"@) && !on && !off
                ==> r is Err
            &&& key@ == "units"@ && (word == "celsius"@ || word == "c"@) ==> r is Ok && after == (
            Config { units: Units::Celsius, ..before })
            &&& key@ == "units"@ && (word == "fahrenheit"@ || word == "f"@) ==> r is Ok && after
                == (Config { units: Units::Fahrenheit, ..before })
            &&& key@ == "notifications.cpu_temp"@ && degrees is Some ==> r is Ok && after == (
            Config {
                notifications: Notifications { cpu_temp: degrees->0, ..before.notifications },
                ..before
            })
            &&& key@ == "notifications.gpu_temp"@ && degrees is Some ==> r is Ok && after == (
            Config {
                notifications: Notifications { gpu_temp: degrees->0, ..before.notifications },
                ..before
            })
            &&& (key@ == "notifications.cpu_temp"@ || key@ == "notifications.gpu_temp"@)
                && degrees is None ==> r is Err
            &&& r is Err ==> after == before
        }),
{
    lemma_keys_differ();
    reveal_strlit("true");
    reveal_strlit("yes");
    reveal_strlit("on");
    reveal_strlit("1");
    reveal_strlit("false");
    reveal_strlit("no");
    reveal_strlit("off");
    reveal_strlit("0");
    reveal_strlit("celsius");
    reveal_strlit("c");
    reveal_strlit("fahrenheit");
    reveal_strlit("f");
    assert("on"@.len() == 2 && "1"@.len() == 1 && "true"@.len() == 4 && "yes"@.len() == 3);
    assert("off"@.len() == 3 && "0"@.len() == 1 && "false"@.len() == 5 && "no"@.len() == 2);
    assert("on"@[1] != "no"@[1]);
    assert("1"@[0] != "0"@[0]);
    assert("yes"@[0] != "off"@[0]);
    assert("celsius"@.len() == 7 && "c"@.len() == 1 && "fahrenheit"@.len() == 10 && "f"@.len()
        == 1);
    assert("c"@[0] != "f"@[0]);
}

/// A value is read from the field of its key.
pub proof fn law_a_key_shows_its_own_field(
    config: Config,
    key: &str,
    r: Result<Setting<String>, Error>,
)
    requires
        call_ensures(Config::get, (&config, key), r),
    ensures
        ({
            let alerts = config.notifications;
            &&& key@ == "refresh_interval_ms"@ ==> shows(
                r,
                text::decimal(config.refresh_interval_ms as nat),
            )
            &&& key@ == "units"@ ==> shows(
                r,
                match config.units {
                    Units::Celsius => "celsius"@,
                    Units::Fahrenheit => "fahrenheit"@,
                },
            )
            &&& key@ == "history_length"@ ==> shows(r, text::decimal(config.history_length as nat))
            &&& key@ == "update_check"@ && config.update_check ==> shows(r, "true"@)
            &&& key@ == "update_check"@ && !config.update_check ==> shows(r, "false"@)
            &&& key@ == "notifications.enabled"@ && alerts.enabled ==> shows(r, "true"@)
            &&& key@ == "notifications.enabled"@ && !alerts.enabled ==> shows(r, "false"@)
            &&& key@ == "notifications.cpu_temp"@ ==> (r matches Ok(Setting::Degrees(d)) && d
                == alerts.cpu_temp)
            &&& key@ == "notifications.gpu_temp"@ ==> (r matches Ok(Setting::Degrees(d)) && d
                == alerts.gpu_temp)
            &&& key@ == "notifications.cooldown_secs"@ ==> shows(
                r,
                text::decimal(alerts.cooldown_secs as nat),
            )
            &&& key@ == "notifications.poll_interval_secs"@ ==> shows(
                r,
                text::decimal(alerts.poll_interval_secs as nat),
            )
        }),
{
    lemma_keys_differ();
}

/// Whether a value was read that is the given text.
pub open spec fn shows(r: Result<Setting<String>, Error>, text: Seq<char>) -> bool {
    r matches Ok(Setting::Text(t)) && t@ == text
}

/// Readings are never closer than a tenth of a second in the interactive session,
/// nor than a second in the service; from there on they are as far apart as the
/// settings say.
pub proof fn law_intervals_have_a_floor(config: Config, refresh: u64, poll: u64)
    requires
        call_ensures(Config::refresh_interval, (&config,), refresh),
        call_ensures(Notifications::poll_interval, (&config.notifications,), poll),
    ensures
        refresh >= 100,
        config.refresh_interval_ms >= 100 ==> refresh == config.refresh_interval_ms,
        config.refresh_interval_ms < 100 ==> refresh == 100,
        poll >= 1,
        config.notifications.poll_interval_secs >= 1 ==> poll
            == config.notifications.poll_interval_secs,
{
}

/// Settings and cached state lie under the base directory that is set for them,
/// and otherwise in the home of the user: the one who ran `sudo`, where there is
/// one.
pub proof fn law_directories_follow_the_environment(
    env: Environment,
    config: String,
    cache: String,
    base: Seq<char>,
)
    requires
        call_ensures(config_dir, (&env,), config),
        call_ensures(cache_dir, (&env,), cache),
        base.len() > 0,
        base.last() != '/',
    ensures
        ({
            let home = if env.sudo_home is Some {
                env.sudo_home->0@
            } else if env.home is Some {
                env.home->0@
            } else {
                "/root"@
            };
            &&& env.xdg_config_home is Some && env.xdg_config_home->0@ == base ==> config@ == base
                + "/gigabytectl"@
            &&& env.xdg_cache_home is Some && env.xdg_cache_home->0@ == base ==> cache@ == base
                + "/gigabytectl"@
            &&& (env.xdg_config_home is None || env.xdg_config_home->0@.len() == 0) && home == base
                ==> config@ == base + "/.config/gigabytectl"@
            &&& (env.xdg_cache_home is None || env.xdg_cache_home->0@.len() == 0) && home == base
                ==> cache@ == base + "/.cache/gigabytectl"@
        }),
{
    reveal_strlit("gigabytectl");
    reveal_strlit("/gigabytectl");
    reveal_strlit(".config");
    reveal_strlit(".cache");
    reveal_strlit("/.config/gigabytectl");
    reveal_strlit("/.cache/gigabytectl");
    reveal_strlit("/");
    assert(path::joined_path(base, "gigabytectl"@) =~= base + "/gigabytectl"@);
    let in_config = path::joined_path(base, ".config"@);
    assert(in_config.last() == 'g');
    assert(path::joined_path(in_config, "gigabytectl"@) =~= base + "/.config/gigabytectl"@);
    let in_cache = path::joined_path(base, ".cache"@);
    assert(in_cache.last() == 'e');
    assert(path::joined_path(in_cache, "gigabytectl"@) =~= base + "/.cache/gigabytectl"@);
}

/// The files of settings and profiles have their own names; the system-wide ones
/// lie in the system's directory.
pub proof fn law_files_lie_in_their_directories(
    env: Environment,
    own: String,
    system: String,
    profiles: String,
    shared: String,
)
    requires
        call_ensures(config_path, (&env, false), own),
        call_ensures(config_path, (&env, true), system),
        call_ensures(profiles_path, (&env,), profiles),
        call_ensures(system_profiles_path, (), shared),
    ensures
        own@ == path::joined_path(config_home(env), "config.toml"@),
        system@ == path::joined_path("/etc/gigabytectl"@, "config.toml"@),
        profiles@ == path::joined_path(config_home(env), "profiles.toml"@),
        shared@ == path::joined_path("/etc/gigabytectl"@, "profiles.toml"@),
{
}

/// The user's directory is searched first, and then the system's, unless they are
/// the same.
pub proof fn law_the_users_directory_is_searched_first(env: Environment, r: Vec<String>)
    requires
        call_ensures(search_dirs, (&env,), r),
    ensures
        r@.len() >= 1,
        r@[0]@ == config_home(env),
        r@.len() <= 2,
        r@.len() == 2 ==> r@[1]@ == "/etc/gigabytectl"@,
        r@.len() == 1 <==> path::same_rooted(config_home(env), "/etc/gigabytectl"@),
{
    let dirs = text::views(r@);
    assert(dirs.len() == r@.len());
    assert(dirs[0] == r@[0]@);
    if r@.len() == 2 {
        assert(dirs[1] == r@[1]@);
    }
}

proof fn lemma_first_read<T>(files: Seq<Looked<T>>, i: int)
    requires
        0 <= i <= files.len(),
        forall|j: int| 0 <= j < i ==> (#[trigger] files[j]).contents is None,
    ensures
        i < files.len() && files[i].contents is Some ==> first_read(files) == Some(files[i]),
        i == files.len() ==> first_read(files) is None,
    decreases files.len(),
{
    if files.len() > 0 && i > 0 {
        assert(files[0].contents is None);
        let rest = files.skip(1);
        assert forall|j: int| 0 <= j < i - 1 implies (#[trigger] rest[j]).contents is None by {
            assert(files[j + 1].contents is None);
        }
        lemma_first_read(rest, i - 1);
    }
}

/// The settings are those of the first file that can be read, and the standard
/// ones where it makes no sense, which is then said, or where there is none.
pub proof fn law_the_first_readable_settings_count(files: &[Looked<Config>], r: Loaded, i: int)
    requires
        call_ensures(Config::load, (files,), r),
        0 <= i <= files@.len(),
        forall|j: int| 0 <= j < i ==> (#[trigger] files@[j]).contents is None,
    ensures
        i < files@.len() ==> {
            &&& files@[i].contents matches Some(Ok(config)) ==> r.config == config
                && r.warning is None
            &&& files@[i].contents matches Some(Err(_)) ==> r.config == Config::standard()
                && r.warning is Some
        },
        i == files@.len() ==> r.config == Config::standard() && r.warning is None,
{
    lemma_first_read(files@, i);
}

/// The profiles are those of the first file that can be read; one that makes no
/// sense is an error, and without a file there are none.
pub proof fn law_the_first_readable_profiles_count(
    files: &[Looked<Profiles>],
    r: Result<Profiles, Error>,
    i: int,
)
    requires
        call_ensures(load_profiles, (files,), r),
        0 <= i <= files@.len(),
        forall|j: int| 0 <= j < i ==> (#[trigger] files@[j]).contents is None,
    ensures
        i < files@.len() ==> {
            &&& files@[i].contents matches Some(Ok(profiles)) ==> (r matches Ok(p) && p@
                == profiles@)
            &&& files@[i].contents matches Some(Err(_)) ==> r is Err
        },
        i == files@.len() ==> (r matches Ok(p) && p@.len() == 0),
{
    lemma_first_read(files@, i);
}

/// The system-wide copies are kept in step by root alone, where they are there
/// and are not the user's own files; without root that is an error.
pub proof fn law_only_root_keeps_the_copies_in_step(
    env: Environment,
    present: bool,
    is_root: bool,
    settings: Result<bool, Error>,
    profiles: Result<bool, Error>,
)
    requires
        call_ensures(sync_config_to_system, (&env, present, is_root), settings),
        call_ensures(sync_profiles_to_system, (&env, present, is_root), profiles),
    ensures
        ({
            let apart = present && !path::same_rooted(config_home(env), "/etc/gigabytectl"@);
            &&& settings == Ok::<bool, Error>(true) <==> apart && is_root
            &&& settings == Ok::<bool, Error>(false) <==> !apart
            &&& settings is Err <==> apart && !is_root
            &&& profiles == Ok::<bool, Error>(true) <==> apart && is_root
            &&& profiles == Ok::<bool, Error>(false) <==> !apart
            &&& profiles is Err <==> apart && !is_root
        }),
{
}

/// Alerts are off unless they are switched on, and updates are looked for unless
/// that is switched off; temperatures are shown in degrees Celsius.
pub proof fn law_the_standard_settings(r: Config)
    requires
        call_ensures(Config::default, (), r),
    ensures
        !r.notifications.enabled,
        r.update_check,
        r.units is Celsius,
        r.refresh_interval_ms == 1000,
        r.history_length == 120,
        r.notifications.cooldown_secs == 300,
        r.notifications.poll_interval_secs == 10,
        r.notifications.cpu_temp.bits == 0x42b4_0000,
        r.notifications.gpu_temp.bits == 0x42b4_0000,
{
}

} // verus!
