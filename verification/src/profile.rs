//! Saved hardware profiles: what one holds, what applying it writes, and the set
//! of them that is saved.

use crate::error::Error;
use crate::error::Fault;
use crate::error::NameKind;
use crate::error::Problem;
use crate::sysfs;
use crate::sysfs::HwState;
use crate::sysfs::Write;
use crate::text;
use vstd::prelude::*;

verus! {

/// A saved snapshot of controllable values. All fields are optional so a profile
/// can set only what it cares about.
#[derive(Debug, PartialEq)]
pub struct Profile {
    pub fan_mode: Option<String>,
    pub fan_custom_speed: Option<i32>,
    pub charge_mode: Option<String>,
    pub charge_limit: Option<i32>,
    pub gpu_boost: Option<String>,
    pub fan_curve: Option<Vec<[i32; 2]>>,
    /// power-profiles-daemon profile this maps to (e.g. "performance",
    /// "balanced", "power-saver"). Used for two-way sync with PPD.
    pub ppd_profile: Option<String>,
}

/// A profile as mathematical values.
pub struct ProfileView {
    pub fan_mode: Option<Seq<char>>,
    pub fan_custom_speed: Option<i32>,
    pub charge_mode: Option<Seq<char>>,
    pub charge_limit: Option<i32>,
    pub gpu_boost: Option<Seq<char>>,
    pub fan_curve: Option<Seq<(i32, i32)>>,
    pub ppd_profile: Option<Seq<char>>,
}

/// The points of a curve as pairs.
pub open spec fn points_of(curve: Seq<[i32; 2]>) -> Seq<(i32, i32)> {
    curve.map_values(|p: [i32; 2]| (p@[0], p@[1]))
}

impl View for Profile {
    type V = ProfileView;

    open spec fn view(&self) -> ProfileView {
        ProfileView {
            fan_mode: sysfs::text_view(self.fan_mode),
            fan_custom_speed: self.fan_custom_speed,
            charge_mode: sysfs::text_view(self.charge_mode),
            charge_limit: self.charge_limit,
            gpu_boost: sysfs::text_view(self.gpu_boost),
            fan_curve: match self.fan_curve {
                Some(curve) => Some(points_of(curve@)),
                None => None,
            },
            ppd_profile: sysfs::text_view(self.ppd_profile),
        }
    }
}

/// Copies an optional text.
pub fn copy_text(text: &Option<String>) -> (r: Option<String>)
    ensures
        sysfs::text_view(r) == sysfs::text_view(*text),
{
    match text {
        Some(t) => Some(t.clone()),
        None => None,
    }
}

fn copy_points(curve: &Vec<[i32; 2]>) -> (r: Vec<[i32; 2]>)
    ensures
        points_of(r@) == points_of(curve@),
{
    let mut r: Vec<[i32; 2]> = Vec::new();
    let mut i: usize = 0;
    while i < curve.len()
        invariant
            i <= curve@.len(),
            r@ == curve@.take(i as int),
        decreases curve@.len() - i,
    {
        r.push(curve[i]);
        i = i + 1;
        proof {
            assert(curve@.take(i as int) =~= curve@.take(i - 1).push(curve@[i - 1]));
        }
    }
    proof {
        assert(curve@.take(i as int) =~= curve@);
    }
    r
}

impl Clone for Profile {
    fn clone(&self) -> (r: Self)
        ensures
            r@ == self@,
    {
        Profile {
            fan_mode: copy_text(&self.fan_mode),
            fan_custom_speed: self.fan_custom_speed,
            charge_mode: copy_text(&self.charge_mode),
            charge_limit: self.charge_limit,
            gpu_boost: copy_text(&self.gpu_boost),
            fan_curve: match &self.fan_curve {
                Some(curve) => Some(copy_points(curve)),
                None => None,
            },
            ppd_profile: copy_text(&self.ppd_profile),
        }
    }
}

impl Default for Profile {
    fn default() -> (r: Self)
        ensures
            r@ == ProfileView::empty(),
    {
        Profile {
            fan_mode: None,
            fan_custom_speed: None,
            charge_mode: None,
            charge_limit: None,
            gpu_boost: None,
            fan_curve: None,
            ppd_profile: None,
        }
    }
}

/// The lowercase name for a node value, where it is in the known set.
pub open spec fn saved_text(names: Seq<&'static str>, value: Option<i32>) -> Option<Seq<char>> {
    match value {
        Some(i) => if 0 <= i < names.len() {
            Some(text::lowered(names[i as int]@))
        } else {
            None
        },
        None => None,
    }
}

/// Whether every name is in ASCII, where a letter has one lowercase form.
pub open spec fn ascii_names(names: Seq<&'static str>) -> bool {
    forall|i: int| 0 <= i < names.len() ==> text::is_ascii((#[trigger] names[i])@)
}

proof fn lemma_mode_names_are_ascii()
    ensures
        ascii_names(sysfs::FAN_MODES@),
        ascii_names(sysfs::CHARGE_MODES@),
{
    reveal_strlit("Normal");
    reveal_strlit("Silent");
    reveal_strlit("Gaming");
    reveal_strlit("Custom");
    reveal_strlit("Auto");
    reveal_strlit("Fixed");
}

/// The lowercase name for a node value, or `None` if the driver reported
/// nothing or something outside the known set. The names are ASCII.
pub fn saved_name(table: &[&'static str], value: Option<i32>) -> (r: Option<String>)
    requires
        ascii_names(table@),
    ensures
        sysfs::text_view(r) == saved_text(table@, value),
{
    match value {
        Some(i) => {
            if i >= 0 && (i as usize) < table.len() {
                Some(text::lowercase(table[i as usize]))
            } else {
                None
            }
        },
        None => None,
    }
}

/// The word a boost value is saved as.
pub open spec fn boost_word(value: Option<i32>) -> Option<Seq<char>> {
    match value {
        Some(v) => if v == 0 {
            Some("off"@)
        } else {
            Some("on"@)
        },
        None => None,
    }
}

/// One write, where there is a value.
pub open spec fn optional_write(path: &'static str, value: Option<i32>) -> Seq<Write> {
    match value {
        Some(v) => seq![Write { path, value: v }],
        None => seq![],
    }
}

/// The writes for the first `n` points of a curve.
pub open spec fn curve_writes(curve: Seq<(i32, i32)>, n: nat) -> Seq<Write>
    decreases n,
{
    if n == 0 {
        seq![]
    } else {
        curve_writes(curve, (n - 1) as nat) + sysfs::point_writes(
            n - 1,
            curve[n - 1].0 as int,
            curve[n - 1].1 as int,
        )
    }
}

pub open spec fn named_or_none(names: Seq<&'static str>, name: Option<Seq<char>>) -> Option<i32> {
    match name {
        Some(t) => match sysfs::named_value(names, t) {
            Some(v) => Some(v as i32),
            None => None,
        },
        None => None,
    }
}

pub open spec fn switched_or_none(name: Option<Seq<char>>) -> Option<i32> {
    match name {
        Some(t) => match sysfs::switch_value(text::lowered(text::trimmed(t))) {
            Some(v) => Some(v as i32),
            None => None,
        },
        None => None,
    }
}

impl ProfileView {
    pub open spec fn empty() -> ProfileView {
        ProfileView {
            fan_mode: None,
            fan_custom_speed: None,
            charge_mode: None,
            charge_limit: None,
            gpu_boost: None,
            fan_curve: None,
            ppd_profile: None,
        }
    }

    /// The first thing that is wrong with the profile, if anything is.
    pub open spec fn fault(self) -> Option<Fault> {
        if self.fan_mode is Some && sysfs::name_fault(
            NameKind::FanMode,
            self.fan_mode->0,
        ) is Some {
            sysfs::name_fault(NameKind::FanMode, self.fan_mode->0)
        } else if self.charge_mode is Some && sysfs::name_fault(
            NameKind::ChargeMode,
            self.charge_mode->0,
        ) is Some {
            sysfs::name_fault(NameKind::ChargeMode, self.charge_mode->0)
        } else if self.gpu_boost is Some && sysfs::switch_fault(self.gpu_boost->0) is Some {
            sysfs::switch_fault(self.gpu_boost->0)
        } else if self.fan_custom_speed is Some && sysfs::fan_speed_fault(
            self.fan_custom_speed->0,
        ) is Some {
            sysfs::fan_speed_fault(self.fan_custom_speed->0)
        } else if self.charge_limit is Some && sysfs::charge_limit_fault(
            self.charge_limit->0,
        ) is Some {
            sysfs::charge_limit_fault(self.charge_limit->0)
        } else if self.fan_curve is Some && self.fan_curve->0.len() != sysfs::FAN_CURVE_POINTS {
            Some(Fault::CurveLength { got: self.fan_curve->0.len() as usize })
        } else if self.fan_curve is Some {
            sysfs::curve_fault(self.fan_curve->0, self.fan_curve->0.len())
        } else {
            None
        }
    }

    /// What the profile writes to the hardware, in order: only what it
    /// specifies.
    pub open spec fn writes(self) -> Seq<Write> {
        optional_write(sysfs::FAN_MODE, named_or_none(sysfs::FAN_MODES@, self.fan_mode))
            + optional_write(sysfs::FAN_CUSTOM_SPEED, self.fan_custom_speed) + optional_write(
            sysfs::CHARGE_MODE,
            named_or_none(sysfs::CHARGE_MODES@, self.charge_mode),
        ) + optional_write(sysfs::CHARGE_LIMIT, self.charge_limit) + optional_write(
            sysfs::GPU_BOOST,
            switched_or_none(self.gpu_boost),
        ) + match self.fan_curve {
            Some(curve) => curve_writes(curve, curve.len()),
            None => seq![],
        }
    }
}

fn push_write(writes: &mut Vec<Write>, path: &'static str, value: Option<i32>)
    ensures
        final(writes)@ == old(writes)@ + optional_write(path, value),
{
    match value {
        Some(v) => {
            writes.push(Write { path, value: v });
            proof {
                assert(writes@ =~= old(writes)@ + optional_write(path, value));
            }
        },
        None => {
            proof {
                assert(writes@ =~= old(writes)@ + optional_write(path, value));
            }
        },
    }
}

/// A curve as pairs.
fn pairs(curve: &Vec<[i32; 2]>) -> (r: Vec<(i32, i32)>)
    ensures
        r@ == points_of(curve@),
{
    let mut r: Vec<(i32, i32)> = Vec::new();
    let mut i: usize = 0;
    while i < curve.len()
        invariant
            i <= curve@.len(),
            r@ == points_of(curve@).take(i as int),
        decreases curve@.len() - i,
    {
        let point: [i32; 2] = curve[i];
        r.push((point[0], point[1]));
        i = i + 1;
        proof {
            assert(points_of(curve@).take(i as int) =~= points_of(curve@).take(i - 1).push(
                points_of(curve@)[i - 1],
            ));
        }
    }
    proof {
        assert(points_of(curve@).take(i as int) =~= points_of(curve@));
    }
    r
}

/// A curve as the two-element rows a profile holds.
fn rows(curve: &Vec<(i32, i32)>) -> (r: Vec<[i32; 2]>)
    ensures
        points_of(r@) == curve@,
{
    let mut r: Vec<[i32; 2]> = Vec::new();
    let mut i: usize = 0;
    while i < curve.len()
        invariant
            i <= curve@.len(),
            points_of(r@) == curve@.take(i as int),
        decreases curve@.len() - i,
    {
        let ghost earlier = r@;
        let row: [i32; 2] = [curve[i].0, curve[i].1];
        r.push(row);
        i = i + 1;
        proof {
            assert(points_of(r@) =~= points_of(earlier).push((row@[0], row@[1])));
            assert(curve@.take(i as int) =~= curve@.take(i - 1).push(curve@[i - 1]));
        }
    }
    proof {
        assert(curve@.take(i as int) =~= curve@);
    }
    r
}

/// The profile that a snapshot of the hardware is saved as.
pub open spec fn captured(
    hw: HwState,
    curve: Option<Seq<(i32, i32)>>,
    ppd_profile: Option<Seq<char>>,
) -> ProfileView {
    ProfileView {
        fan_mode: saved_text(sysfs::FAN_MODES@, hw.fan_mode),
        fan_custom_speed: hw.fan_custom_speed,
        charge_mode: saved_text(sysfs::CHARGE_MODES@, hw.charge_mode),
        charge_limit: hw.charge_limit,
        gpu_boost: boost_word(hw.gpu_boost),
        fan_curve: curve,
        ppd_profile,
    }
}

pub open spec fn curve_view(curve: Option<Vec<(i32, i32)>>) -> Option<Seq<(i32, i32)>> {
    match curve {
        Some(c) => Some(c@),
        None => None,
    }
}

impl Profile {
    /// Captures the current hardware state, from a snapshot of the nodes, the
    /// fan curve and the active power profile. Values the driver does not report
    /// are left unset rather than saved as placeholders, so the profile stays
    /// applicable.
    pub fn from_hardware(
        hw: &HwState,
        curve: Option<Vec<(i32, i32)>>,
        ppd_profile: Option<String>,
    ) -> (r: Self)
        ensures
            r@ == captured(*hw, curve_view(curve), sysfs::text_view(ppd_profile)),
    {
        proof {
            lemma_mode_names_are_ascii();
        }
        Profile {
            fan_mode: saved_name(&sysfs::FAN_MODES, hw.fan_mode),
            fan_custom_speed: hw.fan_custom_speed,
            charge_mode: saved_name(&sysfs::CHARGE_MODES, hw.charge_mode),
            charge_limit: hw.charge_limit,
            gpu_boost: match hw.gpu_boost {
                Some(v) => Some(
                    if v == 0 {
                        "off".to_owned()
                    } else {
                        "on".to_owned()
                    },
                ),
                None => None,
            },
            fan_curve: match &curve {
                Some(c) => Some(rows(c)),
                None => None,
            },
            ppd_profile,
        }
    }

    /// What applying the profile writes to the hardware. Every field is
    /// validated first, so a bad entry cannot leave the machine
    /// half-configured: either all writes are given or none.
    pub fn apply(&self) -> (r: Result<Vec<Write>, Error>)
        ensures
            sysfs::reports(r, self@.fault()),
            r matches Ok(writes) ==> writes@ == self@.writes(),
    {
        let fan_mode: Option<i32> = match &self.fan_mode {
            Some(name) => Some(sysfs::fan_mode_value(name.as_str())?),
            None => None,
        };
        let charge_mode: Option<i32> = match &self.charge_mode {
            Some(name) => Some(sysfs::charge_mode_value(name.as_str())?),
            None => None,
        };
        let gpu_boost: Option<i32> = match &self.gpu_boost {
            Some(name) => Some(sysfs::on_off_value(name.as_str())?),
            None => None,
        };
        if let Some(speed) = self.fan_custom_speed {
            sysfs::validate_fan_speed(speed)?;
        }
        if let Some(limit) = self.charge_limit {
            sysfs::validate_charge_limit(limit)?;
        }
        let mut points: Vec<(i32, i32)> = Vec::new();
        if let Some(curve) = &self.fan_curve {
            if curve.len() != sysfs::FAN_CURVE_POINTS {
                return Err(Problem::CurveLength { got: curve.len() });
            }
            points = pairs(curve);
            sysfs::validate_fan_curve(points.as_slice())?;
        }
        let mut writes: Vec<Write> = Vec::new();
        push_write(&mut writes, sysfs::FAN_MODE, fan_mode);
        push_write(&mut writes, sysfs::FAN_CUSTOM_SPEED, self.fan_custom_speed);
        push_write(&mut writes, sysfs::CHARGE_MODE, charge_mode);
        push_write(&mut writes, sysfs::CHARGE_LIMIT, self.charge_limit);
        push_write(&mut writes, sysfs::GPU_BOOST, gpu_boost);
        let ghost scalars = writes@;
        let mut i: usize = 0;
        while i < points.len()
            invariant
                i <= points@.len() <= sysfs::FAN_CURVE_POINTS,
                sysfs::sound_curve(points@),
                writes@ == scalars + curve_writes(points@, i as nat),
            decreases points@.len() - i,
        {
            let (temp, speed) = points[i];
            let mut pair: Vec<Write> = sysfs::write_fan_curve_point(i, temp, speed)?;
            writes.append(&mut pair);
            i = i + 1;
            proof {
                assert(writes@ =~= scalars + curve_writes(points@, i as nat));
            }
        }
        Ok(writes)
    }
}

/// A write of a value that its node takes.
pub open spec fn fits(w: Write) -> bool {
    ||| w.path == sysfs::FAN_MODE && 0 <= w.value < 6
    ||| w.path == sysfs::FAN_CUSTOM_SPEED && sysfs::FAN_SPEED_MIN <= w.value <= sysfs::FAN_SPEED_MAX
    ||| w.path == sysfs::CHARGE_MODE && 0 <= w.value < 2
    ||| w.path == sysfs::CHARGE_LIMIT && sysfs::CHARGE_LIMIT_MIN <= w.value
        <= sysfs::CHARGE_LIMIT_MAX
    ||| w.path == sysfs::GPU_BOOST && 0 <= w.value <= 1
    ||| w.path == sysfs::FAN_CURVE_INDEX && 0 <= w.value < sysfs::FAN_CURVE_POINTS
    ||| w.path == sysfs::FAN_CURVE_DATA && sysfs::CURVE_TEMP_MIN <= w.value % 256
        <= sysfs::CURVE_TEMP_MAX && sysfs::CURVE_SPEED_MIN <= w.value / 256
        <= sysfs::CURVE_SPEED_MAX
}

pub open spec fn all_fit(writes: Seq<Write>) -> bool {
    forall|i: int| 0 <= i < writes.len() ==> fits(#[trigger] writes[i])
}

proof fn lemma_fit_together(a: Seq<Write>, b: Seq<Write>)
    requires
        all_fit(a),
        all_fit(b),
    ensures
        all_fit(a + b),
{
    assert forall|i: int| 0 <= i < (a + b).len() implies fits(#[trigger] (a + b)[i]) by {
        if i < a.len() {
            assert((a + b)[i] == a[i]);
        } else {
            assert((a + b)[i] == b[i - a.len()]);
        }
    }
}

proof fn lemma_position_in_range(names: Seq<&'static str>, name: Seq<char>, n: nat)
    ensures
        sysfs::position_among(names, name, n) matches Some(i) ==> 0 <= i < n,
    decreases n,
{
    if n > 0 {
        lemma_position_in_range(names, name, (n - 1) as nat);
    }
}

proof fn lemma_curve_writes_fit(curve: Seq<(i32, i32)>, n: nat)
    requires
        sysfs::sound_curve(curve),
        n <= curve.len() <= sysfs::FAN_CURVE_POINTS,
    ensures
        all_fit(curve_writes(curve, n)),
    decreases n,
{
    if n > 0 {
        lemma_curve_writes_fit(curve, (n - 1) as nat);
        let point = curve[n - 1];
        let pair = sysfs::point_writes(n - 1, point.0 as int, point.1 as int);
        sysfs::law_packed_points_unpack(point.0 as int, point.1 as int);
        assert(fits(pair[0]));
        assert(fits(pair[1]));
        lemma_fit_together(curve_writes(curve, (n - 1) as nat), pair);
    }
}

/// Whether a write is to a node of a setting that the profile has.
pub open spec fn covers(profile: ProfileView, w: Write) -> bool {
    ||| w.path == sysfs::FAN_MODE && profile.fan_mode is Some
    ||| w.path == sysfs::FAN_CUSTOM_SPEED && profile.fan_custom_speed == Some(w.value)
    ||| w.path == sysfs::CHARGE_MODE && profile.charge_mode is Some
    ||| w.path == sysfs::CHARGE_LIMIT && profile.charge_limit == Some(w.value)
    ||| w.path == sysfs::GPU_BOOST && profile.gpu_boost is Some
    ||| (w.path == sysfs::FAN_CURVE_INDEX || w.path == sysfs::FAN_CURVE_DATA)
        && profile.fan_curve is Some
}

proof fn lemma_curve_writes_go_to_the_curve(curve: Seq<(i32, i32)>, n: nat, i: int)
    requires
        0 <= i < curve_writes(curve, n).len(),
    ensures
        curve_writes(curve, n)[i].path == sysfs::FAN_CURVE_INDEX || curve_writes(curve, n)[i].path
            == sysfs::FAN_CURVE_DATA,
    decreases n,
{
    if n > 0 {
        let front = curve_writes(curve, (n - 1) as nat);
        if i < front.len() {
            lemma_curve_writes_go_to_the_curve(curve, (n - 1) as nat, i);
        }
    }
}

/// A profile only changes what it specifies.
pub proof fn law_a_profile_changes_only_what_it_specifies(profile: ProfileView, i: int)
    requires
        0 <= i < profile.writes().len(),
    ensures
        covers(profile, profile.writes()[i]),
{
    let scalars = optional_write(
        sysfs::FAN_MODE,
        named_or_none(sysfs::FAN_MODES@, profile.fan_mode),
    ) + optional_write(sysfs::FAN_CUSTOM_SPEED, profile.fan_custom_speed) + optional_write(
        sysfs::CHARGE_MODE,
        named_or_none(sysfs::CHARGE_MODES@, profile.charge_mode),
    ) + optional_write(sysfs::CHARGE_LIMIT, profile.charge_limit) + optional_write(
        sysfs::GPU_BOOST,
        switched_or_none(profile.gpu_boost),
    );
    if i >= scalars.len() {
        let curve = profile.fan_curve->0;
        let at = i - scalars.len();
        assert(profile.writes()[i] == curve_writes(curve, curve.len())[at]);
        lemma_curve_writes_go_to_the_curve(curve, curve.len(), at);
    } else {
        assert(profile.writes()[i] == scalars[i]);
    }
}

/// A profile that is applied writes only values that the nodes take.
pub proof fn law_applied_profiles_write_only_valid_values(profile: ProfileView)
    requires
        profile.fault() is None,
    ensures
        all_fit(profile.writes()),
{
    let a = optional_write(
        sysfs::FAN_MODE,
        named_or_none(sysfs::FAN_MODES@, profile.fan_mode),
    );
    let b = optional_write(sysfs::FAN_CUSTOM_SPEED, profile.fan_custom_speed);
    let c = optional_write(
        sysfs::CHARGE_MODE,
        named_or_none(sysfs::CHARGE_MODES@, profile.charge_mode),
    );
    let d = optional_write(sysfs::CHARGE_LIMIT, profile.charge_limit);
    let e = optional_write(sysfs::GPU_BOOST, switched_or_none(profile.gpu_boost));
    let f = match profile.fan_curve {
        Some(curve) => curve_writes(curve, curve.len()),
        None => seq![],
    };
    if profile.fan_mode is Some {
        lemma_position_in_range(sysfs::FAN_MODES@, text::trimmed(profile.fan_mode->0), 6);
    }
    if profile.charge_mode is Some {
        lemma_position_in_range(sysfs::CHARGE_MODES@, text::trimmed(profile.charge_mode->0), 2);
    }
    if profile.fan_curve is Some {
        let curve = profile.fan_curve->0;
        sysfs::law_valid_curves_are_sound(curve);
        lemma_curve_writes_fit(curve, curve.len());
    }
    lemma_fit_together(a, b);
    lemma_fit_together(a + b, c);
    lemma_fit_together(a + b + c, d);
    lemma_fit_together(a + b + c + d, e);
    lemma_fit_together(a + b + c + d + e, f);
}

/// A profile with nothing set writes nothing.
pub proof fn law_an_empty_profile_changes_nothing()
    ensures
        ProfileView::empty().fault() is None,
        ProfileView::empty().writes() == Seq::<Write>::empty(),
{
    assert(ProfileView::empty().writes() =~= Seq::<Write>::empty());
}

/// Whether the speed, the limit and the curve of a snapshot, as far as they are
/// known, are ones that the hardware takes.
pub open spec fn settable(hw: HwState, curve: Option<Seq<(i32, i32)>>) -> bool {
    &&& hw.fan_custom_speed is Some ==> sysfs::fan_speed_fault(hw.fan_custom_speed->0) is None
    &&& hw.charge_limit is Some ==> sysfs::charge_limit_fault(hw.charge_limit->0) is None
    &&& curve is Some ==> curve->0.len() == sysfs::FAN_CURVE_POINTS && sysfs::sound_curve(curve->0)
}

/// A mode, where it is in the known set.
pub open spec fn known_mode(names: Seq<&'static str>, value: Option<i32>) -> Option<i32> {
    match value {
        Some(i) => if 0 <= i < names.len() {
            Some(i)
        } else {
            None
        },
        None => None,
    }
}

/// Whatever modes the driver reports, a saved snapshot stays applicable.
/// Applying it writes every setting back as it was read, but for modes outside
/// the known set, which it leaves alone; of GPU boost, whether it was on.
pub proof fn law_a_saved_profile_restores_the_settings(
    hw: HwState,
    curve: Option<Seq<(i32, i32)>>,
    ppd_profile: Option<Seq<char>>,
)
    requires
        settable(hw, curve),
    ensures
        captured(hw, curve, ppd_profile).fault() is None,
        captured(hw, curve, ppd_profile).writes() == optional_write(
            sysfs::FAN_MODE,
            known_mode(sysfs::FAN_MODES@, hw.fan_mode),
        ) + optional_write(sysfs::FAN_CUSTOM_SPEED, hw.fan_custom_speed) + optional_write(
            sysfs::CHARGE_MODE,
            known_mode(sysfs::CHARGE_MODES@, hw.charge_mode),
        ) + optional_write(sysfs::CHARGE_LIMIT, hw.charge_limit) + optional_write(
            sysfs::GPU_BOOST,
            match hw.gpu_boost {
                Some(v) => Some(
                    if v == 0 {
                        0i32
                    } else {
                        1i32
                    },
                ),
                None => None,
            },
        ) + match curve {
            Some(points) => curve_writes(points, points.len()),
            None => seq![],
        },
{
    let saved = captured(hw, curve, ppd_profile);
    if saved.fan_mode is Some {
        let value = hw.fan_mode->0;
        lemma_saved_names(value);
        sysfs::law_fan_mode_names_round_trip(value, saved.fan_mode->0);
    }
    if saved.charge_mode is Some {
        let value = hw.charge_mode->0;
        lemma_saved_names(value);
        sysfs::law_charge_mode_names_round_trip(value, saved.charge_mode->0);
    }
    reveal_strlit("on");
    reveal_strlit("off");
    reveal_strlit("1");
    reveal_strlit("0");
    reveal_strlit("true");
    reveal_strlit("false");
    reveal_strlit("yes");
    reveal_strlit("no");
    assert(text::lowered("on"@) =~= "on"@);
    assert(text::lowered("off"@) =~= "off"@);
    if curve is Some {
        sysfs::law_valid_curves_are_sound(curve->0);
    }
}

proof fn lemma_saved_names(value: i32)
    requires
        0 <= value < 6,
    ensures
        text::alike(
            text::trimmed(text::lowered(sysfs::FAN_MODES@[value as int]@)),
            sysfs::FAN_MODES@[value as int]@,
        ),
        value < 2 ==> text::alike(
            text::trimmed(text::lowered(sysfs::CHARGE_MODES@[value as int]@)),
            sysfs::CHARGE_MODES@[value as int]@,
        ),
{
    reveal_strlit("Normal");
    reveal_strlit("Silent");
    reveal_strlit("Gaming");
    reveal_strlit("Custom");
    reveal_strlit("Auto");
    reveal_strlit("Fixed");
    let name = sysfs::FAN_MODES@[value as int]@;
    let small = text::lowered(name);
    assert(small.len() == name.len());
    assert(small[0] == text::lower(name[0]));
    assert(small[small.len() - 1] == text::lower(name[name.len() - 1]));
    assert(text::trimmed(small) == small);
    assert(text::lowered(small) =~= small);
    if value < 2 {
        let name = sysfs::CHARGE_MODES@[value as int]@;
        let small = text::lowered(name);
        assert(small.len() == name.len());
        assert(small[0] == text::lower(name[0]));
        assert(small[small.len() - 1] == text::lower(name[name.len() - 1]));
        assert(text::trimmed(small) == small);
        assert(text::lowered(small) =~= small);
    }
}

// --- Sets of profiles ---

/// Saved profiles by name, in the order of their names.
#[derive(Debug)]
pub struct Profiles {
    pub entries: Vec<(String, Profile)>,
}

pub open spec fn entry_views(entries: Seq<(String, Profile)>) -> Seq<(Seq<char>, ProfileView)> {
    entries.map_values(|e: (String, Profile)| (e.0@, e.1@))
}

/// The profile saved under a name.
pub open spec fn lookup(entries: Seq<(Seq<char>, ProfileView)>, name: Seq<char>) -> Option<
    ProfileView,
>
    decreases entries.len(),
{
    if entries.len() == 0 {
        None
    } else if entries.last().0 == name {
        Some(entries.last().1)
    } else {
        lookup(entries.drop_last(), name)
    }
}

/// Names in strictly ascending order, so that none occurs twice.
pub open spec fn ascending(entries: Seq<(Seq<char>, ProfileView)>) -> bool {
    forall|i: int, j: int|
        0 <= i < j < entries.len() ==> text::precedes(
            (#[trigger] entries[i]).0,
            (#[trigger] entries[j]).0,
        )
}

impl View for Profiles {
    type V = Seq<(Seq<char>, ProfileView)>;

    open spec fn view(&self) -> Seq<(Seq<char>, ProfileView)> {
        entry_views(self.entries@)
    }
}

pub proof fn lemma_lookup_at(entries: Seq<(Seq<char>, ProfileView)>, i: int)
    requires
        ascending(entries),
        0 <= i < entries.len(),
    ensures
        lookup(entries, entries[i].0) == Some(entries[i].1),
    decreases entries.len(),
{
    if i < entries.len() - 1 {
        assert(text::precedes(entries[i].0, entries.last().0));
        text::lemma_precedes_total(entries[i].0, entries.last().0);
        let shorter = entries.drop_last();
        assert(ascending(shorter)) by {
            assert forall|a: int, b: int| 0 <= a < b < shorter.len() implies text::precedes(
                (#[trigger] shorter[a]).0,
                (#[trigger] shorter[b]).0,
            ) by {
                assert(text::precedes(entries[a].0, entries[b].0));
            }
        }
        assert(shorter[i] == entries[i]);
        lemma_lookup_at(shorter, i);
    }
}

proof fn lemma_lookup_absent(entries: Seq<(Seq<char>, ProfileView)>, name: Seq<char>)
    ensures
        lookup(entries, name) is None <==> forall|i: int|
            0 <= i < entries.len() ==> (#[trigger] entries[i]).0 != name,
    decreases entries.len(),
{
    if entries.len() > 0 {
        let shorter = entries.drop_last();
        lemma_lookup_absent(shorter, name);
        if lookup(entries, name) is None {
            assert forall|i: int| 0 <= i < entries.len() implies (#[trigger] entries[i]).0 != name by {
                if i < entries.len() - 1 {
                    assert(shorter[i].0 != name);
                }
            }
        }
        if forall|i: int| 0 <= i < entries.len() ==> (#[trigger] entries[i]).0 != name {
            assert forall|i: int| 0 <= i < shorter.len() implies (#[trigger] shorter[i]).0 != name by {
                assert(entries[i].0 != name);
            }
            assert(entries[entries.len() - 1].0 != name);
        }
    }
}

/// A name that is found stands somewhere in the list.
pub proof fn lemma_lookup_in(entries: Seq<(Seq<char>, ProfileView)>, name: Seq<char>)
    requires
        ascending(entries),
    ensures
        lookup(entries, name) matches Some(p) ==> exists|i: int|
            0 <= i < entries.len() && (#[trigger] entries[i]).0 == name && entries[i].1 == p,
{
    lemma_lookup_absent(entries, name);
    if lookup(entries, name) is Some {
        let i = choose|i: int| 0 <= i < entries.len() && (#[trigger] entries[i]).0 == name;
        lemma_lookup_at(entries, i);
    }
}

/// An entry put in its place keeps the order and changes one lookup.
proof fn lemma_inserted(
    before: Seq<(Seq<char>, ProfileView)>,
    at: int,
    name: Seq<char>,
    profile: ProfileView,
    replaced: bool,
    after: Seq<(Seq<char>, ProfileView)>,
)
    requires
        ascending(before),
        0 <= at <= before.len(),
        forall|i: int| 0 <= i < at ==> text::precedes((#[trigger] before[i]).0, name),
        replaced ==> at < before.len() && before[at].0 == name && after == before.update(
            at,
            (name, profile),
        ),
        !replaced ==> (at < before.len() ==> text::precedes(name, before[at].0)) && after
            == before.insert(at, (name, profile)),
    ensures
        ascending(after),
        replaced == (lookup(before, name) is Some),
        forall|other: Seq<char>|
            #![trigger lookup(after, other)]
            lookup(after, other) == if other == name {
                Some(profile)
            } else {
                lookup(before, other)
            },
{
    lemma_lookup_absent(before, name);
    if !replaced {
        assert forall|i: int| 0 <= i < before.len() implies (#[trigger] before[i]).0 != name by {
            if i < at {
                text::lemma_precedes_total(before[i].0, name);
            } else {
                if i > at {
                    assert(text::precedes(before[at].0, before[i].0));
                    text::lemma_precedes_transitive(name, before[at].0, before[i].0);
                }
                text::lemma_precedes_total(name, before[i].0);
            }
        }
        assert forall|i: int, j: int| 0 <= i < j < after.len() implies text::precedes(
            (#[trigger] after[i]).0,
            (#[trigger] after[j]).0,
        ) by {
            if j < at {
                assert(text::precedes(before[i].0, before[j].0));
            } else if j == at {
                assert(text::precedes(before[i].0, name));
            } else if i < at {
                assert(text::precedes(before[i].0, before[j - 1].0));
            } else if i == at {
                if j - 1 > at {
                    assert(text::precedes(before[at].0, before[j - 1].0));
                    text::lemma_precedes_transitive(name, before[at].0, before[j - 1].0);
                }
            } else {
                assert(text::precedes(before[i - 1].0, before[j - 1].0));
            }
        }
    } else {
        assert forall|i: int, j: int| 0 <= i < j < after.len() implies text::precedes(
            (#[trigger] after[i]).0,
            (#[trigger] after[j]).0,
        ) by {
            assert(text::precedes(before[i].0, before[j].0));
        }
    }
    assert forall|other: Seq<char>| #[trigger] lookup(after, other) == if other == name {
        Some(profile)
    } else {
        lookup(before, other)
    } by {
        lemma_lookup_at(after, at);
        if other != name {
            lemma_lookup_absent(after, other);
            lemma_lookup_absent(before, other);
            lemma_lookup_in(before, other);
            if lookup(before, other) is Some {
                let i = choose|i: int|
                    0 <= i < before.len() && (#[trigger] before[i]).0 == other && before[i].1
                        == lookup(before, other)->0;
                let k = if replaced || i < at {
                    i
                } else {
                    i + 1
                };
                assert(after[k] == before[i]);
                lemma_lookup_at(after, k);
            } else {
                assert forall|k: int| 0 <= k < after.len() implies (#[trigger] after[k]).0
                    != other by {
                    if k != at {
                        let i = if replaced || k < at {
                            k
                        } else {
                            k - 1
                        };
                        assert(before[i].0 != other);
                        assert(after[k] == before[i]);
                    }
                }
            }
        }
    }
}

proof fn lemma_removed(before: Seq<(Seq<char>, ProfileView)>, at: int)
    requires
        ascending(before),
        0 <= at < before.len(),
    ensures
        ascending(before.remove(at)),
        forall|other: Seq<char>|
            #![trigger lookup(before.remove(at), other)]
            lookup(before.remove(at), other) == if other == before[at].0 {
                None
            } else {
                lookup(before, other)
            },
{
    let after = before.remove(at);
    assert forall|i: int, j: int| 0 <= i < j < after.len() implies text::precedes(
        (#[trigger] after[i]).0,
        (#[trigger] after[j]).0,
    ) by {
        let a = if i < at {
            i
        } else {
            i + 1
        };
        let b = if j < at {
            j
        } else {
            j + 1
        };
        assert(text::precedes(before[a].0, before[b].0));
    }
    assert forall|other: Seq<char>| #[trigger] lookup(after, other) == if other == before[at].0 {
        None
    } else {
        lookup(before, other)
    } by {
        lemma_lookup_absent(after, other);
        lemma_lookup_absent(before, other);
        lemma_lookup_in(before, other);
        if other == before[at].0 {
            assert forall|k: int| 0 <= k < after.len() implies (#[trigger] after[k]).0 != other by {
                if k < at {
                    assert(text::precedes(before[k].0, before[at].0));
                    text::lemma_precedes_total(before[k].0, before[at].0);
                } else {
                    assert(text::precedes(before[at].0, before[k + 1].0));
                    text::lemma_precedes_total(before[at].0, before[k + 1].0);
                }
            }
        } else if lookup(before, other) is Some {
            let i = choose|i: int|
                0 <= i < before.len() && (#[trigger] before[i]).0 == other && before[i].1 == lookup(
                    before,
                    other,
                )->0;
            let k = if i < at {
                i
            } else {
                i - 1
            };
            assert(after[k] == before[i]);
            lemma_lookup_at(after, k);
        } else {
            assert forall|k: int| 0 <= k < after.len() implies (#[trigger] after[k]).0 != other by {
                let i = if k < at {
                    k
                } else {
                    k + 1
                };
                assert(before[i].0 != other);
            }
        }
    }
}

/// The entries with a profile saved under `name`, in its place.
pub open spec fn with_entry(
    entries: Seq<(Seq<char>, ProfileView)>,
    name: Seq<char>,
    profile: ProfileView,
) -> Seq<(Seq<char>, ProfileView)>
    decreases entries.len(),
{
    if entries.len() == 0 || text::precedes(entries.last().0, name) {
        entries.push((name, profile))
    } else if entries.last().0 == name {
        entries.drop_last().push((name, profile))
    } else {
        with_entry(entries.drop_last(), name, profile).push(entries.last())
    }
}

/// The entries without the one named `name`.
pub open spec fn without_entry(
    entries: Seq<(Seq<char>, ProfileView)>,
    name: Seq<char>,
) -> Seq<(Seq<char>, ProfileView)>
    decreases entries.len(),
{
    if entries.len() == 0 {
        entries
    } else if entries.last().0 == name {
        entries.drop_last()
    } else {
        without_entry(entries.drop_last(), name).push(entries.last())
    }
}

/// Where [`with_entry`] puts the entry.
proof fn lemma_with_entry(
    before: Seq<(Seq<char>, ProfileView)>,
    at: int,
    name: Seq<char>,
    profile: ProfileView,
    replaced: bool,
)
    requires
        0 <= at <= before.len(),
        forall|i: int| 0 <= i < at ==> text::precedes((#[trigger] before[i]).0, name),
        replaced ==> at < before.len() && before[at].0 == name,
        forall|i: int|
            at <= i < before.len() && !(replaced && i == at) ==> text::precedes(
                name,
                (#[trigger] before[i]).0,
            ),
    ensures
        with_entry(before, name, profile) == if replaced {
            before.update(at, (name, profile))
        } else {
            before.insert(at, (name, profile))
        },
    decreases before.len(),
{
    let result = if replaced {
        before.update(at, (name, profile))
    } else {
        before.insert(at, (name, profile))
    };
    if at == before.len() {
        if before.len() > 0 {
            assert(text::precedes(before[before.len() - 1].0, name));
        }
        assert(result =~= before.push((name, profile)));
    } else if replaced && at == before.len() - 1 {
        text::lemma_precedes_irreflexive(name);
        assert(result =~= before.drop_last().push((name, profile)));
    } else {
        let last = before[before.len() - 1];
        assert(text::precedes(name, last.0));
        text::lemma_precedes_total(name, last.0);
        lemma_with_entry(before.drop_last(), at, name, profile, replaced);
        if replaced {
            assert(result =~= before.drop_last().update(at, (name, profile)).push(last));
        } else {
            assert(result =~= before.drop_last().insert(at, (name, profile)).push(last));
        }
    }
}

proof fn lemma_without_entry(before: Seq<(Seq<char>, ProfileView)>, at: int)
    requires
        ascending(before),
        0 <= at < before.len(),
    ensures
        without_entry(before, before[at].0) == before.remove(at),
    decreases before.len(),
{
    if at < before.len() - 1 {
        let shorter = before.drop_last();
        assert(text::precedes(before[at].0, before[before.len() - 1].0));
        text::lemma_precedes_total(before[at].0, before[before.len() - 1].0);
        assert(ascending(shorter)) by {
            assert forall|a: int, b: int| 0 <= a < b < shorter.len() implies text::precedes(
                (#[trigger] shorter[a]).0,
                (#[trigger] shorter[b]).0,
            ) by {
                assert(text::precedes(before[a].0, before[b].0));
            }
        }
        lemma_without_entry(shorter, at);
        assert(before.remove(at) =~= shorter.remove(at).push(before.last()));
    } else {
        assert(before.remove(at) =~= before.drop_last());
    }
}

proof fn lemma_without_absent(before: Seq<(Seq<char>, ProfileView)>, name: Seq<char>)
    requires
        lookup(before, name) is None,
    ensures
        without_entry(before, name) == before,
    decreases before.len(),
{
    if before.len() > 0 {
        lemma_without_absent(before.drop_last(), name);
        assert(before =~= before.drop_last().push(before.last()));
    }
}

impl Clone for Profiles {
    fn clone(&self) -> (r: Self)
        ensures
            r@ == self@,
    {
        let mut entries: Vec<(String, Profile)> = Vec::new();
        let mut i: usize = 0;
        while i < self.entries.len()
            invariant
                i <= self.entries@.len(),
                entry_views(entries@) == self@.take(i as int),
            decreases self.entries@.len() - i,
        {
            let ghost before = entries@;
            entries.push((self.entries[i].0.clone(), self.entries[i].1.clone()));
            i = i + 1;
            proof {
                assert(entry_views(entries@) =~= entry_views(before).push(self@[i - 1]));
                assert(self@.take(i as int) =~= self@.take(i - 1).push(self@[i - 1]));
            }
        }
        proof {
            assert(self@.take(i as int) =~= self@);
        }
        Profiles { entries }
    }
}

impl Profiles {
    pub open spec fn well_formed(&self) -> bool {
        ascending(self@)
    }

    /// The names of the profiles, in order.
    pub open spec fn names_view(&self) -> Seq<Seq<char>> {
        self@.map_values(|e: (Seq<char>, ProfileView)| e.0)
    }

    /// No profiles.
    pub fn new() -> (r: Self)
        ensures
            r.well_formed(),
            r@ == Seq::<(Seq<char>, ProfileView)>::empty(),
    {
        Profiles { entries: Vec::new() }
    }

    pub fn is_empty(&self) -> (r: bool)
        ensures
            r == (self@.len() == 0),
    {
        self.entries.len() == 0
    }

    /// The row of the first entry whose name does not come before `name`.
    fn place(&self, name: &str) -> (r: usize)
        requires
            self.well_formed(),
        ensures
            r <= self@.len(),
            forall|i: int| 0 <= i < r ==> text::precedes((#[trigger] self@[i]).0, name@),
            r < self@.len() ==> !text::precedes(self@[r as int].0, name@),
    {
        let mut i: usize = 0;
        while i < self.entries.len()
            invariant
                i <= self.entries@.len(),
                forall|j: int| 0 <= j < i ==> text::precedes((#[trigger] self@[j]).0, name@),
            decreases self.entries@.len() - i,
        {
            if !text::before(self.entries[i].0.as_str(), name) {
                return i;
            }
            i = i + 1;
        }
        i
    }

    /// Where a profile stands in the list, if it is there.
    pub fn position(&self, name: &str) -> (r: Option<usize>)
        requires
            self.well_formed(),
        ensures
            match r {
                Some(i) => i < self@.len() && self@[i as int].0 == name@,
                None => lookup(self@, name@) is None,
            },
    {
        let at: usize = self.place(name);
        if at < self.entries.len() && text::same(self.entries[at].0.as_str(), name) {
            return Some(at);
        }
        proof {
            lemma_lookup_absent(self@, name@);
            assert forall|i: int| 0 <= i < self@.len() implies (#[trigger] self@[i]).0 != name@ by {
                if i < at {
                    text::lemma_precedes_total(self@[i].0, name@);
                } else if i > at {
                    text::lemma_precedes_total(self@[at as int].0, name@);
                    assert(text::precedes(self@[at as int].0, self@[i].0));
                    text::lemma_precedes_total(self@[i].0, name@);
                    if self@[i].0 == name@ {
                        assert(text::precedes(self@[at as int].0, name@));
                    }
                }
            }
        }
        None
    }

    /// The profile saved under `name`.
    pub fn get(&self, name: &str) -> (r: Option<&Profile>)
        requires
            self.well_formed(),
        ensures
            match r {
                Some(p) => lookup(self@, name@) == Some(p@),
                None => lookup(self@, name@) is None,
            },
    {
        match self.position(name) {
            Some(i) => {
                proof {
                    lemma_lookup_at(self@, i as int);
                }
                Some(&self.entries[i].1)
            },
            None => None,
        }
    }

    /// Saves a profile under `name`, replacing any that is there, and says
    /// whether there was one.
    pub fn insert(&mut self, name: &str, profile: Profile) -> (replaced: bool)
        requires
            old(self).well_formed(),
        ensures
            final(self).well_formed(),
            final(self)@ == with_entry(old(self)@, name@, profile@),
            replaced == (lookup(old(self)@, name@) is Some),
            forall|other: Seq<char>|
                #![trigger lookup(final(self)@, other)]
                lookup(final(self)@, other) == if other == name@ {
                    Some(profile@)
                } else {
                    lookup(old(self)@, other)
                },
    {
        let at: usize = self.place(name);
        let ghost before = self@;
        let ghost view = profile@;
        if at < self.entries.len() && text::same(self.entries[at].0.as_str(), name) {
            self.entries.set(at, (name.to_owned(), profile));
            proof {
                assert forall|i: int| at < i < before.len() implies text::precedes(
                    name@,
                    (#[trigger] before[i]).0,
                ) by {
                    assert(text::precedes(before[at as int].0, before[i].0));
                }
                lemma_with_entry(before, at as int, name@, view, true);
                assert(self@ =~= before.update(at as int, (name@, view)));
                lemma_inserted(before, at as int, name@, view, true, self@);
            }
            true
        } else {
            self.entries.insert(at, (name.to_owned(), profile));
            proof {
                assert(self@ =~= before.insert(at as int, (name@, view)));
                if at < before.len() {
                    text::lemma_precedes_total(before[at as int].0, name@);
                }
                assert forall|i: int| at <= i < before.len() implies text::precedes(
                    name@,
                    (#[trigger] before[i]).0,
                ) by {
                    if i > at {
                        assert(text::precedes(before[at as int].0, before[i].0));
                        text::lemma_precedes_transitive(
                            name@,
                            before[at as int].0,
                            before[i].0,
                        );
                    }
                }
                lemma_with_entry(before, at as int, name@, view, false);
                lemma_inserted(before, at as int, name@, view, false, self@);
            }
            false
        }
    }

    /// Removes the profile saved under `name`, and says whether there was one.
    pub fn remove(&mut self, name: &str) -> (removed: bool)
        requires
            old(self).well_formed(),
        ensures
            final(self).well_formed(),
            final(self)@ == without_entry(old(self)@, name@),
            removed == (lookup(old(self)@, name@) is Some),
            forall|other: Seq<char>|
                #![trigger lookup(final(self)@, other)]
                lookup(final(self)@, other) == if other == name@ {
                    None
                } else {
                    lookup(old(self)@, other)
                },
    {
        match self.position(name) {
            Some(i) => {
                let ghost before = self@;
                self.entries.remove(i);
                proof {
                    assert(self@ =~= before.remove(i as int));
                    lemma_lookup_at(before, i as int);
                    lemma_removed(before, i as int);
                    lemma_without_entry(before, i as int);
                }
                true
            },
            None => {
                proof {
                    lemma_without_absent(self@, name@);
                }
                false
            },
        }
    }

    /// Collects profiles in any order; of two with the same name the later one
    /// stays.
    pub fn collect(entries: Vec<(String, Profile)>) -> (r: Self)
        ensures
            r.well_formed(),
            forall|name: Seq<char>|
                #![trigger lookup(r@, name)]
                lookup(r@, name) == lookup(entry_views(entries@), name),
    {
        let mut r: Profiles = Profiles::new();
        let mut i: usize = 0;
        let ghost all = entry_views(entries@);
        while i < entries.len()
            invariant
                all == entry_views(entries@),
                i <= entries@.len(),
                r.well_formed(),
                forall|name: Seq<char>|
                    #![trigger lookup(r@, name)]
                    lookup(r@, name) == lookup(all.take(i as int), name),
            decreases entries@.len() - i,
        {
            r.insert(entries[i].0.as_str(), entries[i].1.clone());
            i = i + 1;
            proof {
                assert(all.take(i as int).drop_last() =~= all.take(i - 1));
                assert(all.take(i as int).last() == all[i - 1]);
                assert(all[i - 1] == (entries@[i - 1].0@, entries@[i - 1].1@));
            }
        }
        proof {
            assert(all.take(i as int) =~= all);
        }
        r
    }

    /// The names of the profiles, in alphabetical order.
    pub fn names(&self) -> (r: Vec<String>)
        requires
            self.well_formed(),
        ensures
            text::views(r@) == self.names_view(),
    {
        let mut r: Vec<String> = Vec::new();
        let mut i: usize = 0;
        while i < self.entries.len()
            invariant
                i <= self.entries@.len(),
                text::views(r@) == self.names_view().take(i as int),
            decreases self.entries@.len() - i,
        {
            let ghost earlier = r@;
            r.push(self.entries[i].0.clone());
            i = i + 1;
            proof {
                assert(text::views(r@) =~= text::views(earlier).push(self.entries@[i - 1].0@));
                assert(self.names_view().take(i as int) =~= self.names_view().take(i - 1).push(
                    self.names_view()[i - 1],
                ));
            }
        }
        proof {
            assert(self.names_view().take(i as int) =~= self.names_view());
        }
        r
    }
}

/// Deleting a profile that was saved under a new name leads back to where it
/// began.
pub proof fn law_deleting_undoes_saving(
    entries: Seq<(Seq<char>, ProfileView)>,
    name: Seq<char>,
    profile: ProfileView,
)
    requires
        lookup(entries, name) is None,
    ensures
        without_entry(with_entry(entries, name, profile), name) == entries,
    decreases entries.len(),
{
    if entries.len() == 0 || text::precedes(entries.last().0, name) {
        assert(entries.push((name, profile)).drop_last() =~= entries);
    } else {
        let front = entries.drop_last();
        law_deleting_undoes_saving(front, name, profile);
        let grown = with_entry(front, name, profile);
        assert(grown.push(entries.last()).drop_last() =~= grown);
        assert(front.push(entries.last()) =~= entries);
    }
}

/// Of two profiles saved under the same name the later one counts.
pub proof fn law_saving_again_replaces(
    entries: Seq<(Seq<char>, ProfileView)>,
    name: Seq<char>,
    first: ProfileView,
    second: ProfileView,
)
    ensures
        with_entry(with_entry(entries, name, first), name, second) == with_entry(
            entries,
            name,
            second,
        ),
    decreases entries.len(),
{
    text::lemma_precedes_irreflexive(name);
    if entries.len() == 0 || text::precedes(entries.last().0, name) {
        assert(entries.push((name, first)).drop_last() =~= entries);
    } else {
        let front = entries.drop_last();
        if entries.last().0 == name {
            assert(front.push((name, first)).drop_last() =~= front);
        } else {
            law_saving_again_replaces(front, name, first, second);
            let grown = with_entry(front, name, first);
            assert(grown.push(entries.last()).drop_last() =~= grown);
        }
    }
}

// --- What applying a profile does to the machine ---

/// The machine as far as profiles change it: the value that each node was last
/// set to, the point of the curve that is selected, and what each point was set
/// to.
pub struct Machine {
    pub nodes: Map<Seq<char>, int>,
    pub selected: int,
    pub points: Map<int, int>,
}

impl Machine {
    /// The machine after a write. What goes to the data node is stored at the
    /// point that is selected.
    pub open spec fn after(self, w: Write) -> Machine {
        if w.path@ == sysfs::FAN_CURVE_INDEX@ {
            Machine { selected: w.value as int, ..self }
        } else if w.path@ == sysfs::FAN_CURVE_DATA@ {
            Machine { points: self.points.insert(self.selected, w.value as int), ..self }
        } else {
            Machine { nodes: self.nodes.insert(w.path@, w.value as int), ..self }
        }
    }

    /// The machine after writes in a row.
    pub open spec fn replayed(self, writes: Seq<Write>) -> Machine
        decreases writes.len(),
    {
        if writes.len() == 0 {
            self
        } else {
            self.replayed(writes.drop_last()).after(writes.last())
        }
    }

    /// What a point of the curve was set to, if it was.
    pub open spec fn point(self, k: int) -> Option<int> {
        if self.points.dom().contains(k) {
            Some(self.points[k])
        } else {
            None
        }
    }

    /// What a node was set to, if it was.
    pub open spec fn node(self, path: &'static str) -> Option<int> {
        if self.nodes.dom().contains(path@) {
            Some(self.nodes[path@])
        } else {
            None
        }
    }
}

proof fn lemma_nodes_differ()
    ensures
        sysfs::FAN_MODE@.len() == 43,
        sysfs::FAN_CUSTOM_SPEED@.len() == 51,
        sysfs::CHARGE_MODE@.len() == 46,
        sysfs::CHARGE_LIMIT@.len() == 47,
        sysfs::GPU_BOOST@.len() == 44,
        sysfs::FAN_CURVE_INDEX@.len() == 50,
        sysfs::FAN_CURVE_DATA@.len() == 49,
{
    reveal_strlit("/sys/devices/platform/aorus_laptop/fan_mode");
    reveal_strlit("/sys/devices/platform/aorus_laptop/fan_custom_speed");
    reveal_strlit("/sys/devices/platform/aorus_laptop/fan_curve_index");
    reveal_strlit("/sys/devices/platform/aorus_laptop/fan_curve_data");
    reveal_strlit("/sys/devices/platform/aorus_laptop/charge_mode");
    reveal_strlit("/sys/devices/platform/aorus_laptop/charge_limit");
    reveal_strlit("/sys/devices/platform/aorus_laptop/gpu_boost");
}

proof fn lemma_replayed_on(machine: Machine, a: Seq<Write>, b: Seq<Write>)
    ensures
        machine.replayed(a + b) == machine.replayed(a).replayed(b),
    decreases b.len(),
{
    if b.len() == 0 {
        assert(a + b =~= a);
    } else {
        lemma_replayed_on(machine, a, b.drop_last());
        assert((a + b).drop_last() =~= a + b.drop_last());
    }
}

proof fn lemma_replayed_optional(machine: Machine, path: &'static str, value: Option<i32>)
    requires
        path@ != sysfs::FAN_CURVE_INDEX@,
        path@ != sysfs::FAN_CURVE_DATA@,
    ensures
        machine.replayed(optional_write(path, value)) == match value {
            Some(v) => Machine { nodes: machine.nodes.insert(path@, v as int), ..machine },
            None => machine,
        },
{
    reveal_with_fuel(Machine::replayed, 2);
    if value is Some {
        let writes = optional_write(path, value);
        assert(writes.drop_last() =~= Seq::<Write>::empty());
    }
}

proof fn lemma_replayed_curve(machine: Machine, curve: Seq<(i32, i32)>, n: nat)
    requires
        n <= curve.len() <= 15,
        sysfs::sound_curve(curve),
    ensures
        ({
            let after = machine.replayed(curve_writes(curve, n));
            &&& after.nodes == machine.nodes
            &&& forall|k: int|
                0 <= k < n ==> #[trigger] after.point(k) == Some(curve[k].1 * 256 + curve[k].0)
        }),
    decreases n,
{
    if n > 0 {
        let front = curve_writes(curve, (n - 1) as nat);
        let pair = sysfs::point_writes(n - 1, curve[n - 1].0 as int, curve[n - 1].1 as int);
        lemma_replayed_curve(machine, curve, (n - 1) as nat);
        lemma_replayed_on(machine, front, pair);
        lemma_nodes_differ();
        let before = machine.replayed(front);
        reveal_with_fuel(Machine::replayed, 3);
        assert(pair.drop_last() =~= seq![pair[0]]);
        assert(seq![pair[0]].drop_last() =~= Seq::<Write>::empty());
        let selected = before.after(pair[0]);
        assert(before.replayed(pair) == selected.after(pair[1]));
        let after = machine.replayed(curve_writes(curve, n));
        assert forall|k: int| 0 <= k < n implies #[trigger] after.point(k) == Some(
            curve[k].1 * 256 + curve[k].0,
        ) by {
            if k < n - 1 {
                assert(before.point(k) == Some(curve[k].1 * 256 + curve[k].0));
            }
        }
    }
}

/// Once a profile was applied, every setting that it has is the machine's, each
/// point of its curve in its own place; what it says nothing of is as it was.
pub proof fn law_an_applied_profile_is_in_force(
    profile: Profile,
    r: Result<Vec<Write>, Error>,
    before: Machine,
    k: int,
)
    requires
        call_ensures(Profile::apply, (&profile,), r),
        r is Ok,
    ensures
        ({
            let after = before.replayed(r->Ok_0@);
            &&& after.node(sysfs::FAN_CUSTOM_SPEED) == match profile.fan_custom_speed {
                Some(v) => Some(v as int),
                None => before.node(sysfs::FAN_CUSTOM_SPEED),
            }
            &&& after.node(sysfs::CHARGE_LIMIT) == match profile.charge_limit {
                Some(v) => Some(v as int),
                None => before.node(sysfs::CHARGE_LIMIT),
            }
            &&& profile.fan_mode is None ==> after.node(sysfs::FAN_MODE) == before.node(
                sysfs::FAN_MODE,
            )
            &&& profile.fan_mode matches Some(name) ==> {
                &&& after.node(sysfs::FAN_MODE) matches Some(v)
                &&& 0 <= v < 6
                &&& text::lowered(text::trimmed(name@)) == text::lowered(sysfs::FAN_MODES@[v]@)
            }
            &&& profile.charge_mode is None ==> after.node(sysfs::CHARGE_MODE) == before.node(
                sysfs::CHARGE_MODE,
            )
            &&& profile.charge_mode matches Some(name) ==> {
                &&& after.node(sysfs::CHARGE_MODE) matches Some(v)
                &&& 0 <= v < 2
                &&& text::lowered(text::trimmed(name@)) == text::lowered(sysfs::CHARGE_MODES@[v]@)
            }
            &&& profile.gpu_boost is None ==> after.node(sysfs::GPU_BOOST) == before.node(
                sysfs::GPU_BOOST,
            )
            &&& profile.gpu_boost matches Some(name) ==> {
                let word = text::lowered(text::trimmed(name@));
                let on = word == "on"@ || word == "1"@ || word == "true"@ || word == "yes"@;
                after.node(sysfs::GPU_BOOST) == Some(
                    if on {
                        1int
                    } else {
                        0int
                    },
                )
            }
            &&& profile.fan_curve is None ==> after.points == before.points
            &&& profile.fan_curve matches Some(curve) ==> {
                &&& curve@.len() == 15
                &&& 0 <= k < 15 ==> after.point(k) == Some(curve@[k]@[1] * 256 + curve@[k]@[0])
            }
        }),
{
    let p = profile@;
    let fan_mode = named_or_none(sysfs::FAN_MODES@, p.fan_mode);
    let charge_mode = named_or_none(sysfs::CHARGE_MODES@, p.charge_mode);
    let boost = switched_or_none(p.gpu_boost);
    let a = optional_write(sysfs::FAN_MODE, fan_mode);
    let b = optional_write(sysfs::FAN_CUSTOM_SPEED, p.fan_custom_speed);
    let c = optional_write(sysfs::CHARGE_MODE, charge_mode);
    let d = optional_write(sysfs::CHARGE_LIMIT, p.charge_limit);
    let e = optional_write(sysfs::GPU_BOOST, boost);
    let f = match p.fan_curve {
        Some(curve) => curve_writes(curve, curve.len()),
        None => seq![],
    };
    lemma_nodes_differ();
    lemma_replayed_on(before, a + b + c + d + e, f);
    lemma_replayed_on(before, a + b + c + d, e);
    lemma_replayed_on(before, a + b + c, d);
    lemma_replayed_on(before, a + b, c);
    lemma_replayed_on(before, a, b);
    let m1 = before.replayed(a);
    let m2 = m1.replayed(b);
    let m3 = m2.replayed(c);
    let m4 = m3.replayed(d);
    let m5 = m4.replayed(e);
    lemma_replayed_optional(before, sysfs::FAN_MODE, fan_mode);
    lemma_replayed_optional(m1, sysfs::FAN_CUSTOM_SPEED, p.fan_custom_speed);
    lemma_replayed_optional(m2, sysfs::CHARGE_MODE, charge_mode);
    lemma_replayed_optional(m3, sysfs::CHARGE_LIMIT, p.charge_limit);
    lemma_replayed_optional(m4, sysfs::GPU_BOOST, boost);
    if p.fan_curve is Some {
        let curve = p.fan_curve->0;
        sysfs::law_valid_curves_are_sound(curve);
        lemma_replayed_curve(m5, curve, curve.len());
        if 0 <= k < 15 {
            assert(curve[k] == (profile.fan_curve->0@[k]@[0], profile.fan_curve->0@[k]@[1]));
            assert(m5.replayed(f).point(k) == Some(curve[k].1 * 256 + curve[k].0));
        }
    }
    if p.fan_mode is Some {
        lemma_position_in_range(sysfs::FAN_MODES@, text::trimmed(p.fan_mode->0), 6);
        lemma_position_names(sysfs::FAN_MODES@, text::trimmed(p.fan_mode->0), 6);
    }
    if p.charge_mode is Some {
        lemma_position_in_range(sysfs::CHARGE_MODES@, text::trimmed(p.charge_mode->0), 2);
        lemma_position_names(sysfs::CHARGE_MODES@, text::trimmed(p.charge_mode->0), 2);
    }
}

proof fn lemma_position_names(names: Seq<&'static str>, name: Seq<char>, n: nat)
    ensures
        sysfs::position_among(names, name, n) matches Some(i) ==> text::alike(names[i]@, name),
    decreases n,
{
    if n > 0 {
        lemma_position_names(names, name, (n - 1) as nat);
    }
}

proof fn lemma_curve_writes_at(curve: Seq<(i32, i32)>, n: nat, k: int)
    requires
        0 <= k < n <= 15,
        n <= curve.len(),
        sysfs::sound_curve(curve),
    ensures
        curve_writes(curve, n).len() == 2 * n,
        curve_writes(curve, n)[2 * k] == (Write { path: sysfs::FAN_CURVE_INDEX, value: k as i32 }),
        curve_writes(curve, n)[2 * k + 1].path == sysfs::FAN_CURVE_DATA,
        curve_writes(curve, n)[2 * k + 1].value == curve[k].1 * 256 + curve[k].0,
    decreases n,
{
    if n > 1 {
        lemma_curve_writes_at(
            curve,
            (n - 1) as nat,
            if k < n - 1 {
                k
            } else {
                0
            },
        );
    } else {
        assert(curve_writes(curve, 0) =~= Seq::<Write>::empty());
    }
}

/// The curve of a profile is what is written last: for each of the fifteen points
/// in order, its place and then its data.
pub proof fn law_every_point_lands_in_its_own_place(
    profile: Profile,
    r: Result<Vec<Write>, Error>,
    k: int,
)
    requires
        call_ensures(Profile::apply, (&profile,), r),
        r is Ok,
        profile.fan_curve is Some,
        0 <= k < 15,
    ensures
        ({
            let writes = r->Ok_0@;
            let at = writes.len() - 30 + 2 * k;
            let point = profile.fan_curve->0@[k]@;
            &&& profile.fan_curve->0@.len() == 15
            &&& writes.len() >= 30
            &&& writes[at] == (Write { path: sysfs::FAN_CURVE_INDEX, value: k as i32 })
            &&& writes[at + 1].path == sysfs::FAN_CURVE_DATA
            &&& writes[at + 1].value == point[1] * 256 + point[0]
        }),
{
    let curve = profile@.fan_curve->0;
    let tail = curve_writes(curve, curve.len());
    sysfs::law_valid_curves_are_sound(curve);
    lemma_curve_writes_at(curve, curve.len(), k);
    let writes = r->Ok_0@;
    let head = writes.len() - 30;
    assert(writes[head + 2 * k] == tail[2 * k]);
    assert(writes[head + 2 * k + 1] == tail[2 * k + 1]);
    assert(curve[k] == (profile.fan_curve->0@[k]@[0], profile.fan_curve->0@[k]@[1]));
}

/// A profile is applied exactly when everything in it is sound: names that stand
/// for something, a speed from 0 to 255, a limit from 60 to 100, and a curve of
/// fifteen points in range that never falls. Otherwise nothing of it is written.
pub proof fn law_only_sound_profiles_are_applied(profile: Profile, r: Result<Vec<Write>, Error>)
    requires
        call_ensures(Profile::apply, (&profile,), r),
    ensures
        r is Ok <==> {
            &&& profile.fan_mode matches Some(name) ==> exists|v: int|
                0 <= v < 6 && text::lowered(#[trigger] sysfs::FAN_MODES@[v]@) == text::lowered(
                    text::trimmed(name@),
                )
            &&& profile.charge_mode matches Some(name) ==> exists|v: int|
                0 <= v < 2 && text::lowered(#[trigger] sysfs::CHARGE_MODES@[v]@) == text::lowered(
                    text::trimmed(name@),
                )
            &&& profile.gpu_boost matches Some(name) ==> {
                let word = text::lowered(text::trimmed(name@));
                ||| word == "on"@ || word == "1"@ || word == "true"@ || word == "yes"@
                ||| word == "off"@ || word == "0"@ || word == "false"@ || word == "no"@
            }
            &&& profile.fan_custom_speed matches Some(v) ==> 0 <= v <= 255
            &&& profile.charge_limit matches Some(v) ==> 60 <= v <= 100
            &&& profile.fan_curve matches Some(curve) ==> {
                &&& curve@.len() == 15
                &&& forall|i: int|
                    0 <= i < 15 ==> 0 <= (#[trigger] curve@[i])@[0] <= 100 && 0 <= curve@[i]@[1]
                        <= 255
                &&& forall|i: int, j: int|
                    0 <= i < j < 15 ==> (#[trigger] curve@[i])@[0] <= (#[trigger] curve@[j])@[0]
                        && curve@[i]@[1] <= curve@[j]@[1]
            }
        },
{
    let p = profile@;
    if p.fan_mode is Some {
        lemma_named_iff(sysfs::FAN_MODES@, text::trimmed(p.fan_mode->0), 6);
    }
    if p.charge_mode is Some {
        lemma_named_iff(sysfs::CHARGE_MODES@, text::trimmed(p.charge_mode->0), 2);
    }
    if p.fan_curve is Some {
        let rows = profile.fan_curve->0@;
        let curve = p.fan_curve->0;
        sysfs::law_valid_curves_are_sound(curve);
        assert(forall|i: int|
            0 <= i < rows.len() ==> #[trigger] curve[i] == (rows[i]@[0], rows[i]@[1]));
        if sysfs::sound_curve(curve) {
            assert forall|i: int| 0 <= i < rows.len() implies 0 <= (#[trigger] rows[i])@[0] <= 100
                && 0 <= rows[i]@[1] <= 255 by {
                assert(curve[i] == (rows[i]@[0], rows[i]@[1]));
            }
            assert forall|i: int, j: int| 0 <= i < j < rows.len() implies (
            #[trigger] rows[i])@[0] <= (#[trigger] rows[j])@[0] && rows[i]@[1] <= rows[j]@[1] by {
                assert(curve[i].0 <= curve[j].0);
            }
        }
    }
}

proof fn lemma_named_iff(names: Seq<&'static str>, name: Seq<char>, n: nat)
    ensures
        sysfs::position_among(names, name, n) is Some <==> exists|v: int|
            0 <= v < n && text::lowered(#[trigger] names[v]@) == text::lowered(name),
    decreases n,
{
    if n > 0 {
        lemma_named_iff(names, name, (n - 1) as nat);
    }
}

/// How many of the five single settings a profile has.
pub open spec fn single_settings(profile: ProfileView) -> int {
    (if profile.fan_mode is Some {
        1int
    } else {
        0
    }) + (if profile.fan_custom_speed is Some {
        1int
    } else {
        0
    }) + (if profile.charge_mode is Some {
        1int
    } else {
        0
    }) + (if profile.charge_limit is Some {
        1int
    } else {
        0
    }) + (if profile.gpu_boost is Some {
        1int
    } else {
        0
    })
}

/// Nothing is written twice: a profile takes one write for each single setting,
/// and two for each point of its curve.
pub proof fn law_a_profile_takes_no_needless_writes(profile: Profile, r: Result<Vec<Write>, Error>)
    requires
        call_ensures(Profile::apply, (&profile,), r),
        r is Ok,
    ensures
        r->Ok_0@.len() == single_settings(profile@) + if profile.fan_curve is Some {
            30int
        } else {
            0
        },
{
    if profile.fan_curve is Some {
        let curve = profile@.fan_curve->0;
        sysfs::law_valid_curves_are_sound(curve);
        lemma_curve_writes_at(curve, curve.len(), 0);
    }
}

/// What is captured is what the hardware showed: the names of the modes in lower
/// case where they have one, and the numbers, the curve and the power profile as
/// they are.
pub proof fn law_a_captured_profile_says_what_was_read(
    hw: HwState,
    curve: Option<Vec<(i32, i32)>>,
    power: Option<String>,
    r: Profile,
    k: int,
)
    requires
        call_ensures(Profile::from_hardware, (&hw, curve, power), r),
    ensures
        hw.fan_mode matches Some(v) ==> {
            &&& 0 <= v < 6 ==> (r.fan_mode matches Some(name) && name@ == text::lowered(
                sysfs::FAN_MODES@[v as int]@,
            ))
            &&& !(0 <= v < 6) ==> r.fan_mode is None
        },
        hw.fan_mode is None ==> r.fan_mode is None,
        hw.charge_mode matches Some(v) ==> {
            &&& 0 <= v < 2 ==> (r.charge_mode matches Some(name) && name@ == text::lowered(
                sysfs::CHARGE_MODES@[v as int]@,
            ))
            &&& !(0 <= v < 2) ==> r.charge_mode is None
        },
        hw.charge_mode is None ==> r.charge_mode is None,
        r.fan_custom_speed == hw.fan_custom_speed,
        r.charge_limit == hw.charge_limit,
        hw.gpu_boost is None ==> r.gpu_boost is None,
        hw.gpu_boost == Some(0i32) ==> (r.gpu_boost matches Some(word) && word@ == "off"@),
        hw.gpu_boost is Some && hw.gpu_boost->0 != 0 ==> (r.gpu_boost matches Some(word) && word@
            == "on"@),
        curve is None ==> r.fan_curve is None,
        curve matches Some(points) ==> {
            &&& r.fan_curve matches Some(rows)
            &&& rows@.len() == points@.len()
            &&& 0 <= k < points@.len() ==> rows@[k]@[0] == points@[k].0 && rows@[k]@[1]
                == points@[k].1
        },
        power is None ==> r.ppd_profile is None,
        power matches Some(p) ==> (r.ppd_profile matches Some(q) && q@ == p@),
{
    let view = r@;
    if curve is Some {
        let points = curve->0@;
        assert(view.fan_curve == Some(points));
        let rows = r.fan_curve->0@;
        assert(points_of(rows).len() == rows.len());
        if 0 <= k < points.len() {
            assert(points_of(rows)[k] == (rows[k]@[0], rows[k]@[1]));
        }
    }
}

// --- What saving and deleting do to the set ---

/// Saving a profile makes it the one of its name and leaves those of every other
/// name as they were. There is one of each name, in the order of the names.
pub proof fn law_saving_changes_one_profile(
    profiles: &mut Profiles,
    name: &str,
    profile: Profile,
    replaced: bool,
    other: Seq<char>,
)
    requires
        call_ensures(Profiles::insert, (profiles, name, profile), replaced),
        old(profiles).well_formed(),
    ensures
        exists|i: int|
            {
                &&& 0 <= i < final(profiles)@.len()
                &&& #[trigger] final(profiles)@[i] == (name@, profile@)
            },
        other != name@ ==> (exists|i: int|
            0 <= i < final(profiles)@.len() && (#[trigger] final(profiles)@[i]).0 == other) == (
        exists|i: int| 0 <= i < old(profiles)@.len() && (#[trigger] old(profiles)@[i]).0 == other),
        forall|i: int|
            0 <= i < old(profiles)@.len() && (#[trigger] old(profiles)@[i]).0 != name@
                ==> final(profiles)@.contains(old(profiles)@[i]),
        forall|i: int, j: int|
            0 <= i < j < final(profiles)@.len() ==> text::precedes(
                (#[trigger] final(profiles)@[i]).0,
                (#[trigger] final(profiles)@[j]).0,
            ),
        replaced <==> exists|i: int|
            0 <= i < old(profiles)@.len() && (#[trigger] old(profiles)@[i]).0 == name@,
{
    let before = old(profiles)@;
    let after = final(profiles)@;
    lemma_lookup_in(after, name@);
    assert(lookup(after, name@) == Some(profile@));
    let at = choose|i: int|
        0 <= i < after.len() && (#[trigger] after[i]).0 == name@ && after[i].1 == profile@;
    assert(after[at] == (name@, profile@));
    lemma_lookup_absent(after, other);
    lemma_lookup_absent(before, other);
    lemma_lookup_absent(before, name@);
    assert(lookup(after, other) == if other == name@ {
        Some(profile@)
    } else {
        lookup(before, other)
    });
    assert forall|i: int| 0 <= i < before.len() && (#[trigger] before[i]).0
        != name@ implies after.contains(before[i]) by {
        lemma_lookup_at(before, i);
        assert(lookup(after, before[i].0) == Some(before[i].1));
        lemma_lookup_in(after, before[i].0);
        let k = choose|k: int|
            0 <= k < after.len() && (#[trigger] after[k]).0 == before[i].0 && after[k].1
                == before[i].1;
        assert(after[k] == before[i]);
    }
}

/// Deleting a profile takes away the one of that name and no other.
pub proof fn law_deleting_changes_one_profile(
    profiles: &mut Profiles,
    name: &str,
    removed: bool,
    i: int,
)
    requires
        call_ensures(Profiles::remove, (profiles, name), removed),
        old(profiles).well_formed(),
    ensures
        forall|k: int| 0 <= k < final(profiles)@.len() ==> (#[trigger] final(profiles)@[k]).0 != name@,
        0 <= i < old(profiles)@.len() && old(profiles)@[i].0 != name@ ==> final(profiles)@.contains(
            old(profiles)@[i],
        ),
        final(profiles)@.len() == old(profiles)@.len() - if removed {
            1int
        } else {
            0
        },
        removed <==> exists|k: int|
            0 <= k < old(profiles)@.len() && (#[trigger] old(profiles)@[k]).0 == name@,
{
    let before = old(profiles)@;
    let after = final(profiles)@;
    assert(lookup(after, name@) is None);
    lemma_lookup_absent(after, name@);
    lemma_lookup_absent(before, name@);
    if 0 <= i < before.len() && before[i].0 != name@ {
        lemma_lookup_at(before, i);
        assert(lookup(after, before[i].0) == Some(before[i].1));
        lemma_lookup_in(after, before[i].0);
        let k = choose|k: int|
            0 <= k < after.len() && (#[trigger] after[k]).0 == before[i].0 && after[k].1
                == before[i].1;
        assert(after[k] == before[i]);
    }
    if removed {
        let k = choose|k: int| 0 <= k < before.len() && (#[trigger] before[k]).0 == name@;
        lemma_without_entry(before, k);
    } else {
        lemma_without_absent(before, name@);
    }
}

/// A profile is found under its name, and no name that there is no profile of is
/// found.
pub proof fn law_profiles_are_found_by_name<'a>(
    profiles: &'a Profiles,
    name: &str,
    r: Option<&'a Profile>,
    i: int,
)
    requires
        call_ensures(Profiles::get, (profiles, name), r),
        profiles.well_formed(),
    ensures
        0 <= i < profiles@.len() && profiles@[i].0 == name@ ==> (r matches Some(p) && p@
            == profiles@[i].1),
        r is Some ==> exists|k: int|
            0 <= k < profiles@.len() && (#[trigger] profiles@[k]).0 == name@,
{
    lemma_lookup_absent(profiles@, name@);
    if 0 <= i < profiles@.len() && profiles@[i].0 == name@ {
        lemma_lookup_at(profiles@, i);
    }
}

/// The names are listed in their order, one for each profile.
pub proof fn law_names_are_listed_in_order(profiles: Profiles, r: Vec<String>, i: int)
    requires
        call_ensures(Profiles::names, (&profiles,), r),
        profiles.well_formed(),
    ensures
        r@.len() == profiles@.len(),
        0 <= i < r@.len() ==> r@[i]@ == profiles@[i].0,
        0 < i < r@.len() ==> text::precedes(r@[i - 1]@, r@[i]@),
{
    let names = text::views(r@);
    assert(names.len() == r@.len());
    if 0 <= i < r@.len() {
        assert(names[i] == r@[i]@);
    }
    if 0 < i < r@.len() {
        assert(names[i - 1] == r@[i - 1]@);
        assert(text::precedes(profiles@[i - 1].0, profiles@[i].0));
    }
}

/// What is found after an entry was put in its place.
pub proof fn lemma_lookup_with(
    entries: Seq<(Seq<char>, ProfileView)>,
    name: Seq<char>,
    profile: ProfileView,
    other: Seq<char>,
)
    requires
        ascending(entries),
    ensures
        lookup(with_entry(entries, name, profile), other) == if other == name {
            Some(profile)
        } else {
            lookup(entries, other)
        },
    decreases entries.len(),
{
    let after = with_entry(entries, name, profile);
    if entries.len() == 0 || text::precedes(entries.last().0, name) {
        assert(after.drop_last() =~= entries);
        if other == name {
            assert(after.last().0 == name);
        }
    } else if entries.last().0 == name {
        assert(after.drop_last() =~= entries.drop_last());
    } else {
        let front = entries.drop_last();
        assert(ascending(front)) by {
            assert forall|a: int, b: int| 0 <= a < b < front.len() implies text::precedes(
                (#[trigger] front[a]).0,
                (#[trigger] front[b]).0,
            ) by {
                assert(text::precedes(entries[a].0, entries[b].0));
            }
        }
        lemma_lookup_with(front, name, profile, other);
        assert(after.drop_last() =~= with_entry(front, name, profile));
        assert(after.last() == entries.last());
    }
}

/// What is found after an entry was taken away.
pub proof fn lemma_lookup_without(
    entries: Seq<(Seq<char>, ProfileView)>,
    name: Seq<char>,
    other: Seq<char>,
)
    requires
        ascending(entries),
    ensures
        lookup(without_entry(entries, name), other) == if other == name {
            None
        } else {
            lookup(entries, other)
        },
{
    lemma_lookup_absent(entries, name);
    if lookup(entries, name) is Some {
        let at = choose|i: int| 0 <= i < entries.len() && (#[trigger] entries[i]).0 == name;
        lemma_without_entry(entries, at);
        lemma_removed(entries, at);
        assert(lookup(entries.remove(at), other) == if other == entries[at].0 {
            None
        } else {
            lookup(entries, other)
        });
    } else {
        lemma_without_absent(entries, name);
    }
}

} // verus!
