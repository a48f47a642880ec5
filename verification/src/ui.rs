//! What the interactive TUI shows: a function of the state and of the size of
//! the screen. Everything is described here as text with a tone, and where it
//! stands; putting it on the terminal is left to the caller.

use crate::app;
use crate::app::App;
use crate::app::AppView;
use crate::app::CurveColumn;
use crate::app::EditTarget;
use crate::app::Focus;
use crate::app::Item;
use crate::profile::Profile;
use crate::profile::ProfileView;
use crate::sensors;
use crate::sensors::FanView;
use crate::sysfs;
use crate::sysfs::Dependent;
use crate::sysfs::HwState;
use crate::text;
use ratatui::layout::{Constraint, Flex, Layout, Margin, Rect};
use vstd::prelude::*;
use vstd::string::StringExecFns;

verus! {

// --- Areas ---

/// A rectangle of the screen.
#[derive(Clone, Copy, Debug, PartialEq, Eq, Structural)]
pub struct Area {
    pub x: u16,
    pub y: u16,
    pub width: u16,
    pub height: u16,
}

/// Along which side an area is divided.
#[derive(Clone, Copy, Debug, PartialEq, Eq, Structural)]
pub enum Side {
    Vertical,
    Horizontal,
}

/// Where parts go that do not fill the area.
#[derive(Clone, Copy, Debug, PartialEq, Eq, Structural)]
pub enum Placing {
    Start,
    Center,
}

/// How large a part should be.
#[derive(Clone, Copy, Debug, PartialEq, Eq, Structural)]
pub enum Extent {
    Length(u16),
    Min(u16),
    Percentage(u16),
}

/// The first and the last coordinate of a part along a side.
pub open spec fn span_of(side: Side, area: Area) -> (int, int) {
    match side {
        Side::Vertical => (area.y as int, area.y + area.height),
        Side::Horizontal => (area.x as int, area.x + area.width),
    }
}

/// The greatest coordinate that there is.
pub open spec fn capped(n: int) -> int {
    if n < u16::MAX {
        n
    } else {
        u16::MAX as int
    }
}

/// Whether a part lies within an area and takes up the whole of its other side.
pub open spec fn lies_in(side: Side, part: Area, area: Area) -> bool {
    let (from, to) = span_of(side, part);
    let (first, last) = span_of(side, area);
    &&& first <= from
    &&& to <= capped(last)
    &&& match side {
        Side::Vertical => part.x == area.x && part.width == area.width,
        Side::Horizontal => part.y == area.y && part.height == area.height,
    }
}

/// A number of hundredths, rounded to a whole number; halves go up.
pub open spec fn rounded(hundredths: int) -> int {
    (hundredths + 50) / 100
}

/// Whether the single part of an area has the size that it should have, and
/// stands in the middle.
pub open spec fn centred(side: Side, extent: Extent, part: Area, area: Area) -> bool {
    let (from, to) = span_of(side, part);
    let (first, last) = span_of(side, area);
    let total = last - first;
    &&& extent matches Extent::Length(n) ==> if n <= total {
        from == first + rounded(50 * (total - n)) && to == from + n
    } else {
        from == first && to == last
    }
    &&& extent matches Extent::Percentage(p) ==> p <= 100 ==> {
        &&& -100 <= 100 * (to - from) - p * total <= 100
        &&& (p * total) % 2 == 0 ==> {
            &&& from == first + rounded((100 - p) * total / 2)
            &&& to == first + rounded((100 + p) * total / 2)
        }
    }
    &&& -1 <= (from - first) - (last - to) <= 1
}

/// What a part asks for at the least, if anything.
pub open spec fn minimum_of(extent: Extent) -> int {
    match extent {
        Extent::Min(n) => n as int,
        _ => 0,
    }
}

/// What a part asks for, as far as that does not depend on the area.
pub open spec fn request_of(extent: Extent) -> int {
    match extent {
        Extent::Length(n) => n as int,
        Extent::Min(n) => n as int,
        Extent::Percentage(_) => 0,
    }
}

/// The share of the area that a part asks for, in hundredths.
pub open spec fn share_of(extent: Extent) -> int {
    match extent {
        Extent::Percentage(p) => p as int,
        _ => 0,
    }
}

/// The sum of what the first `n` parts ask for.
pub open spec fn sum_of(extents: Seq<Extent>, ask: spec_fn(Extent) -> int, n: int) -> int
    decreases n,
{
    if n <= 0 {
        0
    } else {
        sum_of(extents, ask, n - 1) + ask(extents[n - 1])
    }
}

pub open spec fn minima(extents: Seq<Extent>) -> int {
    sum_of(extents, |e: Extent| minimum_of(e), extents.len() as int)
}

pub open spec fn requests(extents: Seq<Extent>) -> int {
    sum_of(extents, |e: Extent| request_of(e), extents.len() as int)
}

/// The shares of the first `n` parts.
pub open spec fn shares(extents: Seq<Extent>, n: int) -> int {
    sum_of(extents, |e: Extent| share_of(e), n)
}

/// Whether a part has a size that suits it: what it asked for where everything
/// that was asked for fits in the area; where it does not, minima come first.
pub open spec fn suits(extent: Extent, size: int, extents: Seq<Extent>, total: int) -> bool {
    match extent {
        Extent::Length(n) => if requests(extents) <= total {
            size == n
        } else if minima(extents) <= total {
            size <= n
        } else {
            size == 0
        },
        Extent::Min(n) => if requests(extents) <= total {
            size >= n
        } else if minima(extents) <= total {
            size == n
        } else {
            size <= n
        },
        Extent::Percentage(_) => true,
    }
}

/// Whether parts follow one another from the start of an area, each with a size
/// that suits it. They fill the area where one of them has no upper bound, or
/// where they ask for all of it.
pub open spec fn lined_up(side: Side, extents: Seq<Extent>, area: Area, parts: Seq<Area>) -> bool {
    let (first, last) = span_of(side, area);
    let total = last - first;
    &&& parts.len() > 0 ==> span_of(side, parts[0]).0 == first
    &&& forall|i: int|
        0 < i < parts.len() ==> span_of(side, #[trigger] parts[i]).0 == span_of(
            side,
            parts[i - 1],
        ).1
    &&& (forall|i: int|
        0 <= i < extents.len() ==> minimum_of(#[trigger] extents[i]) <= i16::MAX) ==> forall|
        i: int,
    |
        0 <= i < parts.len() ==> suits(
            extents[i],
            span_of(side, #[trigger] parts[i]).1 - span_of(side, parts[i]).0,
            extents,
            total,
        )
    &&& parts.len() > 0 && ((exists|i: int|
        0 <= i < extents.len() && (#[trigger] extents[i]) is Min) || requests(extents) >= total)
        ==> span_of(side, parts.last()).1 == last
    &&& (forall|i: int| 0 <= i < extents.len() ==> (#[trigger] extents[i]) is Percentage) && shares(
        extents,
        extents.len() as int,
    ) <= 100 ==> forall|i: int|
        0 <= i < parts.len() ==> span_of(side, #[trigger] parts[i]).1 == first + rounded(
            shares(extents, i + 1) * total,
        )
}

/// What is known of the parts into which an area is divided.
pub open spec fn divides(
    side: Side,
    placing: Placing,
    extents: Seq<Extent>,
    area: Area,
    parts: Seq<Area>,
) -> bool {
    &&& parts.len() == extents.len()
    &&& forall|i: int| 0 <= i < parts.len() ==> lies_in(side, #[trigger] parts[i], area)
    &&& placing is Start && span_of(side, area).1 <= u16::MAX ==> lined_up(
        side,
        extents,
        area,
        parts,
    )
    &&& extents.len() == 1 && placing is Center && span_of(side, area).1 <= u16::MAX ==> centred(
        side,
        extents[0],
        parts[0],
        area,
    )
}

/// Whether there are few parts, and no more than two where one is a percentage.
/// All their ends are then whole hundredths of a column or row, or thirds of
/// them, which leaves nothing to the precision of the solver's arithmetic.
pub open spec fn simple(extents: Seq<Extent>) -> bool {
    &&& extents.len() <= 3
    &&& extents.len() <= 2 || forall|i: int|
        0 <= i < extents.len() ==> !((#[trigger] extents[i]) is Percentage)
}

/// Calls `ratatui::layout::Layout::areas` on a layout with the given direction,
/// constraints and flex.
///
/// Claimed of it: each part lies within the area along the side that is divided,
/// as the solver's required constraints have it, and takes over the other side's
/// coordinates. Parts placed at the start follow one another without gaps from
/// the start of the area; the constraints that keep gaps empty outweigh the
/// rest. What parts ask for is weighed by its kind: minima before lengths,
/// lengths before percentages, all of them before growing. So where lengths and
/// minima fit they are met, where only the minima fit these are met exactly and
/// the lengths give way, and a part with a minimum takes all room that is left. A
/// minimum counts as a signed number of 16 bits. Percentages alone that add up to
/// no more than the whole end at the rounded shares of the area. A single centred
/// part has the length it was given, or all there is where that is less; or it
/// takes up the percentage of the area's size, rounded; and the space on both
/// sides of it is the same up to rounding.
///
/// Not claimed is how two lengths share what does not suffice for both: the
/// solver gives them the same weight, and which gives way follows the order of
/// hash maps that each process seeds anew.
#[verifier::external_body]
fn areas<const N: usize>(side: Side, placing: Placing, extents: [Extent; N], area: Area) -> (r:
    [Area; N])
    requires
        simple(extents@),
    ensures
        divides(side, placing, extents@, area, r@),
{
    let constraints = extents.map(|e| match e {
        Extent::Length(n) => Constraint::Length(n),
        Extent::Min(n) => Constraint::Min(n),
        Extent::Percentage(n) => Constraint::Percentage(n),
    });
    let layout = match side {
        Side::Vertical => Layout::vertical(constraints),
        Side::Horizontal => Layout::horizontal(constraints),
    };
    let flex = match placing {
        Placing::Start => Flex::Start,
        Placing::Center => Flex::Center,
    };
    let outer = Rect { x: area.x, y: area.y, width: area.width, height: area.height };
    layout.flex(flex).areas::<N>(outer).map(|p| Area { x: p.x, y: p.y, width: p.width, height: p.height })
}

/// An area without a margin of `horizontal` columns and `vertical` rows on each
/// side; nothing at all where it is too small for that.
pub open spec fn shrunk(area: Area, horizontal: u16, vertical: u16) -> Area {
    let across = capped(2 * horizontal);
    let down = capped(2 * vertical);
    if area.width < across || area.height < down {
        Area { x: 0, y: 0, width: 0, height: 0 }
    } else {
        Area {
            x: capped(area.x + horizontal) as u16,
            y: capped(area.y + vertical) as u16,
            width: (area.width - across) as u16,
            height: (area.height - down) as u16,
        }
    }
}

/// Calls `ratatui::layout::Rect::inner`.
///
/// Claimed of it: it gives the area without the margin on each side, coordinates
/// staying within their range, and the empty area at the origin where twice the
/// margin does not fit.
#[verifier::external_body]
fn inner(area: Area, horizontal: u16, vertical: u16) -> (r: Area)
    ensures
        r == shrunk(area, horizontal, vertical),
{
    let outer = Rect { x: area.x, y: area.y, width: area.width, height: area.height };
    let p = outer.inner(Margin::new(horizontal, vertical));
    Area { x: p.x, y: p.y, width: p.width, height: p.height }
}

/// The number of terminal columns that a text takes up.
pub uninterp spec fn columns(s: Seq<char>) -> nat;

/// Calls `ratatui::text::Span::width`.
///
/// Claimed of it: the width depends on the text alone. How wide a character is
/// follows from tables of the Unicode standard.
#[verifier::external_body]
fn width(s: &str) -> (r: usize)
    ensures
        r == columns(s@),
{
    ratatui::text::Span::raw(s).width()
}

/// A centred rectangle `percent_x` wide and exactly `rows` tall.
///
/// Popups hold a fixed number of lines, so sizing their height as a percentage
/// clips the last line on shorter terminals.
pub fn centered_rect(percent_x: u16, rows: u16, area: Area) -> (r: Area)
    ensures
        area.x <= r.x,
        area.y <= r.y,
        r.x + r.width <= area.x + area.width,
        r.y + r.height <= area.y + area.height,
        area.y + area.height <= u16::MAX ==> centred(
            Side::Vertical,
            Extent::Length(rows),
            r,
            area,
        ),
        area.x + area.width <= u16::MAX ==> centred(
            Side::Horizontal,
            Extent::Percentage(percent_x),
            r,
            area,
        ),
{
    let row: [Area; 1] = areas(Side::Vertical, Placing::Center, [Extent::Length(rows)], area);
    let band: Area = row[0];
    proof {
        assert(row@[0] == band);
        assert(lies_in(Side::Vertical, row@[0], area));
    }
    let cell: [Area; 1] = areas(
        Side::Horizontal,
        Placing::Center,
        [Extent::Percentage(percent_x)],
        band,
    );
    proof {
        assert(lies_in(Side::Horizontal, cell@[0], band));
    }
    cell[0]
}

/// Where the parts of the screen are.
#[derive(Clone, Copy, Debug, PartialEq, Eq, Structural)]
pub struct Screen {
    pub area: Area,
    pub header: Area,
    pub body: Area,
    pub footer: Area,
    pub left: Area,
    pub right: Area,
    pub controls: Area,
    pub status: Area,
    pub detail: Area,
    pub help: Area,
}

impl Screen {
    /// The screen is divided into three bands, the middle one into two columns,
    /// and each of these into two panels. Both bars are three rows: two for the
    /// border, one for their text.
    pub open spec fn laid_out(self) -> bool {
        &&& divides(
            Side::Vertical,
            Placing::Start,
            seq![Extent::Length(3), Extent::Min(12), Extent::Length(3)],
            self.area,
            seq![self.header, self.body, self.footer],
        )
        &&& divides(
            Side::Horizontal,
            Placing::Start,
            seq![Extent::Percentage(38), Extent::Percentage(62)],
            self.body,
            seq![self.left, self.right],
        )
        &&& divides(
            Side::Vertical,
            Placing::Start,
            seq![Extent::Min(10), Extent::Length(4)],
            self.left,
            seq![self.controls, self.status],
        )
        &&& divides(
            Side::Vertical,
            Placing::Start,
            seq![Extent::Min(12), Extent::Length(5)],
            self.right,
            seq![self.detail, self.help],
        )
    }

    pub fn new(area: Area) -> (r: Self)
        ensures
            r.area == area,
            r.laid_out(),
    {
        let bands: [Area; 3] = areas(
            Side::Vertical,
            Placing::Start,
            [Extent::Length(3), Extent::Min(12), Extent::Length(3)],
            area,
        );
        let columns: [Area; 2] = areas(
            Side::Horizontal,
            Placing::Start,
            [Extent::Percentage(38), Extent::Percentage(62)],
            bands[1],
        );
        let left: [Area; 2] = areas(
            Side::Vertical,
            Placing::Start,
            [Extent::Min(10), Extent::Length(4)],
            columns[0],
        );
        let right: [Area; 2] = areas(
            Side::Vertical,
            Placing::Start,
            [Extent::Min(12), Extent::Length(5)],
            columns[1],
        );
        let screen: Screen = Screen {
            area,
            header: bands[0],
            body: bands[1],
            footer: bands[2],
            left: columns[0],
            right: columns[1],
            controls: left[0],
            status: left[1],
            detail: right[0],
            help: right[1],
        };
        proof {
            assert(seq![screen.header, screen.body, screen.footer] =~= bands@);
            assert(seq![screen.left, screen.right] =~= columns@);
            assert(seq![screen.controls, screen.status] =~= left@);
            assert(seq![screen.detail, screen.help] =~= right@);
            assert(seq![Extent::Length(3), Extent::Min(12), Extent::Length(3)] =~= [
                Extent::Length(3),
                Extent::Min(12),
                Extent::Length(3),
            ]@);
            assert(seq![Extent::Percentage(38), Extent::Percentage(62)] =~= [
                Extent::Percentage(38),
                Extent::Percentage(62),
            ]@);
            assert(seq![Extent::Min(10), Extent::Length(4)] =~= [
                Extent::Min(10),
                Extent::Length(4),
            ]@);
            assert(seq![Extent::Min(12), Extent::Length(5)] =~= [
                Extent::Min(12),
                Extent::Length(5),
            ]@);
        }
        screen
    }
}

// --- Text ---

/// What a piece of text means, which decides how it is coloured.
#[derive(Clone, Copy, Debug, PartialEq, Eq, Structural)]
pub enum Tone {
    Plain,
    Label,
    Value,
    Number,
    Info,
    Heading,
    Cpu,
    Gpu,
    Selected,
    Muted,
    Accent,
    PopupTitle,
    /// The name of the program.
    Program,
    /// That it runs as root.
    Root,
    /// That a newer release is out.
    Notice,
}

/// A piece of text with its tone.
#[derive(Debug)]
pub struct Span {
    pub text: String,
    pub tone: Tone,
}

#[verifier::ext_equal]
pub struct SpanView {
    pub text: Seq<char>,
    pub tone: Tone,
}

impl View for Span {
    type V = SpanView;

    open spec fn view(&self) -> SpanView {
        SpanView { text: self.text@, tone: self.tone }
    }
}

/// A line of text.
pub type Line = Vec<Span>;

pub open spec fn line_view(line: Seq<Span>) -> Seq<SpanView> {
    line.map_values(|s: Span| s@)
}

pub open spec fn lines_view(lines: Seq<Line>) -> Seq<Seq<SpanView>> {
    lines.map_values(|line: Line| line_view(line@))
}

pub open spec fn toned(text: Seq<char>, tone: Tone) -> SpanView {
    SpanView { text, tone }
}

fn add_span(line: &mut Line, text: &str, tone: Tone)
    ensures
        line_view(final(line)@) == line_view(old(line)@).push(toned(text@, tone)),
{
    line.push(Span { text: text.to_owned(), tone });
    proof {
        assert(line_view(line@) =~= line_view(old(line)@).push(toned(text@, tone)));
    }
}

fn line_of(text: &str, tone: Tone) -> (r: Line)
    ensures
        line_view(r@) == seq![toned(text@, tone)],
{
    let mut line: Line = Vec::new();
    add_span(&mut line, text, tone);
    proof {
        assert(line_view(line@) =~= seq![toned(text@, tone)]);
    }
    line
}

fn pair(first: &str, first_tone: Tone, second: &str, second_tone: Tone) -> (r: Line)
    ensures
        line_view(r@) == seq![toned(first@, first_tone), toned(second@, second_tone)],
{
    let mut line: Line = Vec::new();
    add_span(&mut line, first, first_tone);
    add_span(&mut line, second, second_tone);
    proof {
        assert(line_view(line@) =~= seq![toned(first@, first_tone), toned(second@, second_tone)]);
    }
    line
}

fn add_line(lines: &mut Vec<Line>, line: Line)
    ensures
        lines_view(final(lines)@) == lines_view(old(lines)@).push(line_view(line@)),
{
    let ghost added = line_view(line@);
    lines.push(line);
    proof {
        assert(lines_view(lines@) =~= lines_view(old(lines)@).push(added));
    }
}

pub open spec fn badge_tone(value: Seq<char>) -> Tone {
    if value == "ON"@ || value == "Custom"@ || value == "Gaming"@ || value == "Fixed"@ {
        Tone::Gpu
    } else if value == "OFF"@ || value == "Normal"@ {
        Tone::Cpu
    } else if value == "Silent"@ || value == "Auto"@ {
        Tone::Info
    } else {
        Tone::Number
    }
}

/// Colour for a mode/state badge, keyed on what the value means.
pub fn badge_style(value: &str) -> (r: Tone)
    ensures
        r == badge_tone(value@),
{
    if text::same(value, "ON") || text::same(value, "Custom") || text::same(value, "Gaming")
        || text::same(value, "Fixed") {
        Tone::Gpu
    } else if text::same(value, "OFF") || text::same(value, "Normal") {
        Tone::Cpu
    } else if text::same(value, "Silent") || text::same(value, "Auto") {
        Tone::Info
    } else {
        Tone::Number
    }
}

// --- Bars ---

/// The words of the header, `secs` seconds after the last refresh.
pub open spec fn header_spans(secs: u64) -> Seq<SpanView> {
    seq![
        toned(" gigabytectl "@, Tone::Program),
        toned("  "@, Tone::Plain),
        toned("Gigabyte control panel"@, Tone::Info),
        toned("   "@, Tone::Plain),
        toned(" root "@, Tone::Root),
        toned("  "@, Tone::Plain),
        toned("last refresh: "@ + text::decimal(secs as nat) + "s ago"@, Tone::Plain),
    ]
}

pub fn header(secs: u64) -> (r: Line)
    ensures
        line_view(r@) == header_spans(secs),
{
    let mut line: Line = Vec::new();
    add_span(&mut line, " gigabytectl ", Tone::Program);
    add_span(&mut line, "  ", Tone::Plain);
    add_span(&mut line, "Gigabyte control panel", Tone::Info);
    add_span(&mut line, "   ", Tone::Plain);
    add_span(&mut line, " root ", Tone::Root);
    add_span(&mut line, "  ", Tone::Plain);
    let age: String = text::concat3("last refresh: ", text::decimal_of(secs).as_str(), "s ago");
    add_span(&mut line, age.as_str(), Tone::Plain);
    proof {
        assert(line_view(line@) =~= header_spans(secs));
    }
    line
}

/// The columns that a line takes up.
pub open spec fn line_columns(line: Seq<SpanView>) -> nat
    decreases line.len(),
{
    if line.len() == 0 {
        0
    } else {
        line_columns(line.drop_last()) + columns(line.last().text)
    }
}

/// The columns that a line takes up, or `None` where they are too many for any
/// screen.
pub fn line_width(line: &Line) -> (r: Option<u16>)
    ensures
        match r {
            Some(n) => line_columns(line_view(line@)) == n,
            None => line_columns(line_view(line@)) > u16::MAX,
        },
{
    let ghost all = line_view(line@);
    let mut total: usize = 0;
    let mut i: usize = 0;
    while i < line.len()
        invariant
            i <= line@.len(),
            all == line_view(line@),
            total == line_columns(all.take(i as int)),
            total <= u16::MAX,
        decreases line@.len() - i,
    {
        let n: usize = width(line[i].text.as_str());
        proof {
            assert(all.take(i + 1).drop_last() =~= all.take(i as int));
            assert(all[i as int] == line@[i as int]@);
            lemma_columns_grow(all, i + 1);
        }
        if n > u16::MAX as usize || total + n > u16::MAX as usize {
            return None;
        }
        total = total + n;
        i = i + 1;
    }
    proof {
        assert(all.take(i as int) =~= all);
    }
    Some(total as u16)
}

proof fn lemma_columns_grow(line: Seq<SpanView>, n: int)
    requires
        0 <= n <= line.len(),
    ensures
        line_columns(line.take(n)) <= line_columns(line),
    decreases line.len(),
{
    if n == line.len() {
        assert(line.take(n) =~= line);
    } else {
        lemma_columns_grow(line.drop_last(), n);
        assert(line.drop_last().take(n) =~= line.take(n));
    }
}

/// The words of the badge that names a newer release.
pub open spec fn badge_text(current: Seq<char>, version: Seq<char>) -> Seq<char> {
    " ↑ update "@ + current + " → "@ + version + " "@
}

pub fn badge(current: &str, version: &str) -> (r: String)
    ensures
        r@ == badge_text(current@, version@),
{
    text::concat5(" ↑ update ", current, " → ", version, " ")
}

/// Where the badge goes: in the top-right of the header, if the header's words,
/// the badge and two spaces between them fit.
pub open spec fn badge_place(header: Area, header_width: int, badge_width: int) -> Option<Area> {
    let room = shrunk(header, 1, 1);
    if room.width < header_width + badge_width + 2 {
        None
    } else {
        Some(
            Area {
                x: (room.x + room.width - badge_width) as u16,
                y: room.y,
                width: badge_width as u16,
                height: 1,
            },
        )
    }
}

/// Where the badge goes, given the width of the header's words and its own.
///
/// It covers only its own width, so it cannot blank the header text, and it is
/// dropped entirely when the terminal is too narrow to hold both — losing a
/// notice is better than painting over the reading the user came for.
pub fn update_badge_area(header: Area, header_width: u16, badge_width: u16) -> (r: Option<Area>)
    requires
        header.x + header.width <= u16::MAX,
    ensures
        r == badge_place(header, header_width as int, badge_width as int),
{
    let room: Area = inner(header, 1, 1);
    // Two spaces of clearance, so it never abuts the "last refresh" text.
    if (room.width as u32) < header_width as u32 + badge_width as u32 + 2 {
        return None;
    }
    Some(
        Area {
            x: room.x + (room.width - badge_width),
            y: room.y,
            width: badge_width,
            height: 1,
        },
    )
}

/// Where the "update available" badge goes, if it fits beside the header's
/// words.
pub fn update_badge(header: Area, words: &Line, badge: &str) -> (r: Option<Area>)
    requires
        header.x + header.width <= u16::MAX,
    ensures
        r == badge_place(
            header,
            line_columns(line_view(words@)) as int,
            columns(badge@) as int,
        ),
{
    let own: usize = width(badge);
    match line_width(words) {
        Some(n) => {
            if own > u16::MAX as usize {
                None
            } else {
                update_badge_area(header, n, own as u16)
            }
        },
        None => None,
    }
}

pub open spec fn status_text(app: AppView) -> Seq<char> {
    if app.focus is Editing && app.editing is Some {
        app::prompt_text(app.editing->0) + ": "@ + app.input
    } else {
        app.status
    }
}

pub fn status(app: &App) -> (r: String)
    ensures
        r@ == status_text(app@),
{
    match (app.focus, app.editing) {
        (Focus::Editing, Some(target)) => text::concat3(
            target.prompt().as_str(),
            ": ",
            app.input.as_str(),
        ),
        _ => app.status.clone(),
    }
}

pub open spec fn footer_text(app: AppView) -> Seq<char> {
    if app.focus is Editing {
        "Editing mode: type numbers only, then press Enter"@
    } else if app.update is Some {
        "gigabytectl "@ + app.update->0 + " is available - run: sudo gigabytectl self update"@
    } else {
        "Ready"@
    }
}

/// The badge says a release exists; the footer has the room to say what to do
/// about it.
pub fn footer(app: &App) -> (r: String)
    ensures
        r@ == footer_text(app@),
{
    match (app.focus, &app.update) {
        (Focus::Editing, _) => "Editing mode: type numbers only, then press Enter".to_owned(),
        (_, Some(version)) => text::concat3(
            "gigabytectl ",
            version.as_str(),
            " is available - run: sudo gigabytectl self update",
        ),
        _ => "Ready".to_owned(),
    }
}

/// The three lines of help.
pub open spec fn help_of(
    subject: Seq<char>,
    value: Seq<char>,
    hint: Seq<char>,
    keys: Seq<char>,
) -> Seq<Seq<SpanView>> {
    seq![
        seq![toned(subject, Tone::Heading), toned(value, Tone::Value)],
        seq![toned("Hint: "@, Tone::Info), toned(hint, Tone::Plain)],
        seq![toned(keys, Tone::Plain)],
    ]
}

pub open spec fn help_lines(app: AppView) -> Seq<Seq<SpanView>> {
    match app.focus {
        Focus::ProfileList => help_of(
            "Profiles: "@,
            match app.chosen() {
                Some((name, _)) => name,
                None => "none saved"@,
            },
            "Enter applies the profile (and its power profile mapping)."@,
            "↑/↓ select   Enter apply   s save new   u update   d delete   Esc back"@,
        ),
        Focus::Confirm => help_of(
            "Confirm: "@,
            "waiting"@,
            "This cannot be undone."@,
            "y confirm   n / Esc cancel"@,
        ),
        Focus::FanCurveList => help_of(
            "Editing: "@,
            "Fan Curve"@,
            "Temp: 0-100, Speed: 0-255. Maintain non-decreasing order."@,
            "↑/↓ row   ←/→ col   Enter edit   Esc back"@,
        ),
        _ => help_of(
            "Selected: "@,
            app::item_title(app.item()),
            app::item_hint(app.item()),
            "↑/↓ move   ←/→ action   Enter edit/apply   Esc cancel   r refresh   q quit"@,
        ),
    }
}

fn help_with(subject: &str, value: &str, hint: &str, keys: &str) -> (r: Vec<Line>)
    ensures
        lines_view(r@) == help_of(subject@, value@, hint@, keys@),
{
    let mut lines: Vec<Line> = Vec::new();
    add_line(&mut lines, pair(subject, Tone::Heading, value, Tone::Value));
    add_line(&mut lines, pair("Hint: ", Tone::Info, hint, Tone::Plain));
    add_line(&mut lines, line_of(keys, Tone::Plain));
    proof {
        assert(lines_view(lines@) =~= help_of(subject@, value@, hint@, keys@));
    }
    lines
}

pub fn help(app: &App) -> (r: Vec<Line>)
    requires
        app.well_formed(),
    ensures
        lines_view(r@) == help_lines(app@),
{
    match app.focus {
        Focus::ProfileList => help_with(
            "Profiles: ",
            match app.selected_profile() {
                Some(entry) => entry.0.as_str(),
                None => "none saved",
            },
            "Enter applies the profile (and its power profile mapping).",
            "↑/↓ select   Enter apply   s save new   u update   d delete   Esc back",
        ),
        Focus::Confirm => help_with(
            "Confirm: ",
            "waiting",
            "This cannot be undone.",
            "y confirm   n / Esc cancel",
        ),
        Focus::FanCurveList => help_with(
            "Editing: ",
            "Fan Curve",
            "Temp: 0-100, Speed: 0-255. Maintain non-decreasing order.",
            "↑/↓ row   ←/→ col   Enter edit   Esc back",
        ),
        _ => {
            let item: Item = app.selected_item();
            help_with(
                "Selected: ",
                item.title(),
                item.hint(),
                "↑/↓ move   ←/→ action   Enter edit/apply   Esc cancel   r refresh   q quit",
            )
        },
    }
}

// --- Profiles ---

/// What a profile changes, piece by piece.
pub open spec fn summary_parts(p: ProfileView) -> Seq<Seq<char>> {
    (match p.fan_mode {
        Some(mode) => seq!["fan "@ + mode],
        None => Seq::empty(),
    }) + (match p.fan_custom_speed {
        Some(speed) => seq!["speed "@ + text::decimal_int(speed as int)],
        None => Seq::empty(),
    }) + (match p.charge_limit {
        Some(limit) => seq!["charge "@ + text::decimal_int(limit as int) + "%"@],
        None => Seq::empty(),
    }) + (match p.gpu_boost {
        Some(boost) => seq!["boost "@ + boost],
        None => Seq::empty(),
    }) + (if p.fan_curve is Some {
        seq!["curve"@]
    } else {
        Seq::empty()
    })
}

pub open spec fn summary_text(p: ProfileView) -> Seq<char> {
    if summary_parts(p).len() == 0 {
        "empty"@
    } else {
        text::joined(summary_parts(p), ", "@)
    }
}

/// One line summarising what a profile changes, so the list is useful without
/// opening each entry.
pub fn profile_summary(p: &Profile) -> (r: String)
    ensures
        r@ == summary_text(p@),
{
    let mut parts: Vec<String> = Vec::new();
    if let Some(mode) = &p.fan_mode {
        let mut part: String = "fan ".to_owned();
        part.append(mode.as_str());
        text::push_text(&mut parts, part.as_str());
    }
    if let Some(speed) = p.fan_custom_speed {
        let mut part: String = "speed ".to_owned();
        part.append(text::decimal_of_int(speed as i64).as_str());
        text::push_text(&mut parts, part.as_str());
    }
    if let Some(limit) = p.charge_limit {
        let part: String = text::concat3(
            "charge ",
            text::decimal_of_int(limit as i64).as_str(),
            "%",
        );
        text::push_text(&mut parts, part.as_str());
    }
    if let Some(boost) = &p.gpu_boost {
        let mut part: String = "boost ".to_owned();
        part.append(boost.as_str());
        text::push_text(&mut parts, part.as_str());
    }
    if p.fan_curve.is_some() {
        text::push_text(&mut parts, "curve");
    }
    proof {
        assert(text::views(parts@) =~= summary_parts(p@));
        assert(parts@.len() == summary_parts(p@).len());
    }
    if parts.len() == 0 {
        "empty".to_owned()
    } else {
        text::join(parts.as_slice(), ", ")
    }
}

/// The first line of a profile in the list.
pub open spec fn entry_text(selected: bool, name: Seq<char>, p: ProfileView) -> Seq<char> {
    (if selected {
        ">"@
    } else {
        " "@
    }) + " "@ + name + match p.ppd_profile {
        Some(ppd) => "  ->  "@ + ppd,
        None => ""@,
    }
}

/// The lines of the first `n` profiles.
pub open spec fn entry_lines(app: AppView, n: nat) -> Seq<Seq<SpanView>>
    decreases n,
{
    if n == 0 {
        Seq::empty()
    } else {
        let (name, p) = app.profiles[n - 1];
        let selected = app.focus is ProfileList && n - 1 == app.profile_row;
        entry_lines(app, (n - 1) as nat).push(
            seq![
                toned(
                    entry_text(selected, name, p),
                    if selected {
                        Tone::Selected
                    } else {
                        Tone::Value
                    },
                ),
            ],
        ).push(seq![toned("    "@ + summary_text(p), Tone::Muted)])
    }
}

pub open spec fn profile_lines(app: AppView) -> Seq<Seq<SpanView>> {
    if app.profiles.len() == 0 {
        seq![
            seq![toned("No profiles saved yet."@, Tone::Plain)],
            seq![toned(""@, Tone::Plain)],
            seq![
                toned(
                    "Press Enter here, then s to save the current settings as a profile."@,
                    Tone::Muted,
                ),
            ],
        ]
    } else {
        entry_lines(app, app.profiles.len())
    }
}

fn entry_line(selected: bool, name: &str, p: &Profile) -> (r: String)
    ensures
        r@ == entry_text(selected, name@, p@),
{
    let mark: &str = if selected {
        ">"
    } else {
        " "
    };
    let mapping: String = match &p.ppd_profile {
        Some(ppd) => {
            let mut m: String = "  ->  ".to_owned();
            m.append(ppd.as_str());
            m
        },
        None => "".to_owned(),
    };
    let mut r: String = text::concat3(mark, " ", name);
    r.append(mapping.as_str());
    r
}

pub fn profile_list(app: &App) -> (r: Vec<Line>)
    ensures
        lines_view(r@) == profile_lines(app@),
{
    let mut lines: Vec<Line> = Vec::new();
    let count: usize = app.profiles.entries.len();
    if count == 0 {
        add_line(&mut lines, line_of("No profiles saved yet.", Tone::Plain));
        add_line(&mut lines, line_of("", Tone::Plain));
        add_line(
            &mut lines,
            line_of(
                "Press Enter here, then s to save the current settings as a profile.",
                Tone::Muted,
            ),
        );
        proof {
            assert(lines_view(lines@) =~= profile_lines(app@));
        }
        return lines;
    }
    let mut i: usize = 0;
    proof {
        assert(lines_view(lines@) =~= entry_lines(app@, 0));
    }
    while i < count
        invariant
            i <= count,
            count == app.profiles.entries@.len(),
            lines_view(lines@) == entry_lines(app@, i as nat),
        decreases count - i,
    {
        let entry: &(String, Profile) = &app.profiles.entries[i];
        let selected: bool = app.focus == Focus::ProfileList && i == app.profile_row;
        let tone: Tone = if selected {
            Tone::Selected
        } else {
            Tone::Value
        };
        let mut summary: String = "    ".to_owned();
        summary.append(profile_summary(&entry.1).as_str());
        proof {
            assert(app@.profiles[i as int] == (entry.0@, entry.1@));
        }
        add_line(
            &mut lines,
            line_of(entry_line(selected, entry.0.as_str(), &entry.1).as_str(), tone),
        );
        add_line(&mut lines, line_of(summary.as_str(), Tone::Muted));
        i = i + 1;
    }
    lines
}

// --- Dashboard ---

/// One `label   value` line of the dashboard.
pub open spec fn row_spans(label: Seq<char>, value: Seq<char>, tone: Tone) -> Seq<SpanView> {
    seq![toned(text::left_aligned(label, 15), Tone::Label), toned(value, tone)]
}

pub fn row(label: &str, value: &str, tone: Tone) -> (r: Line)
    ensures
        line_view(r@) == row_spans(label@, value@, tone),
{
    pair(text::pad_right(label, 15).as_str(), Tone::Label, value, tone)
}

pub open spec fn dependent_spans(
    label: Seq<char>,
    value: Seq<char>,
    hw: HwState,
    setting: Dependent,
) -> Seq<SpanView> {
    let line = row_spans(label, value, Tone::Number);
    match hw.inert_text(setting) {
        Some(reason) => line.push(toned("  inactive — "@ + reason, Tone::Muted)),
        None => line,
    }
}

/// A dashboard row for a setting that only applies in certain modes, tagged
/// with why it is doing nothing when that is the case.
pub fn dependent_row(label: &str, value: &str, hw: &HwState, setting: Dependent) -> (r: Line)
    ensures
        line_view(r@) == dependent_spans(label@, value@, *hw, setting),
{
    let mut line: Line = row(label, value, Tone::Number);
    if let Some(reason) = hw.inactive_reason(setting) {
        let mut note: String = "  inactive — ".to_owned();
        note.append(reason);
        add_span(&mut line, note.as_str(), Tone::Muted);
    }
    line
}

pub open spec fn fan_rows(fans: Seq<FanView>, n: nat) -> Seq<Seq<SpanView>> {
    Seq::new(
        n,
        |i: int|
            row_spans(
                fans[i].name,
                sensors::reading_text(fans[i].rpm, fans[i].pwm),
                Tone::Gpu,
            ),
    )
}

/// The settings on the dashboard, given the temperatures as text.
pub open spec fn setting_rows(hw: HwState, cpu: Seq<char>, gpu: Seq<char>) -> Seq<Seq<SpanView>> {
    let fan_mode = sysfs::name_text(sysfs::FAN_MODES@, hw.fan_mode);
    let charge_mode = sysfs::name_text(sysfs::CHARGE_MODES@, hw.charge_mode);
    let boost = sysfs::boost_text(hw.gpu_boost);
    seq![
        row_spans("Fan mode"@, fan_mode, badge_tone(fan_mode)),
        dependent_spans(
            "Fan speed"@,
            sysfs::value_text(hw.fan_custom_speed),
            hw,
            Dependent::FanCustomSpeed,
        ),
        row_spans("Charge mode"@, charge_mode, badge_tone(charge_mode)),
        dependent_spans(
            "Charge limit"@,
            sysfs::value_text(hw.charge_limit),
            hw,
            Dependent::ChargeLimit,
        ),
        row_spans("GPU boost"@, boost, badge_tone(boost)),
        row_spans(
            "Battery cycle"@,
            sysfs::cycle_text(sysfs::text_view(hw.battery_cycle)),
            Tone::Info,
        ),
        row_spans(
            "Light sensor"@,
            sysfs::light_text(sysfs::text_view(hw.light_sensor)),
            Tone::Accent,
        ),
        row_spans("Fan PWM"@, sysfs::value_text(hw.fan_pwm), Tone::Number),
        row_spans("CPU temp"@, cpu, Tone::Cpu),
        row_spans("GPU temp"@, gpu, Tone::Gpu),
    ]
}

pub open spec fn dashboard_lines(app: AppView, cpu: Seq<char>, gpu: Seq<char>) -> Seq<
    Seq<SpanView>,
> {
    setting_rows(app.hw, cpu, gpu) + if app.fans.len() == 0 {
        Seq::empty()
    } else {
        seq![
            seq![toned(""@, Tone::Plain)],
            seq![toned("Fan readings:"@, Tone::Heading)],
        ] + fan_rows(app.fans, app.fans.len())
    }
}

pub fn dashboard(app: &App, cpu: &str, gpu: &str) -> (r: Vec<Line>)
    ensures
        lines_view(r@) == dashboard_lines(app@, cpu@, gpu@),
{
    let hw: &HwState = &app.hw;
    let fan_mode: String = sysfs::fan_mode_name(hw.fan_mode);
    let charge_mode: String = sysfs::charge_mode_name(hw.charge_mode);
    let gpu_boost: &str = sysfs::gpu_boost_name(hw.gpu_boost);
    let mut lines: Vec<Line> = Vec::new();
    add_line(&mut lines, row("Fan mode", fan_mode.as_str(), badge_style(fan_mode.as_str())));
    add_line(
        &mut lines,
        dependent_row(
            "Fan speed",
            sysfs::value_or_na(hw.fan_custom_speed).as_str(),
            hw,
            Dependent::FanCustomSpeed,
        ),
    );
    add_line(
        &mut lines,
        row("Charge mode", charge_mode.as_str(), badge_style(charge_mode.as_str())),
    );
    add_line(
        &mut lines,
        dependent_row(
            "Charge limit",
            sysfs::value_or_na(hw.charge_limit).as_str(),
            hw,
            Dependent::ChargeLimit,
        ),
    );
    add_line(&mut lines, row("GPU boost", gpu_boost, badge_style(gpu_boost)));
    add_line(&mut lines, row("Battery cycle", hw.battery_cycle_text().as_str(), Tone::Info));
    add_line(&mut lines, row("Light sensor", hw.light_sensor_text().as_str(), Tone::Accent));
    add_line(&mut lines, row("Fan PWM", sysfs::value_or_na(hw.fan_pwm).as_str(), Tone::Number));
    add_line(&mut lines, row("CPU temp", cpu, Tone::Cpu));
    add_line(&mut lines, row("GPU temp", gpu, Tone::Gpu));
    let ghost settings = setting_rows(app.hw, cpu@, gpu@);
    proof {
        assert(lines_view(lines@) =~= settings);
    }
    if app.fans.len() == 0 {
        proof {
            assert(lines_view(lines@) =~= dashboard_lines(app@, cpu@, gpu@));
        }
        return lines;
    }
    add_line(&mut lines, line_of("", Tone::Plain));
    add_line(&mut lines, line_of("Fan readings:", Tone::Heading));
    let ghost head = lines_view(lines@);
    let ghost fans = sensors::fan_views(app.fans@);
    let mut i: usize = 0;
    proof {
        assert(head =~= head + fan_rows(fans, 0));
    }
    while i < app.fans.len()
        invariant
            i <= app.fans@.len(),
            fans == sensors::fan_views(app.fans@),
            lines_view(lines@) == head + fan_rows(fans, i as nat),
        decreases app.fans@.len() - i,
    {
        add_line(
            &mut lines,
            row(app.fans[i].name.as_str(), app.fans[i].reading().as_str(), Tone::Gpu),
        );
        i = i + 1;
        proof {
            assert(fans[i - 1] == app.fans@[i - 1]@);
            assert(head + fan_rows(fans, i as nat) =~= (head + fan_rows(fans, (i - 1) as nat)).push(
                row_spans(
                    fans[i - 1].name,
                    sensors::reading_text(fans[i - 1].rpm, fans[i - 1].pwm),
                    Tone::Gpu,
                ),
            ));
        }
    }
    proof {
        assert(lines_view(lines@) =~= dashboard_lines(app@, cpu@, gpu@));
    }
    lines
}

// --- Fan curve ---

pub open spec fn curve_title(hw: HwState, base: Seq<char>) -> Seq<char> {
    match hw.inert_text(Dependent::FanCurve) {
        Some(reason) => base + " (inactive — "@ + reason + ")"@,
        None => base,
    }
}

/// Panel title for the curve views, noting when the curve is not in use.
pub fn fan_curve_title(app: &App, base: &str) -> (r: String)
    ensures
        r@ == curve_title(app.hw, base@),
{
    match app.hw.inactive_reason(Dependent::FanCurve) {
        Some(reason) => {
            let mut r: String = text::concat3(base, " (inactive — ", reason);
            r.append(")");
            r
        },
        None => base.to_owned(),
    }
}

pub open spec fn table_head() -> Seq<SpanView> {
    seq![
        toned(text::right_aligned("Idx"@, 3) + "  "@, Tone::Value),
        toned(text::right_aligned("Temp (°C)"@, 9), Tone::Value),
        toned("   "@, Tone::Plain),
        toned(text::right_aligned("Speed (0-255)"@, 13), Tone::Value),
    ]
}

/// The tone of a cell of the table.
pub open spec fn cell_tone(app: AppView, index: int, column: CurveColumn) -> Tone {
    if app.focus is FanCurveList && app.curve_row == index && app.curve_column == column {
        Tone::Selected
    } else {
        Tone::Plain
    }
}

pub open spec fn table_row(app: AppView, index: int, point: (i32, i32)) -> Seq<SpanView> {
    seq![
        toned(text::right_aligned(text::decimal(index as nat), 3) + "  "@, Tone::Plain),
        toned(
            text::right_aligned(text::decimal_int(point.0 as int), 9),
            cell_tone(app, index, CurveColumn::Temp),
        ),
        toned("   "@, Tone::Plain),
        toned(
            text::right_aligned(text::decimal_int(point.1 as int), 13),
            cell_tone(app, index, CurveColumn::Speed),
        ),
    ]
}

pub open spec fn table_rows(app: AppView, curve: Seq<(i32, i32)>, n: nat) -> Seq<Seq<SpanView>> {
    Seq::new(n, |i: int| table_row(app, i, curve[i]))
}

pub open spec fn table_lines(app: AppView) -> Seq<Seq<SpanView>> {
    seq![table_head()] + match app.fan_curve {
        Some(curve) => table_rows(app, curve, curve.len()),
        None => seq![seq![toned("Failed to read fan curve data."@, Tone::Plain)]],
    }
}

fn table_line(app: &App, index: usize, point: (i32, i32)) -> (r: Line)
    ensures
        line_view(r@) == table_row(app@, index as int, point),
{
    let active: bool = app.focus == Focus::FanCurveList && app.curve_row == index;
    let temp_tone: Tone = if active && app.curve_column == CurveColumn::Temp {
        Tone::Selected
    } else {
        Tone::Plain
    };
    let speed_tone: Tone = if active && app.curve_column == CurveColumn::Speed {
        Tone::Selected
    } else {
        Tone::Plain
    };
    let mut number: String = text::pad_left(text::decimal_of(index as u64).as_str(), 3);
    number.append("  ");
    let mut line: Line = Vec::new();
    add_span(&mut line, number.as_str(), Tone::Plain);
    add_span(
        &mut line,
        text::pad_left(text::decimal_of_int(point.0 as i64).as_str(), 9).as_str(),
        temp_tone,
    );
    add_span(&mut line, "   ", Tone::Plain);
    add_span(
        &mut line,
        text::pad_left(text::decimal_of_int(point.1 as i64).as_str(), 13).as_str(),
        speed_tone,
    );
    proof {
        assert(line_view(line@) =~= table_row(app@, index as int, point));
    }
    line
}

/// The table of the curve editor. Wrapping it would trim the leading padding,
/// which knocks the two-digit rows out of their columns.
pub fn fan_curve_table(app: &App) -> (r: Vec<Line>)
    ensures
        lines_view(r@) == table_lines(app@),
{
    let mut lines: Vec<Line> = Vec::new();
    let mut head: Line = Vec::new();
    let mut number: String = text::pad_left("Idx", 3);
    number.append("  ");
    add_span(&mut head, number.as_str(), Tone::Value);
    add_span(&mut head, text::pad_left("Temp (°C)", 9).as_str(), Tone::Value);
    add_span(&mut head, "   ", Tone::Plain);
    add_span(&mut head, text::pad_left("Speed (0-255)", 13).as_str(), Tone::Value);
    proof {
        assert(line_view(head@) =~= table_head());
    }
    add_line(&mut lines, head);
    proof {
        assert(lines_view(lines@) =~= seq![table_head()]);
    }
    match &app.fan_curve {
        Some(curve) => {
            let mut i: usize = 0;
            proof {
                assert(seq![table_head()] + table_rows(app@, curve@, 0) =~= seq![table_head()]);
            }
            while i < curve.len()
                invariant
                    i <= curve@.len(),
                    lines_view(lines@) == seq![table_head()] + table_rows(app@, curve@, i as nat),
                decreases curve@.len() - i,
            {
                add_line(&mut lines, table_line(app, i, curve[i]));
                i = i + 1;
                proof {
                    assert(seq![table_head()] + table_rows(app@, curve@, i as nat) =~= (seq![
                        table_head(),
                    ] + table_rows(app@, curve@, (i - 1) as nat)).push(
                        table_row(app@, i - 1, curve@[i - 1]),
                    ));
                }
            }
        },
        None => {
            add_line(&mut lines, line_of("Failed to read fan curve data.", Tone::Plain));
            proof {
                assert(lines_view(lines@) =~= table_lines(app@));
            }
        },
    }
    lines
}

// --- Popups ---

pub open spec fn edit_lines(input: Seq<char>, target: EditTarget) -> Seq<Seq<SpanView>> {
    seq![
        seq![
            toned(app::prompt_text(target), Tone::PopupTitle),
            toned("  "@, Tone::Plain),
            toned("(Esc cancels)"@, Tone::Muted),
        ],
        seq![toned(""@, Tone::Plain)],
        seq![toned("Value: "@, Tone::Heading), toned(input, Tone::Value)],
        seq![toned(""@, Tone::Plain)],
        seq![toned(app::target_hint(target), Tone::Plain)],
    ]
}

pub fn edit_popup(input: &str, target: EditTarget) -> (r: Vec<Line>)
    ensures
        lines_view(r@) == edit_lines(input@, target),
{
    let mut title: Line = pair(target.prompt().as_str(), Tone::PopupTitle, "  ", Tone::Plain);
    add_span(&mut title, "(Esc cancels)", Tone::Muted);
    proof {
        assert(line_view(title@) =~= edit_lines(input@, target)[0]);
    }
    let mut lines: Vec<Line> = Vec::new();
    add_line(&mut lines, title);
    add_line(&mut lines, line_of("", Tone::Plain));
    add_line(&mut lines, pair("Value: ", Tone::Heading, input, Tone::Value));
    add_line(&mut lines, line_of("", Tone::Plain));
    add_line(&mut lines, line_of(target.hint().as_str(), Tone::Plain));
    proof {
        assert(lines_view(lines@) =~= edit_lines(input@, target));
    }
    lines
}

pub open spec fn confirm_lines(message: Seq<char>) -> Seq<Seq<SpanView>> {
    seq![
        seq![toned(message, Tone::Value)],
        seq![toned(""@, Tone::Plain)],
        seq![toned("y = yes    n / Esc = no"@, Tone::Muted)],
    ]
}

pub fn confirm_popup(message: &str) -> (r: Vec<Line>)
    ensures
        lines_view(r@) == confirm_lines(message@),
{
    let mut lines: Vec<Line> = Vec::new();
    add_line(&mut lines, line_of(message, Tone::Value));
    add_line(&mut lines, line_of("", Tone::Plain));
    add_line(&mut lines, line_of("y = yes    n / Esc = no", Tone::Muted));
    proof {
        assert(lines_view(lines@) =~= confirm_lines(message@));
    }
    lines
}

// --- The whole picture ---

/// The border of a panel.
#[derive(Debug)]
pub enum Border {
    Bare,
    /// A border in a tone, which its words take on.
    Toned(Tone),
    Titled(String),
    /// The border of a popup.
    Popup(String),
}

/// What a panel holds.
#[derive(Debug)]
pub enum Content {
    /// Whatever was there is blanked.
    Blank,
    /// Text that is wrapped where `wrap` is set.
    Words { border: Border, words: String, wrap: bool },
    Lines { border: Border, lines: Vec<Line>, wrap: bool },
    /// The list of [`Item::ALL`].
    Controls { selected: usize },
    /// A chart of the fan curve.
    Curve { title: String, points: Vec<(i32, i32)> },
    /// Charts of the history.
    History,
}

/// A panel and where it is.
#[derive(Debug)]
pub struct Panel {
    pub area: Area,
    pub content: Content,
}

#[verifier::ext_equal]
pub enum BorderView {
    Bare,
    Toned(Tone),
    Titled(Seq<char>),
    Popup(Seq<char>),
}

#[allow(inconsistent_fields)]
#[verifier::ext_equal]
pub enum ContentView {
    Blank,
    Words { border: BorderView, words: Seq<char>, wrap: bool },
    Lines { border: BorderView, lines: Seq<Seq<SpanView>>, wrap: bool },
    Controls { selected: int },
    Curve { title: Seq<char>, points: Seq<(i32, i32)> },
    History,
}

#[verifier::ext_equal]
pub struct PanelView {
    pub area: Area,
    pub content: ContentView,
}

impl View for Border {
    type V = BorderView;

    open spec fn view(&self) -> BorderView {
        match *self {
            Border::Bare => BorderView::Bare,
            Border::Toned(tone) => BorderView::Toned(tone),
            Border::Titled(title) => BorderView::Titled(title@),
            Border::Popup(title) => BorderView::Popup(title@),
        }
    }
}

impl View for Panel {
    type V = PanelView;

    open spec fn view(&self) -> PanelView {
        PanelView {
            area: self.area,
            content: match self.content {
                Content::Blank => ContentView::Blank,
                Content::Words { border, words, wrap } => ContentView::Words {
                    border: border@,
                    words: words@,
                    wrap,
                },
                Content::Lines { border, lines, wrap } => ContentView::Lines {
                    border: border@,
                    lines: lines_view(lines@),
                    wrap,
                },
                Content::Controls { selected } => ContentView::Controls {
                    selected: selected as int,
                },
                Content::Curve { title, points } => ContentView::Curve {
                    title: title@,
                    points: points@,
                },
                Content::History => ContentView::History,
            },
        }
    }
}

pub open spec fn panel_views(panels: Seq<Panel>) -> Seq<PanelView> {
    panels.map_values(|p: Panel| p@)
}

fn add_panel(panels: &mut Vec<Panel>, area: Area, content: Content)
    ensures
        panel_views(final(panels)@) == panel_views(old(panels)@).push(Panel { area, content }@),
{
    let panel: Panel = Panel { area, content };
    let ghost added = panel@;
    panels.push(panel);
    proof {
        assert(panel_views(panels@) =~= panel_views(old(panels)@).push(added));
    }
}

/// The panel beside the controls.
pub open spec fn detail_content(app: AppView, cpu: Seq<char>, gpu: Seq<char>) -> ContentView {
    let table = ContentView::Lines {
        border: BorderView::Titled(curve_title(app.hw, "Fan Curve Editor"@)),
        lines: table_lines(app),
        wrap: false,
    };
    let profiles = ContentView::Lines {
        border: BorderView::Titled("Profiles"@),
        lines: profile_lines(app),
        wrap: false,
    };
    match app.item() {
        Item::FanCurveView => match app.fan_curve {
            Some(curve) => ContentView::Curve {
                title: curve_title(app.hw, "Fan Curve Graph"@),
                points: curve,
            },
            None => ContentView::Words {
                border: BorderView::Titled(curve_title(app.hw, "Fan Curve Graph"@)),
                words: "Failed to read fan curve data."@,
                wrap: false,
            },
        },
        Item::History => ContentView::History,
        Item::FanCurveEdit => table,
        Item::Profiles => profiles,
        _ => if app.focus is FanCurveList {
            table
        } else if app.focus is ProfileList {
            profiles
        } else {
            ContentView::Lines {
                border: BorderView::Titled("Current values"@),
                lines: dashboard_lines(app, cpu, gpu),
                wrap: true,
            }
        },
    }
}

fn copy_curve(curve: &Vec<(i32, i32)>) -> (r: Vec<(i32, i32)>)
    ensures
        r@ == curve@,
{
    let mut r: Vec<(i32, i32)> = Vec::new();
    let mut i: usize = 0;
    while i < curve.len()
        invariant
            i <= curve@.len(),
            r@ == curve@.take(i as int),
        decreases curve@.len() - i,
    {
        r.push(curve[i]);
        i = i + 1;
        proof {
            assert(r@ =~= curve@.take(i as int));
        }
    }
    proof {
        assert(curve@.take(i as int) =~= curve@);
    }
    r
}

fn curve_table(app: &App) -> (r: Content)
    ensures
        forall|area: Area|
            (#[trigger] Panel { area, content: r }@).content == (ContentView::Lines {
                border: BorderView::Titled(curve_title(app.hw, "Fan Curve Editor"@)),
                lines: table_lines(app@),
                wrap: false,
            }),
{
    Content::Lines {
        border: Border::Titled(fan_curve_title(app, "Fan Curve Editor")),
        lines: fan_curve_table(app),
        wrap: false,
    }
}

fn profiles_panel(app: &App) -> (r: Content)
    ensures
        forall|area: Area|
            (#[trigger] Panel { area, content: r }@).content == (ContentView::Lines {
                border: BorderView::Titled("Profiles"@),
                lines: profile_lines(app@),
                wrap: false,
            }),
{
    Content::Lines {
        border: Border::Titled("Profiles".to_owned()),
        lines: profile_list(app),
        wrap: false,
    }
}

/// The panel beside the controls, given the temperatures as text.
pub fn detail(app: &App, area: Area, cpu: &str, gpu: &str) -> (r: Panel)
    requires
        app.well_formed(),
    ensures
        r@ == (PanelView { area, content: detail_content(app@, cpu@, gpu@) }),
{
    let content: Content = match app.selected_item() {
        Item::FanCurveView => {
            let title: String = fan_curve_title(app, "Fan Curve Graph");
            match &app.fan_curve {
                Some(curve) => Content::Curve { title, points: copy_curve(curve) },
                None => Content::Words {
                    border: Border::Titled(title),
                    words: "Failed to read fan curve data.".to_owned(),
                    wrap: false,
                },
            }
        },
        Item::History => Content::History,
        Item::FanCurveEdit => curve_table(app),
        Item::Profiles => profiles_panel(app),
        _ => {
            if app.focus == Focus::FanCurveList {
                curve_table(app)
            } else if app.focus == Focus::ProfileList {
                profiles_panel(app)
            } else {
                Content::Lines {
                    border: Border::Titled("Current values".to_owned()),
                    lines: dashboard(app, cpu, gpu),
                    wrap: true,
                }
            }
        },
    };
    Panel { area, content }
}

/// What the picture shows besides the state: its age in seconds, the version of
/// this program, and the temperatures as text.
#[derive(Debug)]
pub struct Shown {
    pub secs: u64,
    pub version: String,
    pub cpu: String,
    pub gpu: String,
}

pub open spec fn badge_panel(app: AppView, screen: Screen, shown: Shown) -> Seq<PanelView> {
    if app.update is None {
        Seq::empty()
    } else {
        let words = badge_text(shown.version@, app.update->0);
        match badge_place(
            screen.header,
            line_columns(header_spans(shown.secs)) as int,
            columns(words) as int,
        ) {
            Some(area) => seq![
                PanelView {
                    area,
                    content: ContentView::Lines {
                        border: BorderView::Bare,
                        lines: seq![seq![toned(words, Tone::Notice)]],
                        wrap: false,
                    },
                },
            ],
            None => Seq::empty(),
        }
    }
}

pub open spec fn edit_panel(app: AppView, popup: Area) -> Seq<PanelView> {
    if app.focus is Editing && app.editing is Some {
        seq![
            PanelView { area: popup, content: ContentView::Blank },
            PanelView {
                area: popup,
                content: ContentView::Lines {
                    border: BorderView::Popup("Edit value"@),
                    lines: edit_lines(app.input, app.editing->0),
                    wrap: true,
                },
            },
        ]
    } else {
        Seq::empty()
    }
}

pub open spec fn question_panel(app: AppView, popup: Area) -> Seq<PanelView> {
    match app.confirm {
        Some(confirm) => seq![
            PanelView { area: popup, content: ContentView::Blank },
            PanelView {
                area: popup,
                content: ContentView::Lines {
                    border: BorderView::Popup("Confirm"@),
                    lines: confirm_lines(confirm.message),
                    wrap: true,
                },
            },
        ],
        None => Seq::empty(),
    }
}

pub open spec fn header_panel(screen: Screen, shown: Shown) -> Seq<PanelView> {
    seq![
        PanelView {
            area: screen.header,
            content: ContentView::Lines {
                border: BorderView::Toned(Tone::Accent),
                lines: seq![header_spans(shown.secs)],
                wrap: false,
            },
        },
    ]
}

/// The panels between the header and the popups.
pub open spec fn body_panels(app: AppView, screen: Screen, shown: Shown) -> Seq<PanelView> {
    seq![
        PanelView {
            area: screen.controls,
            content: ContentView::Controls { selected: app.selected },
        },
        PanelView {
            area: screen.status,
            content: ContentView::Words {
                border: BorderView::Titled("Status"@),
                words: status_text(app),
                wrap: true,
            },
        },
        PanelView {
            area: screen.detail,
            content: detail_content(app, shown.cpu@, shown.gpu@),
        },
        PanelView {
            area: screen.help,
            content: ContentView::Lines {
                border: BorderView::Titled("Help"@),
                lines: help_lines(app),
                wrap: true,
            },
        },
        PanelView {
            area: screen.footer,
            content: ContentView::Words {
                border: BorderView::Toned(Tone::Muted),
                words: footer_text(app),
                wrap: false,
            },
        },
    ]
}

/// The panels in the order in which they are drawn, on a screen with the given
/// parts and places for the two popups.
pub open spec fn picture(
    app: AppView,
    screen: Screen,
    shown: Shown,
    edit: Area,
    question: Area,
) -> Seq<PanelView> {
    header_panel(screen, shown) + badge_panel(app, screen, shown) + body_panels(app, screen, shown)
        + edit_panel(app, edit) + question_panel(app, question)
}

/// Adds the header and, where there is room for it, the badge.
fn add_header(panels: &mut Vec<Panel>, app: &App, screen: &Screen, shown: &Shown)
    requires
        screen.header.x + screen.header.width <= u16::MAX,
    ensures
        panel_views(final(panels)@) == panel_views(old(panels)@) + header_panel(*screen, *shown)
            + badge_panel(app@, *screen, *shown),
{
    let ghost start = panel_views(panels@);
    let words: Line = header(shown.secs);
    let badge_at: Option<(Area, String)> = match &app.update {
        Some(version) => {
            let notice: String = badge(shown.version.as_str(), version.as_str());
            match update_badge(screen.header, &words, notice.as_str()) {
                Some(area) => Some((area, notice)),
                None => None,
            }
        },
        None => None,
    };
    let mut bar: Vec<Line> = Vec::new();
    add_line(&mut bar, words);
    proof {
        assert(lines_view(bar@) =~= seq![header_spans(shown.secs)]);
    }
    add_panel(
        panels,
        screen.header,
        Content::Lines { border: Border::Toned(Tone::Accent), lines: bar, wrap: false },
    );
    proof {
        assert(panel_views(panels@) =~= start + header_panel(*screen, *shown));
    }
    match badge_at {
        Some((area, notice)) => {
            let mut lines: Vec<Line> = Vec::new();
            add_line(&mut lines, line_of(notice.as_str(), Tone::Notice));
            proof {
                assert(lines_view(lines@) =~= seq![seq![toned(notice@, Tone::Notice)]]);
            }
            add_panel(panels, area, Content::Lines { border: Border::Bare, lines, wrap: false });
        },
        None => {},
    }
    proof {
        assert(panel_views(panels@) =~= start + header_panel(*screen, *shown) + badge_panel(
            app@,
            *screen,
            *shown,
        ));
    }
}

/// Adds the panels between the header and the popups.
fn add_body(panels: &mut Vec<Panel>, app: &App, screen: &Screen, shown: &Shown)
    requires
        app.well_formed(),
    ensures
        panel_views(final(panels)@) == panel_views(old(panels)@) + body_panels(
            app@,
            *screen,
            *shown,
        ),
{
    let ghost start = panel_views(panels@);
    add_panel(panels, screen.controls, Content::Controls { selected: app.selected });
    add_panel(
        panels,
        screen.status,
        Content::Words {
            border: Border::Titled("Status".to_owned()),
            words: status(app),
            wrap: true,
        },
    );
    let middle: Panel = detail(app, screen.detail, shown.cpu.as_str(), shown.gpu.as_str());
    add_panel(panels, middle.area, middle.content);
    add_panel(
        panels,
        screen.help,
        Content::Lines {
            border: Border::Titled("Help".to_owned()),
            lines: help(app),
            wrap: true,
        },
    );
    add_panel(
        panels,
        screen.footer,
        Content::Words { border: Border::Toned(Tone::Muted), words: footer(app), wrap: false },
    );
    proof {
        assert(panel_views(panels@) =~= start + body_panels(app@, *screen, *shown));
    }
}

/// Adds the popup in which a value is typed, where one is being edited.
fn add_edit(panels: &mut Vec<Panel>, app: &App, popup: Area)
    ensures
        panel_views(final(panels)@) == panel_views(old(panels)@) + edit_panel(app@, popup),
{
    let ghost start = panel_views(panels@);
    match (app.focus, app.editing) {
        (Focus::Editing, Some(target)) => {
            add_panel(panels, popup, Content::Blank);
            add_panel(
                panels,
                popup,
                Content::Lines {
                    border: Border::Popup("Edit value".to_owned()),
                    lines: edit_popup(app.input.as_str(), target),
                    wrap: true,
                },
            );
        },
        _ => {},
    }
    proof {
        assert(panel_views(panels@) =~= start + edit_panel(app@, popup));
    }
}

/// Adds the popup that asks for confirmation, where one is wanted.
fn add_question(panels: &mut Vec<Panel>, app: &App, popup: Area)
    ensures
        panel_views(final(panels)@) == panel_views(old(panels)@) + question_panel(app@, popup),
{
    let ghost start = panel_views(panels@);
    match &app.confirm {
        Some(confirm) => {
            add_panel(panels, popup, Content::Blank);
            add_panel(
                panels,
                popup,
                Content::Lines {
                    border: Border::Popup("Confirm".to_owned()),
                    lines: confirm_popup(confirm.message.as_str()),
                    wrap: true,
                },
            );
        },
        None => {},
    }
    proof {
        assert(panel_views(panels@) =~= start + question_panel(app@, popup));
    }
}

/// The panels in the order in which they are drawn, given where the parts of the
/// screen and the popups are.
pub fn compose(app: &App, screen: &Screen, shown: &Shown, edit: Area, question: Area) -> (r: Vec<
    Panel,
>)
    requires
        app.well_formed(),
        screen.header.x + screen.header.width <= u16::MAX,
    ensures
        panel_views(r@) == picture(app@, *screen, *shown, edit, question),
{
    let mut panels: Vec<Panel> = Vec::new();
    proof {
        assert(panel_views(panels@) =~= Seq::empty());
        assert(panel_views(panels@) + header_panel(*screen, *shown) =~= header_panel(
            *screen,
            *shown,
        ));
    }
    add_header(&mut panels, app, screen, shown);
    add_body(&mut panels, app, screen, shown);
    add_edit(&mut panels, app, edit);
    add_question(&mut panels, app, question);
    panels
}

/// Whether a popup of the given size stands where [`centered_rect`] puts it.
pub open spec fn popup_fits(percent_x: u16, rows: u16, area: Area, popup: Area) -> bool {
    &&& area.x <= popup.x
    &&& area.y <= popup.y
    &&& popup.x + popup.width <= area.x + area.width
    &&& popup.y + popup.height <= area.y + area.height
    &&& centred(Side::Vertical, Extent::Length(rows), popup, area)
    &&& centred(Side::Horizontal, Extent::Percentage(percent_x), popup, area)
}

/// The panels that make up the picture on a screen.
pub fn draw(app: &App, area: Area, shown: &Shown) -> (r: Vec<Panel>)
    requires
        app.well_formed(),
        area.x + area.width <= u16::MAX,
        area.y + area.height <= u16::MAX,
    ensures
        exists|screen: Screen, edit: Area, question: Area|
            {
                &&& screen.area == area
                &&& screen.laid_out()
                &&& popup_fits(56, 7, area, edit)
                &&& popup_fits(50, 5, area, question)
                &&& panel_views(r@) == #[trigger] picture(app@, screen, *shown, edit, question)
            },
{
    let screen: Screen = Screen::new(area);
    let edit: Area = centered_rect(56, 7, area);
    let question: Area = centered_rect(50, 5, area);
    proof {
        let bands = seq![screen.header, screen.body, screen.footer];
        assert(lies_in(Side::Vertical, bands[0], area));
    }
    let panels: Vec<Panel> = compose(app, &screen, shown, edit, question);
    proof {
        assert(panel_views(panels@) == picture(app@, screen, *shown, edit, question));
    }
    panels
}

// --- Laws ---

/// Every part of the screen lies on the screen.
pub proof fn law_panels_stay_on_the_screen(screen: Screen)
    requires
        screen.laid_out(),
        screen.area.x + screen.area.width <= u16::MAX,
        screen.area.y + screen.area.height <= u16::MAX,
    ensures
        contains(screen.area, screen.header),
        contains(screen.area, screen.footer),
        contains(screen.area, screen.controls),
        contains(screen.area, screen.status),
        contains(screen.area, screen.detail),
        contains(screen.area, screen.help),
{
    let bands = seq![screen.header, screen.body, screen.footer];
    assert(lies_in(Side::Vertical, bands[0], screen.area));
    assert(lies_in(Side::Vertical, bands[1], screen.area));
    assert(lies_in(Side::Vertical, bands[2], screen.area));
    let columns = seq![screen.left, screen.right];
    assert(lies_in(Side::Horizontal, columns[0], screen.body));
    assert(lies_in(Side::Horizontal, columns[1], screen.body));
    let left = seq![screen.controls, screen.status];
    assert(lies_in(Side::Vertical, left[0], screen.left));
    assert(lies_in(Side::Vertical, left[1], screen.left));
    let right = seq![screen.detail, screen.help];
    assert(lies_in(Side::Vertical, right[0], screen.right));
    assert(lies_in(Side::Vertical, right[1], screen.right));
}

/// The screen fits into the range of coordinates.
pub open spec fn in_range(area: Area) -> bool {
    area.x + area.width <= u16::MAX && area.y + area.height <= u16::MAX
}

/// What two parts ask for, and three.
proof fn lemma_sums(extents: Seq<Extent>, ask: spec_fn(Extent) -> int)
    ensures
        sum_of(extents, ask, 1) == ask(extents[0]),
        sum_of(extents, ask, 2) == ask(extents[0]) + ask(extents[1]),
        sum_of(extents, ask, 3) == ask(extents[0]) + ask(extents[1]) + ask(extents[2]),
{
    reveal_with_fuel(sum_of, 4);
}

/// The two bars are three rows each, at the two ends of the screen, and the body
/// has what is between them; both give way to the body on a screen of less than
/// eighteen rows, and are gone on one of no more than twelve.
pub proof fn law_the_bars_are_three_rows(screen: Screen)
    requires
        screen.laid_out(),
        in_range(screen.area),
    ensures
        screen.header.y == screen.area.y,
        screen.body.y == screen.header.y + screen.header.height,
        screen.footer.y == screen.body.y + screen.body.height,
        screen.footer.y + screen.footer.height == screen.area.y + screen.area.height,
        screen.area.height >= 18 ==> screen.header.height == 3 && screen.footer.height == 3,
        12 <= screen.area.height < 18 ==> screen.body.height == 12 && screen.header.height <= 3
            && screen.footer.height <= 3,
        screen.area.height <= 12 ==> screen.header.height == 0 && screen.footer.height == 0,
        screen.header.x == screen.body.x == screen.footer.x == screen.area.x,
        screen.header.width == screen.body.width == screen.footer.width == screen.area.width,
{
    let extents = seq![Extent::Length(3), Extent::Min(12), Extent::Length(3)];
    let parts = seq![screen.header, screen.body, screen.footer];
    lemma_sums(extents, |e: Extent| request_of(e));
    lemma_sums(extents, |e: Extent| minimum_of(e));
    assert(extents[0] is Length && extents[1] is Min && extents[2] is Length);
    assert(parts[0] == screen.header && parts[1] == screen.body && parts[2] == screen.footer);
    assert(parts.last() == screen.footer);
}

/// The left column takes thirty-eight hundredths of the body, rounded, and the
/// right one the rest.
pub proof fn law_the_columns_fill_the_body(screen: Screen)
    requires
        screen.laid_out(),
        in_range(screen.area),
    ensures
        screen.left.x == screen.body.x,
        screen.left.width == rounded(38 * screen.body.width),
        screen.right.x == screen.left.x + screen.left.width,
        screen.left.width + screen.right.width == screen.body.width,
        screen.left.y == screen.right.y == screen.body.y,
        screen.left.height == screen.right.height == screen.body.height,
{
    law_the_bars_are_three_rows(screen);
    let extents = seq![Extent::Percentage(38), Extent::Percentage(62)];
    let parts = seq![screen.left, screen.right];
    let width = screen.body.width as int;
    lemma_sums(extents, |e: Extent| share_of(e));
    assert(shares(extents, 1) * width == 38 * width);
    assert(shares(extents, 2) * width == 100 * width);
    assert(extents[0] is Percentage && extents[1] is Percentage);
    assert(parts[0] == screen.left && parts[1] == screen.right);
    assert(lies_in(Side::Horizontal, parts[0], screen.body));
    assert(lies_in(Side::Horizontal, parts[1], screen.body));
}

/// Two panels one above the other fill their column: the lower one has the rows
/// it was given where the upper one keeps its minimum, and else what is left.
proof fn lemma_two_panels(least: u16, rows: u16, column: Area, upper: Area, lower: Area)
    requires
        divides(
            Side::Vertical,
            Placing::Start,
            seq![Extent::Min(least), Extent::Length(rows)],
            column,
            seq![upper, lower],
        ),
        column.y + column.height <= u16::MAX,
        least <= i16::MAX,
    ensures
        upper.y == column.y,
        lower.y == upper.y + upper.height,
        upper.height + lower.height == column.height,
        upper.x == lower.x == column.x,
        upper.width == lower.width == column.width,
        lower.height == if least + rows <= column.height {
            rows as int
        } else if least <= column.height {
            column.height - least
        } else {
            0
        },
{
    let extents = seq![Extent::Min(least), Extent::Length(rows)];
    let parts = seq![upper, lower];
    lemma_sums(extents, |e: Extent| request_of(e));
    lemma_sums(extents, |e: Extent| minimum_of(e));
    assert(extents[0] is Min && extents[1] is Length);
    assert(parts[0] == upper && parts[1] == lower && parts.last() == lower);
    assert(lies_in(Side::Vertical, parts[0], column));
    assert(lies_in(Side::Vertical, parts[1], column));
}

/// The panels fill their columns. Those below, of four and five rows, shrink
/// first on a short screen.
pub proof fn law_the_panels_fill_their_columns(screen: Screen)
    requires
        screen.laid_out(),
        in_range(screen.area),
    ensures
        screen.controls.y == screen.left.y,
        screen.status.y == screen.controls.y + screen.controls.height,
        screen.controls.height + screen.status.height == screen.left.height,
        screen.left.height >= 14 ==> screen.status.height == 4,
        10 <= screen.left.height < 14 ==> screen.controls.height == 10,
        screen.left.height <= 10 ==> screen.status.height == 0,
        screen.controls.x == screen.status.x == screen.left.x,
        screen.controls.width == screen.status.width == screen.left.width,
        screen.detail.y == screen.right.y,
        screen.help.y == screen.detail.y + screen.detail.height,
        screen.detail.height + screen.help.height == screen.right.height,
        screen.right.height >= 17 ==> screen.help.height == 5,
        12 <= screen.right.height < 17 ==> screen.detail.height == 12,
        screen.right.height <= 12 ==> screen.help.height == 0,
        screen.detail.x == screen.help.x == screen.right.x,
        screen.detail.width == screen.help.width == screen.right.width,
{
    law_the_bars_are_three_rows(screen);
    law_the_columns_fill_the_body(screen);
    lemma_two_panels(10, 4, screen.left, screen.controls, screen.status);
    lemma_two_panels(12, 5, screen.right, screen.detail, screen.help);
}

/// There is one layout for a screen, but for how the two bars share the rows that
/// the body leaves them on thirteen to seventeen rows.
pub proof fn law_the_layout_is_fixed(a: Screen, b: Screen)
    requires
        a.laid_out(),
        b.laid_out(),
        a.area == b.area,
        in_range(a.area),
        a.area.height >= 18 || a.header.height == b.header.height,
    ensures
        a == b,
{
    law_the_bars_are_three_rows(a);
    law_the_bars_are_three_rows(b);
    law_the_columns_fill_the_body(a);
    law_the_columns_fill_the_body(b);
    law_the_panels_fill_their_columns(a);
    law_the_panels_fill_their_columns(b);
}

/// There is one place for a popup that takes up an even percentage of the width.
pub proof fn law_popups_have_one_place(
    percent_x: u16,
    rows: u16,
    area: Area,
    a: Area,
    b: Area,
)
    requires
        percent_x <= 100,
        percent_x % 2 == 0,
        popup_fits(percent_x, rows, area, a),
        popup_fits(percent_x, rows, area, b),
    ensures
        a == b,
{
    let half = percent_x / 2;
    assert((percent_x * area.width) % 2 == 0) by {
        assert(percent_x * area.width == 2 * (half * area.width)) by (nonlinear_arith)
            requires
                percent_x == 2 * half,
        ;
    }
}

/// Whether an area lies within another.
pub open spec fn contains(outer: Area, part: Area) -> bool {
    &&& outer.x <= part.x
    &&& outer.y <= part.y
    &&& part.x + part.width <= outer.x + outer.width
    &&& part.y + part.height <= outer.y + outer.height
}

/// The badge stands inside the header, on its row of text, at the right-hand
/// end, and leaves the header's words and two more columns free.
pub proof fn law_the_badge_does_not_cover_the_header(header: Area, words: int, badge: int)
    requires
        0 <= words,
        0 <= badge,
        header.x + header.width <= u16::MAX,
        header.y + header.height <= u16::MAX,
    ensures
        badge_place(header, words, badge) matches Some(area) ==> {
            &&& contains(header, area)
            &&& area.x >= header.x + 1 + words + 2
            &&& area.x + area.width == header.x + header.width - 1
            &&& area.y == header.y + 1
            &&& area.width == badge
        },
{
}

/// At most one of the two popups is up while the focus follows what is open.
pub proof fn law_one_popup_at_a_time(app: AppView, popup: Area)
    requires
        app.coherent(),
    ensures
        edit_panel(app, popup).len() == 0 || question_panel(app, popup).len() == 0,
{
}

/// The words in one place of a line.
pub open spec fn words_at(lines: Seq<Line>, row: int, part: int) -> Seq<char> {
    lines[row]@[part].text@
}

proof fn lemma_words_at(lines: Seq<Line>, row: int, part: int)
    requires
        0 <= row < lines.len(),
        0 <= part < lines_view(lines)[row].len(),
    ensures
        words_at(lines, row, part) == lines_view(lines)[row][part].text,
        lines[row]@[part].tone == lines_view(lines)[row][part].tone,
        lines[row]@.len() == lines_view(lines)[row].len(),
{
    assert(lines_view(lines)[row] == line_view(lines[row]@));
    assert(line_view(lines[row]@)[part] == lines[row]@[part]@);
}

/// The dashboard shows every setting and temperature in its own row, and below
/// them every fan with its reading. A setting without effect is marked with the
/// reason, and no other is.
#[verifier::rlimit(30)]
pub proof fn law_the_dashboard_shows_what_was_read(
    app: &App,
    cpu: &str,
    gpu: &str,
    r: Vec<Line>,
    i: int,
)
    requires
        call_ensures(dashboard, (app, cpu, gpu), r),
    ensures
        r@.len() == 10 + if app.fans@.len() == 0 {
            0int
        } else {
            2 + app.fans@.len() as int
        },
        words_at(r@, 0, 1) == sysfs::name_text(sysfs::FAN_MODES@, app.hw.fan_mode),
        words_at(r@, 1, 1) == sysfs::value_text(app.hw.fan_custom_speed),
        words_at(r@, 2, 1) == sysfs::name_text(sysfs::CHARGE_MODES@, app.hw.charge_mode),
        words_at(r@, 3, 1) == sysfs::value_text(app.hw.charge_limit),
        words_at(r@, 4, 1) == sysfs::boost_text(app.hw.gpu_boost),
        words_at(r@, 5, 1) == sysfs::cycle_text(sysfs::text_view(app.hw.battery_cycle)),
        words_at(r@, 6, 1) == sysfs::light_text(sysfs::text_view(app.hw.light_sensor)),
        words_at(r@, 7, 1) == sysfs::value_text(app.hw.fan_pwm),
        words_at(r@, 8, 1) == cpu@,
        words_at(r@, 9, 1) == gpu@,
        text::begins(words_at(r@, 0, 0), "Fan mode"@),
        text::begins(words_at(r@, 1, 0), "Fan speed"@),
        text::begins(words_at(r@, 2, 0), "Charge mode"@),
        text::begins(words_at(r@, 3, 0), "Charge limit"@),
        text::begins(words_at(r@, 4, 0), "GPU boost"@),
        text::begins(words_at(r@, 5, 0), "Battery cycle"@),
        text::begins(words_at(r@, 6, 0), "Light sensor"@),
        text::begins(words_at(r@, 7, 0), "Fan PWM"@),
        text::begins(words_at(r@, 8, 0), "CPU temp"@),
        text::begins(words_at(r@, 9, 0), "GPU temp"@),
        r@[1]@.len() == if app.hw.inert_text(Dependent::FanCustomSpeed) is Some {
            3int
        } else {
            2int
        },
        r@[3]@.len() == if app.hw.inert_text(Dependent::ChargeLimit) is Some {
            3int
        } else {
            2int
        },
        0 <= i < app.fans@.len() ==> {
            &&& words_at(r@, 12 + i, 1) == sensors::reading_text(
                app.fans@[i].rpm,
                app.fans@[i].pwm,
            )
            &&& text::begins(words_at(r@, 12 + i, 0), app.fans@[i].name@)
        },
{
    let lines = lines_view(r@);
    assert(lines.len() == r@.len());
    let rows = setting_rows(app.hw, cpu@, gpu@);
    assert forall|k: int| 0 <= k < 10 implies #[trigger] lines[k] == rows[k] by {
    }
    lemma_row(r@, 0, rows[0], "Fan mode"@);
    lemma_row(r@, 1, rows[1], "Fan speed"@);
    lemma_row(r@, 2, rows[2], "Charge mode"@);
    lemma_row(r@, 3, rows[3], "Charge limit"@);
    lemma_row(r@, 4, rows[4], "GPU boost"@);
    lemma_row(r@, 5, rows[5], "Battery cycle"@);
    lemma_row(r@, 6, rows[6], "Light sensor"@);
    lemma_row(r@, 7, rows[7], "Fan PWM"@);
    lemma_row(r@, 8, rows[8], "CPU temp"@);
    lemma_row(r@, 9, rows[9], "GPU temp"@);
    if 0 <= i < app.fans@.len() {
        let fans = app@.fans;
        assert(fans[i] == app.fans@[i]@);
        assert(lines[12 + i] == fan_rows(fans, fans.len())[i]);
        lemma_row(r@, 12 + i, fan_rows(fans, fans.len())[i], fans[i].name);
    }
}

proof fn lemma_row(lines: Seq<Line>, row: int, spans: Seq<SpanView>, label: Seq<char>)
    requires
        0 <= row < lines.len(),
        lines_view(lines)[row] == spans,
        spans.len() >= 2,
        spans[0].text == text::left_aligned(label, 15),
    ensures
        words_at(lines, row, 1) == spans[1].text,
        text::begins(words_at(lines, row, 0), label),
        lines[row]@.len() == spans.len(),
{
    lemma_words_at(lines, row, 0);
    lemma_words_at(lines, row, 1);
    assert(text::left_aligned(label, 15).take(label.len() as int) =~= label);
}

/// The table shows each point of the curve in its own row, with its place, its
/// temperature and its speed; the cell that the keys act on is marked, and no
/// other.
pub proof fn law_the_table_shows_every_point(app: &App, r: Vec<Line>, i: int)
    requires
        call_ensures(fan_curve_table, (app,), r),
        app.fan_curve is Some,
        0 <= i < app.fan_curve->0@.len(),
    ensures
        ({
            let point = app.fan_curve->0@[i];
            let here = app.focus is FanCurveList && app.curve_row == i;
            &&& r@.len() == 1 + app.fan_curve->0@.len()
            &&& text::includes(words_at(r@, 1 + i, 0), text::decimal(i as nat))
            &&& text::finishes(words_at(r@, 1 + i, 1), text::decimal_int(point.0 as int))
            &&& text::finishes(words_at(r@, 1 + i, 3), text::decimal_int(point.1 as int))
            &&& r@[1 + i]@[1].tone is Selected <==> here && app.curve_column is Temp
            &&& r@[1 + i]@[3].tone is Selected <==> here && app.curve_column is Speed
        }),
{
    let lines = lines_view(r@);
    assert(lines.len() == r@.len());
    let curve = app.fan_curve->0@;
    let point = curve[i];
    let row = table_row(app@, i, point);
    assert(lines[1 + i] == table_rows(app@, curve, curve.len())[i]);
    assert(lines[1 + i] == row);
    lemma_words_at(r@, 1 + i, 0);
    lemma_words_at(r@, 1 + i, 1);
    lemma_words_at(r@, 1 + i, 3);
    let number = text::decimal(i as nat);
    let cell = text::right_aligned(number, 3) + "  "@;
    let pad = text::spaces(3 - number.len()).len() as int;
    assert(cell.subrange(pad, pad + number.len()) =~= number);
    assert(text::occurs_at(cell, number, pad));
    lemma_right_aligned(text::decimal_int(point.0 as int), 9);
    lemma_right_aligned(text::decimal_int(point.1 as int), 13);
}

proof fn lemma_right_aligned(s: Seq<char>, width: int)
    ensures
        text::finishes(text::right_aligned(s, width), s),
{
    let full = text::right_aligned(s, width);
    assert(full.skip(full.len() - s.len()) =~= s);
}

proof fn lemma_entry_lines(app: AppView, n: nat, i: int)
    requires
        0 <= i < n <= app.profiles.len(),
    ensures
        entry_lines(app, n).len() == 2 * n,
        entry_lines(app, n)[2 * i].len() == 1,
        entry_lines(app, n)[2 * i][0].text == entry_text(
            app.focus is ProfileList && i == app.profile_row,
            app.profiles[i].0,
            app.profiles[i].1,
        ),
        entry_lines(app, n)[2 * i + 1].len() == 1,
        entry_lines(app, n)[2 * i + 1][0].text == "    "@ + summary_text(app.profiles[i].1),
    decreases n,
{
    if n > 1 {
        lemma_entry_lines(
            app,
            (n - 1) as nat,
            if i < n - 1 {
                i
            } else {
                0
            },
        );
    } else {
        assert(entry_lines(app, 0) =~= Seq::<Seq<SpanView>>::empty());
    }
}

/// The list shows every profile by its name, with the power profile that it is
/// mapped to and a summary below; the selected one is marked while the list has
/// the keyboard, and no other.
pub proof fn law_the_list_shows_every_profile(app: &App, r: Vec<Line>, i: int)
    requires
        call_ensures(profile_list, (app,), r),
        0 <= i < app.profiles@.len(),
    ensures
        ({
            let (name, p) = app@.profiles[i];
            let marked = app.focus is ProfileList && i == app.profile_row;
            let mark = if marked {
                "> "@
            } else {
                "  "@
            };
            &&& r@.len() == 2 * app.profiles@.len()
            &&& text::begins(words_at(r@, 2 * i, 0), mark + name)
            &&& p.ppd_profile is None ==> words_at(r@, 2 * i, 0) == mark + name
            &&& p.ppd_profile matches Some(power) ==> text::finishes(
                words_at(r@, 2 * i, 0),
                power,
            )
            &&& words_at(r@, 2 * i + 1, 0) == "    "@ + summary_text(p)
        }),
{
    reveal_strlit(">");
    reveal_strlit(" ");
    reveal_strlit("> ");
    reveal_strlit("  ");
    reveal_strlit("");
    let (name, p) = app@.profiles[i];
    let marked = app.focus is ProfileList && i == app.profile_row;
    let lines = lines_view(r@);
    assert(lines.len() == r@.len());
    lemma_entry_lines(app@, app@.profiles.len(), i);
    lemma_words_at(r@, 2 * i, 0);
    lemma_words_at(r@, 2 * i + 1, 0);
    let words = entry_text(marked, name, p);
    let mark = if marked {
        "> "@
    } else {
        "  "@
    };
    assert(words.take((mark + name).len() as int) =~= mark + name);
    if p.ppd_profile is None {
        assert(words =~= mark + name);
    } else {
        let power = p.ppd_profile->0;
        assert(words.skip(words.len() - power.len()) =~= power);
    }
}

/// A summary names everything that a profile sets, and says so where it sets
/// nothing.
pub proof fn law_a_summary_names_every_setting(p: Profile, r: String)
    requires
        call_ensures(profile_summary, (&p,), r),
    ensures
        ({
            let parts = summary_parts(p@);
            &&& parts.len() > 0 ==> r@ == text::joined(parts, ", "@)
            &&& p.fan_mode is None && p.fan_custom_speed is None && p.charge_limit is None
                && p.gpu_boost is None && p.fan_curve is None <==> parts.len() == 0
            &&& parts.len() == 0 ==> r@ == "empty"@
            &&& p.fan_mode matches Some(mode) ==> parts.contains("fan "@ + mode@)
            &&& p.fan_custom_speed matches Some(v) ==> parts.contains(
                "speed "@ + text::decimal_int(v as int),
            )
            &&& p.charge_limit matches Some(v) ==> parts.contains(
                "charge "@ + text::decimal_int(v as int) + "%"@,
            )
            &&& p.gpu_boost matches Some(word) ==> parts.contains("boost "@ + word@)
            &&& p.fan_curve is Some ==> parts.contains("curve"@)
        }),
{
    let parts = summary_parts(p@);
    let a: int = if p.fan_mode is Some {
        1
    } else {
        0
    };
    let b: int = a + if p.fan_custom_speed is Some {
        1int
    } else {
        0
    };
    let c: int = b + if p.charge_limit is Some {
        1int
    } else {
        0
    };
    let d: int = c + if p.gpu_boost is Some {
        1int
    } else {
        0
    };
    if p.fan_mode is Some {
        assert(parts[0] == "fan "@ + p.fan_mode->0@);
    }
    if p.fan_custom_speed is Some {
        assert(parts[a] == "speed "@ + text::decimal_int(p.fan_custom_speed->0 as int));
    }
    if p.charge_limit is Some {
        assert(parts[b] == "charge "@ + text::decimal_int(p.charge_limit->0 as int) + "%"@);
    }
    if p.gpu_boost is Some {
        assert(parts[c] == "boost "@ + p.gpu_boost->0@);
    }
    if p.fan_curve is Some {
        assert(parts[d] == "curve"@);
    }
}

/// The status bar says what happened last, and while something is typed what it is
/// for and what stands there so far.
pub proof fn law_the_status_follows_the_typing(app: &App, r: String)
    requires
        call_ensures(status, (app,), r),
    ensures
        app.focus is Editing && app.editing is Some ==> text::finishes(r@, app.input@),
        !(app.focus is Editing && app.editing is Some) ==> r@ == app.status@,
{
    if app.focus is Editing && app.editing is Some {
        assert(r@.skip(r@.len() - app.input@.len()) =~= app.input@);
    }
}

/// The popups show what is typed and what is asked.
pub proof fn law_popups_show_what_they_are_about(
    input: &str,
    target: EditTarget,
    message: &str,
    edit: Vec<Line>,
    question: Vec<Line>,
)
    requires
        call_ensures(edit_popup, (input, target), edit),
        call_ensures(confirm_popup, (message,), question),
    ensures
        edit@.len() == 5,
        words_at(edit@, 2, 1) == input@,
        question@.len() == 3,
        words_at(question@, 0, 0) == message@,
{
    assert(lines_view(edit@).len() == edit@.len());
    assert(lines_view(question@).len() == question@.len());
    lemma_words_at(edit@, 2, 1);
    lemma_words_at(question@, 0, 0);
}

/// The panel beside the controls shows what the selected row is about: the curve
/// as a chart or as a table, the history, the profiles, or the current values; the
/// table and the list stay while they have the keyboard.
pub proof fn law_the_panel_shows_what_is_selected(
    app: &App,
    area: Area,
    cpu: &str,
    gpu: &str,
    values: Vec<Line>,
    table: Vec<Line>,
    profiles: Vec<Line>,
    r: Panel,
)
    requires
        call_ensures(detail, (app, area, cpu, gpu), r),
        call_ensures(dashboard, (app, cpu, gpu), values),
        call_ensures(fan_curve_table, (app,), table),
        call_ensures(profile_list, (app,), profiles),
    ensures
        ({
            let item = app@.item();
            let other = !(item is FanCurveView) && !(item is FanCurveEdit) && !(item is History)
                && !(item is Profiles);
            let shown = match r.content {
                Content::Lines { lines, .. } => lines_view(lines@),
                _ => Seq::empty(),
            };
            &&& r.area == area
            &&& item is FanCurveView && app.fan_curve is Some ==> (
            r.content matches Content::Curve { points, .. } && points@ == app.fan_curve->0@)
            &&& item is History ==> r.content is History
            &&& item is FanCurveEdit || other && app.focus is FanCurveList ==> shown
                == lines_view(table@)
            &&& item is Profiles || other && app.focus is ProfileList ==> shown == lines_view(
                profiles@,
            )
            &&& other && !(app.focus is FanCurveList) && !(app.focus is ProfileList) ==> shown
                == lines_view(values@)
        }),
{
    let item = app@.item();
    assert(r@.content == detail_content(app@, cpu@, gpu@));
}

/// The header says how long ago the values were read, and a badge names the
/// release to update to.
pub proof fn law_the_bar_says_how_old_the_values_are(
    secs: u64,
    line: Line,
    current: &str,
    version: &str,
    words: String,
)
    requires
        call_ensures(header, (secs,), line),
        call_ensures(badge, (current, version), words),
    ensures
        line@.len() == 7,
        line@[6].text@ == "last refresh: "@ + text::decimal(secs as nat) + "s ago"@,
        words@ == " ↑ update "@ + current@ + " → "@ + version@ + " "@,
{
    let view = line_view(line@);
    assert(view.len() == line@.len());
    assert(view[6] == line@[6]@);
}

/// The badge is shown exactly where it fits beside the words of the header with
/// two columns between them, at the right-hand end.
pub proof fn law_the_badge_is_shown_where_it_fits(
    header: Area,
    words: u16,
    badge: u16,
    r: Option<Area>,
)
    requires
        call_ensures(update_badge_area, (header, words, badge), r),
        header.x + header.width <= u16::MAX,
        header.y + header.height <= u16::MAX,
        header.width >= 2,
        header.height >= 2,
    ensures
        r is Some <==> words + badge + 2 <= header.width - 2,
        r matches Some(area) ==> {
            &&& area.x + area.width == header.x + header.width - 1
            &&& area.y == header.y + 1
            &&& area.width == badge
            &&& area.height == 1
        },
{
}

/// The panels are drawn each in its own part of the screen: the header first,
/// the popups last.
pub proof fn law_every_panel_has_its_part(
    app: &App,
    screen: Screen,
    shown: Shown,
    edit: Area,
    question: Area,
    r: Vec<Panel>,
)
    requires
        call_ensures(compose, (app, &screen, &shown, edit, question), r),
        app.update is None,
    ensures
        ({
            let typing = app.focus is Editing && app.editing is Some;
            let asking = app.confirm is Some;
            let n = r@.len();
            &&& n == 6 + (if typing {
                2int
            } else {
                0
            }) + (if asking {
                2int
            } else {
                0
            })
            &&& r@[0].area == screen.header
            &&& r@[1].area == screen.controls
            &&& r@[1].content == (Content::Controls { selected: app.selected })
            &&& r@[2].area == screen.status
            &&& r@[3].area == screen.detail
            &&& r@[4].area == screen.help
            &&& r@[5].area == screen.footer
            &&& typing ==> r@[6].area == edit && r@[7].area == edit && r@[6].content is Blank
            &&& asking ==> r@[n - 2].area == question && r@[n - 1].area == question && r@[n
                - 2].content is Blank
        }),
{
    let panels = panel_views(r@);
    assert(panels.len() == r@.len());
    let n = r@.len() as int;
    let typing = app.focus is Editing && app.editing is Some;
    assert(badge_panel(app@, screen, shown) =~= Seq::<PanelView>::empty());
    assert(panels[0] == r@[0]@);
    assert(panels[1] == r@[1]@);
    assert(panels[2] == r@[2]@);
    assert(panels[3] == r@[3]@);
    assert(panels[4] == r@[4]@);
    assert(panels[5] == r@[5]@);
    if typing {
        assert(panels[6] == r@[6]@);
        assert(panels[7] == r@[7]@);
    }
    if app.confirm is Some {
        assert(panels[n - 2] == r@[n - 2]@);
        assert(panels[n - 1] == r@[n - 1]@);
    }
}

/// The colour of a mode follows its value: what is on or pushes the machine has one
/// colour, what is off or normal a second, what leaves it quiet a third.
#[verifier::rlimit(30)]
pub proof fn law_modes_have_their_colours(
    mode: i32,
    name: String,
    fan: Tone,
    charge_name: String,
    charge: Tone,
    word: &'static str,
    boost: Tone,
)
    requires
        0 <= mode < 6,
        call_ensures(sysfs::fan_mode_name, (Some(mode),), name),
        exists|s: &str| s@ == name@ && #[trigger] call_ensures(badge_style, (s,), fan),
        call_ensures(sysfs::charge_mode_name, (Some(mode),), charge_name),
        exists|s: &str| s@ == charge_name@ && #[trigger] call_ensures(badge_style, (s,), charge),
        call_ensures(sysfs::gpu_boost_name, (Some(mode),), word),
        call_ensures(badge_style, (word,), boost),
    ensures
        fan is Cpu <==> mode == 0,
        fan is Info <==> mode == 1 || mode == 4,
        fan is Gpu <==> mode == 2 || mode == 3 || mode == 5,
        mode < 2 ==> (charge is Cpu <==> mode == 0) && (charge is Gpu <==> mode == 1),
        boost is Cpu <==> mode == 0,
        boost is Gpu <==> mode != 0,
{
    reveal_strlit("ON");
    reveal_strlit("OFF");
    reveal_strlit("Custom");
    reveal_strlit("Gaming");
    reveal_strlit("Fixed");
    reveal_strlit("Normal");
    reveal_strlit("Silent");
    reveal_strlit("Auto");
    assert("ON"@.len() == 2 && "OFF"@.len() == 3 && "Auto"@.len() == 4 && "Fixed"@.len() == 5);
    assert("Custom"@.len() == 6 && "Gaming"@.len() == 6 && "Normal"@.len() == 6 && "Silent"@.len()
        == 6);
    assert("Custom"@[0] == 'C' && "Gaming"@[0] == 'G' && "Normal"@[0] == 'N' && "Silent"@[0]
        == 'S');
}

/// A curve that the fans do not follow is titled with the reason, and no other is.
pub proof fn law_an_idle_curve_is_titled_so(app: &App, base: &str, r: String, why: Option<&'static str>)
    requires
        call_ensures(fan_curve_title, (app, base), r),
        call_ensures(HwState::inactive_reason, (&app.hw, Dependent::FanCurve), why),
    ensures
        text::begins(r@, base@),
        why is None <==> r@ == base@,
        why matches Some(reason) ==> text::includes(r@, reason@),
{
    reveal_strlit(" (inactive — ");
    assert(r@.take(base@.len() as int) =~= base@);
    if let Some(reason) = why {
        let before = base@ + " (inactive — "@;
        let at = before.len() as int;
        assert(r@.subrange(at, at + reason@.len()) =~= reason@);
        assert(text::occurs_at(r@, reason@, at));
        assert(" (inactive — "@.len() > 0);
    }
}

/// The help names the profile or the row that the keys act on, and the footer the
/// release to update to while nothing is typed.
pub proof fn law_the_help_names_what_the_keys_act_on(app: &App, lines: Vec<Line>, foot: String)
    requires
        app.well_formed(),
        call_ensures(help, (app,), lines),
        call_ensures(footer, (app,), foot),
    ensures
        lines@.len() == 3,
        app.focus is ProfileList && app.profiles@.len() > 0 ==> words_at(lines@, 0, 1)
            == app@.profiles[app.profile_row as int].0,
        app.focus is Normal || app.focus is Editing ==> {
            &&& words_at(lines@, 0, 1) == app::item_title(app@.item())
            &&& words_at(lines@, 1, 1) == app::item_hint(app@.item())
        },
        app.update matches Some(version) ==> (text::includes(foot@, version@) || app.focus is Editing),
        app.update is None && !(app.focus is Editing) ==> foot@ == "Ready"@,
{
    assert(lines_view(lines@).len() == lines@.len());
    lemma_words_at(lines@, 0, 1);
    lemma_words_at(lines@, 1, 1);
    if app.update is Some && !(app.focus is Editing) {
        let version = app.update->0@;
        let at = "gigabytectl "@.len() as int;
        assert(foot@.subrange(at, at + version.len()) =~= version);
        assert(text::occurs_at(foot@, version, at));
    }
}

/// The bars hold their own words: the header its age, the status and the footer
/// theirs, the help the keys. Status and help are wrapped.
pub proof fn law_the_bars_hold_their_own_words(
    app: &App,
    screen: Screen,
    shown: Shown,
    edit: Area,
    question: Area,
    age: Line,
    said: String,
    keys: Vec<Line>,
    foot: String,
    r: Vec<Panel>,
)
    requires
        call_ensures(compose, (app, &screen, &shown, edit, question), r),
        call_ensures(header, (shown.secs,), age),
        call_ensures(status, (app,), said),
        call_ensures(help, (app,), keys),
        call_ensures(footer, (app,), foot),
        app.update is None,
    ensures
        r@.len() >= 6,
        r@[0].content matches Content::Lines { lines, wrap, .. } && !wrap && lines_view(lines@)
            == seq![line_view(age@)],
        r@[2].content matches Content::Words { words, wrap, .. } && wrap && words@ == said@,
        r@[4].content matches Content::Lines { lines, wrap, .. } && wrap && lines_view(lines@)
            == lines_view(keys@),
        r@[5].content matches Content::Words { words, wrap, .. } && !wrap && words@ == foot@,
{
    let panels = panel_views(r@);
    assert(panels.len() == r@.len());
    assert(badge_panel(app@, screen, shown) =~= Seq::<PanelView>::empty());
    assert(panels[0] == r@[0]@);
    assert(panels[2] == r@[2]@);
    assert(panels[4] == r@[4]@);
    assert(panels[5] == r@[5]@);
}

} // verus!
