//! The bar's configuration: its two groups of scheduled widgets, and the
//! refresh schedule each widget keeps.

use vstd::prelude::*;
use vstd::string::*;
use vstd::utf8::encode_utf8;

use crate::layout::Anchor;
use crate::text::same_text;
use crate::widgets::{frequency_of, refreshed, Battery, Level, PowerSupply, Reading, Stdin, Time, Widget, MPD};

verus! {

/// A refresh schedule: the interval and the time of the last refresh, both
/// in milliseconds.
pub type Schedule = Option<(u64, u64)>;

/// A refresh is due when more than the interval has passed since the last
/// one. A clock that went back makes none due.
pub open spec fn refresh_due(s: Schedule, now: u64) -> bool {
    match s {
        Some((freq, last)) => now >= last && now - last > freq,
        None => false,
    }
}

/// The schedule after a tick at `now`.
pub open spec fn after_tick(s: Schedule, now: u64) -> Schedule {
    match s {
        Some((freq, last)) => if refresh_due(s, now) {
            Some((freq, now))
        } else {
            s
        },
        None => None,
    }
}

/// The schedule after ticks at each of `times` in turn, and how many of
/// those ticks refreshed.
pub open spec fn after_ticks(s: Schedule, times: Seq<u64>) -> (Schedule, nat)
    decreases times.len(),
{
    if times.len() == 0 {
        (s, 0)
    } else {
        let (t, n) = after_ticks(s, times.drop_last());
        (after_tick(t, times.last()), if refresh_due(t, times.last()) {
            n + 1
        } else {
            n
        })
    }
}

/// The schedule a widget starts with at `now`: its interval, if it has one,
/// and a refresh at `now`.
pub open spec fn schedule_of(w: Widget, now: u64) -> Schedule {
    match frequency_of(w) {
        Some(f) => Some(((f * 1000) as u64, now)),
        None => None,
    }
}

/// A widget with its refresh schedule.
pub struct WidgetWrapper {
    pub update: Schedule,
    pub widget: Widget,
}

/// `r` is `widget` wrapped at `now`: scheduled from `now`, and, where it has
/// an interval, refreshed from what `read` returned for it.
pub open spec fn started<F: Fn(&Widget) -> Reading>(
    r: WidgetWrapper,
    widget: Widget,
    now: u64,
    read: F,
) -> bool {
    &&& r.update == schedule_of(widget, now)
    &&& match frequency_of(widget) {
        Some(_) => exists|rd: Reading|
            #[trigger] read.ensures((&widget,), rd) && refreshed(widget, r.widget, rd),
        None => r.widget == widget,
    }
}

impl WidgetWrapper {
    /// Wraps a widget created at `now`. A widget with an interval is
    /// refreshed first, from what `read` reads for it, so that it is never
    /// drawn with its default state; it counts as refreshed at `now`.
    pub fn new<F: Fn(&Widget) -> Reading>(widget: Widget, now: u64, read: &F) -> (r: WidgetWrapper)
        requires
            forall|w: &Widget| read.requires((w,)),
        ensures
            started(r, widget, now, *read),
    {
        let ghost w0 = widget;
        match widget.update_frequency() {
            Some(f) => {
                let reading = read(&widget);
                let mut w = widget;
                w.refresh(reading);
                WidgetWrapper { update: Some((f * 1000, now)), widget: w }
            },
            None => WidgetWrapper { update: None, widget },
        }
    }

    /// Whether the widget must be refreshed now. The tick at `now` counts as
    /// that refresh.
    pub fn update(&mut self, now: u64) -> (refresh: bool)
        ensures
            refresh == refresh_due(old(self).update, now),
            final(self).update == after_tick(old(self).update, now),
            final(self).widget == old(self).widget,
    {
        match self.update {
            Some((freq, last)) => {
                if now >= last && now - last > freq {
                    self.update = Some((freq, now));
                    true
                } else {
                    false
                }
            },
            None => false,
        }
    }
}

/// A widget refreshed at `t0` with interval `i` is not refreshed by a tick
/// before `t0 + i`, and is refreshed by any tick after it.
pub proof fn lemma_refresh_timing(i: u64, t0: u64, now: u64)
    ensures
        (now as int) < t0 + i ==> !refresh_due(Some((i, t0)), now),
        (now as int) > t0 + i ==> refresh_due(Some((i, t0)), now),
        refresh_due(Some((i, t0)), now) ==> after_tick(Some((i, t0)), now) == Some((i, now)),
{
}

/// Ticks that all come no later than one interval after the last refresh
/// refresh nothing and leave the schedule as it was.
pub proof fn lemma_no_refresh_within_interval(i: u64, t0: u64, times: Seq<u64>)
    requires
        forall|k: int| 0 <= k < times.len() ==> #[trigger] times[k] <= t0 + i,
    ensures
        after_ticks(Some((i, t0)), times) == (Some((i, t0)), 0nat),
    decreases times.len(),
{
    if times.len() > 0 {
        let rest = times.drop_last();
        assert forall|k: int| 0 <= k < rest.len() implies #[trigger] rest[k] <= t0 + i by {
            assert(rest[k] == times[k]);
        }
        lemma_no_refresh_within_interval(i, t0, rest);
    }
}

/// A widget without an interval is never refreshed, whatever the ticks.
pub proof fn lemma_unscheduled_never_refreshed(times: Seq<u64>)
    ensures
        after_ticks(None, times) == (None::<(u64, u64)>, 0nat),
    decreases times.len(),
{
    if times.len() > 0 {
        lemma_unscheduled_never_refreshed(times.drop_last());
    }
}

/// A colour as three components, each out of 255.
#[derive(Debug, Clone, Copy, PartialEq, Eq, Structural)]
pub struct Rgb {
    pub r: i64,
    pub g: i64,
    pub b: i64,
}

pub open spec fn is_hex(c: u8) -> bool {
    (48 <= c <= 57) || (65 <= c <= 70) || (97 <= c <= 102)
}

pub open spec fn hex_value(c: u8) -> int {
    if 48 <= c <= 57 {
        c - 48
    } else if 65 <= c <= 70 {
        c - 55
    } else {
        c - 87
    }
}

/// The text without every leading `0x`.
pub open spec fn without_0x(s: Seq<u8>) -> Seq<u8>
    decreases s.len(),
{
    if s.len() >= 2 && s[0] == 48 && s[1] == 120 {
        without_0x(s.subrange(2, s.len() as int))
    } else {
        s
    }
}

/// The text from its first hexadecimal digit on.
pub open spec fn from_first_hex(s: Seq<u8>) -> Seq<u8>
    decreases s.len(),
{
    if s.len() > 0 && !is_hex(s[0]) {
        from_first_hex(s.drop_first())
    } else {
        s
    }
}

/// One or two bytes read as a hexadecimal number: digits, or a sign and a digit.
pub open spec fn hex_number(d: Seq<u8>) -> Option<i64> {
    if d.len() == 1 && is_hex(d[0]) {
        Some(hex_value(d[0]) as i64)
    } else if d.len() == 2 && is_hex(d[0]) && is_hex(d[1]) {
        Some((16 * hex_value(d[0]) + hex_value(d[1])) as i64)
    } else if d.len() == 2 && d[0] == 43 && is_hex(d[1]) {
        Some(hex_value(d[1]) as i64)
    } else if d.len() == 2 && d[0] == 45 && is_hex(d[1]) {
        Some((-hex_value(d[1])) as i64)
    } else {
        None
    }
}

/// The colour a hexadecimal literal gives: after any `0x` and whatever comes
/// before the first digit, six digits in pairs or three digits one by one.
pub open spec fn color_of(input: Seq<u8>) -> Option<Rgb> {
    let s = from_first_hex(without_0x(input));
    let w: int = if s.len() == 6 {
        2
    } else {
        1
    };
    if s.len() == 6 || s.len() == 3 {
        match (
            hex_number(s.subrange(0, w)),
            hex_number(s.subrange(w, 2 * w)),
            hex_number(s.subrange(2 * w, 3 * w)),
        ) {
            (Some(r), Some(g), Some(b)) => Some(Rgb { r, g, b }),
            _ => None,
        }
    } else {
        None
    }
}

fn hex_digit(c: u8) -> (r: Option<i64>)
    ensures
        is_hex(c) ==> r == Some(hex_value(c) as i64),
        !is_hex(c) ==> r is None,
{
    if 48 <= c && c <= 57 {
        Some((c - 48) as i64)
    } else if 65 <= c && c <= 70 {
        Some((c - 55) as i64)
    } else if 97 <= c && c <= 102 {
        Some((c - 87) as i64)
    } else {
        None
    }
}

/// The number that `b[start..start + w]` holds, `w` being one or two.
fn hex_at(b: &[u8], start: usize, w: usize) -> (r: Option<i64>)
    requires
        w == 1 || w == 2,
        start + w <= b@.len(),
    ensures
        r == hex_number(b@.subrange(start as int, start + w)),
{
    let ghost d = b@.subrange(start as int, start + w);
    if w == 1 {
        hex_digit(b[start])
    } else {
        let first = b[start];
        match hex_digit(b[start + 1]) {
            None => None,
            Some(lo) => match hex_digit(first) {
                Some(hi) => Some(16 * hi + lo),
                None => if first == 43 {
                    Some(lo)
                } else if first == 45 {
                    Some(-lo)
                } else {
                    None
                },
            },
        }
    }
}

/// Reads a colour written as a hexadecimal literal (`0x1a2b3c`, `#fff`).
pub fn color_from_hex(input: &str) -> (r: Option<Rgb>)
    ensures
        r == color_of(input.spec_bytes()),
{
    let b = input.as_bytes();
    let n = b.len();
    let mut i: usize = 0;
    assert(b@.subrange(0, n as int) =~= b@);
    while i < n && n - i >= 2 && b[i] == 48 && b[i + 1] == 120
        invariant
            n == b@.len(),
            i <= n,
            without_0x(b@.subrange(i as int, n as int)) == without_0x(b@),
        decreases n - i,
    {
        assert(b@.subrange(i as int, n as int).subrange(2, n - i) =~= b@.subrange(i + 2, n as int));
        i = i + 2;
    }
    assert(without_0x(b@.subrange(i as int, n as int)) == b@.subrange(i as int, n as int));
    while i < n && hex_digit(b[i]).is_none()
        invariant
            n == b@.len(),
            i <= n,
            from_first_hex(b@.subrange(i as int, n as int)) == from_first_hex(without_0x(b@)),
        decreases n - i,
    {
        assert(b@.subrange(i as int, n as int).drop_first() =~= b@.subrange(i + 1, n as int));
        i = i + 1;
    }
    let ghost s = b@.subrange(i as int, n as int);
    assert(from_first_hex(s) == s);
    let len = n - i;
    if len != 6 && len != 3 {
        return None;
    }
    let w: usize = if len == 6 {
        2
    } else {
        1
    };
    assert(s.subrange(0, w as int) =~= b@.subrange(i as int, i + w));
    assert(s.subrange(w as int, 2 * w) =~= b@.subrange(i + w, i + 2 * w));
    assert(s.subrange(2 * w, 3 * w) =~= b@.subrange(i + 2 * w, i + 3 * w));
    match (hex_at(b, i, w), hex_at(b, i + w, w), hex_at(b, i + 2 * w, w)) {
        (Some(r), Some(g), Some(bl)) => Some(Rgb { r, g, b: bl }),
        _ => None,
    }
}

/// What a key of a configuration table holds, as far as the bar reads it.
pub enum Field {
    Missing,
    Text(String),
    Int(i64),
    Other,
}

/// One entry of the configuration's `widgets` list.
pub struct Section {
    pub name: Field,
    pub host: Field,
    pub port: Field,
}

/// What the bar reads of a configuration document. `widgets` is `None`
/// where the document has no list under that key; an entry of it is `None`
/// where it is not a table.
pub struct Document {
    pub widgets: Option<Vec<Option<Section>>>,
    pub background: Field,
    pub foreground: Field,
    pub font: Field,
}

/// The keys whose value must be text.
#[derive(Debug, Clone, Copy, PartialEq, Eq, Structural)]
pub enum Key {
    Background,
    Foreground,
    Font,
}

/// Why a configuration was refused.
#[derive(Debug)]
pub enum ConfigError {
    /// The widget list, an entry of it, or an entry's name has the wrong shape.
    Invalid,
    /// The key's value is not text.
    NotText(Key),
    /// The text is not a hexadecimal colour.
    BadColor(String),
    /// The music player's host is not text.
    MpdHost,
    /// The music player's port is not an integer.
    MpdPort,
    /// No widget goes by this name.
    NoWidget(String),
    /// A battery was asked for, but the power supplies could not be listed.
    NoPowerSupply,
}

/// The name that separates the left group from the right one.
pub open spec fn is_sep(sec: Option<Section>) -> bool {
    sec matches Some(s) && s.name matches Field::Text(n) && n@ == "sep"@
}

/// Whether the registry builds `w` for a section with name `n`.
pub open spec fn builds(w: Widget, n: Seq<char>, sec: Section, supply: Option<PowerSupply>) -> bool {
    if n == "box"@ {
        w is SmallBox
    } else if n == "battery"@ {
        supply matches Some(p) && w matches Widget::Battery(b) && b.file_list@.map_values(
            |f: String| f@,
        ) == p.capacity_files@.map_values(|f: String| f@) && b.charging == p.ac_file
            && b.last_status == (Level { sum: 100, count: 1 }) && !b.last_charging
    } else if n == "caesura"@ {
        w is Caesura
    } else if n == "mpd"@ {
        sec.host matches Field::Text(h) && sec.port matches Field::Int(port) && w matches Widget::Mpd(
            m,
        ) && m.host@ == h@ && m.port == port as usize && m.last_state is Stopped
    } else if n == "stdin"@ {
        w is Stdin
    } else if n == "time"@ {
        w is Time
    } else {
        false
    }
}

/// The error the registry gives for a section with name `n`, if any.
pub open spec fn refuses(e: ConfigError, n: Seq<char>, sec: Section, supply: Option<PowerSupply>) -> bool {
    if n == "box"@ || n == "caesura"@ || n == "stdin"@ || n == "time"@ {
        false
    } else if n == "battery"@ {
        supply is None && e is NoPowerSupply
    } else if n == "mpd"@ {
        if !(sec.host is Text) {
            e is MpdHost
        } else {
            !(sec.port is Int) && e is MpdPort
        }
    } else {
        e matches ConfigError::NoWidget(m) && m@ == n
    }
}

/// The registry accepts a section with name `n`.
pub open spec fn known(n: Seq<char>, sec: Section, supply: Option<PowerSupply>) -> bool {
    n == "box"@ || n == "caesura"@ || n == "stdin"@ || n == "time"@ || (n == "battery"@
        && supply is Some) || (n == "mpd"@ && sec.host is Text && sec.port is Int)
}

/// A copy of a list of texts.
fn copy_texts(v: &Vec<String>) -> (r: Vec<String>)
    ensures
        r@.map_values(|f: String| f@) == v@.map_values(|f: String| f@),
{
    let mut r: Vec<String> = Vec::new();
    let mut i: usize = 0;
    while i < v.len()
        invariant
            0 <= i <= v@.len(),
            r@.len() == i,
            forall|k: int| 0 <= k < i ==> #[trigger] r@[k] == v@[k],
        decreases v@.len() - i,
    {
        r.push(v[i].clone());
        i = i + 1;
    }
    assert(r@.map_values(|f: String| f@) =~= v@.map_values(|f: String| f@));
    r
}

/// Builds the widget a section names: `box`, `battery`, `caesura`, `mpd`
/// (with a text `host` and an integer `port`), `stdin` or `time`.
pub fn mk_widget(name: &str, section: &Section, supply: &Option<PowerSupply>) -> (r: Result<
    Widget,
    ConfigError,
>)
    ensures
        r matches Ok(w) ==> builds(w, name@, *section, *supply),
        r matches Err(e) ==> refuses(e, name@, *section, *supply),
        r is Ok <==> known(name@, *section, *supply),
{
    proof {
        reveal_strlit("mpd");
        reveal_strlit("stdin");
        reveal_strlit("time");
        reveal_strlit("box");
        reveal_strlit("battery");
        reveal_strlit("caesura");
        assert("mpd"@.len() == 3 && "stdin"@.len() == 5 && "time"@.len() == 4);
        assert("box"@.len() == 3 && "battery"@.len() == 7 && "caesura"@.len() == 7);
        assert("battery"@[0] != "caesura"@[0] && "box"@[0] != "mpd"@[0]);
    }
    if same_text(name, "box") {
        Ok(Widget::SmallBox(crate::widgets::SmallBox))
    } else if same_text(name, "battery") {
        match supply {
            Some(p) => {
                let copy = PowerSupply {
                    capacity_files: copy_texts(&p.capacity_files),
                    ac_file: match &p.ac_file {
                        Some(f) => Some(f.clone()),
                        None => None,
                    },
                };
                Ok(Widget::Battery(Battery::new(copy)))
            },
            None => Err(ConfigError::NoPowerSupply),
        }
    } else if same_text(name, "caesura") {
        Ok(Widget::Caesura(crate::widgets::Caesura))
    } else if same_text(name, "mpd") {
        let host = match &section.host {
            Field::Text(h) => h.clone(),
            _ => {
                return Err(ConfigError::MpdHost);
            },
        };
        let port = match section.port {
            Field::Int(p) => p,
            _ => {
                return Err(ConfigError::MpdPort);
            },
        };
        Ok(Widget::Mpd(MPD::new(host, #[verifier::truncate] (port as usize))))
    } else if same_text(name, "stdin") {
        Ok(Widget::Stdin(Stdin::new()))
    } else if same_text(name, "time") {
        Ok(Widget::Time(Time::new()))
    } else {
        Err(ConfigError::NoWidget(String::from_str(name)))
    }
}

/// The bar's configuration: the widgets of the left and right groups, in the
/// order they are drawn outward from their edge, and how the bar looks.
pub struct Config {
    pub left: Vec<WidgetWrapper>,
    pub right: Vec<WidgetWrapper>,
    /// `None` for the default colour.
    pub background: Option<Rgb>,
    /// `None` for the default colour.
    pub foreground: Option<Rgb>,
    pub font: String,
    pub height: i32,
    /// The gutter: the room between two widgets, between a widget and its
    /// edge, and above and below the content.
    pub buffer: i32,
}

/// The name a section gives, where it is text.
pub open spec fn section_name(sec: Option<Section>) -> Seq<char> {
    match sec {
        Some(s) => match s.name {
            Field::Text(n) => n@,
            _ => Seq::empty(),
        },
        None => Seq::empty(),
    }
}

/// A section is the separator or names a widget the registry builds.
pub open spec fn section_ok(sec: Option<Section>, supply: Option<PowerSupply>) -> bool {
    is_sep(sec) || (sec matches Some(s) && s.name is Text && known(section_name(sec), s, supply))
}

pub open spec fn all_ok(secs: Seq<Option<Section>>, supply: Option<PowerSupply>, n: int) -> bool {
    forall|i: int| 0 <= i < n ==> section_ok(#[trigger] secs[i], supply)
}

/// The error a refused section gives.
pub open spec fn section_refuses(e: ConfigError, sec: Option<Section>, supply: Option<PowerSupply>) -> bool {
    match sec {
        Some(s) => match s.name {
            Field::Text(n) => refuses(e, n@, s, supply),
            _ => e is Invalid,
        },
        None => e is Invalid,
    }
}

/// Of the first `n` sections: the positions of those before the first
/// separator, those of the widgets after it, and whether it was seen.
pub open spec fn groups(secs: Seq<Option<Section>>, n: int) -> (Seq<int>, Seq<int>, bool)
    decreases n,
{
    if n <= 0 {
        (Seq::empty(), Seq::empty(), false)
    } else {
        let (l, r, seen) = groups(secs, n - 1);
        if is_sep(secs[n - 1]) {
            (l, r, true)
        } else if seen {
            (l, r.push(n - 1), true)
        } else {
            (l.push(n - 1), r, false)
        }
    }
}

/// `w` is the widget a section names, started at `now` with `read`.
pub open spec fn widget_fits<F: Fn(&Widget) -> Reading>(
    w: WidgetWrapper,
    sec: Option<Section>,
    supply: Option<PowerSupply>,
    now: u64,
    read: F,
) -> bool {
    sec matches Some(s) && exists|w0: Widget|
        #[trigger] builds(w0, section_name(sec), s, supply) && started(w, w0, now, read)
}

/// A colour setting: `Some(None)` where absent, `Some(Some(c))` for a
/// colour literal, `None` where refused.
pub open spec fn color_setting(f: Field) -> Option<Option<Rgb>> {
    match f {
        Field::Missing => Some(None),
        Field::Text(t) => match color_of(encode_utf8(t@)) {
            Some(c) => Some(Some(c)),
            None => None,
        },
        _ => None,
    }
}

pub open spec fn color_refuses(e: ConfigError, f: Field, key: Key) -> bool {
    match f {
        Field::Text(t) => (e matches ConfigError::BadColor(s) && s@ == t@),
        _ => (e matches ConfigError::NotText(k) && k == key),
    }
}

pub open spec fn default_font() -> Seq<char> {
    "Fira Mono 18"@
}

fn color_field(f: &Field, key: Key) -> (r: Result<Option<Rgb>, ConfigError>)
    ensures
        match color_setting(*f) {
            Some(c) => r == Ok::<Option<Rgb>, ConfigError>(c),
            None => (r matches Err(e) && color_refuses(e, *f, key)),
        },
{
    match f {
        Field::Missing => Ok(None),
        Field::Text(t) => match color_from_hex(t.as_str()) {
            Some(c) => Ok(Some(c)),
            None => Err(ConfigError::BadColor(t.clone())),
        },
        _ => Err(ConfigError::NotText(key)),
    }
}

impl Config {
    /// Builds the configuration a document describes. The widgets listed
    /// before the first `sep` form the left group in their order; those after
    /// it form the right group in reverse order, so that the last one stands
    /// at the right edge. Each widget is started at `now`, those with an
    /// interval refreshed from what `read` reads for them. The height and the
    /// gutter stay zero until the text height is known.
    pub fn from_document<F: Fn(&Widget) -> Reading>(
        doc: &Document,
        supply: &Option<PowerSupply>,
        now: u64,
        read: &F,
    ) -> (r: Result<Config, ConfigError>)
        requires
            forall|w: &Widget| read.requires((w,)),
        ensures
            doc.widgets is None ==> (r matches Err(e) && e is Invalid),
            doc.widgets matches Some(v) ==> {
                let secs = v@;
                let (l, d, _) = groups(secs, secs.len() as int);
                &&& !all_ok(secs, *supply, secs.len() as int) ==> (r matches Err(e) && exists|k: int|
                    0 <= k < secs.len() && all_ok(secs, *supply, k) && !section_ok(
                        #[trigger] secs[k],
                        *supply,
                    ) && section_refuses(e, secs[k], *supply))
                &&& all_ok(secs, *supply, secs.len() as int) ==> match (
                    color_setting(doc.background),
                    color_setting(doc.foreground),
                    doc.font,
                ) {
                    (None, _, _) => (r matches Err(e) && color_refuses(
                        e,
                        doc.background,
                        Key::Background,
                    )),
                    (Some(_), None, _) => (r matches Err(e) && color_refuses(
                        e,
                        doc.foreground,
                        Key::Foreground,
                    )),
                    (Some(bg), Some(fg), font) => match font {
                        Field::Missing => (r matches Ok(c) && c.font@ == default_font()
                            && c.background == bg && c.foreground == fg),
                        Field::Text(t) => (r matches Ok(c) && c.font@ == t@ && c.background
                            == bg && c.foreground == fg),
                        _ => (r matches Err(e) && e matches ConfigError::NotText(k) && k
                            == Key::Font),
                    },
                }
                &&& r matches Ok(c) ==> {
                    &&& c.left@.len() == l.len()
                    &&& forall|k: int|
                        0 <= k < l.len() ==> widget_fits(
                            #[trigger] c.left@[k],
                            secs[l[k]],
                            *supply,
                            now,
                            *read,
                        )
                    &&& c.right@.len() == d.len()
                    &&& forall|k: int|
                        0 <= k < d.len() ==> widget_fits(
                            #[trigger] c.right@[k],
                            secs[d[d.len() - 1 - k]],
                            *supply,
                            now,
                            *read,
                        )
                    &&& c.height == 0
                    &&& c.buffer == 0
                }
            },
    {
        let secs = match &doc.widgets {
            Some(v) => v,
            None => {
                return Err(ConfigError::Invalid);
            },
        };
        let mut left: Vec<WidgetWrapper> = Vec::new();
        let mut declared: Vec<WidgetWrapper> = Vec::new();
        let mut seen: bool = false;
        let mut i: usize = 0;
        while i < secs.len()
            invariant
                doc.widgets == Some(*secs),
                forall|w: &Widget| read.requires((w,)),
                0 <= i <= secs@.len(),
                all_ok(secs@, *supply, i as int),
                groups(secs@, i as int).2 == seen,
                left@.len() == groups(secs@, i as int).0.len(),
                declared@.len() == groups(secs@, i as int).1.len(),
                forall|k: int|
                    0 <= k < left@.len() ==> widget_fits(
                        #[trigger] left@[k],
                        secs@[groups(secs@, i as int).0[k]],
                        *supply,
                        now,
                        *read,
                    ),
                forall|k: int|
                    0 <= k < declared@.len() ==> widget_fits(
                        #[trigger] declared@[k],
                        secs@[groups(secs@, i as int).1[k]],
                        *supply,
                        now,
                        *read,
                    ),
            decreases secs@.len() - i,
        {
            let ghost g = groups(secs@, i as int);
            match &secs[i] {
                None => {
                    assert(!section_ok(secs@[i as int], *supply));
                    return Err(ConfigError::Invalid);
                },
                Some(s) => match &s.name {
                    Field::Text(n) => {
                        if same_text(n.as_str(), "sep") {
                            seen = true;
                        } else {
                            match mk_widget(n.as_str(), s, supply) {
                                Ok(w) => {
                                    let ghost w0 = w;
                                    let ww = WidgetWrapper::new(w, now, read);
                                    assert(builds(w0, section_name(secs@[i as int]), *s, *supply));
                                    if seen {
                                        declared.push(ww);
                                    } else {
                                        left.push(ww);
                                    }
                                },
                                Err(e) => {
                                    assert(!section_ok(secs@[i as int], *supply));
                                    return Err(e);
                                },
                            }
                        }
                    },
                    _ => {
                        assert(!section_ok(secs@[i as int], *supply));
                        return Err(ConfigError::Invalid);
                    },
                },
            }
            proof {
                let g2 = groups(secs@, i as int + 1);
                if !is_sep(secs@[i as int]) {
                    if seen {
                        assert(g2.1 == g.1.push(i as int));
                    } else {
                        assert(g2.0 == g.0.push(i as int));
                    }
                }
            }
            i = i + 1;
        }
        let ghost d0 = declared@;
        let mut right: Vec<WidgetWrapper> = Vec::new();
        while declared.len() > 0
            invariant
                declared@.len() + right@.len() == d0.len(),
                declared@ == d0.subrange(0, declared@.len() as int),
                forall|k: int| 0 <= k < right@.len() ==> #[trigger] right@[k] == d0[d0.len() - 1 - k],
            decreases declared@.len(),
        {
            match declared.pop() {
                Some(w) => right.push(w),
                None => {},
            }
        }
        let background = match color_field(&doc.background, Key::Background) {
            Ok(c) => c,
            Err(e) => {
                return Err(e);
            },
        };
        let foreground = match color_field(&doc.foreground, Key::Foreground) {
            Ok(c) => c,
            Err(e) => {
                return Err(e);
            },
        };
        let font = match &doc.font {
            Field::Missing => String::from_str("Fira Mono 18"),
            Field::Text(t) => t.clone(),
            _ => {
                return Err(ConfigError::NotText(Key::Font));
            },
        };
        Ok(Config { left, right, background, foreground, font, height: 0, buffer: 0 })
    }

    /// Sets the bar's height and gutter from the height of a line of text in
    /// its font: the gutter is a quarter of it, rounded down, and the bar
    /// holds the line with one gutter above and one below.
    pub fn set_text_height(&mut self, text_height: i32)
        requires
            0 <= text_height,
            text_height + 2 * (text_height / 4) <= i32::MAX,
        ensures
            final(self).buffer == text_height / 4,
            final(self).height == text_height + 2 * (text_height / 4),
            final(self).left == old(self).left,
            final(self).right == old(self).right,
            final(self).background == old(self).background,
            final(self).foreground == old(self).foreground,
            final(self).font == old(self).font,
    {
        let buffer = text_height / 4;
        self.height = text_height + buffer * 2;
        self.buffer = buffer;
    }

    pub fn font(&self) -> (r: &str)
        ensures
            r@ == self.font@,
    {
        self.font.as_str()
    }

    /// The height left for content between the top and bottom gutters.
    pub fn content_height(&self) -> (r: i32)
        requires
            0 <= self.height - 2 * self.buffer <= i32::MAX,
        ensures
            r == self.height - 2 * self.buffer,
    {
        (self.height as i64 - 2 * self.buffer as i64) as i32
    }

    pub fn get_height(&self) -> (r: i32)
        ensures
            r == self.height,
    {
        self.height
    }
}

/// A widget's place: its group and its position there.
#[derive(Debug, Clone, Copy, PartialEq, Eq, Structural)]
pub struct Slot {
    pub side: Anchor,
    pub index: usize,
}

/// The positions, among the first `n` widgets, of those due for a refresh at `now`.
pub open spec fn due_among(ws: Seq<WidgetWrapper>, now: u64, n: int) -> Seq<int>
    decreases n,
{
    if n <= 0 {
        Seq::empty()
    } else if refresh_due(ws[n - 1].update, now) {
        due_among(ws, now, n - 1).push(n - 1)
    } else {
        due_among(ws, now, n - 1)
    }
}

/// The slots of the widgets due at `now`: the left group's, then the right's.
pub open spec fn due_slots(left: Seq<WidgetWrapper>, right: Seq<WidgetWrapper>, now: u64) -> Seq<Slot> {
    let l = due_among(left, now, left.len() as int);
    let r = due_among(right, now, right.len() as int);
    l.map_values(|i: int| Slot { side: Anchor::Left, index: i as usize }) + r.map_values(
        |i: int| Slot { side: Anchor::Right, index: i as usize },
    )
}

/// Every widget of `new` is the one of `old`, its schedule ticked at `now`.
pub open spec fn ticked(old: Seq<WidgetWrapper>, new: Seq<WidgetWrapper>, now: u64) -> bool {
    new.len() == old.len() && forall|i: int|
        0 <= i < old.len() ==> (#[trigger] new[i]).widget == old[i].widget && new[i].update
            == after_tick(old[i].update, now)
}

/// The widget at `k` is refreshed from `reading`, keeping its schedule, and
/// every other one is as it was.
pub open spec fn refreshed_at(
    old: Seq<WidgetWrapper>,
    new: Seq<WidgetWrapper>,
    k: int,
    reading: Reading,
) -> bool {
    &&& new.len() == old.len()
    &&& refreshed(old[k].widget, new[k].widget, reading)
    &&& new[k].update == old[k].update
    &&& forall|i: int| 0 <= i < old.len() && i != k ==> #[trigger] new[i] == old[i]
}

/// Ticks each schedule of a group at `now`; the positions of the widgets due.
fn tick_group(ws: &mut Vec<WidgetWrapper>, now: u64) -> (r: Vec<usize>)
    ensures
        ticked(old(ws)@, final(ws)@, now),
        r@.map_values(|i: usize| i as int) == due_among(old(ws)@, now, old(ws)@.len() as int),
{
    let ghost w0 = ws@;
    let mut r: Vec<usize> = Vec::new();
    let mut i: usize = 0;
    while i < ws.len()
        invariant
            0 <= i <= ws@.len(),
            ws@.len() == w0.len(),
            forall|k: int|
                0 <= k < i ==> (#[trigger] ws@[k]).widget == w0[k].widget && ws@[k].update
                    == after_tick(w0[k].update, now),
            forall|k: int| i <= k < ws@.len() ==> #[trigger] ws@[k] == w0[k],
            r@.map_values(|k: usize| k as int) == due_among(w0, now, i as int),
        decreases ws@.len() - i,
    {
        let due = ws[i].update(now);
        if due {
            r.push(i);
            assert(r@.map_values(|k: usize| k as int) =~= due_among(w0, now, i as int).push(i as int));
        }
        i = i + 1;
    }
    r
}

impl Config {
    /// One tick of the refresh schedule at `now`, over the left group and
    /// then the right. The slots of the widgets now due are returned in that
    /// order; each is to be refreshed before the next draw.
    pub fn update(&mut self, now: u64) -> (r: Vec<Slot>)
        ensures
            ticked(old(self).left@, final(self).left@, now),
            ticked(old(self).right@, final(self).right@, now),
            r@ == due_slots(old(self).left@, old(self).right@, now),
            final(self).background == old(self).background,
            final(self).foreground == old(self).foreground,
            final(self).font == old(self).font,
            final(self).height == old(self).height,
            final(self).buffer == old(self).buffer,
    {
        let l = tick_group(&mut self.left, now);
        let rt = tick_group(&mut self.right, now);
        let mut r: Vec<Slot> = Vec::new();
        let mut i: usize = 0;
        while i < l.len()
            invariant
                0 <= i <= l@.len(),
                r@ == l@.subrange(0, i as int).map_values(
                    |k: usize| Slot { side: Anchor::Left, index: k },
                ),
            decreases l@.len() - i,
        {
            r.push(Slot { side: Anchor::Left, index: l[i] });
            assert(l@.subrange(0, i + 1) =~= l@.subrange(0, i as int).push(l@[i as int]));
            assert(r@ =~= l@.subrange(0, i + 1).map_values(
                |k: usize| Slot { side: Anchor::Left, index: k },
            ));
            i = i + 1;
        }
        let ghost nl = r@.len();
        let mut j: usize = 0;
        while j < rt.len()
            invariant
                0 <= j <= rt@.len(),
                nl == l@.len(),
                r@ == l@.map_values(|k: usize| Slot { side: Anchor::Left, index: k }) + rt@.subrange(
                    0,
                    j as int,
                ).map_values(|k: usize| Slot { side: Anchor::Right, index: k }),
            decreases rt@.len() - j,
        {
            r.push(Slot { side: Anchor::Right, index: rt[j] });
            assert(rt@.subrange(0, j + 1) =~= rt@.subrange(0, j as int).push(rt@[j as int]));
            assert(r@ =~= l@.map_values(|k: usize| Slot { side: Anchor::Left, index: k })
                + rt@.subrange(0, j + 1).map_values(
                |k: usize| Slot { side: Anchor::Right, index: k },
            ));

            j = j + 1;
        }
        proof {
            assert(l@.subrange(0, l@.len() as int) =~= l@);
            assert(rt@.subrange(0, rt@.len() as int) =~= rt@);
            let dl = due_among(old(self).left@, now, old(self).left@.len() as int);
            let dr = due_among(old(self).right@, now, old(self).right@.len() as int);
            assert(l@.map_values(|k: usize| Slot { side: Anchor::Left, index: k }) =~= dl.map_values(
                |k: int| Slot { side: Anchor::Left, index: k as usize },
            ));
            assert(rt@.map_values(|k: usize| Slot { side: Anchor::Right, index: k }) =~= dr.map_values(
                |k: int| Slot { side: Anchor::Right, index: k as usize },
            ));
        }
        r
    }

    /// Refreshes the widget in `slot` from what was read for it.
    pub fn refresh(&mut self, slot: Slot, reading: Reading)
        requires
            slot.side == Anchor::Left ==> slot.index < old(self).left@.len(),
            slot.side == Anchor::Right ==> slot.index < old(self).right@.len(),
        ensures
            final(self).background == old(self).background,
            final(self).foreground == old(self).foreground,
            final(self).font == old(self).font,
            final(self).height == old(self).height,
            final(self).buffer == old(self).buffer,
            final(self).left@.len() == old(self).left@.len(),
            final(self).right@.len() == old(self).right@.len(),
            slot.side == Anchor::Left ==> final(self).right == old(self).right && refreshed_at(
                old(self).left@,
                final(self).left@,
                slot.index as int,
                reading,
            ),
            slot.side == Anchor::Right ==> final(self).left == old(self).left && refreshed_at(
                old(self).right@,
                final(self).right@,
                slot.index as int,
                reading,
            ),
    {
        match slot.side {
            Anchor::Left => self.left[slot.index].widget.refresh(reading),
            Anchor::Right => self.right[slot.index].widget.refresh(reading),
        }
    }
}

} // verus!
