//! The widgets a bar can show, what each draws, and how each refreshes its
//! cached state from what was read outside.

use vstd::prelude::*;
use vstd::string::*;

use crate::text::{
    decimal_i32, find_sep, first_sep, is_prefix, parse_i32, same_text, starts_with, trim_text,
    trimmed,
};

verus! {

/// The strftime format the clock is written in.
pub open spec fn clock_format() -> Seq<char> {
    "%a %b %d %H:%M"@
}

/// Relies on chrono's `Local::now` and `DateTime::format`: the local time
/// now, written in the given format, which must be one chrono accepts.
/// That format has three-letter English day and month names and two-digit
/// day, hour and minute fields, so the text is always 16 characters long.
#[verifier::external_body]
fn local_time_text(fmt: &str) -> (r: String)
    requires
        fmt@ == clock_format(),
    ensures
        r@.len() == 16,
{
    chrono::Local::now().format(fmt).to_string()
}

/// A clock showing the local date and time.
#[derive(Debug)]
pub struct Time {
    fmt: String,
}

impl Time {
    #[verifier::type_invariant]
    spec fn inv(self) -> bool {
        self.fmt@ == clock_format()
    }

    pub fn new() -> (r: Time) {
        let fmt = String::from_str("%a %b %d %H:%M");
        proof {
            reveal_strlit("%a %b %d %H:%M");
        }
        Time { fmt }
    }

    /// The local time now, in the clock's format, e.g. `Sun Oct 18 14:03`.
    pub fn text(&self) -> (r: String)
        ensures
            r@.len() == 16,
    {
        proof {
            use_type_invariant(self);
        }
        local_time_text(self.fmt.as_str())
    }
}

/// The last line of text that came in from outside.
#[derive(Debug)]
pub struct Stdin;

impl Stdin {
    pub fn new() -> (r: Stdin) {
        Stdin
    }
}

/// A filled square.
pub struct SmallBox;

/// A thin vertical rule between widgets.
pub struct Caesura;

/// A charge level: the mean of `count` readings in percent, whose sum is
/// `sum`. With no readings the level is undefined.
#[derive(Debug, Clone, Copy, PartialEq, Eq, Structural)]
pub struct Level {
    pub sum: i128,
    pub count: usize,
}

/// The colour a battery gauge is drawn in.
#[derive(Debug, Clone, Copy, PartialEq, Eq, Structural)]
pub enum Shade {
    Charging,
    Low,
    Half,
    Good,
}

/// What a battery gauge shows: how full, and in which colour.
#[derive(Debug, Clone, Copy, PartialEq, Eq, Structural)]
pub struct Gauge {
    pub level: Level,
    pub shade: Shade,
}

/// Under a tenth full, under half full, or neither; charging overrides the
/// level. An undefined level (no readings) counts as neither.
pub open spec fn spec_shade(level: Level, charging: bool) -> Shade {
    if charging {
        Shade::Charging
    } else if level.count > 0 && level.sum < 10 * level.count {
        Shade::Low
    } else if level.count > 0 && level.sum < 50 * level.count {
        Shade::Half
    } else {
        Shade::Good
    }
}

/// The readings of every capacity file, as `i32` after trimming, if all read.
pub open spec fn readings_of(contents: Seq<Seq<char>>) -> Option<Seq<i32>> {
    if forall|i: int| 0 <= i < contents.len() ==> (#[trigger] decimal_i32(trimmed(contents[i])))
        is Some {
        Some(Seq::new(contents.len(), |i: int| decimal_i32(trimmed(contents[i]))->Some_0))
    } else {
        None
    }
}

pub open spec fn sum_of(v: Seq<i32>) -> int
    decreases v.len(),
{
    if v.len() == 0 {
        0
    } else {
        sum_of(v.drop_last()) + v.last()
    }
}

/// The level that the contents of the capacity files give, if all of them
/// hold a number.
pub open spec fn status_of(contents: Seq<Seq<char>>) -> Option<Level> {
    match readings_of(contents) {
        Some(v) => Some(Level { sum: sum_of(v) as i128, count: v.len() as usize }),
        None => None,
    }
}

/// A battery gauge, refreshed from the power supply's capacity files.
pub struct Battery {
    pub file_list: Vec<String>,
    pub charging: Option<String>,
    pub last_status: Level,
    pub last_charging: bool,
}

/// What a scan of the power supplies found: a capacity file for each
/// battery, and the file that says whether mains power is connected.
pub struct PowerSupply {
    pub capacity_files: Vec<String>,
    pub ac_file: Option<String>,
}

/// The capacity file of the power supply `name` under `dir`.
pub open spec fn capacity_path(dir: Seq<char>, name: Seq<char>) -> Seq<char> {
    dir + "/"@ + name + "/capacity"@
}

/// The capacity files of the batteries among the first `n` entries of a
/// power supply directory: those whose name starts with `BAT`, in order.
pub open spec fn battery_files(dir: Seq<char>, names: Seq<Seq<char>>, n: int) -> Seq<Seq<char>>
    decreases n,
{
    if n <= 0 {
        Seq::empty()
    } else if is_prefix("BAT"@, names[n - 1]) {
        battery_files(dir, names, n - 1).push(capacity_path(dir, names[n - 1]))
    } else {
        battery_files(dir, names, n - 1)
    }
}

impl PowerSupply {
    /// The file under the power supply directory `dir` that says whether mains
    /// power is connected.
    pub fn ac_path(dir: &str) -> (r: String)
        ensures
            r@ == dir@ + "/AC/online"@,
    {
        String::from_str(dir).concat("/AC/online")
    }

    /// What a listing of the power supply directory `dir` gives: a capacity
    /// file for each entry whose name starts with `BAT`, in listing order, and
    /// the mains file where it exists (`ac_exists`).
    pub fn from_listing(dir: &str, names: &Vec<String>, ac_exists: bool) -> (r: PowerSupply)
        ensures
            r.capacity_files@.map_values(|f: String| f@) == battery_files(
                dir@,
                names@.map_values(|n: String| n@),
                names@.len() as int,
            ),
            ac_exists ==> (r.ac_file matches Some(f) && f@ == dir@ + "/AC/online"@),
            !ac_exists ==> r.ac_file is None,
    {
        let ghost ns = names@.map_values(|n: String| n@);
        let mut files: Vec<String> = Vec::new();
        let mut i: usize = 0;
        while i < names.len()
            invariant
                0 <= i <= names@.len(),
                ns == names@.map_values(|n: String| n@),
                files@.map_values(|f: String| f@) == battery_files(dir@, ns, i as int),
            decreases names@.len() - i,
        {
            let n = names[i].as_str();
            if starts_with(n, "BAT") {
                let f = String::from_str(dir).concat("/").concat(n).concat("/capacity");
                files.push(f);
                assert(files@.map_values(|f: String| f@) =~= battery_files(dir@, ns, i as int).push(
                    capacity_path(dir@, ns[i as int]),
                ));
            }
            i = i + 1;
        }
        let ac_file = if ac_exists {
            Some(PowerSupply::ac_path(dir))
        } else {
            None
        };
        PowerSupply { capacity_files: files, ac_file }
    }
}

impl Battery {
    /// A gauge over the given files, shown full and not charging until its
    /// first refresh.
    pub fn new(supply: PowerSupply) -> (r: Battery)
        ensures
            r.file_list@ == supply.capacity_files@,
            r.charging == supply.ac_file,
            r.last_status == (Level { sum: 100, count: 1 }),
            !r.last_charging,
    {
        Battery {
            file_list: supply.capacity_files,
            charging: supply.ac_file,
            last_status: Level { sum: 100, count: 1 },
            last_charging: false,
        }
    }

    /// The level the capacity files' contents give, or `None` where one of
    /// them does not hold a number.
    pub fn read_status(contents: &Vec<String>) -> (r: Option<Level>)
        ensures
            r == status_of(contents@.map_values(|s: String| s@)),
    {
        let ghost cs = contents@.map_values(|s: String| s@);
        let mut sum: i128 = 0;
        let mut i: usize = 0;
        let ghost mut v: Seq<i32> = Seq::empty();
        while i < contents.len()
            invariant
                0 <= i <= contents@.len(),
                cs == contents@.map_values(|s: String| s@),
                v.len() == i,
                forall|k: int| 0 <= k < i ==> decimal_i32(trimmed(#[trigger] cs[k])) == Some(v[k]),
                sum as int == sum_of(v),
                i32::MIN * i <= sum_of(v) <= i32::MAX * i,
            decreases contents@.len() - i,
        {
            let t = trim_text(contents[i].as_str());
            match parse_i32(t) {
                Some(x) => {
                    proof {
                        assert(v.push(x).drop_last() =~= v);
                        v = v.push(x);
                    }
                    assert(i32::MIN * (i + 1) <= sum_of(v) <= i32::MAX * (i + 1)) by (nonlinear_arith)
                        requires
                            sum_of(v) == sum + x,
                            i32::MIN * i <= sum <= i32::MAX * i,
                            i32::MIN <= x <= i32::MAX,
                    ;
                    assert(i32::MAX * (i + 1) <= i32::MAX * 0x1_0000_0000_0000_0000int) by (nonlinear_arith)
                        requires
                            i < 0x1_0000_0000_0000_0000int,
                    ;
                    assert(i32::MIN * (i + 1) >= i32::MIN * 0x1_0000_0000_0000_0000int) by (nonlinear_arith)
                        requires
                            i < 0x1_0000_0000_0000_0000int,
                    ;
                    sum = sum + x as i128;
                },
                None => {
                    assert(decimal_i32(trimmed(cs[i as int])) is None);
                    return None;
                },
            }
            i = i + 1;
        }
        let ghost w = Seq::new(cs.len(), |k: int| decimal_i32(trimmed(cs[k]))->Some_0);
        assert(w =~= v);
        Some(Level { sum, count: contents.len() })
    }

    /// Whether mains power is connected: never where there is no such file;
    /// `None` where the file could not be read (`online` is `None`) or does
    /// not hold a number.
    pub fn is_charging(&self, online: &Option<String>) -> (r: Option<bool>)
        ensures
            r == self.charging_of(*online),
    {
        match &self.charging {
            None => Some(false),
            Some(_) => match online {
                None => None,
                Some(t) => match parse_i32(trim_text(t.as_str())) {
                    Some(x) => Some(x != 0),
                    None => None,
                },
            },
        }
    }

    /// Keeps what was read where it holds numbers, and the last known values
    /// elsewhere. `capacities` is `None` where a capacity file could not be read.
    pub fn update(&mut self, capacities: &Option<Vec<String>>, online: &Option<String>)
        ensures
            final(self).file_list == old(self).file_list,
            final(self).charging == old(self).charging,
            final(self).last_status == match capacities {
                Some(c) => match status_of(c@.map_values(|s: String| s@)) {
                    Some(l) => l,
                    None => old(self).last_status,
                },
                None => old(self).last_status,
            },
            final(self).last_charging == match old(self).charging_of(*online) {
                Some(b) => b,
                None => old(self).last_charging,
            },
    {
        if let Some(c) = capacities {
            if let Some(status) = Battery::read_status(c) {
                self.last_status = status;
            }
        }
        if let Some(charging) = self.is_charging(online) {
            self.last_charging = charging;
        }
    }

    pub open spec fn charging_of(&self, online: Option<String>) -> Option<bool> {
        if self.charging is None {
            Some(false)
        } else {
            match online {
                None => None,
                Some(t) => match decimal_i32(trimmed(t@)) {
                    Some(x) => Some(x != 0),
                    None => None,
                },
            }
        }
    }

    /// The gauge for the last known level and charging state.
    pub fn gauge(&self) -> (r: Gauge)
        ensures
            r == (Gauge {
                level: self.last_status,
                shade: spec_shade(self.last_status, self.last_charging),
            }),
    {
        let l = self.last_status;
        let shade = if self.last_charging {
            Shade::Charging
        } else if l.count > 0 && l.sum < 10 * (l.count as i128) {
            Shade::Low
        } else if l.count > 0 && l.sum < 50 * (l.count as i128) {
            Shade::Half
        } else {
            Shade::Good
        };
        Gauge { level: l, shade }
    }
}

/// What the music player is doing, as last seen.
pub enum State {
    Playing(String),
    Stopped,
}

/// The value of a reply line that starts with `tag`: what follows its first
/// `": "`, if it has one.
pub open spec fn tag_value(line: Seq<char>, tag: Seq<char>) -> Option<Seq<char>> {
    if is_prefix(tag, line) {
        match first_sep(line) {
            Some(i) => Some(line.subrange(i + 2, line.len() as int)),
            None => None,
        }
    } else {
        None
    }
}

/// The value of the last of the first `n` lines that carries `tag`.
pub open spec fn latest(lines: Seq<Seq<char>>, tag: Seq<char>, n: int) -> Option<Seq<char>>
    decreases n,
{
    if n <= 0 {
        None
    } else {
        match tag_value(lines[n - 1], tag) {
            Some(v) => Some(v),
            None => latest(lines, tag, n - 1),
        }
    }
}

/// The number of reply lines before the first `OK`.
pub open spec fn reply_end(lines: Seq<Seq<char>>) -> int {
    if exists|i: int| 0 <= i < lines.len() && lines[i] == "OK"@ {
        choose|i: int|
            0 <= i < lines.len() && lines[i] == "OK"@ && forall|j: int|
                0 <= j < i ==> lines[j] != "OK"@
    } else {
        lines.len() as int
    }
}

/// The song a reply names: `artist: title`, where the reply names both.
pub open spec fn song_of(lines: Seq<Seq<char>>) -> Option<Seq<char>> {
    let n = reply_end(lines);
    match (latest(lines, "Artist"@, n), latest(lines, "Title"@, n)) {
        (Some(a), Some(t)) => Some(a + ": "@ + t),
        _ => None,
    }
}

/// A widget showing the song a music player daemon is playing.
pub struct MPD {
    pub host: String,
    pub port: usize,
    pub last_state: State,
}

/// Whether the first line a daemon sends is the music player's greeting.
pub fn is_mpd_greeting(greeting: &str) -> (r: bool)
    ensures
        r == is_prefix("OK MPD"@, greeting@),
{
    starts_with(greeting, "OK MPD")
}

impl MPD {
    /// A widget for the daemon at `host:port`, showing nothing playing until
    /// its first refresh.
    pub fn new(host: String, port: usize) -> (r: MPD)
        ensures
            r.host@ == host@,
            r.port == port,
            r.last_state is Stopped,
    {
        MPD { host, port, last_state: State::Stopped }
    }

    /// The player's state from the daemon's greeting and its reply to
    /// `currentsong`; `None` where the greeting is not the daemon's.
    pub fn get_song(greeting: &str, lines: &Vec<String>) -> (r: Option<State>)
        ensures
            !is_prefix("OK MPD"@, greeting@) ==> r is None,
            is_prefix("OK MPD"@, greeting@) ==> (r matches Some(st) && match song_of(
                lines@.map_values(|s: String| s@),
            ) {
                Some(song) => (st matches State::Playing(p) && p@ == song),
                None => st is Stopped,
            }),
    {
        if !is_mpd_greeting(greeting) {
            return None;
        }
        let ghost ls = lines@.map_values(|s: String| s@);
        let mut title: Option<String> = None;
        let mut artist: Option<String> = None;
        let mut i: usize = 0;
        while i < lines.len()
            invariant
                0 <= i <= lines@.len(),
                ls == lines@.map_values(|s: String| s@),
                forall|j: int| 0 <= j < i ==> ls[j] != "OK"@,
                match title {
                    Some(t) => latest(ls, "Title"@, i as int) == Some(t@),
                    None => latest(ls, "Title"@, i as int) is None,
                },
                match artist {
                    Some(a) => latest(ls, "Artist"@, i as int) == Some(a@),
                    None => latest(ls, "Artist"@, i as int) is None,
                },
            ensures
                reply_end(ls) == i as int,
                match title {
                    Some(t) => latest(ls, "Title"@, i as int) == Some(t@),
                    None => latest(ls, "Title"@, i as int) is None,
                },
                match artist {
                    Some(a) => latest(ls, "Artist"@, i as int) == Some(a@),
                    None => latest(ls, "Artist"@, i as int) is None,
                },
            decreases lines@.len() - i,
        {
            let line = lines[i].as_str();
            if same_text(line, "OK") {
                proof {
                    lemma_reply_end_at(ls, i as int);
                }
                break;
            }
            title = newer_value(title, line, "Title");
            artist = newer_value(artist, line, "Artist");
            proof {
                assert(ls[i as int] == line@);
            }
            i = i + 1;
            proof {
                if i == lines@.len() {
                    assert(!exists|k: int| 0 <= k < ls.len() && #[trigger] ls[k] == "OK"@);
                }
            }
        }
        match (artist, title) {
            (Some(a), Some(t)) => {
                let song = a.concat(": ").concat(t.as_str());
                Some(State::Playing(song))
            },
            _ => Some(State::Stopped),
        }
    }

    /// Keeps the state that a refresh found, or the last known one where
    /// the refresh failed (`found` is `None`).
    pub fn update(&mut self, found: Option<State>)
        ensures
            final(self).host == old(self).host,
            final(self).port == old(self).port,
            match found {
                Some(st) => final(self).last_state == st,
                None => final(self).last_state == old(self).last_state,
            },
    {
        if let Some(st) = found {
            self.last_state = st;
        }
    }

    /// What the widget shows: the song in brackets, or `[N/A]`.
    pub fn text(&self) -> (r: String)
        ensures
            r@ == self.text_spec(),
    {
        match &self.last_state {
            State::Playing(song) => String::from_str("[").concat(song.as_str()).concat("]"),
            State::Stopped => String::from_str("[N/A]"),
        }
    }

    pub open spec fn text_spec(&self) -> Seq<char> {
        match self.last_state {
            State::Playing(song) => "["@ + song@ + "]"@,
            State::Stopped => "[N/A]"@,
        }
    }
}

proof fn lemma_reply_end_at(ls: Seq<Seq<char>>, i: int)
    requires
        0 <= i < ls.len(),
        ls[i] == "OK"@,
        forall|j: int| 0 <= j < i ==> ls[j] != "OK"@,
    ensures
        reply_end(ls) == i,
{
    let c = choose|c: int|
        0 <= c < ls.len() && ls[c] == "OK"@ && forall|j: int| 0 <= j < c ==> ls[j] != "OK"@;
    assert(c == i) by {
        if c > i {
            assert(ls[i] != "OK"@);
        }
    }
}

/// The value a tag holds after one more line: the line's, where it carries
/// the tag, else the one before.
fn newer_value(cur: Option<String>, line: &str, tag: &str) -> (r: Option<String>)
    ensures
        match tag_value(line@, tag@) {
            Some(v) => (r matches Some(s) && s@ == v),
            None => r == cur,
        },
{
    match tag_value_of(line, tag) {
        Some(v) => Some(v),
        None => cur,
    }
}

/// The value of `line` under `tag`, where it carries it.
fn tag_value_of(line: &str, tag: &str) -> (r: Option<String>)
    ensures
        match tag_value(line@, tag@) {
            Some(v) => (r matches Some(s) && s@ == v),
            None => r is None,
        },
{
    if starts_with(line, tag) {
        match find_sep(line) {
            Some(i) => {
                let n = line.unicode_len();
                let v = line.substring_char(i + 2, n);
                Some(String::from_str(v))
            },
            None => None,
        }
    } else {
        None
    }
}

/// Any widget of the bar.
pub enum Widget {
    Time(Time),
    Stdin(Stdin),
    SmallBox(SmallBox),
    Caesura(Caesura),
    Battery(Battery),
    Mpd(MPD),
}

/// What a widget draws at its place.
pub enum Mark {
    /// A line of text.
    Text(String),
    /// A filled square as tall as the bar's content.
    Square,
    /// A vertical rule, two pixels across.
    Rule,
    /// A battery gauge as large as the square.
    Gauge(Gauge),
}

/// `m` is what `w` draws with `stdin` the last line of outside text: the
/// clock a 16-character text, the other widgets what their state and `stdin` give.
pub open spec fn shows(w: Widget, stdin: Seq<char>, m: Mark) -> bool {
    match w {
        Widget::Time(_) => (m matches Mark::Text(t) && t@.len() == 16),
        Widget::Stdin(_) => (m matches Mark::Text(t) && t@ == stdin),
        Widget::SmallBox(_) => m is Square,
        Widget::Caesura(_) => m is Rule,
        Widget::Battery(b) => m == Mark::Gauge(
            Gauge { level: b.last_status, shade: spec_shade(b.last_status, b.last_charging) },
        ),
        Widget::Mpd(mp) => (m matches Mark::Text(t) && t@ == mp.text_spec()),
    }
}

/// Two marks draw the same: the same kind, with the same text or gauge.
pub open spec fn same_mark(a: Mark, b: Mark) -> bool {
    match (a, b) {
        (Mark::Text(x), Mark::Text(y)) => x@ == y@,
        (Mark::Square, Mark::Square) => true,
        (Mark::Rule, Mark::Rule) => true,
        (Mark::Gauge(x), Mark::Gauge(y)) => x == y,
        _ => false,
    }
}

/// Drawing a widget twice, with its state and the outside text unchanged,
/// draws the same mark, unless it is the clock, whose text is read at draw time.
pub proof fn lemma_draws_repeat(w: Widget, stdin: Seq<char>, a: Mark, b: Mark)
    requires
        shows(w, stdin, a),
        shows(w, stdin, b),
        !(w is Time),
    ensures
        same_mark(a, b),
{
}

/// The width a mark takes up in its group.
pub open spec fn advance_of(m: Mark, text_width: i32, content_height: i32) -> i32 {
    match m {
        Mark::Text(_) => text_width,
        Mark::Square => content_height,
        Mark::Gauge(_) => content_height,
        Mark::Rule => 2,
    }
}

/// The interval, in seconds, at which a widget refreshes, if it does.
pub open spec fn frequency_of(w: Widget) -> Option<u64> {
    match w {
        Widget::Battery(_) => Some(10),
        Widget::Mpd(_) => Some(5),
        _ => None,
    }
}

impl Widget {
    pub fn update_frequency(&self) -> (r: Option<u64>)
        ensures
            r == frequency_of(*self),
    {
        match self {
            Widget::Battery(_) => Some(10),
            Widget::Mpd(_) => Some(5),
            _ => None,
        }
    }

    /// What the widget draws now, given the last line of outside text. Only
    /// the clock's text depends on anything but the two.
    pub fn mark(&self, stdin: &str) -> (r: Mark)
        ensures
            shows(*self, stdin@, r),
    {
        match self {
            Widget::Time(t) => Mark::Text(t.text()),
            Widget::Stdin(_) => Mark::Text(String::from_str(stdin)),
            Widget::SmallBox(_) => Mark::Square,
            Widget::Caesura(_) => Mark::Rule,
            Widget::Battery(b) => Mark::Gauge(b.gauge()),
            Widget::Mpd(m) => Mark::Text(m.text()),
        }
    }
}

impl Mark {
    /// The width the mark takes up in its group: a text's measured width, the
    /// content height for a square or a gauge, two for a rule.
    pub fn advance(&self, text_width: i32, content_height: i32) -> (r: i32)
        ensures
            r == advance_of(*self, text_width, content_height),
    {
        match self {
            Mark::Text(_) => text_width,
            Mark::Square => content_height,
            Mark::Gauge(_) => content_height,
            Mark::Rule => 2,
        }
    }
}

/// What a refresh read outside for a widget.
pub enum Reading {
    /// The contents of a battery's capacity files (`None` where one could
    /// not be read) and of its mains file (`None` where it could not be read).
    Power { capacities: Option<Vec<String>>, online: Option<String> },
    /// The music player's state (`None` where the daemon could not be asked).
    Player(Option<State>),
}

/// `new` is `old` refreshed from `reading`: a battery from a power reading,
/// a music player from a player reading, each keeping what did not read;
/// any other pairing changes nothing.
pub open spec fn refreshed(old: Widget, new: Widget, reading: Reading) -> bool {
    match (old, reading) {
        (Widget::Battery(b), Reading::Power { capacities, online }) => (new matches Widget::Battery(
            nb,
        ) && nb.file_list == b.file_list && nb.charging == b.charging && nb.last_status
            == match capacities {
            Some(c) => match status_of(c@.map_values(|s: String| s@)) {
                Some(l) => l,
                None => b.last_status,
            },
            None => b.last_status,
        } && nb.last_charging == match b.charging_of(online) {
            Some(x) => x,
            None => b.last_charging,
        }),
        (Widget::Mpd(m), Reading::Player(found)) => (new matches Widget::Mpd(nm) && nm.host
            == m.host && nm.port == m.port && nm.last_state == match found {
            Some(st) => st,
            None => m.last_state,
        }),
        _ => new == old,
    }
}

impl Widget {
    /// Refreshes the widget's cached state from what was read. A widget keeps
    /// its last known state where the reading failed or is not its own.
    pub fn refresh(&mut self, reading: Reading)
        ensures
            refreshed(*old(self), *final(self), reading),
    {
        match self {
            Widget::Battery(b) => match reading {
                Reading::Power { capacities, online } => b.update(&capacities, &online),
                _ => {},
            },
            Widget::Mpd(m) => match reading {
                Reading::Player(found) => m.update(found),
                _ => {},
            },
            _ => {},
        }
    }
}

} // verus!
