use knurling::widgets::{
    is_mpd_greeting, Battery, Caesura, Gauge, Level, Mark, PowerSupply, Reading, Shade, SmallBox, State, Stdin,
    Time, Widget, MPD,
};

fn texts(v: &[&str]) -> Vec<String> {
    v.iter().map(|s| s.to_string()).collect()
}

fn battery(ac: bool) -> Battery {
    Battery::new(PowerSupply {
        capacity_files: texts(&["/sys/class/power_supply/BAT0/capacity"]),
        ac_file: if ac {
            Some("/sys/class/power_supply/AC/online".to_string())
        } else {
            None
        },
    })
}

#[test]
fn battery_starts_full_and_not_charging() {
    let b = battery(true);
    assert_eq!(b.last_status, Level { sum: 100, count: 1 });
    assert!(!b.last_charging);
    assert_eq!(b.gauge(), Gauge { level: Level { sum: 100, count: 1 }, shade: Shade::Good });
}

#[test]
fn read_status_trims_and_sums_readings() {
    let r = Battery::read_status(&texts(&["87\n", " 13 "]));
    assert_eq!(r, Some(Level { sum: 100, count: 2 }));
}

#[test]
fn read_status_refuses_text_that_is_no_number() {
    assert_eq!(Battery::read_status(&texts(&["87\n", "full"])), None);
    assert_eq!(Battery::read_status(&texts(&[""])), None);
    assert_eq!(Battery::read_status(&texts(&["99999999999"])), None);
}

#[test]
fn read_status_of_no_batteries_is_an_empty_level() {
    assert_eq!(Battery::read_status(&Vec::new()), Some(Level { sum: 0, count: 0 }));
}

#[test]
fn charging_reads_the_mains_file() {
    let b = battery(true);
    assert_eq!(b.is_charging(&Some("1\n".to_string())), Some(true));
    assert_eq!(b.is_charging(&Some("0\n".to_string())), Some(false));
    assert_eq!(b.is_charging(&Some("yes".to_string())), None);
    assert_eq!(b.is_charging(&None), None);
    let b = battery(false);
    assert_eq!(b.is_charging(&None), Some(false));
}

#[test]
fn battery_update_keeps_last_good_values_on_failure() {
    let mut b = battery(true);
    b.update(&Some(texts(&["42\n"])), &Some("1\n".to_string()));
    assert_eq!(b.last_status, Level { sum: 42, count: 1 });
    assert!(b.last_charging);
    b.update(&None, &None);
    assert_eq!(b.last_status, Level { sum: 42, count: 1 });
    assert!(b.last_charging);
    b.update(&Some(texts(&["garbage"])), &Some("?".to_string()));
    assert_eq!(b.last_status, Level { sum: 42, count: 1 });
    assert!(b.last_charging);
}

#[test]
fn gauge_shades_follow_the_level() {
    let mut b = battery(false);
    b.update(&Some(texts(&["9"])), &None);
    assert_eq!(b.gauge().shade, Shade::Low);
    b.update(&Some(texts(&["10"])), &None);
    assert_eq!(b.gauge().shade, Shade::Half);
    b.update(&Some(texts(&["49"])), &None);
    assert_eq!(b.gauge().shade, Shade::Half);
    b.update(&Some(texts(&["50"])), &None);
    assert_eq!(b.gauge().shade, Shade::Good);
    b.update(&Some(Vec::new()), &None);
    assert_eq!(b.gauge().shade, Shade::Good);
    let mut c = battery(true);
    c.update(&Some(texts(&["3"])), &Some("1".to_string()));
    assert_eq!(c.gauge().shade, Shade::Charging);
}

#[test]
fn get_song_reads_artist_and_title() {
    let lines = texts(&["file: a.flac", "Artist: Nina Simone", "Title: Sinnerman", "OK"]);
    match MPD::get_song("OK MPD 0.23.5", &lines) {
        Some(State::Playing(s)) => assert_eq!(s, "Nina Simone: Sinnerman"),
        _ => panic!("expected a song"),
    }
}

#[test]
fn get_song_stops_at_ok_and_keeps_the_last_value() {
    let lines = texts(&["Title: One", "Title: Two: Live", "Artist: X", "OK", "Title: Three"]);
    match MPD::get_song("OK MPD 0.21", &lines) {
        Some(State::Playing(s)) => assert_eq!(s, "X: Two: Live"),
        _ => panic!("expected a song"),
    }
}

#[test]
fn get_song_without_both_tags_is_stopped() {
    let lines = texts(&["Title: Alone", "Artist", "OK", "Artist: Late"]);
    assert!(matches!(MPD::get_song("OK MPD 0.21", &lines), Some(State::Stopped)));
}

#[test]
fn get_song_refuses_a_stranger_greeting() {
    assert!(MPD::get_song("HTTP/1.1 400", &texts(&["OK"])).is_none());
}

#[test]
fn mpd_text_brackets_the_song() {
    let mut m = MPD::new("localhost".to_string(), 6600);
    assert_eq!(m.text(), "[N/A]");
    m.update(Some(State::Playing("A: B".to_string())));
    assert_eq!(m.text(), "[A: B]");
    m.update(None);
    assert_eq!(m.text(), "[A: B]");
}

#[test]
fn update_frequencies() {
    assert_eq!(Widget::Battery(battery(false)).update_frequency(), Some(10));
    assert_eq!(Widget::Mpd(MPD::new("h".to_string(), 1)).update_frequency(), Some(5));
    assert_eq!(Widget::Time(Time::new()).update_frequency(), None);
    assert_eq!(Widget::Stdin(Stdin::new()).update_frequency(), None);
    assert_eq!(Widget::SmallBox(SmallBox).update_frequency(), None);
    assert_eq!(Widget::Caesura(Caesura).update_frequency(), None);
}

#[test]
fn marks_of_each_widget() {
    assert!(matches!(Widget::Stdin(Stdin::new()).mark("hi"), Mark::Text(t) if t == "hi"));
    assert!(matches!(Widget::SmallBox(SmallBox).mark("hi"), Mark::Square));
    assert!(matches!(Widget::Caesura(Caesura).mark("hi"), Mark::Rule));
    assert!(matches!(
        Widget::Mpd(MPD::new("h".to_string(), 1)).mark("hi"),
        Mark::Text(t) if t == "[N/A]"
    ));
    match Widget::Time(Time::new()).mark("hi") {
        // "%a %b %d %H:%M", e.g. "Sun Oct 18 14:03"
        Mark::Text(t) => assert_eq!(t.chars().count(), 16),
        _ => panic!("the clock draws text"),
    }
}

#[test]
fn advance_of_marks() {
    assert_eq!(Mark::Text("x".to_string()).advance(33, 40), 33);
    assert_eq!(Mark::Square.advance(33, 40), 40);
    assert_eq!(Mark::Rule.advance(33, 40), 2);
}

#[test]
fn refresh_applies_only_a_reading_of_the_widgets_kind() {
    let mut w = Widget::Battery(battery(false));
    w.refresh(Reading::Player(Some(State::Stopped)));
    w.refresh(Reading::Power { capacities: Some(texts(&["77"])), online: None });
    match &w {
        Widget::Battery(b) => assert_eq!(b.last_status, Level { sum: 77, count: 1 }),
        _ => panic!("still a battery"),
    }
    let mut m = Widget::Mpd(MPD::new("h".to_string(), 1));
    m.refresh(Reading::Player(Some(State::Playing("S".to_string()))));
    assert!(matches!(m.mark(""), Mark::Text(t) if t == "[S]"));
}

#[test]
fn read_status_trims_unicode_white_space() {
    let r = Battery::read_status(&texts(&["\u{a0}42\u{2003}\r\n"]));
    assert_eq!(r, Some(Level { sum: 42, count: 1 }));
}

#[test]
fn greeting_of_the_music_player() {
    assert!(is_mpd_greeting("OK MPD 0.23.5\n"));
    assert!(!is_mpd_greeting("OK MP"));
    assert!(!is_mpd_greeting("SSH-2.0-OpenSSH"));
}

#[test]
fn power_supply_listing_keeps_batteries_in_order() {
    let names = texts(&["AC", "BAT1", "hidpp_battery_0", "BAT0"]);
    let p = PowerSupply::from_listing("/sys/class/power_supply", &names, true);
    assert_eq!(
        p.capacity_files,
        texts(&["/sys/class/power_supply/BAT1/capacity", "/sys/class/power_supply/BAT0/capacity"])
    );
    assert_eq!(p.ac_file, Some("/sys/class/power_supply/AC/online".to_string()));
    let p = PowerSupply::from_listing("/x", &texts(&["ACAD"]), false);
    assert!(p.capacity_files.is_empty());
    assert_eq!(p.ac_file, None);
    assert_eq!(PowerSupply::ac_path("/x"), "/x/AC/online");
}
