use knurling::config::{
    color_from_hex, mk_widget, Config, ConfigError, Document, Field, Key, Rgb, Section, Slot,
};
use knurling::layout::Anchor;
use knurling::widgets::{Level, PowerSupply, Reading, State, Widget};

fn nothing(_w: &Widget) -> Reading {
    Reading::Player(None)
}

fn named(name: &str) -> Option<Section> {
    Some(Section { name: Field::Text(name.to_string()), host: Field::Missing, port: Field::Missing })
}

fn mpd(host: Field, port: Field) -> Option<Section> {
    Some(Section { name: Field::Text("mpd".to_string()), host, port })
}

fn doc(widgets: Vec<Option<Section>>) -> Document {
    Document {
        widgets: Some(widgets),
        background: Field::Missing,
        foreground: Field::Missing,
        font: Field::Missing,
    }
}

fn supply() -> Option<PowerSupply> {
    Some(PowerSupply {
        capacity_files: vec!["/sys/class/power_supply/BAT0/capacity".to_string()],
        ac_file: None,
    })
}

fn kinds(ws: &[knurling::config::WidgetWrapper]) -> Vec<&'static str> {
    ws.iter()
        .map(|w| match &w.widget {
            Widget::Time(_) => "time",
            Widget::Stdin(_) => "stdin",
            Widget::SmallBox(_) => "box",
            Widget::Caesura(_) => "caesura",
            Widget::Battery(_) => "battery",
            Widget::Mpd(_) => "mpd",
        })
        .collect()
}

#[test]
fn hex_colors_in_pairs_and_singly() {
    assert_eq!(color_from_hex("0x1a2b3c"), Some(Rgb { r: 26, g: 43, b: 60 }));
    assert_eq!(color_from_hex("#FFF"), Some(Rgb { r: 15, g: 15, b: 15 }));
    assert_eq!(color_from_hex("0x0xabc"), Some(Rgb { r: 10, g: 11, b: 12 }));
    assert_eq!(color_from_hex("#00ff00"), Some(Rgb { r: 0, g: 255, b: 0 }));
}

#[test]
fn hex_colors_of_other_lengths_are_refused() {
    assert_eq!(color_from_hex("#12345"), None);
    assert_eq!(color_from_hex(""), None);
    assert_eq!(color_from_hex("red"), None);
    assert_eq!(color_from_hex("#12g456"), None);
}

#[test]
fn hex_color_pairs_may_carry_a_sign() {
    assert_eq!(color_from_hex("#a1-f+f"), Some(Rgb { r: 161, g: -15, b: 15 }));
}

#[test]
fn registry_builds_each_named_widget() {
    let none = Section { name: Field::Missing, host: Field::Missing, port: Field::Missing };
    assert!(matches!(mk_widget("box", &none, &None), Ok(Widget::SmallBox(_))));
    assert!(matches!(mk_widget("caesura", &none, &None), Ok(Widget::Caesura(_))));
    assert!(matches!(mk_widget("stdin", &none, &None), Ok(Widget::Stdin(_))));
    assert!(matches!(mk_widget("time", &none, &None), Ok(Widget::Time(_))));
    assert!(matches!(mk_widget("battery", &none, &supply()), Ok(Widget::Battery(_))));
    assert!(matches!(mk_widget("battery", &none, &None), Err(ConfigError::NoPowerSupply)));
    assert!(matches!(mk_widget("clock", &none, &None), Err(ConfigError::NoWidget(n)) if n == "clock"));
}

#[test]
fn registry_checks_the_music_players_address() {
    let ok = mpd(Field::Text("localhost".to_string()), Field::Int(6600)).unwrap();
    match mk_widget("mpd", &ok, &None) {
        Ok(Widget::Mpd(m)) => {
            assert_eq!(m.host, "localhost");
            assert_eq!(m.port, 6600);
        },
        _ => panic!("expected a music widget"),
    }
    let bad_host = mpd(Field::Int(1), Field::Int(6600)).unwrap();
    assert!(matches!(mk_widget("mpd", &bad_host, &None), Err(ConfigError::MpdHost)));
    let bad_port = mpd(Field::Text("h".to_string()), Field::Text("6600".to_string())).unwrap();
    assert!(matches!(mk_widget("mpd", &bad_port, &None), Err(ConfigError::MpdPort)));
    let no_port = mpd(Field::Text("h".to_string()), Field::Missing).unwrap();
    assert!(matches!(mk_widget("mpd", &no_port, &None), Err(ConfigError::MpdPort)));
}

#[test]
fn right_group_is_reversed_at_construction() {
    let d = doc(vec![named("box"), named("stdin"), named("sep"), named("caesura"), named("time")]);
    let c = Config::from_document(&d, &None, 0, &nothing).unwrap_or_else(|_| panic!("valid"));
    assert_eq!(kinds(&c.left), vec!["box", "stdin"]);
    assert_eq!(kinds(&c.right), vec!["time", "caesura"]);
    assert_eq!(c.font(), "Fira Mono 18");
    assert_eq!(c.background, None);
    assert_eq!(c.get_height(), 0);
}

#[test]
fn widgets_after_a_second_separator_stay_right() {
    let d = doc(vec![named("sep"), named("box"), named("sep"), named("stdin")]);
    let c = Config::from_document(&d, &None, 0, &nothing).unwrap_or_else(|_| panic!("valid"));
    assert!(c.left.is_empty());
    assert_eq!(kinds(&c.right), vec!["stdin", "box"]);
}

#[test]
fn invalid_documents() {
    let no_list = Document {
        widgets: None,
        background: Field::Missing,
        foreground: Field::Missing,
        font: Field::Missing,
    };
    assert!(matches!(Config::from_document(&no_list, &None, 0, &nothing), Err(ConfigError::Invalid)));
    let not_table = doc(vec![named("box"), None]);
    assert!(matches!(Config::from_document(&not_table, &None, 0, &nothing), Err(ConfigError::Invalid)));
    let bad_name = doc(vec![Some(Section {
        name: Field::Int(3),
        host: Field::Missing,
        port: Field::Missing,
    })]);
    assert!(matches!(Config::from_document(&bad_name, &None, 0, &nothing), Err(ConfigError::Invalid)));
    let unknown = doc(vec![named("box"), named("weather"), named("nope")]);
    assert!(matches!(
        Config::from_document(&unknown, &None, 0, &nothing),
        Err(ConfigError::NoWidget(n)) if n == "weather"
    ));
}

#[test]
fn settings_are_read_after_the_widgets() {
    let mut d = doc(vec![named("time")]);
    d.background = Field::Text("#102030".to_string());
    d.foreground = Field::Text("fff".to_string());
    d.font = Field::Text("Sans 12".to_string());
    let c = Config::from_document(&d, &None, 0, &nothing).unwrap_or_else(|_| panic!("valid"));
    assert_eq!(c.background, Some(Rgb { r: 16, g: 32, b: 48 }));
    assert_eq!(c.foreground, Some(Rgb { r: 15, g: 15, b: 15 }));
    assert_eq!(c.font(), "Sans 12");

    d.foreground = Field::Text("white".to_string());
    assert!(matches!(
        Config::from_document(&d, &None, 0, &nothing),
        Err(ConfigError::BadColor(t)) if t == "white"
    ));
    d.foreground = Field::Missing;
    d.background = Field::Int(0);
    assert!(matches!(
        Config::from_document(&d, &None, 0, &nothing),
        Err(ConfigError::NotText(Key::Background))
    ));
    d.background = Field::Missing;
    d.foreground = Field::Other;
    assert!(matches!(
        Config::from_document(&d, &None, 0, &nothing),
        Err(ConfigError::NotText(Key::Foreground))
    ));
    d.foreground = Field::Missing;
    d.font = Field::Int(12);
    assert!(matches!(Config::from_document(&d, &None, 0, &nothing), Err(ConfigError::NotText(Key::Font))));
}

#[test]
fn text_height_sets_gutter_and_bar_height() {
    let mut c = Config::from_document(&doc(vec![]), &None, 0, &nothing).unwrap_or_else(|_| panic!("valid"));
    c.set_text_height(23);
    assert_eq!(c.buffer, 5);
    assert_eq!(c.get_height(), 33);
    assert_eq!(c.content_height(), 23);
}

#[test]
fn tick_lists_due_widgets_left_then_right() {
    let d = doc(vec![
        named("battery"),
        named("box"),
        named("sep"),
        mpd(Field::Text("h".to_string()), Field::Int(1)),
        named("battery"),
    ]);
    let mut c = Config::from_document(&d, &supply(), 0, &nothing).unwrap_or_else(|_| panic!("valid"));
    // right group reversed: battery, mpd
    assert!(c.update(4_000).is_empty());
    assert_eq!(c.update(6_000), vec![Slot { side: Anchor::Right, index: 1 }]);
    assert_eq!(
        c.update(10_500),
        vec![Slot { side: Anchor::Left, index: 0 }, Slot { side: Anchor::Right, index: 0 }]
    );
    assert_eq!(c.left[0].update, Some((10_000, 10_500)));
    assert_eq!(c.right[1].update, Some((5_000, 6_000)));
}

#[test]
fn refresh_reaches_the_slot_only() {
    let d = doc(vec![named("battery"), named("sep"), named("battery")]);
    let mut c = Config::from_document(&d, &supply(), 0, &nothing).unwrap_or_else(|_| panic!("valid"));
    c.refresh(
        Slot { side: Anchor::Right, index: 0 },
        Reading::Power { capacities: Some(vec!["12".to_string()]), online: None },
    );
    match (&c.left[0].widget, &c.right[0].widget) {
        (Widget::Battery(l), Widget::Battery(r)) => {
            assert_eq!(l.last_status, Level { sum: 100, count: 1 });
            assert_eq!(r.last_status, Level { sum: 12, count: 1 });
        },
        _ => panic!("two batteries"),
    }
    c.refresh(Slot { side: Anchor::Left, index: 0 }, Reading::Player(Some(State::Stopped)));
    match &c.left[0].widget {
        Widget::Battery(l) => assert_eq!(l.last_status, Level { sum: 100, count: 1 }),
        _ => panic!("a battery"),
    }
}
