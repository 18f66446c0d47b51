use knurling::config::WidgetWrapper;
use knurling::widgets::{Battery, Caesura, Level, PowerSupply, Reading, Stdin, Time, Widget, MPD};

fn nothing(_w: &Widget) -> Reading {
    Reading::Player(None)
}

fn battery() -> Widget {
    Widget::Battery(Battery::new(PowerSupply {
        capacity_files: vec!["/sys/class/power_supply/BAT0/capacity".to_string()],
        ac_file: None,
    }))
}

#[test]
fn interval_widgets_start_refreshed_now() {
    let w = WidgetWrapper::new(battery(), 1_000, &nothing);
    assert_eq!(w.update, Some((10_000, 1_000)));
    let w = WidgetWrapper::new(Widget::Mpd(MPD::new("localhost".to_string(), 6600)), 7, &nothing);
    assert_eq!(w.update, Some((5_000, 7)));
}

#[test]
fn widgets_without_interval_have_no_schedule() {
    assert_eq!(WidgetWrapper::new(Widget::Time(Time::new()), 5, &nothing).update, None);
    assert_eq!(WidgetWrapper::new(Widget::Stdin(Stdin::new()), 5, &nothing).update, None);
    assert_eq!(WidgetWrapper::new(Widget::Caesura(Caesura), 5, &nothing).update, None);
}

#[test]
fn no_refresh_before_the_interval_has_passed() {
    let mut w = WidgetWrapper::new(battery(), 0, &nothing);
    assert!(!w.update(1));
    assert!(!w.update(9_999));
    assert_eq!(w.update, Some((10_000, 0)));
}

#[test]
fn refresh_once_more_than_the_interval_has_passed() {
    let mut w = WidgetWrapper::new(battery(), 0, &nothing);
    // exactly the interval is not yet more than it
    assert!(!w.update(10_000));
    assert!(w.update(10_001));
    assert_eq!(w.update, Some((10_000, 10_001)));
    assert!(!w.update(15_000));
    assert!(w.update(20_002));
}

#[test]
fn clock_going_back_refreshes_nothing() {
    let mut w = WidgetWrapper::new(battery(), 50_000, &nothing);
    assert!(!w.update(0));
    assert_eq!(w.update, Some((10_000, 50_000)));
}

#[test]
fn unscheduled_widget_is_never_refreshed() {
    let mut w = WidgetWrapper::new(Widget::Stdin(Stdin::new()), 0, &nothing);
    for now in [0u64, 1, 1_000_000, u64::MAX] {
        assert!(!w.update(now));
    }
    assert_eq!(w.update, None);
}

#[test]
fn interval_widgets_are_refreshed_at_creation() {
    let read = |_w: &Widget| Reading::Power { capacities: Some(vec!["64\n".to_string()]), online: None };
    let w = WidgetWrapper::new(battery(), 3, &read);
    match &w.widget {
        Widget::Battery(b) => assert_eq!(b.last_status, Level { sum: 64, count: 1 }),
        _ => panic!("a battery"),
    }
    assert_eq!(w.update, Some((10_000, 3)));
}

#[test]
fn widgets_without_interval_are_not_read_at_creation() {
    let read = |_w: &Widget| -> Reading { panic!("nothing to read") };
    let w = WidgetWrapper::new(Widget::Stdin(Stdin::new()), 3, &read);
    assert!(matches!(w.widget, Widget::Stdin(_)));
}
