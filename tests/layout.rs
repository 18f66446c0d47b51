use knurling::layout::{offsets, place, Anchor, Located};
use knurling::redraw::arrange;
use knurling::widgets::Mark;

/// The x of each widget of a group, every widget drawn as a square of its own width.
fn draw_xs(widths: &Vec<i32>, anchor: Anchor, gutter: i32, surface_width: i32) -> Vec<i64> {
    let locs = place(widths, anchor, gutter);
    locs.iter().zip(widths).map(|(l, w)| l.target_x(surface_width, *w)).collect()
}

#[test]
fn arrange_places_each_mark_by_its_advance() {
    let marks = vec![Mark::Rule, Mark::Text("ab".to_string())];
    let widths = vec![0, 19];
    assert_eq!(arrange(&marks, &widths, 30, Anchor::Right, 10, 800), vec![788, 800 - 22 - 19]);
    assert_eq!(arrange(&marks, &widths, 30, Anchor::Left, 10, 800), vec![10, 22]);
}


#[test]
fn offsets_accumulate_widths_and_gutters() {
    let widths = vec![40, 95, 2];
    assert_eq!(offsets(&widths, 10), vec![10, 60, 165]);
}

#[test]
fn left_group_starts_one_gutter_from_the_edge() {
    let widths = vec![40, 95];
    assert_eq!(draw_xs(&widths, Anchor::Left, 10, 800), vec![10, 60]);
}

#[test]
fn right_group_grows_inward_from_the_right_edge() {
    let widths = vec![150, 30];
    // 800 - (10 + 150), then 800 - (170 + 30)
    assert_eq!(draw_xs(&widths, Anchor::Right, 10, 800), vec![640, 600]);
}

#[test]
fn neighbours_stand_exactly_one_gutter_apart() {
    let widths = vec![7, 0, 13, 250, 1];
    let m = 6;
    let left = draw_xs(&widths, Anchor::Left, m, 1024);
    let right = draw_xs(&widths, Anchor::Right, m, 1024);
    for i in 0..widths.len() - 1 {
        assert_eq!(left[i] + widths[i] as i64 + m as i64, left[i + 1]);
        assert_eq!(right[i + 1] + widths[i + 1] as i64 + m as i64, right[i]);
        assert!(left[i] < left[i + 1]);
    }
    assert_eq!(left[0], 6);
    assert_eq!(right[0], 1024 - 6 - 7);
}

#[test]
fn empty_group_places_nothing() {
    let widths: Vec<i32> = Vec::new();
    assert!(offsets(&widths, 10).is_empty());
    assert!(place(&widths, Anchor::Right, 10).is_empty());
    assert!(draw_xs(&widths, Anchor::Left, 10, 800).is_empty());
}

#[test]
fn place_reports_the_edge_of_each_widget() {
    let widths = vec![5, 5];
    let locs = place(&widths, Anchor::Right, 3);
    assert_eq!(locs, vec![Located::FromRight(3), Located::FromRight(11)]);
    let locs = place(&widths, Anchor::Left, 3);
    assert_eq!(locs, vec![Located::FromLeft(3), Located::FromLeft(11)]);
}

#[test]
fn target_x_measures_from_the_named_edge() {
    assert_eq!(Located::FromLeft(25).target_x(800, 40), 25);
    assert_eq!(Located::FromRight(25).target_x(800, 40), 735);
    assert_eq!(Located::FromRight(10).target_x(100, 1), 89);
}

#[test]
fn groups_may_overlap_each_other_when_too_wide() {
    let widths = vec![300, 300];
    let left = draw_xs(&widths, Anchor::Left, 10, 500);
    let right = draw_xs(&widths, Anchor::Right, 10, 500);
    assert_eq!(left, vec![10, 320]);
    assert_eq!(right, vec![190, -120]);
}
