//! One redraw pass: what each widget draws, and where, on every surface.

use vstd::prelude::*;

use crate::config::WidgetWrapper;
use crate::engine::Bar;
use crate::layout::{
    draw_x_at, lemma_exact_adjacency, lemma_offset_after_change, lemma_offsets_increase, located_at,
    offset_at, place, valid_widths, Anchor,
};
use crate::widgets::{advance_of, shows, Mark};

verus! {

/// The width each mark takes up, given the measured width of each text.
pub open spec fn advances_of(marks: Seq<Mark>, text_widths: Seq<i32>, content_height: i32) -> Seq<
    i32,
> {
    Seq::new(marks.len(), |i: int| advance_of(marks[i], text_widths[i], content_height))
}

/// The x coordinate of the `i`-th mark of a group: the group laid out by
/// the marks' advances.
pub open spec fn mark_x(
    marks: Seq<Mark>,
    text_widths: Seq<i32>,
    content_height: i32,
    anchor: Anchor,
    gutter: int,
    surface_width: int,
    i: int,
) -> int {
    draw_x_at(advances_of(marks, text_widths, content_height), anchor, gutter, surface_width, i)
}

proof fn lemma_advances_valid(marks: Seq<Mark>, text_widths: Seq<i32>, content_height: i32)
    requires
        text_widths.len() == marks.len(),
        valid_widths(text_widths),
        0 <= content_height,
    ensures
        valid_widths(advances_of(marks, text_widths, content_height)),
{
    let a = advances_of(marks, text_widths, content_height);
    assert forall|k: int| 0 <= k < a.len() implies 0 <= #[trigger] a[k] by {
        assert(0 <= text_widths[k]);
    }
}

/// In a redraw pass, the marks of a group stand at strictly increasing
/// distances from their edge, and the first stands one gutter from it: at
/// `gutter` on the left, at `surface_width - gutter - advance` on the right.
pub proof fn lemma_pass_order(
    marks: Seq<Mark>,
    text_widths: Seq<i32>,
    content_height: i32,
    gutter: int,
    surface_width: int,
)
    requires
        marks.len() > 0,
        text_widths.len() == marks.len(),
        valid_widths(text_widths),
        0 <= content_height,
        gutter > 0,
    ensures
        forall|i: int, j: int|
            0 <= i < j < marks.len() ==> offset_at(
                advances_of(marks, text_widths, content_height),
                gutter,
                i,
            ) < offset_at(advances_of(marks, text_widths, content_height), gutter, j),
        mark_x(marks, text_widths, content_height, Anchor::Left, gutter, surface_width, 0)
            == gutter,
        mark_x(marks, text_widths, content_height, Anchor::Right, gutter, surface_width, 0)
            == surface_width - gutter - advance_of(marks[0], text_widths[0], content_height),
{
    lemma_advances_valid(marks, text_widths, content_height);
    lemma_offsets_increase(advances_of(marks, text_widths, content_height), gutter, surface_width);
}

/// In a redraw pass, neighbouring marks stand exactly one gutter apart: on
/// the left each ends one gutter before the next begins; on the right,
/// mirrored, the next ends one gutter before this one begins.
pub proof fn lemma_pass_adjacency(
    marks: Seq<Mark>,
    text_widths: Seq<i32>,
    content_height: i32,
    gutter: int,
    surface_width: int,
    i: int,
)
    requires
        text_widths.len() == marks.len(),
        valid_widths(text_widths),
        0 <= content_height,
        0 <= i,
        i + 1 < marks.len(),
    ensures
        ({
            let a = advances_of(marks, text_widths, content_height);
            &&& mark_x(marks, text_widths, content_height, Anchor::Left, gutter, surface_width, i)
                + a[i] + gutter == mark_x(
                marks,
                text_widths,
                content_height,
                Anchor::Left,
                gutter,
                surface_width,
                i + 1,
            )
            &&& mark_x(
                marks,
                text_widths,
                content_height,
                Anchor::Right,
                gutter,
                surface_width,
                i + 1,
            ) + a[i + 1] + gutter == mark_x(
                marks,
                text_widths,
                content_height,
                Anchor::Right,
                gutter,
                surface_width,
                i,
            )
        }),
{
    lemma_advances_valid(marks, text_widths, content_height);
    lemma_exact_adjacency(advances_of(marks, text_widths, content_height), gutter, surface_width, i);
}

/// When one mark of the left group changes its advance (new text), and no
/// other mark does, that mark and every one before it keep their x, and every
/// one after it moves by exactly the change.
pub proof fn lemma_pass_one_change(
    marks1: Seq<Mark>,
    widths1: Seq<i32>,
    marks2: Seq<Mark>,
    widths2: Seq<i32>,
    content_height: i32,
    gutter: int,
    surface_width: int,
    k: int,
)
    requires
        widths1.len() == marks1.len(),
        widths2.len() == marks2.len(),
        marks1.len() == marks2.len(),
        0 <= k < marks1.len(),
        forall|j: int|
            0 <= j < marks1.len() && j != k ==> advance_of(marks1[j], widths1[j], content_height)
                == advance_of(marks2[j], widths2[j], content_height),
    ensures
        forall|j: int|
            0 <= j <= k ==> #[trigger] mark_x(
                marks2,
                widths2,
                content_height,
                Anchor::Left,
                gutter,
                surface_width,
                j,
            ) == mark_x(marks1, widths1, content_height, Anchor::Left, gutter, surface_width, j),
        forall|j: int|
            k < j < marks1.len() ==> #[trigger] mark_x(
                marks2,
                widths2,
                content_height,
                Anchor::Left,
                gutter,
                surface_width,
                j,
            ) == mark_x(marks1, widths1, content_height, Anchor::Left, gutter, surface_width, j)
                + advance_of(marks2[k], widths2[k], content_height) - advance_of(
                marks1[k],
                widths1[k],
                content_height,
            ),
{
    let a1 = advances_of(marks1, widths1, content_height);
    let a2 = advances_of(marks2, widths2, content_height);
    assert forall|j: int| 0 <= j < a1.len() && j != k implies #[trigger] a1[j] == a2[j] by {}
    assert forall|j: int| 0 <= j <= marks1.len() implies #[trigger] offset_at(a2, gutter, j)
        == offset_at(a1, gutter, j) + (if j > k {
        a2[k] - a1[k]
    } else {
        0
    }) by {
        lemma_offset_after_change(a1, a2, gutter, k, j);
    }
}

/// The marks the widgets of a group draw now.
fn group_marks(ws: &Vec<WidgetWrapper>, stdin: &str) -> (r: Vec<Mark>)
    ensures
        r@.len() == ws@.len(),
        forall|i: int| 0 <= i < r@.len() ==> shows(ws@[i].widget, stdin@, #[trigger] r@[i]),
{
    let mut r: Vec<Mark> = Vec::new();
    let mut i: usize = 0;
    while i < ws.len()
        invariant
            0 <= i <= ws@.len(),
            r@.len() == i,
            forall|k: int| 0 <= k < i ==> shows(ws@[k].widget, stdin@, #[trigger] r@[k]),
        decreases ws@.len() - i,
    {
        r.push(ws[i].widget.mark(stdin));
        i = i + 1;
    }
    r
}

impl Bar {
    /// What the left and the right group draw now, with the last line of
    /// outside text. Every surface draws the same.
    pub fn marks(&self) -> (r: (Vec<Mark>, Vec<Mark>))
        ensures
            r.0@.len() == self.config.left@.len(),
            forall|i: int|
                0 <= i < r.0@.len() ==> shows(
                    self.config.left@[i].widget,
                    self.input@,
                    #[trigger] r.0@[i],
                ),
            r.1@.len() == self.config.right@.len(),
            forall|i: int|
                0 <= i < r.1@.len() ==> shows(
                    self.config.right@[i].widget,
                    self.input@,
                    #[trigger] r.1@[i],
                ),
    {
        (group_marks(&self.config.left, self.input.as_str()), group_marks(&self.config.right, self.input.as_str()))
    }
}

/// The x coordinate of each mark of a group on a surface: the marks stand
/// one gutter apart, outward from the group's edge, each taking up and
/// placed by its advance.
pub fn arrange(
    marks: &Vec<Mark>,
    text_widths: &Vec<i32>,
    content_height: i32,
    anchor: Anchor,
    gutter: i32,
    surface_width: i32,
) -> (r: Vec<i64>)
    requires
        text_widths@.len() == marks@.len(),
        marks@.len() <= 0x1000_0000,
        0 <= content_height,
        0 <= gutter,
        valid_widths(text_widths@),
    ensures
        r@.len() == marks@.len(),
        forall|i: int|
            0 <= i < r@.len() ==> #[trigger] r@[i] as int == mark_x(
                marks@,
                text_widths@,
                content_height,
                anchor,
                gutter as int,
                surface_width as int,
                i,
            ),
{
    let ghost a = advances_of(marks@, text_widths@, content_height);
    let mut adv: Vec<i32> = Vec::new();
    let mut i: usize = 0;
    while i < marks.len()
        invariant
            0 <= i <= marks@.len(),
            text_widths@.len() == marks@.len(),
            a == advances_of(marks@, text_widths@, content_height),
            adv@ == a.subrange(0, i as int),
        decreases marks@.len() - i,
    {
        adv.push(marks[i].advance(text_widths[i], content_height));
        assert(adv@ =~= a.subrange(0, i + 1));
        i = i + 1;
    }
    assert(adv@ =~= a);
    assert(valid_widths(a)) by {
        assert forall|k: int| 0 <= k < a.len() implies 0 <= #[trigger] a[k] by {
            assert(0 <= text_widths@[k]);
        }
    }
    let locs = place(&adv, anchor, gutter);
    let mut r: Vec<i64> = Vec::new();
    let mut j: usize = 0;
    while j < locs.len()
        invariant
            0 <= j <= locs@.len(),
            locs@.len() == marks@.len(),
            a.len() == marks@.len(),
            a == advances_of(marks@, text_widths@, content_height),
            adv@ == a,
            valid_widths(a),
            forall|k: int|
                0 <= k < locs@.len() ==> #[trigger] locs@[k] == located_at(
                    anchor,
                    offset_at(a, gutter as int, k),
                ),
            forall|k: int|
                0 <= k < locs@.len() ==> 0 <= #[trigger] offset_at(a, gutter as int, k)
                    <= 0x4000_0000_0000_0000,
            r@.len() == j,
            forall|k: int|
                0 <= k < j ==> #[trigger] r@[k] as int == mark_x(
                    marks@,
                    text_widths@,
                    content_height,
                    anchor,
                    gutter as int,
                    surface_width as int,
                    k,
                ),
        decreases locs@.len() - j,
    {
        assert(0 <= offset_at(a, gutter as int, j as int) <= 0x4000_0000_0000_0000);
        assert(0 <= a[j as int]);
        let x = locs[j].target_x(surface_width, adv[j]);
        r.push(x);
        j = j + 1;
    }
    r
}

/// Where the marks stand on one surface.
pub struct Frame {
    pub left: Vec<i64>,
    pub right: Vec<i64>,
}

/// The positions of both groups on every surface, in surface order: one
/// logical layout replayed at each surface's width.
pub fn frames(
    surface_widths: &Vec<i32>,
    left: &Vec<Mark>,
    left_widths: &Vec<i32>,
    right: &Vec<Mark>,
    right_widths: &Vec<i32>,
    content_height: i32,
    gutter: i32,
) -> (r: Vec<Frame>)
    requires
        left_widths@.len() == left@.len(),
        right_widths@.len() == right@.len(),
        left@.len() <= 0x1000_0000,
        right@.len() <= 0x1000_0000,
        0 <= content_height,
        0 <= gutter,
        valid_widths(left_widths@),
        valid_widths(right_widths@),
    ensures
        r@.len() == surface_widths@.len(),
        forall|s: int|
            0 <= s < r@.len() ==> {
                &&& (#[trigger] r@[s]).left@.len() == left@.len()
                &&& r@[s].right@.len() == right@.len()
                &&& forall|i: int|
                    0 <= i < left@.len() ==> #[trigger] r@[s].left@[i] as int == mark_x(
                        left@,
                        left_widths@,
                        content_height,
                        Anchor::Left,
                        gutter as int,
                        surface_widths@[s] as int,
                        i,
                    )
                &&& forall|i: int|
                    0 <= i < right@.len() ==> #[trigger] r@[s].right@[i] as int == mark_x(
                        right@,
                        right_widths@,
                        content_height,
                        Anchor::Right,
                        gutter as int,
                        surface_widths@[s] as int,
                        i,
                    )
            },
{
    let mut r: Vec<Frame> = Vec::new();
    let mut s: usize = 0;
    while s < surface_widths.len()
        invariant
            0 <= s <= surface_widths@.len(),
            left_widths@.len() == left@.len(),
            right_widths@.len() == right@.len(),
            left@.len() <= 0x1000_0000,
            right@.len() <= 0x1000_0000,
            0 <= content_height,
            0 <= gutter,
            valid_widths(left_widths@),
            valid_widths(right_widths@),
            r@.len() == s,
            forall|t: int|
                0 <= t < s ==> {
                    &&& (#[trigger] r@[t]).left@.len() == left@.len()
                    &&& r@[t].right@.len() == right@.len()
                    &&& forall|i: int|
                        0 <= i < left@.len() ==> #[trigger] r@[t].left@[i] as int == mark_x(
                            left@,
                            left_widths@,
                            content_height,
                            Anchor::Left,
                            gutter as int,
                            surface_widths@[t] as int,
                            i,
                        )
                    &&& forall|i: int|
                        0 <= i < right@.len() ==> #[trigger] r@[t].right@[i] as int == mark_x(
                            right@,
                            right_widths@,
                            content_height,
                            Anchor::Right,
                            gutter as int,
                            surface_widths@[t] as int,
                            i,
                        )
                },
        decreases surface_widths@.len() - s,
    {
        let w = surface_widths[s];
        let l = arrange(left, left_widths, content_height, Anchor::Left, gutter, w);
        let rt = arrange(right, right_widths, content_height, Anchor::Right, gutter, w);
        r.push(Frame { left: l, right: rt });
        s = s + 1;
    }
    r
}

} // verus!
