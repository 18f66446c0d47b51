//! Placement of a group of widgets outward from one edge of a surface.

use vstd::prelude::*;

verus! {

/// The geometry of one surface: width, height and offset on the screen.
#[derive(Debug, Clone, Copy)]
pub struct Size {
    pub wd: i32,
    pub ht: i32,
    pub xo: i32,
    pub yo: i32,
}

/// Where a widget stands: its distance from the left or from the right edge.
#[derive(Debug, Clone, Copy, PartialEq, Eq, Structural)]
pub enum Located {
    FromLeft(i64),
    FromRight(i64),
}

/// The edge a group of widgets grows from.
#[derive(Debug, Clone, Copy, PartialEq, Eq, Structural)]
pub enum Anchor {
    Left,
    Right,
}

/// The largest width a widget or a gutter may have.
pub const MAX_EXTENT: i32 = 0x7fff_ffff;

/// Widths that a group may hold: none negative.
pub open spec fn valid_widths(widths: Seq<i32>) -> bool {
    forall|i: int| 0 <= i < widths.len() ==> 0 <= #[trigger] widths[i]
}

/// The distance from the edge at which the `i`-th widget of a group stands:
/// one gutter, then for each earlier widget its width and one more gutter.
pub open spec fn offset_at(widths: Seq<i32>, gutter: int, i: int) -> int
    decreases i,
{
    if i <= 0 {
        gutter
    } else {
        offset_at(widths, gutter, i - 1) + gutter + widths[i - 1]
    }
}

/// The x coordinate at which a widget of width `w` is drawn.
pub open spec fn spec_target_x(loc: Located, surface_width: int, w: int) -> int {
    match loc {
        Located::FromLeft(x) => x as int,
        Located::FromRight(x) => surface_width - (x + w),
    }
}

pub open spec fn located_at(anchor: Anchor, offset: int) -> Located {
    match anchor {
        Anchor::Left => Located::FromLeft(offset as i64),
        Anchor::Right => Located::FromRight(offset as i64),
    }
}

/// The x coordinate of the `i`-th widget of a group on a surface of the given width.
pub open spec fn draw_x_at(
    widths: Seq<i32>,
    anchor: Anchor,
    gutter: int,
    surface_width: int,
    i: int,
) -> int {
    match anchor {
        Anchor::Left => offset_at(widths, gutter, i),
        Anchor::Right => surface_width - (offset_at(widths, gutter, i) + widths[i]),
    }
}

proof fn lemma_offset_bounds(widths: Seq<i32>, gutter: int, i: int)
    requires
        valid_widths(widths),
        0 <= gutter <= MAX_EXTENT,
        0 <= i <= widths.len(),
    ensures
        gutter <= offset_at(widths, gutter, i) <= (2 * i + 1) * MAX_EXTENT,
    decreases i,
{
    if i > 0 {
        lemma_offset_bounds(widths, gutter, i - 1);
        assert(0 <= widths[i - 1] <= MAX_EXTENT);
        assert((2 * (i - 1) + 1) * MAX_EXTENT + 2 * MAX_EXTENT == (2 * i + 1) * MAX_EXTENT)
            by (nonlinear_arith);
    }
}

/// The offset of each widget of a group, in group order.
pub fn offsets(widths: &Vec<i32>, gutter: i32) -> (r: Vec<i64>)
    requires
        valid_widths(widths@),
        0 <= gutter,
        widths@.len() <= 0x1000_0000,
    ensures
        r@.len() == widths@.len(),
        forall|i: int|
            0 <= i < r@.len() ==> #[trigger] r@[i] as int == offset_at(widths@, gutter as int, i),
{
    let mut r: Vec<i64> = Vec::new();
    let mut offset: i64 = gutter as i64;
    let mut i: usize = 0;
    while i < widths.len()
        invariant
            0 <= i <= widths@.len(),
            widths@.len() <= 0x1000_0000,
            valid_widths(widths@),
            0 <= gutter,
            r@.len() == i,
            offset as int == offset_at(widths@, gutter as int, i as int),
            forall|k: int|
                0 <= k < i ==> #[trigger] r@[k] as int == offset_at(widths@, gutter as int, k),
        decreases widths@.len() - i,
    {
        r.push(offset);
        proof {
            lemma_offset_bounds(widths@, gutter as int, i as int + 1);
            assert((2 * (i as int + 1) + 1) * MAX_EXTENT <= (2 * 0x1000_0000 + 1) * MAX_EXTENT)
                by (nonlinear_arith)
                requires
                    i < 0x1000_0000,
            ;
        }
        offset = offset + gutter as i64 + widths[i] as i64;
        i = i + 1;
    }
    r
}

impl Located {
    /// The x coordinate at which a widget of width `w` stands on a surface of
    /// width `surface_width`.
    pub fn target_x(self, surface_width: i32, w: i32) -> (r: i64)
        requires
            w >= 0,
            match self {
                Located::FromLeft(_) => true,
                Located::FromRight(x) => 0 <= x <= 0x4000_0000_0000_0000,
            },
        ensures
            r as int == spec_target_x(self, surface_width as int, w as int),
    {
        match self {
            Located::FromLeft(x) => x,
            Located::FromRight(x) => surface_width as i64 - (x + w as i64),
        }
    }
}

/// Where each widget of a group stands, in group order.
pub fn place(widths: &Vec<i32>, anchor: Anchor, gutter: i32) -> (r: Vec<Located>)
    requires
        valid_widths(widths@),
        0 <= gutter,
        widths@.len() <= 0x1000_0000,
    ensures
        r@.len() == widths@.len(),
        forall|i: int|
            0 <= i < r@.len() ==> #[trigger] r@[i] == located_at(
                anchor,
                offset_at(widths@, gutter as int, i),
            ),
        forall|i: int|
            0 <= i < r@.len() ==> 0 <= #[trigger] offset_at(widths@, gutter as int, i) <= 0x4000_0000_0000_0000,
{
    let offs = offsets(widths, gutter);
    let mut r: Vec<Located> = Vec::new();
    let mut i: usize = 0;
    while i < offs.len()
        invariant
            0 <= i <= offs@.len(),
            offs@.len() == widths@.len(),
            widths@.len() <= 0x1000_0000,
            valid_widths(widths@),
            0 <= gutter,
            forall|k: int|
                0 <= k < offs@.len() ==> #[trigger] offs@[k] as int == offset_at(
                    widths@,
                    gutter as int,
                    k,
                ),
            r@.len() == i,
            forall|k: int|
                0 <= k < i ==> #[trigger] r@[k] == located_at(
                    anchor,
                    offset_at(widths@, gutter as int, k),
                ),
        decreases offs@.len() - i,
    {
        let loc = match anchor {
            Anchor::Left => Located::FromLeft(offs[i]),
            Anchor::Right => Located::FromRight(offs[i]),
        };
        r.push(loc);
        i = i + 1;
    }
    proof {
        assert forall|i: int| 0 <= i < r@.len() implies 0 <= #[trigger] offset_at(
            widths@,
            gutter as int,
            i,
        ) <= 0x4000_0000_0000_0000 by {
            lemma_offset_bounds(widths@, gutter as int, i);
            assert((2 * i + 1) * MAX_EXTENT <= (2 * 0x1000_0000 + 1) * MAX_EXTENT)
                by (nonlinear_arith)
                requires
                    i < 0x1000_0000,
            ;
        }
    }
    r
}

/// Within a group the offsets strictly increase, and the widget nearest the
/// edge stands one gutter away from it: at `gutter` from the left, or at
/// `surface_width - gutter - widths[0]` from the right.
pub proof fn lemma_offsets_increase(widths: Seq<i32>, gutter: int, surface_width: int)
    requires
        widths.len() > 0,
        valid_widths(widths),
        gutter > 0,
    ensures
        forall|i: int, j: int|
            0 <= i < j < widths.len() ==> offset_at(widths, gutter, i) < offset_at(
                widths,
                gutter,
                j,
            ),
        draw_x_at(widths, Anchor::Left, gutter, surface_width, 0) == gutter,
        draw_x_at(widths, Anchor::Right, gutter, surface_width, 0) == surface_width - gutter
            - widths[0],
{
    assert forall|i: int, j: int|
        0 <= i < j < widths.len() implies offset_at(widths, gutter, i) < offset_at(
            widths,
            gutter,
            j,
        ) by {
        lemma_offset_monotone(widths, gutter, i, j);
    }
}

proof fn lemma_offset_monotone(widths: Seq<i32>, gutter: int, i: int, j: int)
    requires
        valid_widths(widths),
        gutter > 0,
        0 <= i < j <= widths.len(),
    ensures
        offset_at(widths, gutter, i) < offset_at(widths, gutter, j),
    decreases j - i,
{
    assert(0 <= widths[j - 1]);
    if i < j - 1 {
        lemma_offset_monotone(widths, gutter, i, j - 1);
    }
}

/// Where two groups differ only in the width of their `k`-th widget, the
/// widgets up to it stand where they stood, and those after it move by the
/// difference.
pub proof fn lemma_offset_after_change(a1: Seq<i32>, a2: Seq<i32>, gutter: int, k: int, j: int)
    requires
        a1.len() == a2.len(),
        0 <= k < a1.len(),
        0 <= j <= a1.len(),
        forall|i: int| 0 <= i < a1.len() && i != k ==> a1[i] == a2[i],
    ensures
        offset_at(a2, gutter, j) == offset_at(a1, gutter, j) + (if j > k {
            a2[k] - a1[k]
        } else {
            0
        }),
    decreases j,
{
    if j > 0 {
        lemma_offset_after_change(a1, a2, gutter, k, j - 1);
        if j - 1 != k {
            assert(a1[j - 1] == a2[j - 1]);
        }
    }
}

/// Neighbours in a group stand exactly one gutter apart: on the left, each
/// widget ends one gutter before the next begins; on the right, mirrored, the
/// next widget ends one gutter before this one begins.
pub proof fn lemma_exact_adjacency(widths: Seq<i32>, gutter: int, surface_width: int, i: int)
    requires
        valid_widths(widths),
        0 <= i,
        i + 1 < widths.len(),
    ensures
        draw_x_at(widths, Anchor::Left, gutter, surface_width, i) + widths[i] + gutter
            == draw_x_at(widths, Anchor::Left, gutter, surface_width, i + 1),
        draw_x_at(widths, Anchor::Right, gutter, surface_width, i + 1) + widths[i + 1] + gutter
            == draw_x_at(widths, Anchor::Right, gutter, surface_width, i),
{
}

} // verus!
