//! Selections over a raster and the extraction of what they select.

use vstd::prelude::*;
use vstd::string::*;
use crate::geometry::{Rect, Window};
use crate::raster::{Grid, Raster};
use crate::text::{decimal, push_decimal, push_signed_decimal, signed_decimal};

verus! {

/// A region of the flattened document.
#[derive(Clone, Copy, PartialEq, Eq, Debug, Structural)]
pub enum Selection {
    /// A rectangle.
    Rect(Rect),
}

/// How much of a selection `copy` extracts.
#[derive(Clone, Copy, PartialEq, Eq, Debug, Structural)]
pub enum CopyMode {
    /// The smallest box that holds every visible pixel of the selection.
    Shrink,
    /// The whole selection, whatever its pixels show.
    Exact,
}

/// The window that covers a grid.
pub open spec fn bounds(g: Grid) -> Window {
    Window { x0: 0, y0: 0, x1: g.width as i64, y1: g.height as i64 }
}

/// Whether `b` is the tight box of the visible pixels of `g` inside `win`:
/// it lies in `win`, it holds every visible pixel of `win`, and each of its
/// four edges touches one.
pub open spec fn tight(g: Grid, win: Window, b: Window) -> bool {
    &&& win.x0 <= b.x0 < b.x1 <= win.x1
    &&& win.y0 <= b.y0 < b.y1 <= win.y1
    &&& forall|x: int, y: int| win.contains(x, y) && #[trigger] g.shows(x, y) ==> b.contains(x, y)
    &&& exists|y: int| b.y0 <= y < b.y1 && #[trigger] g.shows(b.x0 as int, y)
    &&& exists|y: int| b.y0 <= y < b.y1 && #[trigger] g.shows(b.x1 - 1, y)
    &&& exists|x: int| b.x0 <= x < b.x1 && #[trigger] g.shows(x, b.y0 as int)
    &&& exists|x: int| b.x0 <= x < b.x1 && #[trigger] g.shows(x, b.y1 - 1)
}

/// The tight box of the visible pixels of `g` inside `win`, or `None`
/// where `win` shows nothing.
pub open spec fn content_box(g: Grid, win: Window) -> Option<Window> {
    if exists|b: Window| tight(g, win, b) {
        Some(choose|b: Window| tight(g, win, b))
    } else {
        None
    }
}

/// The part of `g` that `b` covers.
pub open spec fn cut(g: Grid, b: Window) -> Grid {
    g.crop(b.x0 as int, b.y0 as int, (b.x1 - b.x0) as nat, (b.y1 - b.y0) as nat)
}

/// There is at most one tight box.
pub proof fn lemma_tight_unique(g: Grid, win: Window, a: Window, b: Window)
    requires
        tight(g, win, a),
        tight(g, win, b),
    ensures
        a == b,
{
    let la = choose|y: int| a.y0 <= y < a.y1 && #[trigger] g.shows(a.x0 as int, y);
    let lb = choose|y: int| b.y0 <= y < b.y1 && #[trigger] g.shows(b.x0 as int, y);
    let ra = choose|y: int| a.y0 <= y < a.y1 && #[trigger] g.shows(a.x1 - 1, y);
    let rb = choose|y: int| b.y0 <= y < b.y1 && #[trigger] g.shows(b.x1 - 1, y);
    let ta = choose|x: int| a.x0 <= x < a.x1 && #[trigger] g.shows(x, a.y0 as int);
    let tb = choose|x: int| b.x0 <= x < b.x1 && #[trigger] g.shows(x, b.y0 as int);
    let ba = choose|x: int| a.x0 <= x < a.x1 && #[trigger] g.shows(x, a.y1 - 1);
    let bb = choose|x: int| b.x0 <= x < b.x1 && #[trigger] g.shows(x, b.y1 - 1);
    assert(win.contains(a.x0 as int, la) && b.contains(a.x0 as int, la));
    assert(win.contains(b.x0 as int, lb) && a.contains(b.x0 as int, lb));
    assert(win.contains(a.x1 - 1, ra) && b.contains(a.x1 - 1, ra));
    assert(win.contains(b.x1 - 1, rb) && a.contains(b.x1 - 1, rb));
    assert(win.contains(ta, a.y0 as int) && b.contains(ta, a.y0 as int));
    assert(win.contains(tb, b.y0 as int) && a.contains(tb, b.y0 as int));
    assert(win.contains(ba, a.y1 - 1) && b.contains(ba, a.y1 - 1));
    assert(win.contains(bb, b.y1 - 1) && a.contains(bb, b.y1 - 1));
}

/// The tight box of the visible pixels of `source` inside `win`, as far as
/// `win` lies on `source`; `None` where nothing shows there.
pub fn content_bounds(source: &Raster, win: Window) -> (found: Option<Window>)
    ensures
        found == content_box(source@, win.spec_intersect(bounds(source@))),
{
    let ghost g = source@;
    let all = Window { x0: 0, y0: 0, x1: source.width() as i64, y1: source.height() as i64 };
    let win = win.intersect(all);
    let mut any = false;
    let mut min_x: i64 = 0;
    let mut max_x: i64 = 0;
    let mut min_y: i64 = 0;
    let mut max_y: i64 = 0;
    let ghost mut left_at: int = 0;
    let ghost mut right_at: int = 0;
    let ghost mut top_at: int = 0;
    let ghost mut bottom_at: int = 0;
    let mut y: i64 = win.y0;
    while y < win.y1
        invariant
            g == source@,
            g.width <= u32::MAX,
            g.height <= u32::MAX,
            0 <= win.x0,
            win.x1 <= g.width,
            0 <= win.y0 <= y,
            win.y1 <= g.height,
            !any ==> forall|i: int, j: int|
                win.contains(i, j) && j < y ==> !#[trigger] g.shows(i, j),
            any ==> {
                &&& win.x0 <= min_x <= max_x < win.x1
                &&& win.y0 <= min_y <= max_y < y
                &&& max_y < win.y1
                &&& forall|i: int, j: int|
                    win.contains(i, j) && j < y && #[trigger] g.shows(i, j) ==> min_x <= i <= max_x
                        && min_y <= j <= max_y
                &&& min_y <= left_at <= max_y && g.shows(min_x as int, left_at)
                &&& min_y <= right_at <= max_y && g.shows(max_x as int, right_at)
                &&& min_x <= top_at <= max_x && g.shows(top_at, min_y as int)
                &&& min_x <= bottom_at <= max_x && g.shows(bottom_at, max_y as int)
            },
        decreases win.y1 - y,
    {
        let mut x: i64 = win.x0;
        while x < win.x1
            invariant
                g == source@,
                g.width <= u32::MAX,
                g.height <= u32::MAX,
                0 <= win.x0 <= x,
                win.x1 <= g.width,
                0 <= win.y0 <= y < win.y1,
                win.y1 <= g.height,
                !any ==> forall|i: int, j: int|
                    win.contains(i, j) && (j < y || (j == y && i < x)) ==> !#[trigger] g.shows(
                        i,
                        j,
                    ),
                any ==> {
                    &&& win.x0 <= min_x <= max_x < win.x1
                    &&& win.y0 <= min_y <= max_y <= y
                    &&& forall|i: int, j: int|
                        win.contains(i, j) && (j < y || (j == y && i < x)) && #[trigger] g.shows(
                            i,
                            j,
                        ) ==> min_x <= i <= max_x && min_y <= j <= max_y
                    &&& min_y <= left_at <= max_y && g.shows(min_x as int, left_at)
                    &&& min_y <= right_at <= max_y && g.shows(max_x as int, right_at)
                    &&& min_x <= top_at <= max_x && g.shows(top_at, min_y as int)
                    &&& min_x <= bottom_at <= max_x && g.shows(bottom_at, max_y as int)
                },
            decreases win.x1 - x,
        {
            let p = source.get_pixel(x as u32, y as u32);
            if p.is_visible() {
                if !any {
                    any = true;
                    min_x = x;
                    max_x = x;
                    min_y = y;
                    max_y = y;
                    proof {
                        left_at = y as int;
                        right_at = y as int;
                        top_at = x as int;
                        bottom_at = x as int;
                    }
                } else {
                    if x < min_x {
                        min_x = x;
                        proof {
                            left_at = y as int;
                        }
                    }
                    if x > max_x {
                        max_x = x;
                        proof {
                            right_at = y as int;
                        }
                    }
                    if y > max_y {
                        max_y = y;
                        proof {
                            bottom_at = x as int;
                        }
                    }
                }
            }
            x = x + 1;
        }
        y = y + 1;
    }
    if !any {
        proof {
            assert forall|b: Window| !tight(g, win, b) by {
                if tight(g, win, b) {
                    let at = choose|j: int| b.y0 <= j < b.y1 && #[trigger] g.shows(b.x0 as int, j);
                    assert(win.contains(b.x0 as int, at));
                }
            }
        }
        None
    } else {
        let found = Window { x0: min_x, y0: min_y, x1: max_x + 1, y1: max_y + 1 };
        proof {
            assert(g.shows(found.x0 as int, left_at));
            assert(g.shows(found.x1 - 1, right_at));
            assert(g.shows(top_at, found.y0 as int));
            assert(g.shows(bottom_at, found.y1 - 1));
            assert(tight(g, win, found));
            lemma_tight_unique(g, win, found, choose|b: Window| tight(g, win, b));
        }
        Some(found)
    }
}

impl Selection {
    /// The rectangle that bounds the selection.
    pub open spec fn spec_rect(self) -> Rect {
        match self {
            Selection::Rect(rect) => rect,
        }
    }

    #[verifier::when_used_as_spec(spec_rect)]
    pub fn rect(self) -> (rect: Rect)
        ensures
            rect == self.spec_rect(),
    {
        match self {
            Selection::Rect(rect) => rect,
        }
    }

    /// The part of the selection that lies on `source`.
    pub open spec fn region(self, source: Grid) -> Window {
        self.spec_rect().spec_window().spec_intersect(bounds(source))
    }

    /// The window that `copy` extracts from `source`: nothing where the
    /// selection misses `source`; else, for `Exact`, the part of the
    /// selection on `source`, and for `Shrink` the tight box of what shows
    /// in that part, or nothing where nothing shows.
    pub open spec fn extract_window(self, source: Grid, mode: CopyMode) -> Option<Window> {
        let region = self.region(source);
        if region.spec_is_empty() {
            None
        } else {
            match mode {
                CopyMode::Exact => Some(region),
                CopyMode::Shrink => content_box(source, region),
            }
        }
    }

    /// The pixels that `copy` extracts from `source`.
    pub open spec fn spec_copy(self, source: Grid, mode: CopyMode) -> Option<Grid> {
        match self.extract_window(source, mode) {
            Some(b) => Some(cut(source, b)),
            None => None,
        }
    }

    /// Extracts the selected part of `source` as a raster of its own;
    /// `source` stays as it is.
    pub fn copy(&self, source: &Raster, mode: CopyMode) -> (out: Option<Raster>)
        ensures
            out is Some <==> self.spec_copy(source@, mode) is Some,
            out matches Some(image) ==> Some(image@) == self.spec_copy(source@, mode),
    {
        let all = Window { x0: 0, y0: 0, x1: source.width() as i64, y1: source.height() as i64 };
        let region = self.rect().window().intersect(all);
        if region.is_empty() {
            return None;
        }
        let found = match mode {
            CopyMode::Exact => Some(region),
            CopyMode::Shrink => {
                assert(region.spec_intersect(bounds(source@)) == region);
                content_bounds(source, region)
            },
        };
        match found {
            None => None,
            Some(b) => {
                Some(
                    source.crop(
                        b.x0 as u32,
                        b.y0 as u32,
                        (b.x1 - b.x0) as u32,
                        (b.y1 - b.y0) as u32,
                    ),
                )
            },
        }
    }

    /// The text that describes the selection.
    pub open spec fn spec_description(self) -> Seq<char> {
        let rect = self.spec_rect();
        "X: "@ + signed_decimal(rect.x as int) + ", Y: "@ + signed_decimal(rect.y as int) + ", W: "@
            + decimal(rect.width as nat) + ", H: "@ + decimal(rect.height as nat)
    }

    /// A line of text that describes the selection: its corner and size.
    pub fn description(&self) -> (text: String)
        ensures
            text@ == self.spec_description(),
    {
        let rect = self.rect();
        let mut text = String::from_str("X: ");
        push_signed_decimal(&mut text, rect.x as i64);
        text.append(", Y: ");
        push_signed_decimal(&mut text, rect.y as i64);
        text.append(", W: ");
        push_decimal(&mut text, rect.width as u64);
        text.append(", H: ");
        push_decimal(&mut text, rect.height as u64);
        text
    }
}

/// Shrinking finds a lone shape: where the visible pixels of `source` are
/// just those of a box `shape` that the selection holds, `copy` with
/// `Shrink` extracts that box and not the selection.
pub proof fn lemma_shrink_finds_shape(source: Grid, selection: Selection, shape: Window)
    requires
        !shape.spec_is_empty(),
        forall|x: int, y: int| shape.contains(x, y) ==> selection.region(source).contains(x, y),
        forall|x: int, y: int| #[trigger] source.shows(x, y) <==> shape.contains(x, y),
    ensures
        selection.extract_window(source, CopyMode::Shrink) == Some(shape),
        selection.spec_copy(source, CopyMode::Shrink) == Some(cut(source, shape)),
{
    let region = selection.region(source);
    assert(shape.contains(shape.x0 as int, shape.y0 as int));
    assert(shape.contains(shape.x1 - 1, shape.y1 - 1));
    assert(region.contains(shape.x0 as int, shape.y0 as int));
    assert(region.contains(shape.x1 - 1, shape.y1 - 1));
    assert(source.shows(shape.x0 as int, shape.y0 as int));
    assert(source.shows(shape.x1 - 1, shape.y0 as int));
    assert(source.shows(shape.x0 as int, shape.y1 - 1));
    assert(tight(source, region, shape));
    lemma_tight_unique(source, region, shape, choose|b: Window| tight(source, region, b));
}

} // verus!
