//! Planes, the layers of a document, and the stack that composes them.

use vstd::prelude::*;
use vstd::string::*;
use std::sync::Arc;
use crate::geometry::{Point, Size, Vec2, Window};
use crate::raster::{Grid, Raster, Rgba};
use crate::text::{decimal, push_decimal};

verus! {

/// One visual layer.
pub enum Plane {
    /// A raster image, shared with whoever else holds the same buffer.
    Image(Arc<Raster>),
}

/// The place of a plane in the stack that `push` put it on.
#[derive(Debug, Clone, Copy)]
pub struct PlaneIndex(usize);

/// A plane together with its offset in the stack.
pub struct PlaneData {
    pub inner: Plane,
    pub transform: Vec2,
}

/// An ordered stack of planes; the first is painted first, so the last is
/// on top.
pub struct Planes {
    planes: Vec<PlaneData>,
}

/// `Arc::clone`: a second handle to the same buffer. The handle stands for
/// the raster that the first one stands for.
#[verifier::external_body]
pub(crate) fn share(buffer: &Arc<Raster>) -> (handle: Arc<Raster>)
    ensures
        handle == *buffer,
{
    Arc::clone(buffer)
}

/// `Arc::ptr_eq`: whether two handles point to one allocation. Two handles
/// that do stand for the same raster; of two handles that do not, nothing
/// is claimed.
#[verifier::external_body]
pub(crate) fn same_buffer(a: &Arc<Raster>, b: &Arc<Raster>) -> (same: bool)
    ensures
        same ==> *a == *b,
{
    Arc::ptr_eq(a, b)
}

impl Plane {
    /// The pixels of the plane.
    pub open spec fn grid(&self) -> Grid {
        match self {
            Plane::Image(it) => it@,
        }
    }

    /// The pixels of a plane form a well-formed grid of a raster's size.
    pub proof fn lemma_grid_wf(&self)
        ensures
            self.grid().wf(),
            self.grid().width <= u32::MAX,
            self.grid().height <= u32::MAX,
    {
        match self {
            Plane::Image(it) => {
                (**it).lemma_view_wf();
            },
        }
    }

    /// A plane that shows `raster`.
    pub fn from_raster(raster: Raster) -> (plane: Plane)
        ensures
            plane == Plane::Image(Arc::new(raster)),
            plane.grid() == raster@,
    {
        Plane::Image(Arc::new(raster))
    }

    /// The size of what the plane paints: for an image, its dimensions.
    pub fn paint_size(&self) -> (size: Option<Size>)
        ensures
            size == Some(
                Size { width: self.grid().width as u64, height: self.grid().height as u64 },
            ),
    {
        match self {
            Plane::Image(it) => Some(
                Size { width: it.width() as u64, height: it.height() as u64 },
            ),
        }
    }

    /// A handle to the buffer of the plane.
    pub fn image(&self) -> (buffer: Arc<Raster>)
        ensures
            Plane::Image(buffer) == *self,
    {
        match self {
            Plane::Image(it) => share(it),
        }
    }

    /// The text that `describe` gives.
    pub open spec fn spec_describe(&self) -> Seq<char> {
        "Plane { Image : DynamicImage["@ + decimal(self.grid().width) + ", "@ + decimal(
            self.grid().height,
        ) + "] }"@
    }

    /// A line of text for logs: the kind of the plane and its size.
    pub fn describe(&self) -> (text: String)
        ensures
            text@ == self.spec_describe(),
    {
        match self {
            Plane::Image(it) => {
                let mut text = String::from_str("Plane { Image : DynamicImage[");
                push_decimal(&mut text, it.width() as u64);
                text.append(", ");
                push_decimal(&mut text, it.height() as u64);
                text.append("] }");
                text
            },
        }
    }

    /// A second plane on the same buffer.
    pub fn duplicate(&self) -> (plane: Plane)
        ensures
            plane == *self,
    {
        Plane::Image(self.image())
    }

    /// Paints the plane on `surface` with its corner at `(x, y)`, inside
    /// `clip`.
    pub fn paint(&self, surface: &mut Raster, x: i64, y: i64, clip: Window)
        ensures
            final(surface)@ == old(surface)@.overlay_within(self.grid(), x as int, y as int, clip),
    {
        match self {
            Plane::Image(it) => surface.overlay_within(it, x, y, clip),
        }
    }

    /// Whether two planes hold the same buffer. Two planes that do are
    /// equal; two planes with equal pixels in separate buffers are not the
    /// same.
    pub fn same(&self, other: &Plane) -> (same: bool)
        ensures
            same ==> *self == *other,
    {
        match (self, other) {
            (Plane::Image(a), Plane::Image(b)) => same_buffer(a, b),
        }
    }
}

impl From<Arc<Raster>> for Plane {
    fn from(image: Arc<Raster>) -> (plane: Plane) {
        Plane::Image(image)
    }
}

impl vstd::std_specs::convert::FromSpecImpl<Arc<Raster>> for Plane {
    open spec fn obeys_from_spec() -> bool {
        true
    }

    open spec fn from_spec(image: Arc<Raster>) -> Plane {
        Plane::Image(image)
    }
}

impl PlaneIndex {
    /// The number of planes that lay below when the plane was pushed.
    pub closed spec fn view(&self) -> nat {
        self.0 as nat
    }
}

impl PlaneData {
    /// The pixels of the plane.
    pub open spec fn grid(self) -> Grid {
        self.inner.grid()
    }

    /// Whether the plane, at its offset, shows something at `(x, y)`.
    pub open spec fn shows_at(self, x: int, y: int) -> bool {
        self.grid().shows(x - self.transform.x, y - self.transform.y)
    }

    /// The pixel of the plane that lies at `(x, y)` once the plane is at its
    /// offset.
    pub open spec fn pixel_at(self, x: int, y: int) -> Rgba {
        self.grid().at(x - self.transform.x, y - self.transform.y)
    }

    /// The column just right of the plane.
    pub open spec fn right(self) -> int {
        self.transform.x + self.grid().width
    }

    /// The row just below the plane.
    pub open spec fn bottom(self) -> int {
        self.transform.y + self.grid().height
    }
}

/// The far corner of the box that bounds the planes and the origin: the
/// largest `right()` and the largest `bottom()`, or zero where that is larger.
pub open spec fn extent(layers: Seq<PlaneData>) -> (int, int)
    decreases layers.len(),
{
    if layers.len() == 0 {
        (0, 0)
    } else {
        let rest = extent(layers.drop_last());
        let top = layers.last();
        (
            if top.right() > rest.0 {
                top.right()
            } else {
                rest.0
            },
            if top.bottom() > rest.1 {
                top.bottom()
            } else {
                rest.1
            },
        )
    }
}

/// The size of the box that bounds the planes, or `None` for no planes.
pub open spec fn spec_max_size(layers: Seq<PlaneData>) -> Option<Size> {
    if layers.len() == 0 {
        None
    } else {
        Some(Size { width: extent(layers).0 as u64, height: extent(layers).1 as u64 })
    }
}

/// The planes painted over `base` in order, each with its corner at its
/// offset.
pub open spec fn flattened(layers: Seq<PlaneData>, base: Grid) -> Grid
    decreases layers.len(),
{
    if layers.len() == 0 {
        base
    } else {
        let top = layers.last();
        flattened(layers.drop_last(), base).overlay(
            top.grid(),
            top.transform.x as int,
            top.transform.y as int,
        )
    }
}

/// The planes flattened on a transparent raster of their bounding box.
pub open spec fn spec_merged(layers: Seq<PlaneData>) -> Grid {
    flattened(layers, Grid::blank(extent(layers).0 as nat, extent(layers).1 as nat))
}

/// The planes painted over `surface` in order, each with its corner at
/// `origin` plus its offset, and nothing painted outside `clip`.
pub open spec fn painted(layers: Seq<PlaneData>, surface: Grid, origin: Point, clip: Window) -> Grid
    decreases layers.len(),
{
    if layers.len() == 0 {
        surface
    } else {
        let top = layers.last();
        painted(layers.drop_last(), surface, origin, clip).overlay_within(
            top.grid(),
            origin.x + top.transform.x,
            origin.y + top.transform.y,
            clip,
        )
    }
}

/// The bounding box of the planes, moved to `origin`.
pub open spec fn canvas_window(layers: Seq<PlaneData>, origin: Point) -> Window {
    Window {
        x0: origin.x as i64,
        y0: origin.y as i64,
        x1: (origin.x + extent(layers).0) as i64,
        y1: (origin.y + extent(layers).1) as i64,
    }
}

/// The planes painted on `surface` with the corner of their bounding box at
/// `origin`; what lies outside that box is not painted.
pub open spec fn spec_paint(layers: Seq<PlaneData>, surface: Grid, origin: Point) -> Grid {
    painted(layers, surface, origin, canvas_window(layers, origin))
}

/// The stack with `plane` put on top at offset zero.
pub open spec fn spec_pushed(layers: Seq<PlaneData>, plane: Plane) -> Seq<PlaneData> {
    layers.push(PlaneData { inner: plane, transform: Vec2::spec_zero() })
}

/// The stack with its topmost plane moved by `offset`; a stack of no planes
/// stays as it is.
pub open spec fn spec_moved(layers: Seq<PlaneData>, offset: Vec2) -> Seq<PlaneData> {
    if layers.len() == 0 {
        layers
    } else {
        layers.drop_last().push(
            PlaneData {
                inner: layers.last().inner,
                transform: layers.last().transform.spec_plus(offset),
            },
        )
    }
}

/// Whether the topmost plane can be moved by `offset`: there is one, and its
/// new offset can be held.
pub open spec fn spec_can_move(layers: Seq<PlaneData>, offset: Vec2) -> bool {
    layers.len() > 0 && layers.last().transform.spec_can_add(offset)
}

/// Whether the planes, flattened, can be held in memory.
pub open spec fn spec_fits(layers: Seq<PlaneData>) -> bool {
    Raster::spec_fits(extent(layers).0 as u64, extent(layers).1 as u64)
}

/// The extent of a stack is not negative and is small enough to count.
pub proof fn lemma_extent_bounds(layers: Seq<PlaneData>)
    ensures
        0 <= extent(layers).0 <= i32::MAX + u32::MAX,
        0 <= extent(layers).1 <= i32::MAX + u32::MAX,
    decreases layers.len(),
{
    if layers.len() > 0 {
        lemma_extent_bounds(layers.drop_last());
        layers.last().inner.lemma_grid_wf();
    }
}

/// The topmost plane shows: a pixel of the flattened stack is that of the
/// last plane that shows something at its position, and that of `base`
/// where no plane does.
pub proof fn lemma_topmost_plane_shows(layers: Seq<PlaneData>, base: Grid, x: int, y: int)
    requires
        base.wf(),
        base.contains(x, y),
    ensures
        forall|i: int|
            0 <= i < layers.len() && (#[trigger] layers[i]).shows_at(x, y) && (forall|j: int|
                i < j < layers.len() ==> !(#[trigger] layers[j]).shows_at(x, y)) ==> flattened(
                layers,
                base,
            ).at(x, y) == layers[i].pixel_at(x, y),
        (forall|j: int| 0 <= j < layers.len() ==> !(#[trigger] layers[j]).shows_at(x, y))
            ==> flattened(layers, base).at(x, y) == base.at(x, y),
    decreases layers.len(),
{
    if layers.len() > 0 {
        let rest = layers.drop_last();
        let last = layers.len() - 1;
        lemma_topmost_plane_shows(rest, base, x, y);
        lemma_flattened_size(rest, base);
        assert forall|i: int|
            0 <= i < layers.len() && (#[trigger] layers[i]).shows_at(x, y) && (forall|j: int|
                i < j < layers.len() ==> !(#[trigger] layers[j]).shows_at(
                    x,
                    y,
                )) implies flattened(layers, base).at(x, y) == layers[i].pixel_at(x, y) by {
            if i < last {
                assert(!layers[last].shows_at(x, y));
                assert(rest[i] == layers[i]);
                assert forall|j: int| i < j < rest.len() implies !(#[trigger] rest[j]).shows_at(
                    x,
                    y,
                ) by {
                    assert(rest[j] == layers[j]);
                }
            }
        }
        if forall|j: int| 0 <= j < layers.len() ==> !(#[trigger] layers[j]).shows_at(x, y) {
            assert(!layers[last].shows_at(x, y));
            assert forall|j: int| 0 <= j < rest.len() implies !(#[trigger] rest[j]).shows_at(
                x,
                y,
            ) by {
                assert(rest[j] == layers[j]);
            }
        }
    }
}

/// The extent is the largest far corner: no plane reaches beyond it, and
/// in each direction either a plane reaches it or no plane reaches beyond
/// the origin.
pub proof fn lemma_extent_is_max(layers: Seq<PlaneData>)
    ensures
        forall|i: int|
            0 <= i < layers.len() ==> (#[trigger] layers[i]).right() <= extent(layers).0
                && layers[i].bottom() <= extent(layers).1,
        extent(layers).0 == 0 || exists|i: int|
            0 <= i < layers.len() && (#[trigger] layers[i]).right() == extent(layers).0,
        extent(layers).1 == 0 || exists|i: int|
            0 <= i < layers.len() && (#[trigger] layers[i]).bottom() == extent(layers).1,
    decreases layers.len(),
{
    if layers.len() > 0 {
        let rest = layers.drop_last();
        let last = layers.len() - 1;
        lemma_extent_is_max(rest);
        assert forall|i: int| 0 <= i < layers.len() implies (#[trigger] layers[i]).right()
            <= extent(layers).0 && layers[i].bottom() <= extent(layers).1 by {
            if i < last {
                assert(rest[i] == layers[i]);
            }
        }
        if extent(layers).0 != 0 && layers[last].right() != extent(layers).0 {
            let i = choose|i: int| 0 <= i < rest.len() && (#[trigger] rest[i]).right() == extent(rest).0;
            assert(layers[i] == rest[i]);
        }
        if extent(layers).1 != 0 && layers[last].bottom() != extent(layers).1 {
            let i = choose|i: int|
                0 <= i < rest.len() && (#[trigger] rest[i]).bottom() == extent(rest).1;
            assert(layers[i] == rest[i]);
        }
    }
}

/// A pasted image shows on top: where a plane is pushed onto a stack, the
/// flattened stack holds every visible pixel of that plane at the pixel's
/// own position, and every other pixel of the flattened stack is what the
/// planes below give on a raster of the new size.
pub proof fn lemma_pushed_shows_on_top(layers: Seq<PlaneData>, plane: Plane)
    ensures
        ({
            let after = spec_pushed(layers, plane);
            let size = extent(after);
            let below = flattened(layers, Grid::blank(size.0 as nat, size.1 as nat));
            &&& size.0 >= plane.grid().width && size.0 >= extent(layers).0
            &&& size.1 >= plane.grid().height && size.1 >= extent(layers).1
            &&& forall|x: int, y: int| #[trigger]
                plane.grid().shows(x, y) ==> spec_merged(after).at(x, y) == plane.grid().at(x, y)
            &&& forall|x: int, y: int|
                spec_merged(after).contains(x, y) && !#[trigger] plane.grid().shows(x, y)
                    ==> spec_merged(after).at(x, y) == below.at(x, y)
        }),
{
    let after = spec_pushed(layers, plane);
    assert(after.drop_last() =~= layers);
    lemma_extent_bounds(layers);
    lemma_extent_bounds(after);
    let size = extent(after);
    lemma_flattened_size(layers, Grid::blank(size.0 as nat, size.1 as nat));
    lemma_merged_has_max_size(after);
}

/// The flattened stack has the size of the bounding box of its planes.
pub proof fn lemma_merged_has_max_size(layers: Seq<PlaneData>)
    ensures
        spec_merged(layers).wf(),
        spec_merged(layers).width == extent(layers).0,
        spec_merged(layers).height == extent(layers).1,
        layers.len() > 0 ==> spec_max_size(layers) == Some(
            Size {
                width: spec_merged(layers).width as u64,
                height: spec_merged(layers).height as u64,
            },
        ),
{
    lemma_extent_bounds(layers);
    lemma_flattened_size(layers, Grid::blank(extent(layers).0 as nat, extent(layers).1 as nat));
}

/// Painting keeps the size of the surface, and gives a well-formed grid
/// when the surface is one.
pub proof fn lemma_painted_size(layers: Seq<PlaneData>, surface: Grid, origin: Point, clip: Window)
    requires
        surface.wf(),
    ensures
        painted(layers, surface, origin, clip).wf(),
        painted(layers, surface, origin, clip).width == surface.width,
        painted(layers, surface, origin, clip).height == surface.height,
    decreases layers.len(),
{
    if layers.len() > 0 {
        lemma_painted_size(layers.drop_last(), surface, origin, clip);
    }
}

/// Flattening keeps the size of the base, and gives a well-formed grid when
/// the base is one.
pub proof fn lemma_flattened_size(layers: Seq<PlaneData>, base: Grid)
    requires
        base.wf(),
    ensures
        flattened(layers, base).wf(),
        flattened(layers, base).width == base.width,
        flattened(layers, base).height == base.height,
    decreases layers.len(),
{
    if layers.len() > 0 {
        lemma_flattened_size(layers.drop_last(), base);
    }
}

/// Flatten fidelity: painting the planes at `origin` gives the same pixels
/// as painting their flattened raster there.
pub proof fn lemma_paint_is_paint_of_merged(layers: Seq<PlaneData>, surface: Grid, origin: Point)
    requires
        surface.wf(),
    ensures
        spec_paint(layers, surface, origin) == surface.overlay(
            spec_merged(layers),
            origin.x as int,
            origin.y as int,
        ),
{
    lemma_extent_bounds(layers);
    let base = Grid::blank(extent(layers).0 as nat, extent(layers).1 as nat);
    lemma_painted_over_flattened(layers, surface, origin, base);
}

/// Painting a prefix of a stack inside the box of `base` moved to `origin`
/// is painting what the prefix flattens to on `base`, as long as `base`
/// itself shows nothing.
proof fn lemma_painted_over_flattened(
    layers: Seq<PlaneData>,
    surface: Grid,
    origin: Point,
    base: Grid,
)
    requires
        surface.wf(),
        base.wf(),
        base.width <= i32::MAX + u32::MAX,
        base.height <= i32::MAX + u32::MAX,
        forall|x: int, y: int| !base.shows(x, y),
    ensures
        painted(
            layers,
            surface,
            origin,
            Window {
                x0: origin.x as i64,
                y0: origin.y as i64,
                x1: (origin.x + base.width) as i64,
                y1: (origin.y + base.height) as i64,
            },
        ) == surface.overlay(flattened(layers, base), origin.x as int, origin.y as int),
    decreases layers.len(),
{
    let clip = Window {
        x0: origin.x as i64,
        y0: origin.y as i64,
        x1: (origin.x + base.width) as i64,
        y1: (origin.y + base.height) as i64,
    };
    let lhs = painted(layers, surface, origin, clip);
    let rhs = surface.overlay(flattened(layers, base), origin.x as int, origin.y as int);
    lemma_painted_size(layers, surface, origin, clip);
    lemma_flattened_size(layers, base);
    if layers.len() > 0 {
        let rest = layers.drop_last();
        let top = layers.last();
        lemma_painted_over_flattened(rest, surface, origin, base);
        lemma_painted_size(rest, surface, origin, clip);
        lemma_flattened_size(rest, base);
        let below = flattened(rest, base);
        let whole = flattened(layers, base);
        assert forall|x: int, y: int| lhs.contains(x, y) implies lhs.at(x, y) == rhs.at(x, y) by {
            let u = x - origin.x;
            let v = y - origin.y;
            assert(clip.contains(x, y) <==> below.contains(u, v));
            assert(painted(rest, surface, origin, clip).at(x, y) == surface.overlay(
                below,
                origin.x as int,
                origin.y as int,
            ).at(x, y));
            if below.contains(u, v) {
                assert(whole.at(u, v) == if top.grid().shows(
                    u - top.transform.x,
                    v - top.transform.y,
                ) {
                    top.grid().at(u - top.transform.x, v - top.transform.y)
                } else {
                    below.at(u, v)
                });
            }
        }
    }
    lhs.lemma_equal(rhs);
}

impl Planes {
    /// The planes with their offsets, bottom first.
    pub closed spec fn view(&self) -> Seq<PlaneData> {
        self.planes@
    }

    /// A stack of no planes.
    pub fn new() -> (planes: Planes)
        ensures
            planes@ == Seq::<PlaneData>::empty(),
    {
        Planes { planes: Vec::new() }
    }

    /// The number of planes.
    pub fn len(&self) -> (n: usize)
        ensures
            n == self@.len(),
    {
        self.planes.len()
    }

    /// The far corner of the box that bounds the lowest `n` planes.
    fn extent_below(&self, n: usize) -> (corner: (i64, i64))
        requires
            n <= self@.len(),
        ensures
            corner.0 == extent(self@.take(n as int)).0,
            corner.1 == extent(self@.take(n as int)).1,
            0 <= corner.0 <= i32::MAX + u32::MAX,
            0 <= corner.1 <= i32::MAX + u32::MAX,
    {
        let mut width: i64 = 0;
        let mut height: i64 = 0;
        let mut k: usize = 0;
        while k < n
            invariant
                k <= n,
                n <= self.planes@.len(),
                width == extent(self.planes@.take(k as int)).0,
                height == extent(self.planes@.take(k as int)).1,
            decreases n - k,
        {
            proof {
                lemma_extent_bounds(self.planes@.take(k as int));
                assert(self.planes@.take(k + 1).drop_last() =~= self.planes@.take(k as int));
            }
            let layer = &self.planes[k];
            let corner = Planes::corner_with(width, height, &layer.inner, layer.transform);
            width = corner.0;
            height = corner.1;
            k = k + 1;
        }
        proof {
            lemma_extent_bounds(self.planes@.take(n as int));
        }
        (width, height)
    }

    /// The far corner of a box stretched to hold `plane` at `transform`.
    fn corner_with(width: i64, height: i64, plane: &Plane, transform: Vec2) -> (corner: (i64, i64))
        requires
            0 <= width <= i32::MAX + u32::MAX,
            0 <= height <= i32::MAX + u32::MAX,
        ensures
            corner.0 == (if transform.x + plane.grid().width > width {
                transform.x + plane.grid().width
            } else {
                width as int
            }),
            corner.1 == (if transform.y + plane.grid().height > height {
                transform.y + plane.grid().height
            } else {
                height as int
            }),
    {
        match plane {
            Plane::Image(it) => {
                let right: i64 = transform.x as i64 + it.width() as i64;
                let bottom: i64 = transform.y as i64 + it.height() as i64;
                (
                    if right > width {
                        right
                    } else {
                        width
                    },
                    if bottom > height {
                        bottom
                    } else {
                        height
                    },
                )
            },
        }
    }

    /// The size of the box that bounds every plane at its offset, measured
    /// from the origin; `None` for a stack of no planes.
    pub fn max_size(&self) -> (size: Option<Size>)
        ensures
            size == spec_max_size(self@),
    {
        let n = self.planes.len();
        if n == 0 {
            return None;
        }
        let corner = self.extent_below(n);
        proof {
            assert(self.planes@.take(n as int) =~= self.planes@);
        }
        Some(Size { width: corner.0 as u64, height: corner.1 as u64 })
    }

    /// The same as `max_size`.
    pub fn paint_size(&self) -> (size: Option<Size>)
        ensures
            size == spec_max_size(self@),
    {
        self.max_size()
    }

    /// Puts a plane on top of the stack, at offset zero.
    pub fn push(&mut self, plane: Plane) -> (index: PlaneIndex)
        ensures
            final(self)@ == old(self)@.push(PlaneData { inner: plane, transform: Vec2::spec_zero() }),
            index@ == old(self)@.len(),
    {
        self.planes.push(PlaneData { inner: plane, transform: Vec2::zero() });
        PlaneIndex(self.planes.len() - 1)
    }

    /// The plane that `push` gave `index` for, with its offset; `None`
    /// where the stack has no such plane any more.
    pub fn layer(&self, index: PlaneIndex) -> (layer: Option<&PlaneData>)
        ensures
            layer is Some <==> index@ < self@.len(),
            layer matches Some(it) ==> *it == self@[index@ as int],
    {
        if index.0 < self.planes.len() {
            Some(&self.planes[index.0])
        } else {
            None
        }
    }

    /// Whether the topmost plane can be moved by `offset`: there is one, and
    /// its new offset can be held.
    pub fn can_move(&self, offset: Vec2) -> (b: bool)
        ensures
            b == spec_can_move(self@, offset),
    {
        let n = self.planes.len();
        n > 0 && self.planes[n - 1].transform.can_add(offset)
    }

    /// Whether the flattened stack can be held in memory.
    pub fn fits(&self) -> (b: bool)
        ensures
            b == spec_fits(self@),
    {
        let corner = self.extent_below(self.planes.len());
        proof {
            assert(self.planes@.take(self.planes@.len() as int) =~= self.planes@);
        }
        Raster::fits(corner.0 as u64, corner.1 as u64)
    }

    /// Whether the stack would still fit in memory with `plane` on top.
    pub fn pushed_fits(&self, plane: &Plane) -> (b: bool)
        ensures
            b == spec_fits(spec_pushed(self@, *plane)),
    {
        let n = self.planes.len();
        let below = self.extent_below(n);
        let corner = Planes::corner_with(below.0, below.1, plane, Vec2::zero());
        proof {
            let after = spec_pushed(self@, *plane);
            assert(self.planes@.take(n as int) =~= self.planes@);
            assert(after.drop_last() =~= self@);
            plane.lemma_grid_wf();
        }
        Raster::fits(corner.0 as u64, corner.1 as u64)
    }

    /// Whether the topmost plane can be moved by `offset` and the stack
    /// would still fit in memory after that.
    pub fn moved_fits(&self, offset: Vec2) -> (b: bool)
        ensures
            b == (spec_can_move(self@, offset) && spec_fits(spec_moved(self@, offset))),
    {
        let n = self.planes.len();
        if n == 0 {
            return false;
        }
        let top = &self.planes[n - 1];
        if !top.transform.can_add(offset) {
            return false;
        }
        let below = self.extent_below(n - 1);
        let corner = Planes::corner_with(below.0, below.1, &top.inner, top.transform.plus(offset));
        proof {
            let after = spec_moved(self@, offset);
            assert(after.drop_last() =~= self@.take(n - 1));
            top.inner.lemma_grid_wf();
        }
        Raster::fits(corner.0 as u64, corner.1 as u64)
    }

    /// A second stack on the same buffers, with the same offsets.
    pub fn duplicate(&self) -> (planes: Planes)
        ensures
            planes@ == self@,
    {
        let n = self.planes.len();
        let mut planes: Vec<PlaneData> = Vec::new();
        let mut k: usize = 0;
        while k < n
            invariant
                k <= n,
                n == self.planes@.len(),
                planes@ == self.planes@.take(k as int),
            decreases n - k,
        {
            let layer = &self.planes[k];
            planes.push(PlaneData { inner: layer.inner.duplicate(), transform: layer.transform });
            assert(planes@ =~= self.planes@.take(k + 1));
            k = k + 1;
        }
        assert(planes@ =~= self.planes@);
        Planes { planes }
    }

    /// The stack flattened into one raster: a transparent raster of
    /// `max_size()` with every plane painted on it in order, at its offset.
    /// `None` for a stack of no planes.
    pub fn merged(&self) -> (image: Option<Arc<Raster>>)
        requires
            spec_fits(self@),
        ensures
            image is Some <==> self@.len() > 0,
            image matches Some(it) ==> {
                &&& it@ == spec_merged(self@)
                &&& spec_max_size(self@) == Some(
                    Size { width: it@.width as u64, height: it@.height as u64 },
                )
            },
    {
        let size = match self.max_size() {
            Some(size) => size,
            None => {
                return None;
            },
        };
        proof {
            lemma_extent_bounds(self@);
        }
        let mut img = Raster::new(size.width as u32, size.height as u32);
        let ghost base = img@;
        let n = self.planes.len();
        let mut k: usize = 0;
        while k < n
            invariant
                k <= n,
                n == self.planes@.len(),
                base.wf(),
                img@ == flattened(self.planes@.take(k as int), base),
            decreases n - k,
        {
            proof {
                assert(self.planes@.take(k + 1).drop_last() =~= self.planes@.take(k as int));
            }
            let layer = &self.planes[k];
            match &layer.inner {
                Plane::Image(it) => {
                    img.overlay(it, layer.transform.x as i64, layer.transform.y as i64);
                },
            }
            k = k + 1;
        }
        proof {
            assert(self.planes@.take(n as int) =~= self.planes@);
            lemma_flattened_size(self@, base);
        }
        Some(Arc::new(img))
    }

    /// Moves the topmost plane by `offset` and returns where its corner now
    /// is; does nothing and returns `None` on a stack of no planes.
    pub fn mov(&mut self, offset: Vec2) -> (at: Option<Point>)
        requires
            old(self)@.len() > 0 ==> spec_can_move(old(self)@, offset),
        ensures
            final(self)@ == spec_moved(old(self)@, offset),
            old(self)@.len() == 0 ==> at is None,
            old(self)@.len() > 0 ==> at == Some(final(self)@.last().transform.spec_to_point()),
    {
        match self.planes.pop() {
            None => None,
            Some(top) => {
                let moved = top.transform.plus(offset);
                self.planes.push(PlaneData { inner: top.inner, transform: moved });
                Some(moved.to_point())
            },
        }
    }

    /// Paints the stack on `surface` with the corner of its bounding box at
    /// `origin`: every plane in order, at `origin` plus its offset. What
    /// lies outside the bounding box is not painted.
    pub fn paint(&self, surface: &mut Raster, origin: Point)
        ensures
            final(surface)@ == spec_paint(self@, old(surface)@, origin),
    {
        let ghost before = surface@;
        proof {
            lemma_extent_bounds(self@);
        }
        let clip = match self.max_size() {
            Some(size) => Window {
                x0: origin.x as i64,
                y0: origin.y as i64,
                x1: origin.x as i64 + size.width as i64,
                y1: origin.y as i64 + size.height as i64,
            },
            None => Window { x0: origin.x as i64, y0: origin.y as i64, x1: origin.x as i64, y1: origin.y as i64 },
        };
        assert(clip == canvas_window(self@, origin));
        let n = self.planes.len();
        let mut k: usize = 0;
        while k < n
            invariant
                k <= n,
                n == self.planes@.len(),
                surface@ == painted(self.planes@.take(k as int), before, origin, clip),
            decreases n - k,
        {
            proof {
                assert(self.planes@.take(k + 1).drop_last() =~= self.planes@.take(k as int));
            }
            let layer = &self.planes[k];
            layer.inner.paint(
                surface,
                origin.x as i64 + layer.transform.x as i64,
                origin.y as i64 + layer.transform.y as i64,
                clip,
            );
            k = k + 1;
        }
        proof {
            assert(self.planes@.take(n as int) =~= self.planes@);
        }
    }

    /// Whether the two stacks hold the same buffers in the same order. Two
    /// stacks that do have equal planes, one by one; offsets are not
    /// compared, and equal pixels in separate buffers do not count as the
    /// same.
    pub fn same(&self, other: &Planes) -> (same: bool)
        ensures
            same ==> self@.len() == other@.len(),
            same ==> forall|i: int| 0 <= i < self@.len() ==> self@[i].inner == other@[i].inner,
            self@.len() == 0 && other@.len() == 0 ==> same,
    {
        let n = self.planes.len();
        let mut pairs: Vec<bool> = Vec::new();
        if n == other.planes.len() {
            let mut k: usize = 0;
            while k < n
                invariant
                    k <= n,
                    n == self.planes@.len(),
                    n == other.planes@.len(),
                    pairs@.len() == k,
                    forall|i: int|
                        0 <= i < k && pairs@[i] ==> self.planes@[i].inner == other.planes@[i].inner,
                decreases n - k,
            {
                let answer = self.planes[k].inner.same(&other.planes[k].inner);
                pairs.push(answer);
                k = k + 1;
            }
        }
        let same = self.same_when(other, &pairs);
        proof {
            if same {
                assert forall|i: int| 0 <= i < self@.len() implies self@[i].inner
                    == other@[i].inner by {
                    assert(pairs@[i]);
                }
            }
        }
        same
    }

    /// Whether the two stacks are the same, given for each place, from the
    /// bottom up, whether the two planes there hold the same buffer: they
    /// are where both have as many planes as there are answers, and every
    /// answer is yes.
    pub fn same_when(&self, other: &Planes, pairs: &Vec<bool>) -> (same: bool)
        ensures
            same == (self@.len() == other@.len() && pairs@.len() == self@.len() && forall|i: int|
                0 <= i < pairs@.len() ==> pairs@[i]),
    {
        let n = self.planes.len();
        if n != other.planes.len() || pairs.len() != n {
            return false;
        }
        let mut k: usize = 0;
        while k < n
            invariant
                k <= n,
                n == pairs@.len(),
                forall|i: int| 0 <= i < k ==> pairs@[i],
            decreases n - k,
        {
            if !pairs[k] {
                return false;
            }
            k = k + 1;
        }
        true
    }
}

} // verus!
