//! Widget layout: each widget measures itself within size constraints, then paints itself as
//! rectangles into a region of the screen.
use vstd::prelude::*;

verus! {

/// A point or a size in pixels.
#[derive(Clone, Copy, Debug, PartialEq, Eq, Structural)]
pub struct Size {
    pub x: u32,
    pub y: u32,
}

/// The smallest and the largest size a widget may take.
#[derive(Clone, Copy, Debug, PartialEq, Eq, Structural)]
pub struct SizeConstraints {
    pub min: Size,
    pub max: Size,
}

/// Where on the screen a widget paints itself.
#[derive(Clone, Copy, Debug, PartialEq, Eq, Structural)]
pub struct Region {
    pub origin: Size,
    pub size: Size,
}

/// A color, as the bit patterns of its four `f32` channels (red, green, blue, alpha).
#[derive(Clone, Copy, Debug, PartialEq, Eq, Structural)]
pub struct Color {
    pub r: u32,
    pub g: u32,
    pub b: u32,
    pub a: u32,
}

/// A rectangle of the scene; a glyph of the font where it is text.
#[derive(Clone, Copy, Debug, PartialEq, Eq, Structural)]
pub struct Rectangle {
    pub color: Color,
    pub origin: Size,
    pub extent: Size,
    pub radius: u32,
    /// The glyph's position in the font.
    pub atlas_id: i32,
}

/// The size `(x, y)`.
pub open spec fn size(x: int, y: int) -> Size {
    Size { x: x as u32, y: y as u32 }
}

/// Whether `a + b` fits, coordinate by coordinate.
pub open spec fn plus_fits(a: Size, b: Size) -> bool {
    a.x + b.x <= u32::MAX && a.y + b.y <= u32::MAX
}

/// Whether `a - b` stays at or above 0, coordinate by coordinate.
pub open spec fn minus_fits(a: Size, b: Size) -> bool {
    a.x >= b.x && a.y >= b.y
}

/// `a + b`, coordinate by coordinate.
pub open spec fn plus(a: Size, b: Size) -> Size {
    size(a.x + b.x, a.y + b.y)
}

/// `a - b`, coordinate by coordinate.
pub open spec fn minus(a: Size, b: Size) -> Size {
    size(a.x - b.x, a.y - b.y)
}

fn add_sizes(a: Size, b: Size) -> (r: Size)
    requires
        plus_fits(a, b),
    ensures
        r == plus(a, b),
{
    Size { x: a.x + b.x, y: a.y + b.y }
}

fn sub_sizes(a: Size, b: Size) -> (r: Size)
    requires
        minus_fits(a, b),
    ensures
        r == minus(a, b),
{
    Size { x: a.x - b.x, y: a.y - b.y }
}

/// A widget.
pub trait Element: Sized {
    /// Whether laying the widget out within `c` stays within the bounds of `u32`.
    spec fn layout_ok(&self, c: SizeConstraints) -> bool;

    /// The size the widget takes within `c`.
    spec fn measured(&self, c: SizeConstraints) -> Size;

    /// Whether `after` is the widget once laid out within `c` (some widgets remember sizes).
    spec fn lays_out_as(&self, c: SizeConstraints, after: Self) -> bool;

    /// Measures the widget within `c`.
    fn layout(&mut self, c: SizeConstraints) -> (r: Size)
        requires
            old(self).layout_ok(c),
        ensures
            r == old(self).measured(c),
            old(self).lays_out_as(c, *final(self)),
    ;

    /// Whether painting the widget into `region` stays within the bounds of `u32`.
    spec fn paint_ok(&self, region: Region) -> bool;

    /// The rectangles the widget paints into `region`, in order.
    spec fn painted(&self, region: Region) -> Seq<Rectangle>;

    /// Paints the widget into `region`, after what `scene` holds.
    fn paint(&self, region: Region, scene: &mut Vec<Rectangle>)
        requires
            self.paint_ok(region),
        ensures
            final(scene)@ == old(scene)@ + self.painted(region),
    ;
}

/// A widget with a background and a border around it.
pub struct Container<T: Element> {
    pub child: T,
    pub color: Color,
    pub border_radius: u32,
    pub border_color: Color,
}

impl<T: Element> Container<T> {
    /// The constraints the child is laid out within.
    pub open spec fn inner_constraints(&self, c: SizeConstraints) -> SizeConstraints {
        SizeConstraints { min: c.min, max: minus(c.max, size(self.border_radius as int, self.border_radius as int)) }
    }

    /// The border on both sides.
    pub open spec fn frame(&self) -> Size {
        size(2 * self.border_radius, 2 * self.border_radius)
    }

    /// The region the child is painted into.
    pub open spec fn inner_region(&self, region: Region) -> Region {
        Region {
            origin: plus(region.origin, size(self.border_radius as int, self.border_radius as int)),
            size: minus(region.size, self.frame()),
        }
    }
}

impl<T: Element> Element for Container<T> {
    open spec fn layout_ok(&self, c: SizeConstraints) -> bool {
        &&& minus_fits(c.max, size(self.border_radius as int, self.border_radius as int))
        &&& 2 * self.border_radius <= u32::MAX
        &&& self.child.layout_ok(self.inner_constraints(c))
        &&& plus_fits(self.child.measured(self.inner_constraints(c)), self.frame())
    }

    open spec fn measured(&self, c: SizeConstraints) -> Size {
        plus(self.child.measured(self.inner_constraints(c)), self.frame())
    }

    open spec fn lays_out_as(&self, c: SizeConstraints, after: Self) -> bool {
        &&& self.child.lays_out_as(self.inner_constraints(c), after.child)
        &&& after.color == self.color
        &&& after.border_radius == self.border_radius
        &&& after.border_color == self.border_color
    }

    fn layout(&mut self, c: SizeConstraints) -> (r: Size) {
        let br = self.border_radius;
        let max = sub_sizes(c.max, Size { x: br, y: br });
        let child_size = self.child.layout(SizeConstraints { min: c.min, max });
        add_sizes(child_size, Size { x: br * 2, y: br * 2 })
    }

    open spec fn paint_ok(&self, region: Region) -> bool {
        &&& plus_fits(region.origin, size(self.border_radius as int, self.border_radius as int))
        &&& 2 * self.border_radius <= u32::MAX
        &&& minus_fits(region.size, self.frame())
        &&& self.child.paint_ok(self.inner_region(region))
    }

    open spec fn painted(&self, region: Region) -> Seq<Rectangle> {
        seq![
            Rectangle { color: self.border_color, origin: region.origin, extent: region.size, radius: self.border_radius, atlas_id: 0 },
            Rectangle { color: self.color, origin: self.inner_region(region).origin, extent: self.inner_region(region).size, radius: 0, atlas_id: 0 },
        ] + self.child.painted(self.inner_region(region))
    }

    fn paint(&self, region: Region, scene: &mut Vec<Rectangle>) {
        let br = self.border_radius;
        let origin = add_sizes(region.origin, Size { x: br, y: br });
        let inner = sub_sizes(region.size, Size { x: br * 2, y: br * 2 });
        scene.push(Rectangle { color: self.border_color, origin: region.origin, extent: region.size, radius: br, atlas_id: 0 });
        scene.push(Rectangle { color: self.color, origin, extent: inner, radius: 0, atlas_id: 0 });
        let ghost mid = scene@;
        self.child.paint(Region { origin, size: inner }, scene);
        proof {
            assert(mid == old(scene)@ + seq![
                Rectangle { color: self.border_color, origin: region.origin, extent: region.size, radius: br, atlas_id: 0 },
                Rectangle { color: self.color, origin, extent: inner, radius: 0, atlas_id: 0 },
            ]);
        }
    }
}

/// A widget with space around it.
pub struct Padding<T: Element> {
    pub child: T,
    pub top: u32,
    pub bottom: u32,
    pub left: u32,
    pub right: u32,
}

impl<T: Element> Padding<T> {
    /// `child` with `padding` on every side.
    pub fn new_uniform(child: T, padding: u32) -> (r: Self)
        ensures
            r.child == child,
            r.top == padding,
            r.bottom == padding,
            r.left == padding,
            r.right == padding,
    {
        Padding { child, top: padding, bottom: padding, left: padding, right: padding }
    }

    /// The space on both sides.
    pub open spec fn frame(&self) -> Size {
        size(self.left + self.right, self.top + self.bottom)
    }

    /// Whether the space on both sides fits in a `u32`.
    pub open spec fn frame_fits(&self) -> bool {
        self.left + self.right <= u32::MAX && self.top + self.bottom <= u32::MAX
    }

    /// The constraints the child is laid out within.
    pub open spec fn inner_constraints(&self, c: SizeConstraints) -> SizeConstraints {
        SizeConstraints { min: c.min, max: minus(c.max, self.frame()) }
    }

    /// The region the child is painted into.
    pub open spec fn inner_region(&self, region: Region) -> Region {
        Region { origin: plus(region.origin, size(self.left as int, self.top as int)), size: minus(region.size, self.frame()) }
    }
}

impl<T: Element> Element for Padding<T> {
    open spec fn layout_ok(&self, c: SizeConstraints) -> bool {
        &&& self.frame_fits()
        &&& minus_fits(c.max, self.frame())
        &&& self.child.layout_ok(self.inner_constraints(c))
        &&& plus_fits(self.child.measured(self.inner_constraints(c)), self.frame())
    }

    open spec fn measured(&self, c: SizeConstraints) -> Size {
        plus(self.child.measured(self.inner_constraints(c)), self.frame())
    }

    open spec fn lays_out_as(&self, c: SizeConstraints, after: Self) -> bool {
        &&& self.child.lays_out_as(self.inner_constraints(c), after.child)
        &&& after.top == self.top
        &&& after.bottom == self.bottom
        &&& after.left == self.left
        &&& after.right == self.right
    }

    fn layout(&mut self, c: SizeConstraints) -> (r: Size) {
        let frame = Size { x: self.left + self.right, y: self.top + self.bottom };
        let max = sub_sizes(c.max, frame);
        let child_size = self.child.layout(SizeConstraints { min: c.min, max });
        add_sizes(child_size, frame)
    }

    open spec fn paint_ok(&self, region: Region) -> bool {
        &&& self.frame_fits()
        &&& plus_fits(region.origin, size(self.left as int, self.top as int))
        &&& minus_fits(region.size, self.frame())
        &&& self.child.paint_ok(self.inner_region(region))
    }

    open spec fn painted(&self, region: Region) -> Seq<Rectangle> {
        self.child.painted(self.inner_region(region))
    }

    fn paint(&self, region: Region, scene: &mut Vec<Rectangle>) {
        let frame = Size { x: self.left + self.right, y: self.top + self.bottom };
        let origin = add_sizes(region.origin, Size { x: self.left, y: self.top });
        let inner = sub_sizes(region.size, frame);
        self.child.paint(Region { origin, size: inner }, scene);
    }
}

/// How a widget narrower than its region is placed across it.
#[derive(Clone, Copy, Debug, PartialEq, Eq, Structural)]
pub enum HAlign {
    Left,
    Right,
    Center,
}

/// How a widget shorter than its region is placed along it.
#[derive(Clone, Copy, Debug, PartialEq, Eq, Structural)]
pub enum VAlign {
    Top,
    Bottom,
    Center,
}

/// The space before a widget of length `actual` placed in a length `wanted`.
pub open spec fn lead(align: VAlign, wanted: u32, actual: u32) -> u32 {
    match align {
        VAlign::Top => 0,
        VAlign::Bottom => (wanted - actual) as u32,
        VAlign::Center => ((wanted - actual) / 2) as u32,
    }
}

/// The space before a widget of width `actual` placed in a width `wanted`.
pub open spec fn h_lead(align: HAlign, wanted: u32, actual: u32) -> u32 {
    match align {
        HAlign::Left => 0,
        HAlign::Right => (wanted - actual) as u32,
        HAlign::Center => ((wanted - actual) / 2) as u32,
    }
}

fn lead_of(align: VAlign, wanted: u32, actual: u32) -> (r: u32)
    requires
        wanted >= actual,
    ensures
        r == lead(align, wanted, actual),
        r <= wanted - actual,
{
    match align {
        VAlign::Top => 0,
        VAlign::Bottom => wanted - actual,
        VAlign::Center => (wanted - actual) / 2,
    }
}

fn h_lead_of(align: HAlign, wanted: u32, actual: u32) -> (r: u32)
    requires
        wanted >= actual,
    ensures
        r == h_lead(align, wanted, actual),
        r <= wanted - actual,
{
    match align {
        HAlign::Left => 0,
        HAlign::Right => wanted - actual,
        HAlign::Center => (wanted - actual) / 2,
    }
}

/// The larger of two lengths.
pub open spec fn longer(a: u32, b: u32) -> u32 {
    if a >= b { a } else { b }
}

/// Two widgets side by side, `separation` apart.
pub struct HPair<L: Element, R: Element> {
    pub left: L,
    pub right: R,
    pub align: VAlign,
    pub separation: u32,
    /// The size the first widget took when last laid out.
    pub left_size: Size,
    /// The size the second widget took when last laid out.
    pub right_size: Size,
}

impl<L: Element, R: Element> HPair<L, R> {
    /// A pair not laid out yet.
    pub fn new(left: L, right: R, align: VAlign, separation: u32) -> (r: Self)
        ensures
            r.left == left,
            r.right == right,
            r.align == align,
            r.separation == separation,
            r.left_size == (Size { x: 0, y: 0 }),
            r.right_size == (Size { x: 0, y: 0 }),
    {
        HPair { left, right, align, separation, left_size: Size { x: 0, y: 0 }, right_size: Size { x: 0, y: 0 } }
    }

    /// The constraints the right widget is laid out within.
    pub open spec fn right_constraints(&self, c: SizeConstraints) -> SizeConstraints {
        SizeConstraints { min: c.min, max: minus(c.max, size(self.left.measured(c).x + self.separation, 0)) }
    }

    /// The region the left widget is painted into.
    pub open spec fn left_region(&self, region: Region) -> Region {
        let ls = self.left_size;
        Region {
            origin: plus(region.origin, size(0, lead(self.align, region.size.y, ls.y) as int)),
            size: size(ls.x as int, ls.y as int),
        }
    }

    /// The region the right widget is painted into.
    pub open spec fn right_region(&self, region: Region) -> Region {
        let ls = self.left_size;
        let rs = self.right_size;
        Region {
            origin: plus(region.origin, size(ls.x + self.separation, lead(self.align, region.size.y, rs.y) as int)),
            size: size(rs.x as int, rs.y as int),
        }
    }
}

impl<L: Element, R: Element> Element for HPair<L, R> {
    open spec fn layout_ok(&self, c: SizeConstraints) -> bool {
        let ls = self.left.measured(c);
        let rs = self.right.measured(self.right_constraints(c));
        &&& self.left.layout_ok(c)
        &&& ls.x + self.separation <= c.max.x
        &&& self.right.layout_ok(self.right_constraints(c))
        &&& ls.x + rs.x + self.separation <= u32::MAX
    }

    open spec fn measured(&self, c: SizeConstraints) -> Size {
        let ls = self.left.measured(c);
        let rs = self.right.measured(self.right_constraints(c));
        size(ls.x + rs.x + self.separation, longer(ls.y, rs.y) as int)
    }

    open spec fn lays_out_as(&self, c: SizeConstraints, after: Self) -> bool {
        &&& self.left.lays_out_as(c, after.left)
        &&& self.right.lays_out_as(self.right_constraints(c), after.right)
        &&& after.left_size == self.left.measured(c)
        &&& after.right_size == self.right.measured(self.right_constraints(c))
        &&& after.align == self.align
        &&& after.separation == self.separation
    }

    fn layout(&mut self, c: SizeConstraints) -> (r: Size) {
        let ls = self.left.layout(c);
        self.left_size = ls;
        let rc = SizeConstraints { min: c.min, max: sub_sizes(c.max, Size { x: ls.x + self.separation, y: 0 }) };
        let rs = self.right.layout(rc);
        self.right_size = rs;
        Size { x: ls.x + rs.x + self.separation, y: if ls.y >= rs.y { ls.y } else { rs.y } }
    }

    open spec fn paint_ok(&self, region: Region) -> bool {
        let ls = self.left_size;
        let rs = self.right_size;
        &&& region.size.y >= ls.y
        &&& region.size.y >= rs.y
        &&& region.origin.y + lead(self.align, region.size.y, ls.y) <= u32::MAX
        &&& region.origin.y + lead(self.align, region.size.y, rs.y) <= u32::MAX
        &&& region.origin.x + ls.x + self.separation <= u32::MAX
        &&& self.left.paint_ok(self.left_region(region))
        &&& self.right.paint_ok(self.right_region(region))
    }

    open spec fn painted(&self, region: Region) -> Seq<Rectangle> {
        self.left.painted(self.left_region(region)) + self.right.painted(self.right_region(region))
    }

    fn paint(&self, region: Region, scene: &mut Vec<Rectangle>) {
        let ls = self.left_size;
        let rs = self.right_size;
        let left_top = lead_of(self.align, region.size.y, ls.y);
        let left_region = Region {
            origin: Size { x: region.origin.x, y: region.origin.y + left_top },
            size: Size { x: ls.x, y: region.size.y - (region.size.y - ls.y) },
        };
        self.left.paint(left_region, scene);
        let right_top = lead_of(self.align, region.size.y, rs.y);
        let right_region = Region {
            origin: Size { x: region.origin.x + ls.x + self.separation, y: region.origin.y + right_top },
            size: Size { x: rs.x, y: region.size.y - (region.size.y - rs.y) },
        };
        self.right.paint(right_region, scene);
    }
}

/// Two widgets one above the other, `separation` apart.
pub struct VPair<T: Element, B: Element> {
    pub top: T,
    pub bottom: B,
    pub align: HAlign,
    pub separation: u32,
    /// The size the first widget took when last laid out.
    pub top_size: Size,
    /// The size the second widget took when last laid out.
    pub bottom_size: Size,
}

impl<T: Element, B: Element> VPair<T, B> {
    /// A pair not laid out yet.
    pub fn new(top: T, bottom: B, align: HAlign, separation: u32) -> (r: Self)
        ensures
            r.top == top,
            r.bottom == bottom,
            r.align == align,
            r.separation == separation,
            r.top_size == (Size { x: 0, y: 0 }),
            r.bottom_size == (Size { x: 0, y: 0 }),
    {
        VPair { top, bottom, align, separation, top_size: Size { x: 0, y: 0 }, bottom_size: Size { x: 0, y: 0 } }
    }

    /// The constraints the bottom widget is laid out within.
    pub open spec fn bottom_constraints(&self, c: SizeConstraints) -> SizeConstraints {
        SizeConstraints { min: c.min, max: minus(c.max, size(0, self.top.measured(c).y + self.separation)) }
    }

    /// The region the top widget is painted into.
    pub open spec fn top_region(&self, region: Region) -> Region {
        let ts = self.top_size;
        Region {
            origin: plus(region.origin, size(h_lead(self.align, region.size.x, ts.x) as int, 0)),
            size: size(ts.x as int, ts.y as int),
        }
    }

    /// The region the bottom widget is painted into.
    pub open spec fn bottom_region(&self, region: Region) -> Region {
        let ts = self.top_size;
        let bs = self.bottom_size;
        Region {
            origin: plus(region.origin, size(h_lead(self.align, region.size.x, bs.x) as int, ts.y + self.separation)),
            size: size(bs.x as int, bs.y as int),
        }
    }
}

impl<T: Element, B: Element> Element for VPair<T, B> {
    open spec fn layout_ok(&self, c: SizeConstraints) -> bool {
        let ts = self.top.measured(c);
        let bs = self.bottom.measured(self.bottom_constraints(c));
        &&& self.top.layout_ok(c)
        &&& ts.y + self.separation <= c.max.y
        &&& self.bottom.layout_ok(self.bottom_constraints(c))
        &&& ts.y + bs.y + self.separation <= u32::MAX
    }

    open spec fn measured(&self, c: SizeConstraints) -> Size {
        let ts = self.top.measured(c);
        let bs = self.bottom.measured(self.bottom_constraints(c));
        size(longer(ts.x, bs.x) as int, ts.y + bs.y + self.separation)
    }

    open spec fn lays_out_as(&self, c: SizeConstraints, after: Self) -> bool {
        &&& self.top.lays_out_as(c, after.top)
        &&& self.bottom.lays_out_as(self.bottom_constraints(c), after.bottom)
        &&& after.top_size == self.top.measured(c)
        &&& after.bottom_size == self.bottom.measured(self.bottom_constraints(c))
        &&& after.align == self.align
        &&& after.separation == self.separation
    }

    fn layout(&mut self, c: SizeConstraints) -> (r: Size) {
        let ts = self.top.layout(c);
        self.top_size = ts;
        let bc = SizeConstraints { min: c.min, max: sub_sizes(c.max, Size { x: 0, y: ts.y + self.separation }) };
        let bs = self.bottom.layout(bc);
        self.bottom_size = bs;
        Size { x: if ts.x >= bs.x { ts.x } else { bs.x }, y: ts.y + bs.y + self.separation }
    }

    open spec fn paint_ok(&self, region: Region) -> bool {
        let ts = self.top_size;
        let bs = self.bottom_size;
        &&& region.size.x >= ts.x
        &&& region.size.x >= bs.x
        &&& region.origin.x + h_lead(self.align, region.size.x, ts.x) <= u32::MAX
        &&& region.origin.x + h_lead(self.align, region.size.x, bs.x) <= u32::MAX
        &&& region.origin.y + ts.y + self.separation <= u32::MAX
        &&& self.top.paint_ok(self.top_region(region))
        &&& self.bottom.paint_ok(self.bottom_region(region))
    }

    open spec fn painted(&self, region: Region) -> Seq<Rectangle> {
        self.top.painted(self.top_region(region)) + self.bottom.painted(self.bottom_region(region))
    }

    fn paint(&self, region: Region, scene: &mut Vec<Rectangle>) {
        let ts = self.top_size;
        let bs = self.bottom_size;
        let top_left = h_lead_of(self.align, region.size.x, ts.x);
        let top_region = Region {
            origin: Size { x: region.origin.x + top_left, y: region.origin.y },
            size: Size { x: region.size.x - (region.size.x - ts.x), y: ts.y },
        };
        self.top.paint(top_region, scene);
        let bottom_left = h_lead_of(self.align, region.size.x, bs.x);
        let bottom_region = Region {
            origin: Size { x: region.origin.x + bottom_left, y: region.origin.y + ts.y + self.separation },
            size: Size { x: region.size.x - (region.size.x - bs.x), y: bs.y },
        };
        self.bottom.paint(bottom_region, scene);
    }
}

/// Widgets one under the other, `separation` apart, each given the height of the first.
pub struct VList<T: Element> {
    pub children: Vec<T>,
    pub separation: u32,
    pub align: HAlign,
}

/// The widest of `children` within `c` (0 for none).
pub open spec fn widest<T: Element>(children: Seq<T>, c: SizeConstraints) -> u32
    decreases children.len(),
{
    if children.len() == 0 {
        0
    } else {
        longer(widest(children.drop_last(), c), children.last().measured(c).x)
    }
}

/// The height of a list of `n` widgets, each as tall as one of height `first`.
pub open spec fn list_height(first: u32, n: int, separation: u32) -> int {
    first * n + separation * (n - 1)
}

impl<T: Element> VList<T> {
    /// The height each widget is painted with in a region of height `height`.
    pub open spec fn row_height(&self, height: u32) -> int {
        let n = self.children@.len() as int;
        (height + self.separation - n * self.separation) / n
    }

    /// The region the widget at `i` is painted into.
    pub open spec fn row_region(&self, region: Region, i: int) -> Region {
        Region {
            origin: plus(region.origin, size(0, (self.row_height(region.size.y) + self.separation) * i)),
            size: size(region.size.x as int, self.row_height(region.size.y)),
        }
    }

    /// The rectangles the first `k` widgets paint, in order.
    pub open spec fn painted_rows(&self, region: Region, k: int) -> Seq<Rectangle>
        decreases k,
    {
        if k <= 0 {
            Seq::empty()
        } else {
            self.painted_rows(region, k - 1) + self.children@[k - 1].painted(self.row_region(region, k - 1))
        }
    }
}

proof fn lemma_widest_take<T: Element>(children: Seq<T>, i: int, c: SizeConstraints)
    requires
        0 <= i < children.len(),
    ensures
        widest(children.take(i + 1), c) == longer(widest(children.take(i), c), children[i].measured(c).x),
{
    assert(children.take(i + 1).drop_last() == children.take(i));
}

impl<T: Element> Element for VList<T> {
    open spec fn layout_ok(&self, c: SizeConstraints) -> bool {
        let n = self.children@.len() as int;
        &&& n <= u32::MAX
        &&& forall|i: int| 0 <= i < n ==> (#[trigger] self.children@[i]).layout_ok(c)
        &&& n > 0 ==> list_height(self.children@[0].measured(c).y, n, self.separation) <= u32::MAX
    }

    open spec fn measured(&self, c: SizeConstraints) -> Size {
        let n = self.children@.len() as int;
        if n == 0 {
            size(0, 0)
        } else {
            size(widest(self.children@, c) as int, list_height(self.children@[0].measured(c).y, n, self.separation))
        }
    }

    open spec fn lays_out_as(&self, c: SizeConstraints, after: Self) -> bool {
        &&& after.children@.len() == self.children@.len()
        &&& forall|i: int| 0 <= i < self.children@.len() ==> (#[trigger] self.children@[i]).lays_out_as(c, after.children@[i])
        &&& after.separation == self.separation
        &&& after.align == self.align
    }

    fn layout(&mut self, c: SizeConstraints) -> (r: Size) {
        let n = self.children.len();
        if n == 0 {
            return Size { x: 0, y: 0 };
        }
        let ghost start = self.children@;
        let mut width: u32 = 0;
        let mut first_y: u32 = 0;
        let mut i: usize = 0;
        while i < n
            invariant
                n == start.len(),
                self.children@.len() == n,
                i <= n,
                self.separation == old(self).separation,
                self.align == old(self).align,
                start == old(self).children@,
                forall|j: int| 0 <= j < n ==> (#[trigger] start[j]).layout_ok(c),
                forall|j: int| 0 <= j < i ==> (#[trigger] start[j]).lays_out_as(c, self.children@[j]),
                forall|j: int| i <= j < n ==> #[trigger] self.children@[j] == start[j],
                width == widest(start.take(i as int), c),
                i > 0 ==> first_y == start[0].measured(c).y,
            decreases n - i,
        {
            proof {
                lemma_widest_take(start, i as int, c);
            }
            let s = self.children[i].layout(c);
            if s.x > width {
                width = s.x;
            }
            if i == 0 {
                first_y = s.y;
            }
            i = i + 1;
        }
        proof {
            assert(start.take(n as int) == start);
            let k = n as int;
            let f = first_y as int;
            let sp = self.separation as int;
            assert(f * k <= u32::MAX && sp * (k - 1) <= u32::MAX) by (nonlinear_arith)
                requires
                    f * k + sp * (k - 1) <= u32::MAX,
                    f >= 0,
                    sp >= 0,
                    k >= 1,
            ;
        }
        let count = n as u32;
        Size { x: width, y: first_y * count + self.separation * (count - 1) }
    }

    open spec fn paint_ok(&self, region: Region) -> bool {
        let n = self.children@.len() as int;
        n > 0 ==> {
            &&& n <= u32::MAX
            &&& region.size.y + self.separation <= u32::MAX
            &&& n * self.separation <= region.size.y + self.separation
            &&& forall|i: int| 0 <= i < n ==> {
                &&& self.row_height(region.size.y) + self.separation <= u32::MAX
                &&& region.origin.y + (self.row_height(region.size.y) + self.separation) * i <= u32::MAX
                &&& (#[trigger] self.children@[i]).paint_ok(self.row_region(region, i))
            }
        }
    }

    open spec fn painted(&self, region: Region) -> Seq<Rectangle> {
        self.painted_rows(region, self.children@.len() as int)
    }

    fn paint(&self, region: Region, scene: &mut Vec<Rectangle>) {
        let n = self.children.len();
        if n == 0 {
            return;
        }
        let count = n as u32;
        proof {
            let k = n as int;
            let sp = self.separation as int;
            assert(k * sp <= u32::MAX) by (nonlinear_arith)
                requires
                    k * sp <= region.size.y + sp,
                    region.size.y + sp <= u32::MAX,
            ;
        }
        let height = (region.size.y + self.separation - count * self.separation) / count;
        let ghost start = *self;
        let mut i: usize = 0;
        while i < n
            invariant
                n == start.children@.len(),
                count == n,
                n > 0,
                i <= n,
                *self == start,
                start.paint_ok(region),
                height == start.row_height(region.size.y),
                scene@ == old(scene)@ + start.painted_rows(region, i as int),
            decreases n - i,
        {
            assert(start.children@[i as int].paint_ok(start.row_region(region, i as int)));
            let step = height + self.separation;
            proof {
                let k = i as int;
                let st = step as int;
                assert(st * k <= u32::MAX);
            }
            let offset = step * (i as u32);
            let row = Region {
                origin: Size { x: region.origin.x, y: region.origin.y + offset },
                size: Size { x: region.size.x, y: height },
            };
            self.children[i].paint(row, scene);
            i = i + 1;
        }
    }
}

/// The width a character takes, in pixels.
pub const CHAR_WIDTH: u32 = 6;

/// The height of a line of text, in pixels.
pub const CHAR_HEIGHT: u32 = 5;

/// Whether the font has a glyph for `c`: the upper-case letters, the space and the digits.
pub open spec fn in_font(c: char) -> bool {
    ('A' <= c && c <= 'Z') || c == ' ' || ('0' <= c && c <= '9')
}

/// The position of the glyph of `c` in the font: the letters from `A`, then the space, then
/// the digits from `0`.
pub open spec fn glyph(c: char) -> int {
    if 'A' <= c && c <= 'Z' {
        c as int - 'A' as int
    } else if c == ' ' {
        26
    } else {
        c as int - '0' as int + 27
    }
}

/// The byte length of the UTF-8 encoding of `s`, as `str::len` gives it, cut to a `u32`.
pub open spec fn text_width_units(s: Seq<char>) -> u32 {
    ((vstd::utf8::encode_utf8(s).len() as usize) as u32)
}

/// What `str::to_uppercase` makes of `s`.
pub uninterp spec fn uppercase_text(s: Seq<char>) -> Seq<char>;

/// `s` in upper case (`str::to_uppercase`).
#[verifier::external_body]
fn text_to_uppercase(s: &str) -> (r: String)
    ensures
        r@ == uppercase_text(s@),
{
    s.to_uppercase()
}

/// The position of the glyph of `c`.
fn glyph_of(c: char) -> (r: i32)
    requires
        in_font(c),
    ensures
        r == glyph(c),
{
    let code = c as u32;
    if 'A' <= c && c <= 'Z' {
        (code - 65) as i32
    } else if c == ' ' {
        26
    } else {
        (code - 48 + 27) as i32
    }
}

/// A line of text.
pub struct Text {
    pub color: Color,
    pub content: String,
}

impl Text {
    /// The glyph rectangle of the character at `i` of the upper-cased text.
    pub open spec fn glyph_rect(&self, region: Region, i: int) -> Rectangle {
        Rectangle {
            color: self.color,
            origin: plus(region.origin, size(CHAR_WIDTH * i, 0)),
            extent: size(CHAR_HEIGHT as int, 5),
            radius: 0,
            atlas_id: glyph(uppercase_text(self.content@)[i]) as i32,
        }
    }
}

impl Element for Text {
    open spec fn layout_ok(&self, c: SizeConstraints) -> bool {
        text_width_units(self.content@) * CHAR_WIDTH <= u32::MAX
    }

    open spec fn measured(&self, c: SizeConstraints) -> Size {
        size(
            longer((text_width_units(self.content@) * CHAR_WIDTH) as u32, c.min.x) as int,
            longer(CHAR_HEIGHT, c.min.y) as int,
        )
    }

    open spec fn lays_out_as(&self, c: SizeConstraints, after: Self) -> bool {
        after == *self
    }

    fn layout(&mut self, c: SizeConstraints) -> (r: Size) {
        let bytes: usize = self.content.as_str().len();
        let w = (bytes as u32) * CHAR_WIDTH;
        Size { x: if w >= c.min.x { w } else { c.min.x }, y: if CHAR_HEIGHT >= c.min.y { CHAR_HEIGHT } else { c.min.y } }
    }

    open spec fn paint_ok(&self, region: Region) -> bool {
        let upper = uppercase_text(self.content@);
        &&& upper.len() <= u32::MAX
        &&& forall|i: int| 0 <= i < upper.len() ==> {
            &&& in_font(#[trigger] upper[i])
            &&& region.origin.x + CHAR_WIDTH * i <= u32::MAX
        }
    }

    open spec fn painted(&self, region: Region) -> Seq<Rectangle> {
        Seq::new(uppercase_text(self.content@).len(), |i: int| self.glyph_rect(region, i))
    }

    fn paint(&self, region: Region, scene: &mut Vec<Rectangle>) {
        let upper = text_to_uppercase(self.content.as_str());
        let chars = crate::shader::chars_of(upper.as_str());
        let mut i: usize = 0;
        while i < chars.len()
            invariant
                i <= chars@.len(),
                chars@ == uppercase_text(self.content@),
                self.paint_ok(region),
                scene@ == old(scene)@ + Seq::new(i as nat, |k: int| self.glyph_rect(region, k)),
            decreases chars.len() - i,
        {
            let c = chars[i];
            assert(in_font(chars@[i as int]));
            let atlas_id = glyph_of(c);
            let dx = CHAR_WIDTH * (i as u32);
            scene.push(Rectangle {
                color: self.color,
                origin: Size { x: region.origin.x + dx, y: region.origin.y },
                extent: Size { x: CHAR_HEIGHT, y: 5 },
                radius: 0,
                atlas_id,
            });
            assert(Seq::new((i + 1) as nat, |k: int| self.glyph_rect(region, k)) == Seq::new(i as nat, |k: int| self.glyph_rect(region, k)).push(self.glyph_rect(region, i as int)));
            i = i + 1;
        }
    }
}

/// Paints `text` into `region` where that is possible (every character of the upper-cased
/// text has a glyph and the row fits on the screen); returns whether it was painted.
pub fn paint_text(text: &Text, region: Region, scene: &mut Vec<Rectangle>) -> (r: bool)
    ensures
        r == text.paint_ok(region),
        r ==> final(scene)@ == old(scene)@ + text.painted(region),
        !r ==> final(scene)@ == old(scene)@,
{
    let upper = text_to_uppercase(text.content.as_str());
    let chars = crate::shader::chars_of(upper.as_str());
    if chars.len() > 4294967295 {
        return false;
    }
    let mut i: usize = 0;
    while i < chars.len()
        invariant
            i <= chars@.len(),
            chars@.len() <= u32::MAX,
            chars@ == uppercase_text(text.content@),
            forall|j: int| 0 <= j < i ==> in_font(#[trigger] chars@[j]) && region.origin.x + CHAR_WIDTH * j <= u32::MAX,
        decreases chars.len() - i,
    {
        let c = chars[i];
        let fits = 'A' <= c && c <= 'Z' || c == ' ' || '0' <= c && c <= '9';
        if !fits {
            return false;
        }
        let dx: u64 = 6 * (i as u64);
        if region.origin.x as u64 + dx > 4294967295 {
            return false;
        }
        i = i + 1;
    }
    text.paint(region, scene);
    true
}

/// Which windows of the interface are open.
pub struct UI {
    pub inventory: bool,
    pub craft: bool,
}

impl UI {
    /// An interface with every window closed.
    pub fn new() -> (r: UI)
        ensures
            !r.inventory,
            !r.craft,
    {
        UI { inventory: false, craft: false }
    }
}

impl Element for UI {
    open spec fn layout_ok(&self, c: SizeConstraints) -> bool {
        true
    }

    /// The whole of the largest size allowed.
    open spec fn measured(&self, c: SizeConstraints) -> Size {
        c.max
    }

    open spec fn lays_out_as(&self, c: SizeConstraints, after: Self) -> bool {
        after == *self
    }

    fn layout(&mut self, c: SizeConstraints) -> (r: Size) {
        c.max
    }

    open spec fn paint_ok(&self, region: Region) -> bool {
        true
    }

    /// The interface paints nothing of its own.
    open spec fn painted(&self, region: Region) -> Seq<Rectangle> {
        Seq::empty()
    }

    fn paint(&self, region: Region, scene: &mut Vec<Rectangle>) {
    }
}

/// A horizontal pair is as tall as the taller of its two widgets, and as wide as both of them
/// with the separation between them.
pub proof fn lemma_hpair_size<L: Element, R: Element>(p: HPair<L, R>, c: SizeConstraints)
    ensures
        p.measured(c).y >= p.left.measured(c).y,
        p.measured(c).y >= p.right.measured(p.right_constraints(c)).y,
        p.measured(c).y == p.left.measured(c).y || p.measured(c).y == p.right.measured(p.right_constraints(c)).y,
        p.layout_ok(c) ==> p.measured(c).x == p.left.measured(c).x + p.right.measured(p.right_constraints(c)).x
            + p.separation,
{
}

/// A vertical pair is as wide as the wider of its two widgets, and as tall as both of them
/// with the separation between them.
pub proof fn lemma_vpair_size<T: Element, B: Element>(p: VPair<T, B>, c: SizeConstraints)
    ensures
        p.measured(c).x >= p.top.measured(c).x,
        p.measured(c).x >= p.bottom.measured(p.bottom_constraints(c)).x,
        p.measured(c).x == p.top.measured(c).x || p.measured(c).x == p.bottom.measured(p.bottom_constraints(c)).x,
        p.layout_ok(c) ==> p.measured(c).y == p.top.measured(c).y + p.bottom.measured(p.bottom_constraints(c)).y
            + p.separation,
{
}

/// Placing something of length `actual` along a length `wanted`: aligned to the top it starts at
/// the top, aligned to the bottom it ends at the bottom, centered it leaves equal space on both
/// sides (the odd unit below), and it never leaves its length.
pub proof fn lemma_vertical_alignment(wanted: u32, actual: u32)
    requires
        actual <= wanted,
    ensures
        lead(VAlign::Top, wanted, actual) == 0,
        lead(VAlign::Bottom, wanted, actual) + actual == wanted,
        2 * lead(VAlign::Center, wanted, actual) <= wanted - actual <= 2 * lead(VAlign::Center, wanted, actual) + 1,
        forall|a: VAlign| #[trigger] lead(a, wanted, actual) + actual <= wanted,
{
}

/// Placing something of width `actual` across a width `wanted`: aligned left it starts at the
/// left, aligned right it ends at the right, centered it leaves equal space on both sides (the
/// odd unit on the right), and it never leaves its width.
pub proof fn lemma_horizontal_alignment(wanted: u32, actual: u32)
    requires
        actual <= wanted,
    ensures
        h_lead(HAlign::Left, wanted, actual) == 0,
        h_lead(HAlign::Right, wanted, actual) + actual == wanted,
        2 * h_lead(HAlign::Center, wanted, actual) <= wanted - actual <= 2 * h_lead(HAlign::Center, wanted, actual) + 1,
        forall|a: HAlign| #[trigger] h_lead(a, wanted, actual) + actual <= wanted,
{
}

/// In a horizontal pair aligned to the top, both widgets are painted from the top of the
/// region; aligned to the bottom, both end at its bottom; the right widget starts after the left
/// one and the separation.
pub proof fn lemma_hpair_regions<L: Element, R: Element>(p: HPair<L, R>, region: Region)
    requires
        p.paint_ok(region),
    ensures
        p.align == VAlign::Top ==> p.left_region(region).origin.y == region.origin.y
            && p.right_region(region).origin.y == region.origin.y,
        p.align == VAlign::Bottom ==> p.left_region(region).origin.y + p.left_size.y == region.origin.y + region.size.y
            && p.right_region(region).origin.y + p.right_size.y == region.origin.y + region.size.y,
        p.left_region(region).origin.x == region.origin.x,
        p.right_region(region).origin.x == region.origin.x + p.left_size.x + p.separation,
        p.left_region(region).size == p.left_size,
        p.right_region(region).size == p.right_size,
{
    lemma_vertical_alignment(region.size.y, p.left_size.y);
    lemma_vertical_alignment(region.size.y, p.right_size.y);
}

/// In a vertical pair aligned left, both widgets are painted from the left of the region;
/// aligned right, both end at its right; the bottom widget starts under the top one and the
/// separation.
pub proof fn lemma_vpair_regions<T: Element, B: Element>(p: VPair<T, B>, region: Region)
    requires
        p.paint_ok(region),
    ensures
        p.align == HAlign::Left ==> p.top_region(region).origin.x == region.origin.x
            && p.bottom_region(region).origin.x == region.origin.x,
        p.align == HAlign::Right ==> p.top_region(region).origin.x + p.top_size.x == region.origin.x + region.size.x
            && p.bottom_region(region).origin.x + p.bottom_size.x == region.origin.x + region.size.x,
        p.top_region(region).origin.y == region.origin.y,
        p.bottom_region(region).origin.y == region.origin.y + p.top_size.y + p.separation,
        p.top_region(region).size == p.top_size,
        p.bottom_region(region).size == p.bottom_size,
{
    lemma_horizontal_alignment(region.size.x, p.top_size.x);
    lemma_horizontal_alignment(region.size.x, p.bottom_size.x);
}

} // verus!
