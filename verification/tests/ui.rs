use aetheria::ui::{
    paint_text, Color, Container, Element, HAlign, HPair, Padding, Rectangle, Region, Size, SizeConstraints, Text,
    VAlign, VList, VPair, CHAR_HEIGHT, CHAR_WIDTH, UI,
};

fn white() -> Color {
    Color { r: 1.0f32.to_bits(), g: 1.0f32.to_bits(), b: 1.0f32.to_bits(), a: 1.0f32.to_bits() }
}

fn black() -> Color {
    Color { r: 0.0f32.to_bits(), g: 0.0f32.to_bits(), b: 0.0f32.to_bits(), a: 1.0f32.to_bits() }
}

fn text(s: &str) -> Text {
    Text { color: white(), content: s.to_owned() }
}

fn sz(x: u32, y: u32) -> Size {
    Size { x, y }
}

fn open(max_x: u32, max_y: u32) -> SizeConstraints {
    SizeConstraints { min: sz(0, 0), max: sz(max_x, max_y) }
}

fn glyph(x: u32, y: u32, id: i32) -> Rectangle {
    Rectangle { color: white(), origin: sz(x, y), extent: sz(CHAR_HEIGHT, 5), radius: 0, atlas_id: id }
}

#[test]
fn padding_new_uniform_pads_every_side() {
    let p = Padding::new_uniform(text("a"), 4);
    assert_eq!((p.top, p.bottom, p.left, p.right), (4, 4, 4, 4));
    assert_eq!(p.child.content, "a");
}

#[test]
fn text_measures_bytes_times_char_width() {
    let mut t = text("Wood x3");
    assert_eq!(t.layout(open(100, 100)), sz(7 * CHAR_WIDTH, CHAR_HEIGHT));
    let c = SizeConstraints { min: sz(50, 8), max: sz(100, 100) };
    assert_eq!(t.layout(c), sz(50, 8));
}

#[test]
fn text_paints_one_glyph_per_upper_cased_character() {
    let t = text("ab 1");
    let mut scene = Vec::new();
    t.paint(Region { origin: sz(10, 20), size: sz(24, 5) }, &mut scene);
    assert_eq!(scene, vec![glyph(10, 20, 0), glyph(16, 20, 1), glyph(22, 20, 26), glyph(28, 20, 28)]);
}

#[test]
fn paint_text_refuses_a_character_outside_the_font() {
    let mut scene = vec![glyph(0, 0, 3)];
    assert!(!paint_text(&text("a!"), Region { origin: sz(0, 0), size: sz(12, 5) }, &mut scene));
    assert_eq!(scene, vec![glyph(0, 0, 3)]);
    assert!(paint_text(&text("z9"), Region { origin: sz(0, 0), size: sz(12, 5) }, &mut scene));
    assert_eq!(scene, vec![glyph(0, 0, 3), glyph(0, 0, 25), glyph(6, 0, 36)]);
}

#[test]
fn paint_text_refuses_a_row_past_the_screen_edge() {
    let mut scene = Vec::new();
    let region = Region { origin: sz(u32::MAX - 3, 0), size: sz(12, 5) };
    assert!(!paint_text(&text("ab"), region, &mut scene));
    assert!(scene.is_empty());
}

#[test]
fn container_adds_its_border_and_paints_background_first() {
    let mut c = Container { child: text("A"), color: black(), border_radius: 1, border_color: white() };
    assert_eq!(c.layout(open(100, 100)), sz(8, 7));
    let mut scene = Vec::new();
    c.paint(Region { origin: sz(10, 10), size: sz(8, 7) }, &mut scene);
    assert_eq!(
        scene,
        vec![
            Rectangle { color: white(), origin: sz(10, 10), extent: sz(8, 7), radius: 1, atlas_id: 0 },
            Rectangle { color: black(), origin: sz(11, 11), extent: sz(6, 5), radius: 0, atlas_id: 0 },
            glyph(11, 11, 0),
        ]
    );
}

#[test]
fn padding_shifts_and_grows_its_child() {
    let mut p = Padding { child: text("A"), top: 1, bottom: 2, left: 3, right: 4 };
    assert_eq!(p.layout(open(100, 100)), sz(6 + 7, 5 + 3));
    let mut scene = Vec::new();
    p.paint(Region { origin: sz(0, 0), size: sz(13, 8) }, &mut scene);
    assert_eq!(scene, vec![glyph(3, 1, 0)]);
}

#[test]
fn hpair_places_widgets_side_by_side_centered() {
    let mut pair = HPair::new(text("A"), text("BC"), VAlign::Center, 2);
    assert_eq!(pair.layout(open(100, 100)), sz(20, 5));
    assert_eq!(pair.left_size, sz(6, 5));
    assert_eq!(pair.right_size, sz(12, 5));
    let mut scene = Vec::new();
    pair.paint(Region { origin: sz(0, 0), size: sz(20, 9) }, &mut scene);
    assert_eq!(scene, vec![glyph(0, 2, 0), glyph(8, 2, 1), glyph(14, 2, 2)]);
}

#[test]
fn hpair_aligned_to_the_bottom() {
    let mut pair = HPair::new(text("A"), text("B"), VAlign::Bottom, 0);
    pair.layout(open(100, 100));
    let mut scene = Vec::new();
    pair.paint(Region { origin: sz(1, 1), size: sz(12, 9) }, &mut scene);
    assert_eq!(scene, vec![glyph(1, 5, 0), glyph(7, 5, 1)]);
}

#[test]
fn vpair_stacks_widgets_aligned_right() {
    let mut pair = VPair::new(text("A"), text("BC"), HAlign::Right, 1);
    assert_eq!(pair.layout(open(100, 100)), sz(12, 11));
    let mut scene = Vec::new();
    pair.paint(Region { origin: sz(0, 0), size: sz(12, 11) }, &mut scene);
    assert_eq!(scene, vec![glyph(6, 0, 0), glyph(0, 6, 1), glyph(6, 6, 2)]);
}

#[test]
fn vpair_centered() {
    let mut pair = VPair::new(text("AB"), text("C"), HAlign::Center, 0);
    pair.layout(open(100, 100));
    let mut scene = Vec::new();
    pair.paint(Region { origin: sz(0, 0), size: sz(12, 10) }, &mut scene);
    assert_eq!(scene, vec![glyph(0, 0, 0), glyph(6, 0, 1), glyph(3, 5, 2)]);
}

#[test]
fn vlist_gives_each_row_the_height_of_the_first() {
    let mut list = VList { children: vec![text("A"), text("BCD")], separation: 3, align: HAlign::Left };
    assert_eq!(list.layout(open(100, 100)), sz(18, 13));
    let mut scene = Vec::new();
    list.paint(Region { origin: sz(0, 0), size: sz(18, 13) }, &mut scene);
    assert_eq!(scene, vec![glyph(0, 0, 0), glyph(0, 8, 1), glyph(6, 8, 2), glyph(12, 8, 3)]);
}

#[test]
fn empty_vlist_takes_no_room_and_paints_nothing() {
    let mut list: VList<Text> = VList { children: vec![], separation: 3, align: HAlign::Left };
    assert_eq!(list.layout(open(100, 100)), sz(0, 0));
    let mut scene = Vec::new();
    list.paint(Region { origin: sz(0, 0), size: sz(10, 10) }, &mut scene);
    assert!(scene.is_empty());
}

#[test]
fn ui_starts_closed_and_fills_the_screen() {
    let mut ui = UI::new();
    assert!(!ui.inventory && !ui.craft);
    assert_eq!(ui.layout(open(480, 270)), sz(480, 270));
    let mut scene = Vec::new();
    ui.paint(Region { origin: sz(0, 0), size: sz(480, 270) }, &mut scene);
    assert!(scene.is_empty());
}
