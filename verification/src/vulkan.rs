//! The choices made while setting up the Vulkan device and swapchain, and while presenting frames.
use vstd::prelude::*;
use std::collections::HashSet;
use std::hash::Hash;
use vstd::std_specs::hash::obeys_key_model;

verus! {

broadcast use {vstd::std_specs::hash::group_hash_axioms, vstd::seq::Seq::lemma_push_to_set_commute};

/// `VK_FORMAT_B8G8R8A8_SRGB`.
pub const FORMAT_B8G8R8A8_SRGB: i32 = 50;
/// `VK_COLOR_SPACE_SRGB_NONLINEAR_KHR`.
pub const COLOR_SPACE_SRGB_NONLINEAR: i32 = 0;
/// `VK_PRESENT_MODE_MAILBOX_KHR`.
pub const PRESENT_MODE_MAILBOX: i32 = 1;
/// `VK_PRESENT_MODE_FIFO_KHR`.
pub const PRESENT_MODE_FIFO: i32 = 2;
/// `VK_QUEUE_GRAPHICS_BIT`.
pub const QUEUE_GRAPHICS_BIT: u32 = 1;
/// `VK_ERROR_OUT_OF_DATE_KHR`.
pub const ERROR_OUT_OF_DATE: i32 = -1000001004;

/// The elements found in both `a` and `b`, each once (in an order callers should not rely on).
/// What is stated holds of the element types whose hashing and equality agree with their
/// values, as vstd records for the integer types among others.
pub fn intersection<T: Hash + Copy + Eq>(a: &[T], b: &[T]) -> (r: Vec<T>)
    ensures
        obeys_key_model::<T>() ==> r@.to_set() == a@.to_set().intersect(b@.to_set()),
        obeys_key_model::<T>() ==> r@.no_duplicates(),
{
    let mut b_unique: HashSet<T> = HashSet::new();
    let mut i: usize = 0;
    while i < b.len()
        invariant
            i <= b@.len(),
            obeys_key_model::<T>() ==> b_unique@ == b@.take(i as int).to_set(),
        decreases b.len() - i,
    {
        b_unique.insert(b[i]);
        assert(b@.take(i + 1) == b@.take(i as int).push(b@[i as int]));
        i = i + 1;
    }
    assert(b@.take(b.len() as int) == b@);
    let mut seen: HashSet<T> = HashSet::new();
    let mut r: Vec<T> = Vec::new();
    let mut j: usize = 0;
    while j < a.len()
        invariant
            j <= a@.len(),
            obeys_key_model::<T>() ==> b_unique@ == b@.to_set(),
            obeys_key_model::<T>() ==> seen@ == r@.to_set(),
            obeys_key_model::<T>() ==> r@.to_set() == a@.take(j as int).to_set().intersect(b@.to_set()),
            obeys_key_model::<T>() ==> r@.no_duplicates(),
        decreases a.len() - j,
    {
        let x = a[j];
        let ghost before = r@;
        assert(a@.take(j + 1) == a@.take(j as int).push(x));
        if b_unique.contains(&x) && !seen.contains(&x) {
            r.push(x);
            seen.insert(x);
            assert(r@.to_set() == before.to_set().insert(x));
        }
        proof {
            if obeys_key_model::<T>() {
                assert(r@.to_set() =~= a@.take(j + 1).to_set().intersect(b@.to_set()));
            }
        }
        j = j + 1;
    }
    assert(a@.take(a.len() as int) == a@);
    r
}

/// The counts and offsets of a draw call.
#[derive(Clone, Copy, Debug, Default, PartialEq, Eq, Structural)]
pub struct DrawOptions {
    pub vertex_count: u32,
    pub instance_count: u32,
    pub first_vertex: i32,
    pub first_instance: u32,
}

/// A surface format: a pixel format and a color space.
#[derive(Clone, Copy, Debug, PartialEq, Eq, Structural)]
pub struct SurfaceFormat {
    pub format: i32,
    pub color_space: i32,
}

/// Whether `f` is 8-bit BGRA sRGB in the nonlinear sRGB color space.
pub open spec fn is_preferred_format(f: SurfaceFormat) -> bool {
    f.format == FORMAT_B8G8R8A8_SRGB && f.color_space == COLOR_SPACE_SRGB_NONLINEAR
}

/// The surface format to use: the first preferred one, else the first offered.
pub fn choose_surface_format(formats: &[SurfaceFormat]) -> (r: SurfaceFormat)
    requires
        formats@.len() > 0,
    ensures
        (exists|i: int| 0 <= i < formats@.len() && is_preferred_format(#[trigger] formats@[i])) ==> {
            exists|i: int| 0 <= i < formats@.len() && #[trigger] formats@[i] == r && is_preferred_format(r)
                && forall|j: int| 0 <= j < i ==> !is_preferred_format(#[trigger] formats@[j])
        },
        !(exists|i: int| 0 <= i < formats@.len() && is_preferred_format(#[trigger] formats@[i])) ==> r == formats@[0],
{
    let mut i: usize = 0;
    while i < formats.len()
        invariant
            i <= formats@.len(),
            forall|j: int| 0 <= j < i ==> !is_preferred_format(#[trigger] formats@[j]),
        decreases formats.len() - i,
    {
        let f = formats[i];
        if f.format == FORMAT_B8G8R8A8_SRGB && f.color_space == COLOR_SPACE_SRGB_NONLINEAR {
            return f;
        }
        i = i + 1;
    }
    formats[0]
}

/// The present mode to use: mailbox where it is offered, else FIFO.
pub fn choose_present_mode(modes: &[i32]) -> (r: i32)
    ensures
        r == if modes@.contains(PRESENT_MODE_MAILBOX) { PRESENT_MODE_MAILBOX } else { PRESENT_MODE_FIFO },
{
    let mut i: usize = 0;
    while i < modes.len()
        invariant
            i <= modes@.len(),
            forall|j: int| 0 <= j < i ==> #[trigger] modes@[j] != PRESENT_MODE_MAILBOX,
        decreases modes.len() - i,
    {
        if modes[i] == PRESENT_MODE_MAILBOX {
            return PRESENT_MODE_MAILBOX;
        }
        i = i + 1;
    }
    PRESENT_MODE_FIFO
}

/// A width and a height.
#[derive(Clone, Copy, Debug, PartialEq, Eq, Structural)]
pub struct Extent {
    pub width: u32,
    pub height: u32,
}

/// The swapchain extent: the surface's current extent, unless its width is the special value
/// `u32::MAX`, in which case the window's size.
pub fn choose_extent(current: Extent, window: Extent) -> (r: Extent)
    ensures
        r == if current.width != u32::MAX { current } else { window },
{
    if current.width != u32::MAX {
        current
    } else {
        window
    }
}

/// The number of swapchain images: one more than the minimum, unless that reaches the maximum
/// (a maximum of 0 means none).
pub fn choose_image_count(min: u32, max: u32) -> (r: u32)
    requires
        min < u32::MAX,
    ensures
        r == if max == 0 || min + 1 < max { (min + 1) as u32 } else { min },
{
    if max == 0 || min + 1 < max {
        min + 1
    } else {
        min
    }
}

/// How the swapchain images are shared between the graphics and present queue families.
#[derive(Clone, Copy, Debug, PartialEq, Eq, Structural)]
pub enum SharingMode {
    Exclusive,
    Concurrent,
}

/// The sharing mode and the queue families to list: exclusive with none where one family does
/// both, else concurrent with both.
pub fn choose_sharing(graphics: u32, present: u32) -> (r: (SharingMode, Vec<u32>))
    ensures
        graphics == present ==> r.0 == SharingMode::Exclusive && r.1@ == Seq::<u32>::empty(),
        graphics != present ==> r.0 == SharingMode::Concurrent && r.1@ == seq![graphics, present],
{
    if graphics == present {
        (SharingMode::Exclusive, Vec::new())
    } else {
        (SharingMode::Concurrent, vec![graphics, present])
    }
}

/// The first queue family whose flags include graphics, if any.
pub fn find_graphics_family(families: &[u32]) -> (r: Option<usize>)
    ensures
        match r {
            Some(i) => i < families@.len() && families@[i as int] & QUEUE_GRAPHICS_BIT != 0
                && forall|j: int| 0 <= j < i ==> #[trigger] families@[j] & QUEUE_GRAPHICS_BIT == 0,
            None => forall|j: int| 0 <= j < families@.len() ==> #[trigger] families@[j] & QUEUE_GRAPHICS_BIT == 0,
        },
{
    let mut i: usize = 0;
    while i < families.len()
        invariant
            i <= families@.len(),
            forall|j: int| 0 <= j < i ==> #[trigger] families@[j] & QUEUE_GRAPHICS_BIT == 0,
        decreases families.len() - i,
    {
        if families[i] & QUEUE_GRAPHICS_BIT != 0 {
            return Some(i);
        }
        i = i + 1;
    }
    None
}

/// The first queue family that can present to the surface, if any.
pub fn find_present_family(supported: &[bool]) -> (r: Option<usize>)
    ensures
        match r {
            Some(i) => i < supported@.len() && supported@[i as int]
                && forall|j: int| 0 <= j < i ==> !#[trigger] supported@[j],
            None => forall|j: int| 0 <= j < supported@.len() ==> !#[trigger] supported@[j],
        },
{
    let mut i: usize = 0;
    while i < supported.len()
        invariant
            i <= supported@.len(),
            forall|j: int| 0 <= j < i ==> !#[trigger] supported@[j],
        decreases supported.len() - i,
    {
        if supported[i] {
            return Some(i);
        }
        i = i + 1;
    }
    None
}

/// The queue families to create queues on: the graphics and the present family, each once.
pub fn unique_families(graphics: usize, present: usize) -> (r: Vec<usize>)
    ensures
        r@.to_set() == set![graphics, present],
        r@.no_duplicates(),
{
    if graphics == present {
        let r = vec![graphics];
        assert(r@.to_set() =~= set![graphics, present]) by {
            assert(r@[0] == graphics);
        }
        r
    } else {
        let r = vec![graphics, present];
        assert(r@.to_set() =~= set![graphics, present]) by {
            assert(r@[0] == graphics && r@[1] == present);
        }
        r
    }
}

/// What to do after acquiring or presenting a swapchain image.
#[derive(Clone, Copy, Debug, PartialEq, Eq, Structural)]
pub enum FrameStep {
    /// Go on with the image of this index.
    Continue(u32),
    /// The swapchain is out of date: recreate it.
    Recreate,
}

/// Reads the result of acquiring or presenting an image; any error but an out-of-date
/// swapchain is fatal, and is not accepted here.
pub fn frame_step(result: Result<u32, i32>) -> (r: FrameStep)
    requires
        result is Ok || result == Err::<u32, i32>(ERROR_OUT_OF_DATE),
    ensures
        match result {
            Ok(i) => r == FrameStep::Continue(i),
            Err(_) => r == FrameStep::Recreate,
        },
{
    match result {
        Ok(i) => FrameStep::Continue(i),
        Err(_) => FrameStep::Recreate,
    }
}

} // verus!
