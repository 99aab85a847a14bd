//! How the asset build sorts the files it finds, and the index module it writes for the
//! generated shader modules.
use vstd::prelude::*;
use crate::shader::{chars_of, same_chars};
use crate::paths::{names_file, output_chars, output_path};

verus! {

/// What an asset file is built into.
#[derive(Clone, Copy, Debug, PartialEq, Eq, Structural)]
pub enum AssetKind {
    /// GLSL source, compiled and given a generated module.
    Shader,
    /// A binary glTF model.
    Model,
    /// An image, re-encoded for the renderer.
    Texture,
}

/// The kind of asset a file with extension `ext` is: `glsl` a shader, `glb` a model, `jpg`,
/// `jpeg` and `png` a texture; any other file is no asset.
pub open spec fn asset_kind_of(ext: Seq<char>) -> Option<AssetKind> {
    if ext == seq!['g', 'l', 's', 'l'] {
        Some(AssetKind::Shader)
    } else if ext == seq!['g', 'l', 'b'] {
        Some(AssetKind::Model)
    } else if ext == seq!['j', 'p', 'g'] || ext == seq!['j', 'p', 'e', 'g'] || ext == seq!['p', 'n', 'g'] {
        Some(AssetKind::Texture)
    } else {
        None
    }
}

/// The kind of asset a file is, from its extension.
pub fn asset_kind(extension: &str) -> (r: Option<AssetKind>)
    ensures
        r == asset_kind_of(extension@),
{
    let ext = chars_of(extension);
    let glsl: [char; 4] = ['g', 'l', 's', 'l'];
    let glb: [char; 3] = ['g', 'l', 'b'];
    let jpg: [char; 3] = ['j', 'p', 'g'];
    let jpeg: [char; 4] = ['j', 'p', 'e', 'g'];
    let png: [char; 3] = ['p', 'n', 'g'];
    if same_chars(ext.as_slice(), &glsl) {
        Some(AssetKind::Shader)
    } else if same_chars(ext.as_slice(), &glb) {
        Some(AssetKind::Model)
    } else if same_chars(ext.as_slice(), &jpg) || same_chars(ext.as_slice(), &jpeg) || same_chars(
        ext.as_slice(),
        &png,
    ) {
        Some(AssetKind::Texture)
    } else {
        None
    }
}

/// Whether a path, given by its segments, lies outside the build's output directory: none of
/// its segments is `out`.
pub fn outside_output(segments: &[String]) -> (r: bool)
    ensures
        r == forall|i: int| 0 <= i < segments@.len() ==> (#[trigger] segments@[i])@ != seq!['o', 'u', 't'],
{
    let out: [char; 3] = ['o', 'u', 't'];
    let mut i: usize = 0;
    while i < segments.len()
        invariant
            i <= segments@.len(),
            out@ == seq!['o', 'u', 't'],
            forall|j: int| 0 <= j < i ==> (#[trigger] segments@[j])@ != seq!['o', 'u', 't'],
        decreases segments.len() - i,
    {
        let seg = chars_of(segments[i].as_str());
        if same_chars(seg.as_slice(), &out) {
            return false;
        }
        i = i + 1;
    }
    true
}

/// The lines of the index module for one generated module: it is declared, and what it holds
/// is re-exported.
pub open spec fn mod_line(name: Seq<char>) -> Seq<char> {
    "mod "@ + name + ";\npub use "@ + name + "::*;"@
}

/// The entries of the index module for the modules named `names`, in order, the index module
/// itself (`mod`) left out.
pub open spec fn module_lines(names: Seq<Seq<char>>) -> Seq<Seq<char>>
    decreases names.len(),
{
    if names.len() == 0 {
        Seq::empty()
    } else if names.last() == seq!['m', 'o', 'd'] {
        module_lines(names.drop_last())
    } else {
        module_lines(names.drop_last()).push(mod_line(names.last()))
    }
}

/// `lines`, one after another, with a line break between each two.
pub open spec fn join_lines(lines: Seq<Seq<char>>) -> Seq<char>
    decreases lines.len(),
{
    if lines.len() == 0 {
        Seq::empty()
    } else if lines.len() == 1 {
        lines[0]
    } else {
        join_lines(lines.drop_last()) + seq!['\n'] + lines.last()
    }
}

/// The names as character sequences.
pub open spec fn name_views(names: Seq<String>) -> Seq<Seq<char>> {
    names.map_values(|s: String| s@)
}

/// The source of the index module of the generated shader modules, from the stems of the
/// files in their directory.
pub fn shaders_index(names: &[String]) -> (r: String)
    ensures
        r@ == join_lines(module_lines(name_views(names@))),
{
    let ghost views = name_views(names@);
    let index_name: [char; 3] = ['m', 'o', 'd'];
    let mut r = String::new();
    let mut count: usize = 0;
    let mut i: usize = 0;
    while i < names.len()
        invariant
            i <= names@.len(),
            views == name_views(names@),
            index_name@ == seq!['m', 'o', 'd'],
            count == module_lines(views.take(i as int)).len(),
            count <= i,
            r@ == join_lines(module_lines(views.take(i as int))),
        decreases names.len() - i,
    {
        let name = names[i].as_str();
        let ghost before = module_lines(views.take(i as int));
        proof {
            assert(views.take(i + 1).drop_last() == views.take(i as int));
            assert(views.take(i + 1).last() == name@);
        }
        let chars = chars_of(name);
        if !same_chars(chars.as_slice(), &index_name) {
            if count > 0 {
                r.append("\n");
                proof {
                    reveal_strlit("\n");
                }
            }
            r.append("mod ");
            r.append(name);
            r.append(";\npub use ");
            r.append(name);
            r.append("::*;");
            proof {
                let after = before.push(mod_line(name@));
                assert(module_lines(views.take(i + 1)) == after);
                assert(after.drop_last() == before);
                if count == 0 {
                    assert(before.len() == 0);
                    assert(join_lines(after) == after[0]);
                }
            }
            count = count + 1;
        }
        i = i + 1;
    }
    proof {
        assert(views.take(names@.len() as int) == views);
    }
    r
}

/// What `image` makes of the bytes of an image file, its format guessed from the bytes and
/// the picture converted to 8-bit RGBA: width, height and pixels; `None` where it cannot read it.
pub uninterp spec fn decoded_rgba8(data: Seq<u8>) -> Option<(u32, u32, Seq<u8>)>;

/// Decodes an image file (`image::io::Reader::with_guessed_format`, `decode`, then
/// `DynamicImage::to_rgba8`).
#[verifier::external_body]
fn decode_rgba8(data: &[u8]) -> (r: Option<(u32, u32, Vec<u8>)>)
    ensures
        match r {
            Some((w, h, pixels)) => decoded_rgba8(data@) == Some((w, h, pixels@)),
            None => decoded_rgba8(data@) is None,
        },
{
    let reader = image::io::Reader::new(std::io::Cursor::new(data)).with_guessed_format().ok()?;
    let rgba = reader.decode().ok()?.to_rgba8();
    Some((rgba.width(), rgba.height(), rgba.into_raw()))
}

/// What `qoi::encode_to_vec` makes of pixels of the given width and height; `None` where it
/// refuses them.
pub uninterp spec fn qoi_encoded(pixels: Seq<u8>, width: u32, height: u32) -> Option<Seq<u8>>;

/// Encodes pixels as a QOI image (`qoi::encode_to_vec`).
#[verifier::external_body]
fn qoi_encode(pixels: &[u8], width: u32, height: u32) -> (r: Option<Vec<u8>>)
    ensures
        match r {
            Some(bytes) => qoi_encoded(pixels@, width, height) == Some(bytes@),
            None => qoi_encoded(pixels@, width, height) is None,
        },
{
    qoi::encode_to_vec(pixels, width, height).ok()
}

/// An image asset: its path, and its picture as 8-bit RGBA pixels.
pub struct Texture {
    pub path: String,
    pub width: u32,
    pub height: u32,
    pub rgba: Vec<u8>,
}

impl Texture {
    /// The texture at `path` from the bytes of its file, which must decode.
    pub fn new(path: &str, data: &[u8]) -> (r: Texture)
        requires
            decoded_rgba8(data@) is Some,
        ensures
            r.path@ == path@,
            decoded_rgba8(data@) == Some((r.width, r.height, r.rgba@)),
    {
        match decode_rgba8(data) {
            Some((width, height, rgba)) => Texture { path: path.to_owned(), width, height, rgba },
            None => Texture { path: path.to_owned(), width: 0, height: 0, rgba: Vec::new() },
        }
    }

    /// The texture at `path` from the bytes of its file; `None` where they do not decode.
    pub fn try_new(path: &str, data: &[u8]) -> (r: Option<Texture>)
        ensures
            r is Some <==> decoded_rgba8(data@) is Some,
            r matches Some(t) ==> t.path@ == path@ && decoded_rgba8(data@) == Some((t.width, t.height, t.rgba@)),
    {
        match decode_rgba8(data) {
            Some(_) => Some(Texture::new(path, data)),
            None => None,
        }
    }

    /// What the build writes for the texture: where (under `./out`, the extension set to
    /// `qoi`) and the QOI encoding of its pixels. The path must name a file and the pixels
    /// must encode.
    pub fn compile(&self) -> (r: (String, Vec<u8>))
        requires
            names_file(self.path@),
            self.path@.len() + 6 < i64::MAX,
            qoi_encoded(self.rgba@, self.width, self.height) is Some,
        ensures
            r.0@ == output_chars(self.path@, seq!['q', 'o', 'i']),
            qoi_encoded(self.rgba@, self.width, self.height) == Some(r.1@),
    {
        let out = output_path(self.path.as_str(), "qoi");
        proof {
            reveal_strlit("qoi");
        }
        match qoi_encode(self.rgba.as_slice(), self.width, self.height) {
            Some(bytes) => (out, bytes),
            None => (out, Vec::new()),
        }
    }

    /// What the build writes for the texture, where its path names a file and its pixels encode.
    pub fn try_compile(&self) -> (r: Option<(String, Vec<u8>)>)
        requires
            self.path@.len() + 6 < i64::MAX,
        ensures
            r is Some <==> names_file(self.path@) && qoi_encoded(self.rgba@, self.width, self.height) is Some,
            r matches Some((out, bytes)) ==> out@ == output_chars(self.path@, seq!['q', 'o', 'i'])
                && qoi_encoded(self.rgba@, self.width, self.height) == Some(bytes@),
    {
        if !crate::paths::is_file_path(self.path.as_str()) {
            return None;
        }
        match qoi_encode(self.rgba.as_slice(), self.width, self.height) {
            Some(_) => Some(self.compile()),
            None => None,
        }
    }
}

} // verus!
