//! How shader files are named: the stage a source file is compiled for, the kind a compiled
//! file is loaded as, and the names of the code generated for it.
use vstd::prelude::*;
use crate::text::push_char;

verus! {

/// The stage a shader source is compiled for.
#[derive(Clone, Copy, Debug, PartialEq, Eq, Structural)]
pub enum ShaderStage {
    Vertex,
    Fragment,
}

/// The kind of pipeline stage a compiled shader is loaded as.
#[derive(Clone, Copy, Debug, PartialEq, Eq, Structural)]
pub enum ShaderKind {
    Vertex,
    Fragment,
    Compute,
}

/// The characters of `s`.
pub fn chars_of(s: &str) -> (r: Vec<char>)
    ensures
        r@ == s@,
{
    let mut r: Vec<char> = Vec::new();
    for c in it: s.chars()
        invariant
            it.seq() == s@,
            r@ == s@.take(it.index() as int),
    {
        r.push(c);
        assert(s@.take(it.index() + 1) == s@.take(it.index() as int).push(c));
    }
    assert(s@.take(s@.len() as int) == s@);
    r
}

/// Whether `a` and `b` hold the same characters.
pub fn same_chars(a: &[char], b: &[char]) -> (r: bool)
    ensures
        r == (a@ == b@),
{
    if a.len() != b.len() {
        return false;
    }
    let mut i: usize = 0;
    while i < a.len()
        invariant
            i <= a@.len(),
            a@.len() == b@.len(),
            forall|j: int| 0 <= j < i ==> a@[j] == b@[j],
        decreases a.len() - i,
    {
        if a[i] != b[i] {
            return false;
        }
        i = i + 1;
    }
    assert(a@ =~= b@);
    true
}

/// The four characters that stand before the last five of a source path (fewer near its
/// start): the stage in a name such as `ui.vert.glsl`.
pub open spec fn stage_chars(path: Seq<char>) -> Seq<char> {
    let end: int = if path.len() >= 5 { path.len() - 5 } else { 0 };
    let start: int = if end >= 4 { end - 4 } else { 0 };
    path.subrange(start, end)
}

/// The characters of a source path that name its stage.
pub fn stage_name(path: &str) -> (r: Vec<char>)
    ensures
        r@ == stage_chars(path@),
{
    let chars = chars_of(path);
    let end: usize = if chars.len() >= 5 { chars.len() - 5 } else { 0 };
    let start: usize = if end >= 4 { end - 4 } else { 0 };
    let mut r: Vec<char> = Vec::new();
    let mut i: usize = start;
    while i < end
        invariant
            start <= i <= end,
            end <= chars@.len(),
            r@ == chars@.subrange(start as int, i as int),
        decreases end - i,
    {
        r.push(chars[i]);
        assert(chars@.subrange(start as int, i + 1) == chars@.subrange(start as int, i as int).push(chars@[i as int]));
        i = i + 1;
    }
    r
}

impl ShaderStage {
    /// The stage that `name` names: `vert` or `frag`.
    pub fn from_name(name: &[char]) -> (r: Option<ShaderStage>)
        ensures
            r == (if name@ == seq!['v', 'e', 'r', 't'] {
                Some(ShaderStage::Vertex)
            } else if name@ == seq!['f', 'r', 'a', 'g'] {
                Some(ShaderStage::Fragment)
            } else {
                None
            }),
    {
        let vert: [char; 4] = ['v', 'e', 'r', 't'];
        let frag: [char; 4] = ['f', 'r', 'a', 'g'];
        if same_chars(name, &vert) {
            Some(ShaderStage::Vertex)
        } else if same_chars(name, &frag) {
            Some(ShaderStage::Fragment)
        } else {
            None
        }
    }

    /// The stage a source file is compiled for, from its path, which must name one.
    pub fn of_path(path: &str) -> (r: ShaderStage)
        requires
            stage_chars(path@) == seq!['v', 'e', 'r', 't'] || stage_chars(path@) == seq!['f', 'r', 'a', 'g'],
        ensures
            r == (if stage_chars(path@) == seq!['v', 'e', 'r', 't'] {
                ShaderStage::Vertex
            } else {
                ShaderStage::Fragment
            }),
    {
        let name = stage_name(path);
        match ShaderStage::from_name(name.as_slice()) {
            Some(stage) => stage,
            None => ShaderStage::Fragment,
        }
    }
}

/// The characters after the last `.` of `s`, or all of `s` where it has none.
pub open spec fn last_segment(s: Seq<char>) -> Seq<char>
    decreases s.len(),
{
    if s.len() == 0 {
        s
    } else if s.last() == '.' {
        Seq::empty()
    } else {
        last_segment(s.drop_last()).push(s.last())
    }
}

/// The last `.`-separated segment of `s`.
pub fn last_segment_of(s: &[char]) -> (r: Vec<char>)
    ensures
        r@ == last_segment(s@),
{
    let mut r: Vec<char> = Vec::new();
    let mut i: usize = 0;
    while i < s.len()
        invariant
            i <= s@.len(),
            r@ == last_segment(s@.take(i as int)),
        decreases s.len() - i,
    {
        assert(s@.take(i + 1).drop_last() == s@.take(i as int));
        if s[i] == '.' {
            r = Vec::new();
        } else {
            r.push(s[i]);
        }
        i = i + 1;
    }
    assert(s@.take(s.len() as int) == s@);
    r
}

/// Whether the last segment of a stem names a kind of shader: `vert`, `frag` or `comp`.
pub open spec fn names_kind(stem: Seq<char>) -> bool {
    last_segment(stem) == seq!['v', 'e', 'r', 't'] || last_segment(stem) == seq!['f', 'r', 'a', 'g']
        || last_segment(stem) == seq!['c', 'o', 'm', 'p']
}

/// The kind a compiled shader is loaded as, from the stem of its file name (`ui.comp` for
/// `ui.comp.spv`): its last segment, which must be `vert`, `frag` or `comp`.
pub fn shader_kind(stem: &str) -> (r: ShaderKind)
    requires
        names_kind(stem@),
    ensures
        r == (if last_segment(stem@) == seq!['v', 'e', 'r', 't'] {
            ShaderKind::Vertex
        } else if last_segment(stem@) == seq!['f', 'r', 'a', 'g'] {
            ShaderKind::Fragment
        } else {
            ShaderKind::Compute
        }),
{
    let chars = chars_of(stem);
    let last = last_segment_of(chars.as_slice());
    let vert: [char; 4] = ['v', 'e', 'r', 't'];
    let frag: [char; 4] = ['f', 'r', 'a', 'g'];
    if same_chars(last.as_slice(), &vert) {
        ShaderKind::Vertex
    } else if same_chars(last.as_slice(), &frag) {
        ShaderKind::Fragment
    } else {
        ShaderKind::Compute
    }
}

/// `s` with every `.` turned into `_`, then `.rs`: the file the code generated for a shader goes in.
pub open spec fn module_file_chars(stem: Seq<char>) -> Seq<char> {
    stem.map_values(|c: char| if c == '.' { '_' } else { c }) + seq!['.', 'r', 's']
}

/// The name of the file the code generated for a shader goes in, from the stem of its name.
pub fn module_file_name(stem: &str) -> (r: String)
    ensures
        r@ == module_file_chars(stem@),
{
    let chars = chars_of(stem);
    let mut r = String::new();
    let mut i: usize = 0;
    while i < chars.len()
        invariant
            i <= chars@.len(),
            chars@ == stem@,
            r@ == chars@.take(i as int).map_values(|c: char| if c == '.' { '_' } else { c }),
        decreases chars.len() - i,
    {
        let c = chars[i];
        push_char(&mut r, if c == '.' { '_' } else { c });
        assert(chars@.take(i + 1) == chars@.take(i as int).push(c));
        i = i + 1;
    }
    assert(chars@.take(chars.len() as int) == chars@);
    push_char(&mut r, '.');
    push_char(&mut r, 'r');
    push_char(&mut r, 's');
    r
}

/// What `char::to_uppercase` makes of `c`.
pub uninterp spec fn uppercase(c: char) -> Seq<char>;

/// The upper-case form of `c` (`char::to_uppercase`), as a string.
#[verifier::external_body]
fn char_to_uppercase(c: char) -> (r: String)
    ensures
        r@ == uppercase(c),
{
    c.to_uppercase().collect()
}

/// The `.`-separated parts of `s`, empty parts included.
pub open spec fn dot_parts(s: Seq<char>) -> Seq<Seq<char>>
    decreases s.len(),
{
    if s.len() == 0 {
        seq![Seq::empty()]
    } else {
        let p = dot_parts(s.drop_last());
        if s.last() == '.' {
            p.push(Seq::empty())
        } else {
            p.update(p.len() - 1, p.last().push(s.last()))
        }
    }
}

proof fn lemma_dot_parts_nonempty(s: Seq<char>)
    ensures
        dot_parts(s).len() >= 1,
    decreases s.len(),
{
    if s.len() > 0 {
        lemma_dot_parts_nonempty(s.drop_last());
    }
}

/// A part of a shader's name as it shows in the generated type's name: `vert` and `frag` spelled out.
pub open spec fn expand_part(part: Seq<char>) -> Seq<char> {
    if part == seq!['v', 'e', 'r', 't'] {
        seq!['v', 'e', 'r', 't', 'e', 'x']
    } else if part == seq!['f', 'r', 'a', 'g'] {
        seq!['f', 'r', 'a', 'g', 'm', 'e', 'n', 't']
    } else {
        part
    }
}

/// `part` with its first character in upper case.
pub open spec fn capitalized(part: Seq<char>) -> Seq<char> {
    uppercase(part[0]) + part.drop_first()
}

/// The parts, each spelled out and capitalized, one after another.
pub open spec fn camel_case(parts: Seq<Seq<char>>) -> Seq<char>
    decreases parts.len(),
{
    if parts.len() == 0 {
        Seq::empty()
    } else {
        camel_case(parts.drop_last()) + capitalized(expand_part(parts.last()))
    }
}

/// The name of the type generated for a shader: the parts of the stem of its file name, each
/// spelled out and capitalized, then `Shader`.
pub open spec fn struct_name_chars(stem: Seq<char>) -> Seq<char> {
    camel_case(dot_parts(stem)) + seq!['S', 'h', 'a', 'd', 'e', 'r']
}

/// Appends `part`, spelled out and capitalized, to `r`.
fn push_part(r: &mut String, part: &Vec<char>)
    requires
        part@.len() > 0,
    ensures
        final(r)@ == old(r)@ + capitalized(expand_part(part@)),
{
    let vert: [char; 4] = ['v', 'e', 'r', 't'];
    let frag: [char; 4] = ['f', 'r', 'a', 'g'];
    let expanded: Vec<char> = if same_chars(part.as_slice(), &vert) {
        vec!['v', 'e', 'r', 't', 'e', 'x']
    } else if same_chars(part.as_slice(), &frag) {
        vec!['f', 'r', 'a', 'g', 'm', 'e', 'n', 't']
    } else {
        crate::shader::copy_chars(part)
    };
    let first = char_to_uppercase(expanded[0]);
    r.append(first.as_str());
    let mut i: usize = 1;
    while i < expanded.len()
        invariant
            1 <= i <= expanded@.len(),
            r@ == old(r)@ + uppercase(expanded@[0]) + expanded@.subrange(1, i as int),
        decreases expanded.len() - i,
    {
        push_char(r, expanded[i]);
        assert(expanded@.subrange(1, i + 1) == expanded@.subrange(1, i as int).push(expanded@[i as int]));
        i = i + 1;
    }
    assert(expanded@.subrange(1, expanded@.len() as int) == expanded@.drop_first());
}

/// A copy of a list of characters.
fn copy_chars(v: &Vec<char>) -> (r: Vec<char>)
    ensures
        r@ == v@,
{
    let mut r: Vec<char> = Vec::new();
    let mut i: usize = 0;
    while i < v.len()
        invariant
            i <= v@.len(),
            r@ == v@.take(i as int),
        decreases v.len() - i,
    {
        r.push(v[i]);
        assert(v@.take(i + 1) == v@.take(i as int).push(v@[i as int]));
        i = i + 1;
    }
    assert(v@.take(v.len() as int) == v@);
    r
}

/// The name of the type generated for a shader, from the stem of its file name; every
/// `.`-separated part of the stem must be non-empty.
pub fn struct_name(stem: &str) -> (r: String)
    requires
        forall|i: int| 0 <= i < dot_parts(stem@).len() ==> (#[trigger] dot_parts(stem@)[i]).len() > 0,
    ensures
        r@ == struct_name_chars(stem@),
{
    let chars = chars_of(stem);
    let ghost all = dot_parts(stem@);
    let mut r = String::new();
    let mut cur: Vec<char> = Vec::new();
    let mut i: usize = 0;
    proof {
        assert(chars@.take(0) == Seq::<char>::empty());
        assert(chars@.take(chars@.len() as int) == stem@);
    }
    while i < chars.len()
        invariant
            i <= chars@.len(),
            chars@ == stem@,
            chars@.take(chars@.len() as int) == stem@,
            all == dot_parts(stem@),
            forall|k: int| 0 <= k < all.len() ==> (#[trigger] all[k]).len() > 0,
            dot_parts(chars@.take(i as int)).len() >= 1,
            cur@ == dot_parts(chars@.take(i as int)).last(),
            r@ == camel_case(dot_parts(chars@.take(i as int)).drop_last()),
        decreases chars.len() - i,
    {
        let c = chars[i];
        let ghost before = dot_parts(chars@.take(i as int));
        proof {
            assert(chars@.take(i + 1).drop_last() == chars@.take(i as int));
            assert(chars@.take(i + 1).last() == c);
        }
        if c == '.' {
            proof {
                lemma_dot_parts_prefix(chars@, i + 1, chars@.len() as int);
                let after = dot_parts(chars@.take(i + 1));
                assert(after == before.push(Seq::<char>::empty()));
                assert(after[before.len() - 1] == before.last());
                assert(all[before.len() - 1] == before.last());
                assert(before.drop_last().push(before.last()) == before);
                assert(after.drop_last() == before);
            }
            push_part(&mut r, &cur);
            cur = Vec::new();
        } else {
            proof {
                let after = dot_parts(chars@.take(i + 1));
                assert(after.drop_last() == before.drop_last());
            }
            cur.push(c);
        }
        i = i + 1;
    }
    proof {
        let parts = dot_parts(chars@.take(chars@.len() as int));
        assert(parts == all);
        assert(all[all.len() - 1].len() > 0);
        assert(parts.drop_last().push(parts.last()) == parts);
    }
    push_part(&mut r, &cur);
    r.append("Shader");
    proof {
        reveal_strlit("Shader");
    }
    r
}

/// How a stage is written in generated code: the name of its variant.
pub open spec fn stage_variant(stage: ShaderStage) -> Seq<char> {
    match stage {
        ShaderStage::Vertex => "Vertex"@,
        ShaderStage::Fragment => "Fragment"@,
    }
}

/// The source of the module generated for a shader: the imports, then a type named `name`
/// that loads the compiled code of stage `stage` from `spv_path`.
pub open spec fn module_source_chars(name: Seq<char>, stage: ShaderStage, spv_path: Seq<char>) -> Seq<char> {
    "use assets_macros::impl_load;\nuse crate::{Shader, ShaderStage};\nuse bytemuck::cast_slice;\n"@
        + "pub struct "@ + name + " {\n    shader: Shader,\n}\n\nimpl_load!("@ + name
        + ");\n\nimpl "@ + name
        + " {\n    fn new() -> Self {\n        let shader = Shader {\n            stage: ShaderStage::"@
        + stage_variant(stage)
        + ",\n            code: cast_slice::<u8, u32>(&std::fs::read(\""@ + spv_path
        + "\").unwrap()).to_owned()\n        };\n\n        Self { shader }\n    }\n}\n        "@
}

/// The source of the module generated for a shader named `name`, of stage `stage`, whose
/// compiled code is at `spv_path`.
pub fn module_source(name: &str, stage: ShaderStage, spv_path: &str) -> (r: String)
    ensures
        r@ == module_source_chars(name@, stage, spv_path@),
{
    let mut r = String::new();
    r.append("use assets_macros::impl_load;\nuse crate::{Shader, ShaderStage};\nuse bytemuck::cast_slice;\n");
    r.append("pub struct ");
    r.append(name);
    r.append(" {\n    shader: Shader,\n}\n\nimpl_load!(");
    r.append(name);
    r.append(");\n\nimpl ");
    r.append(name);
    r.append(" {\n    fn new() -> Self {\n        let shader = Shader {\n            stage: ShaderStage::");
    match stage {
        ShaderStage::Vertex => r.append("Vertex"),
        ShaderStage::Fragment => r.append("Fragment"),
    }
    r.append(",\n            code: cast_slice::<u8, u32>(&std::fs::read(\"");
    r.append(spv_path);
    r.append("\").unwrap()).to_owned()\n        };\n\n        Self { shader }\n    }\n}\n        ");
    r
}

/// A shader source file: its path, the stage it is compiled for, and its GLSL code.
pub struct Shader {
    pub path: String,
    pub stage: ShaderStage,
    pub code: String,
}

/// The stage that a source path names (`vert` or `frag` before its last five characters).
pub open spec fn stage_of(path: Seq<char>) -> ShaderStage {
    if stage_chars(path) == seq!['v', 'e', 'r', 't'] {
        ShaderStage::Vertex
    } else {
        ShaderStage::Fragment
    }
}

impl Shader {
    /// The shader at `path` with source `data`: the path must name its stage and the source
    /// must be UTF-8.
    pub fn new(path: &str, data: &[u8]) -> (r: Shader)
        requires
            stage_chars(path@) == seq!['v', 'e', 'r', 't'] || stage_chars(path@) == seq!['f', 'r', 'a', 'g'],
            vstd::utf8::valid_utf8(data@),
        ensures
            r.path@ == path@,
            r.stage == stage_of(path@),
            r.code@ == vstd::utf8::decode_utf8(data@),
    {
        let stage = ShaderStage::of_path(path);
        let code = match crate::text::string_from_utf8(data) {
            Some(code) => code,
            None => String::new(),
        };
        Shader { path: path.to_owned(), stage, code }
    }

    /// The code generated for the shader: the name of the file it goes in (the stem of the
    /// shader's file name, each `.` turned into `_`, then `.rs`), and its source, which loads
    /// the compiled code from under `./out`, the extension of the file name set to `spv`. The
    /// path must name a file whose stem has no empty `.`-separated part.
    pub fn codegen(&self) -> (r: (String, String))
        requires
            crate::paths::names_file(self.path@),
            self.path@.len() + 6 < i64::MAX,
            forall|i: int| 0 <= i < dot_parts(crate::paths::file_stem_of(self.path@)).len()
                ==> (#[trigger] dot_parts(crate::paths::file_stem_of(self.path@))[i]).len() > 0,
        ensures
            r.0@ == module_file_chars(crate::paths::file_stem_of(self.path@)),
            r.1@ == module_source_chars(
                struct_name_chars(crate::paths::file_stem_of(self.path@)),
                self.stage,
                crate::paths::output_chars(self.path@, seq!['s', 'p', 'v']),
            ),
    {
        let stem = crate::paths::file_stem(self.path.as_str());
        let name = struct_name(stem.as_str());
        let file = module_file_name(stem.as_str());
        let spv = crate::paths::output_path(self.path.as_str(), "spv");
        proof {
            reveal_strlit("spv");
        }
        let source = module_source(name.as_str(), self.stage, spv.as_str());
        (file, source)
    }
}

proof fn lemma_dot_parts_prefix(s: Seq<char>, i: int, j: int)
    requires
        0 <= i <= j <= s.len(),
    ensures
        dot_parts(s.take(i)).len() <= dot_parts(s.take(j)).len(),
        forall|k: int| 0 <= k < dot_parts(s.take(i)).len() - 1 ==> #[trigger] dot_parts(s.take(j))[k] == dot_parts(s.take(i))[k],
    decreases j - i,
{
    if i < j {
        lemma_dot_parts_prefix(s, i, j - 1);
        assert(s.take(j).drop_last() == s.take(j - 1));
        lemma_dot_parts_nonempty(s.take(j - 1));
    }
}

} // verus!
