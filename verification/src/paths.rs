//! The file paths the asset build derives: the stem of a file's name, and where the build
//! writes what it makes of a file (under `./out`, with another extension).
use vstd::prelude::*;
use crate::shader::chars_of;
use crate::text::push_char;

verus! {

/// The position of the last `c` in `s`, or -1 where `s` holds none.
pub open spec fn last_index_of(s: Seq<char>, c: char) -> int
    decreases s.len(),
{
    if s.len() == 0 {
        -1
    } else if s.last() == c {
        s.len() - 1
    } else {
        last_index_of(s.drop_last(), c)
    }
}

/// The name of the file a path names: what follows its last `/`.
pub open spec fn file_name_of(p: Seq<char>) -> Seq<char> {
    p.skip(last_index_of(p, '/') + 1)
}

/// Whether a path names a file: its last part is neither empty, nor `.`, nor `..`.
pub open spec fn names_file(p: Seq<char>) -> bool {
    let f = file_name_of(p);
    f.len() > 0 && f != seq!['.'] && f != seq!['.', '.']
}

/// Where the stem of the file name ends: at the last `.` of the name, unless the name has none
/// or has it only as its first character (then the name has no extension).
pub open spec fn stem_end(p: Seq<char>) -> int {
    let dot = last_index_of(p, '.');
    if dot > last_index_of(p, '/') + 1 { dot } else { p.len() as int }
}

/// The stem of the file name: the name without its extension.
pub open spec fn file_stem_of(p: Seq<char>) -> Seq<char> {
    p.subrange(last_index_of(p, '/') + 1, stem_end(p))
}

/// The path with the extension of its file name set to `ext`.
pub open spec fn with_extension_chars(p: Seq<char>, ext: Seq<char>) -> Seq<char> {
    p.take(stem_end(p)) + seq!['.'] + ext
}

/// The path joined to the directory `./out`: an absolute path stands alone.
pub open spec fn under_out(p: Seq<char>) -> Seq<char> {
    if p.len() > 0 && p[0] == '/' {
        p
    } else {
        seq!['.', '/', 'o', 'u', 't', '/'] + p
    }
}

/// Where the build writes what it makes of the file at `p`: under `./out`, the extension of
/// the file name set to `ext`.
pub open spec fn output_chars(p: Seq<char>, ext: Seq<char>) -> Seq<char> {
    with_extension_chars(under_out(p), ext)
}

proof fn lemma_last_index_range(s: Seq<char>, c: char)
    ensures
        -1 <= last_index_of(s, c) < s.len(),
        last_index_of(s, c) >= 0 ==> s[last_index_of(s, c)] == c,
    decreases s.len(),
{
    if s.len() > 0 {
        lemma_last_index_range(s.drop_last(), c);
    }
}

/// The position of the last `c` in `s`, or -1.
fn find_last(s: &Vec<char>, c: char) -> (r: i64)
    requires
        s@.len() < i64::MAX,
    ensures
        r == last_index_of(s@, c),
{
    let mut last: i64 = -1;
    let mut i: usize = 0;
    while i < s.len()
        invariant
            i <= s@.len(),
            s@.len() < i64::MAX,
            last == last_index_of(s@.take(i as int), c),
        decreases s.len() - i,
    {
        assert(s@.take(i + 1).drop_last() == s@.take(i as int));
        if s[i] == c {
            last = i as i64;
        }
        i = i + 1;
    }
    assert(s@.take(s@.len() as int) == s@);
    last
}

/// The characters of `s` from `start` up to `end`.
fn push_range(r: &mut String, s: &Vec<char>, start: usize, end: usize)
    requires
        start <= end <= s@.len(),
    ensures
        final(r)@ == old(r)@ + s@.subrange(start as int, end as int),
{
    let mut i: usize = start;
    while i < end
        invariant
            start <= i <= end,
            end <= s@.len(),
            r@ == old(r)@ + s@.subrange(start as int, i as int),
        decreases end - i,
    {
        push_char(r, s[i]);
        assert(s@.subrange(start as int, i + 1) == s@.subrange(start as int, i as int).push(s@[i as int]));
        i = i + 1;
    }
}

/// The stem of the name of the file at `path`, which must name a file.
pub fn file_stem(path: &str) -> (r: String)
    requires
        names_file(path@),
        path@.len() < i64::MAX,
    ensures
        r@ == file_stem_of(path@),
{
    let chars = chars_of(path);
    let slash = find_last(&chars, '/');
    let dot = find_last(&chars, '.');
    proof {
        lemma_last_index_range(chars@, '/');
        lemma_last_index_range(chars@, '.');
    }
    let start: usize = (slash + 1) as usize;
    let end: usize = if dot > slash + 1 { dot as usize } else { chars.len() };
    let mut r = String::new();
    push_range(&mut r, &chars, start, end);
    r
}

/// Where the build writes what it makes of the file at `path`, which must name a file: under
/// `./out`, with extension `ext`.
pub fn output_path(path: &str, ext: &str) -> (r: String)
    requires
        names_file(path@),
        path@.len() + 6 < i64::MAX,
    ensures
        r@ == output_chars(path@, ext@),
{
    let chars = chars_of(path);
    let mut joined: Vec<char> = Vec::new();
    if !(chars.len() > 0 && chars[0] == '/') {
        joined.push('.');
        joined.push('/');
        joined.push('o');
        joined.push('u');
        joined.push('t');
        joined.push('/');
    }
    let ghost prefix = joined@;
    let mut i: usize = 0;
    while i < chars.len()
        invariant
            i <= chars@.len(),
            chars@ == path@,
            joined@ == prefix + chars@.take(i as int),
        decreases chars.len() - i,
    {
        joined.push(chars[i]);
        assert(chars@.take(i + 1) == chars@.take(i as int).push(chars@[i as int]));
        i = i + 1;
    }
    proof {
        assert(chars@.take(chars@.len() as int) == chars@);
        assert(joined@ == under_out(path@));
    }
    let slash = find_last(&joined, '/');
    let dot = find_last(&joined, '.');
    proof {
        lemma_last_index_range(joined@, '/');
        lemma_last_index_range(joined@, '.');
    }
    let end: usize = if dot > slash + 1 { dot as usize } else { joined.len() };
    let mut r = String::new();
    push_range(&mut r, &joined, 0, end);
    push_char(&mut r, '.');
    r.append(ext);
    proof {
        assert(joined@.subrange(0, end as int) == joined@.take(end as int));
    }
    r
}

/// Whether `path` names a file: its last part is neither empty, nor `.`, nor `..`.
pub fn is_file_path(path: &str) -> (r: bool)
    requires
        path@.len() < i64::MAX,
    ensures
        r == names_file(path@),
{
    let chars = chars_of(path);
    let slash = find_last(&chars, '/');
    proof {
        lemma_last_index_range(chars@, '/');
    }
    let start: usize = (slash + 1) as usize;
    let len = chars.len() - start;
    let ghost f = file_name_of(path@);
    proof {
        assert(f.len() == len);
        assert(forall|i: int| 0 <= i < len ==> f[i] == chars@[start + i]);
    }
    if len == 0 {
        return false;
    }
    if len == 1 && chars[start] == '.' {
        assert(f =~= seq!['.']);
        return false;
    }
    if len == 2 && chars[start] == '.' && chars[start + 1] == '.' {
        assert(f =~= seq!['.', '.']);
        return false;
    }
    proof {
        if f == seq!['.'] {
            assert(f[0] == '.');
        }
        if f == seq!['.', '.'] {
            assert(f[0] == '.' && f[1] == '.');
        }
    }
    true
}

} // verus!
