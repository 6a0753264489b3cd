//! Paths held as text, with the Unix meaning of `/`: joining, absoluteness
//! and file extensions.
use vstd::prelude::*;

use crate::text::{chars_between, chars_of, concat_str, string_from_chars};

verus! {

/// A Unix path is absolute when it starts at the root `/`.
pub open spec fn path_is_absolute(p: Seq<char>) -> bool {
    p.len() > 0 && p[0] == '/'
}

/// `base.join(rel)` on Unix: an absolute `rel` replaces `base`; otherwise `rel`
/// is appended, with one `/` in between unless `base` is empty or already ends
/// with one.
pub open spec fn join_path_spec(base: Seq<char>, rel: Seq<char>) -> Seq<char> {
    if path_is_absolute(rel) {
        rel
    } else if base.len() == 0 || base.last() == '/' {
        base + rel
    } else {
        base + seq!['/'] + rel
    }
}

/// Whether the path text is absolute.
pub fn is_absolute(p: &str) -> (r: bool)
    ensures
        r == path_is_absolute(p@),
{
    let v = chars_of(p);
    v.len() > 0 && v[0] == '/'
}

/// `base.join(rel)` for paths held as text.
pub fn join_path(base: &str, rel: &str) -> (r: String)
    ensures
        r@ == join_path_spec(base@, rel@),
{
    if is_absolute(rel) {
        return rel.to_owned();
    }
    let bv = chars_of(base);
    if bv.len() == 0 || bv[bv.len() - 1] == '/' {
        concat_str(base, rel)
    } else {
        let mut sep: Vec<char> = Vec::new();
        sep.push('/');
        let sep = string_from_chars(sep);
        let with_sep = concat_str(base, sep.as_str());
        concat_str(with_sep.as_str(), rel)
    }
}

/// Name for what `Path::file_name` gives for a path written as text: the last
/// component when it is a normal one (not `..`, not the root), as text.
pub uninterp spec fn spec_file_name(path: Seq<char>) -> Option<Seq<char>>;

/// `Path::new(path).file_name()`, as text.
///
/// Trusted: the result is whatever std computes, tied to the path by the name
/// `spec_file_name`; a file name taken from a `&str` path is valid UTF-8, so
/// the conversion to text loses nothing.
#[verifier::external_body]
fn file_name(path: &str) -> (r: Option<String>)
    ensures
        match r {
            Some(n) => spec_file_name(path@) == Some(n@),
            None => spec_file_name(path@) is None,
        },
{
    match std::path::Path::new(path).file_name() {
        Some(n) => Some(n.to_string_lossy().into_owned()),
        None => None,
    }
}

/// Name for what `Path::strip_prefix` gives for a path and a base written as
/// text: the rest of the path after the components of the base, as text, or
/// nothing when the base is not a prefix of the path component by component.
pub uninterp spec fn spec_strip_prefix(path: Seq<char>, base: Seq<char>) -> Option<Seq<char>>;

/// `Path::new(path).strip_prefix(base)`, as text.
///
/// Trusted: the result is whatever std computes, tied to both arguments by the
/// name `spec_strip_prefix`; what is left of a `&str` path is valid UTF-8, so
/// the conversion to text loses nothing.
#[verifier::external_body]
pub(crate) fn strip_prefix(path: &str, base: &str) -> (r: Option<String>)
    ensures
        match r {
            Some(rest) => spec_strip_prefix(path@, base@) == Some(rest@),
            None => spec_strip_prefix(path@, base@) is None,
        },
{
    match std::path::Path::new(path).strip_prefix(base) {
        Ok(rest) => Some(rest.to_string_lossy().into_owned()),
        Err(_) => None,
    }
}

/// Position of the last `c` in `s`, or -1.
pub open spec fn last_index_of(s: Seq<char>, c: char) -> int
    decreases s.len(),
{
    if s.len() == 0 {
        -1
    } else if s.last() == c {
        s.len() - 1
    } else {
        last_index_of(s.drop_last(), c)
    }
}

/// The extension of a file name as `Path::extension` documents it: none for
/// `..`, none without a `.`, none when the only `.` is the first character,
/// otherwise what follows the last `.`.
pub open spec fn extension_of_name(name: Seq<char>) -> Option<Seq<char>> {
    let d = last_index_of(name, '.');
    if name == seq!['.', '.'] || d <= 0 {
        None
    } else {
        Some(name.skip(d + 1))
    }
}

/// `Path::extension` for a path held as text.
pub open spec fn path_extension_spec(path: Seq<char>) -> Option<Seq<char>> {
    match spec_file_name(path) {
        Some(n) => extension_of_name(n),
        None => None,
    }
}

proof fn lemma_last_index_bounds(s: Seq<char>, c: char)
    ensures
        -1 <= last_index_of(s, c) < s.len(),
        last_index_of(s, c) >= 0 ==> s[last_index_of(s, c)] == c,
        forall|j: int| last_index_of(s, c) < j < s.len() ==> s[j] != c,
    decreases s.len(),
{
    if s.len() > 0 && s.last() != c {
        lemma_last_index_bounds(s.drop_last(), c);
        assert forall|j: int| last_index_of(s, c) < j < s.len() implies s[j] != c by {
            if j < s.len() - 1 {
                assert(s[j] == s.drop_last()[j]);
            }
        }
    }
}

/// A file name whose last `.` is not its first character has as extension
/// what follows that `.`, whatever the name starts with: `.gitlab-ci.yml`
/// has `yml`, `a.tar.gz` has `gz`, `notes.` has the empty extension.
pub proof fn lemma_extension_after_last_dot(name: Seq<char>, d: int)
    requires
        0 < d < name.len(),
        name[d] == '.',
        forall|j: int| d < j < name.len() ==> name[j] != '.',
        name != seq!['.', '.'],
    ensures
        extension_of_name(name) == Some(name.subrange(d + 1, name.len() as int)),
{
    lemma_last_index_bounds(name, '.');
    let l = last_index_of(name, '.');
    if l < d {
        assert(name[d] != '.');
    }
    if l > d {
        assert(name[l] == '.');
    }
    assert(name.skip(d + 1) =~= name.subrange(d + 1, name.len() as int));
}

/// A file name with no `.` after its first character has no extension:
/// `Makefile`, `.bashrc`.
pub proof fn lemma_no_extension_without_inner_dot(name: Seq<char>)
    requires
        forall|j: int| 0 < j < name.len() ==> name[j] != '.',
    ensures
        extension_of_name(name) is None,
{
    lemma_last_index_bounds(name, '.');
    let l = last_index_of(name, '.');
    if l > 0 {
        assert(name[l] == '.');
    }
}

/// The extension of a file name given as text.
pub fn name_extension(name: &str) -> (r: Option<String>)
    ensures
        match r {
            Some(e) => extension_of_name(name@) == Some(e@),
            None => extension_of_name(name@) is None,
        },
        forall|d: int|
            0 < d < name@.len() && #[trigger] name@[d] == '.' && (forall|j: int|
                d < j < name@.len() ==> name@[j] != '.') && name@ != seq!['.', '.'] ==> (r matches Some(
                e) && e@ == name@.subrange(d + 1, name@.len() as int)),
{
    proof {
        assert forall|d: int|
            0 < d < name@.len() && #[trigger] name@[d] == '.' && (forall|j: int|
                d < j < name@.len() ==> name@[j] != '.') && name@ != seq!['.', '.'] implies extension_of_name(
            name@,
        ) == Some(name@.subrange(d + 1, name@.len() as int)) by {
            lemma_extension_after_last_dot(name@, d);
        }
    }
    let v = chars_of(name);
    let n = v.len();
    proof {
        lemma_last_index_bounds(v@, '.');
    }
    if n == 2 && v[0] == '.' && v[1] == '.' {
        assert(v@ =~= seq!['.', '.']);
        return None;
    }
    let mut i: usize = n;
    assert(v@.take(n as int) =~= v@);
    while i > 0 && v[i - 1] != '.'
        invariant
            i <= n == v.len(),
            v@ == name@,
            last_index_of(v@, '.') == last_index_of(v@.take(i as int), '.'),
        decreases i,
    {
        assert(v@.take(i - 1) =~= v@.take(i as int).drop_last());
        i = i - 1;
    }
    proof {
        if i > 0 {
            assert(v@.take(i as int).last() == '.');
        } else {
            assert(v@.take(0) =~= Seq::<char>::empty());
        }
        assert(v@ != seq!['.', '.']) by {
            if v@ == seq!['.', '.'] {
                assert(v@.len() == 2 && v@[0] == '.' && v@[1] == '.');
            }
        }
    }
    if i <= 1 {
        None
    } else {
        assert(v@.skip(i as int) =~= v@.subrange(i as int, n as int));
        Some(string_from_chars(chars_between(&v, i, n)))
    }
}

/// `Path::new(path).extension()`, as text.
pub fn path_extension(path: &str) -> (r: Option<String>)
    ensures
        match r {
            Some(e) => path_extension_spec(path@) == Some(e@),
            None => path_extension_spec(path@) is None,
        },
{
    match file_name(path) {
        Some(n) => name_extension(n.as_str()),
        None => None,
    }
}

} // verus!
