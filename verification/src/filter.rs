//! Which files take part in indexing and search: a whitelist of extensions,
//! glob patterns that keep files out, and glob patterns that let files in.
use vstd::prelude::*;

use crate::paths::{path_extension, path_extension_spec};
use crate::text::{ascii_lower, eq_ascii_case_insensitive, eq_ignore_ascii_case};

verus! {

#[verifier::external_type_specification]
#[verifier::external_body]
pub struct ExPattern(glob::Pattern);

/// Name for whether `glob::Pattern::new` accepts a pattern.
pub uninterp spec fn spec_glob_valid(pattern: Seq<char>) -> bool;

/// Name for whether the glob pattern `pattern` matches the path `path`
/// (`glob::Pattern::matches_path`).
pub uninterp spec fn spec_glob_matches(pattern: Seq<char>, path: Seq<char>) -> bool;

/// `glob::Pattern::new(text)`, keeping the pattern when it compiles.
///
/// Trusted: whether the text compiles is glob's decision, named
/// `spec_glob_valid`; nothing else is claimed of the compiled pattern.
#[verifier::external_body]
fn compile_glob(text: &str) -> (r: Option<glob::Pattern>)
    ensures
        r is Some <==> spec_glob_valid(text@),
{
    match glob::Pattern::new(text) {
        Ok(p) => Some(p),
        Err(_) => None,
    }
}

/// A compiled glob pattern together with its text.
pub struct GlobPattern {
    text: String,
    compiled: glob::Pattern,
}

impl View for GlobPattern {
    type V = Seq<char>;

    /// The text the pattern was compiled from.
    closed spec fn view(&self) -> Seq<char> {
        self.text@
    }
}

/// `pattern.matches_path(Path::new(path))`.
///
/// Trusted: the answer is glob's, named `spec_glob_matches` over the pattern's
/// text. A `GlobPattern` is only made by `GlobPattern::new`, which compiles
/// `compiled` from `text`, so the compiled pattern is the one that text gives.
#[verifier::external_body]
fn glob_matches(pattern: &GlobPattern, path: &str) -> (r: bool)
    ensures
        r == spec_glob_matches(pattern@, path@),
{
    pattern.compiled.matches_path(std::path::Path::new(path))
}

impl GlobPattern {
    /// Compiles a glob pattern; `None` when glob refuses it.
    pub fn new(text: &str) -> (r: Option<GlobPattern>)
        ensures
            r is Some <==> spec_glob_valid(text@),
            r matches Some(p) ==> p@ == text@,
    {
        match compile_glob(text) {
            Some(compiled) => Some(GlobPattern { text: text.to_owned(), compiled }),
            None => None,
        }
    }

    /// The text of the pattern.
    pub fn as_str(&self) -> (r: &str)
        ensures
            r@ == self@,
    {
        self.text.as_str()
    }

    /// Whether the pattern matches the path.
    pub fn matches_path(&self, path: &str) -> (r: bool)
        ensures
            r == spec_glob_matches(self@, path@),
    {
        glob_matches(self, path)
    }
}

/// The texts of some strings.
pub open spec fn texts(v: Seq<String>) -> Seq<Seq<char>> {
    v.map_values(|s: String| s@)
}

/// The texts of some patterns.
pub open spec fn pattern_texts(v: Seq<GlobPattern>) -> Seq<Seq<char>> {
    v.map_values(|p: GlobPattern| p@)
}

/// The patterns that compile, in their order.
pub open spec fn valid_patterns(s: Seq<Seq<char>>) -> Seq<Seq<char>>
    decreases s.len(),
{
    if s.len() == 0 {
        Seq::empty()
    } else if spec_glob_valid(s.last()) {
        valid_patterns(s.drop_last()).push(s.last())
    } else {
        valid_patterns(s.drop_last())
    }
}

/// Whether a filter accepts a path: its extension is one of `exts` up to
/// ASCII case (when `exts` is not empty), no pattern of `excluded` matches it,
/// and some pattern of `included` matches it (when `included` is not empty).
pub open spec fn filter_accepts(
    exts: Seq<Seq<char>>,
    included: Seq<Seq<char>>,
    excluded: Seq<Seq<char>>,
    path: Seq<char>,
) -> bool {
    &&& (exts.len() == 0 || match path_extension_spec(path) {
        Some(e) => exists|i: int| 0 <= i < exts.len() && eq_ascii_case_insensitive(#[trigger] exts[i], e),
        None => false,
    })
    &&& forall|i: int| 0 <= i < excluded.len() ==> !spec_glob_matches(#[trigger] excluded[i], path)
    &&& (included.len() == 0 || exists|i: int|
        0 <= i < included.len() && spec_glob_matches(#[trigger] included[i], path))
}

/// A path that a pattern keeping paths out matches is never kept, whatever
/// else the filter says.
pub proof fn lemma_excluded_never_kept(
    exts: Seq<Seq<char>>,
    included: Seq<Seq<char>>,
    excluded: Seq<Seq<char>>,
    path: Seq<char>,
    k: int,
)
    requires
        0 <= k < excluded.len(),
        spec_glob_matches(excluded[k], path),
    ensures
        !filter_accepts(exts, included, excluded, path),
{
}

/// With extensions listed, a path without an extension is not kept.
pub proof fn lemma_no_extension_not_kept(
    exts: Seq<Seq<char>>,
    included: Seq<Seq<char>>,
    excluded: Seq<Seq<char>>,
    path: Seq<char>,
)
    requires
        exts.len() > 0,
        path_extension_spec(path) is None,
    ensures
        !filter_accepts(exts, included, excluded, path),
{
}

/// With patterns that let paths in, a path that none of them matches is not
/// kept.
pub proof fn lemma_unincluded_not_kept(
    exts: Seq<Seq<char>>,
    included: Seq<Seq<char>>,
    excluded: Seq<Seq<char>>,
    path: Seq<char>,
)
    requires
        included.len() > 0,
        forall|k: int| 0 <= k < included.len() ==> !spec_glob_matches(#[trigger] included[k], path),
    ensures
        !filter_accepts(exts, included, excluded, path),
{
}

/// A path whose extension is listed, written in either ASCII case (`RS`,
/// `Rs` or `rs` for `rs`), is kept when no pattern keeps it out and no
/// pattern is needed to let it in.
pub proof fn lemma_listed_extension_kept(
    exts: Seq<Seq<char>>,
    excluded: Seq<Seq<char>>,
    path: Seq<char>,
    e: Seq<char>,
    i: int,
)
    requires
        path_extension_spec(path) == Some(e),
        0 <= i < exts.len(),
        exts[i].len() == e.len(),
        forall|j: int|
            0 <= j < e.len() ==> (#[trigger] exts[i][j] == e[j] || ('A' <= e[j] <= 'Z'
                && exts[i][j] as u32 == e[j] as u32 + 32) || ('A' <= exts[i][j] <= 'Z'
                && e[j] as u32 == exts[i][j] as u32 + 32)),
        forall|k: int| 0 <= k < excluded.len() ==> !spec_glob_matches(#[trigger] excluded[k], path),
    ensures
        filter_accepts(exts, Seq::empty(), excluded, path),
{
    assert forall|j: int| 0 <= j < exts[i].len() implies ascii_lower(#[trigger] exts[i][j])
        == ascii_lower(e[j]) by {
        let x = exts[i][j];
        let y = e[j];
        if x != y {
            if 'A' <= y <= 'Z' && x as u32 == y as u32 + 32 {
                assert(!('A' <= x <= 'Z'));
            } else {
                assert(!('A' <= y <= 'Z'));
            }
        }
    }
    assert(eq_ascii_case_insensitive(exts[i], e));
}

/// A filter on file paths.
pub struct FileFilter {
    /// Extensions to keep (all when empty), compared up to ASCII case.
    pub extensions: Vec<String>,
    /// Patterns of which one must match (no restriction when empty).
    pub include_globs: Vec<GlobPattern>,
    /// Patterns of which none may match.
    pub exclude_globs: Vec<GlobPattern>,
}

fn compile_all(texts_in: Vec<String>) -> (r: Vec<GlobPattern>)
    ensures
        pattern_texts(r@) == valid_patterns(texts(texts_in@)),
{
    let mut r: Vec<GlobPattern> = Vec::new();
    let mut i: usize = 0;
    while i < texts_in.len()
        invariant
            i <= texts_in.len(),
            pattern_texts(r@) == valid_patterns(texts(texts_in@.take(i as int))),
        decreases texts_in.len() - i,
    {
        let ghost before = r@;
        let ghost prefix = texts(texts_in@.take(i + 1));
        assert(prefix.drop_last() =~= texts(texts_in@.take(i as int)));
        assert(prefix.last() == texts_in@[i as int]@);
        match GlobPattern::new(texts_in[i].as_str()) {
            Some(p) => {
                r.push(p);
                assert(pattern_texts(r@) =~= pattern_texts(before).push(texts_in@[i as int]@));
            },
            None => {},
        }
        i = i + 1;
    }
    assert(texts_in@.take(texts_in.len() as int) =~= texts_in@);
    r
}

/// Whether some pattern of `patterns` matches `path`.
fn any_pattern_matches(patterns: &Vec<GlobPattern>, path: &str) -> (r: bool)
    ensures
        r == exists|j: int|
            0 <= j < patterns@.len() && spec_glob_matches(#[trigger] pattern_texts(patterns@)[j], path@),
{
    let ghost texts = pattern_texts(patterns@);
    let mut i: usize = 0;
    while i < patterns.len()
        invariant
            i <= patterns.len(),
            texts == pattern_texts(patterns@),
            forall|j: int| 0 <= j < i ==> !spec_glob_matches(#[trigger] texts[j], path@),
        decreases patterns.len() - i,
    {
        if patterns[i].matches_path(path) {
            assert(spec_glob_matches(texts[i as int], path@));
            return true;
        }
        i = i + 1;
    }
    false
}

impl FileFilter {
    /// A filter from extensions and glob patterns that let paths in and keep
    /// paths out;
    /// patterns that do not compile are left out.
    pub fn new(extensions: Vec<String>, include_globs: Vec<String>, exclude_globs: Vec<String>) -> (f:
        FileFilter)
        ensures
            f.extensions == extensions,
            pattern_texts(f.include_globs@) == valid_patterns(texts(include_globs@)),
            pattern_texts(f.exclude_globs@) == valid_patterns(texts(exclude_globs@)),
    {
        FileFilter {
            extensions,
            include_globs: compile_all(include_globs),
            exclude_globs: compile_all(exclude_globs),
        }
    }

    /// Whether the filter keeps the path, judged on its extensions and the
    /// texts of its patterns.
    pub open spec fn accepts(&self, path: Seq<char>) -> bool {
        filter_accepts(
            texts(self.extensions@),
            pattern_texts(self.include_globs@),
            pattern_texts(self.exclude_globs@),
            path,
        )
    }

    /// Whether the filter keeps the path.
    pub fn matches(&self, path: &str) -> (r: bool)
        ensures
            r == self.accepts(path@),
    {
        let ghost exts = texts(self.extensions@);
        let ghost inc = pattern_texts(self.include_globs@);
        let ghost exc = pattern_texts(self.exclude_globs@);
        if self.extensions.len() > 0 {
            match path_extension(path) {
                Some(ext) => {
                    let mut found = false;
                    let mut i: usize = 0;
                    while i < self.extensions.len()
                        invariant
                            i <= self.extensions.len(),
                            exts == texts(self.extensions@),
                            found == exists|j: int|
                                0 <= j < i && eq_ascii_case_insensitive(#[trigger] exts[j], ext@),
                        decreases self.extensions.len() - i,
                    {
                        if eq_ignore_ascii_case(self.extensions[i].as_str(), ext.as_str()) {
                            assert(eq_ascii_case_insensitive(exts[i as int], ext@));
                            found = true;
                        }
                        i = i + 1;
                    }
                    if !found {
                        return false;
                    }
                },
                None => {
                    return false;
                },
            }
        }
        if any_pattern_matches(&self.exclude_globs, path) {
            return false;
        }
        if self.include_globs.len() > 0 && !any_pattern_matches(&self.include_globs, path) {
            return false;
        }
        true
    }
}

impl Default for FileFilter {
    /// The filter that keeps every path.
    fn default() -> (f: FileFilter)
        ensures
            f.extensions@.len() == 0,
            f.include_globs@.len() == 0,
            f.exclude_globs@.len() == 0,
    {
        FileFilter { extensions: Vec::new(), include_globs: Vec::new(), exclude_globs: Vec::new() }
    }
}

/// A filter with no extensions and no patterns keeps every path.
pub proof fn lemma_empty_filter_accepts_all(path: Seq<char>)
    ensures
        filter_accepts(Seq::empty(), Seq::empty(), Seq::empty(), path),
{
}

/// A pattern of the excluded ones that matches a path keeps it out, whatever else the
/// filter holds.
pub proof fn lemma_exclusion_wins(f: FileFilter, path: Seq<char>, i: int)
    requires
        0 <= i < f.exclude_globs@.len(),
        spec_glob_matches(f.exclude_globs@[i]@, path),
    ensures
        !f.accepts(path),
{
    assert(pattern_texts(f.exclude_globs@)[i] == f.exclude_globs@[i]@);
}

} // verus!
