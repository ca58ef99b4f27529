//! Exclusion patterns: a comma-separated spec string is parsed into a set of
//! validated glob patterns, which then serves as a filter predicate over
//! candidate paths.

use vstd::prelude::*;
use vstd::string::*;
use crate::error::CodeDumpError;
use crate::glob_api::{glob_valid, glob_match, trim_of, glob_compiles, glob_matches, trim};

verus! {

/// The views of a sequence of strings.
pub open spec fn views_of(v: Seq<String>) -> Seq<Seq<char>> {
    v.map_values(|s: String| s@)
}

/// The pieces of `s` between its commas, scanning from position `i` with the
/// current piece having begun at `start`.
pub open spec fn split_from(s: Seq<char>, i: int, start: int) -> Seq<Seq<char>>
    decreases s.len() - i,
    when 0 <= start <= i <= s.len()
{
    if i == s.len() {
        seq![s.subrange(start, i)]
    } else if s[i] == ',' {
        seq![s.subrange(start, i)] + split_from(s, i + 1, i + 1)
    } else {
        split_from(s, i + 1, start)
    }
}

/// The comma-separated segments of `s`. An empty string has one (empty)
/// segment, as `str::split` would give.
pub open spec fn segments(s: Seq<char>) -> Seq<Seq<char>> {
    split_from(s, 0, 0)
}

/// Each segment of `s`, trimmed of surrounding whitespace: the pattern texts
/// that a successful parse of `s` compiles.
pub open spec fn trimmed_segments(s: Seq<char>) -> Seq<Seq<char>> {
    segments(s).map_values(|seg: Seq<char>| trim_of(seg))
}

/// The index of the first segment of `segs` at or after `i` whose trimmed
/// text is not a valid glob, or -1 if they are all valid.
pub open spec fn first_invalid_from(segs: Seq<Seq<char>>, i: int) -> int
    decreases segs.len() - i,
    when 0 <= i <= segs.len()
{
    if i == segs.len() {
        -1
    } else if !glob_valid(trim_of(segs[i])) {
        i
    } else {
        first_invalid_from(segs, i + 1)
    }
}

/// The index of the first segment whose trimmed text is not a valid glob,
/// or -1 if every segment is valid.
pub open spec fn first_invalid(segs: Seq<Seq<char>>) -> int {
    first_invalid_from(segs, 0)
}

/// A candidate path with its leading `./` stripped, so that `file.txt` and
/// `./file.txt` meet the same patterns.
pub open spec fn normalize(p: Seq<char>) -> Seq<char> {
    if p.len() >= 2 && p[0] == '.' && p[1] == '/' {
        p.subrange(2, p.len() as int)
    } else {
        p
    }
}

/// Whether any pattern of the set matches the normalized path: the exclusion
/// predicate.
pub open spec fn set_matches(patterns: Seq<Seq<char>>, path: Seq<char>) -> bool {
    exists|i: int| 0 <= i < patterns.len() && glob_match(patterns[i], normalize(path))
}

/// A set of validated exclusion glob patterns. Every pattern it holds is
/// guaranteed valid, so matching never has to re-check syntax.
#[derive(Debug)]
pub struct PatternSet {
    patterns: Vec<String>,
}

impl View for PatternSet {
    type V = Seq<Seq<char>>;

    closed spec fn view(&self) -> Seq<Seq<char>> {
        views_of(self.patterns@)
    }
}

impl PatternSet {
    #[verifier::type_invariant]
    spec fn wf(self) -> bool {
        forall|i: int| 0 <= i < self.patterns@.len() ==> glob_valid(#[trigger] self.patterns@[i]@)
    }

    /// The empty set: no path is excluded by it.
    pub fn new() -> (r: Self)
        ensures
            r@ == Seq::<Seq<char>>::empty(),
    {
        PatternSet { patterns: Vec::new() }
    }

    /// How many patterns the set holds.
    pub fn len(&self) -> (n: usize)
        ensures
            n == self@.len(),
    {
        self.patterns.len()
    }

    /// Appends one more exclusion pattern — the collector uses this to shield
    /// the output file from its own run. Leaves the set unchanged and reports
    /// failure when the text is not a valid glob.
    pub fn push_pattern(&mut self, text: &str) -> (ok: bool)
        ensures
            ok == glob_valid(text@),
            ok ==> final(self)@ == old(self)@.push(text@),
            !ok ==> final(self)@ == old(self)@,
    {
        proof {
            use_type_invariant(&*self);
        }
        if glob_compiles(text) {
            let mut v: Vec<String> = Vec::new();
            core::mem::swap(&mut v, &mut self.patterns);
            v.push(String::from_str(text));
            self.patterns = v;
            proof {
                assert(self@ =~= old(self)@.push(text@));
            }
            true
        } else {
            false
        }
    }

    /// Whether any pattern of the set matches the path, once the path's
    /// leading `./` is stripped. First match suffices; no order matters.
    pub fn matches(&self, path: &str) -> (r: bool)
        ensures
            r == set_matches(self@, path@),
    {
        proof {
            use_type_invariant(self);
        }
        let normalized = strip_dot_slash(path);
        let n = self.patterns.len();
        let mut i: usize = 0;
        while i < n
            invariant
                n == self.patterns@.len(),
                i <= n,
                self.wf(),
                normalized@ == normalize(path@),
                forall|k: int| 0 <= k < i ==> !glob_match(#[trigger] self.patterns@[k]@, normalize(path@)),
            decreases n - i,
        {
            if glob_matches(self.patterns[i].as_str(), normalized) {
                proof {
                    assert(glob_match(self@[i as int], normalize(path@)));
                }
                return true;
            }
            i += 1;
        }
        proof {
            assert(forall|k: int| 0 <= k < self@.len() ==> self@[k] == self.patterns@[k]@);
        }
        false
    }
}

/// Strips one leading `./` from a path, the normalization applied before any
/// pattern is consulted.
pub fn strip_dot_slash(path: &str) -> (r: &str)
    ensures
        r@ == normalize(path@),
{
    let n = path.unicode_len();
    if n >= 2 && path.get_char(0) == '.' && path.get_char(1) == '/' {
        path.substring_char(2, n)
    } else {
        path
    }
}

/// Splits `s` at each comma, keeping empty pieces, as the parse does before
/// trimming and compiling each piece.
fn split_commas(s: &str) -> (r: Vec<String>)
    ensures
        views_of(r@) == segments(s@),
{
    let len = s.unicode_len();
    let mut r: Vec<String> = Vec::new();
    let mut start: usize = 0;
    let mut i: usize = 0;
    while i < len
        invariant
            len == s@.len(),
            0 <= start <= i <= len,
            views_of(r@) + split_from(s@, i as int, start as int) == segments(s@),
        decreases len - i,
    {
        if s.get_char(i) == ',' {
            let seg = s.substring_char(start, i);
            let ghost prev = r@;
            r.push(String::from_str(seg));
            proof {
                assert(views_of(r@) =~= views_of(prev).push(seg@));
                assert(views_of(r@) + split_from(s@, i + 1, i + 1) =~= views_of(prev) + split_from(
                    s@,
                    i as int,
                    start as int,
                ));
            }
            start = i + 1;
        }
        i += 1;
    }
    let last = s.substring_char(start, len);
    let ghost prev = r@;
    r.push(String::from_str(last));
    proof {
        assert(views_of(r@) =~= views_of(prev).push(last@));
        assert(views_of(r@) =~= segments(s@));
    }
    r
}

/// Parses an optional comma-separated exclusion spec. An absent spec yields
/// the empty set; otherwise every segment is trimmed and compiled, and the
/// first segment that is not a valid glob fails the whole parse, carrying
/// that segment's trimmed text.
#[verifier::loop_isolation(false)]
pub fn parse_exclude_patterns(patterns_str: Option<String>) -> (r: Result<PatternSet, CodeDumpError>)
    ensures
        patterns_str is None ==> (r matches Ok(set) && set@ == Seq::<Seq<char>>::empty()),
        patterns_str matches Some(s) ==> {
            &&& (r is Ok <==> first_invalid(segments(s@)) < 0)
            &&& (r matches Ok(set) ==> set@ == trimmed_segments(s@))
            &&& (r matches Err(e) ==> e matches CodeDumpError::Pattern(t) && t@ == trim_of(
                segments(s@)[first_invalid(segments(s@))],
            ))
        },
{
    match patterns_str {
        None => Ok(PatternSet { patterns: Vec::new() }),
        Some(s) => {
            let segs = split_commas(s.as_str());
            let ghost gsegs = segments(s@);
            let n = segs.len();
            let mut patterns: Vec<String> = Vec::new();
            let mut j: usize = 0;
            while j < n
                invariant
                    views_of(segs@) == gsegs,
                    gsegs == segments(s@),
                    n == segs@.len(),
                    j <= n,
                    first_invalid(gsegs) == first_invalid_from(gsegs, j as int),
                    patterns@.len() == j,
                    forall|k: int| 0 <= k < j ==> #[trigger] patterns@[k]@ == trim_of(gsegs[k]),
                    forall|k: int| 0 <= k < j ==> glob_valid(trim_of(#[trigger] gsegs[k])),
                decreases n - j,
            {
                let seg_trimmed = trim(segs[j].as_str());
                if glob_compiles(seg_trimmed) {
                    patterns.push(String::from_str(seg_trimmed));
                    j += 1;
                } else {
                    proof {
                        assert(gsegs[j as int] == segs@[j as int]@);
                        assert(!glob_valid(trim_of(gsegs[j as int])));
                        assert(first_invalid_from(gsegs, j as int) == j);
                        assert(first_invalid(segments(s@)) == j);
                        assert(seg_trimmed@ == trim_of(segments(s@)[first_invalid(segments(s@))]));
                    }
                    return Err(CodeDumpError::Pattern(String::from_str(seg_trimmed)));
                }
            }
            proof {
                assert(first_invalid_from(gsegs, n as int) == -1);
            }
            let result = PatternSet { patterns };
            proof {
                assert(result@ =~= trimmed_segments(s@));
            }
            Ok(result)
        },
    }
}

/// After a successful parse, matching is exactly "some trimmed segment of the
/// spec string matches the normalized path": the parse keeps every segment,
/// in order, and the predicate quantifies over nothing else.
pub proof fn lemma_parse_then_matches(s: Seq<char>, path: Seq<char>)
    ensures
        set_matches(trimmed_segments(s), path) <==> exists|i: int|
            0 <= i < segments(s).len() && glob_match(trim_of(segments(s)[i]), normalize(path)),
{
    if set_matches(trimmed_segments(s), path) {
        let i = choose|i: int|
            0 <= i < trimmed_segments(s).len() && glob_match(trimmed_segments(s)[i], normalize(path));
        assert(glob_match(trim_of(segments(s)[i]), normalize(path)));
    }
    if exists|i: int|
        0 <= i < segments(s).len() && glob_match(trim_of(segments(s)[i]), normalize(path)) {
        let i = choose|i: int|
            0 <= i < segments(s).len() && glob_match(trim_of(segments(s)[i]), normalize(path));
        assert(glob_match(trimmed_segments(s)[i], normalize(path)));
    }
}

} // verus!
