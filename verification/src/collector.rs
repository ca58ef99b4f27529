//! The collector's verified core: filtering candidate paths through the
//! exclusion set, and rendering the surviving files into the single dump
//! text, with per-file headers and the count of files included.
//!
//! Reading directories and files, and writing the dump to disk, happen
//! outside the library; each candidate arrives here as its path together
//! with the outcome of reading it.

use vstd::prelude::*;
use vstd::string::*;
use crate::glob_api::glob_match;
use crate::pattern::{PatternSet, views_of, set_matches, normalize};

verus! {

/// How reading one candidate file went: its full contents decoded as text,
/// contents that were not valid text (a binary file), or some other I/O
/// failure with its message.
pub enum ReadOutcome {
    Text(String),
    Binary,
    ReadError(String),
}

/// One candidate file as the dump loop sees it: its path and what reading
/// it produced.
pub struct FileEntry {
    pub path: String,
    pub outcome: ReadOutcome,
}

/// The large three-line banner framing a path.
pub open spec fn banner_spec(path: Seq<char>) -> Seq<char> {
    "//---------------------------------------------------\n// File: "@ + path
        + "\n//---------------------------------------------------\n"@
}

/// The compact single-line header: a blank line, then the comment naming the
/// path.
pub open spec fn compact_head_spec(path: Seq<char>) -> Seq<char> {
    "\n// File: "@ + path + "\n"@
}

/// The section header, large or compact.
pub open spec fn head_spec(path: Seq<char>, use_banner: bool) -> Seq<char> {
    if use_banner {
        banner_spec(path)
    } else {
        compact_head_spec(path)
    }
}

/// One included file's section: its header, its verbatim content, and a
/// trailing newline.
pub open spec fn section_spec(path: Seq<char>, content: Seq<char>, use_banner: bool) -> Seq<char> {
    head_spec(path, use_banner) + content + "\n"@
}

/// What one entry contributes to the dump: its section if its contents
/// decoded as text, nothing otherwise.
pub open spec fn entry_text(e: FileEntry, use_banner: bool) -> Seq<char> {
    match e.outcome {
        ReadOutcome::Text(content) => section_spec(e.path@, content@, use_banner),
        _ => Seq::<char>::empty(),
    }
}

/// What one entry contributes to the count of files included.
pub open spec fn entry_count(e: FileEntry) -> nat {
    match e.outcome {
        ReadOutcome::Text(_) => 1,
        _ => 0,
    }
}

/// The whole dump text: the sections of the text entries, in order.
pub open spec fn dump_spec(entries: Seq<FileEntry>, use_banner: bool) -> Seq<char>
    decreases entries.len(),
{
    if entries.len() == 0 {
        Seq::<char>::empty()
    } else {
        dump_spec(entries.drop_last(), use_banner) + entry_text(entries.last(), use_banner)
    }
}

/// The count of files included: the number of entries whose contents decoded
/// as text.
pub open spec fn count_spec(entries: Seq<FileEntry>) -> nat
    decreases entries.len(),
{
    if entries.len() == 0 {
        0
    } else {
        count_spec(entries.drop_last()) + entry_count(entries.last())
    }
}

/// The candidate paths that survive the exclusion set, in order: exactly
/// those that no pattern matches.
pub open spec fn keep(patterns: Seq<Seq<char>>, paths: Seq<Seq<char>>) -> Seq<Seq<char>>
    decreases paths.len(),
{
    if paths.len() == 0 {
        Seq::<Seq<char>>::empty()
    } else {
        let prefix = keep(patterns, paths.drop_last());
        if set_matches(patterns, paths.last()) {
            prefix
        } else {
            prefix.push(paths.last())
        }
    }
}

/// Builds the large banner framing `text`.
pub fn banner(text: &str) -> (r: String)
    ensures
        r@ == banner_spec(text@),
{
    let mut r = String::from_str("//---------------------------------------------------\n// File: ");
    r.append(text);
    r.append("\n//---------------------------------------------------\n");
    r
}

/// Builds the section header for `path`: the large banner when `use_banner`
/// is set, otherwise the compact one-line header.
pub fn section_head(path: &str, use_banner: bool) -> (r: String)
    ensures
        r@ == head_spec(path@, use_banner),
{
    if use_banner {
        banner(path)
    } else {
        let mut r = String::from_str("\n// File: ");
        r.append(path);
        r.append("\n");
        r
    }
}

/// Keeps, in order, the candidate paths that no pattern of the set matches.
pub fn filter_candidates(set: &PatternSet, paths: &Vec<String>) -> (r: Vec<String>)
    ensures
        views_of(r@) == keep(set@, views_of(paths@)),
{
    let n = paths.len();
    let mut r: Vec<String> = Vec::new();
    let mut i: usize = 0;
    while i < n
        invariant
            n == paths@.len(),
            i <= n,
            views_of(r@) == keep(set@, views_of(paths@).subrange(0, i as int)),
        decreases n - i,
    {
        let ghost gpaths = views_of(paths@);
        proof {
            assert(gpaths.subrange(0, i + 1).drop_last() =~= gpaths.subrange(0, i as int));
            assert(gpaths.subrange(0, i + 1).last() == paths@[i as int]@);
        }
        if !set.matches(paths[i].as_str()) {
            let ghost prev = r@;
            r.push(String::from_str(paths[i].as_str()));
            proof {
                assert(views_of(r@) =~= views_of(prev).push(paths@[i as int]@));
            }
        }
        i += 1;
    }
    proof {
        assert(views_of(paths@).subrange(0, n as int) =~= views_of(paths@));
    }
    r
}

/// Renders the dump in one pass over the entries: for each entry whose
/// contents decoded as text, its header, its verbatim content and a trailing
/// newline are appended and the count grows by one; binary files and files
/// whose read failed contribute nothing. Never fails, whatever the entries
/// hold.
pub fn dump_entries(entries: &Vec<FileEntry>, use_banner: bool) -> (r: (String, usize))
    ensures
        r.0@ == dump_spec(entries@, use_banner),
        r.1 == count_spec(entries@),
{
    let n = entries.len();
    let mut out = String::new();
    let mut count: usize = 0;
    let mut i: usize = 0;
    while i < n
        invariant
            n == entries@.len(),
            i <= n,
            out@ == dump_spec(entries@.subrange(0, i as int), use_banner),
            count == count_spec(entries@.subrange(0, i as int)),
            count <= i,
        decreases n - i,
    {
        proof {
            assert(entries@.subrange(0, i + 1).drop_last() =~= entries@.subrange(0, i as int));
            assert(entries@.subrange(0, i + 1).last() == entries@[i as int]);
        }
        match &entries[i].outcome {
            ReadOutcome::Text(content) => {
                let head = section_head(entries[i].path.as_str(), use_banner);
                out.append(head.as_str());
                out.append(content.as_str());
                out.append("\n");
                count += 1;
                proof {
                    assert(out@ =~= dump_spec(entries@.subrange(0, i + 1), use_banner));
                }
            },
            _ => {
                proof {
                    assert(out@ =~= dump_spec(entries@.subrange(0, i + 1), use_banner));
                }
            },
        }
        i += 1;
    }
    proof {
        assert(entries@.subrange(0, n as int) =~= entries@);
    }
    (out, count)
}

/// No path that some pattern of the set matches (after normalization) ever
/// survives the filter — in particular, none equal to such a path is kept.
pub proof fn lemma_filter_excludes_matching(
    patterns: Seq<Seq<char>>,
    paths: Seq<Seq<char>>,
    pattern: Seq<char>,
    p: Seq<char>,
)
    requires
        patterns.contains(pattern),
        glob_match(pattern, normalize(p)),
    ensures
        !keep(patterns, paths).contains(p),
    decreases paths.len(),
{
    let i = choose|i: int| 0 <= i < patterns.len() && patterns[i] == pattern;
    assert(glob_match(patterns[i], normalize(p)));
    assert(set_matches(patterns, p));
    if paths.len() > 0 {
        lemma_filter_excludes_matching(patterns, paths.drop_last(), pattern, p);
        let prefix = keep(patterns, paths.drop_last());
        if !set_matches(patterns, paths.last()) {
            assert(keep(patterns, paths) == prefix.push(paths.last()));
            if keep(patterns, paths).contains(p) {
                let j = choose|j: int|
                    0 <= j < keep(patterns, paths).len() && keep(patterns, paths)[j] == p;
                if j < prefix.len() {
                    assert(prefix[j] == p);
                    assert(prefix.contains(p));
                } else {
                    assert(paths.last() == p);
                    assert(set_matches(patterns, paths.last()));
                }
            }
        }
    }
}

/// The output file never collects itself: when the pattern set holds the
/// output path's own text as a pattern, and that text matches itself as a
/// glob (as any meta-character-free file name does), no candidate equal to
/// the output path survives the filter.
pub proof fn lemma_output_self_excluded(
    patterns: Seq<Seq<char>>,
    paths: Seq<Seq<char>>,
    out: Seq<char>,
)
    requires
        patterns.contains(out),
        glob_match(out, normalize(out)),
    ensures
        !keep(patterns, paths).contains(out),
{
    lemma_filter_excludes_matching(patterns, paths, out, out);
}

/// A candidate whose contents were not valid text adds nothing: removing it
/// from the entries changes neither the dump text nor the count, and the run
/// still succeeds (rendering is total).
pub proof fn lemma_non_text_entry_ignored(entries: Seq<FileEntry>, i: int, use_banner: bool)
    requires
        0 <= i < entries.len(),
        !(entries[i].outcome is Text),
    ensures
        dump_spec(entries.remove(i), use_banner) == dump_spec(entries, use_banner),
        count_spec(entries.remove(i)) == count_spec(entries),
    decreases entries.len(),
{
    if i == entries.len() - 1 {
        assert(entries.remove(i) =~= entries.drop_last());
        assert(entry_text(entries.last(), use_banner) == Seq::<char>::empty());
        assert(dump_spec(entries.drop_last(), use_banner) + Seq::<char>::empty() =~= dump_spec(
            entries.drop_last(),
            use_banner,
        ));
    } else {
        lemma_non_text_entry_ignored(entries.drop_last(), i, use_banner);
        assert(entries.remove(i).drop_last() =~= entries.drop_last().remove(i));
        assert(entries.remove(i).last() == entries.last());
    }
}

/// Rendering is a function of the surviving entries and the header choice
/// alone: two runs over identical entries produce byte-identical dump text
/// and the same count.
pub proof fn lemma_dump_deterministic(
    entries: Seq<FileEntry>,
    use_banner: bool,
    out1: Seq<char>,
    n1: nat,
    out2: Seq<char>,
    n2: nat,
)
    requires
        out1 == dump_spec(entries, use_banner),
        n1 == count_spec(entries),
        out2 == dump_spec(entries, use_banner),
        n2 == count_spec(entries),
    ensures
        out1 == out2,
        n1 == n2,
{
}

} // verus!
