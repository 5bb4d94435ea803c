use vstd::prelude::*;
use crate::SearchMode;
use crate::pattern::{fuzzy_match_path, fuzzy_matches, line_matches, regex_compiles, regex_match, regex_valid};

verus! {

/// A file offered to the filter: its path, and its text lines (consulted
/// only by the contents mode; an unreadable or binary file carries none).
pub struct FileRecord {
    pub path: String,
    pub lines: Vec<String>,
}

/// The paths of a record sequence, in order.
pub open spec fn spec_paths(recs: Seq<FileRecord>) -> Seq<Seq<char>>
    decreases recs.len(),
{
    if recs.len() == 0 {
        Seq::<Seq<char>>::empty()
    } else {
        spec_paths(recs.drop_last()) + seq![recs.last().path@]
    }
}

/// Whether some line of the record matches the query regex.
pub open spec fn rec_content_matches(q: Seq<char>, rec: FileRecord) -> bool {
    exists|i: int|
        0 <= i < rec.lines.deep_view().len() && regex_match(q, #[trigger] rec.lines.deep_view()[i])
}

/// The shared per-record predicate of the two search modes.
pub open spec fn spec_keeps(q: Seq<char>, mode: SearchMode, rec: FileRecord) -> bool {
    match mode {
        SearchMode::Filename => fuzzy_matches(rec.path@, q),
        SearchMode::Contents => rec_content_matches(q, rec),
    }
}

/// The paths of the records the mode's predicate keeps, in order.
pub open spec fn spec_filter_kept(recs: Seq<FileRecord>, q: Seq<char>, mode: SearchMode) -> Seq<
    Seq<char>,
>
    decreases recs.len(),
{
    if recs.len() == 0 {
        Seq::<Seq<char>>::empty()
    } else {
        spec_filter_kept(recs.drop_last(), q, mode) + (if spec_keeps(q, mode, recs.last()) {
            seq![recs.last().path@]
        } else {
            Seq::<Seq<char>>::empty()
        })
    }
}

/// What filtering returns: everything for an empty query, nothing for an
/// uncompilable contents query, and otherwise the kept paths in order.
pub open spec fn spec_filter(recs: Seq<FileRecord>, q: Seq<char>, mode: SearchMode) -> Seq<
    Seq<char>,
> {
    if q.len() == 0 {
        spec_paths(recs)
    } else if mode is Contents && !regex_valid(q) {
        Seq::<Seq<char>>::empty()
    } else {
        spec_filter_kept(recs, q, mode)
    }
}

/// Whether some line of the given file matches the query regex (false as
/// well when the query does not compile).
pub fn content_match(query: &String, lines: &Vec<String>) -> (r: bool)
    ensures
        r == (regex_valid(query@) && exists|i: int|
            0 <= i < lines.deep_view().len() && regex_match(
                query@,
                #[trigger] lines.deep_view()[i],
            )),
{
    let mut i: usize = 0;
    while i < lines.len()
        invariant
            i <= lines@.len(),
            forall|k: int|
                0 <= k < i ==> !(regex_valid(query@) && regex_match(
                    query@,
                    #[trigger] lines.deep_view()[k],
                )),
        decreases lines@.len() - i,
    {
        if line_matches(query.as_str(), lines[i].as_str()) {
            proof {
                assert(regex_match(query@, lines.deep_view()[i as int]));
            }
            return true;
        }
        i += 1;
    }
    false
}

/// Filename mode: keep the files whose path the query fuzzily matches.
pub fn filter_by_filename(files: &Vec<FileRecord>, query: &String) -> (r: Vec<String>)
    ensures
        r.deep_view() == spec_filter_kept(files@, query@, SearchMode::Filename),
{
    let mut r: Vec<String> = Vec::new();
    let mut i: usize = 0;
    while i < files.len()
        invariant
            i <= files@.len(),
            r.deep_view() == spec_filter_kept(files@.take(i as int), query@, SearchMode::Filename),
        decreases files@.len() - i,
    {
        proof {
            assert(files@.take(i + 1).drop_last() =~= files@.take(i as int));
            assert(files@.take(i + 1).last() == files@[i as int]);
        }
        if fuzzy_match_path(files[i].path.as_str(), query.as_str()) {
            r.push(files[i].path.clone());
        }
        proof {
            assert(r.deep_view() =~= spec_filter_kept(
                files@.take(i + 1),
                query@,
                SearchMode::Filename,
            ));
        }
        i += 1;
    }
    proof {
        assert(files@.take(files@.len() as int) =~= files@);
    }
    r
}

/// Contents mode with a query that compiles: keep the files with a matching
/// line.
pub fn filter_by_contents(files: &Vec<FileRecord>, query: &String) -> (r: Vec<String>)
    requires
        regex_valid(query@),
    ensures
        r.deep_view() == spec_filter_kept(files@, query@, SearchMode::Contents),
{
    let mut r: Vec<String> = Vec::new();
    let mut i: usize = 0;
    while i < files.len()
        invariant
            regex_valid(query@),
            i <= files@.len(),
            r.deep_view() == spec_filter_kept(files@.take(i as int), query@, SearchMode::Contents),
        decreases files@.len() - i,
    {
        proof {
            assert(files@.take(i + 1).drop_last() =~= files@.take(i as int));
            assert(files@.take(i + 1).last() == files@[i as int]);
        }
        if content_match(query, &files[i].lines) {
            r.push(files[i].path.clone());
        }
        proof {
            assert(r.deep_view() =~= spec_filter_kept(
                files@.take(i + 1),
                query@,
                SearchMode::Contents,
            ));
        }
        i += 1;
    }
    proof {
        assert(files@.take(files@.len() as int) =~= files@);
    }
    r
}

/// The filter: identity for an empty query, fuzzy path matching in filename
/// mode, first-matching-line existence in contents mode, and the empty set
/// for a contents query that does not compile.
pub fn filter_files(files: &Vec<FileRecord>, query: &String, mode: SearchMode) -> (r: Vec<String>)
    ensures
        r.deep_view() == spec_filter(files@, query@, mode),
        query@.len() == 0 ==> r.deep_view() == spec_paths(files@),
        mode is Contents && query@.len() > 0 && !regex_valid(query@) ==> r@.len() == 0,
{
    if query.as_str().is_empty() {
        let mut r: Vec<String> = Vec::new();
        let mut i: usize = 0;
        while i < files.len()
            invariant
                i <= files@.len(),
                r.deep_view() == spec_paths(files@.take(i as int)),
            decreases files@.len() - i,
        {
            proof {
                assert(files@.take(i + 1).drop_last() =~= files@.take(i as int));
                assert(files@.take(i + 1).last() == files@[i as int]);
            }
            r.push(files[i].path.clone());
            proof {
                assert(r.deep_view() =~= spec_paths(files@.take(i + 1)));
            }
            i += 1;
        }
        proof {
            assert(files@.take(files@.len() as int) =~= files@);
        }
        r
    } else {
        match mode {
            SearchMode::Filename => filter_by_filename(files, query),
            SearchMode::Contents => {
                if regex_compiles(query.as_str()) {
                    filter_by_contents(files, query)
                } else {
                    Vec::new()
                }
            },
        }
    }
}

// ---------------------------------------------------------------------------
// Order preservation: whatever the query and mode, the filtered paths are a
// subsequence of the offered paths.
// ---------------------------------------------------------------------------

/// `a` can be read off `b` left to right, skipping entries of `b`.
pub open spec fn is_subsequence_of<T>(a: Seq<T>, b: Seq<T>) -> bool
    decreases a.len() + b.len(),
{
    if a.len() == 0 {
        true
    } else if b.len() == 0 {
        false
    } else {
        (a.last() == b.last() && is_subsequence_of(a.drop_last(), b.drop_last()))
            || is_subsequence_of(a, b.drop_last())
    }
}

pub proof fn lemma_subsequence_refl<T>(s: Seq<T>)
    ensures
        is_subsequence_of(s, s),
    decreases s.len(),
{
    if s.len() > 0 {
        lemma_subsequence_refl(s.drop_last());
    }
}

proof fn lemma_filter_kept_subsequence(recs: Seq<FileRecord>, q: Seq<char>, mode: SearchMode)
    ensures
        is_subsequence_of(spec_filter_kept(recs, q, mode), spec_paths(recs)),
    decreases recs.len(),
{
    if recs.len() > 0 {
        lemma_filter_kept_subsequence(recs.drop_last(), q, mode);
        let fk = spec_filter_kept(recs.drop_last(), q, mode);
        let p = spec_paths(recs.drop_last());
        let a = spec_filter_kept(recs, q, mode);
        let b = spec_paths(recs);
        assert(b.drop_last() =~= p);
        if spec_keeps(q, mode, recs.last()) {
            assert(a.drop_last() =~= fk);
            assert(a.last() == b.last());
        } else {
            assert(a =~= fk);
        }
    }
}

/// The filtered set is a subsequence of the offered file set: a subset that
/// keeps the files' relative order, under every query and mode.
pub proof fn lemma_filter_preserves_order(recs: Seq<FileRecord>, q: Seq<char>, mode: SearchMode)
    ensures
        is_subsequence_of(spec_filter(recs, q, mode), spec_paths(recs)),
{
    if q.len() == 0 {
        lemma_subsequence_refl(spec_paths(recs));
    } else if mode is Contents && !regex_valid(q) {
    } else {
        lemma_filter_kept_subsequence(recs, q, mode);
    }
}

} // verus!
