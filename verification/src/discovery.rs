use vstd::prelude::*;
use crate::config::Config;
use crate::ignore::{should_ignore_path, spec_ignored};
use crate::text::{chars_of, lower_of, spec_contains, spec_lines, split_lines, string_from_chars};

verus! {

/// How many leading bytes the binary heuristic inspects.
pub const BINARY_SNIFF_LEN: usize = 1024;

/// A file met during the directory walk: its path, and the leading bytes the
/// walker read for the binary heuristic.
pub struct Candidate {
    pub path: String,
    pub head: Vec<u8>,
}

/// The binary heuristic: a NUL byte among the first 1024 bytes.
pub open spec fn spec_binary_head(head: Seq<u8>) -> bool {
    exists|i: int| 0 <= i < head.len() && i < 1024 && head[i] == 0u8
}

/// Classify a file as binary from its leading bytes.
pub fn is_binary_head(head: &Vec<u8>) -> (r: bool)
    ensures
        r == spec_binary_head(head@),
{
    let n: usize = if head.len() < BINARY_SNIFF_LEN {
        head.len()
    } else {
        BINARY_SNIFF_LEN
    };
    let mut i: usize = 0;
    while i < n
        invariant
            n <= head@.len(),
            n <= 1024,
            n == 1024 || n == head@.len(),
            i <= n,
            forall|k: int| 0 <= k < i ==> head@[k] != 0u8,
        decreases n - i,
    {
        if head[i] == 0 {
            proof {
                assert(0 <= i < head@.len());
                assert(i < 1024);
                assert(head@[i as int] == 0u8);
            }
            return true;
        }
        i += 1;
    }
    false
}

/// A candidate survives discovery when neither ignore rule hits its path and
/// its leading bytes do not look binary.
pub open spec fn spec_accepts(cfg: Config, c: Candidate) -> bool {
    !spec_ignored(cfg.ignored_dirs.deep_view(), cfg.ignored_patterns.deep_view(), c.path@)
        && !spec_binary_head(c.head@)
}

/// The paths of the accepted candidates, in walk order.
pub open spec fn spec_discover(cfg: Config, cands: Seq<Candidate>) -> Seq<Seq<char>>
    decreases cands.len(),
{
    if cands.len() == 0 {
        Seq::<Seq<char>>::empty()
    } else {
        spec_discover(cfg, cands.drop_last()) + (if spec_accepts(cfg, cands.last()) {
            seq![cands.last().path@]
        } else {
            Seq::<Seq<char>>::empty()
        })
    }
}

/// Keep, in order, the paths of the candidates that the ignore rules and the
/// binary heuristic both accept.
pub fn discover_filter(cfg: &Config, cands: &Vec<Candidate>) -> (r: Vec<String>)
    ensures
        r.deep_view() == spec_discover(*cfg, cands@),
{
    let mut r: Vec<String> = Vec::new();
    let mut i: usize = 0;
    while i < cands.len()
        invariant
            i <= cands@.len(),
            r.deep_view() == spec_discover(*cfg, cands@.take(i as int)),
        decreases cands@.len() - i,
    {
        let c = &cands[i];
        let keep = !should_ignore_path(cfg, &c.path) && !is_binary_head(&c.head);
        proof {
            assert(cands@.take(i + 1).drop_last() =~= cands@.take(i as int));
            assert(cands@.take(i + 1).last() == cands@[i as int]);
        }
        if keep {
            r.push(c.path.clone());
            proof {
                assert(r.deep_view() =~= spec_discover(*cfg, cands@.take(i + 1)));
            }
        } else {
            proof {
                assert(r.deep_view() =~= spec_discover(*cfg, cands@.take(i + 1)));
            }
        }
        i += 1;
    }
    proof {
        assert(cands@.take(cands@.len() as int) =~= cands@);
    }
    r
}

/// Whatever a candidate's name or extension, a NUL byte in its first 1024
/// bytes keeps it out of the discovered set.
pub proof fn lemma_binary_excluded(cfg: Config, cands: Seq<Candidate>, i: int)
    requires
        0 <= i < cands.len(),
        spec_binary_head(cands[i].head@),
    ensures
        !spec_accepts(cfg, cands[i]),
        forall|x: Seq<char>|
            #[trigger] spec_discover(cfg, cands).contains(x) ==> exists|k: int|
                0 <= k < cands.len() && x == cands[k].path@ && spec_accepts(cfg, cands[k]),
{
    lemma_discover_members(cfg, cands);
}

/// A path whose lowercased text contains a configured directory marker is
/// ignored, so never discovered.
pub proof fn lemma_marker_excluded(cfg: Config, c: Candidate, m: int)
    requires
        0 <= m < cfg.ignored_dirs.deep_view().len(),
        spec_contains(lower_of(c.path@), cfg.ignored_dirs.deep_view()[m]),
    ensures
        !spec_accepts(cfg, c),
{
}

/// Every discovered path is the path of some accepted candidate.
pub proof fn lemma_discover_members(cfg: Config, cands: Seq<Candidate>)
    ensures
        forall|x: Seq<char>|
            #[trigger] spec_discover(cfg, cands).contains(x) ==> exists|k: int|
                0 <= k < cands.len() && x == cands[k].path@ && spec_accepts(cfg, cands[k]),
    decreases cands.len(),
{
    if cands.len() > 0 {
        lemma_discover_members(cfg, cands.drop_last());
        let prev = spec_discover(cfg, cands.drop_last());
        assert forall|x: Seq<char>| #[trigger] spec_discover(cfg, cands).contains(x) implies exists|
            k: int,
        | 0 <= k < cands.len() && x == cands[k].path@ && spec_accepts(cfg, cands[k]) by {
            let j = choose|j: int|
                0 <= j < spec_discover(cfg, cands).len() && spec_discover(cfg, cands)[j] == x;
            if j < prev.len() {
                assert(prev[j] == x);
                assert(prev.contains(x));
                let k = choose|k: int|
                    0 <= k < cands.drop_last().len() && x == cands.drop_last()[k].path@
                        && spec_accepts(cfg, cands.drop_last()[k]);
                assert(cands.drop_last()[k] == cands[k]);
                assert(0 <= k < cands.len() && x == cands[k].path@ && spec_accepts(cfg, cands[k]));
            } else {
                let k = cands.len() - 1;
                assert(spec_accepts(cfg, cands.last()));
                assert(x == cands[k].path@);
                assert(0 <= k < cands.len() && x == cands[k].path@ && spec_accepts(cfg, cands[k]));
            }
        }
    }
}

// ---------------------------------------------------------------------------
// The alternate base-set source: paths taken from version-control status
// output. By design this path applies neither the ignore rules nor the
// binary heuristic to its entries.
// ---------------------------------------------------------------------------

/// A status line contributes a path when it is long enough to carry the
/// two status columns and a separator, and its status columns are not both
/// blank (a blank status would mean an unchanged file).
pub open spec fn spec_dirty_line_keeps(l: Seq<char>) -> bool {
    l.len() >= 3 && !(l[0] == ' ' && l[1] == ' ')
}

pub open spec fn spec_dirty_paths(ls: Seq<Seq<char>>) -> Seq<Seq<char>>
    decreases ls.len(),
{
    if ls.len() == 0 {
        Seq::<Seq<char>>::empty()
    } else {
        spec_dirty_paths(ls.drop_last()) + (if spec_dirty_line_keeps(ls.last()) {
            seq![ls.last().skip(3)]
        } else {
            Seq::<Seq<char>>::empty()
        })
    }
}

/// Extract the changed-file paths from porcelain-style status output: one
/// entry per line, skipping the two status columns and the separator.
pub fn dirty_paths_from_status(output: &String) -> (r: Vec<String>)
    ensures
        r.deep_view() == spec_dirty_paths(spec_lines(output@)),
{
    let ls = split_lines(output.as_str());
    let mut r: Vec<String> = Vec::new();
    let mut i: usize = 0;
    while i < ls.len()
        invariant
            i <= ls@.len(),
            ls.deep_view() == spec_lines(output@),
            r.deep_view() == spec_dirty_paths(ls.deep_view().take(i as int)),
        decreases ls@.len() - i,
    {
        let line = &ls[i];
        let lc = chars_of(line.as_str());
        proof {
            assert(ls.deep_view().take(i + 1).drop_last() =~= ls.deep_view().take(i as int));
            assert(ls.deep_view().take(i + 1).last() == ls.deep_view()[i as int]);
            assert(lc@ == ls.deep_view()[i as int]);
        }
        if lc.len() >= 3 && !(lc[0] == ' ' && lc[1] == ' ') {
            let mut pv: Vec<char> = Vec::new();
            let mut k: usize = 3;
            while k < lc.len()
                invariant
                    3 <= k <= lc@.len(),
                    pv@ =~= lc@.subrange(3, k as int),
                decreases lc@.len() - k,
            {
                pv.push(lc[k]);
                k += 1;
            }
            proof {
                assert(pv@ =~= lc@.skip(3));
            }
            r.push(string_from_chars(&pv));
            proof {
                assert(r.deep_view() =~= spec_dirty_paths(ls.deep_view().take(i + 1)));
            }
        } else {
            proof {
                assert(!spec_dirty_line_keeps(ls.deep_view()[i as int]));
                assert(r.deep_view() =~= spec_dirty_paths(ls.deep_view().take(i + 1)));
            }
        }
        i += 1;
    }
    proof {
        assert(ls.deep_view().take(ls.deep_view().len() as int) =~= ls.deep_view());
    }
    r
}

} // verus!
