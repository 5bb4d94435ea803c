use vstd::prelude::*;
use crate::config::Config;
use crate::text::{
    chars_of, contains_chars, file_name_chars, lower_of, lowercase, spec_contains, string_from_chars,
    file_name_of,
};

verus! {

/// A path is ignored when its lowercased text contains one of the directory
/// markers, or its lowercased file name contains one of the name patterns.
pub open spec fn spec_ignored(dirs: Seq<Seq<char>>, patterns: Seq<Seq<char>>, path: Seq<char>) -> bool {
    (exists|i: int|
        0 <= i < dirs.len() && #[trigger] spec_contains(lower_of(path), dirs[i])) || (exists|i: int|
        0 <= i < patterns.len() && #[trigger] spec_contains(
            lower_of(file_name_of(path)),
            patterns[i],
        ))
}

/// Decide whether a path is excluded by the configured ignore rules.
pub fn should_ignore_path(cfg: &Config, path: &String) -> (r: bool)
    ensures
        r == spec_ignored(cfg.ignored_dirs.deep_view(), cfg.ignored_patterns.deep_view(), path@),
{
    let low = lowercase(path.as_str());
    let low_chars = chars_of(low.as_str());
    let mut i: usize = 0;
    while i < cfg.ignored_dirs.len()
        invariant
            low_chars@ == lower_of(path@),
            i <= cfg.ignored_dirs@.len(),
            forall|k: int|
                0 <= k < i ==> !(#[trigger] spec_contains(
                    lower_of(path@),
                    cfg.ignored_dirs.deep_view()[k],
                )),
        decreases cfg.ignored_dirs@.len() - i,
    {
        let d = chars_of(cfg.ignored_dirs[i].as_str());
        if contains_chars(&low_chars, &d) {
            proof {
                assert(spec_contains(lower_of(path@), cfg.ignored_dirs.deep_view()[i as int]));
            }
            return true;
        }
        i += 1;
    }
    let path_chars = chars_of(path.as_str());
    let name = file_name_chars(&path_chars);
    let name_string = string_from_chars(&name);
    let name_low = lowercase(name_string.as_str());
    let name_low_chars = chars_of(name_low.as_str());
    let mut j: usize = 0;
    while j < cfg.ignored_patterns.len()
        invariant
            name_low_chars@ == lower_of(file_name_of(path@)),
            j <= cfg.ignored_patterns@.len(),
            forall|k: int|
                0 <= k < j ==> !(#[trigger] spec_contains(
                    lower_of(file_name_of(path@)),
                    cfg.ignored_patterns.deep_view()[k],
                )),
            forall|k: int|
                0 <= k < cfg.ignored_dirs.deep_view().len() ==> !(#[trigger] spec_contains(
                    lower_of(path@),
                    cfg.ignored_dirs.deep_view()[k],
                )),
        decreases cfg.ignored_patterns@.len() - j,
    {
        let p = chars_of(cfg.ignored_patterns[j].as_str());
        if contains_chars(&name_low_chars, &p) {
            proof {
                assert(spec_contains(
                    lower_of(file_name_of(path@)),
                    cfg.ignored_patterns.deep_view()[j as int],
                ));
            }
            return true;
        }
        j += 1;
    }
    false
}

} // verus!
