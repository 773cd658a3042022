//! The ordered list of configuration sources, computed from the search
//! variable and the files found in the well-known directory, and the
//! session-cache entries that the search variable already names.
use crate::text::{
    contains_seq, contains_str, dedup, dedup_strings, join_strings, join_with, split_on,
    split_on_char, strings_view,
};
use vstd::prelude::*;

verus! {

/// The path fragment that marks a file written by the session cache.
pub const CACHE_MARKER: &'static str = "/kubesess/cache";

/// Separator of the entries of the search variable.
pub const PATH_SEPARATOR: char = ':';

/// A path that may be read as a configuration source: not empty, and not a
/// session-cache file.
pub open spec fn is_source_path(p: Seq<char>) -> bool {
    p.len() > 0 && !contains_seq(p, CACHE_MARKER@)
}

/// The entries that are source paths, in order.
pub open spec fn source_entries(parts: Seq<Seq<char>>) -> Seq<Seq<char>>
    decreases parts.len(),
{
    if parts.len() == 0 {
        Seq::empty()
    } else if is_source_path(parts.last()) {
        source_entries(parts.drop_last()).push(parts.last())
    } else {
        source_entries(parts.drop_last())
    }
}

/// The entries that name session-cache files, in order.
pub open spec fn cache_entries(parts: Seq<Seq<char>>) -> Seq<Seq<char>>
    decreases parts.len(),
{
    if parts.len() == 0 {
        Seq::empty()
    } else if contains_seq(parts.last(), CACHE_MARKER@) {
        cache_entries(parts.drop_last()).push(parts.last())
    } else {
        cache_entries(parts.drop_last())
    }
}

/// The non-empty entries, in order.
pub open spec fn nonempty_entries(parts: Seq<Seq<char>>) -> Seq<Seq<char>>
    decreases parts.len(),
{
    if parts.len() == 0 {
        Seq::empty()
    } else if parts.last().len() > 0 {
        nonempty_entries(parts.drop_last()).push(parts.last())
    } else {
        nonempty_entries(parts.drop_last())
    }
}

/// The sources to load: the entries of the search variable, then the
/// discovered files, without empty entries, session-cache files or repeats.
pub open spec fn path_set(search: Seq<char>, discovered: Seq<Seq<char>>) -> Seq<Seq<char>> {
    dedup(source_entries(split_on(search, PATH_SEPARATOR) + discovered))
}

/// The session-cache entries of the search variable, joined by the separator.
pub open spec fn session_cache_spec(search: Seq<char>) -> Seq<char> {
    join_with(cache_entries(split_on(search, PATH_SEPARATOR)), seq![PATH_SEPARATOR])
}

/// The file that holds the current session: the session-cache entries when
/// there are any, else the first source (empty when there is none).
pub open spec fn current_session_spec(session_cache: Seq<char>, sources: Seq<Seq<char>>) -> Seq<
    char,
> {
    if session_cache.len() > 0 {
        session_cache
    } else if sources.len() > 0 {
        sources[0]
    } else {
        Seq::empty()
    }
}

/// The paths to load for a view that puts the entries of `current` (a
/// value of the search variable, when given) before the sources.
pub open spec fn session_paths_spec(current: Option<Seq<char>>, sources: Seq<Seq<char>>) -> Seq<
    Seq<char>,
> {
    let all = match current {
        Some(c) => split_on(c, PATH_SEPARATOR) + sources,
        None => sources,
    };
    dedup(nonempty_entries(all))
}

/// The ordered, duplicate-free list of sources: the entries of the search
/// variable `search`, then the files of the well-known directory that were
/// found to be configuration files (`discovered`). Empty entries and
/// session-cache files are left out.
pub fn source_paths(search: &str, discovered: Vec<String>) -> (r: Vec<String>)
    ensures
        strings_view(r@) == path_set(search@, strings_view(discovered@)),
{
    let mut all = split_on_char(search, PATH_SEPARATOR);
    let ghost first = all@;
    let mut rest = discovered;
    all.append(&mut rest);
    assert(strings_view(all@) =~= split_on(search@, PATH_SEPARATOR) + strings_view(
        discovered@,
    ));
    let mut kept: Vec<String> = Vec::new();
    let mut i: usize = 0;
    assert(strings_view(all@.subrange(0, 0)) =~= Seq::<Seq<char>>::empty());
    while i < all.len()
        invariant
            i <= all@.len(),
            strings_view(kept@) == source_entries(strings_view(all@.subrange(0, i as int))),
        decreases all.len() - i,
    {
        let ghost pre = strings_view(all@.subrange(0, i as int));
        assert(strings_view(all@.subrange(0, i + 1)).drop_last() =~= pre);
        assert(strings_view(all@.subrange(0, i + 1)).last() == all@[i as int]@);
        let p = all[i].clone();
        if !p.as_str().is_empty() && !contains_str(p.as_str(), CACHE_MARKER) {
            kept.push(p);
            assert(strings_view(kept@) =~= source_entries(pre).push(all@[i as int]@));
        }
        i += 1;
    }
    assert(all@.subrange(0, i as int) =~= all@);
    dedup_strings(kept)
}

/// The session-cache entries of the search variable `search`, joined by the
/// separator; empty when there are none.
pub fn session_cache(search: &str) -> (r: String)
    ensures
        r@ == session_cache_spec(search@),
{
    let parts = split_on_char(search, PATH_SEPARATOR);
    let mut kept: Vec<String> = Vec::new();
    let mut i: usize = 0;
    assert(strings_view(parts@.subrange(0, 0)) =~= Seq::<Seq<char>>::empty());
    while i < parts.len()
        invariant
            i <= parts@.len(),
            strings_view(kept@) == cache_entries(strings_view(parts@.subrange(0, i as int))),
        decreases parts.len() - i,
    {
        let ghost pre = strings_view(parts@.subrange(0, i as int));
        assert(strings_view(parts@.subrange(0, i + 1)).drop_last() =~= pre);
        assert(strings_view(parts@.subrange(0, i + 1)).last() == parts@[i as int]@);
        if contains_str(parts[i].as_str(), CACHE_MARKER) {
            kept.push(parts[i].clone());
            assert(strings_view(kept@) =~= cache_entries(pre).push(parts@[i as int]@));
        }
        i += 1;
    }
    assert(parts@.subrange(0, i as int) =~= parts@);
    proof {
        reveal_strlit(":");
    }
    assert(":"@ =~= seq![PATH_SEPARATOR]);
    join_strings(&kept, ":")
}

/// The file that holds the current session: `session_cache` when it is not
/// empty, else the first of `sources`, else nothing.
pub fn current_session(session_cache: &str, sources: &Vec<String>) -> (r: String)
    ensures
        r@ == current_session_spec(session_cache@, strings_view(sources@)),
{
    if !session_cache.is_empty() {
        session_cache.to_owned()
    } else if sources.len() > 0 {
        sources[0].clone()
    } else {
        String::new()
    }
}

/// The paths to load, in order and without repeats: the entries of
/// `current` first (a value of the search variable, when given), then
/// `sources`. Empty entries are left out.
pub fn session_paths(current: Option<&str>, sources: Vec<String>) -> (r: Vec<String>)
    ensures
        strings_view(r@) == session_paths_spec(
            match current {
                Some(c) => Some(c@),
                None => None,
            },
            strings_view(sources@),
        ),
{
    let mut parts = match current {
        Some(c) => split_on_char(c, PATH_SEPARATOR),
        None => Vec::new(),
    };
    let ghost first = parts@;
    let mut rest = sources;
    let ghost rest0 = rest@;
    parts.append(&mut rest);
    assert(strings_view(parts@) =~= strings_view(first) + strings_view(rest0));
    proof {
        if current is None {
            assert(strings_view(parts@) =~= strings_view(rest0));
        }
    }
    let mut kept: Vec<String> = Vec::new();
    let mut i: usize = 0;
    assert(strings_view(parts@.subrange(0, 0)) =~= Seq::<Seq<char>>::empty());
    while i < parts.len()
        invariant
            i <= parts@.len(),
            strings_view(kept@) == nonempty_entries(strings_view(parts@.subrange(0, i as int))),
        decreases parts.len() - i,
    {
        let ghost pre = strings_view(parts@.subrange(0, i as int));
        assert(strings_view(parts@.subrange(0, i + 1)).drop_last() =~= pre);
        assert(strings_view(parts@.subrange(0, i + 1)).last() == parts@[i as int]@);
        if !parts[i].as_str().is_empty() {
            kept.push(parts[i].clone());
            assert(strings_view(kept@) =~= nonempty_entries(pre).push(parts@[i as int]@));
        }
        i += 1;
    }
    assert(parts@.subrange(0, i as int) =~= parts@);
    dedup_strings(kept)
}

} // verus!
