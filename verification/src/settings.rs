use vstd::prelude::*;

use crate::path::{
    ends_with_component, extends_with_component, has_verbatim_prefix, is_plain_component,
    join_component, joined_path,
};

verus! {

/// The directory that the cache lives in when no other is configured,
/// under the user's home directory.
pub open spec fn default_dir_name() -> Seq<char> {
    seq!['.', 'r', 'u', 's', 't', '-', 'c', 'u', 'd', 'a', '-', 'c', 'a', 'c', 'h', 'e']
}

/// The characters of an optional string.
pub open spec fn opt_chars(o: Option<String>) -> Option<Seq<char>> {
    match o {
        Some(s) => Some(s@),
        None => None,
    }
}

/// The characters of an optional string slice.
pub open spec fn opt_str_chars(o: Option<&str>) -> Option<Seq<char>> {
    match o {
        Some(s) => Some(s@),
        None => None,
    }
}

/// Caching is on unless the disabling variable is set to exactly `1`.
pub open spec fn spec_caching_enabled(disable_var: Option<Seq<char>>) -> bool {
    disable_var != Some(seq!['1'])
}

/// The directory that `home_dir` is taken from: `HOME`, else `USERPROFILE`,
/// else the current directory `.`.
pub open spec fn home_base(home: Option<Seq<char>>, userprofile: Option<Seq<char>>) -> Seq<char> {
    match home {
        Some(h) => h,
        None => match userprofile {
            Some(u) => u,
            None => seq!['.'],
        },
    }
}

/// The cache directory: the one the cache variable names, else
/// `.rust-cuda-cache` joined to the home base.
pub open spec fn is_cache_root(
    cache_var: Option<Seq<char>>,
    home: Option<Seq<char>>,
    userprofile: Option<Seq<char>>,
    dir: Seq<char>,
) -> bool {
    match cache_var {
        Some(d) => dir == d,
        None => {
            &&& dir == joined_path(home_base(home, userprofile), default_dir_name())
            &&& ends_with_component(home_base(home, userprofile), default_dir_name(), dir)
            &&& !has_verbatim_prefix(home_base(home, userprofile)) ==> extends_with_component(
                home_base(home, userprofile),
                default_dir_name(),
                dir,
            )
        },
    }
}

/// The variables determine the cache directory: the library and the `xtask`
/// tool, which both choose it with `cache_root`, agree on it.
pub proof fn lemma_cache_root_unique(
    cache_var: Option<Seq<char>>,
    home: Option<Seq<char>>,
    userprofile: Option<Seq<char>>,
    dir: Seq<char>,
    other_dir: Seq<char>,
)
    requires
        is_cache_root(cache_var, home, userprofile, dir),
        is_cache_root(cache_var, home, userprofile, other_dir),
    ensures
        dir == other_dir,
{
}

/// Only the value `1` of the disabling variable turns caching off; any other
/// value, and no value, leaves it on.
pub proof fn lemma_only_one_disables(value: Seq<char>)
    ensures
        spec_caching_enabled(Some(value)) <==> value != seq!['1'],
        spec_caching_enabled(None),
{
}

/// How the cache directory is chosen: the cache variable's value exactly as
/// given, whatever it is; else `.rust-cuda-cache` joined to `HOME`, else to
/// `USERPROFILE`, else to `.`.
pub proof fn lemma_cache_root_choice(
    cache_var: Option<Seq<char>>,
    home: Option<Seq<char>>,
    userprofile: Option<Seq<char>>,
    dir: Seq<char>,
)
    requires
        is_cache_root(cache_var, home, userprofile, dir),
    ensures
        cache_var matches Some(d) ==> dir == d,
        cache_var is None && home is Some ==> dir == joined_path(home->0, seq!['.', 'r', 'u', 's', 't', '-', 'c', 'u', 'd', 'a', '-', 'c', 'a', 'c', 'h', 'e']),
        cache_var is None && home is None && userprofile is Some ==> dir == joined_path(
            userprofile->0,
            seq!['.', 'r', 'u', 's', 't', '-', 'c', 'u', 'd', 'a', '-', 'c', 'a', 'c', 'h', 'e'],
        ),
        cache_var is None && home is None && userprofile is None ==> dir == joined_path(
            seq!['.'],
            seq!['.', 'r', 'u', 's', 't', '-', 'c', 'u', 'd', 'a', '-', 'c', 'a', 'c', 'h', 'e'],
        ),
{
    assert(default_dir_name() =~= seq!['.', 'r', 'u', 's', 't', '-', 'c', 'u', 'd', 'a', '-', 'c', 'a', 'c', 'h', 'e']);
}

/// Whether caching is on, given the value of `RUST_CUDA_PTX_CACHE_DISABLE`
/// (`None` when it is unset or not Unicode).
pub fn caching_enabled(disable_var: Option<&str>) -> (enabled: bool)
    ensures
        enabled == spec_caching_enabled(opt_str_chars(disable_var)),
        enabled == !(disable_var matches Some(v) && v@ == seq!['1']),
{
    match disable_var {
        None => true,
        Some(v) => {
            let is_one = v.unicode_len() == 1 && v.get_char(0) == '1';
            assert(is_one <==> v@ == seq!['1']) by {
                if v@ == seq!['1'] {
                    assert(v@[0] == '1');
                }
                if is_one {
                    assert(v@ =~= seq!['1']);
                }
            }
            !is_one
        },
    }
}

/// The cache directory, given the values of `RUST_CUDA_PTX_CACHE`, `HOME`
/// and `USERPROFILE` (each `None` when unset or not Unicode).
pub fn cache_root(cache_var: Option<String>, home: Option<String>, userprofile: Option<String>) -> (dir: String)
    ensures
        is_cache_root(
            opt_chars(cache_var),
            opt_chars(home),
            opt_chars(userprofile),
            dir@,
        ),
        cache_var matches Some(d) ==> dir@ == d@,
        cache_var is None && home is Some ==> dir@ == joined_path(home->0@, seq!['.', 'r', 'u', 's', 't', '-', 'c', 'u', 'd', 'a', '-', 'c', 'a', 'c', 'h', 'e']),
        cache_var is None && home is None && userprofile is Some ==> dir@ == joined_path(
            userprofile->0@,
            seq!['.', 'r', 'u', 's', 't', '-', 'c', 'u', 'd', 'a', '-', 'c', 'a', 'c', 'h', 'e'],
        ),
        cache_var is None && home is None && userprofile is None ==> dir@ == joined_path(
            seq!['.'],
            seq!['.', 'r', 'u', 's', 't', '-', 'c', 'u', 'd', 'a', '-', 'c', 'a', 'c', 'h', 'e'],
        ),
{
    match cache_var {
        Some(d) => d,
        None => {
            let base = match home {
                Some(h) => h,
                None => match userprofile {
                    Some(u) => u,
                    None => String::from_str("."),
                },
            };
            proof {
                reveal_strlit(".");
                reveal_strlit(".rust-cuda-cache");
            }
            let name = ".rust-cuda-cache";
            assert(name@ =~= default_dir_name());
            assert(is_plain_component(name@)) by {
                assert(name@ != seq!['.']) by { assert(name@.len() != 1); }
                assert(name@ != seq!['.', '.']) by { assert(name@.len() != 2); }
            }
            assert(base@ == home_base(opt_chars(home), opt_chars(userprofile)));
            join_component(base.as_str(), name)
        },
    }
}

} // verus!
