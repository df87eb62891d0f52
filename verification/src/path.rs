use std::path::Path;
use vstd::prelude::*;

verus! {

/// A single relative path component: not empty, not `.` or `..`, and free of
/// the characters that separate components or start a drive prefix.
pub open spec fn is_plain_component(component: Seq<char>) -> bool {
    &&& component.len() > 0
    &&& component != seq!['.']
    &&& component != seq!['.', '.']
    &&& forall|i: int|
        0 <= i < component.len() ==> {
            let c = #[trigger] component[i];
            c != '/' && c != '\\' && c != ':'
        }
}

/// Names the path that std's `Path::join` makes of a base directory and a
/// relative component.
pub uninterp spec fn joined_path(base: Seq<char>, component: Seq<char>) -> Seq<char>;

/// `path` ends with `component`, and when `base` is not empty and does not end
/// with `/`, `\` or `:`, a `/` or `\` stands right before the component.
pub open spec fn ends_with_component(base: Seq<char>, component: Seq<char>, path: Seq<char>) -> bool {
    &&& path.len() >= component.len()
    &&& path.subrange(path.len() - component.len(), path.len() as int) == component
    &&& (base.len() > 0 && base.last() != '/' && base.last() != '\\' && base.last() != ':') ==> {
        &&& path.len() > component.len()
        &&& path[path.len() - component.len() - 1] == '/' || path[path.len() - component.len()
            - 1] == '\\'
    }
}

/// `base` starts with the Windows verbatim prefix `\\?\`, after which std
/// rebuilds the path rather than extending it.
pub open spec fn has_verbatim_prefix(base: Seq<char>) -> bool {
    base.len() >= 4 && base[0] == '\\' && base[1] == '\\' && base[2] == '?' && base[3] == '\\'
}

/// `path` is `base` extended by `component`, with at most one `/` or `\`
/// between them.
pub open spec fn extends_with_component(base: Seq<char>, component: Seq<char>, path: Seq<char>) -> bool {
    ||| path == base + component
    ||| path == base + seq!['/'] + component
    ||| path == base + seq!['\\'] + component
}

/// Adjoins a relative component to a directory with std's `Path::join`.
///
/// Trusted: the result is named `joined_path` of the two arguments (within
/// one build, `join` depends on nothing else). Of it, only what std's
/// documentation of `PathBuf::push` gives on every platform is claimed: the
/// pushed relative component ends the path, after a separator that is added
/// when the base does not already end with one; and, unless the base has a
/// Windows verbatim prefix (which `push` rebuilds and normalizes), the path
/// is the base extended by the component. Which separator, and whether a
/// base ending in a drive prefix (`C:`) gets one, is left unsaid; so is how a
/// verbatim base is normalized.
#[verifier::external_body]
pub(crate) fn join_component(base: &str, component: &str) -> (joined: String)
    requires
        is_plain_component(component@),
    ensures
        joined@ == joined_path(base@, component@),
        ends_with_component(base@, component@, joined@),
        !has_verbatim_prefix(base@) ==> extends_with_component(base@, component@, joined@),
{
    Path::new(base).join(component).to_string_lossy().into_owned()
}

/// Two components of one length, each ending its own path, give the same
/// path only when they are the same component.
pub proof fn lemma_joined_distinct(
    base: Seq<char>,
    c1: Seq<char>,
    c2: Seq<char>,
    p1: Seq<char>,
    p2: Seq<char>,
)
    requires
        ends_with_component(base, c1, p1),
        ends_with_component(base, c2, p2),
        c1.len() == c2.len(),
        c1 != c2,
    ensures
        p1 != p2,
{
}

} // verus!
