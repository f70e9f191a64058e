//! Paths as character sequences, and how a relative name is joined to a base.

use vstd::prelude::*;

verus! {

/// The separator between the components of a path.
pub open spec fn separator() -> char {
    '/'
}

/// A path is absolute when it starts at the file system's root.
pub open spec fn is_absolute(path: Seq<char>) -> bool {
    path.len() > 0 && path[0] == separator()
}

/// Whether a separator has to be written between `base` and what follows it.
pub open spec fn needs_separator(base: Seq<char>) -> bool {
    base.len() > 0 && base.last() != separator()
}

/// `name` joined to `base`: an absolute `name` stands for itself; any other
/// is appended to `base`, after one separator unless `base` is empty or
/// already ends in one.
pub open spec fn joined(base: Seq<char>, name: Seq<char>) -> Seq<char> {
    if is_absolute(name) {
        name
    } else if needs_separator(base) {
        base + seq![separator()] + name
    } else {
        base + name
    }
}

/// Tells whether `path` is absolute.
pub fn starts_at_root(path: &str) -> (r: bool)
    ensures
        r == is_absolute(path@),
{
    path.unicode_len() > 0 && path.get_char(0) == '/'
}

/// Joins `name` to `base`.
pub fn join(base: &str, name: &str) -> (r: String)
    ensures
        r@ == joined(base@, name@),
{
    if starts_at_root(name) {
        return String::from_str(name);
    }
    let len: usize = base.unicode_len();
    let mut out = String::from_str(base);
    if len > 0 && base.get_char(len - 1) != '/' {
        proof {
            reveal_strlit("/");
            assert("/"@ =~= seq![separator()]);
        }
        out.append("/");
    }
    out.append(name);
    out
}

/// Joining a relative name keeps an absolute base absolute.
pub proof fn lemma_joined_absolute(base: Seq<char>, name: Seq<char>)
    requires
        is_absolute(base),
    ensures
        is_absolute(joined(base, name)),
{
}

/// Joining two relative names one after the other is joining their own
/// join, as long as the first of them is not empty.
pub proof fn lemma_joined_nested(base: Seq<char>, first: Seq<char>, second: Seq<char>)
    requires
        !is_absolute(first),
        !is_absolute(second),
        first.len() > 0,
    ensures
        joined(joined(base, first), second) == joined(base, joined(first, second)),
{
    let inner = joined(first, second);
    assert(inner.len() > 0 && inner[0] == first[0]);
    assert(!is_absolute(inner));
    let step = joined(base, first);
    assert(step.len() > 0 && step.last() == first.last());
    assert(needs_separator(step) == needs_separator(first));
    assert(joined(step, second) =~= joined(base, inner));
}

} // verus!
