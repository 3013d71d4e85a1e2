//! String helpers: the few `str` operations of the standard library that the
//! rest of the crate relies on, each with a contract over `Seq<char>`, and the
//! derivation of a crate name from a module path.

use vstd::prelude::*;

verus! {

/// `pat` occurs in `s` starting at position `k`.
pub open spec fn occurs_at(s: Seq<char>, pat: Seq<char>, k: int) -> bool {
    &&& 0 <= k
    &&& k + pat.len() <= s.len()
    &&& s.subrange(k, k + pat.len()) == pat
}

/// The separator between the segments of a module path.
pub open spec fn path_separator() -> Seq<char> {
    seq![':', ':']
}

/// The leading segment of a module path: everything before the first `::`,
/// or the whole path where it holds none.
pub open spec fn crate_name_of(path: Seq<char>) -> Seq<char>
    decreases path.len(),
{
    if path.len() == 0 || occurs_at(path, path_separator(), 0) {
        Seq::empty()
    } else {
        seq![path[0]] + crate_name_of(path.skip(1))
    }
}

/// `s` with every occurrence of the character `from` replaced by the text `to`.
pub open spec fn replace_char(s: Seq<char>, from: char, to: Seq<char>) -> Seq<char>
    decreases s.len(),
{
    if s.len() == 0 {
        s
    } else {
        replace_char(s.drop_last(), from, to) + (if s.last() == from {
            to
        } else {
            seq![s.last()]
        })
    }
}

/// Trusted: `str`'s own `==`. Two string slices are equal exactly when they
/// hold the same characters.
pub assume_specification[ <str as PartialEq>::eq ](a: &str, b: &str) -> (r: bool)
    ensures
        r == (a@ == b@),
;

/// Trusted: `str::split_once` with a string delimiter. On a match the input
/// is `head`, the delimiter, `tail`, and the delimiter occurs nowhere before
/// the end of `head`; without a match the delimiter occurs nowhere.
#[verifier::external_body]
pub(crate) fn split_once<'a>(s: &'a str, delimiter: &str) -> (r: Option<(&'a str, &'a str)>)
    ensures
        match r {
            Some((head, tail)) => {
                &&& s@ == head@ + delimiter@ + tail@
                &&& forall|k: int| 0 <= k < head@.len() ==> !occurs_at(s@, delimiter@, k)
            },
            None => forall|k: int| !occurs_at(s@, delimiter@, k),
        },
{
    s.split_once(delimiter)
}

/// Trusted: `str::strip_prefix` with a string prefix. The rest after the
/// prefix where the input starts with it, `None` where it does not.
#[verifier::external_body]
pub(crate) fn strip_prefix<'a>(s: &'a str, prefix: &str) -> (r: Option<&'a str>)
    ensures
        match r {
            Some(rest) => s@ == prefix@ + rest@,
            None => !prefix@.is_prefix_of(s@),
        },
{
    s.strip_prefix(prefix)
}

/// Trusted: `str::strip_suffix` with a string suffix. The part before the
/// suffix where the input ends with it, `None` where it does not.
#[verifier::external_body]
pub(crate) fn strip_suffix<'a>(s: &'a str, suffix: &str) -> (r: Option<&'a str>)
    ensures
        match r {
            Some(rest) => s@ == rest@ + suffix@,
            None => !suffix@.is_suffix_of(s@),
        },
{
    s.strip_suffix(suffix)
}

/// Trusted: `str::replace` with a character pattern. Every occurrence of
/// `from` is replaced by `to`; all other characters stay in place.
#[verifier::external_body]
pub(crate) fn replace(s: &str, from: char, to: &str) -> (r: String)
    ensures
        r@ == replace_char(s@, from, to@),
{
    s.replace(from, to)
}

/// Whether two string slices hold the same characters.
pub fn str_eq(a: &str, b: &str) -> (r: bool)
    ensures
        r == (a@ == b@),
{
    a.eq(b)
}

/// Without a separator anywhere, the whole path is the crate name.
pub proof fn lemma_crate_name_without_separator(path: Seq<char>)
    requires
        forall|k: int| !occurs_at(path, path_separator(), k),
    ensures
        crate_name_of(path) == path,
    decreases path.len(),
{
    if path.len() > 0 {
        let rest = path.skip(1);
        assert forall|k: int| !occurs_at(rest, path_separator(), k) by {
            if occurs_at(rest, path_separator(), k) {
                assert(rest.subrange(k, k + 2) == path.subrange(k + 1, k + 3));
                assert(occurs_at(path, path_separator(), k + 1));
            }
        }
        lemma_crate_name_without_separator(rest);
        assert(seq![path[0]] + rest == path);
    }
}

/// Where the first separator follows `head`, `head` is the crate name.
pub proof fn lemma_crate_name_before_separator(path: Seq<char>, head: Seq<char>, tail: Seq<char>)
    requires
        path == head + path_separator() + tail,
        forall|k: int| 0 <= k < head.len() ==> !occurs_at(path, path_separator(), k),
    ensures
        crate_name_of(path) == head,
    decreases head.len(),
{
    if head.len() == 0 {
        assert(path.subrange(0, 2) == path_separator());
        assert(occurs_at(path, path_separator(), 0));
        assert(crate_name_of(path) == Seq::<char>::empty());
        assert(head == Seq::<char>::empty());
    } else {
        let rest = path.skip(1);
        let head_rest = head.skip(1);
        assert(!occurs_at(path, path_separator(), 0));
        assert(rest == head_rest + path_separator() + tail);
        assert forall|k: int| 0 <= k < head_rest.len() implies !occurs_at(
            rest,
            path_separator(),
            k,
        ) by {
            if occurs_at(rest, path_separator(), k) {
                assert(rest.subrange(k, k + 2) == path.subrange(k + 1, k + 3));
                assert(occurs_at(path, path_separator(), k + 1));
            }
        }
        lemma_crate_name_before_separator(rest, head_rest, tail);
        assert(seq![path[0]] + head_rest == head);
    }
}

/// The crate name is a prefix of the path and holds no separator; what
/// follows it, if anything, starts with a separator.
pub proof fn lemma_crate_name_is_leading_segment(path: Seq<char>)
    ensures
        crate_name_of(path).is_prefix_of(path),
        forall|k: int| !occurs_at(crate_name_of(path), path_separator(), k),
        crate_name_of(path).len() < path.len() ==> occurs_at(
            path,
            path_separator(),
            crate_name_of(path).len() as int,
        ),
    decreases path.len(),
{
    let name = crate_name_of(path);
    if path.len() == 0 || occurs_at(path, path_separator(), 0) {
        assert(name.len() == 0);
        assert(name =~= path.subrange(0, 0));
    } else {
        let rest = path.skip(1);
        let rest_name = crate_name_of(rest);
        lemma_crate_name_is_leading_segment(rest);
        assert(name == seq![path[0]] + rest_name);
        assert(name =~= path.subrange(0, name.len() as int));
        assert forall|k: int| !occurs_at(name, path_separator(), k) by {
            if occurs_at(name, path_separator(), k) {
                if k == 0 {
                    assert(name.subrange(0, 2) == path.subrange(0, 2));
                    assert(occurs_at(path, path_separator(), 0));
                } else {
                    assert(name.subrange(k, k + 2) == rest_name.subrange(k - 1, k + 1));
                    assert(occurs_at(rest_name, path_separator(), k - 1));
                }
            }
        }
        if name.len() < path.len() {
            let n = rest_name.len() as int;
            assert(occurs_at(rest, path_separator(), n));
            assert(rest.subrange(n, n + 2) == path.subrange(n + 1, n + 3));
        }
    }
}

/// The crate that a module path belongs to: its leading segment.
pub fn calc_crate_name(mod_path: &str) -> (name: &str)
    ensures
        name@ == crate_name_of(mod_path@),
{
    proof {
        reveal_strlit("::");
        assert("::"@ == path_separator());
    }
    match split_once(mod_path, "::") {
        Some((head, tail)) => {
            proof {
                lemma_crate_name_before_separator(mod_path@, head@, tail@);
            }
            head
        },
        None => {
            proof {
                lemma_crate_name_without_separator(mod_path@);
            }
            mod_path
        },
    }
}

} // verus!
