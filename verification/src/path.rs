//! Paths as byte strings, and the boundary of the served directory.
//!
//! A selector names a file below the served directory. The caller makes the
//! path that [`candidate_path`] gives canonical on the file system, and
//! [`resolve_path`] lets the canonical path through only if it still lies
//! below the root. Both work on the components of a path, so that
//! `/srv/gopherhole` is not taken to lie below `/srv/gopher`.

use vstd::prelude::*;
use vstd::slice::slice_subrange;
use vstd::slice::slice_to_vec;
use crate::bytes::append_bytes;
use crate::bytes::same_bytes;
use crate::error::GopherError;
use crate::error::outcome_view;

verus! {

/// The byte that separates the components of a path, `/`.
pub const SEPARATOR: u8 = 47;

/// The byte `.`, of which the components `.` and `..` are made.
pub const DOT: u8 = 46;

/// Whether the path starts at the root of the file system.
pub open spec fn is_absolute(path: Seq<u8>) -> bool {
    path.len() > 0 && path[0] == SEPARATOR
}

/// The number of bytes before the first separator, or the length of the path
/// if it has none.
pub open spec fn run_len(path: Seq<u8>) -> nat
    decreases path.len(),
{
    if path.len() == 0 || path[0] == SEPARATOR {
        0
    } else {
        1 + run_len(path.skip(1))
    }
}

/// The components of a path: its longest runs of bytes other than the
/// separator, in their order.
///
/// The first run of a path that starts with none of its separators is never
/// empty and never longer than the path (`lemma_components_unfold`); the test
/// on its length only serves to show that the definition ends.
pub open spec fn components(path: Seq<u8>) -> Seq<Seq<u8>>
    decreases path.len(),
{
    if path.len() == 0 {
        Seq::empty()
    } else if path[0] == SEPARATOR {
        components(path.skip(1))
    } else {
        let n = run_len(path) as int;
        if 0 < n <= path.len() {
            seq![path.take(n)] + components(path.skip(n))
        } else {
            Seq::empty()
        }
    }
}

/// Whether a component is `.` or `..`, which a canonical path never holds.
pub open spec fn is_dot_component(component: Seq<u8>) -> bool {
    ||| component == seq![DOT]
    ||| component == seq![DOT, DOT]
}

/// Whether no component of the path is `.` or `..`.
pub open spec fn is_normal(path: Seq<u8>) -> bool {
    forall|i: int|
        0 <= i < components(path).len() ==> !is_dot_component(#[trigger] components(path)[i])
}

/// Whether `path` lies in the directory `root` or is `root` itself: both start
/// alike, the components of `root` are the first components of `path`, and
/// `path` steps neither up nor in place.
pub open spec fn is_confined(root: Seq<u8>, path: Seq<u8>) -> bool {
    &&& is_absolute(root) == is_absolute(path)
    &&& components(root).is_prefix_of(components(path))
    &&& is_normal(path)
}

/// The selector without the separators it starts with.
pub open spec fn strip_leading(selector: Seq<u8>) -> Seq<u8>
    decreases selector.len(),
{
    if selector.len() > 0 && selector[0] == SEPARATOR {
        strip_leading(selector.skip(1))
    } else {
        selector
    }
}

/// Whether a separator has to stand between `root` and what is joined to it.
pub open spec fn needs_separator(root: Seq<u8>) -> bool {
    root.len() > 0 && root.last() != SEPARATOR
}

/// The path that a selector names below `root`: the selector is joined to the
/// root as a relative path, whatever separators it starts with.
pub open spec fn candidate(root: Seq<u8>, selector: Seq<u8>) -> Seq<u8> {
    if needs_separator(root) {
        root + seq![SEPARATOR] + strip_leading(selector)
    } else {
        root + strip_leading(selector)
    }
}

/// What becomes of the canonical form of a candidate: a failure to make it
/// canonical stays as it is, a canonical path confined to `root` is let
/// through unchanged, and any other is refused.
pub open spec fn resolved(root: Seq<u8>, canonical: Result<Seq<u8>, GopherError>) -> Result<
    Seq<u8>,
    GopherError,
> {
    match canonical {
        Err(error) => Err(error),
        Ok(path) => if is_confined(root, path) {
            Ok(path)
        } else {
            Err(GopherError::PermissionDenied)
        },
    }
}

/// The run of bytes before the first separator is within the path, holds no
/// separator, and ends at a separator or at the end.
pub proof fn lemma_run_len_bounds(path: Seq<u8>)
    ensures
        run_len(path) <= path.len(),
        forall|i: int| 0 <= i < run_len(path) ==> path[i] != SEPARATOR,
        run_len(path) < path.len() ==> path[run_len(path) as int] == SEPARATOR,
        path.len() > 0 && path[0] != SEPARATOR ==> run_len(path) > 0,
    decreases path.len(),
{
    if path.len() > 0 && path[0] != SEPARATOR {
        lemma_run_len_bounds(path.skip(1));
        assert forall|i: int| 0 <= i < run_len(path) implies path[i] != SEPARATOR by {
            if i > 0 {
                assert(path[i] == path.skip(1)[i - 1]);
            }
        }
        if run_len(path) < path.len() {
            assert(path[run_len(path) as int] == path.skip(1)[run_len(path.skip(1)) as int]);
        }
    }
}

/// A run without a separator that ends at a separator or at the end is the
/// first run.
pub proof fn lemma_run_len_is(path: Seq<u8>, k: int)
    requires
        0 <= k <= path.len(),
        forall|i: int| 0 <= i < k ==> path[i] != SEPARATOR,
        k < path.len() ==> path[k] == SEPARATOR,
    ensures
        run_len(path) == k,
    decreases path.len(),
{
    if k > 0 {
        let rest = path.skip(1);
        assert forall|i: int| 0 <= i < k - 1 implies rest[i] != SEPARATOR by {
            assert(rest[i] == path[i + 1]);
        }
        if k - 1 < rest.len() {
            assert(rest[k - 1] == path[k]);
        }
        lemma_run_len_is(rest, k - 1);
    }
}

/// The components of a path that starts with a component: that component,
/// followed by those of the rest.
pub proof fn lemma_components_unfold(path: Seq<u8>)
    requires
        path.len() > 0,
        path[0] != SEPARATOR,
    ensures
        0 < run_len(path) <= path.len(),
        components(path) == seq![path.take(run_len(path) as int)] + components(
            path.skip(run_len(path) as int),
        ),
{
    lemma_run_len_bounds(path);
}

/// No component is empty, and none holds a separator.
pub proof fn lemma_components_are_runs(path: Seq<u8>)
    ensures
        forall|i: int|
            0 <= i < components(path).len() ==> (#[trigger] components(path)[i]).len() > 0,
        forall|i: int, j: int|
            0 <= i < components(path).len() && 0 <= j < components(path)[i].len() ==> (
            #[trigger] components(path)[i][j]) != SEPARATOR,
    decreases path.len(),
{
    if path.len() == 0 {
        assert(components(path).len() == 0);
    } else if path[0] == SEPARATOR {
        lemma_components_are_runs(path.skip(1));
        assert(components(path) == components(path.skip(1)));
    } else {
        lemma_components_unfold(path);
        lemma_run_len_bounds(path);
        let n = run_len(path) as int;
        let head = path.take(n);
        let tail = components(path.skip(n));
        lemma_components_are_runs(path.skip(n));
        assert(components(path) == seq![head] + tail);
        assert forall|i: int| 0 <= i < components(path).len() implies (#[trigger] components(
            path,
        )[i]).len() > 0 by {
            if i > 0 {
                assert(components(path)[i] == tail[i - 1]);
            } else {
                assert(components(path)[0] == head);
            }
        }
        assert forall|i: int, j: int|
            0 <= i < components(path).len() && 0 <= j < components(path)[i].len() implies (
        #[trigger] components(path)[i][j]) != SEPARATOR by {
            if i > 0 {
                assert(components(path)[i] == tail[i - 1]);
            } else {
                assert(components(path)[0] == head);
                assert(head[j] == path[j]);
            }
        }
    }
}

/// Where two paths meet at a separator, or one of them is empty, the
/// components of the whole are those of the first followed by those of the
/// second.
pub proof fn lemma_components_join(first: Seq<u8>, second: Seq<u8>)
    requires
        first.len() == 0 || first.last() == SEPARATOR || second.len() == 0 || second[0]
            == SEPARATOR,
    ensures
        components(first + second) == components(first) + components(second),
    decreases first.len(),
{
    let whole = first + second;
    if first.len() == 0 {
        assert(whole == second);
        assert(components(first) + components(second) == components(second));
    } else if first[0] == SEPARATOR {
        assert(whole.skip(1) == first.skip(1) + second);
        if first.skip(1).len() > 0 {
            assert(first.skip(1).last() == first.last());
        }
        lemma_components_join(first.skip(1), second);
    } else {
        lemma_run_len_bounds(first);
        let n = run_len(first) as int;
        assert(run_len(whole) == n) by {
            assert forall|i: int| 0 <= i < n implies whole[i] != SEPARATOR by {
                assert(whole[i] == first[i]);
            }
            if n < first.len() {
                assert(whole[n] == first[n]);
            } else if second.len() > 0 {
                assert(first.last() == first[n - 1]);
                assert(whole[n] == second[0]);
            }
            lemma_run_len_is(whole, n);
        }
        lemma_components_unfold(first);
        lemma_components_unfold(whole);
        assert(whole.take(n) == first.take(n));
        assert(whole.skip(n) == first.skip(n) + second);
        if first.skip(n).len() > 0 {
            assert(first.skip(n).last() == first.last());
        }
        lemma_components_join(first.skip(n), second);
        assert(seq![first.take(n)] + (components(first.skip(n)) + components(second)) == (
        seq![first.take(n)] + components(first.skip(n))) + components(second));
    }
}

/// The separators that a selector starts with add no component, and what is
/// left starts with none.
pub proof fn lemma_strip_leading(selector: Seq<u8>)
    ensures
        components(strip_leading(selector)) == components(selector),
        !is_absolute(strip_leading(selector)),
    decreases selector.len(),
{
    if selector.len() > 0 && selector[0] == SEPARATOR {
        lemma_strip_leading(selector.skip(1));
    }
}

/// A selector cannot name its way out of the root by its own form of an
/// address: the candidate starts as the root does, and its components are
/// those of the root followed by those of the selector. Only a step up, or a
/// link on the file system, can lead out, and the canonical form shows both.
pub proof fn lemma_candidate_is_below_root(root: Seq<u8>, selector: Seq<u8>)
    ensures
        components(candidate(root, selector)) == components(root) + components(selector),
        components(root).is_prefix_of(components(candidate(root, selector))),
        is_absolute(candidate(root, selector)) == is_absolute(root),
{
    let rest = strip_leading(selector);
    lemma_strip_leading(selector);
    if needs_separator(root) {
        let bar = seq![SEPARATOR];
        assert(bar.skip(1) == Seq::<u8>::empty());
        assert(components(bar) == Seq::<Seq<u8>>::empty()) by {
            assert(components(bar) == components(bar.skip(1)));
        }
        lemma_components_join(root, bar);
        assert(components(root + bar) == components(root));
        assert((root + bar).last() == SEPARATOR);
        lemma_components_join(root + bar, rest);
    } else {
        lemma_components_join(root, rest);
        if root.len() == 0 {
            assert(root + rest == rest);
        }
    }
    let joined = components(root) + components(selector);
    assert(joined.subrange(0, components(root).len() as int) == components(root));
}

/// Round trip: let `file` be the canonical path of a file below `root`, and
/// `selector` the path from `root` to it. The candidate of the selector has
/// the components of `file`, so it names that file, and the canonical path
/// comes back as it went in: what is read is the file that the selector
/// names.
pub proof fn lemma_round_trip(root: Seq<u8>, selector: Seq<u8>, file: Seq<u8>)
    requires
        is_confined(root, file),
        components(file) == components(root) + components(selector),
    ensures
        components(candidate(root, selector)) == components(file),
        is_absolute(candidate(root, selector)) == is_absolute(file),
        resolved(root, Ok(file)) == Ok::<Seq<u8>, GopherError>(file),
{
    lemma_candidate_is_below_root(root, selector);
}

/// Whatever the selector and whatever the file system made of it, a path that
/// is let through lies below the root, and the only refusal that the boundary
/// adds is `PermissionDenied`.
pub proof fn lemma_resolved_never_escapes(root: Seq<u8>, canonical: Result<Seq<u8>, GopherError>)
    ensures
        resolved(root, canonical) matches Ok(path) ==> canonical == Ok::<Seq<u8>, GopherError>(
            path,
        ) && is_confined(root, path) && components(root).is_prefix_of(components(path)),
        resolved(root, canonical) matches Err(error) ==> canonical == Err::<
            Seq<u8>,
            GopherError,
        >(error) || (canonical is Ok && error == GopherError::PermissionDenied),
{
}

/// The views of the components held in `parts`.
pub open spec fn part_views(parts: Seq<Vec<u8>>) -> Seq<Seq<u8>> {
    Seq::new(parts.len(), |i: int| parts[i]@)
}

/// Finds the first component of `path` at or after `from`: `None` if only
/// separators are left, else where the component starts and where it ends.
pub fn next_component(path: &[u8], from: usize) -> (found: Option<(usize, usize)>)
    requires
        from <= path@.len(),
    ensures
        found is None ==> components(path@.skip(from as int)) == Seq::<Seq<u8>>::empty(),
        found matches Some((start, end)) ==> {
            &&& from <= start < end <= path@.len()
            &&& components(path@.skip(from as int)) == seq![
                path@.subrange(start as int, end as int),
            ] + components(path@.skip(end as int))
        },
{
    let len: usize = path.len();
    let mut start: usize = from;
    while start < len && path[start] == SEPARATOR
        invariant
            from <= start <= len,
            len == path@.len(),
            components(path@.skip(start as int)) == components(path@.skip(from as int)),
        decreases len - start,
    {
        proof {
            let here = path@.skip(start as int);
            assert(here[0] == path@[start as int]);
            assert(here.skip(1) == path@.skip(start + 1));
        }
        start = start + 1;
    }
    if start == len {
        assert(path@.skip(start as int).len() == 0);
        return None;
    }
    let mut end: usize = start + 1;
    while end < len && path[end] != SEPARATOR
        invariant
            start < end <= len,
            len == path@.len(),
            forall|i: int| start <= i < end ==> path@[i] != SEPARATOR,
        decreases len - end,
    {
        end = end + 1;
    }
    proof {
        let here = path@.skip(start as int);
        let n = end - start;
        assert forall|i: int| 0 <= i < n implies here[i] != SEPARATOR by {
            assert(here[i] == path@[start + i]);
        }
        if n < here.len() {
            assert(here[n] == path@[end as int]);
        }
        lemma_run_len_is(here, n);
        assert(here[0] == path@[start as int]);
        lemma_components_unfold(here);
        assert(here.take(n) == path@.subrange(start as int, end as int));
        assert(here.skip(n) == path@.skip(end as int));
    }
    Some((start, end))
}

/// Splits a path into its components.
pub fn split_components(path: &[u8]) -> (parts: Vec<Vec<u8>>)
    ensures
        part_views(parts@) == components(path@),
{
    let mut parts: Vec<Vec<u8>> = Vec::new();
    let mut from: usize = 0;
    assert(path@.skip(0) == path@);
    assert(part_views(parts@) == Seq::<Seq<u8>>::empty());
    loop
        invariant
            from <= path@.len(),
            components(path@) == part_views(parts@) + components(path@.skip(from as int)),
        ensures
            part_views(parts@) == components(path@),
        decreases path@.len() - from,
    {
        match next_component(path, from) {
            None => {
                assert(part_views(parts@) + Seq::<Seq<u8>>::empty() == part_views(parts@));
                break ;
            },
            Some((start, end)) => {
                let part: Vec<u8> = slice_to_vec(slice_subrange(path, start, end));
                let ghost before = parts@;
                parts.push(part);
                proof {
                    let piece = path@.subrange(start as int, end as int);
                    assert(part_views(parts@) == part_views(before) + seq![piece]);
                    assert((part_views(before) + seq![piece]) + components(path@.skip(end as int))
                        == part_views(before) + (seq![piece] + components(
                        path@.skip(end as int),
                    )));
                }
                from = end;
            },
        }
    }
    parts
}

/// Whether a component is `.` or `..`.
pub fn dot_component(component: &[u8]) -> (dot: bool)
    ensures
        dot == is_dot_component(component@),
{
    if component.len() == 1 {
        let dot: bool = component[0] == DOT;
        assert(dot ==> component@ =~= seq![DOT]);
        assert(!dot ==> component@[0] != seq![DOT][0]);
        dot
    } else if component.len() == 2 {
        let dot: bool = component[0] == DOT && component[1] == DOT;
        assert(dot ==> component@ =~= seq![DOT, DOT]);
        assert(!dot ==> component@[0] != seq![DOT, DOT][0] || component@[1] != seq![DOT, DOT][1]);
        dot
    } else {
        assert(seq![DOT].len() == 1);
        assert(seq![DOT, DOT].len() == 2);
        false
    }
}

/// Whether `path` lies in the directory `root` or is `root` itself.
pub fn confined(root: &[u8], path: &[u8]) -> (inside: bool)
    ensures
        inside == is_confined(root@, path@),
{
    let root_absolute: bool = root.len() > 0 && root[0] == SEPARATOR;
    let path_absolute: bool = path.len() > 0 && path[0] == SEPARATOR;
    if root_absolute != path_absolute {
        return false;
    }
    let root_parts: Vec<Vec<u8>> = split_components(root);
    let path_parts: Vec<Vec<u8>> = split_components(path);
    if root_parts.len() > path_parts.len() {
        return false;
    }
    let ghost root_views = components(root@);
    let ghost path_views = components(path@);
    let mut i: usize = 0;
    while i < path_parts.len()
        invariant
            i <= path_parts@.len(),
            root_parts@.len() <= path_parts@.len(),
            root_views == components(root@),
            path_views == components(path@),
            part_views(root_parts@) == root_views,
            part_views(path_parts@) == path_views,
            is_absolute(root@) == is_absolute(path@),
            forall|k: int| 0 <= k < i && k < root_views.len() ==> root_views[k] == path_views[k],
            forall|k: int| 0 <= k < i ==> !is_dot_component(#[trigger] path_views[k]),
        decreases path_parts@.len() - i,
    {
        assert(path_views[i as int] == path_parts@[i as int]@);
        if dot_component(path_parts[i].as_slice()) {
            assert(is_dot_component(components(path@)[i as int]));
            return false;
        }
        if i < root_parts.len() {
            assert(root_views[i as int] == root_parts@[i as int]@);
            if !same_bytes(root_parts[i].as_slice(), path_parts[i].as_slice()) {
                assert(components(path@).subrange(0, components(root@).len() as int)[i as int]
                    == components(path@)[i as int]);
                assert(components(root@)[i as int] != components(path@)[i as int]);
                return false;
            }
        }
        i = i + 1;
    }
    assert(root_views =~= path_views.subrange(0, root_views.len() as int));
    true
}

/// The path that `selector` names below `root`, which the caller is to make
/// canonical. Separators at the start of the selector are dropped, so that
/// the selector is never read as an address of its own.
pub fn candidate_path(root: &[u8], selector: &[u8]) -> (path: Vec<u8>)
    ensures
        path@ == candidate(root@, selector@),
{
    let mut start: usize = 0;
    assert(selector@.skip(0) == selector@);
    while start < selector.len() && selector[start] == SEPARATOR
        invariant
            start <= selector@.len(),
            strip_leading(selector@.skip(start as int)) == strip_leading(selector@),
        decreases selector@.len() - start,
    {
        proof {
            let here = selector@.skip(start as int);
            assert(here[0] == selector@[start as int]);
            assert(here.skip(1) == selector@.skip(start + 1));
        }
        start = start + 1;
    }
    proof {
        let here = selector@.skip(start as int);
        if start < selector@.len() {
            assert(here[0] == selector@[start as int]);
        }
        assert(strip_leading(here) == here);
    }
    let mut path: Vec<u8> = Vec::new();
    append_bytes(&mut path, root);
    assert(path@ == root@);
    if root.len() > 0 && root[root.len() - 1] != SEPARATOR {
        path.push(SEPARATOR);
        assert(path@ == root@ + seq![SEPARATOR]);
    }
    append_bytes(&mut path, slice_subrange(selector, start, selector.len()));
    path
}

/// Confines the canonical form of a candidate to `root`.
///
/// `canonical` is what making the candidate canonical gave: the path with
/// every link followed and every step up taken, or the failure to find it. A
/// failure is handed on unchanged. A path is handed on unchanged if it lies
/// below `root`, and is answered with `PermissionDenied` if it does not.
pub fn resolve_path(root: &[u8], canonical: Result<Vec<u8>, GopherError>) -> (path: Result<
    Vec<u8>,
    GopherError,
>)
    ensures
        outcome_view(path) == resolved(root@, outcome_view(canonical)),
        outcome_view(path) matches Ok(inside) ==> is_confined(root@, inside),
{
    match canonical {
        Err(error) => Err(error),
        Ok(found) => {
            if confined(root, found.as_slice()) {
                Ok(found)
            } else {
                Err(GopherError::PermissionDenied)
            }
        },
    }
}

} // verus!
