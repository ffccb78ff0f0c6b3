//! Unix paths, kept as text.

use crate::text::{chars_of, find_char, first_at, same_text, string_of, texts};
use vstd::prelude::*;
use vstd::slice::slice_subrange;

verus! {

/// A path with another one below it. An absolute one stands for itself.
pub open spec fn joined(base: Seq<char>, part: Seq<char>) -> Seq<char> {
    if part.len() > 0 && part[0] == '/' {
        part
    } else if base.len() == 0 || base.last() == '/' {
        base + part
    } else {
        base.push('/') + part
    }
}

pub fn join_path(base: &str, part: &str) -> (path: String)
    ensures
        path@ == joined(base@, part@),
{
    let head = chars_of(base);
    let tail = chars_of(part);
    if tail.len() > 0 && tail[0] == '/' {
        return part.to_owned();
    }
    let mut path = base.to_owned();
    if head.len() > 0 && head[head.len() - 1] != '/' {
        path.push('/');
    }
    path.append(part);
    path
}

/// The names on a path, without the empty ones and the dots.
pub open spec fn path_names(p: Seq<char>) -> Seq<Seq<char>>
    decreases p.len(),
{
    let k = first_at(p, '/', 0);
    if p.len() == 0 || k < 0 {
        Seq::empty()
    } else {
        let name = p.take(k);
        let rest = if k < p.len() {
            path_names(p.skip(k + 1))
        } else {
            Seq::empty()
        };
        if name.len() == 0 || name == seq!['.'] {
            rest
        } else {
            seq![name] + rest
        }
    }
}

/// Does a path begin at the root?
pub open spec fn is_rooted(p: Seq<char>) -> bool {
    p.len() > 0 && p[0] == '/'
}

/// Does a path begin with a dot of its own?
pub open spec fn is_dotted(p: Seq<char>) -> bool {
    p.len() > 0 && p[0] == '.' && (p.len() == 1 || p[1] == '/')
}

/// Are two paths the same, component by component? Repeated and trailing
/// slashes do not count, nor do dots except at the beginning.
pub open spec fn same_path(a: Seq<char>, b: Seq<char>) -> bool {
    is_rooted(a) == is_rooted(b) && is_dotted(a) == is_dotted(b) && path_names(a) == path_names(b)
}

fn names_of(chars: &[char]) -> (names: Vec<String>)
    ensures
        texts(names@) == path_names(chars@),
{
    let mut names: Vec<String> = Vec::new();
    let mut start: usize = 0;
    assert(chars@.skip(0) =~= chars@);
    assert(texts(names@) + path_names(chars@) =~= path_names(chars@));
    while start < chars.len()
        invariant
            start <= chars@.len(),
            texts(names@) + path_names(chars@.skip(start as int)) == path_names(chars@),
        decreases chars@.len() - start,
    {
        let rest = slice_subrange(chars, start, chars.len());
        assert(rest@ =~= chars@.skip(start as int));
        let k = find_char(rest, '/', 0);
        let name = slice_subrange(rest, 0, k);
        assert(name@ =~= rest@.take(k as int));
        let ghost before = names@;
        if !(name.len() == 0 || (name.len() == 1 && name[0] == '.')) {
            names.push(string_of(name));
            assert(texts(names@) =~= texts(before).push(name@));
            assert(name@ != seq!['.']);
        } else {
            if name.len() == 1 {
                assert(name@ =~= seq!['.']);
            }
        }
        let ghost tail = if k < rest@.len() {
            path_names(rest@.skip(k + 1))
        } else {
            Seq::empty()
        };
        assert(texts(names@) + tail =~= texts(before) + path_names(rest@));
        if k == rest.len() {
            assert(texts(names@) + tail =~= texts(names@));
            return names;
        }
        assert(rest@.skip(k + 1) =~= chars@.skip(start + k + 1));
        start = start + k + 1;
    }
    assert(path_names(chars@.skip(start as int)) =~= Seq::empty());
    assert(texts(names@) + path_names(chars@.skip(start as int)) =~= texts(names@));
    names
}

fn same_list(a: &Vec<String>, b: &Vec<String>) -> (same: bool)
    ensures
        same == (texts(a@) == texts(b@)),
{
    if a.len() != b.len() {
        assert(texts(a@).len() != texts(b@).len());
        return false;
    }
    let mut i: usize = 0;
    while i < a.len()
        invariant
            i <= a@.len(),
            a@.len() == b@.len(),
            forall|j: int| 0 <= j < i ==> (#[trigger] a@[j])@ == b@[j]@,
        decreases a@.len() - i,
    {
        if !same_text(a[i].as_str(), b[i].as_str()) {
            assert(texts(a@)[i as int] != texts(b@)[i as int]);
            return false;
        }
        i += 1;
    }
    assert(texts(a@) =~= texts(b@));
    true
}

/// Are two paths the same?
pub fn paths_equal(a: &str, b: &str) -> (same: bool)
    ensures
        same == same_path(a@, b@),
{
    let x = chars_of(a);
    let y = chars_of(b);
    let rooted: bool = x.len() > 0 && x[0] == '/';
    let rooted2: bool = y.len() > 0 && y[0] == '/';
    let dotted: bool = x.len() > 0 && x[0] == '.' && (x.len() == 1 || x[1] == '/');
    let dotted2: bool = y.len() > 0 && y[0] == '.' && (y.len() == 1 || y[1] == '/');
    rooted == rooted2 && dotted == dotted2 && same_list(
        &names_of(x.as_slice()),
        &names_of(y.as_slice()),
    )
}

} // verus!
