//! Paths as text: the file name is what follows the last `/` or `\`, and its
//! extension is what follows its last `.`, unless that dot opens the name.
use vstd::prelude::*;

use crate::text::push_char;

verus! {

/// Index of the last element of `p` that is `a` or `b`, or -1.
pub open spec fn last_of(p: Seq<char>, a: char, b: char) -> int
    decreases p.len(),
{
    if p.len() == 0 {
        -1
    } else if p.last() == a || p.last() == b {
        p.len() - 1
    } else {
        last_of(p.drop_last(), a, b)
    }
}

pub open spec fn last_separator(p: Seq<char>) -> int {
    last_of(p, '/', '\\')
}

pub open spec fn last_dot(p: Seq<char>) -> int {
    last_of(p, '.', '.')
}

pub open spec fn has_extension(p: Seq<char>) -> bool {
    last_dot(p) > last_separator(p) + 1
}

pub open spec fn extension_of(p: Seq<char>) -> Seq<char> {
    p.subrange(last_dot(p) + 1, p.len() as int)
}

pub open spec fn without_extension(p: Seq<char>) -> Seq<char> {
    if has_extension(p) {
        p.subrange(0, last_dot(p))
    } else {
        p
    }
}

/// `p` with its extension, if any, replaced by `e`.
pub open spec fn with_extension_of(p: Seq<char>, e: Seq<char>) -> Seq<char> {
    without_extension(p) + seq!['.'] + e
}

proof fn lemma_last_of_range(p: Seq<char>, a: char, b: char)
    ensures
        -1 <= last_of(p, a, b) < p.len(),
        last_of(p, a, b) >= 0 ==> (p[last_of(p, a, b)] == a || p[last_of(p, a, b)] == b),
    decreases p.len(),
{
    if p.len() > 0 {
        lemma_last_of_range(p.drop_last(), a, b);
    }
}

fn find_last(p: &str, a: char, b: char) -> (r: Option<usize>)
    ensures
        r is None <==> last_of(p@, a, b) == -1,
        r matches Some(k) ==> k == last_of(p@, a, b),
{
    let n = p.unicode_len();
    let mut found: Option<usize> = None;
    for i in 0..n
        invariant
            n == p@.len(),
            found is None <==> last_of(p@.subrange(0, i as int), a, b) == -1,
            found matches Some(k) ==> k == last_of(p@.subrange(0, i as int), a, b),
    {
        assert(p@.subrange(0, i + 1).drop_last() =~= p@.subrange(0, i as int));
        let c = p.get_char(i);
        if c == a || c == b {
            found = Some(i);
        }
    }
    assert(p@.subrange(0, n as int) =~= p@);
    found
}

/// Position of the dot that opens the extension of `p`, if `p` has one.
fn extension_dot(p: &str) -> (r: Option<usize>)
    ensures
        r is Some <==> has_extension(p@),
        r matches Some(k) ==> k == last_dot(p@) && k < p@.len(),
{
    proof {
        lemma_last_of_range(p@, '.', '.');
        lemma_last_of_range(p@, '/', '\\');
    }
    match find_last(p, '.', '.') {
        None => None,
        Some(d) => match find_last(p, '/', '\\') {
            None => if d > 0 {
                Some(d)
            } else {
                None
            },
            Some(s) => if d > s && d - s > 1 {
                Some(d)
            } else {
                None
            },
        },
    }
}

/// The extension of `path`, without its dot.
pub fn extension(path: &str) -> (r: Option<String>)
    ensures
        r is Some <==> has_extension(path@),
        r matches Some(e) ==> e@ == extension_of(path@),
{
    match extension_dot(path) {
        None => None,
        Some(d) => {
            let n = path.unicode_len();
            Some(String::from_str(path.substring_char(d + 1, n)))
        },
    }
}

/// `path` with its extension, if any, replaced by `ext`.
pub fn with_extension(path: &str, ext: &str) -> (r: String)
    ensures
        r@ == with_extension_of(path@, ext@),
{
    let mut out = match extension_dot(path) {
        None => String::from_str(path),
        Some(d) => String::from_str(path.substring_char(0, d)),
    };
    push_char(&mut out, '.');
    out.append(ext);
    out
}

} // verus!
