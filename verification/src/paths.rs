//! A small model of filesystem paths as character strings: joining path
//! components and taking the parent directory. Both `/` and `\` count as
//! separators, and joining inserts `/`.

use vstd::prelude::*;
use crate::text::chars_to_string;
use crate::text::push_chars;
use crate::text::str_to_chars;

verus! {

/// A path separator.
pub open spec fn is_sep(c: char) -> bool {
    c == '/' || c == '\\'
}

/// Whether `c` is a path separator.
pub fn is_sep_exec(c: char) -> (r: bool)
    ensures
        r == is_sep(c),
{
    c == '/' || c == '\\'
}

/// `a` and `b` joined into one path: a separator is inserted unless `a`
/// already ends in one, and an empty `a` leaves just `b`.
pub open spec fn join_spec(a: Seq<char>, b: Seq<char>) -> Seq<char> {
    if a.len() == 0 {
        b
    } else if is_sep(a.last()) {
        a + b
    } else {
        a + seq!['/'] + b
    }
}

/// Join two path fragments, as `join_spec` describes.
pub fn join_chars(a: &Vec<char>, b: &Vec<char>) -> (r: Vec<char>)
    ensures
        r@ == join_spec(a@, b@),
{
    let mut r: Vec<char> = Vec::new();
    push_chars(&mut r, a);
    if a.len() > 0 && !is_sep_exec(a[a.len() - 1]) {
        r.push('/');
        assert(r@ =~= a@ + seq!['/']);
    }
    push_chars(&mut r, b);
    assert(a@.len() == 0 ==> r@ =~= b@);
    r
}

/// Join two paths given as strings.
pub fn join_str(a: &str, b: &str) -> (r: String)
    ensures
        r@ == join_spec(a@, b@),
{
    let av = str_to_chars(a);
    let bv = str_to_chars(b);
    let rv = join_chars(&av, &bv);
    chars_to_string(&rv)
}

/// Index of the last separator in `p`, or -1 when there is none.
pub open spec fn last_sep(p: Seq<char>) -> int
    decreases p.len(),
{
    if p.len() == 0 {
        -1
    } else if is_sep(p.last()) {
        p.len() - 1
    } else {
        last_sep(p.drop_last())
    }
}

/// The parent directory of `p`: everything before the last separator, or
/// nothing when `p` holds no separator.
pub open spec fn parent_spec(p: Seq<char>) -> Option<Seq<char>> {
    if last_sep(p) >= 0 {
        Some(p.subrange(0, last_sep(p)))
    } else {
        None
    }
}

/// The parent directory of `p`, as `parent_spec` describes.
pub fn parent_chars(p: &Vec<char>) -> (r: Option<Vec<char>>)
    ensures
        match r {
            Some(d) => parent_spec(p@) == Some(d@),
            None => parent_spec(p@) is None,
        },
{
    let n: usize = p.len();
    assert(p@.subrange(0, n as int) =~= p@);
    let mut i: usize = n;
    while i > 0 && !is_sep_exec(p[i - 1])
        invariant
            n == p@.len(),
            i <= n,
            last_sep(p@) == last_sep(p@.subrange(0, i as int)),
        decreases i,
    {
        assert(p@.subrange(0, i as int).drop_last() =~= p@.subrange(0, i - 1 as int));
        i = i - 1;
    }
    if i == 0 {
        assert(last_sep(p@) == -1);
        None
    } else {
        assert(is_sep(p@.subrange(0, i as int).last()));
        assert(last_sep(p@) == i - 1);
        let mut d: Vec<char> = Vec::new();
        let mut k: usize = 0;
        while k < i - 1
            invariant
                i >= 1,
                i <= n == p@.len(),
                k <= i - 1,
                d@ == p@.subrange(0, k as int),
            decreases i - k,
        {
            d.push(p[k]);
            assert(d@ =~= p@.subrange(0, k + 1 as int));
            k = k + 1;
        }
        Some(d)
    }
}

/// The parent directory of `p`, or `.` when `p` holds no separator, as the
/// launcher falls back to the current directory.
pub open spec fn parent_or_dot(p: Seq<char>) -> Seq<char> {
    match parent_spec(p) {
        Some(d) => d,
        None => seq!['.'],
    }
}

/// The parent directory of `p`, or `.`, as `parent_or_dot` describes.
pub fn parent_or_dot_str(p: &str) -> (r: String)
    ensures
        r@ == parent_or_dot(p@),
{
    let pv = str_to_chars(p);
    match parent_chars(&pv) {
        Some(d) => chars_to_string(&d),
        None => {
            let mut dot: Vec<char> = Vec::new();
            dot.push('.');
            assert(dot@ =~= seq!['.']);
            chars_to_string(&dot)
        },
    }
}

} // verus!
