use vstd::prelude::*;

use crate::shell::Context;
use crate::text::{chars_of, string_of};

verus! {

/// Whether `s` begins with `p`.
pub open spec fn has_prefix(s: Seq<char>, p: Seq<char>) -> bool {
    p.len() <= s.len() && s.take(p.len() as int) == p
}

/// `rel` appended to `base`: an absolute `rel` replaces `base`, and a
/// separator goes between the two unless `base` is empty or already ends in one.
pub open spec fn path_join(base: Seq<char>, rel: Seq<char>) -> Seq<char> {
    if rel.len() > 0 && rel[0] == '/' {
        rel
    } else if base.len() == 0 || base.last() == '/' {
        base + rel
    } else {
        base + seq!['/'] + rel
    }
}

/// `s` without its trailing separators and trailing `.` components, the
/// parts of a path that name no further component; the root itself goes too.
pub open spec fn strip_tail(s: Seq<char>) -> Seq<char>
    decreases s.len(),
{
    if s.len() > 0 && s.last() == '/' {
        strip_tail(s.drop_last())
    } else if s.len() >= 2 && s.last() == '.' && s[s.len() - 2] == '/' {
        strip_tail(s.drop_last())
    } else {
        s
    }
}

/// The index of the last separator in `s`, or -1 if it has none.
pub open spec fn last_slash(s: Seq<char>) -> int
    decreases s.len(),
{
    if s.len() == 0 {
        -1
    } else if s.last() == '/' {
        s.len() - 1
    } else {
        last_slash(s.drop_last())
    }
}

/// The path without its final component, as `Path::parent` gives it: none
/// for the root and for the empty path. Trailing separators and `.`
/// components are no component and are passed over, on both ends of the cut.
pub open spec fn parent(p: Seq<char>) -> Option<Seq<char>> {
    let q = strip_tail(p);
    if q.len() == 0 {
        None
    } else {
        let k = last_slash(q);
        let r = strip_tail(q.take(k + 1));
        if r.len() == 0 && k >= 0 {
            Some(seq!['/'])
        } else {
            Some(r)
        }
    }
}

/// The final component of a path, as `Path::file_name` gives it: trailing
/// separators and `.` components are passed over, and there is none where
/// the path is empty, the root, `.`, or ends in `..`.
pub open spec fn file_name(p: Seq<char>) -> Option<Seq<char>> {
    let t = strip_tail(p);
    let c = t.skip(last_slash(t) + 1);
    if c.len() == 0 || c == seq!['.'] || c == seq!['.', '.'] {
        None
    } else {
        Some(c)
    }
}

/// The parent of `p`, or `p` itself where it has none.
pub open spec fn parent_or_self(p: Seq<char>) -> Seq<char> {
    match parent(p) {
        Some(q) => q,
        None => p,
    }
}

/// The path that `cd <input>` goes to before canonicalization, from the
/// working directory `cwd` and the home directory `home`.
pub open spec fn target_path(cwd: Seq<char>, home: Seq<char>, input: Seq<char>) -> Seq<char> {
    if input.len() == 0 || input == seq!['~'] || input == seq!['~', '/'] {
        home
    } else if has_prefix(input, seq!['~', '/']) {
        path_join(home, input.skip(2))
    } else if input == seq!['.', '.'] {
        parent_or_self(cwd)
    } else if has_prefix(input, seq!['.', '.', '/']) {
        path_join(parent_or_self(cwd), input.skip(3))
    } else if has_prefix(input, seq!['.', '/']) {
        path_join(cwd, input.skip(2))
    } else if input[0] == '/' {
        input
    } else {
        path_join(cwd, input)
    }
}

/// An absolute path, such as one that is already canonical, resolves to
/// itself whatever the working and home directories are.
pub proof fn lemma_absolute_path_unchanged(cwd: Seq<char>, home: Seq<char>, p: Seq<char>)
    requires
        p.len() > 0,
        p[0] == '/',
    ensures
        target_path(cwd, home, p) == p,
{
    if p.len() == 1 {
        assert(p != seq!['~']);
    }
    if p.len() >= 2 {
        assert(p.take(2)[0] == '/');
        assert(p != seq!['~', '/'] && p != seq!['.', '.']);
    }
    if p.len() >= 3 {
        assert(p.take(3)[0] == '/');
    }
}

/// The first `n` characters of `v`.
pub(crate) fn prefix(v: &Vec<char>, n: usize) -> (r: Vec<char>)
    requires
        n <= v@.len(),
    ensures
        r@ == v@.take(n as int),
{
    let mut r = v.clone();
    r.truncate(n);
    assert(r@ =~= v@.take(n as int));
    r
}

/// The characters of `v` from index `k` on.
pub(crate) fn suffix(v: &Vec<char>, k: usize) -> (r: Vec<char>)
    requires
        k <= v@.len(),
    ensures
        r@ == v@.skip(k as int),
{
    let mut r: Vec<char> = Vec::new();
    for i in k..v.len()
        invariant
            k <= v@.len(),
            r@ == v@.subrange(k as int, i as int),
    {
        r.push(v[i]);
        assert(v@.subrange(k as int, i + 1) =~= v@.subrange(k as int, i as int).push(v@[i as int]));
    }
    assert(v@.subrange(k as int, v@.len() as int) =~= v@.skip(k as int));
    r
}

/// The length of `strip_tail` of the first `n` characters of `v`.
pub(crate) fn stripped_len(v: &Vec<char>, n: usize) -> (r: usize)
    requires
        n <= v@.len(),
    ensures
        r <= n,
        v@.take(r as int) == strip_tail(v@.take(n as int)),
{
    let mut k = n;
    while k > 0 && (v[k - 1] == '/' || (k >= 2 && v[k - 1] == '.' && v[k - 2] == '/'))
        invariant
            k <= n <= v@.len(),
            strip_tail(v@.take(k as int)) == strip_tail(v@.take(n as int)),
        decreases k,
    {
        assert(v@.take(k as int).drop_last() =~= v@.take(k - 1));
        assert(k >= 2 ==> v@.take(k as int)[k - 2] == v@[k - 2]);
        k = k - 1;
    }
    k
}

/// One more than the index of the last separator among the first `n`
/// characters of `v`.
pub(crate) fn cut_point(v: &Vec<char>, n: usize) -> (r: usize)
    requires
        n <= v@.len(),
    ensures
        r <= n,
        r == last_slash(v@.take(n as int)) + 1,
{
    let mut k = n;
    while k > 0 && v[k - 1] != '/'
        invariant
            k <= n <= v@.len(),
            last_slash(v@.take(k as int)) == last_slash(v@.take(n as int)),
        decreases k,
    {
        assert(v@.take(k as int).drop_last() =~= v@.take(k - 1));
        k = k - 1;
    }
    k
}

/// The parent of the path `v`.
fn parent_chars(v: &Vec<char>) -> (r: Option<Vec<char>>)
    ensures
        match r {
            Some(p) => parent(v@) == Some(p@),
            None => parent(v@) is None,
        },
{
    assert(v@.take(v@.len() as int) =~= v@);
    let q = stripped_len(v, v.len());
    if q == 0 {
        return None;
    }
    let k = cut_point(v, q);
    assert(v@.take(q as int).take(k as int) =~= v@.take(k as int));
    let p = stripped_len(v, k);
    if p == 0 && k > 0 {
        let mut root: Vec<char> = Vec::new();
        root.push('/');
        assert(root@ =~= seq!['/']);
        Some(root)
    } else {
        Some(prefix(v, p))
    }
}

/// The final component of the first `n` characters of `v`.
pub(crate) fn file_name_chars(v: &Vec<char>, n: usize) -> (r: Option<Vec<char>>)
    requires
        n <= v@.len(),
    ensures
        match r {
            Some(c) => file_name(v@.take(n as int)) == Some(c@),
            None => file_name(v@.take(n as int)) is None,
        },
{
    let t = stripped_len(v, n);
    let k = cut_point(v, t);
    let c = suffix(&prefix(v, t), k);
    let m = c.len();
    proof {
        if m == 1 && c@[0] == '.' {
            assert(c@ =~= seq!['.']);
        }
        if m == 2 && c@[0] == '.' && c@[1] == '.' {
            assert(c@ =~= seq!['.', '.']);
        }
    }
    if m == 0 || (m == 1 && c[0] == '.') || (m == 2 && c[0] == '.' && c[1] == '.') {
        None
    } else {
        Some(c)
    }
}

/// The parent of the path `v`, or `v` itself where it has none.
fn parent_or_self_chars(v: &Vec<char>) -> (r: Vec<char>)
    ensures
        r@ == parent_or_self(v@),
{
    match parent_chars(v) {
        Some(p) => p,
        None => v.clone(),
    }
}

/// `rel` appended to `base` as `path_join` says.
fn join_chars(base: &Vec<char>, rel: &Vec<char>) -> (r: Vec<char>)
    ensures
        r@ == path_join(base@, rel@),
{
    if rel.len() > 0 && rel[0] == '/' {
        return rel.clone();
    }
    let mut r = base.clone();
    if !(base.len() == 0 || base[base.len() - 1] == '/') {
        r.push('/');
    }
    r.extend_from_slice(rel.as_slice());
    r
}

/// Whether `v` starts with `a` and then `b`.
fn starts_with2(v: &Vec<char>, a: char, b: char) -> (r: bool)
    ensures
        r == has_prefix(v@, seq![a, b]),
{
    let r = v.len() >= 2 && v[0] == a && v[1] == b;
    assert(v@.len() >= 2 ==> (v@.take(2) =~= seq![a, b]) == (v@[0] == a && v@[1] == b));
    r
}

/// Whether `v` starts with `a`, `b` and then `c`.
fn starts_with3(v: &Vec<char>, a: char, b: char, c: char) -> (r: bool)
    ensures
        r == has_prefix(v@, seq![a, b, c]),
{
    let r = v.len() >= 3 && v[0] == a && v[1] == b && v[2] == c;
    assert(v@.len() >= 3 ==> (v@.take(3) =~= seq![a, b, c]) == (v@[0] == a && v@[1] == b && v@[2]
        == c));
    r
}

/// The directory that `cd <path>` goes to, before the file system
/// canonicalizes it: `~` stands for the home directory, `..` for the parent
/// of the working directory, and a relative path is joined to the working
/// directory.
pub fn resolve_path(ctx: &Context, path: &str) -> (r: String)
    ensures
        r@ == target_path(ctx.cwd@, ctx.home@, path@),
{
    let input = chars_of(path);
    let n = input.len();
    let cwd = chars_of(ctx.cwd.as_str());
    let home = chars_of(ctx.home.as_str());
    proof {
        if n == 1 && input@[0] == '~' {
            assert(input@ =~= seq!['~']);
        }
        if n == 2 {
            assert(input@.take(2) =~= input@);
        }
    }
    let resolved = if n == 0 || (n == 1 && input[0] == '~') || (n == 2 && starts_with2(
        &input,
        '~',
        '/',
    )) {
        home
    } else if starts_with2(&input, '~', '/') {
        join_chars(&home, &suffix(&input, 2))
    } else if n == 2 && starts_with2(&input, '.', '.') {
        parent_or_self_chars(&cwd)
    } else if starts_with3(&input, '.', '.', '/') {
        join_chars(&parent_or_self_chars(&cwd), &suffix(&input, 3))
    } else if starts_with2(&input, '.', '/') {
        join_chars(&cwd, &suffix(&input, 2))
    } else if input[0] == '/' {
        input
    } else {
        join_chars(&cwd, &input)
    };
    string_of(&resolved)
}

} // verus!
