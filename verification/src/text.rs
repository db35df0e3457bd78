//! Character sequences: conversion between strings and character vectors,
//! comparison, and searching.

use vstd::prelude::*;

verus! {

/// `String::push` appends exactly one character.
pub assume_specification[ String::push ](s: &mut String, c: char)
    ensures
        final(s)@ == old(s)@.push(c),
;

/// `pat` occurs in `s` starting at index `i`.
pub open spec fn occurs_at(s: Seq<char>, pat: Seq<char>, i: int) -> bool {
    &&& 0 <= i
    &&& i + pat.len() <= s.len()
    &&& s.subrange(i, i + pat.len()) == pat
}

/// The index of the first occurrence of `pat` in `s` that starts at or after
/// `from`, if there is one.
pub open spec fn find_from(s: Seq<char>, pat: Seq<char>, from: int) -> Option<int>
    decreases s.len() - from,
{
    if from < 0 || from + pat.len() > s.len() {
        None
    } else if occurs_at(s, pat, from) {
        Some(from)
    } else if from < s.len() {
        find_from(s, pat, from + 1)
    } else {
        None
    }
}

/// `pat` occurs somewhere in `s`.
pub open spec fn contains_seq(s: Seq<char>, pat: Seq<char>) -> bool {
    exists|i: int| occurs_at(s, pat, i)
}

/// `find_from` returns an occurrence, and nothing occurs between `from` and it.
pub proof fn lemma_find_from_some(s: Seq<char>, pat: Seq<char>, from: int)
    requires
        find_from(s, pat, from) is Some,
    ensures
        from <= find_from(s, pat, from)->0,
        occurs_at(s, pat, find_from(s, pat, from)->0),
        forall|j: int| from <= j < find_from(s, pat, from)->0 ==> !occurs_at(s, pat, j),
    decreases s.len() - from,
{
    if !occurs_at(s, pat, from) && from < s.len() {
        lemma_find_from_some(s, pat, from + 1);
    }
}

/// `find_from` returns `None` only when nothing occurs at or after `from`.
pub proof fn lemma_find_from_none(s: Seq<char>, pat: Seq<char>, from: int)
    requires
        0 <= from,
        find_from(s, pat, from) is None,
    ensures
        forall|j: int| from <= j ==> !occurs_at(s, pat, j),
    decreases s.len() - from,
{
    if from + pat.len() <= s.len() && from < s.len() {
        lemma_find_from_none(s, pat, from + 1);
    }
}

/// Whether `pat` occurs somewhere in `s`.
pub fn contains_chars(s: &Vec<char>, pat: &Vec<char>) -> (r: bool)
    ensures
        r == contains_seq(s@, pat@),
{
    match find_in(s, pat, 0) {
        Some(at) => {
            proof {
                lemma_find_from_some(s@, pat@, 0);
            }
            true
        },
        None => {
            proof {
                lemma_find_from_none(s@, pat@, 0);
            }
            false
        },
    }
}

/// The first occurrence at or after `from` is at `at` when `pat` occurs there
/// and nowhere between.
pub proof fn lemma_find_from_is(s: Seq<char>, pat: Seq<char>, from: int, at: int)
    requires
        0 <= from <= at,
        occurs_at(s, pat, at),
        forall|j: int| from <= j < at ==> !occurs_at(s, pat, j),
    ensures
        find_from(s, pat, from) == Some(at),
    decreases at - from,
{
    if from < at {
        lemma_find_from_is(s, pat, from + 1, at);
    }
}

/// The characters of a string, in order.
pub fn chars_of(s: &str) -> (v: Vec<char>)
    ensures
        v@ == s@,
{
    let mut v: Vec<char> = Vec::new();
    for c in it: s.chars()
        invariant
            it.seq() == s@,
            v@ == it.seq().take(it.index() as int),
    {
        v.push(c);
    }
    v
}

/// The string made of the characters `v[from..to]`.
pub fn string_of(v: &Vec<char>, from: usize, to: usize) -> (s: String)
    requires
        from <= to <= v.len(),
    ensures
        s@ == v@.subrange(from as int, to as int),
{
    let mut s = String::new();
    let mut i: usize = from;
    while i < to
        invariant
            from <= i <= to <= v.len(),
            s@ == v@.subrange(from as int, i as int),
        decreases to - i,
    {
        s.push(v[i]);
        i += 1;
    }
    s
}

/// Whether two strings hold the same text.
pub fn same_text(a: &str, b: &str) -> (r: bool)
    ensures
        r == (a@ == b@),
{
    let left = a.to_owned();
    let right = b.to_owned();
    left == right
}

/// The values that `model` gives for the items of `list`, in their order.
pub open spec fn models<T, M>(list: Seq<T>, model: spec_fn(T) -> M) -> Seq<M> {
    Seq::new(list.len(), |i: int| model(list[i]))
}

/// Whether two vectors hold items of the same values in the same order,
/// where `same` tells whether two items have the same value under `model`.
pub(crate) fn same_lists<T, M, F: Fn(&T, &T) -> bool>(
    a: &Vec<T>,
    b: &Vec<T>,
    same: F,
    Ghost(model): Ghost<spec_fn(T) -> M>,
) -> (r: bool)
    requires
        forall|x: &T, y: &T| call_requires(same, (x, y)),
        forall|x: &T, y: &T, r: bool|
            call_ensures(same, (x, y), r) ==> r == (model(*x) == model(*y)),
    ensures
        r == (models(a@, model) == models(b@, model)),
{
    if a.len() != b.len() {
        return false;
    }
    let ghost left = models(a@, model);
    let ghost right = models(b@, model);
    let mut i: usize = 0;
    while i < a.len()
        invariant
            i <= a.len(),
            a.len() == b.len(),
            left == models(a@, model),
            right == models(b@, model),
            left.take(i as int) == right.take(i as int),
            forall|x: &T, y: &T| call_requires(same, (x, y)),
            forall|x: &T, y: &T, r: bool|
                call_ensures(same, (x, y), r) ==> r == (model(*x) == model(*y)),
        decreases a.len() - i,
    {
        if !same(&a[i], &b[i]) {
            assert(left[i as int] != right[i as int]);
            return false;
        }
        proof {
            assert(left[i as int] == right[i as int]);
            assert(left.take(i + 1) == left.take(i as int).push(left[i as int]));
            assert(right.take(i + 1) == right.take(i as int).push(right[i as int]));
        }
        i += 1;
    }
    assert(left.take(a.len() as int) == left);
    assert(right.take(b.len() as int) == right);
    true
}

/// Whether `pat` occurs in `s` at index `i`.
pub fn occurs_at_index(s: &Vec<char>, pat: &Vec<char>, i: usize) -> (r: bool)
    ensures
        r == occurs_at(s@, pat@, i as int),
{
    if pat.len() > s.len() || i > s.len() - pat.len() {
        return false;
    }
    let mut k: usize = 0;
    while k < pat.len()
        invariant
            k <= pat.len(),
            i + pat.len() <= s.len(),
            s@.subrange(i as int, i + k) == pat@.take(k as int),
        decreases pat.len() - k,
    {
        if s[i + k] != pat[k] {
            assert(s@.subrange(i as int, i + pat.len())[k as int] != pat@[k as int]);
            return false;
        }
        assert(s@.subrange(i as int, i + k + 1) == s@.subrange(i as int, i + k).push(
            s@[i + k],
        ));
        assert(pat@.take(k + 1) == pat@.take(k as int).push(pat@[k as int]));
        k += 1;
    }
    assert(pat@.take(pat.len() as int) == pat@);
    true
}

/// The index of the first occurrence of `pat` in `s` at or after `from`.
pub fn find_in(s: &Vec<char>, pat: &Vec<char>, from: usize) -> (r: Option<usize>)
    ensures
        match r {
            Some(at) => find_from(s@, pat@, from as int) == Some(at as int),
            None => find_from(s@, pat@, from as int) is None,
        },
{
    if pat.len() > s.len() {
        return None;
    }
    if pat.len() == 0 {
        if from <= s.len() {
            assert(s@.subrange(from as int, from as int) == pat@);
            return Some(from);
        }
        return None;
    }
    let last: usize = s.len() - pat.len();
    let mut i: usize = from;
    while i <= last
        invariant
            from <= i,
            0 < pat.len() <= s.len(),
            last == s.len() - pat.len(),
            find_from(s@, pat@, from as int) == find_from(s@, pat@, i as int),
        decreases last + 1 - i,
    {
        if occurs_at_index(s, pat, i) {
            return Some(i);
        }
        i += 1;
    }
    None
}

/// Appends the characters `v[from..to]` to `out`.
pub fn push_range(out: &mut String, v: &Vec<char>, from: usize, to: usize)
    requires
        from <= to <= v.len(),
    ensures
        final(out)@ == old(out)@ + v@.subrange(from as int, to as int),
{
    let mut i: usize = from;
    while i < to
        invariant
            from <= i <= to <= v.len(),
            out@ == old(out)@ + v@.subrange(from as int, i as int),
        decreases to - i,
    {
        out.push(v[i]);
        assert(v@.subrange(from as int, i + 1) == v@.subrange(from as int, i as int).push(
            v@[i as int],
        ));
        i += 1;
    }
}

/// Appends the text of `piece` to `out`.
pub fn push_text(out: &mut String, piece: &str)
    ensures
        final(out)@ == old(out)@ + piece@,
{
    let chars = chars_of(piece);
    push_range(out, &chars, 0, chars.len());
    assert(chars@.subrange(0, chars.len() as int) == chars@);
}

/// `folder` and `name` joined by a slash.
pub open spec fn joined(folder: Seq<char>, name: Seq<char>) -> Seq<char> {
    folder + seq!['/'] + name
}

/// `folder` and `name` joined by a slash.
pub fn join_path(folder: &str, name: &str) -> (path: String)
    ensures
        path@ == joined(folder@, name@),
{
    let mut path = String::new();
    push_text(&mut path, folder);
    path.push('/');
    push_text(&mut path, name);
    path
}

} // verus!
