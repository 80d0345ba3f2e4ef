//! Searching and cutting text, character by character.

use vstd::prelude::*;
use vstd::string::*;

verus! {

/// The index of the first element of `s` that is `wanted`, or the length of
/// `s` where none is.
pub open spec fn first_where<T>(s: Seq<T>, wanted: spec_fn(T) -> bool) -> int
    decreases s.len(),
{
    if s.len() == 0 || wanted(s[0]) {
        0
    } else {
        1 + first_where(s.drop_first(), wanted)
    }
}

/// `first_where` lies within `s`, nothing before it is wanted, and what
/// stands at it is.
pub proof fn lemma_first_where<T>(s: Seq<T>, wanted: spec_fn(T) -> bool)
    ensures
        0 <= first_where(s, wanted) <= s.len(),
        forall|j: int| 0 <= j < first_where(s, wanted) ==> !wanted(#[trigger] s[j]),
        first_where(s, wanted) < s.len() ==> wanted(s[first_where(s, wanted)]),
    decreases s.len(),
{
    if s.len() == 0 || wanted(s[0]) {
    } else {
        let rest = s.drop_first();
        lemma_first_where(rest, wanted);
        assert forall|j: int| 0 <= j < first_where(s, wanted) implies !wanted(#[trigger] s[j]) by {
            if j > 0 {
                assert(s[j] == rest[j - 1]);
            }
        }
    }
}

/// An index with the properties of `first_where` is `first_where`.
pub proof fn lemma_first_where_is<T>(s: Seq<T>, wanted: spec_fn(T) -> bool, at: int)
    requires
        0 <= at <= s.len(),
        forall|j: int| 0 <= j < at ==> !wanted(#[trigger] s[j]),
        at < s.len() ==> wanted(s[at]),
    ensures
        first_where(s, wanted) == at,
{
    lemma_first_where(s, wanted);
    let first = first_where(s, wanted);
    if first < at {
        assert(!wanted(s[first]));
    } else if at < first {
        assert(wanted(s[at]));
    }
}

/// Being one of `marks`.
pub open spec fn among(marks: Set<char>) -> spec_fn(char) -> bool {
    |c: char| marks.contains(c)
}

/// The index of the first character of `s` that is one of `marks`, or the
/// length of `s` where none is.
pub open spec fn first_of(s: Seq<char>, marks: Set<char>) -> int {
    first_where(s, among(marks))
}

/// `first_of` lies within `s`, nothing before it is a mark, and what stands
/// at it is one.
pub proof fn lemma_first_of(s: Seq<char>, marks: Set<char>)
    ensures
        0 <= first_of(s, marks) <= s.len(),
        forall|j: int| 0 <= j < first_of(s, marks) ==> !marks.contains(#[trigger] s[j]),
        first_of(s, marks) < s.len() ==> marks.contains(s[first_of(s, marks)]),
{
    lemma_first_where(s, among(marks));
    assert forall|j: int| 0 <= j < first_of(s, marks) implies !marks.contains(#[trigger] s[j]) by {
        assert(!among(marks)(s[j]));
    }
}

/// An index with the properties of `first_of` is `first_of`.
pub proof fn lemma_first_of_is(s: Seq<char>, marks: Set<char>, at: int)
    requires
        0 <= at <= s.len(),
        forall|j: int| 0 <= j < at ==> !marks.contains(#[trigger] s[j]),
        at < s.len() ==> marks.contains(s[at]),
    ensures
        first_of(s, marks) == at,
{
    assert forall|j: int| 0 <= j < at implies !among(marks)(#[trigger] s[j]) by {
        assert(!marks.contains(s[j]));
    }
    lemma_first_where_is(s, among(marks), at);
}

/// An upper-case ASCII letter as its lower-case one; any other character as
/// it is.
pub open spec fn lower_char(c: char) -> char {
    if 'A' <= c && c <= 'Z' {
        ((c as u8) + 32) as char
    } else {
        c
    }
}

/// `s` with its ASCII letters in lower case.
pub open spec fn lower(s: Seq<char>) -> Seq<char> {
    Seq::new(s.len(), |i: int| lower_char(s[i]))
}

/// The characters of `s`, one by one.
pub fn chars_of(s: &str) -> (chars: Vec<char>)
    ensures
        chars@ == s@,
{
    let mut chars: Vec<char> = Vec::new();
    for c in it: s.chars()
        invariant
            it.seq() == s@,
            chars@ == it.seq().take(it.index() as int),
    {
        chars.push(c);
    }
    chars
}

/// The index of the first `mark` among `chars`, or their number where there
/// is none.
pub fn position_of(chars: &Vec<char>, mark: char) -> (at: usize)
    ensures
        at == first_of(chars@, set![mark]),
{
    let mut at: usize = 0;
    while at < chars.len() && chars[at] != mark
        invariant
            at <= chars.len(),
            forall|j: int| 0 <= j < at ==> !set![mark].contains(#[trigger] chars@[j]),
        decreases chars.len() - at,
    {
        at += 1;
    }
    proof {
        lemma_first_of_is(chars@, set![mark], at as int);
    }
    at
}

/// The characters of `s` from `from` up to `to`, as a text of its own.
pub fn cut(s: &str, from: usize, to: usize) -> (piece: String)
    requires
        from <= to <= s@.len(),
    ensures
        piece@ == s@.subrange(from as int, to as int),
{
    String::from_str(s.substring_char(from, to))
}

/// An upper-case ASCII letter as its lower-case one; any other character as
/// it is.
pub fn to_lower(c: char) -> (low: char)
    ensures
        low == lower_char(c),
{
    if 'A' <= c && c <= 'Z' {
        ((c as u8) + 32) as char
    } else {
        c
    }
}

/// Whether two names are the same but for the case of their ASCII letters.
pub fn same_name(a: &Vec<char>, b: &Vec<char>) -> (same: bool)
    ensures
        same == (lower(a@) == lower(b@)),
{
    if a.len() != b.len() {
        assert(lower(a@).len() != lower(b@).len());
        return false;
    }
    let mut i: usize = 0;
    while i < a.len()
        invariant
            i <= a.len(),
            a.len() == b.len(),
            forall|j: int| 0 <= j < i ==> lower_char(a@[j]) == lower_char(b@[j]),
        decreases a.len() - i,
    {
        if to_lower(a[i]) != to_lower(b[i]) {
            assert(lower(a@)[i as int] != lower(b@)[i as int]);
            return false;
        }
        i += 1;
    }
    assert(lower(a@) =~= lower(b@));
    true
}

} // verus!
