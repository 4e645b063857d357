use vstd::prelude::*;
use vstd::string::*;

verus! {

/// Whether `needle` occurs in `haystack` starting at character `i`.
pub open spec fn occurs_at(haystack: Seq<char>, needle: Seq<char>, i: int) -> bool {
    &&& 0 <= i
    &&& i + needle.len() <= haystack.len()
    &&& haystack.subrange(i, i + needle.len()) == needle
}

/// Whether `i` is the first position at which `needle` occurs in `haystack`.
pub open spec fn first_at(haystack: Seq<char>, needle: Seq<char>, i: int) -> bool {
    &&& occurs_at(haystack, needle, i)
    &&& forall|j: int| 0 <= j < i ==> !occurs_at(haystack, needle, j)
}

/// The first position at which `needle` occurs in `haystack`, if any.
pub open spec fn first_occurrence(haystack: Seq<char>, needle: Seq<char>) -> Option<int> {
    if exists|i: int| first_at(haystack, needle, i) {
        Some(choose|i: int| first_at(haystack, needle, i))
    } else {
        None
    }
}

/// Whether `needle` occurs anywhere in `haystack`.
pub open spec fn contains_text(haystack: Seq<char>, needle: Seq<char>) -> bool {
    exists|i: int| occurs_at(haystack, needle, i)
}

/// The part of `haystack` before the first occurrence of `needle`; empty when
/// it does not occur.
pub open spec fn text_before(haystack: Seq<char>, needle: Seq<char>) -> Seq<char> {
    match first_occurrence(haystack, needle) {
        Some(i) => haystack.subrange(0, i),
        None => Seq::empty(),
    }
}

/// The part of `haystack` after the first occurrence of `needle`; empty when
/// it does not occur.
pub open spec fn text_after(haystack: Seq<char>, needle: Seq<char>) -> Seq<char> {
    match first_occurrence(haystack, needle) {
        Some(i) => haystack.subrange(i + needle.len(), haystack.len() as int),
        None => Seq::empty(),
    }
}

/// A position that is first is the only one that is.
pub proof fn lemma_first_at_unique(haystack: Seq<char>, needle: Seq<char>, i: int, j: int)
    requires
        first_at(haystack, needle, i),
        first_at(haystack, needle, j),
    ensures
        i == j,
{
}

/// Where `needle` occurs at all, `first_occurrence` names the first position.
pub proof fn lemma_first_occurrence(haystack: Seq<char>, needle: Seq<char>, i: int)
    requires
        first_at(haystack, needle, i),
    ensures
        first_occurrence(haystack, needle) == Some(i),
{
    let k = choose|k: int| first_at(haystack, needle, k);
    lemma_first_at_unique(haystack, needle, i, k);
}

/// The characters of `s`, in order.
fn chars_of(s: &str) -> (r: Vec<char>)
    ensures
        r@ == s@,
{
    let mut r: Vec<char> = Vec::new();
    for c in it: s.chars()
        invariant
            it.seq() == s@,
            r@ == it.seq().subrange(0, it.index() as int),
    {
        r.push(c);
    }
    assert(r@ =~= s@);
    r
}

/// Whether `needle` matches `haystack` at position `start`.
fn matches_at(haystack: &Vec<char>, needle: &Vec<char>, start: usize) -> (r: bool)
    requires
        start + needle@.len() <= haystack@.len(),
    ensures
        r == occurs_at(haystack@, needle@, start as int),
{
    let _ = haystack.len();
    let mut j: usize = 0;
    while j < needle.len()
        invariant
            start + needle@.len() <= haystack@.len(),
            haystack@.len() <= usize::MAX,
            0 <= j <= needle@.len(),
            forall|k: int| 0 <= k < j ==> haystack@[start + k] == needle@[k],
        decreases needle@.len() - j,
    {
        if haystack[start + j] != needle[j] {
            assert(haystack@.subrange(start as int, start + needle@.len())[j as int] != needle@[j as int]);
            return false;
        }
        j = j + 1;
    }
    assert(haystack@.subrange(start as int, start + needle@.len()) =~= needle@);
    true
}

/// The first position of `needle` in `haystack`, if it occurs.
fn find(haystack: &Vec<char>, needle: &Vec<char>) -> (r: Option<usize>)
    ensures
        match r {
            Some(i) => first_at(haystack@, needle@, i as int) && first_occurrence(haystack@, needle@)
                == Some(i as int),
            None => first_occurrence(haystack@, needle@) is None,
        },
        r is Some <==> contains_text(haystack@, needle@),
{
    if needle.len() > haystack.len() {
        assert(!contains_text(haystack@, needle@));
        assert(!exists|i: int| first_at(haystack@, needle@, i));
        return None;
    }
    if needle.len() == 0 {
        assert(haystack@.subrange(0, 0) =~= needle@);
        proof {
            lemma_first_occurrence(haystack@, needle@, 0);
        }
        return Some(0);
    }
    let last = haystack.len() - needle.len();
    let mut i: usize = 0;
    while i <= last
        invariant
            1 <= needle@.len() <= haystack@.len(),
            last + needle@.len() == haystack@.len(),
            0 <= i <= last + 1,
            last < usize::MAX,
            forall|j: int| 0 <= j < i ==> !occurs_at(haystack@, needle@, j),
        decreases haystack@.len() - i,
    {
        if matches_at(haystack, needle, i) {
            proof {
                lemma_first_occurrence(haystack@, needle@, i as int);
            }
            return Some(i);
        }
        i = i + 1;
    }
    assert(!contains_text(haystack@, needle@));
    assert(!exists|i: int| first_at(haystack@, needle@, i));
    None
}

/// Whether `haystack` begins with `needle`.
pub fn starts_with(haystack: &str, needle: &str) -> (r: bool)
    ensures
        r == needle@.is_prefix_of(haystack@),
{
    let h = chars_of(haystack);
    let n = chars_of(needle);
    if n.len() > h.len() {
        return false;
    }
    let r = matches_at(&h, &n, 0);
    r
}

/// Whether `needle` occurs anywhere in `haystack`.
pub fn contains(haystack: &str, needle: &str) -> (r: bool)
    ensures
        r == contains_text(haystack@, needle@),
{
    let h = chars_of(haystack);
    let n = chars_of(needle);
    find(&h, &n).is_some()
}

/// The part of `haystack` before the first occurrence of `needle`.
pub fn substring_before(haystack: &str, needle: &str) -> (r: String)
    ensures
        r@ == text_before(haystack@, needle@),
{
    let h = chars_of(haystack);
    let n = chars_of(needle);
    match find(&h, &n) {
        Some(pos) => String::from_str(haystack.substring_char(0, pos)),
        None => String::new(),
    }
}

/// The part of `haystack` after the first occurrence of `needle`.
pub fn substring_after(haystack: &str, needle: &str) -> (r: String)
    ensures
        r@ == text_after(haystack@, needle@),
{
    let h = chars_of(haystack);
    let n = chars_of(needle);
    match find(&h, &n) {
        Some(pos) => {
            let end = h.len();
            String::from_str(haystack.substring_char(pos + n.len(), end))
        },
        None => String::new(),
    }
}

} // verus!
