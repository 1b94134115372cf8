//! Substring search and character runs over sequences of characters.
//!
//! Every function here works on the characters of a string, never on its
//! bytes: an index is a position in `s@`.

use vstd::prelude::*;
use vstd::std_specs::iter::IteratorSpec;

verus! {

/// `pat` occurs in `text` starting at index `i`.
pub open spec fn occurs_at(text: Seq<char>, pat: Seq<char>, i: int) -> bool {
    &&& 0 <= i
    &&& i + pat.len() <= text.len()
    &&& text.subrange(i, i + pat.len()) == pat
}

/// `pat` occurs in `text` at some index that is at least `from`.
pub open spec fn occurs_from(text: Seq<char>, pat: Seq<char>, from: int) -> bool {
    exists|i: int| from <= i && #[trigger] occurs_at(text, pat, i)
}

/// `pat` occurs somewhere in `text`.
pub open spec fn contains(text: Seq<char>, pat: Seq<char>) -> bool {
    occurs_from(text, pat, 0)
}

/// `i` is the least index, not below `from`, at which `pat` occurs in `text`.
pub open spec fn is_first_from(text: Seq<char>, pat: Seq<char>, from: int, i: int) -> bool {
    &&& from <= i
    &&& occurs_at(text, pat, i)
    &&& forall|j: int| from <= j < i ==> !#[trigger] occurs_at(text, pat, j)
}

/// The least index, not below `from`, at which `pat` occurs in `text`, if any.
pub open spec fn first_from(text: Seq<char>, pat: Seq<char>, from: int) -> Option<int> {
    if occurs_from(text, pat, from) {
        Some(choose|i: int| is_first_from(text, pat, from, i))
    } else {
        None
    }
}

/// The least index at which `pat` occurs in `text`, if any.
pub open spec fn first_index(text: Seq<char>, pat: Seq<char>) -> Option<int> {
    first_from(text, pat, 0)
}

/// A least occurrence is unique, so it is the one that `first_from` names.
pub proof fn lemma_first_from_is(text: Seq<char>, pat: Seq<char>, from: int, i: int)
    requires
        is_first_from(text, pat, from, i),
    ensures
        first_from(text, pat, from) == Some(i),
{
    assert(occurs_from(text, pat, from));
    let c = choose|c: int| is_first_from(text, pat, from, c);
    assert(is_first_from(text, pat, from, c));
    if c < i {
        assert(!occurs_at(text, pat, c));
    } else if i < c {
        assert(!occurs_at(text, pat, i));
    }
}

/// Whenever `first_from` names an index, that index is the least occurrence;
/// when it names none, `pat` does not occur at or after `from`.
pub proof fn lemma_first_from_meaning(text: Seq<char>, pat: Seq<char>, from: int)
    ensures
        match first_from(text, pat, from) {
            Some(i) => is_first_from(text, pat, from, i),
            None => forall|j: int| from <= j ==> !#[trigger] occurs_at(text, pat, j),
        },
{
    if occurs_from(text, pat, from) {
        let w = choose|i: int| from <= i && #[trigger] occurs_at(text, pat, i);
        lemma_least_occurrence(text, pat, from, w);
    }
}

/// If `pat` occurs at `w`, there is a least occurrence not below `from`.
proof fn lemma_least_occurrence(text: Seq<char>, pat: Seq<char>, from: int, w: int)
    requires
        from <= w,
        occurs_at(text, pat, w),
    ensures
        exists|i: int| is_first_from(text, pat, from, i),
    decreases w - from,
{
    if exists|j: int| from <= j < w && #[trigger] occurs_at(text, pat, j) {
        let j = choose|j: int| from <= j < w && #[trigger] occurs_at(text, pat, j);
        lemma_least_occurrence(text, pat, from, j);
    } else {
        assert(is_first_from(text, pat, from, w));
    }
}

/// The two families of digits that the reference patterns look for.
#[derive(Clone, Copy, Debug, PartialEq, Eq, Structural)]
pub enum DigitClass {
    /// `0-9`
    Decimal,
    /// `0-9`, `a-f`, `A-F`
    Hex,
}

/// `c` is one of `0-9`.
pub open spec fn is_decimal_digit(c: char) -> bool {
    '0' <= c && c <= '9'
}

/// `c` is one of `0-9`, `a-f`, `A-F`.
pub open spec fn is_hex_digit(c: char) -> bool {
    is_decimal_digit(c) || ('a' <= c && c <= 'f') || ('A' <= c && c <= 'F')
}

impl DigitClass {
    /// The characters that belong to the class.
    pub open spec fn admits(self, c: char) -> bool {
        match self {
            DigitClass::Decimal => is_decimal_digit(c),
            DigitClass::Hex => is_hex_digit(c),
        }
    }

    /// Decides whether `c` belongs to the class.
    pub fn accepts(&self, c: char) -> (r: bool)
        ensures
            r == self.admits(c),
    {
        let decimal = '0' <= c && c <= '9';
        match self {
            DigitClass::Decimal => decimal,
            DigitClass::Hex => decimal || ('a' <= c && c <= 'f') || ('A' <= c && c <= 'F'),
        }
    }
}

/// The length of the longest run of characters of `class` that starts at
/// index `from` of `text`.
pub open spec fn run_length(text: Seq<char>, from: int, class: DigitClass) -> nat
    decreases text.len() - from,
{
    if 0 <= from < text.len() && class.admits(text[from]) {
        1 + run_length(text, from + 1, class)
    } else {
        0
    }
}

/// `n` characters of `class` start at `from`, and what follows them, if
/// anything does, is not of `class`.
pub open spec fn is_maximal_run(text: Seq<char>, from: int, class: DigitClass, n: nat) -> bool {
    &&& from + n <= text.len() || n == 0
    &&& forall|k: int| from <= k < from + n ==> class.admits(#[trigger] text[k])
    &&& !(0 <= from + n < text.len() && class.admits(text[from + n]))
}

/// `run_length` is the maximal run, and no other length is one.
pub proof fn lemma_run_length_is_maximal(text: Seq<char>, from: int, class: DigitClass, n: nat)
    requires
        0 <= from,
    ensures
        is_maximal_run(text, from, class, run_length(text, from, class)),
        is_maximal_run(text, from, class, n) ==> n == run_length(text, from, class),
    decreases text.len() - from,
{
    if from < text.len() && class.admits(text[from]) {
        let rest = run_length(text, from + 1, class);
        lemma_run_length_is_maximal(text, from + 1, class, rest);
        assert forall|k: int| from <= k < from + 1 + rest implies class.admits(
            #[trigger] text[k],
        ) by {
            if k > from {
                assert(from + 1 <= k < from + 1 + rest);
            }
        }
        if is_maximal_run(text, from, class, n) {
            assert(n > 0);
            let m = (n - 1) as nat;
            assert(is_maximal_run(text, from + 1, class, m));
            lemma_run_length_is_maximal(text, from + 1, class, m);
        }
    } else {
        if is_maximal_run(text, from, class, n) && n > 0 {
            assert(class.admits(text[from]));
        }
    }
}

/// The characters of `s`, in order.
pub fn chars_of(s: &str) -> (v: Vec<char>)
    ensures
        v@ == s@,
{
    let mut v: Vec<char> = Vec::new();
    for c in it: s.chars()
        invariant
            it.seq() == s@,
            v@ == s@.take(it.index() as int),
    {
        v.push(c);
    }
    v
}

/// Decides whether `pat` occurs in `text` at index `i`.
pub fn matches_at(text: &Vec<char>, pat: &Vec<char>, i: usize) -> (r: bool)
    ensures
        r == occurs_at(text@, pat@, i as int),
{
    if pat.len() > text.len() || i > text.len() - pat.len() {
        return false;
    }
    let mut k: usize = 0;
    while k < pat.len()
        invariant
            k <= pat.len(),
            i + pat.len() <= text.len(),
            forall|j: int| 0 <= j < k ==> text@[i + j] == pat@[j],
        decreases pat.len() - k,
    {
        if text[i + k] != pat[k] {
            proof {
                let window = text@.subrange(i as int, i + pat.len());
                assert(window[k as int] == text@[i + k]);
            }
            return false;
        }
        k += 1;
    }
    assert(text@.subrange(i as int, i + pat.len()) =~= pat@);
    true
}

/// Finds the least index, not below `from`, at which `pat` occurs in `text`.
pub fn find_from(text: &Vec<char>, pat: &Vec<char>, from: usize) -> (r: Option<usize>)
    ensures
        match r {
            Some(i) => first_from(text@, pat@, from as int) == Some(i as int),
            None => first_from(text@, pat@, from as int) == None::<int>,
        },
{
    if from > text.len() {
        proof {
            lemma_first_from_meaning(text@, pat@, from as int);
        }
        return None;
    }
    let mut i: usize = from;
    loop
        invariant
            from <= i <= text.len(),
            forall|j: int| from <= j < i ==> !#[trigger] occurs_at(text@, pat@, j),
        decreases text.len() - i,
    {
        if matches_at(text, pat, i) {
            proof {
                lemma_first_from_is(text@, pat@, from as int, i as int);
            }
            return Some(i);
        }
        if i == text.len() {
            proof {
                lemma_first_from_meaning(text@, pat@, from as int);
            }
            return None;
        }
        i += 1;
    }
}

/// Measures the longest run of characters of `class` that starts at index
/// `from` of `text`.
pub fn measure_run(text: &Vec<char>, from: usize, class: DigitClass) -> (n: usize)
    ensures
        n == run_length(text@, from as int, class),
{
    let mut end: usize = from;
    while end < text.len() && class.accepts(text[end])
        invariant
            from <= end,
            run_length(text@, from as int, class) == (end - from) + run_length(
                text@,
                end as int,
                class,
            ),
        decreases text.len() - end,
    {
        end += 1;
    }
    end - from
}

} // verus!
