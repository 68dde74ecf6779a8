//! Character sequences: the mathematical model of every string this crate
//! inspects, with the predicates used by filters and the order used by sorting.

use vstd::prelude::*;

verus! {

/// Outcome of comparing two values under an order.
#[derive(Copy, Clone, Debug, PartialEq, Eq, Structural)]
pub enum Precedence {
    /// The left value comes first.
    Before,
    /// Neither value comes first.
    Tied,
    /// The right value comes first.
    After,
}

impl Precedence {
    /// The outcome seen from the other side.
    pub open spec fn flipped(self) -> Precedence {
        match self {
            Precedence::Before => Precedence::After,
            Precedence::Tied => Precedence::Tied,
            Precedence::After => Precedence::Before,
        }
    }

    /// Computes [`Precedence::flipped`].
    pub fn flip(self) -> (r: Precedence)
        ensures
            r == self.flipped(),
    {
        match self {
            Precedence::Before => Precedence::After,
            Precedence::Tied => Precedence::Tied,
            Precedence::After => Precedence::Before,
        }
    }
}

/// `p` occurs in `s` starting at position `at`.
pub open spec fn occurs_at(p: Seq<char>, s: Seq<char>, at: int) -> bool {
    &&& 0 <= at
    &&& at + p.len() <= s.len()
    &&& s.subrange(at, at + p.len()) == p
}

/// `p` is a contiguous part of `s`.
pub open spec fn is_substring(p: Seq<char>, s: Seq<char>) -> bool {
    exists|at: int| occurs_at(p, s, at)
}

/// `s` begins with `p`.
pub open spec fn is_prefix(p: Seq<char>, s: Seq<char>) -> bool {
    occurs_at(p, s, 0)
}

/// `s` ends with `p`.
pub open spec fn is_suffix(p: Seq<char>, s: Seq<char>) -> bool {
    occurs_at(p, s, s.len() - p.len())
}

/// Lexicographic order of two character sequences by code point; a proper
/// prefix comes before the longer sequence.
pub open spec fn lex_order(a: Seq<char>, b: Seq<char>) -> Precedence
    decreases a.len(),
{
    if a.len() == 0 {
        if b.len() == 0 {
            Precedence::Tied
        } else {
            Precedence::Before
        }
    } else if b.len() == 0 {
        Precedence::After
    } else if a[0] < b[0] {
        Precedence::Before
    } else if a[0] > b[0] {
        Precedence::After
    } else {
        lex_order(a.drop_first(), b.drop_first())
    }
}

/// The characters of a string, in order.
pub fn chars_of(s: &str) -> (v: Vec<char>)
    ensures
        v@ == s@,
{
    let mut v: Vec<char> = Vec::new();
    for c in it: s.chars()
        invariant
            it.seq() == s@,
            v@ == it.seq().take(it.index()),
    {
        v.push(c);
    }
    v
}

/// Tells whether `p` occurs in `s` at position `at`.
pub fn matches_at(p: &Vec<char>, s: &Vec<char>, at: usize) -> (r: bool)
    ensures
        r == occurs_at(p@, s@, at as int),
{
    if at > s.len() || p.len() > s.len() - at {
        return false;
    }
    let mut k: usize = 0;
    while k < p.len()
        invariant
            k <= p.len(),
            at + p.len() <= s.len(),
            forall|j: int| 0 <= j < k ==> s@[at + j] == p@[j],
        decreases p.len() - k,
    {
        if s[at + k] != p[k] {
            assert(s@.subrange(at as int, at + p.len())[k as int] == s@[at + k]);
            return false;
        }
        k += 1;
    }
    assert(s@.subrange(at as int, at + p.len()) =~= p@);
    true
}

/// Tells whether two character sequences are the same.
pub fn same_chars(a: &Vec<char>, b: &Vec<char>) -> (r: bool)
    ensures
        r == (a@ == b@),
{
    if a.len() != b.len() {
        return false;
    }
    let r = matches_at(a, b, 0);
    assert(b@.subrange(0, b@.len() as int) =~= b@);
    r
}

/// Tells whether two texts are the same.
pub fn same_text(a: &str, b: &str) -> (r: bool)
    ensures
        r == (a@ == b@),
{
    same_chars(&chars_of(a), &chars_of(b))
}

/// Tells whether `s` begins with `p`.
pub fn starts_with(s: &Vec<char>, p: &Vec<char>) -> (r: bool)
    ensures
        r == is_prefix(p@, s@),
{
    matches_at(p, s, 0)
}

/// Tells whether `s` ends with `p`.
pub fn ends_with(s: &Vec<char>, p: &Vec<char>) -> (r: bool)
    ensures
        r == is_suffix(p@, s@),
{
    if p.len() > s.len() {
        false
    } else {
        matches_at(p, s, s.len() - p.len())
    }
}

/// Tells whether `p` is a contiguous part of `s`.
pub fn contains(s: &Vec<char>, p: &Vec<char>) -> (r: bool)
    ensures
        r == is_substring(p@, s@),
{
    if p.len() > s.len() {
        return false;
    }
    let last: usize = s.len() - p.len();
    let mut at: usize = 0;
    loop
        invariant
            last == s.len() - p.len(),
            at <= last,
            forall|j: int| 0 <= j < at ==> !occurs_at(p@, s@, j),
        decreases last - at,
    {
        if matches_at(p, s, at) {
            return true;
        }
        if at == last {
            return false;
        }
        at += 1;
    }
}

/// Two sequences that agree on their first `n` characters compare as their
/// remainders do.
pub proof fn lemma_lex_order_skips_common_prefix(a: Seq<char>, b: Seq<char>, n: int)
    requires
        0 <= n <= a.len(),
        n <= b.len(),
        forall|j: int| 0 <= j < n ==> a[j] == b[j],
    ensures
        lex_order(a, b) == lex_order(a.skip(n), b.skip(n)),
    decreases n,
{
    if n == 0 {
        assert(a.skip(0) =~= a);
        assert(b.skip(0) =~= b);
    } else {
        let a1 = a.drop_first();
        let b1 = b.drop_first();
        assert forall|j: int| 0 <= j < n - 1 implies a1[j] == b1[j] by {
            assert(a1[j] == a[j + 1]);
            assert(b1[j] == b[j + 1]);
        }
        lemma_lex_order_skips_common_prefix(a1, b1, n - 1);
        assert(a1.skip(n - 1) =~= a.skip(n));
        assert(b1.skip(n - 1) =~= b.skip(n));
    }
}

/// Swapping the arguments of [`lex_order`] flips its outcome.
pub proof fn lemma_lex_order_flips(a: Seq<char>, b: Seq<char>)
    ensures
        lex_order(b, a) == lex_order(a, b).flipped(),
    decreases a.len(),
{
    if a.len() > 0 && b.len() > 0 && a[0] == b[0] {
        lemma_lex_order_flips(a.drop_first(), b.drop_first());
    }
}

/// [`lex_order`] ties exactly on equal sequences.
pub proof fn lemma_lex_order_tied_iff_equal(a: Seq<char>, b: Seq<char>)
    ensures
        lex_order(a, b) == Precedence::Tied <==> a == b,
    decreases a.len(),
{
    if a.len() > 0 && b.len() > 0 {
        if a[0] == b[0] {
            lemma_lex_order_tied_iff_equal(a.drop_first(), b.drop_first());
            if a.drop_first() == b.drop_first() {
                assert(a =~= seq![a[0]] + a.drop_first());
                assert(b =~= seq![b[0]] + b.drop_first());
            }
        }
    } else if a.len() == 0 && b.len() == 0 {
        assert(a =~= b);
    }
}

/// [`lex_order`] is transitive: what does not come after its successor does
/// not come after that one's successor, and comes strictly before it as soon
/// as one of the two steps is strict.
pub proof fn lemma_lex_order_transitive(a: Seq<char>, b: Seq<char>, c: Seq<char>)
    requires
        lex_order(a, b) != Precedence::After,
        lex_order(b, c) != Precedence::After,
    ensures
        lex_order(a, c) != Precedence::After,
        lex_order(a, c) == Precedence::Tied ==> lex_order(a, b) == Precedence::Tied && lex_order(
            b,
            c,
        ) == Precedence::Tied,
    decreases a.len(),
{
    if a.len() > 0 && b.len() > 0 && c.len() > 0 && a[0] == b[0] && b[0] == c[0] {
        lemma_lex_order_transitive(a.drop_first(), b.drop_first(), c.drop_first());
    }
}

/// Compares two character sequences lexicographically.
pub fn compare(a: &Vec<char>, b: &Vec<char>) -> (r: Precedence)
    ensures
        r == lex_order(a@, b@),
{
    let mut k: usize = 0;
    while k < a.len() && k < b.len()
        invariant
            k <= a.len(),
            k <= b.len(),
            forall|j: int| 0 <= j < k ==> a@[j] == b@[j],
        decreases a.len() - k,
    {
        if a[k] < b[k] {
            proof {
                lemma_lex_order_skips_common_prefix(a@, b@, k as int);
            }
            return Precedence::Before;
        }
        if a[k] > b[k] {
            proof {
                lemma_lex_order_skips_common_prefix(a@, b@, k as int);
            }
            return Precedence::After;
        }
        k += 1;
    }
    proof {
        lemma_lex_order_skips_common_prefix(a@, b@, k as int);
    }
    if k < b.len() {
        Precedence::Before
    } else if k < a.len() {
        Precedence::After
    } else {
        Precedence::Tied
    }
}

} // verus!
