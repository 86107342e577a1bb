//! The canonical total order on validator entities: strict lexicographic
//! order over their canonical byte encodings.

use vstd::prelude::*;

verus! {

/// Strict lexicographic order on byte sequences: the canonical total order
/// used for inputs, outputs and kernels.
pub open spec fn lex_lt(a: Seq<u8>, b: Seq<u8>) -> bool
    decreases a.len(),
{
    if b.len() == 0 {
        false
    } else if a.len() == 0 {
        true
    } else if a[0] < b[0] {
        true
    } else if a[0] > b[0] {
        false
    } else {
        lex_lt(a.skip(1), b.skip(1))
    }
}

/// Compares two byte vectors under the canonical lexicographic order.
pub fn bytes_lt(a: &Vec<u8>, b: &Vec<u8>) -> (r: bool)
    ensures
        r == lex_lt(a@, b@),
{
    let mut i: usize = 0;
    let min: usize = if a.len() < b.len() { a.len() } else { b.len() };
    proof {
        assert(a@.skip(0) =~= a@);
        assert(b@.skip(0) =~= b@);
    }
    while i < min
        invariant
            i <= min,
            min <= a@.len(),
            min <= b@.len(),
            min == if a@.len() < b@.len() { a@.len() } else { b@.len() },
            forall|j: int| 0 <= j < i ==> a@[j] == b@[j],
            lex_lt(a@, b@) == lex_lt(a@.skip(i as int), b@.skip(i as int)),
        decreases min - i,
    {
        if a[i] < b[i] {
            proof {
                lemma_lex_skip_head(a@, b@, i as int);
            }
            return true;
        }
        if a[i] > b[i] {
            proof {
                lemma_lex_skip_head(a@, b@, i as int);
            }
            return false;
        }
        proof {
            lemma_lex_skip_head(a@, b@, i as int);
            assert(a@.skip(i as int).skip(1) =~= a@.skip(i + 1));
            assert(b@.skip(i as int).skip(1) =~= b@.skip(i + 1));
        }
        i = i + 1;
    }
    proof {
        assert(a@.skip(min as int).len() == a@.len() - min);
        assert(b@.skip(min as int).len() == b@.len() - min);
    }
    a.len() < b.len()
}

proof fn lemma_lex_skip_head(a: Seq<u8>, b: Seq<u8>, i: int)
    requires
        0 <= i < a.len(),
        0 <= i < b.len(),
    ensures
        lex_lt(a.skip(i), b.skip(i)) == if a[i] < b[i] {
            true
        } else if a[i] > b[i] {
            false
        } else {
            lex_lt(a.skip(i).skip(1), b.skip(i).skip(1))
        },
{
    assert(a.skip(i).len() > 0);
    assert(b.skip(i).len() > 0);
    assert(a.skip(i)[0] == a[i]);
    assert(b.skip(i)[0] == b[i]);
}

/// Strict lexicographic order is asymmetric: two byte strings are never each
/// below the other.
pub proof fn lemma_lex_asymmetric(a: Seq<u8>, b: Seq<u8>)
    requires
        lex_lt(a, b),
    ensures
        !lex_lt(b, a),
    decreases a.len(),
{
    if b.len() == 0 {
    } else if a.len() == 0 {
    } else if a[0] < b[0] {
    } else if a[0] > b[0] {
    } else {
        lemma_lex_asymmetric(a.skip(1), b.skip(1));
    }
}

/// Strict lexicographic order is connected: distinct byte strings compare
/// one way or the other.
pub proof fn lemma_lex_connected(a: Seq<u8>, b: Seq<u8>)
    requires
        a != b,
    ensures
        lex_lt(a, b) || lex_lt(b, a),
    decreases a.len(),
{
    if b.len() == 0 {
        if a.len() == 0 {
            assert(a =~= b);
        }
    } else if a.len() == 0 {
    } else if a[0] < b[0] {
    } else if a[0] > b[0] {
    } else {
        if a.skip(1) == b.skip(1) {
            assert(a.skip(1).len() == a.len() - 1);
            assert(b.skip(1).len() == b.len() - 1);
            assert(a.len() == b.len());
            assert forall|i: int| 0 <= i < a.len() implies a[i] == b[i] by {
                if i >= 1 {
                    assert(a.skip(1)[i - 1] == a[i]);
                    assert(b.skip(1)[i - 1] == b[i]);
                }
            }
            assert(a =~= b);
        } else {
            lemma_lex_connected(a.skip(1), b.skip(1));
        }
    }
}

/// Strict lexicographic order is transitive.
pub proof fn lemma_lex_transitive(a: Seq<u8>, b: Seq<u8>, c: Seq<u8>)
    requires
        lex_lt(a, b),
        lex_lt(b, c),
    ensures
        lex_lt(a, c),
    decreases a.len() + b.len() + c.len(),
{
    if c.len() == 0 {
    } else if b.len() == 0 {
    } else if a.len() == 0 {
    } else {
        if a[0] < b[0] {
            if b[0] < c[0] {
            } else {
                assert(b[0] == c[0]);
            }
        } else {
            assert(a[0] == b[0]);
            if b[0] < c[0] {
            } else {
                assert(b[0] == c[0]);
                lemma_lex_transitive(a.skip(1), b.skip(1), c.skip(1));
            }
        }
    }
}

/// A strictly ascending sequence of byte strings: each entry is below the
/// next.
pub open spec fn strictly_ascending(s: Seq<Seq<u8>>) -> bool {
    forall|j: int| 0 <= j && j + 1 < s.len() ==> lex_lt(#[trigger] s[j], s[j + 1])
}

/// In a strictly ascending sequence, any earlier entry is below any later
/// one.
pub proof fn lemma_ascending_pairwise(s: Seq<Seq<u8>>, i: int, j: int)
    requires
        strictly_ascending(s),
        0 <= i < j < s.len(),
    ensures
        lex_lt(s[i], s[j]),
    decreases j - i,
{
    if i + 1 == j {
    } else {
        lemma_ascending_pairwise(s, i, j - 1);
        lemma_lex_transitive(s[i], s[j - 1], s[j]);
    }
}

} // verus!
