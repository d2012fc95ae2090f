//! Character-sequence helpers: lexicographic order, equality, prefix and
//! search tests on `&str`, each proved against a direct specification.

use vstd::prelude::*;

verus! {

/// Strict lexicographic order on character sequences, by code point.
pub open spec fn lex_lt(a: Seq<char>, b: Seq<char>) -> bool
    decreases a.len(),
{
    if b.len() == 0 {
        false
    } else if a.len() == 0 {
        true
    } else if a[0] != b[0] {
        (a[0] as u32) < (b[0] as u32)
    } else {
        lex_lt(a.skip(1), b.skip(1))
    }
}

/// Of two distinct character sequences, one is lexicographically smaller.
pub proof fn lemma_lex_total(a: Seq<char>, b: Seq<char>)
    requires
        a != b,
    ensures
        lex_lt(a, b) || lex_lt(b, a),
    decreases a.len(),
{
    if b.len() == 0 {
        if a.len() == 0 {
            assert(a =~= b);
        }
    } else if a.len() == 0 {
    } else if a[0] != b[0] {
        vstd::utf8::char_u32_cast(a[0], a[0] as u32);
        vstd::utf8::char_u32_cast(b[0], b[0] as u32);
    } else {
        if a.skip(1) == b.skip(1) {
            assert(a.skip(1).len() == a.len() - 1);
            assert(b.skip(1).len() == b.len() - 1);
            assert(a.len() == b.len());
            assert forall|i: int| 0 <= i < a.len() implies a[i] == b[i] by {
                if i > 0 {
                    assert(a.skip(1)[i - 1] == a[i - 1 + 1]);
                    assert(b.skip(1)[i - 1] == b[i - 1 + 1]);
                }
            }
            assert(a =~= b);
        }
        lemma_lex_total(a.skip(1), b.skip(1));
    }
}

/// A sequence is never lexicographically smaller than itself.
pub proof fn lemma_lex_irrefl(a: Seq<char>)
    ensures
        !lex_lt(a, a),
    decreases a.len(),
{
    if a.len() > 0 {
        lemma_lex_irrefl(a.skip(1));
    }
}

/// Lexicographic order is transitive.
pub proof fn lemma_lex_trans(a: Seq<char>, b: Seq<char>, c: Seq<char>)
    requires
        lex_lt(a, b),
        lex_lt(b, c),
    ensures
        lex_lt(a, c),
    decreases a.len(),
{
    if a.len() == 0 {
    } else if b.len() == 0 {
    } else if c.len() == 0 {
    } else if a[0] == b[0] && b[0] == c[0] {
        lemma_lex_trans(a.skip(1), b.skip(1), c.skip(1));
    }
}

/// Decides `lex_lt(a@, b@)` by walking the characters of both strings.
pub fn str_lt(a: &str, b: &str) -> (r: bool)
    ensures
        r == lex_lt(a@, b@),
{
    let alen: usize = a.unicode_len();
    let blen: usize = b.unicode_len();
    let mut i: usize = 0;
    proof {
        assert(a@.skip(0) =~= a@);
        assert(b@.skip(0) =~= b@);
    }
    loop
        invariant
            i <= alen,
            i <= blen,
            alen == a@.len(),
            blen == b@.len(),
            lex_lt(a@, b@) == lex_lt(a@.skip(i as int), b@.skip(i as int)),
        decreases alen - i,
    {
        if i >= blen {
            return false;
        }
        if i >= alen {
            return true;
        }
        let ca = a.get_char(i);
        let cb = b.get_char(i);
        proof {
            assert(a@.skip(i as int)[0] == a@[i as int]);
            assert(b@.skip(i as int)[0] == b@[i as int]);
        }
        if ca != cb {
            return (ca as u32) < (cb as u32);
        }
        proof {
            assert(a@.skip(i as int).skip(1) =~= a@.skip(i + 1));
            assert(b@.skip(i as int).skip(1) =~= b@.skip(i + 1));
        }
        i = i + 1;
    }
}

/// Decides view equality of two strings by walking their characters.
pub fn str_eq(a: &str, b: &str) -> (r: bool)
    ensures
        r == (a@ == b@),
{
    let alen: usize = a.unicode_len();
    let blen: usize = b.unicode_len();
    if alen != blen {
        return false;
    }
    let mut i: usize = 0;
    loop
        invariant
            i <= alen,
            alen == a@.len(),
            blen == b@.len(),
            alen == blen,
            forall|j: int| 0 <= j < i ==> a@[j] == b@[j],
        decreases alen - i,
    {
        if i >= alen {
            proof {
                assert(a@ =~= b@);
            }
            return true;
        }
        let ca = a.get_char(i);
        let cb = b.get_char(i);
        if ca != cb {
            return false;
        }
        i = i + 1;
    }
}

/// Decides whether `a@` starts with the prefix `p@`.
pub fn str_starts_with(a: &str, p: &str) -> (r: bool)
    ensures
        r == (a@.len() >= p@.len() && a@.subrange(0, p@.len() as int) == p@),
{
    let alen: usize = a.unicode_len();
    let plen: usize = p.unicode_len();
    if alen < plen {
        return false;
    }
    let mut i: usize = 0;
    loop
        invariant
            i <= plen,
            alen == a@.len(),
            plen == p@.len(),
            alen >= plen,
            forall|j: int| 0 <= j < i ==> a@[j] == p@[j],
        decreases plen - i,
    {
        if i >= plen {
            proof {
                assert(a@.subrange(0, p@.len() as int) =~= p@);
            }
            return true;
        }
        let ca = a.get_char(i);
        let cp = p.get_char(i);
        if ca != cp {
            proof {
                if a@.subrange(0, p@.len() as int) == p@ {
                    assert(a@.subrange(0, p@.len() as int)[i as int] == a@[i as int]);
                }
            }
            return false;
        }
        i = i + 1;
    }
}

/// Decides whether the character `c` occurs in `a@` at or after position `from`.
pub fn str_contains_from(a: &str, from: usize, c: char) -> (r: bool)
    requires
        from <= a@.len(),
    ensures
        r == (exists|j: int| from <= j < a@.len() && a@[j] == c),
{
    let alen: usize = a.unicode_len();
    let mut i: usize = from;
    loop
        invariant
            from <= i <= alen,
            alen == a@.len(),
            forall|j: int| from <= j < i ==> a@[j] != c,
        decreases alen - i,
    {
        if i >= alen {
            return false;
        }
        if a.get_char(i) == c {
            return true;
        }
        i = i + 1;
    }
}

} // verus!
