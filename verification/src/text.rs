//! Character-level string utilities.
//!
//! Raw input keys are free-form strings matched case-insensitively against
//! the alias, food-composition and header tables. This module defines the
//! ASCII lower-casing model those lookups are specified with, together with
//! the executable comparison routines.

use vstd::prelude::*;

verus! {

/// ASCII lower-casing of one character: `'A'..='Z'` map to `'a'..='z'`,
/// every other character is unchanged.
pub open spec fn lower_char(c: char) -> char {
    if 'A' <= c && c <= 'Z' {
        (((c as u8) + 32) as char)
    } else {
        c
    }
}

/// ASCII lower-casing of a whole character sequence.
pub open spec fn lower(s: Seq<char>) -> Seq<char> {
    s.map_values(|c: char| lower_char(c))
}

/// Lower-casing is idempotent.
pub proof fn lemma_lower_idempotent(s: Seq<char>)
    ensures
        lower(lower(s)) == s.map_values(|c: char| lower_char(c)),
        lower(lower(s)) == lower(s),
{
    assert(lower(lower(s)) =~= lower(s));
}

/// Strict lexicographic order on character sequences, by unicode scalar
/// value: a proper prefix precedes its extensions, and otherwise the first
/// differing character decides.
pub open spec fn lex_lt(a: Seq<char>, b: Seq<char>) -> bool
    decreases a.len(),
{
    if a.len() == 0 {
        b.len() > 0
    } else if b.len() == 0 {
        false
    } else if a[0] != b[0] {
        (a[0] as u32) < (b[0] as u32)
    } else {
        lex_lt(a.subrange(1, a.len() as int), b.subrange(1, b.len() as int))
    }
}

/// Sequences agreeing up to a position where the first is smaller are
/// lexicographically ordered.
pub proof fn lemma_lex_lt_by_diff(a: Seq<char>, b: Seq<char>, i: int)
    requires
        0 <= i < a.len(),
        i < b.len(),
        forall|j: int| 0 <= j < i ==> a[j] == b[j],
        (a[i] as u32) < (b[i] as u32),
    ensures
        lex_lt(a, b),
    decreases a.len(),
{
    if i == 0 {
        assert(a[0] != b[0]);
    } else {
        assert(a[0] == b[0]);
        let a2 = a.subrange(1, a.len() as int);
        let b2 = b.subrange(1, b.len() as int);
        assert(forall|j: int| 0 <= j < i - 1 ==> a2[j] == b2[j]);
        assert(a2[i - 1] == a[i] && b2[i - 1] == b[i]);
        lemma_lex_lt_by_diff(a2, b2, i - 1);
    }
}

/// A proper prefix precedes its extensions.
pub proof fn lemma_lex_lt_by_prefix(a: Seq<char>, b: Seq<char>)
    requires
        a.len() < b.len(),
        forall|j: int| 0 <= j < a.len() ==> a[j] == b[j],
    ensures
        lex_lt(a, b),
    decreases a.len(),
{
    if a.len() > 0 {
        let a2 = a.subrange(1, a.len() as int);
        let b2 = b.subrange(1, b.len() as int);
        assert(forall|j: int| 0 <= j < a2.len() ==> a2[j] == b2[j]);
        lemma_lex_lt_by_prefix(a2, b2);
    }
}

/// Lexicographic order is transitive.
pub proof fn lemma_lex_lt_trans(a: Seq<char>, b: Seq<char>, c: Seq<char>)
    requires
        lex_lt(a, b),
        lex_lt(b, c),
    ensures
        lex_lt(a, c),
    decreases a.len(),
{
    if a.len() == 0 {
    } else {
        assert(b.len() > 0);
        assert(c.len() > 0);
        if a[0] != b[0] {
            if b[0] != c[0] {
                assert((a[0] as u32) < (c[0] as u32));
            } else {
                assert((a[0] as u32) < (c[0] as u32));
            }
            assert(a[0] != c[0]);
        } else {
            if b[0] != c[0] {
                assert(a[0] != c[0]);
                assert((a[0] as u32) < (c[0] as u32));
            } else {
                lemma_lex_lt_trans(
                    a.subrange(1, a.len() as int),
                    b.subrange(1, b.len() as int),
                    c.subrange(1, c.len() as int),
                );
            }
        }
    }
}

/// `s` ends with the (lower-case) suffix `suf`, comparing case-insensitively.
pub open spec fn ci_ends_with(s: Seq<char>, suf: Seq<char>) -> bool {
    s.len() >= suf.len() && lower(s).subrange(s.len() - suf.len(), s.len() as int) == suf
}

/// Exact string equality.
pub fn str_eq(a: &str, b: &str) -> (r: bool)
    ensures
        r == (a@ == b@),
{
    let an = a.unicode_len();
    let bn = b.unicode_len();
    if an != bn {
        proof {
            assert(a@ != b@);
        }
        return false;
    }
    let mut i: usize = 0;
    while i < an
        invariant
            0 <= i <= an,
            an == a@.len(),
            an == b@.len(),
            forall|j: int| 0 <= j < i ==> a@[j] == b@[j],
        decreases an - i,
    {
        if a.get_char(i) != b.get_char(i) {
            return false;
        }
        i = i + 1;
    }
    proof {
        assert(a@ =~= b@);
    }
    true
}

/// Case-insensitive string equality: true exactly when the ASCII
/// lower-casings of the two strings agree.
pub fn str_eq_ci(a: &str, b: &str) -> (r: bool)
    ensures
        r == (lower(a@) == lower(b@)),
{
    let an = a.unicode_len();
    let bn = b.unicode_len();
    if an != bn {
        proof {
            assert(lower(a@).len() != lower(b@).len());
        }
        return false;
    }
    let mut i: usize = 0;
    while i < an
        invariant
            0 <= i <= an,
            an == a@.len(),
            an == b@.len(),
            forall|j: int| 0 <= j < i ==> lower(a@)[j] == lower(b@)[j],
        decreases an - i,
    {
        let ca = lower_char_exec(a.get_char(i));
        let cb = lower_char_exec(b.get_char(i));
        if ca != cb {
            proof {
                assert(lower(a@)[i as int] != lower(b@)[i as int]);
            }
            return false;
        }
        i = i + 1;
    }
    proof {
        assert(lower(a@) =~= lower(b@));
    }
    true
}

/// ASCII lower-casing of one character.
pub fn lower_char_exec(c: char) -> (r: char)
    ensures
        r == lower_char(c),
{
    if c >= 'A' && c <= 'Z' {
        ((c as u8) + 32) as char
    } else {
        c
    }
}

/// Does `s` end, case-insensitively, with the lower-case suffix `suf`?
pub fn ends_with_ci(s: &str, suf: &str) -> (r: bool)
    requires
        lower(suf@) == suf@,
    ensures
        r == ci_ends_with(s@, suf@),
{
    let sn = s.unicode_len();
    let fn_ = suf.unicode_len();
    if sn < fn_ {
        return false;
    }
    let off = sn - fn_;
    let mut i: usize = 0;
    while i < fn_
        invariant
            0 <= i <= fn_,
            fn_ <= sn,
            off == sn - fn_,
            sn == s@.len(),
            fn_ == suf@.len(),
            lower(suf@) == suf@,
            forall|j: int| 0 <= j < i ==> lower(s@)[off + j] == suf@[j],
        decreases fn_ - i,
    {
        let cs = lower_char_exec(s.get_char(off + i));
        let cf = suf.get_char(i);
        if cs != cf {
            proof {
                assert(lower(suf@)[i as int] == suf@[i as int]);
                assert(lower(s@)[off + i] != suf@[i as int]);
                assert(!ci_ends_with(s@, suf@)) by {
                    if ci_ends_with(s@, suf@) {
                        assert(lower(s@).subrange(s@.len() - suf@.len(), s@.len() as int)[i as int]
                            == suf@[i as int]);
                    }
                }
            }
            return false;
        }
        i = i + 1;
    }
    proof {
        assert(lower(s@).subrange(s@.len() - suf@.len(), s@.len() as int) =~= suf@);
    }
    true
}

} // verus!
