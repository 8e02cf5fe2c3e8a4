//! Normalization of security-question answers.
//!
//! Before an answer is hashed, its leading and trailing ASCII whitespace is
//! trimmed and its ASCII letters are folded to lower case.  Locking and
//! unlocking normalize identically, so answers differing only in case or in
//! surrounding whitespace derive the same key; the lemmas at the end state
//! that tolerance in general.

use vstd::prelude::*;

verus! {

/// ASCII whitespace as the normalization trims it.
pub open spec fn is_ascii_ws(b: u8) -> bool {
    b == 32 || b == 9 || b == 10 || b == 13
}

/// ASCII lower-case folding of one byte.
pub open spec fn lower_byte(b: u8) -> u8 {
    if 65 <= b <= 90 {
        (b + 32) as u8
    } else {
        b
    }
}

/// Lower-case folding of a byte sequence.
pub open spec fn lower_all(s: Seq<u8>) -> Seq<u8> {
    s.map_values(|b: u8| lower_byte(b))
}

/// `s` without its leading ASCII whitespace.
pub open spec fn trim_front_spec(s: Seq<u8>) -> Seq<u8>
    decreases s.len(),
{
    if s.len() > 0 && is_ascii_ws(s[0]) {
        trim_front_spec(s.drop_first())
    } else {
        s
    }
}

/// `s` without its trailing ASCII whitespace.
pub open spec fn trim_back_spec(s: Seq<u8>) -> Seq<u8>
    decreases s.len(),
{
    if s.len() > 0 && is_ascii_ws(s.last()) {
        trim_back_spec(s.drop_last())
    } else {
        s
    }
}

/// The normalized form of an answer: trimmed, then lower-cased.
pub open spec fn normalize_spec(s: Seq<u8>) -> Seq<u8> {
    lower_all(trim_back_spec(trim_front_spec(s)))
}

/// Whether every byte of `s` is ASCII whitespace.
pub open spec fn all_ws(s: Seq<u8>) -> bool {
    forall|i: int| 0 <= i < s.len() ==> is_ascii_ws(#[trigger] s[i])
}

/// Normalize one answer: trim surrounding ASCII whitespace, fold ASCII
/// letters to lower case.
pub fn normalize_answer(v: &Vec<u8>) -> (r: Vec<u8>)
    ensures
        r@ == normalize_spec(v@),
{
    let len = v.len();
    proof {
        assert(v@.subrange(0, len as int) =~= v@);
    }
    let mut start: usize = 0;
    while start < len && (v[start] == 32 || v[start] == 9 || v[start] == 10 || v[start] == 13)
        invariant
            start <= len,
            len == v@.len(),
            trim_front_spec(v@) == trim_front_spec(v@.subrange(start as int, len as int)),
        decreases len - start,
    {
        proof {
            assert(v@.subrange(start as int, len as int).drop_first() =~= v@.subrange(
                start as int + 1,
                len as int,
            ));
        }
        start = start + 1;
    }
    proof {
        assert(trim_front_spec(v@.subrange(start as int, len as int)) == v@.subrange(
            start as int,
            len as int,
        ));
    }
    let mut end: usize = len;
    while end > start && (v[end - 1] == 32 || v[end - 1] == 9 || v[end - 1] == 10 || v[end - 1]
        == 13)
        invariant
            start <= end <= len,
            len == v@.len(),
            trim_front_spec(v@) == v@.subrange(start as int, len as int),
            trim_back_spec(v@.subrange(start as int, len as int)) == trim_back_spec(
                v@.subrange(start as int, end as int),
            ),
        decreases end,
    {
        proof {
            assert(v@.subrange(start as int, end as int).drop_last() =~= v@.subrange(
                start as int,
                end as int - 1,
            ));
        }
        end = end - 1;
    }
    proof {
        assert(trim_back_spec(v@.subrange(start as int, end as int)) == v@.subrange(
            start as int,
            end as int,
        ));
    }
    let mut r: Vec<u8> = Vec::new();
    let mut i: usize = start;
    while i < end
        invariant
            start <= i <= end <= len,
            len == v@.len(),
            r@ == lower_all(v@.subrange(start as int, i as int)),
        decreases end - i,
    {
        let b = v[i];
        if 65 <= b && b <= 90 {
            r.push(b + 32);
        } else {
            r.push(b);
        }
        i = i + 1;
        proof {
            assert(r@ =~= lower_all(v@.subrange(start as int, i as int)));
        }
    }
    proof {
        assert(r@ == lower_all(trim_back_spec(trim_front_spec(v@))));
    }
    r
}

/// Leading whitespace never changes the trimmed front.
proof fn lemma_trim_front_ws(w: Seq<u8>, y: Seq<u8>)
    requires
        all_ws(w),
    ensures
        trim_front_spec(w + y) == trim_front_spec(y),
    decreases w.len(),
{
    if w.len() == 0 {
        assert(w + y =~= y);
    } else {
        assert((w + y).drop_first() =~= w.drop_first() + y);
        assert(all_ws(w.drop_first()));
        lemma_trim_front_ws(w.drop_first(), y);
    }
}

/// Trailing whitespace never changes the trimmed back.
proof fn lemma_trim_back_ws(x: Seq<u8>, w: Seq<u8>)
    requires
        all_ws(w),
    ensures
        trim_back_spec(x + w) == trim_back_spec(x),
    decreases w.len(),
{
    if w.len() == 0 {
        assert(x + w =~= x);
    } else {
        assert((x + w).drop_last() =~= x + w.drop_last());
        assert(all_ws(w.drop_last()));
        assert((x + w).last() == w.last());
        lemma_trim_back_ws(x, w.drop_last());
    }
}

/// An all-whitespace sequence trims to nothing from the front.
proof fn lemma_trim_front_all_ws(w: Seq<u8>)
    requires
        all_ws(w),
    ensures
        trim_front_spec(w) == Seq::<u8>::empty(),
    decreases w.len(),
{
    if w.len() == 0 {
        assert(w =~= Seq::<u8>::empty());
    } else {
        assert(all_ws(w.drop_first()));
        lemma_trim_front_all_ws(w.drop_first());
    }
}

/// If something survives front trimming, a suffix passes through it.
proof fn lemma_trim_front_concat(y: Seq<u8>, z: Seq<u8>)
    requires
        trim_front_spec(y).len() > 0,
    ensures
        trim_front_spec(y + z) == trim_front_spec(y) + z,
    decreases y.len(),
{
    if y.len() > 0 && is_ascii_ws(y[0]) {
        assert((y + z).drop_first() =~= y.drop_first() + z);
        lemma_trim_front_concat(y.drop_first(), z);
    } else {
        assert(y.len() > 0);
        assert((y + z)[0] == y[0]);
        assert(y + z =~= trim_front_spec(y) + z);
    }
}

/// Surrounding whitespace tolerance: an answer padded with any leading and
/// trailing ASCII whitespace normalizes to the same bytes as the answer
/// itself, so both derive the same key.
pub proof fn lemma_normalize_ws_tolerant(w1: Seq<u8>, s: Seq<u8>, w2: Seq<u8>)
    requires
        all_ws(w1),
        all_ws(w2),
    ensures
        normalize_spec(w1 + s + w2) == normalize_spec(s),
{
    assert(w1 + s + w2 =~= w1 + (s + w2));
    lemma_trim_front_ws(w1, s + w2);
    if trim_front_spec(s).len() > 0 {
        lemma_trim_front_concat(s, w2);
        lemma_trim_back_ws(trim_front_spec(s), w2);
    } else {
        lemma_trim_front_all_ws_inverse(s);
        assert(all_ws(s));
        assert(all_ws(s + w2)) by {
            assert(forall|i: int|
                0 <= i < s.len() + w2.len() ==> is_ascii_ws(#[trigger] (s + w2)[i]));
        }
        lemma_trim_front_all_ws(s + w2);
        lemma_trim_front_all_ws(s);
    }
}

/// If nothing survives front trimming, everything was whitespace.
proof fn lemma_trim_front_all_ws_inverse(s: Seq<u8>)
    requires
        trim_front_spec(s).len() == 0,
    ensures
        all_ws(s),
    decreases s.len(),
{
    if s.len() == 0 {
    } else {
        assert(is_ascii_ws(s[0]));
        lemma_trim_front_all_ws_inverse(s.drop_first());
        assert forall|i: int| 0 <= i < s.len() implies is_ascii_ws(#[trigger] s[i]) by {
            if i > 0 {
                assert(s[i] == s.drop_first()[i - 1]);
            }
        }
    }
}

/// Folding commutes with front trimming (letters are never whitespace).
proof fn lemma_lower_trim_front(s: Seq<u8>)
    ensures
        lower_all(trim_front_spec(s)) == trim_front_spec(lower_all(s)),
    decreases s.len(),
{
    if s.len() > 0 && is_ascii_ws(s[0]) {
        assert(lower_all(s)[0] == lower_byte(s[0]));
        assert(lower_all(s.drop_first()) =~= lower_all(s).drop_first());
        lemma_lower_trim_front(s.drop_first());
    } else if s.len() > 0 {
        assert(lower_all(s)[0] == lower_byte(s[0]));
        assert(!is_ascii_ws(lower_byte(s[0])));
    }
}

/// Folding commutes with back trimming.
proof fn lemma_lower_trim_back(s: Seq<u8>)
    ensures
        lower_all(trim_back_spec(s)) == trim_back_spec(lower_all(s)),
    decreases s.len(),
{
    if s.len() > 0 && is_ascii_ws(s.last()) {
        assert(lower_all(s).last() == lower_byte(s.last()));
        assert(lower_all(s.drop_last()) =~= lower_all(s).drop_last());
        lemma_lower_trim_back(s.drop_last());
    } else if s.len() > 0 {
        assert(lower_all(s).last() == lower_byte(s.last()));
        assert(!is_ascii_ws(lower_byte(s.last())));
    }
}

/// Case tolerance: two answers that agree up to ASCII case normalize to
/// the same bytes, so both derive the same key.
pub proof fn lemma_normalize_case_tolerant(s: Seq<u8>, t: Seq<u8>)
    requires
        lower_all(s) == lower_all(t),
    ensures
        normalize_spec(s) == normalize_spec(t),
{
    lemma_lower_trim_front(s);
    lemma_lower_trim_front(t);
    assert(lower_all(trim_front_spec(s)) == lower_all(trim_front_spec(t)));
    lemma_lower_trim_back(trim_front_spec(s));
    lemma_lower_trim_back(trim_front_spec(t));
}

} // verus!
