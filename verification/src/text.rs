//! Character-level text utilities: Unicode-whitespace trimming and
//! code-point lexicographic ordering of names.

use vstd::prelude::*;

verus! {

use vstd::multiset::Multiset;
use vstd::string::StrSliceExecFns;

broadcast use vstd::utf8::char_u32_cast;

/// A character with the Unicode `White_Space` property; the set of
/// characters that `trim` removes at either end of a string.
pub open spec fn is_ws(c: char) -> bool {
    ||| c == '\t'
    ||| c == '\n'
    ||| c == '\u{0B}'
    ||| c == '\u{0C}'
    ||| c == '\r'
    ||| c == ' '
    ||| c == '\u{85}'
    ||| c == '\u{A0}'
    ||| c == '\u{1680}'
    ||| (0x2000 <= c as u32 && c as u32 <= 0x200A)
    ||| c == '\u{2028}'
    ||| c == '\u{2029}'
    ||| c == '\u{202F}'
    ||| c == '\u{205F}'
    ||| c == '\u{3000}'
}

fn is_ws_char(c: char) -> (r: bool)
    ensures
        r == is_ws(c),
{
    c == '\t' || c == '\n' || c == '\u{0B}' || c == '\u{0C}' || c == '\r' || c == ' ' || c
        == '\u{85}' || c == '\u{A0}' || c == '\u{1680}' || ('\u{2000}' <= c && c <= '\u{200A}') || c
        == '\u{2028}' || c == '\u{2029}' || c == '\u{202F}' || c == '\u{205F}' || c == '\u{3000}'
}

/// The given characters with every leading whitespace character removed.
pub open spec fn trim_front(s: Seq<char>) -> Seq<char>
    decreases s.len(),
{
    if s.len() > 0 && is_ws(s[0]) {
        trim_front(s.drop_first())
    } else {
        s
    }
}

/// The given characters with every trailing whitespace character removed.
pub open spec fn trim_back(s: Seq<char>) -> Seq<char>
    decreases s.len(),
{
    if s.len() > 0 && is_ws(s.last()) {
        trim_back(s.drop_last())
    } else {
        s
    }
}

/// What trimming a string means: drop leading and trailing whitespace.
pub open spec fn trim_spec(s: Seq<char>) -> Seq<char> {
    trim_back(trim_front(s))
}

proof fn lemma_trim_front_empty(s: Seq<char>)
    ensures
        trim_front(s).len() == 0 <==> (forall|i: int| 0 <= i < s.len() ==> is_ws(s[i])),
        trim_front(s).len() > 0 ==> !is_ws(trim_front(s)[0]),
    decreases s.len(),
{
    if s.len() > 0 && is_ws(s[0]) {
        lemma_trim_front_empty(s.drop_first());
        if trim_front(s).len() == 0 {
            assert forall|i: int| 0 <= i < s.len() implies is_ws(s[i]) by {
                if i > 0 {
                    assert(s.drop_first()[i - 1] == s[i]);
                }
            }
        }
    }
}

proof fn lemma_trim_back_empty(s: Seq<char>)
    ensures
        trim_back(s).len() == 0 <==> (forall|i: int| 0 <= i < s.len() ==> is_ws(s[i])),
    decreases s.len(),
{
    if s.len() > 0 && is_ws(s.last()) {
        lemma_trim_back_empty(s.drop_last());
        if trim_back(s).len() == 0 {
            assert forall|i: int| 0 <= i < s.len() implies is_ws(s[i]) by {
                if i < s.len() - 1 {
                    assert(s.drop_last()[i] == s[i]);
                }
            }
        }
    }
}

/// A trimmed string is empty exactly when every character of the
/// original was whitespace; in particular the empty string trims to
/// itself.
pub proof fn lemma_trim_empty_iff_ws(s: Seq<char>)
    ensures
        trim_spec(s).len() == 0 <==> (forall|i: int| 0 <= i < s.len() ==> is_ws(s[i])),
{
    lemma_trim_front_empty(s);
    lemma_trim_back_empty(trim_front(s));
    if trim_spec(s).len() == 0 {
        if trim_front(s).len() > 0 {
            assert(is_ws(trim_front(s)[0]));
            assert(false);
        }
    } else {
        if forall|i: int| 0 <= i < s.len() ==> is_ws(s[i]) {
            assert(trim_front(s).len() == 0);
        }
    }
}

/// The string with leading and trailing whitespace removed, as
/// `str::trim` would produce it.
pub fn trim_str(s: &str) -> (r: &str)
    ensures
        r@ == trim_spec(s@),
{
    let n: usize = s.unicode_len();
    proof {
        assert(s@.subrange(0, n as int) =~= s@);
    }
    let mut i: usize = 0;
    while i < n && is_ws_char(s.get_char(i))
        invariant
            0 <= i <= n,
            n == s@.len(),
            trim_front(s@) == trim_front(s@.subrange(i as int, n as int)),
        decreases n - i,
    {
        proof {
            let t = s@.subrange(i as int, n as int);
            assert(t[0] == s@[i as int]);
            assert(t.drop_first() =~= s@.subrange(i + 1, n as int));
        }
        i = i + 1;
    }
    proof {
        let t = s@.subrange(i as int, n as int);
        if i < n {
            assert(t[0] == s@[i as int]);
            assert(trim_front(t) == t);
        } else {
            assert(t.len() == 0);
        }
        assert(trim_front(s@) == s@.subrange(i as int, n as int));
    }
    let mut j: usize = n;
    while j > i && is_ws_char(s.get_char(j - 1))
        invariant
            i <= j <= n,
            n == s@.len(),
            trim_front(s@) == s@.subrange(i as int, n as int),
            trim_back(trim_front(s@)) == trim_back(s@.subrange(i as int, j as int)),
        decreases j - i,
    {
        proof {
            let t = s@.subrange(i as int, j as int);
            assert(t.last() == s@[j - 1]);
            assert(t.drop_last() =~= s@.subrange(i as int, j - 1));
        }
        j = j - 1;
    }
    proof {
        let t = s@.subrange(i as int, j as int);
        if j > i {
            assert(t.last() == s@[j - 1]);
            assert(trim_back(t) == t);
        } else {
            assert(t.len() == 0);
        }
        assert(trim_spec(s@) == s@.subrange(i as int, j as int));
    }
    s.substring_char(i, j)
}

/// Code-point lexicographic "less than or equal" on character
/// sequences; for UTF-8 encoded names this coincides with byte order.
pub open spec fn lex_le(a: Seq<char>, b: Seq<char>) -> bool
    decreases a.len(),
{
    if a.len() == 0 {
        true
    } else if b.len() == 0 {
        false
    } else if a[0] == b[0] {
        lex_le(a.drop_first(), b.drop_first())
    } else {
        (a[0] as u32) < (b[0] as u32)
    }
}

/// The ordering relation under which image listings are sorted.
pub open spec fn lex_leq_rel() -> spec_fn(Seq<char>, Seq<char>) -> bool {
    |a: Seq<char>, b: Seq<char>| lex_le(a, b)
}

proof fn lemma_lex_refl(a: Seq<char>)
    ensures
        lex_le(a, a),
    decreases a.len(),
{
    if a.len() > 0 {
        lemma_lex_refl(a.drop_first());
    }
}

proof fn lemma_lex_total(a: Seq<char>, b: Seq<char>)
    ensures
        lex_le(a, b) || lex_le(b, a),
    decreases a.len(),
{
    if a.len() > 0 && b.len() > 0 {
        if a[0] == b[0] {
            lemma_lex_total(a.drop_first(), b.drop_first());
        } else {
            vstd::utf8::char_u32_cast(a[0], a[0] as u32);
            vstd::utf8::char_u32_cast(b[0], b[0] as u32);
            assert((a[0] as u32) != (b[0] as u32));
        }
    }
}

proof fn lemma_lex_antisym(a: Seq<char>, b: Seq<char>)
    requires
        lex_le(a, b),
        lex_le(b, a),
    ensures
        a == b,
    decreases a.len(),
{
    if a.len() == 0 {
        assert(b.len() == 0);
        assert(a =~= b);
    } else {
        assert(b.len() > 0);
        assert(a[0] == b[0]);
        lemma_lex_antisym(a.drop_first(), b.drop_first());
        assert(a.drop_first() == b.drop_first());
        assert(a.drop_first().len() == a.len() - 1);
        assert(b.drop_first().len() == b.len() - 1);
        assert(a.len() == b.len());
        assert forall|i: int| 0 <= i < a.len() implies a[i] == b[i] by {
            if i > 0 {
                assert(a.drop_first()[i - 1] == b.drop_first()[i - 1]);
            }
        }
        assert(a =~= b);
    }
}

proof fn lemma_lex_trans(a: Seq<char>, b: Seq<char>, c: Seq<char>)
    requires
        lex_le(a, b),
        lex_le(b, c),
    ensures
        lex_le(a, c),
    decreases a.len(),
{
    if a.len() > 0 {
        if b.len() > 0 && c.len() > 0 && a[0] == b[0] && b[0] == c[0] {
            lemma_lex_trans(a.drop_first(), b.drop_first(), c.drop_first());
        }
    }
}

/// `lex_le` is a total order on character sequences, so a sorted
/// listing of given names is unique.
pub proof fn lemma_lex_total_ordering()
    ensures
        vstd::relations::total_ordering(lex_leq_rel()),
{
    let r = lex_leq_rel();
    assert forall|a: Seq<char>| #[trigger] r(a, a) by {
        lemma_lex_refl(a);
    }
    assert forall|a: Seq<char>, b: Seq<char>| #[trigger] r(a, b) && #[trigger] r(b, a) implies a
        == b by {
        lemma_lex_antisym(a, b);
    }
    assert forall|a: Seq<char>, b: Seq<char>, c: Seq<char>|
        #[trigger] r(a, b) && #[trigger] r(b, c) implies r(a, c) by {
        lemma_lex_trans(a, b, c);
    }
    assert forall|a: Seq<char>, b: Seq<char>| #[trigger] r(a, b) || #[trigger] r(b, a) by {
        lemma_lex_total(a, b);
    }
}

/// Whether `a` comes no later than `b` in code-point lexicographic
/// order.
pub fn str_lex_le(a: &str, b: &str) -> (r: bool)
    ensures
        r == lex_le(a@, b@),
{
    let an: usize = a.unicode_len();
    let bn: usize = b.unicode_len();
    proof {
        assert(a@.subrange(0, an as int) =~= a@);
        assert(b@.subrange(0, bn as int) =~= b@);
    }
    let mut i: usize = 0;
    while i < an && i < bn
        invariant
            0 <= i <= an,
            0 <= i <= bn,
            an == a@.len(),
            bn == b@.len(),
            lex_le(a@, b@) == lex_le(
                a@.subrange(i as int, an as int),
                b@.subrange(i as int, bn as int),
            ),
        decreases an - i,
    {
        let ca = a.get_char(i);
        let cb = b.get_char(i);
        proof {
            let ta = a@.subrange(i as int, an as int);
            let tb = b@.subrange(i as int, bn as int);
            assert(ta[0] == a@[i as int]);
            assert(tb[0] == b@[i as int]);
            assert(ta.drop_first() =~= a@.subrange(i + 1, an as int));
            assert(tb.drop_first() =~= b@.subrange(i + 1, bn as int));
        }
        if ca == cb {
            i = i + 1;
        } else {
            return (ca as u32) < (cb as u32);
        }
    }
    proof {
        let ta = a@.subrange(i as int, an as int);
        let tb = b@.subrange(i as int, bn as int);
        if i == an {
            assert(ta.len() == 0);
        } else {
            assert(tb.len() == 0);
            assert(ta.len() > 0);
        }
    }
    i == an
}

/// Whether two strings hold the same characters.
pub fn str_eq(a: &str, b: &str) -> (r: bool)
    ensures
        r == (a@ == b@),
{
    let an: usize = a.unicode_len();
    let bn: usize = b.unicode_len();
    if an != bn {
        return false;
    }
    let mut i: usize = 0;
    while i < an
        invariant
            0 <= i <= an,
            an == a@.len(),
            an == b@.len(),
            forall|k: int| 0 <= k < i ==> a@[k] == b@[k],
        decreases an - i,
    {
        if a.get_char(i) != b.get_char(i) {
            return false;
        }
        i = i + 1;
    }
    proof {
        assert(a@ =~= b@);
    }
    true
}

/// The character sequences of a sequence of names.
pub open spec fn names_of(v: Seq<String>) -> Seq<Seq<char>> {
    v.map_values(|s: String| s@)
}

/// Whether a vector of names is sorted in code-point lexicographic
/// order.
pub open spec fn sorted_names(v: Seq<String>) -> bool {
    vstd::relations::sorted_by(names_of(v), lex_leq_rel())
}

/// Sorts names into code-point lexicographic order; the result is a
/// permutation of the input.
pub fn sort_names(names: Vec<String>) -> (r: Vec<String>)
    ensures
        sorted_names(r@),
        names_of(r@).to_multiset() == names_of(names@).to_multiset(),
{
    broadcast use vstd::seq_lib::group_to_multiset_ensures;
    broadcast use vstd::multiset::group_multiset_axioms;

    let mut v = names;
    let ghost orig = names_of(v@);
    let mut out: Vec<String> = Vec::new();
    proof {
        assert(names_of(out@) =~= Seq::<Seq<char>>::empty());
        assert(names_of(out@).to_multiset().add(names_of(v@).to_multiset()) =~= names_of(
            v@,
        ).to_multiset());
    }
    while v.len() > 0
        invariant
            sorted_names(out@),
            names_of(out@).to_multiset().add(names_of(v@).to_multiset()) == orig.to_multiset(),
        decreases v.len(),
    {
        let ghost v_before = names_of(v@);
        let x = v.pop().unwrap();
        proof {
            assert(names_of(v@) =~= v_before.drop_last());
            assert(v_before =~= names_of(v@) + seq![x@]);
            vstd::seq_lib::lemma_multiset_commutative(names_of(v@), seq![x@]);
        }
        let mut p: usize = 0;
        while p < out.len() && str_lex_le(out[p].as_str(), x.as_str())
            invariant
                0 <= p <= out.len(),
                forall|k: int| 0 <= k < p ==> lex_le(names_of(out@)[k], x@),
            decreases out.len() - p,
        {
            proof {
                assert(names_of(out@)[p as int] == out@[p as int]@);
            }
            p = p + 1;
        }
        let ghost out_before = names_of(out@);
        proof {
            if (p as int) < out_before.len() {
                assert(out_before[p as int] == out@[p as int]@);
                lemma_lex_total(out_before[p as int], x@);
                assert(lex_le(x@, out_before[p as int]));
            }
        }
        let ghost out_strs = out@;
        out.insert(p, x);
        proof {
            let r = lex_leq_rel();
            let out_after = names_of(out@);
            out_strs.insert_ensures(p as int, x);
            out_before.insert_ensures(p as int, x@);
            assert forall|i: int| 0 <= i < out_after.len() implies out_after[i] == out_before.insert(
                p as int,
                x@,
            )[i] by {
                assert(out_after[i] == out@[i]@);
                if i < p {
                    assert(out@[i] == out_strs[i]);
                } else if i == p {
                    assert(out@[i] == x);
                } else {
                    assert(out@[i] == out_strs[i - 1]);
                    assert(out_before.insert(p as int, x@)[(i - 1) + 1] == out_before[i - 1]);
                }
            }
            assert(out_after =~= out_before.insert(p as int, x@));
            assert forall|i: int, j: int| 0 <= i < j < out_after.len() implies #[trigger] r(
                out_after[i],
                out_after[j],
            ) by {
                if j < p {
                    assert(r(out_before[i], out_before[j]));
                } else if i > p {
                    assert(out_after[i] == out_before[i - 1]);
                    assert(out_after[j] == out_before[j - 1]);
                    assert(r(out_before[i - 1], out_before[j - 1]));
                } else if i < p && j == p {
                    assert(out_after[j] == x@);
                    assert(lex_le(out_before[i], x@));
                } else if i == p && j > p {
                    assert(out_after[i] == x@);
                    assert(out_after[j] == out_before[j - 1]);
                    assert(lex_le(x@, out_before[p as int]));
                    if j - 1 > p {
                        assert(r(out_before[p as int], out_before[j - 1]));
                        lemma_lex_trans(x@, out_before[p as int], out_before[j - 1]);
                    }
                } else if i < p && j > p {
                    assert(out_after[j] == out_before[j - 1]);
                    if j - 1 == i {
                        lemma_lex_refl(out_before[i]);
                    } else {
                        assert(r(out_before[i], out_before[j - 1]));
                    }
                }
            }
            let front = out_before.subrange(0, p as int);
            let back = out_before.subrange(p as int, out_before.len() as int);
            assert(out_before =~= front + back);
            assert(out_after =~= front + (seq![x@] + back));
            vstd::seq_lib::lemma_multiset_commutative(front, back);
            vstd::seq_lib::lemma_multiset_commutative(seq![x@], back);
            vstd::seq_lib::lemma_multiset_commutative(front, seq![x@] + back);
            assert(out_after.to_multiset().add(names_of(v@).to_multiset()) =~= orig.to_multiset());
        }
    }
    proof {
        assert(names_of(v@).to_multiset() =~= Multiset::<Seq<char>>::empty());
        assert(names_of(out@).to_multiset() =~= orig.to_multiset());
    }
    out
}

} // verus!
