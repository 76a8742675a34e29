//! The '$'-separated text layout of the ciphertext envelope: a model of
//! splitting a text into fields, the verified splitter, and the lemmas that
//! make joining and splitting inverse to each other.

use crate::crypto::push_char;
use vstd::prelude::*;

verus! {

/// No '$' occurs in the sequence.
pub open spec fn dollar_free(s: Seq<char>) -> bool {
    forall|i: int| 0 <= i < s.len() ==> s[i] != '$'
}

/// The fields of a '$'-separated text, in order. A text without the
/// separator is a single field (the empty text a single empty field), and
/// every separator opens a new field.
pub open spec fn split_parts(s: Seq<char>) -> Seq<Seq<char>>
    decreases s.len(),
{
    if s.len() == 0 {
        seq![Seq::<char>::empty()]
    } else if s[0] == '$' {
        seq![Seq::<char>::empty()] + split_parts(s.drop_first())
    } else {
        let rest = split_parts(s.drop_first());
        seq![seq![s[0]] + rest[0]] + rest.drop_first()
    }
}

pub proof fn lemma_split_len(s: Seq<char>)
    ensures
        split_parts(s).len() >= 1,
    decreases s.len(),
{
    if s.len() > 0 {
        lemma_split_len(s.drop_first());
    }
}

/// A separator-free text splits into itself as its one field.
pub proof fn lemma_split_no_dollar(s: Seq<char>)
    requires
        dollar_free(s),
    ensures
        split_parts(s) =~~= seq![s],
    decreases s.len(),
{
    if s.len() == 0 {
        assert(split_parts(s) =~~= seq![s]);
    } else {
        assert(s[0] != '$');
        lemma_split_no_dollar(s.drop_first());
        assert(seq![s[0]] + s.drop_first() =~= s);
        assert(split_parts(s) =~~= seq![s]);
    }
}

/// Splitting starts over after the first separator: a separator-free prefix
/// becomes the first field, and the rest splits on its own.
pub proof fn lemma_split_prefix(a: Seq<char>, rest: Seq<char>)
    requires
        dollar_free(a),
    ensures
        split_parts(a + seq!['$'] + rest) =~~= seq![a] + split_parts(rest),
    decreases a.len(),
{
    lemma_split_len(rest);
    if a.len() == 0 {
        let s = a + seq!['$'] + rest;
        assert(s =~= seq!['$'] + rest);
        assert(s[0] == '$');
        assert(s.drop_first() =~= rest);
        assert(split_parts(s) =~~= seq![a] + split_parts(rest));
    } else {
        let s = a + seq!['$'] + rest;
        assert(s[0] == a[0]);
        assert(a[0] != '$');
        assert(s.drop_first() =~= a.drop_first() + seq!['$'] + rest);
        lemma_split_prefix(a.drop_first(), rest);
        let r2 = split_parts(a.drop_first() + seq!['$'] + rest);
        assert(r2 =~~= seq![a.drop_first()] + split_parts(rest));
        assert(seq![s[0]] + r2[0] =~= a);
        assert(r2.drop_first() =~~= split_parts(rest));
        assert(split_parts(s) =~~= seq![a] + split_parts(rest));
    }
}

/// The views of a vector of field strings.
pub open spec fn views_of(parts: Seq<String>) -> Seq<Seq<char>> {
    parts.map_values(|p: String| p@)
}

/// The first pending field, still being collected, merged onto the fields
/// of the unread suffix.
pub open spec fn merge_first(cur: Seq<char>, ps: Seq<Seq<char>>) -> Seq<Seq<char>> {
    seq![cur + ps[0]] + ps.drop_first()
}

/// Split a text on '$' into its fields.
pub fn split_dollar(s: &str) -> (parts: Vec<String>)
    ensures
        views_of(parts@) =~~= split_parts(s@),
{
    let n = s.unicode_len();
    let mut parts: Vec<String> = Vec::new();
    let mut cur = String::new();
    let mut i: usize = 0;
    proof {
        assert(s@.skip(0) =~= s@);
    }
    while i < n
        invariant
            n == s@.len(),
            i <= n,
            split_parts(s@) =~~= views_of(parts@) + merge_first(
                cur@,
                split_parts(s@.skip(i as int)),
            ),
        decreases n - i,
    {
        let ghost t = s@.skip(i as int);
        proof {
            assert(t.len() > 0);
            assert(t[0] == s@[i as int]);
            assert(t.drop_first() =~= s@.skip(i + 1));
            lemma_split_len(t.drop_first());
        }
        let c = s.get_char(i);
        if c == '$' {
            proof {
                assert(split_parts(t) =~~= seq![Seq::<char>::empty()] + split_parts(
                    t.drop_first(),
                ));
                assert(merge_first(cur@, split_parts(t)) =~~= seq![cur@] + split_parts(
                    t.drop_first(),
                ));
                assert(views_of(parts@.push(cur)) =~~= views_of(parts@) + seq![cur@]);
                assert(merge_first(Seq::<char>::empty(), split_parts(t.drop_first())) =~~=
                    split_parts(t.drop_first()));
            }
            parts.push(cur);
            cur = String::new();
        } else {
            proof {
                let r2 = split_parts(t.drop_first());
                assert(split_parts(t) =~~= seq![seq![t[0]] + r2[0]] + r2.drop_first());
                assert(merge_first(cur@, split_parts(t)) =~~= seq![cur@ + seq![t[0]] + r2[0]]
                    + r2.drop_first());
                assert(cur@.push(c) + r2[0] =~= cur@ + seq![t[0]] + r2[0]);
                assert(merge_first(cur@.push(c), r2) =~~= merge_first(cur@, split_parts(t)));
            }
            push_char(&mut cur, c);
        }
        i += 1;
    }
    proof {
        assert(s@.skip(n as int) =~= Seq::<char>::empty());
        assert(merge_first(cur@, split_parts(s@.skip(n as int))) =~~= seq![cur@]);
        assert(views_of(parts@.push(cur)) =~~= views_of(parts@) + seq![cur@]);
    }
    parts.push(cur);
    parts
}

} // verus!
