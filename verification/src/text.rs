//! String helpers: splitting on a separator character, equality, and the
//! spec-level model of splitting that the library's contracts are stated over.

use vstd::prelude::*;
use vstd::string::StrSliceExecFns;

verus! {

/// The mathematical model of splitting `s` on the separator `sep`: the
/// sequence of segments between separators. An empty input yields one empty
/// segment; `n` separators always yield `n + 1` segments.
pub open spec fn spec_split(s: Seq<char>, sep: char) -> Seq<Seq<char>>
    decreases s.len(),
{
    if s.len() == 0 {
        seq![Seq::<char>::empty()]
    } else if s[0] == sep {
        seq![Seq::<char>::empty()] + spec_split(s.drop_first(), sep)
    } else {
        let rest = spec_split(s.drop_first(), sep);
        seq![seq![s[0]] + rest[0]] + rest.drop_first()
    }
}

/// Splitting always yields at least one segment.
pub proof fn lemma_split_len(s: Seq<char>, sep: char)
    ensures
        spec_split(s, sep).len() >= 1,
    decreases s.len(),
{
    if s.len() != 0 {
        lemma_split_len(s.drop_first(), sep);
    }
}

/// `sep` occurs nowhere in `s`.
pub open spec fn has_no_sep(s: Seq<char>, sep: char) -> bool {
    forall|i: int| 0 <= i < s.len() ==> s[i] != sep
}

/// A string without the separator splits into exactly itself.
pub proof fn lemma_split_no_sep(s: Seq<char>, sep: char)
    requires
        has_no_sep(s, sep),
    ensures
        spec_split(s, sep) =~~= seq![s],
    decreases s.len(),
{
    if s.len() != 0 {
        assert(s[0] != sep);
        lemma_split_no_sep(s.drop_first(), sep);
        assert(spec_split(s, sep) =~~= seq![seq![s[0]] + s.drop_first()]);
        assert(seq![s[0]] + s.drop_first() =~= s);
    }
}

/// A separator right after a separator-free prefix cuts the split there.
pub proof fn lemma_split_sep_after_prefix(a: Seq<char>, rest: Seq<char>, sep: char)
    requires
        has_no_sep(a, sep),
    ensures
        spec_split(a + seq![sep] + rest, sep) =~~= seq![a] + spec_split(rest, sep),
    decreases a.len(),
{
    let s = a + seq![sep] + rest;
    if a.len() == 0 {
        assert(s[0] == sep);
        assert(s.drop_first() =~= rest);
        assert(spec_split(s, sep) =~~= seq![Seq::<char>::empty()] + spec_split(rest, sep));
    } else {
        assert(s[0] == a[0]);
        assert(s[0] != sep);
        assert(s.drop_first() =~= a.drop_first() + seq![sep] + rest);
        lemma_split_sep_after_prefix(a.drop_first(), rest, sep);
        let inner = spec_split(s.drop_first(), sep);
        assert(inner =~~= seq![a.drop_first()] + spec_split(rest, sep));
        lemma_split_len(rest, sep);
        assert(inner[0] == a.drop_first());
        assert(seq![s[0]] + inner[0] =~= a);
        assert(inner.drop_first() =~~= spec_split(rest, sep));
    }
}

/// How the split of a string grows when one character is appended.
proof fn lemma_split_push(s: Seq<char>, sep: char, c: char)
    ensures
        c == sep ==> spec_split(s.push(c), sep) =~~= spec_split(s, sep).push(
            Seq::<char>::empty(),
        ),
        c != sep ==> spec_split(s.push(c), sep) =~~= spec_split(s, sep).update(
            spec_split(s, sep).len() - 1,
            spec_split(s, sep).last().push(c),
        ),
    decreases s.len(),
{
    lemma_split_len(s, sep);
    if s.len() == 0 {
        let t = s.push(c);
        assert(t[0] == c);
        assert(t.drop_first() =~= Seq::<char>::empty());
        assert(spec_split(Seq::<char>::empty(), sep) =~~= seq![Seq::<char>::empty()]);
        if c != sep {
            assert(spec_split(t, sep) =~~= seq![seq![c] + Seq::<char>::empty()]);
            assert(seq![c] + Seq::<char>::empty() =~= seq![c]);
            assert(spec_split(t, sep) =~~= seq![seq![c]]);
            assert(spec_split(s, sep).update(0, Seq::<char>::empty().push(c)) =~~= seq![
                seq![c],
            ]);
        }
    } else {
        let t = s.push(c);
        assert(t[0] == s[0]);
        assert(t.drop_first() =~= s.drop_first().push(c));
        lemma_split_push(s.drop_first(), sep, c);
        let rest = spec_split(s.drop_first(), sep);
        let rest2 = spec_split(s.drop_first().push(c), sep);
        lemma_split_len(s.drop_first(), sep);
        if s[0] == sep {
            if c == sep {
                assert(spec_split(t, sep) =~~= seq![Seq::<char>::empty()] + rest.push(
                    Seq::<char>::empty(),
                ));
                assert(spec_split(s, sep).push(Seq::<char>::empty()) =~~= seq![
                    Seq::<char>::empty(),
                ] + rest.push(Seq::<char>::empty()));
            } else {
                assert(rest2 =~~= rest.update(rest.len() - 1, rest.last().push(c)));
                assert(spec_split(t, sep) =~~= seq![Seq::<char>::empty()] + rest2);
                let full = spec_split(s, sep);
                assert(full =~~= seq![Seq::<char>::empty()] + rest);
                assert(full.last() == rest.last());
                assert(full.update(full.len() - 1, full.last().push(c)) =~~= seq![
                    Seq::<char>::empty(),
                ] + rest.update(rest.len() - 1, rest.last().push(c)));
            }
        } else {
            if c == sep {
                assert(rest2 =~~= rest.push(Seq::<char>::empty()));
                assert(rest2[0] == rest[0]);
                assert(spec_split(t, sep) =~~= seq![seq![t[0]] + rest2[0]] + rest2.drop_first());
                assert(rest2.drop_first() =~~= rest.drop_first().push(Seq::<char>::empty()));
                assert(spec_split(s, sep).push(Seq::<char>::empty()) =~~= seq![
                    seq![s[0]] + rest[0],
                ] + rest.drop_first().push(Seq::<char>::empty()));
            } else {
                assert(rest2 =~~= rest.update(rest.len() - 1, rest.last().push(c)));
                let full = spec_split(s, sep);
                assert(full =~~= seq![seq![s[0]] + rest[0]] + rest.drop_first());
                if rest.len() == 1 {
                    assert(rest2[0] == rest[0].push(c));
                    assert(spec_split(t, sep) =~~= seq![seq![t[0]] + rest[0].push(c)] + rest2.drop_first());
                    assert(full.update(full.len() - 1, full.last().push(c)) =~~= seq![
                        (seq![s[0]] + rest[0]).push(c),
                    ]);
                    assert(seq![t[0]] + rest[0].push(c) =~= (seq![s[0]] + rest[0]).push(c));
                    assert(rest2.drop_first() =~~= Seq::<Seq<char>>::empty());
                } else {
                    assert(rest2[0] == rest[0]);
                    assert(spec_split(t, sep) =~~= seq![seq![t[0]] + rest[0]] + rest2.drop_first());
                    assert(rest2.drop_first() =~~= rest.drop_first().update(
                        rest.drop_first().len() - 1,
                        rest.drop_first().last().push(c),
                    ));
                    assert(full.last() == rest.last());
                    assert(full.update(full.len() - 1, full.last().push(c)) =~~= seq![
                        seq![s[0]] + rest[0],
                    ] + rest.drop_first().update(
                        rest.drop_first().len() - 1,
                        rest.drop_first().last().push(c),
                    ));
                }
            }
        }
    }
}

/// First value bound to `key` in an association list, if any.
pub open spec fn spec_lookup<V>(pairs: Seq<(Seq<char>, V)>, key: Seq<char>) -> Option<V>
    decreases pairs.len(),
{
    if pairs.len() == 0 {
        None
    } else if pairs[0].0 == key {
        Some(pairs[0].1)
    } else {
        spec_lookup(pairs.drop_first(), key)
    }
}

/// The views of a vector of strings.
pub open spec fn views_of(parts: Seq<String>) -> Seq<Seq<char>> {
    parts.map_values(|p: String| p@)
}

/// Splits `s` on `sep`, exactly as [`spec_split`] describes.
pub fn split_char(s: &str, sep: char) -> (parts: Vec<String>)
    ensures
        views_of(parts@) == spec_split(s@, sep),
{
    let n = s.unicode_len();
    let mut parts: Vec<String> = Vec::new();
    let mut start: usize = 0;
    let mut i: usize = 0;
    while i < n
        invariant
            i <= n,
            start <= i,
            n == s@.len(),
            views_of(parts@).push(s@.subrange(start as int, i as int)) =~~= spec_split(
                s@.subrange(0, i as int),
                sep,
            ),
        decreases n - i,
    {
        let c = s.get_char(i);
        proof {
            lemma_split_push(s@.subrange(0, i as int), sep, s@[i as int]);
            assert(s@.subrange(0, i as int + 1) =~= s@.subrange(0, i as int).push(s@[i as int]));
            lemma_split_len(s@.subrange(0, i as int), sep);
        }
        if c == sep {
            let ghost prev = parts@;
            let seg = s.substring_char(start, i).to_owned();
            proof {
                assert(seg@ == s@.subrange(start as int, i as int));
            }
            parts.push(seg);
            proof {
                assert(views_of(parts@) =~~= views_of(prev).push(
                    s@.subrange(start as int, i as int),
                ));
            }
            start = i + 1;
            proof {
                assert(s@.subrange(start as int, i as int + 1) =~= Seq::<char>::empty());
            }
        } else {
            proof {
                assert(s@.subrange(start as int, i as int + 1) =~= s@.subrange(
                    start as int,
                    i as int,
                ).push(s@[i as int]));
                let old_split = spec_split(s@.subrange(0, i as int), sep);
                assert(views_of(parts@).push(s@.subrange(start as int, i as int + 1))
                    =~~= old_split.update(
                    old_split.len() - 1,
                    old_split.last().push(s@[i as int]),
                ));
            }
        }
        i += 1;
    }
    let ghost prev = parts@;
    let seg = s.substring_char(start, n).to_owned();
    parts.push(seg);
    proof {
        assert(s@.subrange(0, n as int) =~= s@);
        assert(views_of(parts@) =~~= views_of(prev).push(s@.subrange(start as int, n as int)));
    }
    parts
}

/// Character-for-character string equality.
pub fn str_eq(a: &str, b: &str) -> (r: bool)
    ensures
        r == (a@ == b@),
{
    let an = a.unicode_len();
    let bn = b.unicode_len();
    if an != bn {
        return false;
    }
    let mut i: usize = 0;
    while i < an
        invariant
            i <= an,
            an == a@.len(),
            an == b@.len(),
            forall|j: int| 0 <= j < i ==> a@[j] == b@[j],
        decreases an - i,
    {
        if a.get_char(i) != b.get_char(i) {
            return false;
        }
        i += 1;
    }
    proof {
        assert(a@ =~= b@);
    }
    true
}

} // verus!
