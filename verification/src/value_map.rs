//! An ordered association from column identifiers to operands, kept as a
//! list of entries sorted strictly by identifier order. The list denotes a
//! mapping (`map_of`); inserting an entry with an existing key overwrites
//! the old operand, as an ordered map's insert does.

use vstd::prelude::*;
use crate::common::{Identifier, Operand};
use crate::text::{
    lex_lt, lemma_lex_lt_irreflexive, lemma_lex_lt_transitive, lemma_lex_lt_trichotomy,
};

verus! {

/// The (identifier text, operand text) pairs of a list of entries.
pub open spec fn entry_views(s: Seq<(Identifier, Operand)>) -> Seq<(Seq<char>, Seq<char>)> {
    s.map_values(|e: (Identifier, Operand)| (e.0@, e.1@))
}

/// The keys are strictly ascending in identifier order.
pub open spec fn keys_sorted(s: Seq<(Seq<char>, Seq<char>)>) -> bool {
    forall|i: int, j: int| 0 <= i < j < s.len() ==> lex_lt(s[i].0, s[j].0)
}

/// No two entries share a key.
pub open spec fn distinct_keys(s: Seq<(Seq<char>, Seq<char>)>) -> bool {
    forall|i: int, j: int| 0 <= i < j < s.len() ==> s[i].0 != s[j].0
}

/// The mapping that a sequence of entries denotes: later entries overwrite
/// earlier ones with the same key.
pub open spec fn map_of(s: Seq<(Seq<char>, Seq<char>)>) -> Map<Seq<char>, Seq<char>>
    decreases s.len(),
{
    if s.len() == 0 {
        Map::empty()
    } else {
        map_of(s.drop_last()).insert(s.last().0, s.last().1)
    }
}

pub proof fn lemma_sorted_keys_distinct(s: Seq<(Seq<char>, Seq<char>)>)
    requires
        keys_sorted(s),
    ensures
        distinct_keys(s),
{
    assert forall|i: int, j: int| 0 <= i < j < s.len() implies s[i].0 != s[j].0 by {
        if s[i].0 == s[j].0 {
            lemma_lex_lt_irreflexive(s[i].0);
        }
    }
}

/// What `map_of` holds, entry by entry, when the keys are distinct: its
/// domain is exactly the set of keys, and each key maps to its entry's
/// operand text.
pub proof fn lemma_map_of_characterization(s: Seq<(Seq<char>, Seq<char>)>)
    requires
        distinct_keys(s),
    ensures
        map_of(s).dom().finite(),
        forall|k: Seq<char>|
            #[trigger] map_of(s).dom().contains(k) ==> exists|i: int|
                0 <= i < s.len() && #[trigger] s[i].0 == k,
        forall|i: int|
            #![trigger s[i]]
            0 <= i < s.len() ==> map_of(s).dom().contains(s[i].0) && map_of(s)[s[i].0] == s[i].1,
    decreases s.len(),
{
    if s.len() > 0 {
        let d = s.drop_last();
        assert(forall|i: int| 0 <= i < d.len() ==> d[i] == s[i]);
        lemma_map_of_characterization(d);
        assert forall|i: int| #![trigger s[i]] 0 <= i < s.len() implies map_of(s).dom().contains(
            s[i].0,
        ) && map_of(s)[s[i].0] == s[i].1 by {
            if i < s.len() - 1 {
                assert(d[i] == s[i]);
                assert(s[i].0 != s.last().0);
            }
        }
        assert forall|k: Seq<char>| #[trigger] map_of(s).dom().contains(k) implies exists|i: int|
            0 <= i < s.len() && #[trigger] s[i].0 == k by {
            if k == s.last().0 {
                assert(s[s.len() - 1].0 == k);
            } else {
                assert(map_of(d).dom().contains(k));
                let i = choose|i: int| 0 <= i < d.len() && #[trigger] d[i].0 == k;
                assert(s[i].0 == k);
            }
        }
    }
}

/// A mapping with distinct keys has exactly one entry per key.
pub proof fn lemma_map_of_len(s: Seq<(Seq<char>, Seq<char>)>)
    requires
        distinct_keys(s),
    ensures
        map_of(s).dom().finite(),
        map_of(s).dom().len() == s.len(),
    decreases s.len(),
{
    if s.len() > 0 {
        let d = s.drop_last();
        assert(forall|i: int| 0 <= i < d.len() ==> d[i] == s[i]);
        lemma_map_of_len(d);
        lemma_map_of_characterization(d);
        if map_of(d).dom().contains(s.last().0) {
            let i = choose|i: int| 0 <= i < d.len() && #[trigger] d[i].0 == s.last().0;
            assert(s[i].0 == s[s.len() - 1].0);
            assert(false);
        }
        assert(map_of(s).dom() =~= map_of(d).dom().insert(s.last().0));
        vstd::set::axiom_set_insert_len(map_of(d).dom(), s.last().0);
    }
}

/// The column→operand entries that parallel column and value lists denote,
/// paired index by index.
pub open spec fn aligned_entries(cols: Seq<Seq<char>>, vals: Seq<Seq<char>>) -> Seq<
    (Seq<char>, Seq<char>),
> {
    Seq::new(cols.len(), |i: int| (cols[i], vals[i]))
}

/// The mapping from each column to the operand at its index; a column that
/// occurs twice keeps the operand of its last occurrence.
pub open spec fn aligned_map(cols: Seq<Seq<char>>, vals: Seq<Seq<char>>) -> Map<
    Seq<char>,
    Seq<char>,
> {
    map_of(aligned_entries(cols, vals))
}

/// When the column and value counts match and the columns are pairwise
/// distinct, a sorted entry list that denotes the aligned mapping has
/// exactly one entry per column.
pub proof fn lemma_value_map_entry_count(
    cols: Seq<Seq<char>>,
    vals: Seq<Seq<char>>,
    entries: Seq<(Seq<char>, Seq<char>)>,
)
    requires
        cols.len() == vals.len(),
        forall|i: int, j: int| 0 <= i < j < cols.len() ==> cols[i] != cols[j],
        keys_sorted(entries),
        map_of(entries) == aligned_map(cols, vals),
    ensures
        entries.len() == cols.len(),
{
    lemma_sorted_keys_distinct(entries);
    lemma_map_of_len(entries);
    let ae = aligned_entries(cols, vals);
    assert forall|i: int, j: int| 0 <= i < j < ae.len() implies ae[i].0 != ae[j].0 by {
        assert(ae[i].0 == cols[i]);
        assert(ae[j].0 == cols[j]);
    }
    lemma_map_of_len(ae);
}

/// Insert one pair into a sorted entry list, keeping it sorted. An entry
/// with the same key is overwritten, so the denoted mapping gains exactly
/// this pair.
pub fn map_put(entries: &mut Vec<(Identifier, Operand)>, key: Identifier, value: Operand)
    requires
        keys_sorted(entry_views(old(entries)@)),
    ensures
        keys_sorted(entry_views(final(entries)@)),
        map_of(entry_views(final(entries)@)) == map_of(entry_views(old(entries)@)).insert(
            key@,
            value@,
        ),
{
    let ghost u = entry_views(old(entries)@);
    proof {
        lemma_sorted_keys_distinct(u);
        lemma_map_of_characterization(u);
    }
    let n = entries.len();
    let mut p: usize = 0;
    loop
        invariant
            *entries == *old(entries),
            u == entry_views(entries@),
            n == entries@.len(),
            0 <= p <= n,
            forall|j: int| 0 <= j < p ==> lex_lt(#[trigger] u[j].0, key@),
        ensures
            *entries == *old(entries),
            0 <= p <= n,
            forall|j: int| 0 <= j < p ==> lex_lt(#[trigger] u[j].0, key@),
            p < n ==> !lex_lt(u[p as int].0, key@),
        decreases n - p,
    {
        if p == n {
            break;
        }
        if !entries[p].0.lt(&key) {
            proof {
                assert(u[p as int].0 == entries@[p as int].0@);
            }
            break;
        }
        proof {
            assert(u[p as int].0 == entries@[p as int].0@);
        }
        p += 1;
    }
    let replace = p < n && entries[p].0.text_eq(&key);
    proof {
        if p < n {
            assert(u[p as int].0 == entries@[p as int].0@);
        }
    }
    if replace {
        entries.set(p, (key, value));
        proof {
            let w = entry_views(entries@);
            assert(w =~= u.update(p as int, (key@, value@)));
            assert(forall|j: int| 0 <= j < u.len() && j != p ==> w[j] == u[j]);
            assert(w[p as int].0 == key@ && key@ == u[p as int].0);
            assert forall|i: int, j: int| 0 <= i < j < w.len() implies lex_lt(
                w[i].0,
                w[j].0,
            ) by {
                assert(w[i].0 == u[i].0);
                assert(w[j].0 == u[j].0);
            }
            lemma_sorted_keys_distinct(w);
            lemma_map_of_characterization(w);
            let m2 = map_of(u).insert(key@, value@);
            assert forall|k: Seq<char>| #[trigger] map_of(w).dom().contains(k) implies m2
                .dom()
                .contains(k) && map_of(w)[k] == m2[k] by {
                let i = choose|i: int| 0 <= i < w.len() && #[trigger] w[i].0 == k;
                if i == p {
                    assert(map_of(w)[k] == value@);
                } else {
                    assert(w[i] == u[i]);
                    assert(u[i].0 != u[p as int].0);
                    assert(map_of(u)[k] == u[i].1);
                }
            }
            assert forall|k: Seq<char>| #[trigger] m2.dom().contains(k) implies map_of(
                w,
            ).dom().contains(k) by {
                if k == key@ {
                    assert(w[p as int].0 == k);
                } else {
                    let i = choose|i: int| 0 <= i < u.len() && #[trigger] u[i].0 == k;
                    assert(w[i].0 == k);
                }
            }
            assert(map_of(w) =~= m2);
        }
    } else {
        proof {
            if p < n {
                assert(u[p as int].0 != key@);
                lemma_lex_lt_trichotomy(u[p as int].0, key@);
                assert(lex_lt(key@, u[p as int].0));
            }
            assert forall|j: int| p <= j < n implies lex_lt(key@, u[j].0) by {
                if j > p {
                    assert(lex_lt(u[p as int].0, u[j].0));
                    lemma_lex_lt_transitive(key@, u[p as int].0, u[j].0);
                }
            }
        }
        entries.insert(p, (key, value));
        proof {
            let w = entry_views(entries@);
            assert(entries@ == old(entries)@.insert(p as int, (key, value)));
            old(entries)@.insert_ensures(p as int, (key, value));
            assert(w.len() == u.len() + 1);
            assert forall|j: int| 0 <= j < w.len() implies w[j] == (if j < p {
                u[j]
            } else if j == p {
                (key@, value@)
            } else {
                u[j - 1]
            }) by {
                if j < p {
                    assert(entries@[j] == old(entries)@[j]);
                } else if j == p {
                    assert(entries@[j] == (key, value));
                } else {
                    assert(entries@[j] == old(entries)@[j - 1]);
                }
            }
            assert forall|i: int, j: int| 0 <= i < j < w.len() implies lex_lt(
                w[i].0,
                w[j].0,
            ) by {
                if j < p {
                } else if i == p {
                    assert(lex_lt(key@, u[j - 1].0));
                } else if j == p {
                    assert(lex_lt(u[i].0, key@));
                } else if i < p {
                    assert(lex_lt(u[i].0, u[j - 1].0));
                } else {
                    assert(lex_lt(u[i - 1].0, u[j - 1].0));
                }
            }
            lemma_sorted_keys_distinct(w);
            lemma_map_of_characterization(w);
            let m2 = map_of(u).insert(key@, value@);
            assert forall|k: Seq<char>| #[trigger] map_of(w).dom().contains(k) implies m2
                .dom()
                .contains(k) && map_of(w)[k] == m2[k] by {
                let i = choose|i: int| 0 <= i < w.len() && #[trigger] w[i].0 == k;
                if i == p {
                    assert(map_of(w)[k] == value@);
                } else {
                    let i0: int = if i < p { i } else { i - 1 };
                    assert(w[i] == u[i0]);
                    assert(u[i0].0 != key@) by {
                        lemma_lex_lt_irreflexive(key@);
                    }
                    assert(map_of(u)[k] == u[i0].1);
                }
            }
            assert forall|k: Seq<char>| #[trigger] m2.dom().contains(k) implies map_of(
                w,
            ).dom().contains(k) by {
                if k == key@ {
                    assert(w[p as int].0 == k);
                } else {
                    let i = choose|i: int| 0 <= i < u.len() && #[trigger] u[i].0 == k;
                    if i < p {
                        assert(w[i].0 == k);
                    } else {
                        assert(w[i + 1].0 == k);
                    }
                }
            }
            assert(map_of(w) =~= m2);
        }
    }
}

} // verus!
