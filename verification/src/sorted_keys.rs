//! Sets of strings kept as strictly increasing vectors, in the order of
//! `String`'s `Ord` (lexicographic by Unicode scalar value, which is the
//! order of the UTF-8 bytes).

use vstd::prelude::*;

use crate::text::chars_of;

verus! {

/// `a < b` in the lexicographic order on characters.
pub open spec fn lex_lt(a: Seq<char>, b: Seq<char>) -> bool
    decreases a.len(),
{
    if a.len() == 0 {
        b.len() > 0
    } else if b.len() == 0 {
        false
    } else if a[0] == b[0] {
        lex_lt(a.drop_first(), b.drop_first())
    } else {
        a[0] < b[0]
    }
}

/// The views of a sequence of strings.
pub open spec fn string_views(v: Seq<String>) -> Seq<Seq<char>> {
    v.map_values(|s: String| s@)
}

/// Each string is smaller than the next: the sequence is sorted and holds
/// no string twice.
pub open spec fn strictly_increasing(s: Seq<Seq<char>>) -> bool {
    forall|i: int, j: int| 0 <= i < j < s.len() ==> lex_lt(#[trigger] s[i], #[trigger] s[j])
}

pub proof fn lemma_lex_lt_irreflexive(a: Seq<char>)
    ensures
        !lex_lt(a, a),
    decreases a.len(),
{
    if a.len() > 0 {
        lemma_lex_lt_irreflexive(a.drop_first());
    }
}

pub proof fn lemma_lex_lt_asymmetric(a: Seq<char>, b: Seq<char>)
    ensures
        lex_lt(a, b) ==> !lex_lt(b, a),
    decreases a.len(),
{
    if a.len() > 0 && b.len() > 0 && a[0] == b[0] {
        lemma_lex_lt_asymmetric(a.drop_first(), b.drop_first());
    }
}

pub proof fn lemma_lex_lt_total(a: Seq<char>, b: Seq<char>)
    ensures
        a != b ==> lex_lt(a, b) || lex_lt(b, a),
    decreases a.len(),
{
    if a.len() > 0 && b.len() > 0 && a[0] == b[0] {
        lemma_lex_lt_total(a.drop_first(), b.drop_first());
        if a.drop_first() == b.drop_first() {
            assert forall|i: int| 0 <= i < a.len() implies a[i] == b[i] by {
                if i > 0 {
                    assert(a[i] == a.drop_first()[i - 1]);
                    assert(b[i] == b.drop_first()[i - 1]);
                }
            }
            assert(a =~= b);
        }
    } else if a.len() == 0 && b.len() == 0 {
        assert(a =~= b);
    }
}

pub proof fn lemma_lex_lt_transitive(a: Seq<char>, b: Seq<char>, c: Seq<char>)
    requires
        lex_lt(a, b),
        lex_lt(b, c),
    ensures
        lex_lt(a, c),
    decreases a.len(),
{
    if a.len() > 0 && b.len() > 0 && c.len() > 0 && a[0] == b[0] && b[0] == c[0] {
        lemma_lex_lt_transitive(a.drop_first(), b.drop_first(), c.drop_first());
    }
}

/// Whether `a < b` in the order of `String`.
pub fn string_lt(a: &String, b: &String) -> (res: bool)
    ensures
        res == lex_lt(a@, b@),
{
    let x = chars_of(a.as_str());
    let y = chars_of(b.as_str());
    let mut k: usize = 0;
    assert(x@.skip(0) =~= x@);
    assert(y@.skip(0) =~= y@);
    loop
        invariant
            x@ == a@,
            y@ == b@,
            k <= x.len(),
            k <= y.len(),
            lex_lt(a@, b@) == lex_lt(x@.skip(k as int), y@.skip(k as int)),
        decreases x.len() - k,
    {
        if k == x.len() {
            return k < y.len();
        }
        if k == y.len() {
            return false;
        }
        if x[k] != y[k] {
            return x[k] < y[k];
        }
        assert(x@.skip(k as int).drop_first() =~= x@.skip(k + 1));
        assert(y@.skip(k as int).drop_first() =~= y@.skip(k + 1));
        k = k + 1;
    }
}

/// Adds `key` to the strictly increasing `keys`, unless it is there already.
pub fn insert_sorted(keys: &mut Vec<String>, key: String)
    requires
        strictly_increasing(string_views(old(keys)@)),
    ensures
        strictly_increasing(string_views(final(keys)@)),
        string_views(final(keys)@).to_set() == string_views(old(keys)@).to_set().insert(key@),
{
    let ghost old_views = string_views(keys@);
    let n = keys.len();
    let mut i: usize = 0;
    while i < n && string_lt(&keys[i], &key)
        invariant
            n == keys.len(),
            i <= n,
            keys@ == old(keys)@,
            forall|j: int| 0 <= j < i ==> lex_lt(#[trigger] keys@[j]@, key@),
        decreases n - i,
    {
        i = i + 1;
    }
    if i < n && keys[i] == key {
        proof {
            assert(old_views[i as int] == key@);
            assert(old_views.to_set().insert(key@) =~= old_views.to_set());
        }
        return;
    }
    proof {
        if i < n {
            lemma_lex_lt_total(keys@[i as int]@, key@);
            assert(lex_lt(key@, old_views[i as int]));
            assert forall|l: int| i < l < n implies lex_lt(key@, #[trigger] old_views[l]) by {
                assert(lex_lt(old_views[i as int], old_views[l]));
                lemma_lex_lt_transitive(key@, old_views[i as int], old_views[l]);
            }
        }
    }
    keys.insert(i, key);
    proof {
        let new_views = string_views(keys@);
        assert(new_views =~= old_views.insert(i as int, key@));
        assert forall|a: int, b: int| 0 <= a < b < new_views.len() implies lex_lt(
            #[trigger] new_views[a],
            #[trigger] new_views[b],
        ) by {
            if b < i {
                assert(lex_lt(old_views[a], old_views[b]));
            } else if b == i {
                assert(lex_lt(keys@[a]@, key@));
            } else if a < i {
                assert(lex_lt(old_views[a], key@));
                assert(lex_lt(key@, old_views[b - 1]));
                lemma_lex_lt_transitive(old_views[a], key@, old_views[b - 1]);
            } else if a == i {
                assert(lex_lt(key@, old_views[b - 1]));
            } else {
                assert(lex_lt(old_views[a - 1], old_views[b - 1]));
            }
        }
        assert forall|s: Seq<char>| new_views.to_set().contains(s) <==> old_views.to_set().insert(
            key@,
        ).contains(s) by {
            if new_views.to_set().contains(s) {
                let k = choose|k: int| 0 <= k < new_views.len() && new_views[k] == s;
                if k < i {
                    assert(old_views[k] == s);
                } else if k > i {
                    assert(old_views[k - 1] == s);
                }
            }
            if old_views.to_set().contains(s) {
                let k = choose|k: int| 0 <= k < old_views.len() && old_views[k] == s;
                if k < i {
                    assert(new_views[k] == s);
                } else {
                    assert(new_views[k + 1] == s);
                }
            }
            if s == key@ {
                assert(new_views[i as int] == s);
            }
        }
        assert(new_views.to_set() =~= old_views.to_set().insert(key@));
    }
}

} // verus!
