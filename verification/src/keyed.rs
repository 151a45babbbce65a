//! Tables of records keyed by a string: a `Vec` whose keys are distinct, viewed
//! as a map from key to record.

use vstd::prelude::*;
use crate::text::str_equals;

verus! {

/// A record that carries its own string key.
pub trait Keyed {
    /// The key of the record.
    spec fn key(&self) -> Seq<char>;

    /// The key of the record, as a string slice.
    fn key_str(&self) -> (k: &str)
        ensures
            k@ == self.key(),
    ;
}

/// No two records of the sequence share a key.
pub open spec fn keys_distinct<T: Keyed>(s: Seq<T>) -> bool {
    forall|i: int, j: int|
        0 <= i < s.len() && 0 <= j < s.len() && i != j ==> #[trigger] s[i].key() != #[trigger] s[j].key()
}

/// Some record of the sequence has key `k`.
pub open spec fn has_key<T: Keyed>(s: Seq<T>, k: Seq<char>) -> bool {
    exists|i: int| 0 <= i < s.len() && #[trigger] s[i].key() == k
}

/// The map from key to record that a sequence with distinct keys stands for.
pub open spec fn table_of<T: Keyed>(s: Seq<T>) -> Map<Seq<char>, T> {
    Map::new(
        |k: Seq<char>| has_key(s, k),
        |k: Seq<char>| s[choose|i: int| 0 <= i < s.len() && #[trigger] s[i].key() == k],
    )
}

/// A record at index `i` is the value of its key in the table.
pub proof fn lemma_table_at<T: Keyed>(s: Seq<T>, i: int)
    requires
        keys_distinct(s),
        0 <= i < s.len(),
    ensures
        table_of(s).dom().contains(s[i].key()),
        table_of(s)[s[i].key()] == s[i],
{
    let k = s[i].key();
    assert(has_key(s, k));
    let j = choose|j: int| 0 <= j < s.len() && #[trigger] s[j].key() == k;
    assert(j == i);
}

/// The empty sequence stands for the empty map.
pub proof fn lemma_table_empty<T: Keyed>(s: Seq<T>)
    requires
        s.len() == 0,
    ensures
        table_of(s) == Map::<Seq<char>, T>::empty(),
        keys_distinct(s),
{
    assert(table_of(s) =~= Map::<Seq<char>, T>::empty());
}

/// Appending a record with a fresh key inserts it.
pub proof fn lemma_table_push<T: Keyed>(s: Seq<T>, x: T)
    requires
        keys_distinct(s),
        !has_key(s, x.key()),
    ensures
        keys_distinct(s.push(x)),
        table_of(s.push(x)) == table_of(s).insert(x.key(), x),
{
    let t = s.push(x);
    assert forall|i: int, j: int| 0 <= i < t.len() && 0 <= j < t.len() && i != j implies #[trigger] t[i].key() != #[trigger] t[j].key() by {
        if i < s.len() && j < s.len() {
            assert(t[i] == s[i] && t[j] == s[j]);
        } else if i < s.len() {
            assert(t[i] == s[i]);
        } else {
            assert(t[j] == s[j]);
        }
    }
    assert forall|k: Seq<char>| #[trigger] has_key(t, k) == (has_key(s, k) || k == x.key()) by {
        if has_key(s, k) {
            let i = choose|i: int| 0 <= i < s.len() && #[trigger] s[i].key() == k;
            assert(t[i] == s[i]);
        }
        if k == x.key() {
            assert(t[s.len() as int] == x);
        }
        if has_key(t, k) {
            let i = choose|i: int| 0 <= i < t.len() && #[trigger] t[i].key() == k;
            if i < s.len() {
                assert(t[i] == s[i]);
            }
        }
    }
    assert forall|k: Seq<char>| table_of(t).dom().contains(k) implies table_of(t)[k] == table_of(s).insert(x.key(), x)[k] by {
        let i = choose|i: int| 0 <= i < t.len() && #[trigger] t[i].key() == k;
        lemma_table_at(t, i);
        if i < s.len() {
            assert(t[i] == s[i]);
            lemma_table_at(s, i);
        }
    }
    assert(table_of(t) =~= table_of(s).insert(x.key(), x));
}

/// Replacing a record by one with the same key updates that key.
pub proof fn lemma_table_update<T: Keyed>(s: Seq<T>, i: int, x: T)
    requires
        keys_distinct(s),
        0 <= i < s.len(),
        x.key() == s[i].key(),
    ensures
        keys_distinct(s.update(i, x)),
        table_of(s.update(i, x)) == table_of(s).insert(x.key(), x),
{
    let t = s.update(i, x);
    assert forall|a: int, b: int| 0 <= a < t.len() && 0 <= b < t.len() && a != b implies #[trigger] t[a].key() != #[trigger] t[b].key() by {
        assert(t[a].key() == s[a].key());
        assert(t[b].key() == s[b].key());
    }
    assert forall|k: Seq<char>| #[trigger] has_key(t, k) == has_key(s, k) by {
        if has_key(s, k) {
            let a = choose|a: int| 0 <= a < s.len() && #[trigger] s[a].key() == k;
            assert(t[a].key() == s[a].key());
        }
        if has_key(t, k) {
            let a = choose|a: int| 0 <= a < t.len() && #[trigger] t[a].key() == k;
            assert(t[a].key() == s[a].key());
        }
    }
    lemma_table_at(s, i);
    assert forall|k: Seq<char>| table_of(t).dom().contains(k) implies table_of(t)[k] == table_of(s).insert(x.key(), x)[k] by {
        let a = choose|a: int| 0 <= a < t.len() && #[trigger] t[a].key() == k;
        lemma_table_at(t, a);
        if a != i {
            assert(t[a] == s[a]);
            lemma_table_at(s, a);
        }
    }
    assert(table_of(t) =~= table_of(s).insert(x.key(), x));
}

/// Removing the record at `i` removes its key.
pub proof fn lemma_table_remove<T: Keyed>(s: Seq<T>, i: int)
    requires
        keys_distinct(s),
        0 <= i < s.len(),
    ensures
        keys_distinct(s.remove(i)),
        table_of(s.remove(i)) == table_of(s).remove(s[i].key()),
{
    let t = s.remove(i);
    let gone = s[i].key();
    assert forall|a: int| 0 <= a < t.len() implies #[trigger] t[a] == s[if a < i { a } else { a + 1 }] by {}
    assert forall|a: int, b: int| 0 <= a < t.len() && 0 <= b < t.len() && a != b implies #[trigger] t[a].key() != #[trigger] t[b].key() by {
        assert(t[a] == s[if a < i { a } else { a + 1 }]);
        assert(t[b] == s[if b < i { b } else { b + 1 }]);
    }
    assert forall|k: Seq<char>| #[trigger] has_key(t, k) == (has_key(s, k) && k != gone) by {
        if has_key(s, k) && k != gone {
            let a = choose|a: int| 0 <= a < s.len() && #[trigger] s[a].key() == k;
            assert(a != i);
            let b = if a < i { a } else { a - 1 };
            assert(t[b] == s[if b < i { b } else { b + 1 }]);
        }
        if has_key(t, k) {
            let b = choose|b: int| 0 <= b < t.len() && #[trigger] t[b].key() == k;
            let a = if b < i { b } else { b + 1 };
            assert(t[b] == s[a]);
            assert(a != i);
        }
    }
    assert forall|k: Seq<char>| table_of(t).dom().contains(k) implies table_of(t)[k] == table_of(s).remove(gone)[k] by {
        let b = choose|b: int| 0 <= b < t.len() && #[trigger] t[b].key() == k;
        let a = if b < i { b } else { b + 1 };
        assert(t[b] == s[a]);
        lemma_table_at(t, b);
        lemma_table_at(s, a);
    }
    assert(table_of(t) =~= table_of(s).remove(gone));
}

/// A sequence with distinct keys stands for a finite map with one key per
/// record.
pub proof fn lemma_table_len<T: Keyed>(s: Seq<T>)
    requires
        keys_distinct(s),
    ensures
        table_of(s).dom().finite(),
        table_of(s).dom().len() == s.len(),
    decreases s.len(),
{
    if s.len() == 0 {
        lemma_table_empty(s);
    } else {
        let p = s.drop_last();
        let x = s.last();
        assert forall|i: int, j: int| 0 <= i < p.len() && 0 <= j < p.len() && i != j implies #[trigger] p[i].key()
            != #[trigger] p[j].key() by {
            assert(p[i] == s[i] && p[j] == s[j]);
        }
        assert(!has_key(p, x.key())) by {
            if has_key(p, x.key()) {
                let i = choose|i: int| 0 <= i < p.len() && #[trigger] p[i].key() == x.key();
                assert(p[i] == s[i]);
                assert(s[i].key() == s[s.len() - 1].key());
            }
        }
        lemma_table_len(p);
        lemma_table_push(p, x);
        assert(p.push(x) =~= s);
        assert(!table_of(p).dom().contains(x.key()));
        assert(table_of(s).dom() =~= table_of(p).dom().insert(x.key()));
    }
}

/// The index of the record with key `k`, if any.
pub fn find_key<T: Keyed>(v: &Vec<T>, k: &str) -> (r: Option<usize>)
    ensures
        match r {
            Some(i) => i < v@.len() && v@[i as int].key() == k@,
            None => !has_key(v@, k@),
        },
{
    let n = v.len();
    let mut i: usize = 0;
    while i < n
        invariant
            n == v@.len(),
            i <= n,
            forall|j: int| 0 <= j < i ==> #[trigger] v@[j].key() != k@,
        decreases n - i,
    {
        if str_equals(v[i].key_str(), k) {
            return Some(i);
        }
        i = i + 1;
    }
    None
}

} // verus!
