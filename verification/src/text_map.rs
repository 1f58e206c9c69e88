//! Maps from texts, listed in dictionary order of their keys.
use vstd::prelude::*;
use vstd::string::*;

use crate::order::{dictionary_is_total, lex_le, text_le};
use crate::text::str_eq;

verus! {

/// A map from texts.
#[derive(Debug)]
pub struct TextMap<V> {
    pub entries: Vec<(String, V)>,
}

/// The value of the first entry under `key`.
pub open spec fn value_of<V>(s: Seq<(Seq<char>, V)>, key: Seq<char>) -> Option<V>
    decreases s.len(),
{
    if s.len() == 0 {
        None
    } else if s[0].0 == key {
        Some(s[0].1)
    } else {
        value_of(s.drop_first(), key)
    }
}

/// The entries with `value` under `key`: in the place of the entry of that key,
/// or before the first entry of a later key.
pub open spec fn with_value<V>(s: Seq<(Seq<char>, V)>, key: Seq<char>, value: V) -> Seq<
    (Seq<char>, V),
>
    decreases s.len(),
{
    if s.len() == 0 {
        seq![(key, value)]
    } else if s[0].0 == key {
        seq![(key, value)] + s.drop_first()
    } else if lex_le(key, s[0].0) {
        seq![(key, value)] + s
    } else {
        seq![s[0]] + with_value(s.drop_first(), key, value)
    }
}

/// Keys in strict dictionary order, so none twice.
pub open spec fn keys_ordered<V>(s: Seq<(Seq<char>, V)>) -> bool {
    forall|i: int, j: int|
        0 <= i < j < s.len() ==> lex_le((#[trigger] s[i]).0, (#[trigger] s[j]).0) && s[i].0
            != s[j].0
}

/// Setting a value keeps the keys in order.
pub proof fn setting_keeps_order<V>(s: Seq<(Seq<char>, V)>, key: Seq<char>, value: V)
    requires
        keys_ordered(s),
    ensures
        keys_ordered(with_value(s, key, value)),
        forall|i: int|
            0 <= i < with_value(s, key, value).len() ==> (#[trigger] with_value(s, key, value)[i]).0
                == key || exists|j: int|
                0 <= j < s.len() && #[trigger] s[j] == with_value(s, key, value)[i],
    decreases s.len(),
{
    let r = with_value(s, key, value);
    dictionary_is_total();
    let le = crate::order::dictionary();
    if s.len() > 0 {
        let t = s.drop_first();
        assert forall|i: int, j: int| 0 <= i < j < t.len() implies lex_le(
            (#[trigger] t[i]).0,
            (#[trigger] t[j]).0,
        ) && t[i].0 != t[j].0 by {
            assert(t[i] == s[i + 1] && t[j] == s[j + 1]);
        }
        if s[0].0 == key {
            assert forall|i: int| 0 <= i < r.len() implies (#[trigger] r[i]).0 == key || exists|j: int|
                0 <= j < s.len() && #[trigger] s[j] == r[i] by {
                if i > 0 {
                    assert(s[i] == r[i]);
                }
            }
            assert forall|i: int, j: int| 0 <= i < j < r.len() implies lex_le(
                (#[trigger] r[i]).0,
                (#[trigger] r[j]).0,
            ) && r[i].0 != r[j].0 by {
                assert(r[j] == s[j]);
                assert(r[i].0 == s[i].0);
            }
        } else if lex_le(key, s[0].0) {
            assert forall|i: int| 0 <= i < r.len() implies (#[trigger] r[i]).0 == key || exists|j: int|
                0 <= j < s.len() && #[trigger] s[j] == r[i] by {
                if i > 0 {
                    assert(s[i - 1] == r[i]);
                }
            }
            assert forall|i: int, j: int| 0 <= i < j < r.len() implies lex_le(
                (#[trigger] r[i]).0,
                (#[trigger] r[j]).0,
            ) && r[i].0 != r[j].0 by {
                assert(r[j] == s[j - 1]);
                if i == 0 {
                    assert(le(key, s[0].0));
                    if j - 1 > 0 {
                        assert(le(s[0].0, s[j - 1].0));
                        assert(le(key, s[j - 1].0));
                        if key == s[j - 1].0 {
                            assert(le(s[j - 1].0, s[0].0));
                            assert(le(s[0].0, s[j - 1].0));
                        }
                    }
                } else {
                    assert(r[i] == s[i - 1]);
                }
            }
        } else {
            setting_keeps_order(t, key, value);
            let u = with_value(t, key, value);
            assert(r =~= seq![s[0]] + u);
            assert forall|i: int| 0 <= i < r.len() implies (#[trigger] r[i]).0 == key || exists|j: int|
                0 <= j < s.len() && #[trigger] s[j] == r[i] by {
                if i > 0 {
                    assert(r[i] == u[i - 1]);
                    if u[i - 1].0 != key {
                        let j = choose|j: int| 0 <= j < t.len() && #[trigger] t[j] == u[i - 1];
                        assert(s[j + 1] == t[j]);
                    }
                } else {
                    assert(s[0] == r[0]);
                }
            }
            assert forall|i: int, j: int| 0 <= i < j < r.len() implies lex_le(
                (#[trigger] r[i]).0,
                (#[trigger] r[j]).0,
            ) && r[i].0 != r[j].0 by {
                assert(r[j] == u[j - 1]);
                if i > 0 {
                    assert(r[i] == u[i - 1]);
                } else {
                    assert(r[0] == s[0]);
                    if u[j - 1].0 == key {
                        assert(le(s[0].0, key) || le(key, s[0].0));
                    } else {
                        let k = choose|k: int| 0 <= k < t.len() && #[trigger] t[k] == u[j - 1];
                        assert(s[k + 1] == t[k]);
                    }
                }
            }
        }
    }
}

/// A value that was set is read back, and the other keys read as before.
pub proof fn set_value_is_read_back<V>(
    s: Seq<(Seq<char>, V)>,
    key: Seq<char>,
    value: V,
    other: Seq<char>,
)
    requires
        keys_ordered(s),
    ensures
        value_of(with_value(s, key, value), key) == Some(value),
        other != key ==> value_of(with_value(s, key, value), other) == value_of(s, other),
    decreases s.len(),
{
    let r = with_value(s, key, value);
    if s.len() > 0 {
        let t = s.drop_first();
        assert forall|i: int, j: int| 0 <= i < j < t.len() implies lex_le(
            (#[trigger] t[i]).0,
            (#[trigger] t[j]).0,
        ) && t[i].0 != t[j].0 by {
            assert(t[i] == s[i + 1] && t[j] == s[j + 1]);
        }
        set_value_is_read_back(t, key, value, other);
        if s[0].0 == key {
            assert(r.drop_first() =~= t);
        } else if lex_le(key, s[0].0) {
            assert(r.drop_first() =~= s);
        } else {
            assert(r.drop_first() =~= with_value(t, key, value));
        }
    } else {
        assert(r.drop_first() =~= s);
    }
}

/// A value that was set is there, in order or not.
pub proof fn lemma_set_value_is_there<V>(s: Seq<(Seq<char>, V)>, key: Seq<char>, value: V)
    ensures
        value_of(with_value(s, key, value), key) == Some(value),
    decreases s.len(),
{
    let r = with_value(s, key, value);
    if s.len() > 0 && s[0].0 != key && !lex_le(key, s[0].0) {
        lemma_set_value_is_there(s.drop_first(), key, value);
        assert(r.drop_first() =~= with_value(s.drop_first(), key, value));
    }
}

proof fn lemma_value_at<V>(s: Seq<(Seq<char>, V)>, key: Seq<char>, k: int)
    requires
        0 <= k <= s.len(),
        forall|j: int| 0 <= j < k ==> (#[trigger] s[j]).0 != key,
    ensures
        k < s.len() && s[k].0 == key ==> value_of(s, key) == Some(s[k].1),
        k == s.len() ==> value_of(s, key) is None,
    decreases s.len(),
{
    if k > 0 {
        let t = s.drop_first();
        assert(s[0].0 != key);
        assert forall|j: int| 0 <= j < k - 1 implies (#[trigger] t[j]).0 != key by {
            assert(t[j] == s[j + 1]);
        }
        lemma_value_at(t, key, k - 1);
    }
}

proof fn lemma_with_value_at<V>(s: Seq<(Seq<char>, V)>, key: Seq<char>, k: int, value: V)
    requires
        0 <= k <= s.len(),
        forall|j: int| 0 <= j < k ==> (#[trigger] s[j]).0 != key && !lex_le(key, s[j].0),
    ensures
        k < s.len() && s[k].0 == key ==> with_value(s, key, value) == s.update(k, (key, value)),
        k == s.len() || (s[k].0 != key && lex_le(key, s[k].0)) ==> with_value(s, key, value)
            == s.insert(k, (key, value)),
    decreases s.len(),
{
    if s.len() > 0 {
        let t = s.drop_first();
        if k > 0 {
            assert(s[0].0 != key && !lex_le(key, s[0].0));
            assert forall|j: int| 0 <= j < k - 1 implies (#[trigger] t[j]).0 != key && !lex_le(
                key,
                t[j].0,
            ) by {
                assert(t[j] == s[j + 1]);
            }
            lemma_with_value_at(t, key, k - 1, value);
            if k < s.len() {
                assert(t[k - 1] == s[k]);
                assert(s.update(k, (key, value)) =~= seq![s[0]] + t.update(k - 1, (key, value)));
            }
            assert(s.insert(k, (key, value)) =~= seq![s[0]] + t.insert(k - 1, (key, value)));
        } else {
            assert(s.update(0, (key, value)) =~= seq![(key, value)] + t);
            assert(s.insert(0, (key, value)) =~= seq![(key, value)] + s);
        }
    } else {
        assert(s.insert(0, (key, value)) =~= seq![(key, value)]);
    }
}

impl<V> TextMap<V> {
    pub open spec fn view(&self) -> Seq<(Seq<char>, V)> {
        self.entries@.map_values(|e: (String, V)| (e.0@, e.1))
    }

    pub fn new() -> (r: Self)
        ensures
            r@ == Seq::<(Seq<char>, V)>::empty(),
    {
        let r = TextMap { entries: Vec::new() };
        assert(r@ =~= Seq::<(Seq<char>, V)>::empty());
        r
    }

    /// The value under `key`.
    pub fn get(&self, key: &str) -> (r: Option<&V>)
        ensures
            match r {
                Some(v) => value_of(self@, key@) == Some(*v),
                None => value_of(self@, key@) is None,
            },
    {
        let mut i: usize = 0;
        while i < self.entries.len()
            invariant
                i <= self.entries.len(),
                forall|j: int| 0 <= j < i ==> (#[trigger] self@[j]).0 != key@,
            decreases self.entries.len() - i,
        {
            assert(self@[i as int].0 == self.entries@[i as int].0@);
            if str_eq(&self.entries[i].0, key) {
                proof {
                    lemma_value_at(self@, key@, i as int);
                }
                return Some(&self.entries[i].1);
            }
            i += 1;
        }
        proof {
            lemma_value_at(self@, key@, i as int);
        }
        None
    }

    /// Whether there is a value under `key`.
    pub fn contains_key(&self, key: &str) -> (r: bool)
        ensures
            r == (value_of(self@, key@) is Some),
    {
        self.get(key).is_some()
    }

    /// Puts `value` under `key`.
    pub fn insert(&mut self, key: String, value: V)
        ensures
            final(self)@ == with_value(old(self)@, key@, value),
    {
        let ghost before = self@;
        let mut i: usize = 0;
        while i < self.entries.len() && !text_le(&key, &self.entries[i].0)
            invariant
                i <= self.entries.len(),
                self@ == before,
                forall|j: int|
                    0 <= j < i ==> (#[trigger] before[j]).0 != key@ && !lex_le(key@, before[j].0),
            decreases self.entries.len() - i,
        {
            proof {
                assert(before[i as int].0 == self.entries@[i as int].0@);
                dictionary_is_total();
                assert(crate::order::dictionary()(key@, key@));
            }
            i += 1;
        }
        proof {
            lemma_with_value_at(before, key@, i as int, value);
            if i < self.entries.len() {
                assert(before[i as int].0 == self.entries@[i as int].0@);
            }
        }
        if i < self.entries.len() && str_eq(&self.entries[i].0, &key) {
            let ghost k = key@;
            self.entries.set(i, (key, value));
            assert(self@ =~= before.update(i as int, (k, value)));
        } else {
            let ghost k = key@;
            self.entries.insert(i, (key, value));
            assert(self@ =~= before.insert(i as int, (k, value)));
        }
    }
}

/// Each entry is read back under its key.
pub proof fn entries_are_read_back<V>(s: Seq<(Seq<char>, V)>, i: int)
    requires
        keys_ordered(s),
        0 <= i < s.len(),
    ensures
        value_of(s, s[i].0) == Some(s[i].1),
{
    assert forall|j: int| 0 <= j < i implies (#[trigger] s[j]).0 != s[i].0 by {}
    lemma_value_at(s, s[i].0, i);
}

/// The entries without the first one under `key`.
pub open spec fn without_value<V>(s: Seq<(Seq<char>, V)>, key: Seq<char>) -> Seq<(Seq<char>, V)>
    decreases s.len(),
{
    if s.len() == 0 {
        s
    } else if s[0].0 == key {
        s.drop_first()
    } else {
        seq![s[0]] + without_value(s.drop_first(), key)
    }
}

proof fn lemma_without_value_at<V>(s: Seq<(Seq<char>, V)>, key: Seq<char>, k: int)
    requires
        0 <= k <= s.len(),
        forall|j: int| 0 <= j < k ==> (#[trigger] s[j]).0 != key,
    ensures
        k < s.len() && s[k].0 == key ==> without_value(s, key) == s.remove(k),
        k == s.len() ==> without_value(s, key) == s,
    decreases s.len(),
{
    if s.len() > 0 {
        let t = s.drop_first();
        if k > 0 {
            assert(s[0].0 != key);
            assert forall|j: int| 0 <= j < k - 1 implies (#[trigger] t[j]).0 != key by {
                assert(t[j] == s[j + 1]);
            }
            lemma_without_value_at(t, key, k - 1);
            if k < s.len() {
                assert(s.remove(k) =~= seq![s[0]] + t.remove(k - 1));
            } else {
                assert(seq![s[0]] + t =~= s);
            }
        } else if s[0].0 == key {
            assert(s.remove(0) =~= t);
        }
    }
}

/// Taking a value out keeps the keys in order; it is then gone, and the other
/// keys read as before.
pub proof fn taken_value_is_gone<V>(s: Seq<(Seq<char>, V)>, key: Seq<char>, other: Seq<char>)
    requires
        keys_ordered(s),
    ensures
        keys_ordered(without_value(s, key)),
        value_of(without_value(s, key), key) is None,
        other != key ==> value_of(without_value(s, key), other) == value_of(s, other),
        forall|i: int|
            0 <= i < without_value(s, key).len() ==> exists|j: int|
                0 <= j < s.len() && s[j] == #[trigger] without_value(s, key)[i],
    decreases s.len(),
{
    if s.len() > 0 {
        let t = s.drop_first();
        assert forall|i: int, j: int| 0 <= i < j < t.len() implies lex_le(
            (#[trigger] t[i]).0,
            (#[trigger] t[j]).0,
        ) && t[i].0 != t[j].0 by {
            assert(t[i] == s[i + 1] && t[j] == s[j + 1]);
        }
        taken_value_is_gone(t, key, other);
        let u = without_value(t, key);
        let r = without_value(s, key);
        if s[0].0 == key {
            assert forall|j: int| 0 <= j < t.len() implies (#[trigger] t[j]).0 != key by {
                assert(t[j] == s[j + 1]);
                assert(s[0].0 != s[j + 1].0);
            }
            lemma_value_at(t, key, t.len() as int);
            assert forall|i: int| 0 <= i < r.len() implies exists|j: int|
                0 <= j < s.len() && s[j] == #[trigger] r[i] by {
                assert(s[i + 1] == r[i]);
            }
        } else {
            assert(r =~= seq![s[0]] + u);
            assert(r.drop_first() =~= u);
            assert forall|i: int| 0 <= i < r.len() implies exists|j: int|
                0 <= j < s.len() && s[j] == #[trigger] r[i] by {
                if i > 0 {
                    assert(r[i] == u[i - 1]);
                    let j = choose|j: int| 0 <= j < t.len() && t[j] == u[i - 1];
                    assert(s[j + 1] == r[i]);
                } else {
                    assert(s[0] == r[0]);
                }
            }
            assert forall|i: int, j: int| 0 <= i < j < r.len() implies lex_le(
                (#[trigger] r[i]).0,
                (#[trigger] r[j]).0,
            ) && r[i].0 != r[j].0 by {
                assert(r[j] == u[j - 1]);
                if i > 0 {
                    assert(r[i] == u[i - 1]);
                } else {
                    let k = choose|k: int| 0 <= k < t.len() && t[k] == u[j - 1];
                    assert(s[k + 1] == r[j]);
                    assert(s[0] == r[0]);
                }
            }
        }
    }
}

impl<V> TextMap<V> {
    /// Takes the value under `key` out.
    pub fn remove(&mut self, key: &str) -> (r: Option<V>)
        ensures
            r == value_of(old(self)@, key@),
            final(self)@ == without_value(old(self)@, key@),
    {
        let ghost before = self@;
        let mut i: usize = 0;
        while i < self.entries.len()
            invariant
                i <= self.entries.len(),
                self@ == before,
                before == old(self)@,
                forall|j: int| 0 <= j < i ==> (#[trigger] before[j]).0 != key@,
            decreases self.entries.len() - i,
        {
            assert(before[i as int].0 == self.entries@[i as int].0@);
            if str_eq(&self.entries[i].0, key) {
                proof {
                    lemma_value_at(before, key@, i as int);
                    lemma_without_value_at(before, key@, i as int);
                }
                let (_, v) = self.entries.remove(i);
                assert(self@ =~= before.remove(i as int));
                return Some(v);
            }
            i += 1;
        }
        proof {
            lemma_value_at(before, key@, i as int);
            lemma_without_value_at(before, key@, i as int);
        }
        None
    }
}

// --------------------------------------------------------- values seen through

/// The entries with each value seen through `f`.
pub open spec fn seen<V, W>(s: Seq<(Seq<char>, V)>, f: spec_fn(V) -> W) -> Seq<(Seq<char>, W)> {
    s.map_values(|e: (Seq<char>, V)| (e.0, f(e.1)))
}

/// Setting a value and looking through `f` go in either order.
pub proof fn lemma_seen_with_value<V, W>(
    s: Seq<(Seq<char>, V)>,
    f: spec_fn(V) -> W,
    key: Seq<char>,
    value: V,
)
    ensures
        seen(with_value(s, key, value), f) == with_value(seen(s, f), key, f(value)),
    decreases s.len(),
{
    let t = s.drop_first();
    if s.len() > 0 {
        assert(seen(s, f).drop_first() =~= seen(t, f));
        if s[0].0 != key && !lex_le(key, s[0].0) {
            lemma_seen_with_value(t, f, key, value);
        }
    }
    assert(seen(with_value(s, key, value), f) =~= with_value(seen(s, f), key, f(value)));
}

/// Reading a value and looking through `f` go in either order.
pub proof fn lemma_seen_value_of<V, W>(s: Seq<(Seq<char>, V)>, f: spec_fn(V) -> W, key: Seq<char>)
    ensures
        value_of(seen(s, f), key) == (match value_of(s, key) {
            Some(v) => Some(f(v)),
            None => None,
        }),
    decreases s.len(),
{
    if s.len() > 0 {
        assert(seen(s, f).drop_first() =~= seen(s.drop_first(), f));
        lemma_seen_value_of(s.drop_first(), f, key);
    }
}

} // verus!
