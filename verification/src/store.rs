//! Small association stores: identity-keyed and window-keyed lookup
//! tables with first-match lookup and replace-or-append insertion.

use vstd::prelude::*;

verus! {

/// First-match lookup in a sequence of identity-keyed entries.
pub open spec fn lookup_by_name<V>(s: Seq<(String, V)>, k: Seq<char>) -> Option<V>
    decreases s.len(),
{
    if s.len() == 0 {
        None
    } else if s[0].0@ == k {
        Some(s[0].1)
    } else {
        lookup_by_name(s.drop_first(), k)
    }
}

/// A lookup table keyed by identity, holding copyable values.
pub struct NamedStore<V> {
    pub entries: Vec<(String, V)>,
}

impl<V: Copy> NamedStore<V> {
    pub open spec fn spec_get(&self, k: Seq<char>) -> Option<V> {
        lookup_by_name(self.entries@, k)
    }

    pub fn new() -> (r: NamedStore<V>)
        ensures
            forall|k: Seq<char>| r.spec_get(k) is None,
            r.entries@.len() == 0,
    {
        NamedStore { entries: Vec::new() }
    }

    pub fn get(&self, k: &str) -> (r: Option<V>)
        ensures
            r == self.spec_get(k@),
    {
        let ghost full = self.entries@;
        proof {
            assert(full.skip(0) =~= full);
        }
        let mut i: usize = 0;
        while i < self.entries.len()
            invariant
                i <= full.len(),
                full == self.entries@,
                lookup_by_name(full, k@) == lookup_by_name(full.skip(i as int), k@),
            decreases full.len() - i,
        {
            proof {
                assert(full.skip(i as int)[0] == full[i as int]);
            }
            if crate::text::str_eq(self.entries[i].0.as_str(), k) {
                return Some(self.entries[i].1);
            }
            proof {
                assert(full.skip(i as int).drop_first() =~= full.skip(i + 1));
            }
            i = i + 1;
        }
        proof {
            assert(full.skip(full.len() as int).len() == 0);
        }
        None
    }

    pub fn contains_key(&self, k: &str) -> (r: bool)
        ensures
            r == (self.spec_get(k@) is Some),
    {
        self.get(k).is_some()
    }

    /// Replaces the first entry under this key, or appends a new one:
    /// afterwards the key maps to the value and every other key is
    /// untouched.
    pub fn insert(&mut self, k: String, v: V)
        ensures
            final(self).spec_get(k@) == Some(v),
            forall|k2: Seq<char>| k2 != k@ ==> final(self).spec_get(k2) == old(self).spec_get(k2),
    {
        let ghost orig = self.entries@;
        let mut i: usize = 0;
        while i < self.entries.len()
            invariant
                i <= orig.len(),
                orig == self.entries@,
                orig == old(self).entries@,
                forall|j: int| 0 <= j < i ==> orig[j].0@ != k@,
            decreases orig.len() - i,
        {
            if crate::text::str_eq(self.entries[i].0.as_str(), k.as_str()) {
                assert(orig[i as int].0@ == k@);
                self.entries[i] = (k, v);
                proof {
                    lemma_lookup_update(orig, self.entries@, i as int, k@, v);
                    assert(forall|k2: Seq<char>|
                        k2 != k@ ==> lookup_by_name(self.entries@, k2) == lookup_by_name(
                            orig,
                            k2,
                        ));
                    assert(forall|k2: Seq<char>|
                        k2 != k@ ==> old(self).spec_get(k2) == lookup_by_name(orig, k2));
                }
                return ;
            }
            i = i + 1;
        }
        self.entries.push((k, v));
        proof {
            lemma_lookup_append(orig, k@, v, self.entries@);
        }
    }
}

/// Replacing the first entry bearing key `k` makes lookups of `k` yield
/// the new value and leaves other keys alone.
proof fn lemma_lookup_update<V>(orig: Seq<(String, V)>, upd: Seq<(String, V)>, i: int, k: Seq<
    char,
>, v: V)
    requires
        0 <= i < orig.len(),
        upd.len() == orig.len(),
        forall|j: int| 0 <= j < orig.len() && j != i ==> upd[j] == orig[j],
        orig[i].0@ == k,
        upd[i].0@ == k,
        upd[i].1 == v,
        forall|j: int| 0 <= j < i ==> orig[j].0@ != k,
    ensures
        lookup_by_name(upd, k) == Some(v),
        forall|k2: Seq<char>| k2 != k ==> lookup_by_name(upd, k2) == lookup_by_name(orig, k2),
    decreases orig.len(),
{
    if i == 0 {
        assert(upd[0].0@ == k);
        assert forall|k2: Seq<char>| k2 != k implies lookup_by_name(upd, k2) == lookup_by_name(
            orig,
            k2,
        ) by {
            assert(upd[0].0@ != k2);
            assert(orig[0].0@ != k2);
            lemma_lookup_same(upd.drop_first(), orig.drop_first(), k2);
        }
    } else {
        assert(upd[0] == orig[0]);
        assert(orig[0].0@ != k);
        let orig1 = orig.drop_first();
        let upd1 = upd.drop_first();
        assert(forall|j: int| 0 <= j < orig1.len() && j != i - 1 ==> upd1[j] == orig1[j]);
        assert(upd1[i - 1] == upd[i]);
        assert(orig1[i - 1] == orig[i]);
        assert(forall|j: int| 0 <= j < i - 1 ==> orig1[j] == orig[j + 1] && orig1[j].0@ != k);
        lemma_lookup_update(orig1, upd1, i - 1, k, v);
        assert(lookup_by_name(upd, k) == lookup_by_name(upd1, k));
        assert forall|k2: Seq<char>| k2 != k implies lookup_by_name(upd, k2) == lookup_by_name(
            orig,
            k2,
        ) by {
            if upd[0].0@ == k2 {
                assert(lookup_by_name(upd, k2) == Some(upd[0].1));
                assert(lookup_by_name(orig, k2) == Some(orig[0].1));
            } else {
                assert(lookup_by_name(upd, k2) == lookup_by_name(upd1, k2));
                assert(lookup_by_name(orig, k2) == lookup_by_name(orig1, k2));
            }
        }
    }
}

/// Two sequences equal entrywise look identical to lookup.
proof fn lemma_lookup_same<V>(a: Seq<(String, V)>, b: Seq<(String, V)>, k: Seq<char>)
    requires
        a.len() == b.len(),
        forall|j: int| 0 <= j < a.len() ==> a[j] == b[j],
    ensures
        lookup_by_name(a, k) == lookup_by_name(b, k),
    decreases a.len(),
{
    if a.len() > 0 {
        lemma_lookup_same(a.drop_first(), b.drop_first(), k);
    }
}

/// Appending an entry whose key is absent makes that key map to it and
/// leaves other keys alone.
proof fn lemma_lookup_append<V>(orig: Seq<(String, V)>, k: Seq<char>, v: V, ext: Seq<(String, V)>)
    requires
        ext.len() == orig.len() + 1,
        forall|j: int| 0 <= j < orig.len() ==> ext[j] == orig[j],
        ext.last().0@ == k,
        ext.last().1 == v,
        forall|j: int| 0 <= j < orig.len() ==> orig[j].0@ != k,
    ensures
        lookup_by_name(ext, k) == Some(v),
        forall|k2: Seq<char>| k2 != k ==> lookup_by_name(ext, k2) == lookup_by_name(orig, k2),
    decreases orig.len(),
{
    if orig.len() == 0 {
        assert(ext[0].0@ == k);
        assert(lookup_by_name(ext, k) == Some(v));
        assert forall|k2: Seq<char>| k2 != k implies lookup_by_name(ext, k2) == lookup_by_name(
            orig,
            k2,
        ) by {
            assert(ext[0].0@ != k2);
            assert(ext.drop_first().len() == 0);
            assert(lookup_by_name(ext.drop_first(), k2) is None);
            assert(lookup_by_name(ext, k2) is None);
            assert(lookup_by_name(orig, k2) is None);
        }
    } else {
        let orig1 = orig.drop_first();
        let ext1 = ext.drop_first();
        assert(forall|j: int| 0 <= j < orig1.len() ==> ext1[j] == ext[j + 1] && orig1[j] == orig[j
            + 1]);
        assert(ext1.last() == ext.last());
        lemma_lookup_append(orig1, k, v, ext1);
        assert(ext[0] == orig[0]);
        assert(ext[0].0@ != k);
        assert(lookup_by_name(ext, k) == lookup_by_name(ext1, k));
        assert forall|k2: Seq<char>| k2 != k implies lookup_by_name(ext, k2) == lookup_by_name(
            orig,
            k2,
        ) by {
            if ext[0].0@ == k2 {
                assert(lookup_by_name(ext, k2) == Some(ext[0].1));
                assert(lookup_by_name(orig, k2) == Some(orig[0].1));
            } else {
                assert(lookup_by_name(ext, k2) == lookup_by_name(ext1, k2));
                assert(lookup_by_name(orig, k2) == lookup_by_name(orig1, k2));
            }
        }
    }
}

/// First-match lookup in a sequence of window-keyed entries.
pub open spec fn lookup_by_window(s: Seq<(u32, String)>, w: u32) -> Option<Seq<char>>
    decreases s.len(),
{
    if s.len() == 0 {
        None
    } else if s[0].0 == w {
        Some(s[0].1@)
    } else {
        lookup_by_window(s.drop_first(), w)
    }
}

/// The entries of `s` that do not bear the key `w`, in order.
pub open spec fn drop_window(s: Seq<(u32, String)>, w: u32) -> Seq<(u32, String)>
    decreases s.len(),
{
    if s.len() == 0 {
        Seq::empty()
    } else if s[0].0 == w {
        drop_window(s.drop_first(), w)
    } else {
        seq![s[0]] + drop_window(s.drop_first(), w)
    }
}

/// A lookup table from window to the identity last observed on it.
pub struct WindowNames {
    pub entries: Vec<(u32, String)>,
}

impl WindowNames {
    pub open spec fn spec_get(&self, w: u32) -> Option<Seq<char>> {
        lookup_by_window(self.entries@, w)
    }

    pub fn new() -> (r: WindowNames)
        ensures
            forall|w: u32| r.spec_get(w) is None,
            r.entries@.len() == 0,
    {
        WindowNames { entries: Vec::new() }
    }

    pub fn get(&self, w: u32) -> (r: Option<String>)
        ensures
            match r {
                Some(s) => self.spec_get(w) == Some(s@),
                None => self.spec_get(w) is None,
            },
    {
        let ghost full = self.entries@;
        proof {
            assert(full.skip(0) =~= full);
        }
        let mut i: usize = 0;
        while i < self.entries.len()
            invariant
                i <= full.len(),
                full == self.entries@,
                lookup_by_window(full, w) == lookup_by_window(full.skip(i as int), w),
            decreases full.len() - i,
        {
            proof {
                assert(full.skip(i as int)[0] == full[i as int]);
            }
            if self.entries[i].0 == w {
                return Some(self.entries[i].1.clone());
            }
            proof {
                assert(full.skip(i as int).drop_first() =~= full.skip(i + 1));
            }
            i = i + 1;
        }
        proof {
            assert(full.skip(full.len() as int).len() == 0);
        }
        None
    }

    /// Records the identity last observed on a window.
    pub fn insert(&mut self, w: u32, name: String)
        ensures
            final(self).spec_get(w) == Some(name@),
            forall|w2: u32| w2 != w ==> final(self).spec_get(w2) == old(self).spec_get(w2),
    {
        let ghost orig = self.entries@;
        let mut i: usize = 0;
        while i < self.entries.len()
            invariant
                i <= orig.len(),
                orig == self.entries@,
                orig == old(self).entries@,
                forall|j: int| 0 <= j < i ==> orig[j].0 != w,
            decreases orig.len() - i,
        {
            if self.entries[i].0 == w {
                assert(orig[i as int].0 == w);
                self.entries[i] = (w, name);
                proof {
                    lemma_win_lookup_update(orig, self.entries@, i as int, w);
                    assert(forall|w2: u32|
                        w2 != w ==> lookup_by_window(self.entries@, w2) == lookup_by_window(
                            orig,
                            w2,
                        ));
                    assert(forall|w2: u32|
                        w2 != w ==> old(self).spec_get(w2) == lookup_by_window(orig, w2));
                }
                return ;
            }
            i = i + 1;
        }
        self.entries.push((w, name));
        proof {
            lemma_win_lookup_append(orig, w, self.entries@);
        }
    }

    /// Forgets a window entirely.
    pub fn remove(&mut self, w: u32)
        ensures
            final(self).spec_get(w) is None,
            forall|w2: u32| w2 != w ==> final(self).spec_get(w2) == old(self).spec_get(w2),
    {
        let mut kept: Vec<(u32, String)> = Vec::new();
        let ghost orig = self.entries@;
        proof {
            assert(orig.subrange(0, 0) =~= Seq::<(u32, String)>::empty());
        }
        let mut i: usize = 0;
        while i < self.entries.len()
            invariant
                i <= orig.len(),
                orig == self.entries@,
                kept@ == drop_window(orig.subrange(0, i as int), w),
            decreases orig.len() - i,
        {
            let entry_w = self.entries[i].0;
            let ghost pre = orig.subrange(0, i as int);
            if entry_w != w {
                let name = self.entries[i].1.clone();
                kept.push((entry_w, name));
            }
            proof {
                assert(orig.subrange(0, i + 1) =~= pre.push(orig[i as int]));
                lemma_drop_window_push(pre, orig[i as int], w);
                if entry_w != w {
                    assert(kept@ =~= drop_window(pre, w).push(orig[i as int]));
                }
            }
            i = i + 1;
        }
        proof {
            assert(orig.subrange(0, orig.len() as int) =~= orig);
            lemma_drop_window_lookup(orig, w);
        }
        self.entries = kept;
    }
}

proof fn lemma_win_lookup_update(orig: Seq<(u32, String)>, upd: Seq<(u32, String)>, i: int, w: u32)
    requires
        0 <= i < orig.len(),
        upd.len() == orig.len(),
        forall|j: int| 0 <= j < orig.len() && j != i ==> upd[j] == orig[j],
        orig[i].0 == w,
        upd[i].0 == w,
        forall|j: int| 0 <= j < i ==> orig[j].0 != w,
    ensures
        lookup_by_window(upd, w) == Some(upd[i].1@),
        forall|w2: u32| w2 != w ==> lookup_by_window(upd, w2) == lookup_by_window(orig, w2),
    decreases orig.len(),
{
    if i == 0 {
        assert forall|w2: u32| w2 != w implies lookup_by_window(upd, w2) == lookup_by_window(
            orig,
            w2,
        ) by {
            assert(upd[0].0 != w2);
            assert(orig[0].0 != w2);
            lemma_win_lookup_same(upd.drop_first(), orig.drop_first(), w2);
        }
    } else {
        assert(upd[0] == orig[0]);
        let orig1 = orig.drop_first();
        let upd1 = upd.drop_first();
        assert(forall|j: int| 0 <= j < orig1.len() && j != i - 1 ==> upd1[j] == orig1[j]);
        assert(upd1[i - 1] == upd[i]);
        assert(orig1[i - 1] == orig[i]);
        assert(forall|j: int| 0 <= j < i - 1 ==> orig1[j] == orig[j + 1] && orig1[j].0 != w);
        lemma_win_lookup_update(orig1, upd1, i - 1, w);
        assert(lookup_by_window(upd, w) == lookup_by_window(upd1, w));
        assert forall|w2: u32| w2 != w implies lookup_by_window(upd, w2) == lookup_by_window(
            orig,
            w2,
        ) by {
            if upd[0].0 == w2 {
                assert(lookup_by_window(upd, w2) == Some(upd[0].1@));
                assert(lookup_by_window(orig, w2) == Some(orig[0].1@));
            } else {
                assert(lookup_by_window(upd, w2) == lookup_by_window(upd1, w2));
                assert(lookup_by_window(orig, w2) == lookup_by_window(orig1, w2));
            }
        }
    }
}

proof fn lemma_win_lookup_same(a: Seq<(u32, String)>, b: Seq<(u32, String)>, w: u32)
    requires
        a.len() == b.len(),
        forall|j: int| 0 <= j < a.len() ==> a[j] == b[j],
    ensures
        lookup_by_window(a, w) == lookup_by_window(b, w),
    decreases a.len(),
{
    if a.len() > 0 {
        lemma_win_lookup_same(a.drop_first(), b.drop_first(), w);
    }
}

proof fn lemma_win_lookup_append(orig: Seq<(u32, String)>, w: u32, ext: Seq<(u32, String)>)
    requires
        ext.len() == orig.len() + 1,
        forall|j: int| 0 <= j < orig.len() ==> ext[j] == orig[j],
        ext.last().0 == w,
        forall|j: int| 0 <= j < orig.len() ==> orig[j].0 != w,
    ensures
        lookup_by_window(ext, w) == Some(ext.last().1@),
        forall|w2: u32| w2 != w ==> lookup_by_window(ext, w2) == lookup_by_window(orig, w2),
    decreases orig.len(),
{
    if orig.len() == 0 {
        assert(ext[0].0 == w);
        assert forall|w2: u32| w2 != w implies lookup_by_window(ext, w2) == lookup_by_window(
            orig,
            w2,
        ) by {
            assert(ext[0].0 != w2);
            assert(ext.drop_first().len() == 0);
            assert(lookup_by_window(ext.drop_first(), w2) is None);
            assert(lookup_by_window(ext, w2) is None);
            assert(lookup_by_window(orig, w2) is None);
        }
    } else {
        let orig1 = orig.drop_first();
        let ext1 = ext.drop_first();
        assert(forall|j: int| 0 <= j < orig1.len() ==> ext1[j] == ext[j + 1] && orig1[j] == orig[j
            + 1]);
        assert(ext1.last() == ext.last());
        lemma_win_lookup_append(orig1, w, ext1);
        assert(ext[0] == orig[0]);
        assert(ext[0].0 != w);
        assert(lookup_by_window(ext, w) == lookup_by_window(ext1, w));
        assert forall|w2: u32| w2 != w implies lookup_by_window(ext, w2) == lookup_by_window(
            orig,
            w2,
        ) by {
            if ext[0].0 == w2 {
                assert(lookup_by_window(ext, w2) == Some(ext[0].1@));
                assert(lookup_by_window(orig, w2) == Some(orig[0].1@));
            } else {
                assert(lookup_by_window(ext, w2) == lookup_by_window(ext1, w2));
                assert(lookup_by_window(orig, w2) == lookup_by_window(orig1, w2));
            }
        }
    }
}

/// Appending one entry to the scanned prefix extends its filtered form by
/// that entry exactly when the entry does not bear the dropped key.
proof fn lemma_drop_window_push(s: Seq<(u32, String)>, e: (u32, String), w: u32)
    ensures
        drop_window(s.push(e), w) == if e.0 == w {
            drop_window(s, w)
        } else {
            drop_window(s, w).push(e)
        },
    decreases s.len(),
{
    if s.len() == 0 {
        assert(s.push(e)[0] == e);
        assert(s.push(e).drop_first() =~= Seq::<(u32, String)>::empty());
        assert(drop_window(Seq::<(u32, String)>::empty(), w) == Seq::<(u32, String)>::empty());
        assert(drop_window(s, w) == Seq::<(u32, String)>::empty());
        if e.0 == w {
            assert(drop_window(s.push(e), w) == drop_window(s.push(e).drop_first(), w));
            assert(drop_window(s.push(e), w) == drop_window(s, w));
        } else {
            assert(drop_window(s.push(e), w) == seq![e] + drop_window(
                Seq::<(u32, String)>::empty(),
                w,
            ));
            assert(seq![e] + Seq::<(u32, String)>::empty() =~= drop_window(s, w).push(e));
            assert(drop_window(s.push(e), w) == drop_window(s, w).push(e));
        }
    } else {
        assert(s.push(e)[0] == s[0]);
        assert(s.push(e).drop_first() =~= s.drop_first().push(e));
        lemma_drop_window_push(s.drop_first(), e, w);
        assert(drop_window(s.push(e), w) == if s[0].0 == w {
            drop_window(s.drop_first().push(e), w)
        } else {
            seq![s[0]] + drop_window(s.drop_first().push(e), w)
        });
        if s[0].0 == w {
            assert(drop_window(s, w) == drop_window(s.drop_first(), w));
        } else {
            assert(drop_window(s, w) == seq![s[0]] + drop_window(s.drop_first(), w));
            if e.0 != w {
                assert(seq![s[0]] + drop_window(s.drop_first(), w).push(e) =~= (seq![s[0]]
                    + drop_window(s.drop_first(), w)).push(e));
            }
        }
    }
}

/// Filtering a key out removes it from lookup and leaves other keys alone.
proof fn lemma_drop_window_lookup(s: Seq<(u32, String)>, w: u32)
    ensures
        lookup_by_window(drop_window(s, w), w) is None,
        forall|w2: u32|
            w2 != w ==> lookup_by_window(drop_window(s, w), w2) == lookup_by_window(s, w2),
    decreases s.len(),
{
    if s.len() == 0 {
    } else {
        lemma_drop_window_lookup(s.drop_first(), w);
        if s[0].0 == w {
            assert(drop_window(s, w) == drop_window(s.drop_first(), w));
            assert forall|w2: u32| w2 != w implies lookup_by_window(drop_window(s, w), w2)
                == lookup_by_window(s, w2) by {
                assert(s[0].0 != w2);
                assert(lookup_by_window(s, w2) == lookup_by_window(s.drop_first(), w2));
            }
        } else {
            let rest = drop_window(s.drop_first(), w);
            let whole = seq![s[0]] + rest;
            assert(drop_window(s, w) == whole);
            assert(whole[0] == s[0]);
            assert(whole.drop_first() =~= rest);
            assert(lookup_by_window(whole, w) == lookup_by_window(rest, w));
            assert forall|w2: u32| w2 != w implies lookup_by_window(drop_window(s, w), w2)
                == lookup_by_window(s, w2) by {
                if s[0].0 == w2 {
                    assert(lookup_by_window(whole, w2) == Some(s[0].1@));
                    assert(lookup_by_window(s, w2) == Some(s[0].1@));
                } else {
                    assert(lookup_by_window(whole, w2) == lookup_by_window(rest, w2));
                    assert(lookup_by_window(s, w2) == lookup_by_window(s.drop_first(), w2));
                }
            }
        }
    }
}

} // verus!
