//! The system tray of the bar: its items, keyed by the bus name of the
//! application that shows them.

use vstd::prelude::*;
use crate::text::str_eq;

verus! {

/// How an application wants its tray item shown.
#[derive(Debug, Clone, Copy, PartialEq, Eq, Structural)]
pub enum TrayStatus {
    Unknown,
    Passive,
    Active,
    NeedsAttention,
}

/// A tray item as the bar shows it.
#[derive(Debug, Clone)]
pub struct TrayItem {
    pub title: String,
    pub status: TrayStatus,
    /// The path of its icon.
    pub icon: String,
}

/// The title of a tray item: the one its application gives, or else its id.
pub fn tray_title(title: Option<String>, id: String) -> (shown: String)
    ensures
        shown@ == match title {
            Some(t) => t@,
            None => id@,
        },
{
    match title {
        Some(t) => t,
        None => id,
    }
}

/// The map that a list of (key, item) pairs describes; a later pair for a
/// key replaces an earlier one.
pub open spec fn pairs_map(pairs: Seq<(String, TrayItem)>) -> Map<Seq<char>, TrayItem>
    decreases pairs.len(),
{
    if pairs.len() == 0 {
        Map::empty()
    } else {
        pairs_map(pairs.drop_last()).insert(pairs.last().0@, pairs.last().1)
    }
}

/// No key occurs twice.
pub open spec fn keys_unique(pairs: Seq<(String, TrayItem)>) -> bool {
    forall|i: int, j: int|
        0 <= i < pairs.len() && 0 <= j < pairs.len() && i != j ==> #[trigger] pairs[i].0@
            != #[trigger] pairs[j].0@
}

/// The tray items, by the bus name of their application.
#[derive(Debug)]
pub struct TrayItems {
    pairs: Vec<(String, TrayItem)>,
}

impl View for TrayItems {
    type V = Map<Seq<char>, TrayItem>;

    closed spec fn view(&self) -> Map<Seq<char>, TrayItem> {
        pairs_map(self.pairs@)
    }
}

proof fn lemma_pairs_map_dom(pairs: Seq<(String, TrayItem)>, k: Seq<char>)
    ensures
        pairs_map(pairs).contains_key(k) <==> exists|i: int| 0 <= i < pairs.len() && pairs[i].0@ == k,
    decreases pairs.len(),
{
    if pairs.len() > 0 {
        let p = pairs.drop_last();
        lemma_pairs_map_dom(p, k);
        if pairs_map(pairs).contains_key(k) && pairs.last().0@ != k {
            let i = choose|i: int| 0 <= i < p.len() && p[i].0@ == k;
            assert(pairs[i].0@ == k);
        }
        if pairs_map(pairs).contains_key(k) && pairs.last().0@ == k {
            assert(pairs[pairs.len() - 1].0@ == k);
        }
        if exists|i: int| 0 <= i < pairs.len() && pairs[i].0@ == k {
            let i = choose|i: int| 0 <= i < pairs.len() && pairs[i].0@ == k;
            if i < pairs.len() - 1 {
                assert(p[i].0@ == k);
            }
        }
    }
}

proof fn lemma_pairs_map_update(pairs: Seq<(String, TrayItem)>, i: int, key: String, item: TrayItem)
    requires
        keys_unique(pairs),
        0 <= i < pairs.len(),
        pairs[i].0@ == key@,
    ensures
        pairs_map(pairs.update(i, (key, item))) == pairs_map(pairs).insert(key@, item),
    decreases pairs.len(),
{
    let u = pairs.update(i, (key, item));
    let p = pairs.drop_last();
    if i == pairs.len() - 1 {
        assert(u.drop_last() =~= p);
        assert(pairs_map(u) =~= pairs_map(pairs).insert(key@, item));
    } else {
        assert(keys_unique(p)) by {
            assert forall|a: int, b: int| 0 <= a < p.len() && 0 <= b < p.len() && a != b implies #[trigger] p[a].0@
                != #[trigger] p[b].0@ by {
                assert(pairs[a].0@ != pairs[b].0@);
            }
        }
        lemma_pairs_map_update(p, i, key, item);
        assert(u.drop_last() =~= p.update(i, (key, item)));
        assert(pairs.last().0@ != key@) by {
            assert(pairs[pairs.len() - 1].0@ != pairs[i].0@);
        }
        assert(pairs_map(u) =~= pairs_map(pairs).insert(key@, item));
    }
}

proof fn lemma_pairs_map_remove(pairs: Seq<(String, TrayItem)>, i: int)
    requires
        keys_unique(pairs),
        0 <= i < pairs.len(),
    ensures
        pairs_map(pairs.remove(i)) == pairs_map(pairs).remove(pairs[i].0@),
    decreases pairs.len(),
{
    let k = pairs[i].0@;
    let p = pairs.drop_last();
    assert(keys_unique(p)) by {
        assert forall|a: int, b: int| 0 <= a < p.len() && 0 <= b < p.len() && a != b implies #[trigger] p[a].0@
            != #[trigger] p[b].0@ by {
            assert(pairs[a].0@ != pairs[b].0@);
        }
    }
    if i == pairs.len() - 1 {
        assert(pairs.remove(i) =~= p);
        assert(!pairs_map(p).contains_key(k)) by {
            lemma_pairs_map_dom(p, k);
            if pairs_map(p).contains_key(k) {
                let j = choose|j: int| 0 <= j < p.len() && p[j].0@ == k;
                assert(pairs[j].0@ == pairs[i].0@);
            }
        }
        assert(pairs_map(p) =~= pairs_map(pairs).remove(k));
    } else {
        lemma_pairs_map_remove(p, i);
        assert(pairs.remove(i).drop_last() =~= p.remove(i));
        assert(pairs.remove(i).last() == pairs.last());
        assert(pairs.last().0@ != k) by {
            assert(pairs[pairs.len() - 1].0@ != pairs[i].0@);
        }
        assert(pairs_map(pairs.remove(i)) =~= pairs_map(pairs).remove(k));
    }
}

impl TrayItems {
    /// No application has two items.
    pub closed spec fn wf(&self) -> bool {
        keys_unique(self.pairs@)
    }

    /// No items.
    pub fn new() -> (items: TrayItems)
        ensures
            items.wf(),
            items@ == Map::<Seq<char>, TrayItem>::empty(),
    {
        TrayItems { pairs: Vec::new() }
    }

    /// The place of the item of `key`, if there is one.
    fn position(&self, key: &str) -> (r: Option<usize>)
        requires
            self.wf(),
        ensures
            match r {
                Some(i) => i < self.pairs@.len() && self.pairs@[i as int].0@ == key@,
                None => forall|i: int| 0 <= i < self.pairs@.len() ==> self.pairs@[i].0@ != key@,
            },
    {
        let mut i: usize = 0;
        while i < self.pairs.len()
            invariant
                i <= self.pairs@.len(),
                forall|j: int| 0 <= j < i ==> self.pairs@[j].0@ != key@,
            decreases self.pairs.len() - i,
        {
            if str_eq(self.pairs[i].0.as_str(), key) {
                return Some(i);
            }
            i = i + 1;
        }
        None
    }

    /// The item of `key`, if there is one.
    pub fn get(&self, key: &str) -> (item: Option<&TrayItem>)
        requires
            self.wf(),
        ensures
            match item {
                Some(t) => self@.contains_key(key@) && *t == self@[key@],
                None => !self@.contains_key(key@),
            },
    {
        proof {
            lemma_pairs_map_dom(self.pairs@, key@);
        }
        match self.position(key) {
            Some(i) => {
                proof {
                    let s = self.pairs@;
                    assert(s.update(i as int, s[i as int]) =~= s);
                    lemma_pairs_map_update(s, i as int, s[i as int].0, s[i as int].1);
                }
                Some(&self.pairs[i].1)
            },
            None => None,
        }
    }

    /// Shows `item` for `key`, in place of the one it had, if any.
    pub fn insert(&mut self, key: String, item: TrayItem)
        requires
            old(self).wf(),
        ensures
            final(self).wf(),
            final(self)@ == old(self)@.insert(key@, item),
    {
        match self.position(key.as_str()) {
            Some(i) => {
                proof {
                    lemma_pairs_map_update(self.pairs@, i as int, key, item);
                }
                self.pairs.set(i, (key, item));
                assert(keys_unique(self.pairs@)) by {
                    assert forall|a: int, b: int|
                        0 <= a < self.pairs@.len() && 0 <= b < self.pairs@.len() && a != b implies #[trigger] self.pairs@[a].0@
                        != #[trigger] self.pairs@[b].0@ by {
                        assert(old(self).pairs@[a].0@ != old(self).pairs@[b].0@);
                    }
                }
            },
            None => {
                let ghost k = key;
                let ghost it = item;
                self.pairs.push((key, item));
                assert(self.pairs@.drop_last() =~= old(self).pairs@);
                assert(keys_unique(self.pairs@)) by {
                    assert forall|a: int, b: int|
                        0 <= a < self.pairs@.len() && 0 <= b < self.pairs@.len() && a != b implies #[trigger] self.pairs@[a].0@
                        != #[trigger] self.pairs@[b].0@ by {
                        if a < old(self).pairs@.len() && b < old(self).pairs@.len() {
                            assert(old(self).pairs@[a].0@ != old(self).pairs@[b].0@);
                        }
                    }
                }
                assert(self.pairs@.last() == (k, it));
            },
        }
    }

    /// Drops the item of `key`, if there is one.
    pub fn remove(&mut self, key: &str)
        requires
            old(self).wf(),
        ensures
            final(self).wf(),
            final(self)@ == old(self)@.remove(key@),
    {
        proof {
            lemma_pairs_map_dom(self.pairs@, key@);
        }
        match self.position(key) {
            Some(i) => {
                proof {
                    lemma_pairs_map_remove(self.pairs@, i as int);
                }
                self.pairs.remove(i);
                assert(keys_unique(self.pairs@)) by {
                    assert forall|a: int, b: int|
                        0 <= a < self.pairs@.len() && 0 <= b < self.pairs@.len() && a != b implies #[trigger] self.pairs@[a].0@
                        != #[trigger] self.pairs@[b].0@ by {
                        let a0 = if a < i { a } else { a + 1 };
                        let b0 = if b < i { b } else { b + 1 };
                        assert(self.pairs@[a] == old(self).pairs@[a0]);
                        assert(self.pairs@[b] == old(self).pairs@[b0]);
                        assert(old(self).pairs@[a0].0@ != old(self).pairs@[b0].0@);
                    }
                }
            },
            None => {
                assert(!old(self)@.contains_key(key@));
                assert(old(self)@.remove(key@) =~= old(self)@);
            },
        }
    }

    /// The items that `pairs` lists; a later pair for an application
    /// replaces an earlier one.
    pub fn from_pairs(pairs: Vec<(String, TrayItem)>) -> (items: TrayItems)
        ensures
            items.wf(),
            items@ == pairs_map(pairs@),
    {
        let mut items = TrayItems::new();
        let mut rest = pairs;
        let ghost all = rest@;
        let mut n: usize = 0;
        assert(all.len() == rest.len());
        while rest.len() > 0
            invariant
                items.wf(),
                all.len() <= usize::MAX,
                n <= all.len(),
                rest@ == all.skip(n as int),
                items@ == pairs_map(all.take(n as int)),
            decreases rest.len(),
        {
            let (key, item) = rest.remove(0);
            let ghost pair = (key, item);
            assert(pair == all[n as int]);
            items.insert(key, item);
            n = n + 1;
            assert(all.take(n as int).drop_last() =~= all.take(n - 1));
            assert(rest@ =~= all.skip(n as int));
        }
        assert(all.take(n as int) =~= all);
        items
    }
}

} // verus!
