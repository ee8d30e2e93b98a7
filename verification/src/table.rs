//! Tables: rows that are found by a key, each key at most once.
use crate::pairs;
use crate::tabs::{SessionSet, TabRef, TabRows};
use crate::tabs;
use crate::text;
use vstd::prelude::*;
use vstd::string::*;

verus! {

/// One row of a [`Table`] with its key.
#[derive(Debug)]
pub struct Entry<V> {
    pub key: String,
    pub value: V,
}

/// No key occurs twice.
pub open spec fn keys_differ<V>(entries: Seq<Entry<V>>) -> bool {
    pairs::keys_differ(entries.map_values(|entry: Entry<V>| (entry.key@, entry.value)))
}

/// The rows of a list with their keys.
pub open spec fn pairs_of<V: View>(entries: Seq<Entry<V>>) -> Seq<(Seq<char>, V::V)> {
    entries.map_values(|entry: Entry<V>| (entry.key@, entry.value@))
}

/// The rows of a list by their keys.
pub open spec fn rows_of<V: View>(entries: Seq<Entry<V>>) -> Map<Seq<char>, V::V> {
    pairs::as_map(pairs_of(entries))
}

/// The keys of a list of rows, in its order.
pub open spec fn keys_of<V>(entries: Seq<Entry<V>>) -> Seq<Seq<char>> {
    entries.map_values(|entry: Entry<V>| entry.key@)
}

/// A list of rows stands for `rows` when each of them occurs once.
pub open spec fn lists<V: View>(entries: Seq<Entry<V>>, rows: Map<Seq<char>, V::V>) -> bool {
    &&& keys_of(entries).no_duplicates()
    &&& keys_of(entries).to_set() == rows.dom()
    &&& forall|i: int|
        0 <= i < entries.len() ==> (#[trigger] entries[i]).value@ == rows[entries[i].key@]
}

proof fn lemma_keys_differ<V: View>(entries: Seq<Entry<V>>)
    ensures
        keys_differ(entries) == pairs::keys_differ(pairs_of(entries)),
{
    let plain = entries.map_values(|entry: Entry<V>| (entry.key@, entry.value));
    let pairs = pairs_of(entries);
    assert forall|i: int| 0 <= i < entries.len() implies plain[i].0 == pairs[i].0 by {}
    if keys_differ(entries) {
        assert forall|i: int, j: int|
            0 <= i < pairs.len() && 0 <= j < pairs.len() && i != j implies (#[trigger] pairs[i]).0
            != (#[trigger] pairs[j]).0 by {
            assert(plain[i].0 != plain[j].0);
        }
    }
    if pairs::keys_differ(pairs) {
        assert forall|i: int, j: int|
            0 <= i < plain.len() && 0 <= j < plain.len() && i != j implies (#[trigger] plain[i]).0
            != (#[trigger] plain[j]).0 by {
            assert(pairs[i].0 != pairs[j].0);
        }
    }
}

proof fn lemma_rows_of_push<V: View>(entries: Seq<Entry<V>>, entry: Entry<V>)
    requires
        keys_differ(entries),
        !rows_of(entries).contains_key(entry.key@),
    ensures
        keys_differ(entries.push(entry)),
        rows_of(entries.push(entry)) == rows_of(entries).insert(entry.key@, entry.value@),
{
    lemma_keys_differ(entries);
    lemma_keys_differ(entries.push(entry));
    pairs::lemma_push(pairs_of(entries), entry.key@, entry.value@);
    assert(pairs_of(entries.push(entry)) =~= pairs_of(entries).push((entry.key@, entry.value@)));
}

proof fn lemma_rows_of_remove<V: View>(entries: Seq<Entry<V>>, at: int)
    requires
        keys_differ(entries),
        0 <= at < entries.len(),
    ensures
        rows_of(entries).contains_key(entries[at].key@),
        rows_of(entries)[entries[at].key@] == entries[at].value@,
        keys_differ(entries.remove(at)),
        rows_of(entries.remove(at)) == rows_of(entries).remove(entries[at].key@),
{
    lemma_keys_differ(entries);
    lemma_keys_differ(entries.remove(at));
    pairs::lemma_at(pairs_of(entries), at);
    pairs::lemma_remove(pairs_of(entries), at);
    assert(pairs_of(entries.remove(at)) =~= pairs_of(entries).remove(at));
}

proof fn lemma_entries_list_rows<V: View>(entries: Seq<Entry<V>>)
    requires
        keys_differ(entries),
    ensures
        lists(entries, rows_of(entries)),
        rows_of(entries).dom().finite(),
        rows_of(entries).len() == entries.len(),
{
    lemma_keys_differ(entries);
    let pairs = pairs_of(entries);
    pairs::lemma_lists(pairs);
    assert(keys_of(entries) =~= pairs::keys_of(pairs));
    assert forall|i: int| 0 <= i < entries.len() implies (#[trigger] entries[i]).value@ == rows_of(
        entries,
    )[entries[i].key@] by {
        assert(pairs[i].1 == entries[i].value@);
    }
}

/// Rows by their keys.
#[derive(Debug)]
pub struct Table<V> {
    entries: Vec<Entry<V>>,
}

impl<V: View> View for Table<V> {
    type V = Map<Seq<char>, V::V>;

    closed spec fn view(&self) -> Map<Seq<char>, V::V> {
        rows_of(self.entries@)
    }
}

/// The rows that are left when the tabs of `sessions` are gone.
pub open spec fn rows_outside<V: TabRows>(
    rows: Map<Seq<char>, V::V>,
    sessions: Set<Seq<char>>,
) -> Map<Seq<char>, V::V> {
    Map::new(
        |key: Seq<char>| rows.contains_key(key) && V::outside(rows[key], sessions) is Some,
        |key: Seq<char>| V::outside(rows[key], sessions)->0,
    )
}

impl<V> Table<V> {
    #[verifier::type_invariant]
    closed spec fn keys_are_unique(self) -> bool {
        keys_differ(self.entries@)
    }
}

impl<V: View> Table<V> {
    /// A table without rows.
    pub fn new() -> (table: Table<V>)
        ensures
            table@ == Map::<Seq<char>, V::V>::empty(),
    {
        let entries: Vec<Entry<V>> = Vec::new();
        proof {
            pairs::lemma_empty(pairs_of(entries@));
        }
        Table { entries }
    }

    /// The number of rows.
    pub fn len(&self) -> (count: usize)
        ensures
            self@.dom().finite(),
            count == self@.len(),
    {
        proof {
            use_type_invariant(self);
            lemma_entries_list_rows(self.entries@);
        }
        self.entries.len()
    }

    /// Where the row of `key` stands.
    fn position(&self, key: &str) -> (at: Option<usize>)
        ensures
            match at {
                Some(i) => i < self.entries@.len() && self.entries@[i as int].key@ == key@,
                None => !self@.contains_key(key@),
            },
    {
        let mut i: usize = 0;
        while i < self.entries.len()
            invariant
                i <= self.entries@.len(),
                forall|j: int| 0 <= j < i ==> (#[trigger] self.entries@[j]).key@ != key@,
            decreases self.entries@.len() - i,
        {
            if text::same_text(self.entries[i].key.as_str(), key) {
                return Some(i);
            }
            i = i + 1;
        }
        proof {
            let pairs = pairs_of(self.entries@);
            assert forall|j: int| !pairs::has_key_at(pairs, key@, j) by {
                if 0 <= j < pairs.len() {
                    assert(pairs[j].0 == self.entries@[j].key@);
                }
            }
        }
        None
    }

    /// The row of `key`, if there is one.
    pub fn get(&self, key: &str) -> (row: Option<&V>)
        ensures
            match row {
                Some(row) => self@.contains_key(key@) && self@[key@] == row@,
                None => !self@.contains_key(key@),
            },
    {
        proof {
            use_type_invariant(self);
        }
        match self.position(key) {
            Some(i) => {
                proof {
                    lemma_rows_of_remove(self.entries@, i as int);
                }
                Some(&self.entries[i].value)
            },
            None => None,
        }
    }

    /// Whether there is a row of `key`.
    pub fn contains_key(&self, key: &str) -> (yes: bool)
        ensures
            yes == self@.contains_key(key@),
    {
        self.get(key).is_some()
    }

    /// The rows in a list, without changing the table.
    pub fn rows(&self) -> (entries: &Vec<Entry<V>>)
        ensures
            lists(entries@, self@),
    {
        proof {
            use_type_invariant(self);
            lemma_entries_list_rows(self.entries@);
        }
        &self.entries
    }

    /// The rows in a list.
    pub fn into_rows(self) -> (entries: Vec<Entry<V>>)
        ensures
            lists(entries@, self@),
    {
        proof {
            use_type_invariant(&self);
            lemma_entries_list_rows(self.entries@);
        }
        self.entries
    }

    /// Takes the row of `key` out, if there is one.
    pub fn remove(&mut self, key: &str) -> (row: Option<V>)
        ensures
            final(self)@ == old(self)@.remove(key@),
            match row {
                Some(row) => old(self)@.contains_key(key@) && old(self)@[key@] == row@,
                None => !old(self)@.contains_key(key@),
            },
    {
        proof {
            use_type_invariant(&*self);
        }
        match self.position(key) {
            Some(i) => {
                let mut entries: Vec<Entry<V>> = Vec::new();
                std::mem::swap(&mut self.entries, &mut entries);
                proof {
                    lemma_rows_of_remove(entries@, i as int);
                }
                let entry = entries.remove(i);
                self.entries = entries;
                Some(entry.value)
            },
            None => {
                assert(self@ =~= self@.remove(key@));
                None
            },
        }
    }

    /// Puts a row under `key`, in place of the one that stood there.
    pub fn insert(&mut self, key: String, value: V)
        ensures
            final(self)@ == old(self)@.insert(key@, value@),
    {
        let _ = self.remove(key.as_str());
        proof {
            use_type_invariant(&*self);
        }
        let mut entries: Vec<Entry<V>> = Vec::new();
        std::mem::swap(&mut self.entries, &mut entries);
        let ghost entry = Entry { key, value };
        proof {
            lemma_rows_of_push(entries@, entry);
            assert(old(self)@.remove(key@).insert(key@, value@) =~= old(self)@.insert(
                key@,
                value@,
            ));
        }
        entries.push(Entry { key, value });
        self.entries = entries;
    }
}

impl<V: TabRows> Table<V> {
    /// Drops the tabs of `sessions` from every row, and the rows that are
    /// left without a tab.
    pub fn keep_outside(&mut self, sessions: &SessionSet)
        ensures
            final(self)@ == rows_outside::<V>(old(self)@, sessions@),
    {
        proof {
            use_type_invariant(&*self);
        }
        let mut entries: Vec<Entry<V>> = Vec::new();
        std::mem::swap(&mut self.entries, &mut entries);
        let ghost all = entries@;
        let ghost mut done = Seq::<Entry<V>>::empty();
        let mut kept: Vec<Entry<V>> = Vec::new();
        proof {
            lemma_keys_differ(all);
            pairs::lemma_empty(pairs_of(kept@));
            pairs::lemma_empty(pairs_of(done));
            assert(rows_of(kept@) =~= rows_outside::<V>(rows_of(done), sessions@));
        }
        for entry in iter: entries
            invariant
                all == iter.seq(),
                pairs::keys_differ(pairs_of(all)),
                done == all.subrange(0, iter.index()),
                keys_differ(done),
                keys_differ(kept@),
                rows_of(kept@) == rows_outside::<V>(rows_of(done), sessions@),
        {
            let ghost i = iter.index();
            let ghost before = kept@;
            proof {
                assert(entry == all[i]);
                assert(all.subrange(0, i + 1) == done.push(entry));
                if rows_of(done).contains_key(entry.key@) {
                    let j = choose|j: int| pairs::has_key_at(pairs_of(done), entry.key@, j);
                    assert(pairs_of(all)[j].0 == pairs_of(all)[i].0);
                }
                lemma_rows_of_push(done, entry);
            }
            match entry.value.keep_outside(sessions) {
                Some(value) => {
                    let ghost left = Entry { key: entry.key, value };
                    proof {
                        lemma_rows_of_push(before, left);
                    }
                    kept.push(Entry { key: entry.key, value });
                },
                None => {},
            }
            proof {
                assert(rows_of(kept@) =~= rows_outside::<V>(
                    rows_of(done.push(entry)),
                    sessions@,
                ));
                done = done.push(entry);
            }
        }
        proof {
            assert(done =~= all);
        }
        self.entries = kept;
    }
}

/// A tab's key: its session and its number there.
pub open spec fn tab_pairs(tabs: Seq<tabs::TabView>) -> Seq<((Seq<char>, i64), u64)> {
    tabs.map_values(|tab: tabs::TabView| ((tab.session, tab.tab_id), tab.handle))
}

/// Tabs, each at most once.
#[derive(Debug)]
pub struct TabTable {
    tabs: Vec<TabRef>,
}

impl View for TabTable {
    type V = Map<(Seq<char>, i64), u64>;

    /// The handles of the tabs, by session and number.
    closed spec fn view(&self) -> Map<(Seq<char>, i64), u64> {
        pairs::as_map(tab_pairs(tabs::tab_views(self.tabs@)))
    }
}

/// The tabs that are open in none of `sessions`.
pub open spec fn tab_rows_outside(
    rows: Map<(Seq<char>, i64), u64>,
    sessions: Set<Seq<char>>,
) -> Map<(Seq<char>, i64), u64> {
    Map::new(
        |key: (Seq<char>, i64)| rows.contains_key(key) && !sessions.contains(key.0),
        |key: (Seq<char>, i64)| rows[key],
    )
}

proof fn lemma_tab_push(tabs: Seq<TabRef>, tab: TabRef)
    ensures
        tab_pairs(tabs::tab_views(tabs.push(tab))) == tab_pairs(tabs::tab_views(tabs)).push(
            ((tab@.session, tab@.tab_id), tab@.handle),
        ),
{
    assert(tab_pairs(tabs::tab_views(tabs.push(tab))) =~= tab_pairs(tabs::tab_views(tabs)).push(
        ((tab@.session, tab@.tab_id), tab@.handle),
    ));
}

impl TabTable {
    #[verifier::type_invariant]
    closed spec fn tabs_are_unique(self) -> bool {
        pairs::keys_differ(tab_pairs(tabs::tab_views(self.tabs@)))
    }

    /// A table without tabs.
    pub fn new() -> (table: TabTable)
        ensures
            table@ == Map::<(Seq<char>, i64), u64>::empty(),
    {
        let table = TabTable { tabs: Vec::new() };
        proof {
            pairs::lemma_empty(tab_pairs(tabs::tab_views(table.tabs@)));
        }
        table
    }

    /// The number of tabs.
    pub fn len(&self) -> (count: usize)
        ensures
            self@.dom().finite(),
            count == self@.len(),
    {
        proof {
            use_type_invariant(self);
            pairs::lemma_lists(tab_pairs(tabs::tab_views(self.tabs@)));
        }
        self.tabs.len()
    }

    /// Where the tab stands.
    fn position(&self, session: &str, tab_id: i64) -> (at: Option<usize>)
        ensures
            match at {
                Some(i) => i < self.tabs@.len() && self.tabs@[i as int]@.session == session@
                    && self.tabs@[i as int].tab_id == tab_id,
                None => !self@.contains_key((session@, tab_id)),
            },
    {
        let ghost pairs = tab_pairs(tabs::tab_views(self.tabs@));
        let mut i: usize = 0;
        while i < self.tabs.len()
            invariant
                i <= self.tabs@.len(),
                pairs == tab_pairs(tabs::tab_views(self.tabs@)),
                forall|j: int| 0 <= j < i ==> (#[trigger] pairs[j]).0 != (session@, tab_id),
            decreases self.tabs@.len() - i,
        {
            let other = &self.tabs[i];
            assert(pairs[i as int].0 == (other@.session, other@.tab_id));
            if other.tab_id == tab_id && text::same_text(other.session.as_str(), session) {
                return Some(i);
            }
            i = i + 1;
        }
        assert forall|j: int| !pairs::has_key_at(pairs, (session@, tab_id), j) by {}
        None
    }

    /// The handle of a tab, if it is there.
    pub fn get(&self, session: &str, tab_id: i64) -> (handle: Option<u64>)
        ensures
            handle == if self@.contains_key((session@, tab_id)) {
                Some(self@[(session@, tab_id)])
            } else {
                None
            },
    {
        proof {
            use_type_invariant(self);
        }
        match self.position(session, tab_id) {
            Some(i) => {
                proof {
                    pairs::lemma_at(tab_pairs(tabs::tab_views(self.tabs@)), i as int);
                }
                Some(self.tabs[i].handle)
            },
            None => None,
        }
    }

    /// The tabs in a list.
    pub fn tabs(&self) -> (list: &Vec<TabRef>)
        ensures
            pairs::lists(tab_pairs(tabs::tab_views(list@)), self@),
    {
        proof {
            use_type_invariant(self);
            pairs::lemma_lists(tab_pairs(tabs::tab_views(self.tabs@)));
        }
        &self.tabs
    }

    /// Puts a tab in, in place of the one of the same session and number.
    pub fn insert(&mut self, tab: TabRef)
        ensures
            final(self)@ == old(self)@.insert((tab@.session, tab@.tab_id), tab@.handle),
    {
        proof {
            use_type_invariant(&*self);
        }
        let ghost before = self@;
        let ghost key = (tab@.session, tab@.tab_id);
        let at = self.position(tab.session.as_str(), tab.tab_id);
        let mut tabs: Vec<TabRef> = Vec::new();
        std::mem::swap(&mut self.tabs, &mut tabs);
        let ghost all = tab_pairs(tabs::tab_views(tabs@));
        if let Some(i) = at {
            let _ = tabs.remove(i);
            proof {
                pairs::lemma_remove(all, i as int);
                assert(tab_pairs(tabs::tab_views(tabs@)) =~= all.remove(i as int));
            }
        }
        proof {
            let left = tab_pairs(tabs::tab_views(tabs@));
            assert(pairs::as_map(left) =~= before.remove(key));
            pairs::lemma_push(left, key, tab@.handle);
            lemma_tab_push(tabs@, tab);
            assert(before.remove(key).insert(key, tab@.handle) =~= before.insert(key, tab@.handle));
        }
        tabs.push(tab);
        self.tabs = tabs;
    }

    /// Drops the tabs of `sessions`.
    pub fn keep_outside(&mut self, sessions: &SessionSet)
        ensures
            final(self)@ == tab_rows_outside(old(self)@, sessions@),
    {
        proof {
            use_type_invariant(&*self);
        }
        let mut tabs: Vec<TabRef> = Vec::new();
        std::mem::swap(&mut self.tabs, &mut tabs);
        let ghost all = tab_pairs(tabs::tab_views(tabs@));
        let ghost mut done = Seq::<((Seq<char>, i64), u64)>::empty();
        let mut kept: Vec<TabRef> = Vec::new();
        proof {
            pairs::lemma_empty(tab_pairs(tabs::tab_views(kept@)));
            pairs::lemma_empty(done);
            assert(pairs::as_map(tab_pairs(tabs::tab_views(kept@))) =~= tab_rows_outside(
                pairs::as_map(done),
                sessions@,
            ));
        }
        for tab in iter: tabs
            invariant
                all == tab_pairs(tabs::tab_views(iter.seq())),
                pairs::keys_differ(all),
                done == all.subrange(0, iter.index()),
                pairs::keys_differ(done),
                pairs::keys_differ(tab_pairs(tabs::tab_views(kept@))),
                pairs::as_map(tab_pairs(tabs::tab_views(kept@))) == tab_rows_outside(
                    pairs::as_map(done),
                    sessions@,
                ),
        {
            let ghost i = iter.index();
            let ghost key = (tab@.session, tab@.tab_id);
            let ghost handle = tab@.handle;
            let ghost before = kept@;
            proof {
                assert(all[i] == (key, handle));
                assert(all.subrange(0, i + 1) == done.push((key, handle)));
                if pairs::as_map(done).contains_key(key) {
                    let j = choose|j: int| pairs::has_key_at(done, key, j);
                    assert(all[j].0 == all[i].0);
                }
                pairs::lemma_push(done, key, handle);
            }
            if !sessions.contains(tab.session.as_str()) {
                proof {
                    pairs::lemma_push(tab_pairs(tabs::tab_views(before)), key, handle);
                    lemma_tab_push(before, tab);
                }
                kept.push(tab);
            }
            proof {
                assert(pairs::as_map(tab_pairs(tabs::tab_views(kept@))) =~= tab_rows_outside(
                    pairs::as_map(done.push((key, handle))),
                    sessions@,
                ));
                done = done.push((key, handle));
            }
        }
        proof {
            assert(done =~= all);
        }
        self.tabs = kept;
    }
}

} // verus!
