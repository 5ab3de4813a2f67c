//! The plugin's saved state: one entry per managed tab.
use crate::json::same_text;
use crate::tab::{TabState, TabStateView};
use vstd::prelude::*;

verus! {

/// The state of every managed tab, keyed by tab id; no id occurs twice.
#[derive(Debug)]
pub struct State {
    version: u32,
    tabs: Vec<(String, TabState)>,
}

pub struct StateView {
    pub version: u32,
    pub tabs: Map<Seq<char>, TabStateView>,
}

/// The state format's version written by this plugin.
pub const STATE_VERSION: u32 = 1;

/// No key occurs twice among `entries`.
pub open spec fn keys_unique(entries: Seq<(String, TabState)>) -> bool {
    forall|i: int, j: int|
        0 <= i < entries.len() && 0 <= j < entries.len() && i != j ==> entries[i].0@
            != entries[j].0@
}

/// The map from each entry's key to its tab.
pub open spec fn entries_map(entries: Seq<(String, TabState)>) -> Map<Seq<char>, TabStateView> {
    Map::new(
        |k: Seq<char>| exists|i: int| 0 <= i < entries.len() && entries[i].0@ == k,
        |k: Seq<char>| entries[choose|i: int| 0 <= i < entries.len() && entries[i].0@ == k].1@,
    )
}

/// Each entry is in the map, under its key.
pub proof fn lemma_entries_map(entries: Seq<(String, TabState)>, i: int)
    requires
        keys_unique(entries),
        0 <= i < entries.len(),
    ensures
        entries_map(entries).contains_key(entries[i].0@),
        entries_map(entries)[entries[i].0@] == entries[i].1@,
{
    let k = entries[i].0@;
    assert(exists|j: int| 0 <= j < entries.len() && entries[j].0@ == k);
    let c = choose|j: int| 0 <= j < entries.len() && entries[j].0@ == k;
    assert(c == i);
}

impl View for State {
    type V = StateView;

    closed spec fn view(&self) -> StateView {
        StateView { version: self.version, tabs: entries_map(self.tabs@) }
    }
}

impl State {
    #[verifier::type_invariant]
    spec fn inv(self) -> bool {
        keys_unique(self.tabs@)
    }

    /// A state of the given format version with no managed tab.
    pub fn with_version(version: u32) -> (r: State)
        ensures
            r@.version == version,
            r@.tabs == Map::<Seq<char>, TabStateView>::empty(),
    {
        let r = State { version, tabs: Vec::new() };
        assert(r@.tabs =~= Map::<Seq<char>, TabStateView>::empty());
        r
    }

    /// The state of a plugin that manages no tab yet.
    pub fn new() -> (r: State)
        ensures
            r@.version == STATE_VERSION,
            r@.tabs == Map::<Seq<char>, TabStateView>::empty(),
    {
        State::with_version(STATE_VERSION)
    }

    /// The state format's version.
    pub fn version(&self) -> (r: u32)
        ensures
            r == self@.version,
    {
        self.version
    }

    /// Where `id` stands among the entries, if it does.
    fn position(&self, id: &str) -> (r: Option<usize>)
        ensures
            r matches Some(i) ==> i < self.tabs@.len() && self.tabs@[i as int].0@ == id@,
            r is None ==> forall|i: int| 0 <= i < self.tabs@.len() ==> self.tabs@[i].0@ != id@,
    {
        position_in(&self.tabs, id)
    }

    /// The state of tab `id`, if it is managed.
    pub fn tab(&self, id: &str) -> (r: Option<&TabState>)
        ensures
            match r {
                Some(t) => self@.tabs.contains_key(id@) && self@.tabs[id@] == t@,
                None => !self@.tabs.contains_key(id@),
            },
    {
        proof {
            use_type_invariant(self);
        }
        match self.position(id) {
            Some(i) => {
                proof {
                    lemma_entries_map(self.tabs@, i as int);
                }
                Some(&self.tabs[i].1)
            },
            None => None,
        }
    }

    /// Manages tab `id` with the settings `tab`, replacing any it had.
    pub fn insert_tab(&mut self, id: String, tab: TabState)
        ensures
            final(self)@.version == old(self)@.version,
            final(self)@.tabs == old(self)@.tabs.insert(id@, tab@),
    {
        proof {
            use_type_invariant(&*self);
        }
        let ghost old_tabs = self.tabs@;
        let mut tabs: Vec<(String, TabState)> = Vec::new();
        std::mem::swap(&mut tabs, &mut self.tabs);
        assert(tabs@ == old_tabs);
        let pos = position_in(&tabs, id.as_str());
        let ghost key = id@;
        let ghost tv = tab@;
        match pos {
            Some(i) => {
                tabs.set(i, (id, tab));
            },
            None => {
                tabs.push((id, tab));
            },
        }
        proof {
            assert forall|a: int, b: int|
                0 <= a < tabs@.len() && 0 <= b < tabs@.len() && a != b implies tabs@[a].0@
                != tabs@[b].0@ by {
                match pos {
                    Some(i) => {
                        if a != i {
                            assert(tabs@[a] == old_tabs[a]);
                        }
                        if b != i {
                            assert(tabs@[b] == old_tabs[b]);
                        }
                    },
                    None => {
                        if a < old_tabs.len() {
                            assert(tabs@[a] == old_tabs[a]);
                        }
                        if b < old_tabs.len() {
                            assert(tabs@[b] == old_tabs[b]);
                        }
                    },
                }
            }
            assert forall|k: Seq<char>|
                #![trigger entries_map(tabs@).contains_key(k)]
                entries_map(tabs@).contains_key(k) == key_after_insert(old_tabs, key, k) by {
                if entries_map(tabs@).contains_key(k) {
                    let j = choose|j: int| 0 <= j < tabs@.len() && tabs@[j].0@ == k;
                    if k != key {
                        assert(old_tabs[j].0@ == k);
                    }
                }
                if k != key && exists|j: int| 0 <= j < old_tabs.len() && old_tabs[j].0@ == k {
                    let j = choose|j: int| 0 <= j < old_tabs.len() && old_tabs[j].0@ == k;
                    assert(tabs@[j].0@ == k);
                }
                if k == key {
                    match pos {
                        Some(i) => assert(tabs@[i as int].0@ == k),
                        None => assert(tabs@[old_tabs.len() as int].0@ == k),
                    }
                }
            }
            assert forall|k: Seq<char>|
                #![trigger entries_map(tabs@)[k]]
                entries_map(tabs@).contains_key(k) implies entries_map(tabs@)[k] == (
                if k == key {
                    tv
                } else {
                    entries_map(old_tabs)[k]
                }) by {
                let j = choose|j: int| 0 <= j < tabs@.len() && tabs@[j].0@ == k;
                lemma_entries_map(tabs@, j);
                if k != key {
                    assert(tabs@[j] == old_tabs[j]);
                    lemma_entries_map(old_tabs, j);
                } else {
                    match pos {
                        Some(i) => assert(j == i),
                        None => assert(j == old_tabs.len()),
                    }
                }
            }
            assert(entries_map(tabs@) =~= entries_map(old_tabs).insert(key, tv));
        }
        self.tabs = tabs;
    }

    /// Stops managing tab `id`, handing back its state if it had one.
    pub fn remove_tab(&mut self, id: &str) -> (r: Option<TabState>)
        ensures
            final(self)@.version == old(self)@.version,
            final(self)@.tabs == old(self)@.tabs.remove(id@),
            match r {
                Some(t) => old(self)@.tabs.contains_key(id@) && old(self)@.tabs[id@] == t@,
                None => !old(self)@.tabs.contains_key(id@),
            },
    {
        proof {
            use_type_invariant(&*self);
        }
        let ghost old_tabs = self.tabs@;
        match self.position(id) {
            None => {
                proof {
                    assert(entries_map(old_tabs).remove(id@) =~= entries_map(old_tabs));
                }
                None
            },
            Some(i) => {
                proof {
                    lemma_entries_map(old_tabs, i as int);
                }
                let mut tabs: Vec<(String, TabState)> = Vec::new();
                std::mem::swap(&mut tabs, &mut self.tabs);
                let (_, t) = tabs.remove(i);
                proof {
                    let key = id@;
                    assert forall|a: int, b: int|
                        0 <= a < tabs@.len() && 0 <= b < tabs@.len() && a != b implies tabs@[a].0@
                        != tabs@[b].0@ by {
                        let a2 = if a < i { a } else { a + 1 };
                        let b2 = if b < i { b } else { b + 1 };
                        assert(tabs@[a] == old_tabs[a2]);
                        assert(tabs@[b] == old_tabs[b2]);
                    }
                    assert forall|k: Seq<char>|
                        #![trigger entries_map(tabs@).contains_key(k)]
                        entries_map(tabs@).contains_key(k) == (k != key && entries_map(
                            old_tabs,
                        ).contains_key(k)) by {
                        if entries_map(tabs@).contains_key(k) {
                            let j = choose|j: int| 0 <= j < tabs@.len() && tabs@[j].0@ == k;
                            let j2 = if j < i { j } else { j + 1 };
                            assert(tabs@[j] == old_tabs[j2]);
                        }
                        if k != key && entries_map(old_tabs).contains_key(k) {
                            let j = choose|j: int| 0 <= j < old_tabs.len() && old_tabs[j].0@ == k;
                            assert(j != i);
                            let j2 = if j < i { j } else { j - 1 };
                            assert(tabs@[j2] == old_tabs[j]);
                        }
                    }
                    assert forall|k: Seq<char>|
                        #![trigger entries_map(tabs@)[k]]
                        entries_map(tabs@).contains_key(k) implies entries_map(tabs@)[k]
                        == entries_map(old_tabs)[k] by {
                        let j = choose|j: int| 0 <= j < tabs@.len() && tabs@[j].0@ == k;
                        let j2 = if j < i { j } else { j + 1 };
                        assert(tabs@[j] == old_tabs[j2]);
                        lemma_entries_map(tabs@, j);
                        lemma_entries_map(old_tabs, j2);
                    }
                    assert(entries_map(tabs@) =~= entries_map(old_tabs).remove(key));
                }
                self.tabs = tabs;
                Some(t)
            },
        }
    }

    /// The tab whose last reconciled panes include `pane_id`, if exactly one
    /// managed tab has it.
    pub fn sole_owner(&self, pane_id: &str) -> (r: Option<String>)
        ensures
            match r {
                Some(k) => owns(self@, k@, pane_id@) && forall|k2: Seq<char>|
                    owns(self@, k2, pane_id@) ==> k2 == k@,
                None => !exists|k: Seq<char>|
                    owns(self@, k, pane_id@) && forall|k2: Seq<char>|
                        owns(self@, k2, pane_id@) ==> k2 == k,
            },
    {
        proof {
            use_type_invariant(self);
        }
        let mut first: Option<usize> = None;
        let mut count: usize = 0;
        let mut i: usize = 0;
        while i < self.tabs.len()
            invariant
                keys_unique(self.tabs@),
                i <= self.tabs@.len(),
                count <= i,
                count == 0 <==> first is None,
                first matches Some(f) ==> f < i && entry_owns(self.tabs@[f as int].1, pane_id@),
                count == 1 ==> forall|j: int|
                    0 <= j < i && entry_owns(self.tabs@[j].1, pane_id@) ==> first == Some(j as usize),
                count >= 2 ==> exists|a: int, b: int|
                    0 <= a < b < i && entry_owns(self.tabs@[a].1, pane_id@) && entry_owns(
                        self.tabs@[b].1,
                        pane_id@,
                    ),
                count == 0 ==> forall|j: int|
                    0 <= j < i ==> !entry_owns(self.tabs@[j].1, pane_id@),
            decreases self.tabs.len() - i,
        {
            if tab_has_pane(&self.tabs[i].1, pane_id) {
                if count == 0 {
                    first = Some(i);
                    count = 1;
                } else {
                    proof {
                        let f = first->0 as int;
                        assert(entry_owns(self.tabs@[f].1, pane_id@));
                        assert(entry_owns(self.tabs@[i as int].1, pane_id@));
                    }
                    count = 2;
                }
            }
            i = i + 1;
        }
        let ghost m = self@;
        if count == 1 {
            let f = first.unwrap();
            proof {
                lemma_entries_map(self.tabs@, f as int);
                assert forall|k2: Seq<char>| owns(m, k2, pane_id@) implies k2 == self.tabs@[f as int].0@ by {
                    let j = choose|j: int| 0 <= j < self.tabs@.len() && self.tabs@[j].0@ == k2;
                    lemma_entries_map(self.tabs@, j);
                }
            }
            Some(self.tabs[f].0.clone())
        } else {
            proof {
                if count == 0 {
                    assert forall|k: Seq<char>| !owns(m, k, pane_id@) by {
                        if m.tabs.contains_key(k) {
                            let j = choose|j: int| 0 <= j < self.tabs@.len() && self.tabs@[j].0@ == k;
                            lemma_entries_map(self.tabs@, j);
                        }
                    }
                } else {
                    let (a, b) = choose|a: int, b: int|
                        0 <= a < b < i && entry_owns(self.tabs@[a].1, pane_id@) && entry_owns(
                            self.tabs@[b].1,
                            pane_id@,
                        );
                    lemma_entries_map(self.tabs@, a);
                    lemma_entries_map(self.tabs@, b);
                    assert(owns(m, self.tabs@[a].0@, pane_id@));
                    assert(owns(m, self.tabs@[b].0@, pane_id@));
                }
            }
            None
        }
    }

    /// The entries, each tab id with its state, in no particular order.
    pub fn into_entries(self) -> (r: Vec<(String, TabState)>)
        ensures
            keys_unique(r@),
            entries_map(r@) == self@.tabs,
    {
        proof {
            use_type_invariant(&self);
        }
        self.tabs
    }
}

/// The last reconciled panes of `tab` include `pane_id`.
pub open spec fn entry_owns(tab: TabState, pane_id: Seq<char>) -> bool {
    tab@.pane_ids.contains(pane_id)
}

/// Managed tab `key` last held the pane `pane_id`.
pub open spec fn owns(s: StateView, key: Seq<char>, pane_id: Seq<char>) -> bool {
    s.tabs.contains_key(key) && s.tabs[key].pane_ids.contains(pane_id)
}

/// `k` is a key once `key` has been added to the keys of `old_tabs`.
pub open spec fn key_after_insert(
    old_tabs: Seq<(String, TabState)>,
    key: Seq<char>,
    k: Seq<char>,
) -> bool {
    k == key || entries_map(old_tabs).contains_key(k)
}

/// Where the entry with key `id` stands, if there is one.
fn position_in(tabs: &Vec<(String, TabState)>, id: &str) -> (r: Option<usize>)
    ensures
        r matches Some(i) ==> i < tabs@.len() && tabs@[i as int].0@ == id@,
        r is None ==> forall|i: int| 0 <= i < tabs@.len() ==> tabs@[i].0@ != id@,
{
    let mut i: usize = 0;
    while i < tabs.len()
        invariant
            i <= tabs@.len(),
            forall|j: int| 0 <= j < i ==> tabs@[j].0@ != id@,
        decreases tabs.len() - i,
    {
        if same_text(tabs[i].0.as_str(), id) {
            return Some(i);
        }
        i = i + 1;
    }
    None
}

/// Whether the last reconciled panes of `tab` include `pane_id`.
fn tab_has_pane(tab: &TabState, pane_id: &str) -> (r: bool)
    ensures
        r == entry_owns(*tab, pane_id@),
{
    let mut i: usize = 0;
    while i < tab.pane_ids.len()
        invariant
            i <= tab.pane_ids@.len(),
            forall|j: int| 0 <= j < i ==> tab.pane_ids@[j]@ != pane_id@,
        decreases tab.pane_ids.len() - i,
    {
        if same_text(tab.pane_ids[i].as_str(), pane_id) {
            proof {
                assert(tab@.pane_ids[i as int] == pane_id@);
            }
            return true;
        }
        i = i + 1;
    }
    proof {
        if tab@.pane_ids.contains(pane_id@) {
            let j = choose|j: int| 0 <= j < tab@.pane_ids.len() && tab@.pane_ids[j] == pane_id@;
            assert(tab.pane_ids@[j]@ == pane_id@);
        }
    }
    false
}

} // verus!
