//! Tab bookkeeping for multi-project support: which projects are open, in
//! which order, which tab is active and which id the next tab gets.
//!
//! Loading a project, cleaning a tab up and the per-tab state live with the
//! caller; this module decides what happens to the set of tabs.

use vstd::prelude::*;
use crate::strings::{str_equal, texts};

verus! {

/// The most tabs that can be open at once.
pub const MAX_TABS: usize = 10;

/// What `create_tab` decided before any project is loaded.
#[derive(Clone, Debug, PartialEq, Eq, Structural)]
pub enum TabOpening {
    /// The project is already open in the tab at this index, which is now
    /// the active tab.
    AlreadyOpen(usize),
    /// The project is not open and there is room for it: load it, then call
    /// `add_tab` with its resolved root.
    Load,
}

/// The open project tabs: the id and project root of each, in opening
/// order, the index of the active tab, and the id for the next tab.
pub struct TabSet {
    /// Tab ids, in tab order.
    pub ids: Vec<usize>,
    /// Project roots, in tab order.
    pub project_roots: Vec<String>,
    /// Index of the active tab.
    pub active_tab_index: usize,
    /// Id that the next tab will get.
    pub next_tab_id: usize,
}

/// The index of the tab after `a` among `len` tabs, wrapping around.
pub open spec fn next_index(a: int, len: int) -> int {
    (a + 1) % len
}

/// The index of the tab before `a` among `len` tabs, wrapping around.
pub open spec fn prev_index(a: int, len: int) -> int {
    if a == 0 {
        len - 1
    } else {
        a - 1
    }
}

/// The active index after the tab at `closed` was removed, leaving
/// `new_len` tabs: the same tab when another one was closed; when the
/// active tab itself was closed, the tab that took its place, or the last
/// tab when it was the last one.
pub open spec fn active_after_close(active: int, closed: int, new_len: int) -> int {
    if active >= new_len {
        new_len - 1
    } else if active > closed {
        active - 1
    } else {
        active
    }
}

/// Whether `i` is the first index of `roots` that holds `root`.
pub open spec fn first_with_root(roots: Seq<Seq<char>>, root: Seq<char>, i: int) -> bool {
    &&& 0 <= i < roots.len()
    &&& roots[i] == root
    &&& forall|j: int| 0 <= j < i ==> roots[j] != root
}

/// The message when no more tab can be opened.
pub open spec fn too_many_tabs_message() -> Seq<char> {
    "Maximum 10 onglets atteints. Fermez-en un avec Ctrl+W"@
}

impl TabSet {
    /// Ids and roots pair up, the active index points at a tab (0 when
    /// there is none), at most `MAX_TABS` are open, and ids rise in tab
    /// order, from 1 up, and stay below the next id.
    pub open spec fn wf(&self) -> bool {
        &&& self.ids.len() == self.project_roots.len()
        &&& self.ids.len() <= MAX_TABS
        &&& self.next_tab_id >= 1
        &&& (self.ids.len() == 0 ==> self.active_tab_index == 0)
        &&& (self.ids.len() > 0 ==> self.active_tab_index < self.ids.len())
        &&& forall|i: int, j: int| 0 <= i < j < self.ids.len() ==> self.ids@[i] < self.ids@[j]
        &&& forall|i: int| 0 <= i < self.ids.len() ==> 1 <= #[trigger] self.ids@[i] < self.next_tab_id
    }

    /// No tab yet; the first one will get id 1.
    pub fn new_with_tabs() -> (s: Self)
        ensures
            s.wf(),
            s.ids@ == Seq::<usize>::empty(),
            s.project_roots@ == Seq::<String>::empty(),
            s.active_tab_index == 0,
            s.next_tab_id == 1,
    {
        TabSet { ids: Vec::new(), project_roots: Vec::new(), active_tab_index: 0, next_tab_id: 1 }
    }

    /// One tab, with id 1, for `project_root`; it is active.
    pub fn new(project_root: String) -> (s: Self)
        ensures
            s.wf(),
            s.ids@ == seq![1usize],
            texts(s.project_roots@) == seq![project_root@],
            s.active_tab_index == 0,
            s.next_tab_id == 2,
    {
        let mut ids: Vec<usize> = Vec::new();
        ids.push(1);
        let mut roots: Vec<String> = Vec::new();
        roots.push(project_root);
        let s = TabSet { ids, project_roots: roots, active_tab_index: 0, next_tab_id: 2 };
        assert(texts(s.project_roots@) =~= seq![s.project_roots@[0]@]);
        s
    }

    /// The number of open tabs.
    pub fn get_tab_count(&self) -> (n: usize)
        ensures
            n == self.ids.len(),
    {
        self.ids.len()
    }

    /// The index of the active tab.
    pub fn get_active_tab_index(&self) -> (i: usize)
        ensures
            i == self.active_tab_index,
    {
        self.active_tab_index
    }

    /// The first tab whose project root is `project_root`, if any.
    pub fn find_tab_by_project(&self, project_root: &str) -> (r: Option<usize>)
        ensures
            match r {
                Some(i) => first_with_root(texts(self.project_roots@), project_root@, i as int),
                None => !texts(self.project_roots@).contains(project_root@),
            },
    {
        let ghost roots = texts(self.project_roots@);
        let mut i: usize = 0;
        while i < self.project_roots.len()
            invariant
                i <= self.project_roots.len(),
                roots == texts(self.project_roots@),
                forall|j: int| 0 <= j < i ==> roots[j] != project_root@,
            decreases self.project_roots.len() - i,
        {
            if str_equal(self.project_roots[i].as_str(), project_root) {
                assert(roots[i as int] == self.project_roots@[i as int]@);
                return Some(i);
            }
            assert(roots[i as int] == self.project_roots@[i as int]@);
            i += 1;
        }
        assert forall|j: int| 0 <= j < roots.len() implies roots[j] != project_root@ by {}
        None
    }

    /// The first step of opening `project_root` in a tab: when it is already
    /// open, that tab becomes active; when `MAX_TABS` tabs are open, an
    /// error; otherwise nothing changes and the caller loads the project
    /// and calls `add_tab`.
    pub fn create_tab(&mut self, project_root: &str) -> (r: Result<TabOpening, String>)
        requires
            old(self).wf(),
        ensures
            final(self).wf(),
            final(self).ids@ == old(self).ids@,
            final(self).project_roots@ == old(self).project_roots@,
            final(self).next_tab_id == old(self).next_tab_id,
            texts(old(self).project_roots@).contains(project_root@) ==> exists|i: int|
                first_with_root(texts(old(self).project_roots@), project_root@, i)
                    && r == Ok::<TabOpening, String>(TabOpening::AlreadyOpen(i as usize))
                    && final(self).active_tab_index == i,
            !texts(old(self).project_roots@).contains(project_root@) ==> final(self).active_tab_index
                == old(self).active_tab_index,
            !texts(old(self).project_roots@).contains(project_root@) && old(self).ids.len() >= MAX_TABS
                ==> (r matches Err(msg) && msg@ == too_many_tabs_message()),
            !texts(old(self).project_roots@).contains(project_root@) && old(self).ids.len() < MAX_TABS
                ==> r == Ok::<TabOpening, String>(TabOpening::Load),
    {
        match self.find_tab_by_project(project_root) {
            Some(existing_index) => {
                self.active_tab_index = existing_index;
                Ok(TabOpening::AlreadyOpen(existing_index))
            },
            None => {
                if self.ids.len() >= MAX_TABS {
                    Err(String::from_str("Maximum 10 onglets atteints. Fermez-en un avec Ctrl+W"))
                } else {
                    Ok(TabOpening::Load)
                }
            },
        }
    }

    /// Adds a tab for the loaded project at `resolved_root`, with the next
    /// id, and makes it active; returns its index.
    pub fn add_tab(&mut self, resolved_root: String) -> (index: usize)
        requires
            old(self).wf(),
            old(self).ids.len() < MAX_TABS,
            old(self).next_tab_id < usize::MAX,
        ensures
            final(self).wf(),
            final(self).ids@ == old(self).ids@.push(old(self).next_tab_id),
            texts(final(self).project_roots@) == texts(old(self).project_roots@).push(resolved_root@),
            final(self).next_tab_id == old(self).next_tab_id + 1,
            index == old(self).ids.len(),
            final(self).active_tab_index == index,
    {
        let ghost old_roots = self.project_roots@;
        let ghost old_ids = self.ids@;
        self.ids.push(self.next_tab_id);
        self.project_roots.push(resolved_root);
        self.next_tab_id = self.next_tab_id + 1;
        self.active_tab_index = self.ids.len() - 1;
        assert(texts(self.project_roots@) =~= texts(old_roots).push(resolved_root@));
        assert forall|i: int, j: int| 0 <= i < j < self.ids.len() implies self.ids@[i] < self.ids@[j] by {
            if j < old_ids.len() {
                assert(self.ids@[i] == old_ids[i] && self.ids@[j] == old_ids[j]);
            } else {
                assert(self.ids@[i] == old_ids[i]);
                assert(1 <= old_ids[i] < self.next_tab_id - 1);
            }
        }
        assert forall|i: int| 0 <= i < self.ids.len() implies 1 <= #[trigger] self.ids@[i] < self.next_tab_id by {
            if i < old_ids.len() {
                assert(self.ids@[i] == old_ids[i]);
            }
        }
        self.active_tab_index
    }

    /// Closes the tab at `index`. Refused when there is no such tab, or when
    /// it is the only one. The active tab stays active when another tab is
    /// closed (see `active_after_close`).
    pub fn close_tab(&mut self, index: usize) -> (r: Result<(), String>)
        requires
            old(self).wf(),
        ensures
            final(self).wf(),
            final(self).next_tab_id == old(self).next_tab_id,
            index >= old(self).ids.len() ==> (r matches Err(msg) && msg@ == "Tab index out of bounds"@),
            index < old(self).ids.len() && old(self).ids.len() == 1 ==> (r matches Err(msg) && msg@
                == "Cannot close last tab"@),
            r is Err ==> final(self).ids@ == old(self).ids@ && final(self).project_roots@ == old(
                self,
            ).project_roots@ && final(self).active_tab_index == old(self).active_tab_index,
            index < old(self).ids.len() && old(self).ids.len() > 1 ==> {
                &&& r is Ok
                &&& final(self).ids@ == old(self).ids@.remove(index as int)
                &&& final(self).project_roots@ == old(self).project_roots@.remove(index as int)
                &&& final(self).active_tab_index == active_after_close(
                    old(self).active_tab_index as int,
                    index as int,
                    old(self).ids.len() - 1,
                )
            },
    {
        if index >= self.ids.len() {
            return Err(String::from_str("Tab index out of bounds"));
        }
        if self.ids.len() == 1 {
            return Err(String::from_str("Cannot close last tab"));
        }
        let ghost old_ids = self.ids@;
        self.ids.remove(index);
        self.project_roots.remove(index);
        if self.active_tab_index >= self.ids.len() {
            self.active_tab_index = self.ids.len() - 1;
        } else if self.active_tab_index > index {
            self.active_tab_index = self.active_tab_index - 1;
        }
        assert forall|i: int, j: int| 0 <= i < j < self.ids.len() implies self.ids@[i] < self.ids@[j] by {
            let oi = if i < index { i } else { i + 1 };
            let oj = if j < index { j } else { j + 1 };
            assert(self.ids@[i] == old_ids[oi]);
            assert(self.ids@[j] == old_ids[oj]);
        }
        assert forall|i: int| 0 <= i < self.ids.len() implies 1 <= #[trigger] self.ids@[i] < self.next_tab_id by {
            let oi = if i < index { i } else { i + 1 };
            assert(self.ids@[i] == old_ids[oi]);
        }
        Ok(())
    }

    /// Makes the tab at `index` active; nothing happens when there is no
    /// such tab.
    pub fn switch_to_tab(&mut self, index: usize)
        requires
            old(self).wf(),
        ensures
            final(self).wf(),
            final(self).ids@ == old(self).ids@,
            final(self).project_roots@ == old(self).project_roots@,
            final(self).next_tab_id == old(self).next_tab_id,
            final(self).active_tab_index == (if index < old(self).ids.len() {
                index
            } else {
                old(self).active_tab_index
            }),
    {
        if index < self.ids.len() {
            self.active_tab_index = index;
        }
    }

    /// Makes the next tab active, from the last back to the first.
    pub fn next_tab(&mut self)
        requires
            old(self).wf(),
        ensures
            final(self).wf(),
            final(self).ids@ == old(self).ids@,
            final(self).project_roots@ == old(self).project_roots@,
            final(self).next_tab_id == old(self).next_tab_id,
            final(self).active_tab_index == (if old(self).ids.len() > 0 {
                next_index(old(self).active_tab_index as int, old(self).ids.len() as int)
            } else {
                old(self).active_tab_index as int
            }),
    {
        if self.ids.len() > 0 {
            self.active_tab_index = (self.active_tab_index + 1) % self.ids.len();
        }
    }

    /// Makes the previous tab active, from the first back to the last.
    pub fn prev_tab(&mut self)
        requires
            old(self).wf(),
        ensures
            final(self).wf(),
            final(self).ids@ == old(self).ids@,
            final(self).project_roots@ == old(self).project_roots@,
            final(self).next_tab_id == old(self).next_tab_id,
            final(self).active_tab_index == (if old(self).ids.len() > 0 {
                prev_index(old(self).active_tab_index as int, old(self).ids.len() as int)
            } else {
                old(self).active_tab_index as int
            }),
    {
        if self.ids.len() > 0 {
            self.active_tab_index = if self.active_tab_index == 0 {
                self.ids.len() - 1
            } else {
                self.active_tab_index - 1
            };
        }
    }
}

/// No two open tabs share an id.
pub proof fn lemma_tab_ids_unique(tabs: TabSet)
    requires
        tabs.wf(),
    ensures
        forall|i: int, j: int|
            0 <= i < tabs.ids.len() && 0 <= j < tabs.ids.len() && i != j ==> tabs.ids@[i] != tabs.ids@[j],
{
    assert forall|i: int, j: int|
        0 <= i < tabs.ids.len() && 0 <= j < tabs.ids.len() && i != j implies tabs.ids@[i] != tabs.ids@[j] by {
        if i < j {
            assert(tabs.ids@[i] < tabs.ids@[j]);
        } else {
            assert(tabs.ids@[j] < tabs.ids@[i]);
        }
    }
}

/// Moving to the next tab and back to the previous one returns to the tab
/// one started from.
pub proof fn lemma_next_then_prev(a: int, len: int)
    requires
        0 <= a < len,
    ensures
        prev_index(next_index(a, len), len) == a,
        0 <= next_index(a, len) < len,
{
    if a + 1 < len {
        vstd::arithmetic::div_mod::lemma_small_mod((a + 1) as nat, len as nat);
    } else {
        vstd::arithmetic::div_mod::lemma_mod_self_0(len);
    }
}

/// Moving to the previous tab and back to the next one returns to the tab
/// one started from.
pub proof fn lemma_prev_then_next(a: int, len: int)
    requires
        0 <= a < len,
    ensures
        next_index(prev_index(a, len), len) == a,
        0 <= prev_index(a, len) < len,
{
    if a == 0 {
        vstd::arithmetic::div_mod::lemma_mod_self_0(len);
    } else {
        vstd::arithmetic::div_mod::lemma_small_mod(a as nat, len as nat);
    }
}

/// Closing a tab other than the active one leaves the same tab active.
pub proof fn lemma_close_keeps_active_tab<A>(tabs: Seq<A>, active: int, closed: int)
    requires
        tabs.len() > 1,
        0 <= active < tabs.len(),
        0 <= closed < tabs.len(),
        closed != active,
    ensures
        tabs.remove(closed)[active_after_close(active, closed, tabs.len() - 1)] == tabs[active],
        0 <= active_after_close(active, closed, tabs.len() - 1) < tabs.len() - 1,
{
}

/// Closing the active tab makes active the tab that took its place, or the
/// new last tab when it was the last one.
pub proof fn lemma_close_active_tab<A>(tabs: Seq<A>, active: int)
    requires
        tabs.len() > 1,
        0 <= active < tabs.len(),
    ensures
        active < tabs.len() - 1 ==> tabs.remove(active)[active_after_close(active, active, tabs.len() - 1)]
            == tabs[active + 1],
        active == tabs.len() - 1 ==> active_after_close(active, active, tabs.len() - 1) == tabs.len() - 2,
{
}

} // verus!
