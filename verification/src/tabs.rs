//! Tabs and the lists they are kept in, as far as sessions tell them apart.
use crate::text;
use vstd::prelude::*;
use vstd::string::*;

verus! {

/// A tab, by the session it is open in and its number there; `handle` is the
/// number by which the host knows the rest of it.
#[derive(Debug)]
pub struct TabRef {
    pub session: String,
    pub tab_id: i64,
    pub handle: u64,
}

/// What a [`TabRef`] stands for.
pub struct TabView {
    pub session: Seq<char>,
    pub tab_id: i64,
    pub handle: u64,
}

impl View for TabRef {
    type V = TabView;

    open spec fn view(&self) -> TabView {
        TabView { session: self.session@, tab_id: self.tab_id, handle: self.handle }
    }
}

/// The tabs of a list, each by its view.
pub open spec fn tab_views(tabs: Seq<TabRef>) -> Seq<TabView> {
    tabs.map_values(|tab: TabRef| tab@)
}

/// Whether `session` is the lane of some workspace browser.
pub open spec fn is_workspace_lane(session: Seq<char>) -> bool {
    text::has_prefix(session, "workspace:"@)
}

/// Whether `session` names a workspace browser, by its lane or by the name
/// that tools use.
pub open spec fn is_workspace_session(session: Seq<char>) -> bool {
    session == "workspace"@ || is_workspace_lane(session)
}

/// A set of sessions.
#[derive(Debug)]
pub enum SessionSet {
    /// The one session of this name.
    One(String),
    /// Every session that names a workspace browser.
    Workspaces,
}

impl View for SessionSet {
    type V = Set<Seq<char>>;

    open spec fn view(&self) -> Set<Seq<char>> {
        match self {
            SessionSet::One(session) => set![session@],
            SessionSet::Workspaces => Set::new(|session: Seq<char>| is_workspace_session(session)),
        }
    }
}

impl SessionSet {
    /// Whether `session` is in the set.
    pub fn contains(&self, session: &str) -> (yes: bool)
        ensures
            yes == self@.contains(session@),
    {
        match self {
            SessionSet::One(only) => text::same_text(only.as_str(), session),
            SessionSet::Workspaces => text::same_text(session, "workspace") || text::starts_with(
                session,
                "workspace:",
            ),
        }
    }
}

/// The tabs that are open in none of `sessions`, in their order.
pub open spec fn tabs_outside(tabs: Seq<TabView>, sessions: Set<Seq<char>>) -> Seq<TabView> {
    tabs.filter(|tab: TabView| !sessions.contains(tab.session))
}

/// What is left are the tabs outside `sessions`, each as often as before at most.
pub proof fn lemma_tabs_outside(tabs: Seq<TabView>, sessions: Set<Seq<char>>)
    ensures
        forall|tab: TabView|
            #[trigger] tabs_outside(tabs, sessions).contains(tab) <==> tabs.contains(tab)
                && !sessions.contains(tab.session),
        tabs.no_duplicates() ==> tabs_outside(tabs, sessions).no_duplicates(),
    decreases tabs.len(),
{
    reveal(Seq::filter);
    let outside = |tab: TabView| !sessions.contains(tab.session);
    let left = tabs_outside(tabs, sessions);
    if tabs.len() > 0 {
        let head = tabs.drop_last();
        let last = tabs.last();
        lemma_tabs_outside(head, sessions);
        let rest = tabs_outside(head, sessions);
        assert(tabs == head.push(last));
        assert forall|tab: TabView| #[trigger] left.contains(tab) <==> tabs.contains(tab)
            && !sessions.contains(tab.session) by {
            if left.contains(tab) {
                let i = choose|i: int| 0 <= i < left.len() && left[i] == tab;
                if i < rest.len() {
                    assert(rest[i] == tab);
                    assert(rest.contains(tab));
                    let j = choose|j: int| 0 <= j < head.len() && head[j] == tab;
                    assert(tabs[j] == tab);
                } else {
                    assert(tabs[tabs.len() - 1] == tab);
                }
            }
            if tabs.contains(tab) && outside(tab) {
                let i = choose|i: int| 0 <= i < tabs.len() && tabs[i] == tab;
                if i < head.len() {
                    assert(head[i] == tab);
                    assert(rest.contains(tab));
                    let j = choose|j: int| 0 <= j < rest.len() && rest[j] == tab;
                    assert(left[j] == tab);
                } else {
                    assert(left.last() == tab);
                }
            }
        }
        if tabs.no_duplicates() {
            assert(head.no_duplicates());
            if outside(last) && rest.contains(last) {
                let j = choose|j: int| 0 <= j < head.len() && head[j] == last;
                assert(tabs[j] == tabs[tabs.len() - 1]);
            }
            assert(left.no_duplicates());
        }
    }
}

/// Drops the tabs of `sessions` and keeps the others in their order.
pub fn keep_tabs_outside(tabs: Vec<TabRef>, sessions: &SessionSet) -> (kept: Vec<TabRef>)
    ensures
        tab_views(kept@) == tabs_outside(tab_views(tabs@), sessions@),
{
    let ghost all = tab_views(tabs@);
    let ghost outside = |tab: TabView| !sessions@.contains(tab.session);
    let mut kept: Vec<TabRef> = Vec::new();
    proof {
        reveal(Seq::filter);
        assert(all.subrange(0, 0) == Seq::<TabView>::empty());
        assert(tab_views(kept@) == all.subrange(0, 0).filter(outside));
    }
    for tab in iter: tabs
        invariant
            all == tab_views(iter.seq()),
            outside == (|tab: TabView| !sessions@.contains(tab.session)),
            tab_views(kept@) == all.subrange(0, iter.index()).filter(outside),
    {
        let ghost before = kept@;
        let ghost i = iter.index();
        proof {
            reveal(Seq::filter);
            assert(all.subrange(0, i + 1).drop_last() == all.subrange(0, i));
            assert(all.subrange(0, i + 1).last() == tab@);
        }
        if !sessions.contains(tab.session.as_str()) {
            kept.push(tab);
            assert(tab_views(kept@) == tab_views(before).push(tab@));
        }
    }
    assert(all.subrange(0, all.len() as int) == all);
    kept
}

/// Rows that hold tabs and have no use without any.
pub trait TabRows: View + Sized {
    /// What is left of a row when the tabs of `sessions` are gone: nothing,
    /// if no tab is left.
    spec fn outside(row: Self::V, sessions: Set<Seq<char>>) -> Option<Self::V>;

    /// Drops the tabs of `sessions` from the row, and the row if no tab is left.
    fn keep_outside(self, sessions: &SessionSet) -> (kept: Option<Self>)
        ensures
            match kept {
                Some(row) => Self::outside(self@, sessions@) == Some(row@),
                None => Self::outside(self@, sessions@) is None,
            },
    ;
}

/// The tabs that one turn has opened; `handle` is the number by which the host
/// knows the rest of the row.
#[derive(Debug)]
pub struct TurnLedger {
    pub handle: u64,
    pub tabs: Vec<TabRef>,
}

/// What a [`TurnLedger`] stands for.
pub struct LedgerView {
    pub handle: u64,
    pub tabs: Seq<TabView>,
}

impl View for TurnLedger {
    type V = LedgerView;

    open spec fn view(&self) -> LedgerView {
        LedgerView { handle: self.handle, tabs: tab_views(self.tabs@) }
    }
}

impl TabRows for TurnLedger {
    open spec fn outside(row: LedgerView, sessions: Set<Seq<char>>) -> Option<LedgerView> {
        let tabs = tabs_outside(row.tabs, sessions);
        if tabs.len() == 0 {
            None
        } else {
            Some(LedgerView { tabs, ..row })
        }
    }

    fn keep_outside(self, sessions: &SessionSet) -> (kept: Option<Self>) {
        let tabs = keep_tabs_outside(self.tabs, sessions);
        if tabs.len() == 0 {
            assert(tab_views(tabs@).len() == 0);
            None
        } else {
            assert(tab_views(tabs@).len() > 0);
            Some(TurnLedger { handle: self.handle, tabs })
        }
    }
}

/// A question to the user: what shall become of these tabs of a turn? `handle`
/// is the number by which the host knows the rest of the row.
#[derive(Debug)]
pub struct CleanupPrompt {
    pub turn_id: String,
    pub frame_id: String,
    pub handle: u64,
    pub tabs: Vec<TabRef>,
}

/// What a [`CleanupPrompt`] stands for.
pub struct CleanupView {
    pub turn_id: Seq<char>,
    pub frame_id: Seq<char>,
    pub handle: u64,
    pub tabs: Seq<TabView>,
}

impl View for CleanupPrompt {
    type V = CleanupView;

    open spec fn view(&self) -> CleanupView {
        CleanupView {
            turn_id: self.turn_id@,
            frame_id: self.frame_id@,
            handle: self.handle,
            tabs: tab_views(self.tabs@),
        }
    }
}

impl TabRows for CleanupPrompt {
    open spec fn outside(row: CleanupView, sessions: Set<Seq<char>>) -> Option<CleanupView> {
        let tabs = tabs_outside(row.tabs, sessions);
        if tabs.len() == 0 {
            None
        } else {
            Some(CleanupView { tabs, ..row })
        }
    }

    fn keep_outside(self, sessions: &SessionSet) -> (kept: Option<Self>) {
        let tabs = keep_tabs_outside(self.tabs, sessions);
        if tabs.len() == 0 {
            assert(tab_views(tabs@).len() == 0);
            None
        } else {
            assert(tab_views(tabs@).len() > 0);
            Some(
                CleanupPrompt {
                    turn_id: self.turn_id,
                    frame_id: self.frame_id,
                    handle: self.handle,
                    tabs,
                },
            )
        }
    }
}

} // verus!
