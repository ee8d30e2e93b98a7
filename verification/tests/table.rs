use project_workspace::table::{TabTable, Table};
use project_workspace::tabs::{keep_tabs_outside, SessionSet, TabRef, TurnLedger};

fn tab(session: &str, tab_id: i64) -> TabRef {
    TabRef { session: session.into(), tab_id, handle: 100 + tab_id as u64 }
}

#[test]
fn a_table_holds_each_key_once() {
    let mut table: Table<u64> = Table::new();
    assert_eq!(table.len(), 0);
    assert_eq!(table.get("a"), None);
    assert_eq!(table.remove("a"), None);
    table.insert("a".into(), 1);
    table.insert("b".into(), 2);
    table.insert("a".into(), 3);
    assert_eq!(table.len(), 2);
    assert_eq!(table.get("a"), Some(&3));
    assert!(table.contains_key("b"));
    assert_eq!(table.remove("a"), Some(3));
    assert!(!table.contains_key("a"));
    assert_eq!(table.rows().len(), 1);
    assert_eq!(table.rows()[0].key, "b");
    let rows = table.into_rows();
    assert_eq!(rows[0].value, 2);
}

#[test]
fn rows_without_tabs_are_dropped() {
    let mut table: Table<TurnLedger> = Table::new();
    table.insert("kept".into(), TurnLedger { handle: 9, tabs: vec![tab("a", 1), tab("b", 1)] });
    table.insert("dropped".into(), TurnLedger { handle: 9, tabs: vec![tab("a", 1)] });
    table.keep_outside(&SessionSet::One("a".into()));
    assert_eq!(table.len(), 1);
    assert_eq!(table.get("kept").unwrap().tabs.len(), 1);
    assert_eq!(table.get("kept").unwrap().tabs[0].session, "b");
}

#[test]
fn a_tab_table_holds_each_tab_once() {
    let mut table = TabTable::new();
    assert_eq!(table.len(), 0);
    assert_eq!(table.get("a", 1), None);
    table.insert(tab("a", 1));
    table.insert(TabRef { session: "a".into(), tab_id: 1, handle: 7 });
    table.insert(tab("a", 2));
    table.insert(tab("b", 1));
    assert_eq!(table.len(), 3);
    assert_eq!(table.get("a", 1), Some(7));
    assert_eq!(table.get("a", 2), Some(102));
    assert_eq!(table.get("b", 2), None);
    table.keep_outside(&SessionSet::One("a".into()));
    assert_eq!(table.len(), 1);
    assert_eq!(table.tabs()[0].session, "b");
    assert_eq!(table.get("b", 1), Some(101));
}

#[test]
fn workspace_sessions_are_told_by_name() {
    let workspaces = SessionSet::Workspaces;
    assert!(workspaces.contains("workspace"));
    assert!(workspaces.contains("workspace:"));
    assert!(workspaces.contains("workspace:key:token"));
    assert!(!workspaces.contains("workspaces"));
    assert!(!workspaces.contains("shared"));
    let kept = keep_tabs_outside(
        vec![tab("shared", 1), tab("workspace", 2), tab("shared", 3)],
        &workspaces,
    );
    let ids: Vec<i64> = kept.iter().map(|tab| tab.tab_id).collect();
    assert_eq!(ids, vec![1, 3]);
}
