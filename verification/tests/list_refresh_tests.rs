use easywifi::list_refresh::{
    finish_refresh, invalidate, mark_pending, note_generation, refresh_due, TableRefresh,
};

fn fresh() -> TableRefresh {
    TableRefresh { pending: false, last_refresh_at: None, last_signature: None, generation: 0 }
}

#[test]
fn pending_table_on_visible_tab_is_due() {
    let mut t = fresh();
    assert!(!refresh_due(&t, true, 0));
    mark_pending(&mut t, true);
    assert!(!refresh_due(&t, false, 0));
    assert!(refresh_due(&t, true, 0));
}

#[test]
fn redraw_only_when_signature_changes_and_spaced() {
    let mut t = fresh();
    mark_pending(&mut t, true);
    assert!(finish_refresh(&mut t, "sig-a".to_string(), 1_000));
    assert!(!t.pending);
    mark_pending(&mut t, true);
    assert!(!refresh_due(&t, true, 1_139));
    assert!(refresh_due(&t, true, 1_140));
    assert!(!finish_refresh(&mut t, "sig-a".to_string(), 1_140));
    mark_pending(&mut t, true);
    assert!(finish_refresh(&mut t, "sig-b".to_string(), 2_000));
}

#[test]
fn new_generation_forces_redraw() {
    let mut t = fresh();
    finish_refresh(&mut t, "sig".to_string(), 10);
    note_generation(&mut t, 0);
    assert!(!t.pending);
    note_generation(&mut t, 1);
    assert!(t.pending);
    assert!(t.last_signature.is_none());
    assert!(finish_refresh(&mut t, "sig".to_string(), 500));
    invalidate(&mut t);
    assert!(t.pending && t.last_signature.is_none());
}
