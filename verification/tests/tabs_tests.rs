use rust_rdp::tabs::{TabEffect, TabStrip};

#[test]
fn saved_tabs_open_with_ids_and_clamped_active_tab() {
    let strip = TabStrip::from_tabs(vec!["a", "b", "c"], 9);
    assert_eq!(strip.len(), 3);
    assert_eq!(strip.active_index(), 2);
    assert_eq!(strip.tab_id(0), 1);
    assert_eq!(strip.tab_id(2), 3);
    assert_eq!(*strip.tab(1), "b");
}

#[test]
fn selecting_a_tab_routes_input_to_its_session() {
    let mut strip = TabStrip::from_tabs(vec!["a", "b"], 0);
    strip.select(1);
    strip.set_active_tab_session(Some(42));
    strip.select(0);
    assert_eq!(strip.select(1), vec![TabEffect::SetActiveSession(42), TabEffect::SavePrefs]);
    assert_eq!(strip.select(5), vec![]);
    assert_eq!(strip.active_index(), 1);
}

#[test]
fn new_tab_becomes_active() {
    let mut strip = TabStrip::from_tabs(vec!["a"], 0);
    let effects = strip.open_new("new");
    assert_eq!(strip.len(), 2);
    assert_eq!(strip.active_index(), 1);
    assert_eq!(strip.tab_id(1), 2);
    assert_eq!(
        effects,
        vec![TabEffect::SetActiveSession(0), TabEffect::SavePrefs, TabEffect::ShowSidebar, TabEffect::SavePrefs]
    );
}

#[test]
fn closing_a_busy_tab_asks_first() {
    let mut strip = TabStrip::from_tabs(vec!["a", "b"], 1);
    let (removed, effects) = strip.request_close(1, &vec![false, true], true, "blank");
    assert_eq!(removed, None);
    assert_eq!(effects, vec![TabEffect::ExitViewFullscreen]);
    assert_eq!(strip.pending_close(), Some(2));
    assert_eq!(strip.len(), 2);
}

#[test]
fn closing_a_tab_before_the_active_one_keeps_it_active() {
    let mut strip = TabStrip::from_tabs(vec!["a", "b", "c"], 2);
    strip.set_active_tab_session(Some(9));
    let (removed, effects) = strip.close(0, &vec![false, false, false], false, "blank");
    assert_eq!(removed, Some("a"));
    assert_eq!(strip.active_index(), 1);
    assert_eq!(*strip.tab(1), "c");
    assert_eq!(effects, vec![TabEffect::SetActiveSession(9), TabEffect::SavePrefs, TabEffect::SavePrefs]);
}

#[test]
fn closing_the_last_tab_opens_a_blank_one() {
    let mut strip = TabStrip::from_tabs(vec!["a"], 0);
    strip.set_active_tab_session(Some(5));
    let (removed, effects) = strip.close(0, &vec![true], true, "blank");
    assert_eq!(removed, Some("a"));
    assert_eq!(strip.len(), 1);
    assert_eq!(*strip.tab(0), "blank");
    assert_eq!(strip.tab_id(0), 2);
    assert_eq!(
        effects,
        vec![
            TabEffect::Disconnect(5),
            TabEffect::SetActiveSession(0),
            TabEffect::ShowSidebar,
            TabEffect::ExitViewFullscreen,
            TabEffect::SavePrefs,
        ]
    );
}

#[test]
fn closing_the_active_last_tab_in_fullscreen_leaves_it_for_an_idle_tab() {
    let mut strip = TabStrip::from_tabs(vec!["a", "b"], 1);
    let (_, effects) = strip.close(1, &vec![false, false], true, "blank");
    assert_eq!(strip.active_index(), 0);
    assert_eq!(
        effects,
        vec![
            TabEffect::SetActiveSession(0),
            TabEffect::SavePrefs,
            TabEffect::ExitViewFullscreen,
            TabEffect::ShowSidebar,
            TabEffect::SavePrefs,
        ]
    );
    let mut strip = TabStrip::from_tabs(vec!["a", "b"], 1);
    let (_, effects) = strip.close(1, &vec![true, false], true, "blank");
    assert_eq!(effects, vec![TabEffect::SetActiveSession(0), TabEffect::SavePrefs, TabEffect::SavePrefs]);
}

#[test]
fn requesting_to_close_an_idle_tab_closes_it_and_its_session() {
    let mut strip = TabStrip::from_tabs(vec!["a", "b", "c"], 1);
    strip.set_active_tab_session(Some(7));
    let (removed, effects) = strip.request_close(1, &vec![false, false, false], false, "blank");
    assert_eq!(removed, Some("b"));
    assert_eq!(
        effects,
        vec![TabEffect::Disconnect(7), TabEffect::SetActiveSession(0), TabEffect::SavePrefs, TabEffect::SavePrefs]
    );
    assert_eq!(strip.len(), 2);
    assert_eq!(strip.active_index(), 1);
    assert_eq!(*strip.tab(1), "c");
    assert_eq!(strip.pending_close(), None);
}
