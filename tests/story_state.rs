use carbon_core::listing::{
    name_matches, search, CompanyList, END_OF_LIST, LOAD_MORE_THRESHOLD, PAGE_SIZE,
};
use carbon_core::stepper::{step_i64, step_u64, InputState, StepAction};

fn names(list: &[&str]) -> Vec<String> {
    list.iter().map(|s| s.to_string()).collect()
}

#[test]
fn signed_steps_move_by_one_within_range() {
    assert_eq!(step_i64(1, StepAction::Increment), Some(2));
    assert_eq!(step_i64(0, StepAction::Decrement), Some(-1));
    assert_eq!(step_i64(i64::MAX, StepAction::Increment), None);
    assert_eq!(step_i64(i64::MIN, StepAction::Decrement), None);
}

#[test]
fn unsigned_steps_stop_at_zero() {
    assert_eq!(step_u64(0, StepAction::Decrement), None);
    assert_eq!(step_u64(3, StepAction::Decrement), Some(2));
    assert_eq!(step_u64(0, StepAction::Increment), Some(1));
    assert_eq!(step_u64(u64::MAX, StepAction::Increment), None);
}

#[test]
fn input_state_applies_steps_and_toggles() {
    let mut st = InputState::new();
    assert_eq!(st.signed_value, 1);
    assert!(st.step_signed(StepAction::Decrement));
    assert!(st.step_signed(StepAction::Decrement));
    assert_eq!(st.signed_value, -1);
    assert!(!st.step_unsigned(StepAction::Decrement));
    assert_eq!(st.unsigned_value, 0);
    assert!(st.step_unsigned(StepAction::Increment));
    assert_eq!(st.unsigned_value, 1);
    assert!(st.code_masked);
    assert!(!st.toggle_code_masked());
    assert!(st.toggle_code_masked());
    st.set_code("123456".to_string());
    assert_eq!(st.code.as_deref(), Some("123456"));
}

#[test]
fn substring_matching() {
    assert!(name_matches("acme corp", "corp"));
    assert!(name_matches("acme", ""));
    assert!(!name_matches("acme", "acmes"));
    assert!(!name_matches("acme", "cma"));
}

#[test]
fn search_ignores_case() {
    let n = names(&["ACME Corp", "Globex", "acme labs", "Initech"]);
    assert_eq!(search(&n, "Acme"), vec![0, 2]);
    assert_eq!(search(&n, "GLOBEX"), vec![1]);
    assert_eq!(search(&n, ""), vec![0, 1, 2, 3]);
    assert_eq!(search(&n, "zzz"), Vec::<usize>::new());
}

#[test]
fn list_selection_and_confirmation() {
    let mut l = CompanyList::new(names(&["Alpha", "Beta", "Alps"]));
    assert_eq!(l.items_count(), 3);
    l.perform_search("al");
    assert_eq!(l.matched, vec![0, 2]);
    assert_eq!(l.items_count(), 2);
    assert_eq!(l.render_item(0), Some((0, true)));
    assert_eq!(l.render_item(1), Some((2, false)));
    assert_eq!(l.render_item(2), None);
    assert!(l.set_selected_index(Some(1)));
    assert!(!l.set_selected_index(None));
    assert_eq!(l.selected_index, 1);
    assert_eq!(l.render_item(0), Some((0, false)));
    assert!(l.confirm(Some(0)));
    assert_eq!(l.render_item(0), Some((0, true)));
    assert!(!l.confirm(None));
    assert_eq!(l.confirmed_index, None);
    assert_eq!(l.selected_company(), Some(1));
    l.set_selected_index(Some(7));
    assert_eq!(l.selected_company(), None);
}

#[test]
fn list_paging_stops_at_the_end() {
    let mut l = CompanyList::new(names(&["a"; 5600]));
    assert!(l.can_load_more());
    assert_eq!(l.load_more_threshold(), LOAD_MORE_THRESHOLD);
    l.begin_load();
    assert!(!l.can_load_more());
    l.finish_load(names(&["b"; PAGE_SIZE]));
    assert!(!l.loading);
    assert!(!l.is_eof);
    assert!(l.can_load_more());
    l.perform_search("B");
    assert_eq!(l.items_count(), 200);
    l.begin_load();
    l.finish_load(names(&["b"; PAGE_SIZE]));
    assert_eq!(l.names.len(), END_OF_LIST);
    assert!(l.is_eof);
    assert!(!l.can_load_more());
    assert_eq!(l.items_count(), 400);
}
