use diana::plan::{plan_backfill, COLD_START_LIMIT, RECENT_WINDOW};

#[test]
fn nothing_is_planned_when_the_store_holds_every_recent_record() {
    let present = vec![true; 10];
    let warm = plan_backfill(false, &present);
    assert!(warm.positions.is_empty());
    assert_eq!(warm.left_for_later, 0);
    let cold = plan_backfill(true, &present);
    assert!(cold.positions.is_empty());
    assert_eq!(cold.left_for_later, 0);
}

#[test]
fn a_cold_start_with_ten_missing_fetches_three_and_leaves_seven() {
    let present = vec![false; 10];
    let plan = plan_backfill(true, &present);
    assert_eq!(plan.positions, vec![0, 1, 2]);
    assert!(!plan.with_details);
    assert_eq!(plan.left_for_later, 7);
}

#[test]
fn a_cold_start_with_few_missing_fetches_them_all_without_detail() {
    let plan = plan_backfill(true, &vec![true, false, true, false]);
    assert_eq!(plan.positions, vec![1, 3]);
    assert!(!plan.with_details);
    assert_eq!(plan.left_for_later, 0);
    let plan = plan_backfill(true, &vec![false, true, false, false, true, false]);
    assert_eq!(plan.positions, vec![0, 2, 3]);
    assert_eq!(plan.left_for_later, 1);
}

#[test]
fn a_warm_synchronization_fetches_every_missing_record_with_detail() {
    let plan = plan_backfill(false, &vec![false, true, false, false, true, false, false, false, true, false]);
    assert_eq!(plan.positions, vec![0, 2, 3, 5, 6, 7, 9]);
    assert!(plan.with_details);
    assert_eq!(plan.left_for_later, 0);
}

#[test]
fn an_empty_list_plans_nothing() {
    let plan = plan_backfill(true, &Vec::new());
    assert!(plan.positions.is_empty());
    assert!(!plan.with_details);
    let plan = plan_backfill(false, &Vec::new());
    assert!(plan.positions.is_empty());
    assert!(plan.with_details);
    assert_eq!(COLD_START_LIMIT, 3);
    assert_eq!(RECENT_WINDOW, 10);
}
