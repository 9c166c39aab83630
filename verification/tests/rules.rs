use agent_client::rules::{check_header, decide, rule_order, MAX_RULE_ACTIONS, WORKER_FORMAT};

#[test]
fn the_header_names_the_format_and_the_version() {
    assert_eq!(check_header(WORKER_FORMAT, 1), Ok(()));
    assert_eq!(
        check_header("other-worker", 1),
        Err("unsupported worker format 'other-worker'".to_string())
    );
    assert_eq!(check_header(WORKER_FORMAT, 2), Err("unsupported worker version 2".to_string()));
    assert_eq!(
        check_header("other-worker", 7),
        Err("unsupported worker format 'other-worker'".to_string()),
        "the format is checked first"
    );
}

#[test]
fn rules_are_tried_highest_priority_first_ties_in_file_order() {
    assert_eq!(rule_order(&vec![0, 10, 0, 5, 10, -3]), vec![1, 4, 3, 0, 2, 5]);
    assert_eq!(rule_order(&vec![]), Vec::<usize>::new());
    assert_eq!(rule_order(&vec![2, 2, 2]), vec![0, 1, 2]);
}

#[test]
fn the_first_rule_that_holds_decides_with_at_most_eight_actions() {
    let order = rule_order(&vec![0, 10, 5]);
    assert_eq!(decide(&order, &vec![true, false, true], &vec![1, 3, 12]), Some((2, MAX_RULE_ACTIONS)));
    assert_eq!(decide(&order, &vec![true, true, true], &vec![1, 3, 12]), Some((1, 3)));
    assert_eq!(decide(&order, &vec![true, false, false], &vec![1, 3, 12]), Some((0, 1)));
    assert_eq!(decide(&order, &vec![false, false, false], &vec![1, 3, 12]), None);
}
