use agent_client::labels::{parse_labels, split_ids, BagLabels};

#[test]
fn parses_the_app_managed_labels_block() {
    let text = "You are a fisher.\n\n<!-- BAG LABELS: DO NOT EDIT BELOW (managed by the app) -->\nSellable: gold_ring, iron_sword\nDropable: old_boot\n";
    let labels = parse_labels(text);
    assert_eq!(labels.sellable, ["gold_ring", "iron_sword"]);
    assert_eq!(labels.dropable, ["old_boot"]);
}

#[test]
fn prose_before_the_marker_is_not_a_label() {
    let text = "Sellable: everything\n\nNo label block.\n";
    assert_eq!(parse_labels(text), BagLabels::default());
}

#[test]
fn the_last_line_of_each_kind_wins_and_other_lines_are_ignored() {
    let text = "<!-- BAG LABELS: DO NOT EDIT BELOW (managed by the app) -->\r\nSellable: a\r\nnotes\r\n  Sellable:  b ,, c  \r\nDropable:\r\n";
    let labels = parse_labels(text);
    assert_eq!(labels.sellable, ["b", "c"]);
    assert!(labels.dropable.is_empty());
}

#[test]
fn a_marker_inside_a_longer_line_still_opens_the_block() {
    let text = "prose Sellable: x\n## <!-- BAG LABELS: DO NOT EDIT BELOW (managed by the app) --> ##\nDropable: kelp";
    let labels = parse_labels(text);
    assert!(labels.sellable.is_empty());
    assert_eq!(labels.dropable, ["kelp"]);
}

#[test]
fn split_ids_trims_and_skips_empty_pieces() {
    assert_eq!(split_ids(" a, b ,,\tc ,"), ["a", "b", "c"]);
    assert!(split_ids("").is_empty());
    assert!(split_ids(" , ").is_empty());
}

#[test]
fn an_empty_prompt_has_no_labels() {
    assert_eq!(parse_labels(""), BagLabels::default());
}
