use screen_capture_diagnostic::ocr::{
    char_list_from_metadata, ctc_collapse, evaluation_passed, replay_region_order, score_slots,
};

fn table(v: &[&str]) -> Vec<String> {
    v.iter().map(|s| s.to_string()).collect()
}

#[test]
fn table_from_metadata_lines() {
    assert_eq!(
        char_list_from_metadata("a\nb\r\n\nc\r"),
        table(&["blank", "a", "b", "c\r", " "])
    );
    assert_eq!(char_list_from_metadata(""), table(&["blank", " "]));
    assert_eq!(char_list_from_metadata("\n\n"), table(&["blank", " "]));
    assert_eq!(char_list_from_metadata("中\n文\n"), table(&["blank", "中", "文", " "]));
}

#[test]
fn greedy_decoding_collapses_repeats_and_blanks() {
    let list = table(&["blank", "a", "b", "blank", " "]);
    let (text, steps) = ctc_collapse(&[1, 1, 0, 1, 2, 2, 3, 4, 9], &list);
    assert_eq!(text, "aab ");
    assert_eq!(steps, vec![0, 3, 4, 7]);
}

#[test]
fn greedy_decoding_edge_cases() {
    let list = table(&["blank", "a"]);
    assert_eq!(ctc_collapse(&[], &list), (String::new(), vec![]));
    assert_eq!(ctc_collapse(&[0, 0, 0], &list), (String::new(), vec![]));
    assert_eq!(ctc_collapse(&[usize::MAX], &list), (String::new(), vec![]));
    assert_eq!(ctc_collapse(&[1, 0, 1], &list), ("aa".to_string(), vec![0, 2]));
}

#[test]
fn kept_steps_increase_and_are_not_blank() {
    let list = table(&["blank", "x", "y"]);
    let best = [2, 2, 1, 0, 0, 1, 1, 2];
    let (text, steps) = ctc_collapse(&best, &list);
    assert_eq!(text, "yxxy");
    for pair in steps.windows(2) {
        assert!(pair[0] < pair[1]);
    }
    for &s in &steps {
        assert_ne!(best[s], 0);
        if s > 0 {
            assert_ne!(best[s], best[s - 1]);
        }
    }
}

#[test]
fn slots_scored_against_labels() {
    let predicted = table(&["坦克引擎", "x", "c"]);
    let expected = table(&["坦克引擎", "y"]);
    let (flags, count) = score_slots(&predicted, &expected);
    assert_eq!(flags, vec![true, false, false]);
    assert_eq!(count, 1);
    let (flags, count) = score_slots(&table(&["a", ""]), &table(&["a"]));
    assert_eq!(flags, vec![true, true]);
    assert_eq!(count, 2);
    assert!(evaluation_passed(15, 15));
    assert!(!evaluation_passed(14, 15));
}

#[test]
fn replay_order_sorts_by_slot_and_skips_others() {
    assert_eq!(replay_region_order(&vec![3, 1, 2]), vec![1, 2, 0]);
    assert_eq!(replay_region_order(&vec![2, 0, 4, 2, 1]), vec![4, 0, 3]);
    assert!(replay_region_order(&vec![]).is_empty());
}
