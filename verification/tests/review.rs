use dotdeploy::review::{
    ansi, checks_divergence, diff_output, is_binary_content, line_label, merge_tool, next_review_index, preflight, previous_review_index,
    resolution_label, review_action_for, review_options, skip_review_options, summary_action_for, DiffOutput, Preflight,
    Resolution, Review, ReviewAction, ReviewOutcome, SummaryAction, SummaryOutcome, ValidationMode,
};

#[test]
fn options_offered() {
    assert_eq!(review_options(false, 1), vec!['s', 'd', 'k', 'q']);
    assert_eq!(review_options(true, 1), vec!['s', 'd', 'k', 'q', 'm']);
    assert_eq!(review_options(true, 3), vec!['s', 'd', 'k', 'q', 'm', 'n', 'p']);
    assert_eq!(skip_review_options(1), vec!['k', 'q']);
    assert_eq!(skip_review_options(2), vec!['k', 'q', 'n', 'p']);
}

#[test]
fn index_navigation_wraps() {
    assert_eq!(next_review_index(0, 3), 1);
    assert_eq!(next_review_index(2, 3), 0);
    assert_eq!(previous_review_index(0, 3), 2);
    assert_eq!(previous_review_index(2, 3), 1);
    for total in 1..5usize {
        for i in 0..total {
            assert_eq!(previous_review_index(next_review_index(i, total), total), i);
        }
    }
}

#[test]
fn labels() {
    assert_eq!(resolution_label(Some(Resolution::KeepSource), ValidationMode::Standalone), "source -> deployed");
    assert_eq!(resolution_label(Some(Resolution::KeepDeployed), ValidationMode::Standalone), "deployed -> source");
    assert_eq!(resolution_label(Some(Resolution::Merge), ValidationMode::SyncPreflight), "merge");
    assert_eq!(resolution_label(Some(Resolution::Skip), ValidationMode::Standalone), "skip");
    assert_eq!(
        resolution_label(Some(Resolution::Skip), ValidationMode::SyncPreflight),
        "skip \u{2014} sync will overwrite deployed"
    );
    assert_eq!(resolution_label(None, ValidationMode::Standalone), "pending");
}

#[test]
fn binary_and_ansi() {
    assert!(!is_binary_content(b"hello"));
    assert!(is_binary_content(&[1, 0, 2]));
    let mut late = vec![1u8; 9000];
    late[8500] = 0;
    assert!(!is_binary_content(&late));
    assert_eq!(ansi("1;31", "x"), "\x1b[1;31mx\x1b[0m");
}

#[test]
fn review_walkthrough() {
    let mut review = Review::new(2);
    assert_eq!(review.current(), 0);
    assert!(matches!(review.answer(ReviewAction::Resolve(Resolution::KeepSource)), ReviewOutcome::Continue));
    assert_eq!(review.current(), 1);
    assert!(matches!(review.answer(ReviewAction::Resolve(Resolution::Skip)), ReviewOutcome::Summary));
    match review.answer_summary(SummaryAction::Apply) {
        SummaryOutcome::Apply(rs) => assert_eq!(rs, vec![Resolution::KeepSource, Resolution::Skip]),
        _ => panic!("expected the resolutions"),
    }
    let mut review = Review::new(2);
    assert!(matches!(review.answer(ReviewAction::Quit), ReviewOutcome::Quit));
}

#[test]
fn keys_and_preflight() {
    assert!(matches!(summary_action_for('a'), SummaryAction::Apply));
    assert!(matches!(review_action_for('q', true, false), ReviewAction::Quit));
    assert!(matches!(preflight(0, false, ValidationMode::SyncPreflight), Preflight::InSync));
    assert!(matches!(preflight(2, true, ValidationMode::SyncPreflight), Preflight::Overwrite));
    assert!(matches!(preflight(2, false, ValidationMode::Standalone), Preflight::Review));
}

#[test]
fn divergence_and_merge_tool() {
    let some = Some("abc".to_string());
    assert!(checks_divergence("copy", true, true, &some));
    assert!(!checks_divergence("link", true, true, &some));
    assert!(!checks_divergence("copy", false, true, &some));
    assert!(!checks_divergence("copy", true, false, &some));
    assert!(!checks_divergence("create", true, true, &None));
    assert_eq!(merge_tool(Some("meld".to_string()), Some("vi".to_string())), "meld");
    assert_eq!(merge_tool(None, Some("vi".to_string())), "vi");
    assert_eq!(merge_tool(None, None), "vimdiff");
}

#[test]
fn diff_display() {
    assert!(matches!(diff_output("a\n", "a\n", "s", "t", false), DiffOutput::Identical));
    match diff_output("a\n", "b\n", "s", "t", true) {
        DiffOutput::Colored { old_header, new_header } => {
            assert_eq!(old_header, "source: s");
            assert_eq!(new_header, "deployed: t");
        }
        _ => panic!("expected a coloured diff"),
    }
    match diff_output("a\n", "b\n", "s", "t", false) {
        DiffOutput::Unified(text) => {
            assert!(text.contains("--- source: s"));
            assert!(text.contains("+++ deployed: t"));
            assert!(text.contains("-a"));
            assert!(text.contains("+b"));
        }
        _ => panic!("expected a unified diff"),
    }
}

#[test]
fn line_number_column() {
    assert_eq!(line_label(None), "    ");
    assert_eq!(line_label(Some(0)), "1   ");
    assert_eq!(line_label(Some(41)), "42  ");
    assert_eq!(line_label(Some(9998)), "9999");
    assert_eq!(line_label(Some(123455)), "123456");
}

#[test]
fn chosen_resolutions_are_kept() {
    let mut r = Review::new(2);
    assert_eq!(r.chosen(), vec![None, None]);
    r.answer(ReviewAction::Resolve(Resolution::Skip));
    assert_eq!(r.chosen(), vec![Some(Resolution::Skip), None]);
}
