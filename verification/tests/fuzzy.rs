use herdr_npm::domain::fuzzy::{filter_names, FuzzyMatch};

#[test]
fn empty_query_keeps_declaration_order_without_highlights() {
    let got = filter_names(&["dev", "build", "test"], "");
    assert_eq!(
        got,
        vec![
            FuzzyMatch { index: 0, positions: vec![] },
            FuzzyMatch { index: 1, positions: vec![] },
            FuzzyMatch { index: 2, positions: vec![] },
        ]
    );
}

#[test]
fn subsequence_is_case_insensitive() {
    let got = filter_names(&["DevServer", "other"], "dvs");
    assert_eq!(got.len(), 1);
    assert_eq!(got[0].index, 0);
    assert_eq!(got[0].positions, vec![0, 2, 3]);
}

#[test]
fn prefix_ranks_ahead_of_a_looser_subsequence() {
    let got = filter_names(&["latest", "test"], "te");
    assert_eq!(got.iter().map(|item| item.index).collect::<Vec<_>>(), vec![1, 0]);
}

#[test]
fn compact_window_beats_a_wider_subsequence() {
    let got = filter_names(&["xa--bc", "xabc"], "abc");
    assert_eq!(got[0].index, 1);
    assert_eq!(got[1].index, 0);
}

#[test]
fn ties_keep_declaration_order() {
    let got = filter_names(&["alpha", "alpine"], "al");
    assert_eq!(got.iter().map(|item| item.index).collect::<Vec<_>>(), vec![0, 1]);
}

#[test]
fn unicode_positions_are_character_indexes() {
    let got = filter_names(&["日本語テスト", "ascii"], "本テ");
    assert_eq!(got.len(), 1);
    assert_eq!(got[0].positions, vec![1, 3]);
    assert_eq!("日本語テスト".chars().count(), 6);
}

#[test]
fn missing_character_is_not_a_match() {
    assert!(filter_names(&["dev", "build"], "xyz").is_empty());
}

#[test]
fn best_window_is_chosen_over_the_first_greedy_match() {
    // The first start gives a window of 6 columns, a later start a window of 3.
    let got = filter_names(&["a-b-cabc"], "abc");
    assert_eq!(got.len(), 1);
    assert_eq!(got[0].positions, vec![5, 6, 7]);
}

#[test]
fn uppercase_query_matches_lowercase_name() {
    let got = filter_names(&["build"], "BU");
    assert_eq!(got.len(), 1);
    assert_eq!(got[0].positions, vec![0, 1]);
}
