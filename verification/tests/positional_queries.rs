use zynsearch::positional_queries::{is_exact_phrase_match, PositionalPosting};

#[test]
fn test_exact_phrase_matching() {
    let hot_positions_doc1 = vec![5];
    let dog_positions_doc1 = vec![2];

    let is_match_1 = is_exact_phrase_match(&hot_positions_doc1, &dog_positions_doc1);

    assert_eq!(is_match_1, false);
    let hot_positions_doc2 = vec![2, 6];
    let dog_position_doc2 = vec![7];

    let is_match_2 = is_exact_phrase_match(&hot_positions_doc2, &dog_position_doc2);

    assert_eq!(is_match_2, true);

    println!("Phrase detection completed successfully!");
}

#[test]
fn phrase_matching_handles_empty_and_extreme_positions() {
    assert!(!is_exact_phrase_match(&[], &[1]));
    assert!(!is_exact_phrase_match(&[u32::MAX], &[0]));
    assert!(is_exact_phrase_match(&[1, 4, 9], &[2]));
    assert!(!is_exact_phrase_match(&[3], &[3]));
    let posting = PositionalPosting { doc_id: 7, positions: vec![1, 2] };
    assert!(is_exact_phrase_match(&posting.positions, &[3]));
}
