use evmflow::utils::find_sequence;

#[test]
fn find_correct_sequence() {
    let input = vec![1, 2, 3, 4, 5, 6, 7];
    let sequence = vec![4, 5, 6];

    assert!(find_sequence(&input, &sequence).is_some());
}

#[test]
fn find_sequence_at_start() {
    let input = vec![1, 2, 3, 4, 5, 6, 7];
    let sequence = vec![1, 2, 3];

    assert!(find_sequence(&input, &sequence).is_some());
}

#[test]
fn find_sequence_at_end() {
    let input = vec![1, 2, 3, 4, 5, 6, 7];
    let sequence = vec![5, 6, 7];

    assert!(find_sequence(&input, &sequence).is_some());
}

#[test]
fn sequence_longer_than_input() {
    let input = vec![5, 6, 7];
    let sequence = vec![1, 2, 3, 4, 5, 6, 7];

    assert!(find_sequence(&input, &sequence).is_none());
}

#[test]
fn sequence_not_in_input() {
    let input = vec![1, 2, 3, 4, 5, 6, 7];
    let sequence = vec![3, 5, 7];

    assert!(find_sequence(&input, &sequence).is_none());
}

#[test]
fn sequence_works_with_chars() {
    let input = vec!['h', 'e', 'l', 'l', 'o'];
    let sequence = vec!['l', 'o'];

    assert!(find_sequence(&input, &sequence).is_some());
}

#[test]
fn find_sequence_reports_first_position() {
    let input = vec![9, 1, 2, 1, 2];
    let sequence = vec![1, 2];

    assert_eq!(find_sequence(&input, &sequence), Some(1));
}
