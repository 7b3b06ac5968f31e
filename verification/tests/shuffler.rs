use rkill::shuffle::shuffle_rows;

#[test]
fn shuffle_keeps_the_same_rows() {
    let before: Vec<String> = (0..50).map(|i| format!("proc{:<20}{}", i, i)).collect();
    let mut rows = before.clone();
    shuffle_rows(&mut rows);
    assert_eq!(rows.len(), before.len());
    let mut sorted = rows.clone();
    sorted.sort();
    let mut expected = before.clone();
    expected.sort();
    assert_eq!(sorted, expected);
}

#[test]
fn shuffle_of_empty_is_empty() {
    let mut rows: Vec<String> = Vec::new();
    shuffle_rows(&mut rows);
    assert!(rows.is_empty());
}

#[test]
fn shuffle_eventually_moves_the_first_row() {
    // Over many invocations no single row is consistently first: with 20 rows
    // the chance that 200 independent shuffles all leave the same row in
    // front is (1/20)^200, so a stuck first row betrays a missing shuffle.
    let before: Vec<String> = (0..20).map(|i| i.to_string()).collect();
    let mut saw_other_first = false;
    for _ in 0..200 {
        let mut rows = before.clone();
        shuffle_rows(&mut rows);
        if rows[0] != before[0] {
            saw_other_first = true;
            break;
        }
    }
    assert!(saw_other_first);
}
