use japinput::candidate::CandidateList;

#[test]
fn new_with_candidates() {
    let cl = CandidateList::new(vec![
        "漢字".to_string(),
        "感じ".to_string(),
        "幹事".to_string(),
    ]);
    assert_eq!(cl.current(), Some("漢字"));
    assert_eq!(cl.index(), 0);
    assert_eq!(cl.len(), 3);
}

#[test]
fn new_empty() {
    let cl = CandidateList::new(vec![]);
    assert_eq!(cl.current(), None);
    assert!(cl.is_empty());
    assert_eq!(cl.len(), 0);
}

#[test]
fn next_moves_forward() {
    let mut cl = CandidateList::new(vec![
        "漢字".to_string(),
        "感じ".to_string(),
        "幹事".to_string(),
    ]);
    cl.next();
    assert_eq!(cl.current(), Some("感じ"));
    assert_eq!(cl.index(), 1);
}

#[test]
fn prev_moves_backward() {
    let mut cl = CandidateList::new(vec![
        "漢字".to_string(),
        "感じ".to_string(),
        "幹事".to_string(),
    ]);
    cl.next();
    cl.next();
    cl.prev();
    assert_eq!(cl.current(), Some("感じ"));
    assert_eq!(cl.index(), 1);
}

#[test]
fn next_at_end_wraps() {
    let mut cl = CandidateList::new(vec!["漢字".to_string(), "感じ".to_string()]);
    cl.next(); // index=1
    cl.next(); // index=0 (ラップ)
    assert_eq!(cl.current(), Some("漢字"));
    assert_eq!(cl.index(), 0);
}

#[test]
fn prev_at_start_wraps() {
    let mut cl = CandidateList::new(vec!["漢字".to_string(), "感じ".to_string()]);
    cl.prev(); // index=1 (ラップ)
    assert_eq!(cl.current(), Some("感じ"));
    assert_eq!(cl.index(), 1);
}

#[test]
fn next_on_empty_no_panic() {
    let mut cl = CandidateList::new(vec![]);
    cl.next();
    assert_eq!(cl.current(), None);
}

#[test]
fn prev_on_empty_no_panic() {
    let mut cl = CandidateList::new(vec![]);
    cl.prev();
    assert_eq!(cl.current(), None);
}

#[test]
fn select_returns_current() {
    let mut cl = CandidateList::new(vec!["漢字".to_string(), "感じ".to_string()]);
    cl.next();
    assert_eq!(cl.select(), Some("感じ".to_string()));
}

#[test]
fn select_on_empty() {
    let cl = CandidateList::new(vec![]);
    assert_eq!(cl.select(), None);
}

#[test]
fn candidates_returns_all() {
    let cl = CandidateList::new(vec!["漢字".to_string(), "感じ".to_string()]);
    assert_eq!(cl.candidates(), &["漢字", "感じ"]);
}
