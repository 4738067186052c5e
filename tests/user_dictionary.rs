use japinput::user_dictionary::UserDictionary;

#[test]
fn save_and_load() {
    let mut ud = UserDictionary::new();
    ud.record("かんじ", "漢字");
    ud.record("かんじ", "感じ");
    ud.record("にほん", "日本");
    let text = ud.to_text();

    let loaded = UserDictionary::from_text(&text);
    let result = loaded.lookup("かんじ").unwrap();
    assert_eq!(result, &["感じ", "漢字"]);
    let result = loaded.lookup("にほん").unwrap();
    assert_eq!(result, &["日本"]);
}

#[test]
fn save_clears_dirty_flag() {
    let mut ud = UserDictionary::new();
    ud.record("かんじ", "漢字");
    assert!(ud.is_dirty());
    let _ = ud.to_text();
    ud.mark_saved();
    assert!(!ud.is_dirty());
}

#[test]
fn new_is_empty() {
    let ud = UserDictionary::new();
    assert!(ud.lookup("かんじ").is_none());
    assert!(!ud.is_dirty());
}

#[test]
fn record_and_lookup() {
    let mut ud = UserDictionary::new();
    ud.record("かんじ", "漢字");
    let result = ud.lookup("かんじ").unwrap();
    assert_eq!(result, &["漢字"]);
    assert!(ud.is_dirty());
}

#[test]
fn record_multiple_candidates() {
    let mut ud = UserDictionary::new();
    ud.record("かんじ", "漢字");
    ud.record("かんじ", "感じ");
    let result = ud.lookup("かんじ").unwrap();
    assert_eq!(result, &["感じ", "漢字"]);
}

#[test]
fn record_existing_moves_to_front() {
    let mut ud = UserDictionary::new();
    ud.record("かんじ", "漢字");
    ud.record("かんじ", "感じ");
    ud.record("かんじ", "幹事");
    // この時点: ["幹事", "感じ", "漢字"]
    // "漢字" を再度選択 → 先頭に移動
    ud.record("かんじ", "漢字");
    let result = ud.lookup("かんじ").unwrap();
    assert_eq!(result[0], "漢字");
}

#[test]
fn record_same_candidate_no_duplicate() {
    let mut ud = UserDictionary::new();
    ud.record("かんじ", "漢字");
    ud.record("かんじ", "漢字");
    let result = ud.lookup("かんじ").unwrap();
    assert_eq!(result.len(), 1);
    assert_eq!(result, &["漢字"]);
}

#[test]
fn user_dictionary_lookup_not_found() {
    let ud = UserDictionary::new();
    assert!(ud.lookup("そんざいしない").is_none());
}
