use japinput::dictionary::Dictionary;
use japinput::engine::{ConversionEngine, EngineCommand, EngineState};
use japinput::user_dictionary::UserDictionary;

const TEST_DICT: &str = ";; テスト用 SKK 辞書\n\nかんじ /漢字/感じ/幹事/\nにほん /日本;country/二本/\nかん /缶/勘/\nかんこく /韓国/\n";

fn test_engine() -> ConversionEngine {
    let dict = Dictionary::from_text(TEST_DICT);
    ConversionEngine::new(Some(dict))
}

fn engine_without_dict() -> ConversionEngine {
    ConversionEngine::new(None)
}

#[test]
fn initial_state_is_direct() {
    let engine = test_engine();
    assert_eq!(engine.state(), EngineState::Direct);
}

#[test]
fn insert_char_transitions_to_composing() {
    let mut engine = test_engine();
    engine.process(EngineCommand::InsertChar('k'));
    assert_eq!(engine.state(), EngineState::Composing);
}

#[test]
fn convert_transitions_to_converting() {
    let mut engine = test_engine();
    for ch in "kanji".chars() {
        engine.process(EngineCommand::InsertChar(ch));
    }
    engine.process(EngineCommand::Convert);
    assert_eq!(engine.state(), EngineState::Converting);
    assert!(engine.candidates().is_some());
}

#[test]
fn commit_in_converting_transitions_to_direct() {
    let mut engine = test_engine();
    for ch in "kanji".chars() {
        engine.process(EngineCommand::InsertChar(ch));
    }
    engine.process(EngineCommand::Convert);
    let output = engine.process(EngineCommand::Commit);
    assert_eq!(engine.state(), EngineState::Direct);
    assert!(!output.committed.is_empty());
}

#[test]
fn commit_in_composing_confirms_hiragana() {
    let mut engine = test_engine();
    for ch in "kanji".chars() {
        engine.process(EngineCommand::InsertChar(ch));
    }
    let output = engine.process(EngineCommand::Commit);
    assert_eq!(engine.state(), EngineState::Direct);
    assert_eq!(output.committed, "かんじ");
}

#[test]
fn cancel_in_composing_discards_input() {
    let mut engine = test_engine();
    for ch in "ka".chars() {
        engine.process(EngineCommand::InsertChar(ch));
    }
    let output = engine.process(EngineCommand::Cancel);
    assert_eq!(engine.state(), EngineState::Direct);
    assert_eq!(output.committed, "");
    assert_eq!(output.display, "");
}

#[test]
fn cancel_in_converting_returns_to_composing() {
    let mut engine = test_engine();
    for ch in "kanji".chars() {
        engine.process(EngineCommand::InsertChar(ch));
    }
    engine.process(EngineCommand::Convert);
    let output = engine.process(EngineCommand::Cancel);
    assert_eq!(engine.state(), EngineState::Composing);
    assert_eq!(output.display, "かんじ");
}

#[test]
fn convert_in_direct_is_noop() {
    let mut engine = test_engine();
    let output = engine.process(EngineCommand::Convert);
    assert_eq!(engine.state(), EngineState::Direct);
    assert_eq!(output.committed, "");
}

#[test]
fn commit_in_direct_is_noop() {
    let mut engine = test_engine();
    let output = engine.process(EngineCommand::Commit);
    assert_eq!(engine.state(), EngineState::Direct);
    assert_eq!(output.committed, "");
}

#[test]
fn next_candidate_moves_selection() {
    let mut engine = test_engine();
    for ch in "kanji".chars() {
        engine.process(EngineCommand::InsertChar(ch));
    }
    engine.process(EngineCommand::Convert);
    let output = engine.process(EngineCommand::NextCandidate);
    assert_eq!(engine.state(), EngineState::Converting);
    // "かんじ" → ["漢字", "感じ", "幹事"], next → index=1 "感じ"
    assert_eq!(output.candidate_index, Some(1));
}

#[test]
fn prev_candidate_moves_selection() {
    let mut engine = test_engine();
    for ch in "kanji".chars() {
        engine.process(EngineCommand::InsertChar(ch));
    }
    engine.process(EngineCommand::Convert);
    engine.process(EngineCommand::NextCandidate); // index=1
    let output = engine.process(EngineCommand::PrevCandidate); // index=0
    assert_eq!(output.candidate_index, Some(0));
}

#[test]
fn convert_in_converting_acts_as_next() {
    let mut engine = test_engine();
    for ch in "kanji".chars() {
        engine.process(EngineCommand::InsertChar(ch));
    }
    engine.process(EngineCommand::Convert); // index=0
    let output = engine.process(EngineCommand::Convert); // index=1
    assert_eq!(output.candidate_index, Some(1));
}

#[test]
fn commit_in_converting_confirms_candidate() {
    let mut engine = test_engine();
    for ch in "kanji".chars() {
        engine.process(EngineCommand::InsertChar(ch));
    }
    engine.process(EngineCommand::Convert);
    engine.process(EngineCommand::NextCandidate);
    let output = engine.process(EngineCommand::Commit);
    assert_eq!(output.committed, "感じ");
    assert_eq!(engine.state(), EngineState::Direct);
}

#[test]
fn backspace_in_composing_removes_char() {
    let mut engine = test_engine();
    for ch in "ka".chars() {
        engine.process(EngineCommand::InsertChar(ch));
    }
    // output="か", pending=""
    let output = engine.process(EngineCommand::Backspace);
    assert_eq!(output.display, "");
    assert_eq!(engine.state(), EngineState::Direct);
}

#[test]
fn backspace_in_composing_with_pending() {
    let mut engine = test_engine();
    engine.process(EngineCommand::InsertChar('k'));
    // pending="k"
    let output = engine.process(EngineCommand::Backspace);
    assert_eq!(output.display, "");
    assert_eq!(engine.state(), EngineState::Direct);
}

#[test]
fn backspace_in_composing_partial_removal() {
    // "kak" → output="か", pending="k" → backspace → output="か", pending=""
    let mut engine = test_engine();
    for ch in "kak".chars() {
        engine.process(EngineCommand::InsertChar(ch));
    }
    let output = engine.process(EngineCommand::Backspace);
    assert_eq!(output.display, "か");
    assert_eq!(engine.state(), EngineState::Composing);
}

#[test]
fn insert_char_in_converting_auto_commits() {
    // "kanji" → Convert → 'a' → 候補「漢字」が確定され、'a' の入力が開始
    let mut engine = test_engine();
    for ch in "kanji".chars() {
        engine.process(EngineCommand::InsertChar(ch));
    }
    engine.process(EngineCommand::Convert); // Converting, display="漢字"
    let output = engine.process(EngineCommand::InsertChar('a'));
    assert_eq!(output.committed, "漢字");
    assert_eq!(engine.state(), EngineState::Composing);
    assert_eq!(output.display, "あ");
}

#[test]
fn insert_char_in_converting_after_next() {
    // 2番目の候補を選択中に文字入力 → 2番目の候補が確定
    let mut engine = test_engine();
    for ch in "kanji".chars() {
        engine.process(EngineCommand::InsertChar(ch));
    }
    engine.process(EngineCommand::Convert);
    engine.process(EngineCommand::NextCandidate); // "感じ"
    let output = engine.process(EngineCommand::InsertChar('k'));
    assert_eq!(output.committed, "感じ");
    assert_eq!(engine.state(), EngineState::Composing);
    assert_eq!(output.display, "k");
}

#[test]
fn backspace_in_converting_returns_to_composing() {
    let mut engine = test_engine();
    for ch in "kanji".chars() {
        engine.process(EngineCommand::InsertChar(ch));
    }
    engine.process(EngineCommand::Convert);
    let output = engine.process(EngineCommand::Backspace);
    assert_eq!(engine.state(), EngineState::Composing);
    assert_eq!(output.display, "かんじ");
}

#[test]
fn reading_available_after_convert() {
    let mut engine = test_engine();
    for ch in "kanji".chars() {
        engine.process(EngineCommand::InsertChar(ch));
    }
    engine.process(EngineCommand::Convert);
    assert_eq!(engine.reading(), "かんじ");
}

#[test]
fn convert_without_dict_confirms_hiragana() {
    let mut engine = engine_without_dict();
    for ch in "kanji".chars() {
        engine.process(EngineCommand::InsertChar(ch));
    }
    let output = engine.process(EngineCommand::Convert);
    assert_eq!(engine.state(), EngineState::Direct);
    assert_eq!(output.committed, "かんじ");
}

#[test]
fn convert_no_candidates_confirms_hiragana() {
    let mut engine = test_engine();
    for ch in "aaaaa".chars() {
        engine.process(EngineCommand::InsertChar(ch));
    }
    let output = engine.process(EngineCommand::Convert);
    assert_eq!(engine.state(), EngineState::Direct);
    assert_eq!(output.committed, "あああああ");
}

#[test]
fn full_flow_kanji_convert_commit() {
    // "kanji" → Space → 1番目の候補「漢字」を確定
    let mut engine = test_engine();
    for ch in "kanji".chars() {
        engine.process(EngineCommand::InsertChar(ch));
    }
    let output = engine.process(EngineCommand::Convert);
    assert_eq!(output.display, "漢字");
    assert!(engine.candidates().is_some());

    let output = engine.process(EngineCommand::Commit);
    assert_eq!(output.committed, "漢字");
    assert_eq!(engine.state(), EngineState::Direct);
}

#[test]
fn full_flow_select_second_candidate() {
    // "kanji" → Space → Next → 2番目の候補「感じ」を確定
    let mut engine = test_engine();
    for ch in "kanji".chars() {
        engine.process(EngineCommand::InsertChar(ch));
    }
    engine.process(EngineCommand::Convert);
    engine.process(EngineCommand::NextCandidate);
    let output = engine.process(EngineCommand::Commit);
    assert_eq!(output.committed, "感じ");
}

#[test]
fn full_flow_cancel_and_re_edit() {
    // "kanji" → Space → Cancel → "ha" 追加 → Commit
    let mut engine = test_engine();
    for ch in "kanji".chars() {
        engine.process(EngineCommand::InsertChar(ch));
    }
    engine.process(EngineCommand::Convert);
    engine.process(EngineCommand::Cancel); // → Composing, display="かんじ"

    for ch in "ha".chars() {
        engine.process(EngineCommand::InsertChar(ch));
    }
    let output = engine.process(EngineCommand::Commit);
    assert_eq!(output.committed, "かんじは");
}

#[test]
fn full_flow_consecutive_conversions() {
    // 1回目: "kanji" → Convert → Commit → "漢字"
    // 2回目: "nihon" → Convert → Commit → "日本"
    let mut engine = test_engine();
    for ch in "kanji".chars() {
        engine.process(EngineCommand::InsertChar(ch));
    }
    engine.process(EngineCommand::Convert);
    let output1 = engine.process(EngineCommand::Commit);
    assert_eq!(output1.committed, "漢字");

    for ch in "nihon".chars() {
        engine.process(EngineCommand::InsertChar(ch));
    }
    engine.process(EngineCommand::Convert);
    let output2 = engine.process(EngineCommand::Commit);
    assert_eq!(output2.committed, "日本");
}

#[test]
fn display_updates_during_composing() {
    // 逐次入力中に display が更新される
    let mut engine = test_engine();
    let output = engine.process(EngineCommand::InsertChar('k'));
    assert_eq!(output.display, "k"); // pending

    let output = engine.process(EngineCommand::InsertChar('a'));
    assert_eq!(output.display, "か"); // output

    let output = engine.process(EngineCommand::InsertChar('n'));
    assert_eq!(output.display, "かn"); // output + pending
}

#[test]
fn emacs_ctrl_j_composing_commits_hiragana() {
    // Composing 状態で Commit (Ctrl+J 相当) → ひらがな確定 → Direct
    let mut engine = test_engine();
    for ch in "kanji".chars() {
        engine.process(EngineCommand::InsertChar(ch));
    }
    assert_eq!(engine.state(), EngineState::Composing);
    let output = engine.process(EngineCommand::Commit);
    assert_eq!(engine.state(), EngineState::Direct);
    assert_eq!(output.committed, "かんじ");
}

#[test]
fn emacs_ctrl_j_converting_commits_candidate() {
    // Converting 状態で Commit (Ctrl+J 相当) → 候補確定 → Direct
    let mut engine = test_engine();
    for ch in "kanji".chars() {
        engine.process(EngineCommand::InsertChar(ch));
    }
    engine.process(EngineCommand::Convert);
    assert_eq!(engine.state(), EngineState::Converting);
    let output = engine.process(EngineCommand::Commit);
    assert_eq!(engine.state(), EngineState::Direct);
    assert_eq!(output.committed, "漢字");
}

#[test]
fn emacs_ctrl_g_composing_cancels() {
    // Composing 状態で Cancel (Ctrl+G 相当) → 入力破棄 → Direct
    let mut engine = test_engine();
    for ch in "ka".chars() {
        engine.process(EngineCommand::InsertChar(ch));
    }
    assert_eq!(engine.state(), EngineState::Composing);
    let output = engine.process(EngineCommand::Cancel);
    assert_eq!(engine.state(), EngineState::Direct);
    assert_eq!(output.committed, "");
    assert_eq!(output.display, "");
}

#[test]
fn emacs_ctrl_g_converting_returns_to_composing() {
    // Converting 状態で Cancel (Ctrl+G 相当) → Composing に戻る
    let mut engine = test_engine();
    for ch in "kanji".chars() {
        engine.process(EngineCommand::InsertChar(ch));
    }
    engine.process(EngineCommand::Convert);
    assert_eq!(engine.state(), EngineState::Converting);
    let output = engine.process(EngineCommand::Cancel);
    assert_eq!(engine.state(), EngineState::Composing);
    assert_eq!(output.display, "かんじ");
}

#[test]
fn emacs_ctrl_n_p_converting_navigates() {
    // Converting 状態で NextCandidate/PrevCandidate (Ctrl+N/P 相当) → 候補移動
    let mut engine = test_engine();
    for ch in "kanji".chars() {
        engine.process(EngineCommand::InsertChar(ch));
    }
    engine.process(EngineCommand::Convert);
    // Ctrl+N → 次の候補
    let output = engine.process(EngineCommand::NextCandidate);
    assert_eq!(output.candidate_index, Some(1));
    assert_eq!(output.display, "感じ");
    // Ctrl+P → 前の候補に戻る
    let output = engine.process(EngineCommand::PrevCandidate);
    assert_eq!(output.candidate_index, Some(0));
    assert_eq!(output.display, "漢字");
}

#[test]
fn emacs_ctrl_h_composing_backspace() {
    // Composing 状態で Backspace (Ctrl+H 相当) → 1文字削除
    let mut engine = test_engine();
    for ch in "kak".chars() {
        engine.process(EngineCommand::InsertChar(ch));
    }
    // output="か", pending="k"
    let output = engine.process(EngineCommand::Backspace);
    assert_eq!(output.display, "か");
    assert_eq!(engine.state(), EngineState::Composing);
}

fn test_engine_with_user_dict() -> ConversionEngine {
    let dict = Dictionary::from_text(TEST_DICT);
    let mut user_dict = UserDictionary::new();
    user_dict.record("かんじ", "感じ");
    ConversionEngine::new_with_user_dict(Some(dict), Some(user_dict))
}

#[test]
fn user_dict_candidates_first() {
    let mut engine = test_engine_with_user_dict();
    for ch in "kanji".chars() {
        engine.process(EngineCommand::InsertChar(ch));
    }
    let output = engine.process(EngineCommand::Convert);
    // ユーザー辞書の "感じ" が先頭
    assert_eq!(output.display, "感じ");
    let candidates = engine.candidates().unwrap();
    assert_eq!(candidates[0], "感じ");
    assert!(candidates.contains(&"漢字".to_string()));
    assert!(candidates.contains(&"幹事".to_string()));
}

#[test]
fn user_dict_no_duplicate() {
    let mut engine = test_engine_with_user_dict();
    for ch in "kanji".chars() {
        engine.process(EngineCommand::InsertChar(ch));
    }
    engine.process(EngineCommand::Convert);
    let candidates = engine.candidates().unwrap();
    // "感じ" が重複していないこと
    let count = candidates.iter().filter(|c| c.as_str() == "感じ").count();
    assert_eq!(count, 1);
}

#[test]
fn commit_records_to_user_dict() {
    let dict = Dictionary::from_text(TEST_DICT);
    let user_dict = UserDictionary::new();
    let mut engine = ConversionEngine::new_with_user_dict(Some(dict), Some(user_dict));

    for ch in "kanji".chars() {
        engine.process(EngineCommand::InsertChar(ch));
    }
    engine.process(EngineCommand::Convert);
    engine.process(EngineCommand::NextCandidate); // → "感じ"
    engine.process(EngineCommand::Commit);

    // 2回目: ユーザー辞書の学習で "感じ" が先頭になる
    for ch in "kanji".chars() {
        engine.process(EngineCommand::InsertChar(ch));
    }
    let output = engine.process(EngineCommand::Convert);
    assert_eq!(output.display, "感じ");
}

#[test]
fn engine_without_user_dict_unchanged() {
    // ユーザー辞書なしの場合は既存の動作と同じ
    let mut engine = test_engine();
    for ch in "kanji".chars() {
        engine.process(EngineCommand::InsertChar(ch));
    }
    let output = engine.process(EngineCommand::Convert);
    assert_eq!(output.display, "漢字");
}

#[test]
fn user_dict_only_no_system_dict() {
    let mut user_dict = UserDictionary::new();
    user_dict.record("かんじ", "感じ");
    let mut engine = ConversionEngine::new_with_user_dict(None, Some(user_dict));

    for ch in "kanji".chars() {
        engine.process(EngineCommand::InsertChar(ch));
    }
    let output = engine.process(EngineCommand::Convert);
    assert_eq!(output.display, "感じ");
    let candidates = engine.candidates().unwrap();
    assert_eq!(candidates, &["感じ"]);
}
