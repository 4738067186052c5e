use japinput::candidate::CandidateList;
use japinput::composition::{edit_action, EditAction};
use japinput::config::{Config, ConfigError, DEFAULT_TOML};
use japinput::dictionary::{parse_line, Dictionary};
use japinput::engine::{ConversionEngine, EngineCommand, EngineOutput, EngineState};
use japinput::input_state::InputState;
use japinput::katakana::to_katakana;
use japinput::romaji::{convert, convert_lowered};
use japinput::user_dictionary::UserDictionary;

const KANJI_DICT: &str = "かんじ /漢字/感じ/幹事/\n";

fn type_text(engine: &mut ConversionEngine, text: &str) {
    for ch in text.chars() {
        engine.process(EngineCommand::InsertChar(ch));
    }
}

fn feed_and_flush(text: &str) -> String {
    let mut state = InputState::new();
    for ch in text.chars() {
        state.feed_char(ch);
    }
    state.flush();
    state.output().to_string()
}

#[test]
fn select_second_candidate_and_learn() {
    let dict = Dictionary::from_text(KANJI_DICT);
    let mut engine = ConversionEngine::new_with_user_dict(Some(dict), Some(UserDictionary::new()));
    type_text(&mut engine, "kanji");
    let out = engine.process(EngineCommand::Convert);
    assert_eq!(out.display, "漢字");
    assert_eq!(out.candidate_index, Some(0));
    let out = engine.process(EngineCommand::NextCandidate);
    assert_eq!(out.display, "感じ");
    assert_eq!(out.candidate_index, Some(1));
    let out = engine.process(EngineCommand::Commit);
    assert_eq!(out.committed, "感じ");
    assert_eq!(engine.state(), EngineState::Direct);
    let ud = engine.user_dict_mut().unwrap();
    assert_eq!(ud.lookup("かんじ").unwrap()[0], "感じ");
    assert!(ud.is_dirty());
}

#[test]
fn commit_first_candidate_without_learning() {
    let dict = Dictionary::from_text(KANJI_DICT);
    let mut engine = ConversionEngine::new(Some(dict));
    type_text(&mut engine, "kanji");
    engine.process(EngineCommand::Convert);
    let out = engine.process(EngineCommand::Commit);
    assert_eq!(out.committed, "漢字");
}

#[test]
fn convert_without_entry_commits_kana() {
    let dict = Dictionary::from_text(KANJI_DICT);
    let mut engine = ConversionEngine::new(Some(dict));
    type_text(&mut engine, "aaaaa");
    let out = engine.process(EngineCommand::Convert);
    assert_eq!(engine.state(), EngineState::Direct);
    assert_eq!(out.committed, "あああああ");
    assert_eq!(out.display, "");
    assert_eq!(out.candidate_index, None);
    assert!(engine.candidates().is_none());
}

#[test]
fn flush_resolves_trailing_n() {
    let mut state = InputState::new();
    for ch in "kan".chars() {
        state.feed_char(ch);
    }
    state.flush();
    assert_eq!(state.output(), "かん");
    assert_eq!(state.pending(), "");
}

#[test]
fn user_dictionary_alone_gives_single_candidate() {
    let mut ud = UserDictionary::new();
    ud.record("かんじ", "感じ");
    let mut engine = ConversionEngine::new_with_user_dict(None, Some(ud));
    type_text(&mut engine, "kanji");
    let out = engine.process(EngineCommand::Convert);
    assert_eq!(out.display, "感じ");
    assert_eq!(engine.candidates().unwrap(), &["感じ"]);
}

#[test]
fn feeding_matches_batch_on_words() {
    for word in ["konnichiwa", "nippon", "kan", "gakkou", "ra-men", "sou,sou.", "nn", "xyz"] {
        let batch = convert(word);
        let mut state = InputState::new();
        for ch in word.chars() {
            state.feed_char(ch);
        }
        assert_eq!(state.output(), batch.output);
        assert_eq!(state.pending(), batch.pending);
    }
    assert_eq!(feed_and_flush("konnichiwa"), convert("konnichiwa").output);
    assert_eq!(feed_and_flush("kan"), "かん");
    assert_eq!(convert("kan").output, "か");
}

#[test]
fn cursor_stays_in_range() {
    let mut cl = CandidateList::new(vec!["a".to_string(), "b".to_string(), "c".to_string()]);
    for _ in 0..7 {
        cl.next();
        assert!(cl.index() < 3);
    }
    assert_eq!(cl.index(), 1);
    for _ in 0..5 {
        cl.prev();
        assert!(cl.index() < 3);
    }
    assert_eq!(cl.index(), 2);
    let mut empty = CandidateList::new(vec![]);
    empty.next();
    empty.prev();
    assert_eq!(empty.index(), 0);
    assert_eq!(empty.current(), None);
}

#[test]
fn merged_candidates_have_no_repeats() {
    let dict = Dictionary::from_text("かんじ /漢字/感じ/感じ/幹事/\n");
    let mut ud = UserDictionary::new();
    ud.record("かんじ", "幹事");
    ud.record("かんじ", "漢字");
    let mut engine = ConversionEngine::new_with_user_dict(Some(dict), Some(ud));
    type_text(&mut engine, "kanji");
    engine.process(EngineCommand::Convert);
    assert_eq!(engine.candidates().unwrap(), &["漢字", "幹事", "感じ"]);
}

#[test]
fn recording_twice_keeps_one_copy() {
    let mut ud = UserDictionary::new();
    ud.record("かんじ", "漢字");
    ud.record("かんじ", "感じ");
    ud.record("かんじ", "幹事");
    ud.record("かんじ", "感じ");
    ud.record("かんじ", "感じ");
    assert_eq!(ud.lookup("かんじ").unwrap(), &["感じ", "幹事", "漢字"]);
}

#[test]
fn converting_shows_current_candidate() {
    let dict = Dictionary::from_text(KANJI_DICT);
    let mut engine = ConversionEngine::new(Some(dict));
    type_text(&mut engine, "kanji");
    let commands = [
        EngineCommand::Convert,
        EngineCommand::NextCandidate,
        EngineCommand::NextCandidate,
        EngineCommand::NextCandidate,
        EngineCommand::PrevCandidate,
        EngineCommand::PrevCandidate,
        EngineCommand::Convert,
    ];
    for cmd in commands {
        let out = engine.process(cmd);
        assert_eq!(engine.state(), EngineState::Converting);
        let cands = engine.candidates().unwrap();
        assert!(!cands.is_empty());
        let i = out.candidate_index.unwrap();
        assert_eq!(out.display, cands[i]);
    }
}

#[test]
fn uppercase_is_lowered_before_conversion() {
    assert_eq!(convert("KA").output, "か");
    assert_eq!(convert_lowered("KA").output, "KA");
    assert_eq!(convert_lowered("ka").output, "か");
}

#[test]
fn backspace_removes_pending_then_output() {
    let mut state = InputState::new();
    for ch in "kak".chars() {
        state.feed_char(ch);
    }
    state.backspace();
    assert_eq!(state.output(), "か");
    assert_eq!(state.pending(), "");
    state.backspace();
    assert_eq!(state.output(), "");
    assert!(state.is_empty());
    state.backspace();
    assert!(state.is_empty());
}

#[test]
fn utf8_and_eucjp_bytes_give_the_same_dictionary() {
    let text = "にほん /日本/二本/\n";
    let utf8 = Dictionary::from_bytes(text.as_bytes());
    let (encoded, _, _) = encoding_rs::EUC_JP.encode(text);
    let euc = Dictionary::from_bytes(&encoded);
    assert_eq!(utf8.lookup("にほん").unwrap(), &["日本", "二本"]);
    assert_eq!(euc.lookup("にほん").unwrap(), &["日本", "二本"]);
}

#[test]
fn lines_for_one_reading_add_up_in_order() {
    let dict = Dictionary::from_text("かん /缶/\n;; comment\n\nかん /勘/缶/\nかい /貝/\n");
    assert_eq!(dict.lookup("かん").unwrap(), &["缶", "勘", "缶"]);
    let found = dict.lookup_prefix("か");
    let readings: Vec<&str> = found.iter().map(|(r, _)| *r).collect();
    assert_eq!(readings, vec!["かい", "かん"]);
}

#[test]
fn unicode_white_space_is_trimmed() {
    let result = parse_line("\u{3000}かんじ /漢字//;note/\u{3000}").unwrap();
    assert_eq!(result.0, "かんじ");
    assert_eq!(result.1, vec!["漢字"]);
    assert!(parse_line("かんじ").is_none());
    assert!(parse_line("かんじ //;x/").is_none());
}

#[test]
fn katakana_of_mixed_text() {
    assert_eq!(to_katakana("ぁゖ"), "ァヶ");
    assert_eq!(to_katakana("ー、"), "ー、");
}

#[test]
fn saved_text_is_sorted_with_header() {
    let mut ud = UserDictionary::new();
    ud.record("にほん", "日本");
    ud.record("かんじ", "漢字");
    ud.record("かんじ", "感じ");
    assert_eq!(ud.to_text(), ";; japinput ユーザー辞書\nかんじ /感じ/漢字/\nにほん /日本/\n");
    let loaded = UserDictionary::from_text("かんじ /a/b/\nかんじ /c/\n");
    assert_eq!(loaded.lookup("かんじ").unwrap(), &["c"]);
    assert!(!loaded.is_dirty());
}

#[test]
fn config_error_messages() {
    match Config::parse("toggle_key = \"x\"") {
        Err(ConfigError::Parse(m)) => assert_eq!(m, "不明な toggle_key: x"),
        Ok(_) => panic!("accepted a bad toggle key"),
    }
    match Config::parse("keybind_preset = vim") {
        Err(ConfigError::Parse(m)) => assert_eq!(m, "不正なプリセット名: vim (none, minimal, emacs のいずれか)"),
        Ok(_) => panic!("accepted a bad preset"),
    }
    match Config::parse("ctrl_j = \"jump\"\ntoggle_key = \"ctrl-space\"") {
        Err(ConfigError::Parse(m)) => assert_eq!(m, "不正なコマンド名: jump"),
        Ok(_) => panic!("accepted a bad command"),
    }
    assert_eq!(Config::default_toml(), DEFAULT_TOML);
}

#[test]
fn config_quotes_and_paths() {
    let config = Config::parse("system_dict_path = \"\"\"/d/x\"\"\nauto_learn = yes\n").unwrap();
    assert_eq!(config.system_dict_path, Some("/d/x".to_string()));
    assert!(!config.auto_learn);
}

#[test]
fn composition_edits_follow_output() {
    let out = |c: &str, d: &str| EngineOutput {
        committed: c.to_string(),
        display: d.to_string(),
        candidate_index: None,
    };
    assert_eq!(
        edit_action(&out("漢字", "あ"), true),
        Some(EditAction::CommitAndCompose { committed: "漢字".to_string(), display: "あ".to_string() })
    );
    assert_eq!(edit_action(&out("漢字", ""), true), Some(EditAction::CommitText("漢字".to_string())));
    assert_eq!(edit_action(&out("", "か"), false), Some(EditAction::SetText("か".to_string())));
    assert_eq!(edit_action(&out("", ""), true), Some(EditAction::EndComposition));
    assert_eq!(edit_action(&out("", ""), false), None);
}
