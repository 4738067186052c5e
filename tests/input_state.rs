use japinput::input_state::InputState;
use japinput::romaji;

#[test]
fn feed_single_vowel() {
    let mut state = InputState::new();
    state.feed_char('a');
    assert_eq!(state.output(), "あ");
    assert_eq!(state.pending(), "");
}

#[test]
fn feed_consonant_then_vowel() {
    let mut state = InputState::new();
    state.feed_char('k');
    assert_eq!(state.output(), "");
    assert_eq!(state.pending(), "k");
    state.feed_char('a');
    assert_eq!(state.output(), "か");
    assert_eq!(state.pending(), "");
}

#[test]
fn feed_sequence_aiueo() {
    let mut state = InputState::new();
    for ch in "aiueo".chars() {
        state.feed_char(ch);
    }
    assert_eq!(state.output(), "あいうえお");
    assert_eq!(state.pending(), "");
}

#[test]
fn feed_sokuon() {
    let mut state = InputState::new();
    for ch in "kakko".chars() {
        state.feed_char(ch);
    }
    assert_eq!(state.output(), "かっこ");
}

#[test]
fn feed_nn() {
    let mut state = InputState::new();
    state.feed_char('n');
    state.feed_char('n');
    assert_eq!(state.output(), "ん");
    assert_eq!(state.pending(), "n");
}

#[test]
fn feed_n_before_consonant() {
    let mut state = InputState::new();
    for ch in "kanta".chars() {
        state.feed_char(ch);
    }
    assert_eq!(state.output(), "かんた");
}

#[test]
fn flush_trailing_n() {
    let mut state = InputState::new();
    for ch in "kan".chars() {
        state.feed_char(ch);
    }
    assert_eq!(state.output(), "か");
    assert_eq!(state.pending(), "n");
    state.flush();
    assert_eq!(state.output(), "かん");
    assert_eq!(state.pending(), "");
}

#[test]
fn flush_empty_pending() {
    let mut state = InputState::new();
    for ch in "ka".chars() {
        state.feed_char(ch);
    }
    state.flush();
    assert_eq!(state.output(), "か");
    assert_eq!(state.pending(), "");
}

#[test]
fn reset_clears_all() {
    let mut state = InputState::new();
    for ch in "ka".chars() {
        state.feed_char(ch);
    }
    state.reset();
    assert_eq!(state.output(), "");
    assert_eq!(state.pending(), "");
}

#[test]
fn matches_batch_convert() {
    let input = "konnichiwa";
    let batch = romaji::convert(input);

    let mut state = InputState::new();
    for ch in input.chars() {
        state.feed_char(ch);
    }
    state.flush();

    // flush 後の output は convert の output + pending を確定した結果と一致する
    assert_eq!(state.output(), batch.output);
}

#[test]
fn matches_batch_convert_toukyou() {
    let input = "toukyou";
    let batch = romaji::convert(input);

    let mut state = InputState::new();
    for ch in input.chars() {
        state.feed_char(ch);
    }
    state.flush();

    assert_eq!(state.output(), batch.output);
}
