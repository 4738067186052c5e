use japinput::engine::EngineCommand;
use japinput::key_mapping::{
    map_key, CtrlKeyConfig, KeybindPreset, Modifiers, VK_0, VK_9, VK_A, VK_BACK, VK_DOWN, VK_ESCAPE,
    VK_F1, VK_G, VK_H, VK_J, VK_M, VK_N, VK_OEM_COMMA, VK_OEM_MINUS, VK_OEM_PERIOD, VK_P, VK_RETURN,
    VK_SPACE, VK_UP, VK_Z,
};

#[test]
fn preset_none_all_disabled() {
    let config = CtrlKeyConfig::from_preset(&KeybindPreset::Off);
    assert_eq!(config.ctrl_j, None);
    assert_eq!(config.ctrl_g, None);
    assert_eq!(config.ctrl_n, None);
    assert_eq!(config.ctrl_p, None);
    assert_eq!(config.ctrl_h, None);
    assert_eq!(config.ctrl_m, None);
}

#[test]
fn preset_minimal_only_safe_keys() {
    let config = CtrlKeyConfig::from_preset(&KeybindPreset::Minimal);
    assert_eq!(config.ctrl_j, Some(EngineCommand::Commit));
    assert_eq!(config.ctrl_g, Some(EngineCommand::Cancel));
    assert_eq!(config.ctrl_m, Some(EngineCommand::Commit));
    // 競合しやすいキーは無効
    assert_eq!(config.ctrl_n, None);
    assert_eq!(config.ctrl_p, None);
    assert_eq!(config.ctrl_h, None);
}

#[test]
fn preset_emacs_all_enabled() {
    let config = CtrlKeyConfig::from_preset(&KeybindPreset::Emacs);
    assert_eq!(config.ctrl_j, Some(EngineCommand::Commit));
    assert_eq!(config.ctrl_g, Some(EngineCommand::Cancel));
    assert_eq!(config.ctrl_n, Some(EngineCommand::NextCandidate));
    assert_eq!(config.ctrl_p, Some(EngineCommand::PrevCandidate));
    assert_eq!(config.ctrl_h, Some(EngineCommand::Backspace));
    assert_eq!(config.ctrl_m, Some(EngineCommand::Commit));
}

#[test]
fn default_is_none_preset() {
    let default = CtrlKeyConfig::default();
    let none = CtrlKeyConfig::from_preset(&KeybindPreset::Off);
    assert_eq!(default, none);
}

#[test]
fn emacs_ctrl_j_commits() {
    let config = CtrlKeyConfig::from_preset(&KeybindPreset::Emacs);
    let cmd = map_key(VK_J, &Modifiers::ctrl(), true, &config);
    assert_eq!(cmd, Some(EngineCommand::Commit));
}

#[test]
fn emacs_ctrl_g_cancels() {
    let config = CtrlKeyConfig::from_preset(&KeybindPreset::Emacs);
    let cmd = map_key(VK_G, &Modifiers::ctrl(), true, &config);
    assert_eq!(cmd, Some(EngineCommand::Cancel));
}

#[test]
fn emacs_ctrl_n_next_candidate() {
    let config = CtrlKeyConfig::from_preset(&KeybindPreset::Emacs);
    let cmd = map_key(VK_N, &Modifiers::ctrl(), true, &config);
    assert_eq!(cmd, Some(EngineCommand::NextCandidate));
}

#[test]
fn emacs_ctrl_p_prev_candidate() {
    let config = CtrlKeyConfig::from_preset(&KeybindPreset::Emacs);
    let cmd = map_key(VK_P, &Modifiers::ctrl(), true, &config);
    assert_eq!(cmd, Some(EngineCommand::PrevCandidate));
}

#[test]
fn emacs_ctrl_h_backspace() {
    let config = CtrlKeyConfig::from_preset(&KeybindPreset::Emacs);
    let cmd = map_key(VK_H, &Modifiers::ctrl(), true, &config);
    assert_eq!(cmd, Some(EngineCommand::Backspace));
}

#[test]
fn emacs_ctrl_m_commits() {
    let config = CtrlKeyConfig::from_preset(&KeybindPreset::Emacs);
    let cmd = map_key(VK_M, &Modifiers::ctrl(), true, &config);
    assert_eq!(cmd, Some(EngineCommand::Commit));
}

#[test]
fn minimal_ctrl_j_commits() {
    let config = CtrlKeyConfig::from_preset(&KeybindPreset::Minimal);
    let cmd = map_key(VK_J, &Modifiers::ctrl(), true, &config);
    assert_eq!(cmd, Some(EngineCommand::Commit));
}

#[test]
fn minimal_ctrl_n_returns_none() {
    let config = CtrlKeyConfig::from_preset(&KeybindPreset::Minimal);
    let cmd = map_key(VK_N, &Modifiers::ctrl(), true, &config);
    assert_eq!(cmd, None);
}

#[test]
fn minimal_ctrl_p_returns_none() {
    let config = CtrlKeyConfig::from_preset(&KeybindPreset::Minimal);
    let cmd = map_key(VK_P, &Modifiers::ctrl(), true, &config);
    assert_eq!(cmd, None);
}

#[test]
fn minimal_ctrl_h_returns_none() {
    let config = CtrlKeyConfig::from_preset(&KeybindPreset::Minimal);
    let cmd = map_key(VK_H, &Modifiers::ctrl(), true, &config);
    assert_eq!(cmd, None);
}

#[test]
fn none_preset_ctrl_j_returns_none() {
    let config = CtrlKeyConfig::from_preset(&KeybindPreset::Off);
    let cmd = map_key(VK_J, &Modifiers::ctrl(), true, &config);
    assert_eq!(cmd, None);
}

#[test]
fn ctrl_other_returns_none() {
    let config = CtrlKeyConfig::from_preset(&KeybindPreset::Emacs);
    let cmd = map_key(VK_A, &Modifiers::ctrl(), true, &config);
    assert_eq!(cmd, None);
}

#[test]
fn ctrl_alt_returns_none() {
    let config = CtrlKeyConfig::from_preset(&KeybindPreset::Emacs);
    let cmd = map_key(VK_J, &Modifiers::ctrl_alt(), true, &config);
    assert_eq!(cmd, None);
}

#[test]
fn emacs_override_ctrl_n_none() {
    let mut config = CtrlKeyConfig::from_preset(&KeybindPreset::Emacs);
    config.ctrl_n = None;
    let cmd = map_key(VK_N, &Modifiers::ctrl(), true, &config);
    assert_eq!(cmd, None);
    // 他のキーは影響なし
    let cmd = map_key(VK_J, &Modifiers::ctrl(), true, &config);
    assert_eq!(cmd, Some(EngineCommand::Commit));
}

#[test]
fn none_override_ctrl_j_commit() {
    let mut config = CtrlKeyConfig::from_preset(&KeybindPreset::Off);
    config.ctrl_j = Some(EngineCommand::Commit);
    let cmd = map_key(VK_J, &Modifiers::ctrl(), true, &config);
    assert_eq!(cmd, Some(EngineCommand::Commit));
    // 他は引き続き無効
    let cmd = map_key(VK_G, &Modifiers::ctrl(), true, &config);
    assert_eq!(cmd, None);
}

#[test]
fn minimal_override_ctrl_h_backspace() {
    let mut config = CtrlKeyConfig::from_preset(&KeybindPreset::Minimal);
    config.ctrl_h = Some(EngineCommand::Backspace);
    let cmd = map_key(VK_H, &Modifiers::ctrl(), true, &config);
    assert_eq!(cmd, Some(EngineCommand::Backspace));
}

#[test]
fn alphabet_key_lowercase() {
    let config = CtrlKeyConfig::default();
    let cmd = map_key(VK_A, &Modifiers::none(), true, &config);
    assert_eq!(cmd, Some(EngineCommand::InsertChar('a')));
}

#[test]
fn alphabet_key_all_letters() {
    let config = CtrlKeyConfig::default();
    for vk in VK_A..=VK_Z {
        let cmd = map_key(vk, &Modifiers::none(), true, &config);
        let expected_char = (b'a' + (vk - VK_A) as u8) as char;
        assert_eq!(cmd, Some(EngineCommand::InsertChar(expected_char)));
    }
}

#[test]
fn space_key_converts() {
    let config = CtrlKeyConfig::default();
    let cmd = map_key(VK_SPACE, &Modifiers::none(), true, &config);
    assert_eq!(cmd, Some(EngineCommand::Convert));
}

#[test]
fn enter_key_commits() {
    let config = CtrlKeyConfig::default();
    let cmd = map_key(VK_RETURN, &Modifiers::none(), true, &config);
    assert_eq!(cmd, Some(EngineCommand::Commit));
}

#[test]
fn escape_key_cancels() {
    let config = CtrlKeyConfig::default();
    let cmd = map_key(VK_ESCAPE, &Modifiers::none(), true, &config);
    assert_eq!(cmd, Some(EngineCommand::Cancel));
}

#[test]
fn backspace_key() {
    let config = CtrlKeyConfig::default();
    let cmd = map_key(VK_BACK, &Modifiers::none(), true, &config);
    assert_eq!(cmd, Some(EngineCommand::Backspace));
}

#[test]
fn down_arrow_next_candidate() {
    let config = CtrlKeyConfig::default();
    let cmd = map_key(VK_DOWN, &Modifiers::none(), true, &config);
    assert_eq!(cmd, Some(EngineCommand::NextCandidate));
}

#[test]
fn up_arrow_prev_candidate() {
    let config = CtrlKeyConfig::default();
    let cmd = map_key(VK_UP, &Modifiers::none(), true, &config);
    assert_eq!(cmd, Some(EngineCommand::PrevCandidate));
}

#[test]
fn ime_off_returns_none() {
    let config = CtrlKeyConfig::default();
    let cmd = map_key(VK_A, &Modifiers::none(), false, &config);
    assert_eq!(cmd, None);
}

#[test]
fn ime_off_space_returns_none() {
    let config = CtrlKeyConfig::default();
    let cmd = map_key(VK_SPACE, &Modifiers::none(), false, &config);
    assert_eq!(cmd, None);
}

#[test]
fn ctrl_key_with_default_returns_none() {
    // デフォルト (None プリセット) では Ctrl+A は None
    let config = CtrlKeyConfig::default();
    let cmd = map_key(VK_A, &Modifiers::ctrl(), true, &config);
    assert_eq!(cmd, None);
}

#[test]
fn alt_key_returns_none() {
    let config = CtrlKeyConfig::default();
    let cmd = map_key(VK_A, &Modifiers::alt(), true, &config);
    assert_eq!(cmd, None);
}

#[test]
fn shift_alphabet_uppercase() {
    let config = CtrlKeyConfig::default();
    let cmd = map_key(VK_A, &Modifiers::shift(), true, &config);
    assert_eq!(cmd, Some(EngineCommand::InsertChar('A')));
}

#[test]
fn function_keys_return_none() {
    let config = CtrlKeyConfig::default();
    let cmd = map_key(VK_F1, &Modifiers::none(), true, &config);
    assert_eq!(cmd, None);
}

#[test]
fn number_key_0() {
    let config = CtrlKeyConfig::default();
    let cmd = map_key(VK_0, &Modifiers::none(), true, &config);
    assert_eq!(cmd, Some(EngineCommand::InsertChar('0')));
}

#[test]
fn number_key_9() {
    let config = CtrlKeyConfig::default();
    let cmd = map_key(VK_9, &Modifiers::none(), true, &config);
    assert_eq!(cmd, Some(EngineCommand::InsertChar('9')));
}

#[test]
fn number_keys_all() {
    let config = CtrlKeyConfig::default();
    for vk in VK_0..=VK_9 {
        let cmd = map_key(vk, &Modifiers::none(), true, &config);
        let expected_char = (b'0' + (vk - VK_0) as u8) as char;
        assert_eq!(cmd, Some(EngineCommand::InsertChar(expected_char)));
    }
}

#[test]
fn number_key_with_shift_returns_none() {
    // Shift+数字はシステムに処理を委ねる（! @ # 等）
    let config = CtrlKeyConfig::default();
    let cmd = map_key(VK_0, &Modifiers::shift(), true, &config);
    assert_eq!(cmd, None);
}

#[test]
fn minus_key_inserts_minus() {
    let config = CtrlKeyConfig::default();
    let cmd = map_key(VK_OEM_MINUS, &Modifiers::none(), true, &config);
    assert_eq!(cmd, Some(EngineCommand::InsertChar('-')));
}

#[test]
fn period_key_inserts_period() {
    let config = CtrlKeyConfig::default();
    let cmd = map_key(VK_OEM_PERIOD, &Modifiers::none(), true, &config);
    assert_eq!(cmd, Some(EngineCommand::InsertChar('.')));
}

#[test]
fn comma_key_inserts_comma() {
    let config = CtrlKeyConfig::default();
    let cmd = map_key(VK_OEM_COMMA, &Modifiers::none(), true, &config);
    assert_eq!(cmd, Some(EngineCommand::InsertChar(',')));
}
