//! Settings: a small `key = value` subset of TOML with defaults.

use vstd::prelude::*;

use crate::engine::EngineCommand;
use crate::key_mapping::{preset_bindings, CtrlKeyConfig, KeybindPreset};
use crate::text::{
    chars_of, chars_start_with, lemma_split_after_separator, push_str, slice_chars, split_on, string_from,
    trim, trim_chars,
};

verus! {

/// The settings file written when there is none: the defaults, with comments.
pub const DEFAULT_TOML: &'static str = "# japinput 設定ファイル\n\n[general]\n# 入力モード切り替えキー: \"zenkaku-hankaku\" | \"ctrl-space\" | \"alt-tilde\"\ntoggle_key = \"zenkaku-hankaku\"\n# キーバインドプリセット: \"none\" | \"minimal\" | \"emacs\"\nkeybind_preset = \"none\"\n\n[dictionary]\n# システム辞書パス（空の場合は DLL と同じディレクトリの dict/ を使用）\nsystem_dict_path = \"\"\n\n[behavior]\n# 候補選択後に自動的に学習するか\nauto_learn = true\n\n# [keybind]\n# プリセットをベースに個別のキーを上書きする。\n# 値: commit, cancel, next, prev, backspace, convert, none\n# ctrl_j = \"commit\"\n# ctrl_g = \"cancel\"\n";

/// A settings error.
#[derive(Debug)]
pub enum ConfigError {
    /// A value that the setting does not accept, with a message.
    Parse(String),
}

/// The key that switches the input method on and off.
#[derive(Debug, Clone, Copy, PartialEq, Eq, Structural)]
pub enum ToggleKey {
    ZenkakuHankaku,
    CtrlSpace,
    AltTilde,
}

/// Application settings.
#[derive(Debug, Clone, PartialEq, Eq)]
pub struct Config {
    pub toggle_key: ToggleKey,
    pub system_dict_path: Option<String>,
    pub auto_learn: bool,
    pub keybind_preset: KeybindPreset,
    pub keybind: CtrlKeyConfig,
}

/// Abstract value of a `Config`.
pub struct ConfigView {
    pub toggle_key: ToggleKey,
    pub system_dict_path: Option<Seq<char>>,
    pub auto_learn: bool,
    pub keybind_preset: KeybindPreset,
    pub keybind: CtrlKeyConfig,
}

pub open spec fn config_view(c: Config) -> ConfigView {
    ConfigView {
        toggle_key: c.toggle_key,
        system_dict_path: match c.system_dict_path {
            Some(p) => Some(p@),
            None => None,
        },
        auto_learn: c.auto_learn,
        keybind_preset: c.keybind_preset,
        keybind: c.keybind,
    }
}

pub open spec fn default_view() -> ConfigView {
    ConfigView {
        toggle_key: ToggleKey::ZenkakuHankaku,
        system_dict_path: None,
        auto_learn: true,
        keybind_preset: KeybindPreset::Off,
        keybind: preset_bindings(KeybindPreset::Off),
    }
}

/// `s` without the double quotes at either end.
pub open spec fn strip_quotes(s: Seq<char>) -> Seq<char>
    decreases s.len(),
{
    if s.len() > 0 && s[0] == '"' {
        strip_quotes(s.drop_first())
    } else if s.len() > 0 && s.last() == '"' {
        strip_quotes(s.drop_last())
    } else {
        s
    }
}

/// The first index at or after `i` that holds `=`.
pub open spec fn equals_index(t: Seq<char>, i: int) -> Option<int>
    decreases t.len() - i,
{
    if i < 0 || i >= t.len() {
        None
    } else if t[i] == '=' {
        Some(i)
    } else {
        equals_index(t, i + 1)
    }
}

/// The `(key, value)` of a settings line; `None` for a blank line, a comment
/// (`#`), a section header (`[`), or a line without `=`.
pub open spec fn setting_of_line(line: Seq<char>) -> Option<(Seq<char>, Seq<char>)> {
    let t = trim(line);
    if t.len() == 0 || t[0] == '#' || t[0] == '[' {
        None
    } else {
        match equals_index(t, 0) {
            None => None,
            Some(k) => Some((trim(t.subrange(0, k)), strip_quotes(trim(t.subrange(k + 1, t.len() as int))))),
        }
    }
}

/// Settings read so far, with the Ctrl-key overrides not applied yet.
pub struct Draft {
    pub toggle_key: ToggleKey,
    pub system_dict_path: Option<Seq<char>>,
    pub auto_learn: bool,
    pub keybind_preset: KeybindPreset,
    pub overrides: Seq<(Seq<char>, Seq<char>)>,
}

pub open spec fn default_draft() -> Draft {
    Draft {
        toggle_key: ToggleKey::ZenkakuHankaku,
        system_dict_path: None,
        auto_learn: true,
        keybind_preset: KeybindPreset::Off,
        overrides: Seq::empty(),
    }
}

pub open spec fn toggle_key_of(value: Seq<char>) -> Result<ToggleKey, Seq<char>> {
    if value == "zenkaku-hankaku"@ {
        Ok(ToggleKey::ZenkakuHankaku)
    } else if value == "ctrl-space"@ {
        Ok(ToggleKey::CtrlSpace)
    } else if value == "alt-tilde"@ {
        Ok(ToggleKey::AltTilde)
    } else {
        Err("不明な toggle_key: "@ + value)
    }
}

pub open spec fn preset_of(value: Seq<char>) -> Result<KeybindPreset, Seq<char>> {
    if value == "none"@ {
        Ok(KeybindPreset::Off)
    } else if value == "minimal"@ {
        Ok(KeybindPreset::Minimal)
    } else if value == "emacs"@ {
        Ok(KeybindPreset::Emacs)
    } else {
        Err("不正なプリセット名: "@ + value + " (none, minimal, emacs のいずれか)"@)
    }
}

pub open spec fn command_of(value: Seq<char>) -> Result<Option<EngineCommand>, Seq<char>> {
    if value == "commit"@ {
        Ok(Some(EngineCommand::Commit))
    } else if value == "cancel"@ {
        Ok(Some(EngineCommand::Cancel))
    } else if value == "next"@ {
        Ok(Some(EngineCommand::NextCandidate))
    } else if value == "prev"@ {
        Ok(Some(EngineCommand::PrevCandidate))
    } else if value == "backspace"@ {
        Ok(Some(EngineCommand::Backspace))
    } else if value == "convert"@ {
        Ok(Some(EngineCommand::Convert))
    } else if value == "none"@ {
        Ok(None)
    } else {
        Err("不正なコマンド名: "@ + value)
    }
}

/// One setting applied to the draft; unknown keys are ignored, `ctrl_*` keys are
/// kept for later.
pub open spec fn apply_setting(d: Draft, key: Seq<char>, value: Seq<char>) -> Result<Draft, Seq<char>> {
    if key == "toggle_key"@ {
        match toggle_key_of(value) {
            Ok(t) => Ok(Draft { toggle_key: t, ..d }),
            Err(e) => Err(e),
        }
    } else if key == "system_dict_path"@ {
        Ok(Draft { system_dict_path: if value.len() == 0 { None } else { Some(value) }, ..d })
    } else if key == "auto_learn"@ {
        Ok(Draft { auto_learn: value == "true"@, ..d })
    } else if key == "keybind_preset"@ {
        match preset_of(value) {
            Ok(p) => Ok(Draft { keybind_preset: p, ..d }),
            Err(e) => Err(e),
        }
    } else if "ctrl_"@.len() <= key.len() && key.subrange(0, "ctrl_"@.len() as int) == "ctrl_"@ {
        Ok(Draft { overrides: d.overrides.push((key, value)), ..d })
    } else {
        Ok(d)
    }
}

/// The draft after all of `lines`, or the first error.
pub open spec fn draft_of_lines(lines: Seq<Seq<char>>) -> Result<Draft, Seq<char>>
    decreases lines.len(),
{
    if lines.len() == 0 {
        Ok(default_draft())
    } else {
        match draft_of_lines(lines.drop_last()) {
            Err(e) => Err(e),
            Ok(d) => match setting_of_line(lines.last()) {
                None => Ok(d),
                Some((k, v)) => apply_setting(d, k, v),
            },
        }
    }
}

/// `cfg` with the binding of one Ctrl key replaced; unknown keys are ignored.
pub open spec fn set_binding(cfg: CtrlKeyConfig, key: Seq<char>, cmd: Option<EngineCommand>) -> CtrlKeyConfig {
    if key == "ctrl_g"@ {
        CtrlKeyConfig { ctrl_g: cmd, ..cfg }
    } else if key == "ctrl_h"@ {
        CtrlKeyConfig { ctrl_h: cmd, ..cfg }
    } else if key == "ctrl_j"@ {
        CtrlKeyConfig { ctrl_j: cmd, ..cfg }
    } else if key == "ctrl_m"@ {
        CtrlKeyConfig { ctrl_m: cmd, ..cfg }
    } else if key == "ctrl_n"@ {
        CtrlKeyConfig { ctrl_n: cmd, ..cfg }
    } else if key == "ctrl_p"@ {
        CtrlKeyConfig { ctrl_p: cmd, ..cfg }
    } else {
        cfg
    }
}

/// The bindings after the overrides, in order, or the first bad command.
pub open spec fn apply_overrides(cfg: CtrlKeyConfig, ovs: Seq<(Seq<char>, Seq<char>)>) -> Result<
    CtrlKeyConfig,
    Seq<char>,
>
    decreases ovs.len(),
{
    if ovs.len() == 0 {
        Ok(cfg)
    } else {
        match apply_overrides(cfg, ovs.drop_last()) {
            Err(e) => Err(e),
            Ok(c) => match command_of(ovs.last().1) {
                Err(e) => Err(e),
                Ok(cmd) => Ok(set_binding(c, ovs.last().0, cmd)),
            },
        }
    }
}

/// The settings a text describes: defaults, then each line, then the preset's
/// bindings with the Ctrl-key overrides on top; or the first error message.
pub open spec fn config_of_text(text: Seq<char>) -> Result<ConfigView, Seq<char>> {
    match draft_of_lines(split_on(text, '\n')) {
        Err(e) => Err(e),
        Ok(d) => match apply_overrides(preset_bindings(d.keybind_preset), d.overrides) {
            Err(e) => Err(e),
            Ok(kb) => Ok(
                ConfigView {
                    toggle_key: d.toggle_key,
                    system_dict_path: d.system_dict_path,
                    auto_learn: d.auto_learn,
                    keybind_preset: d.keybind_preset,
                    keybind: kb,
                },
            ),
        },
    }
}

/// Whether `a` and `b` hold the same characters.
fn chars_eq(a: &Vec<char>, b: &Vec<char>) -> (r: bool)
    ensures
        r == (a@ == b@),
{
    if a.len() != b.len() {
        return false;
    }
    let r = chars_start_with(a, b);
    if r {
        assert(a@.subrange(0, b@.len() as int) =~= a@);
    } else {
        assert(a@.subrange(0, b@.len() as int) =~= a@);
    }
    r
}

/// Whether `a` holds the characters of `lit`.
fn is_word(a: &Vec<char>, lit: &str) -> (r: bool)
    ensures
        r == (a@ == lit@),
{
    let l = chars_of(lit);
    chars_eq(a, &l)
}

/// A message: `head` followed by `value` and `tail`.
fn message(head: &str, value: &Vec<char>, tail: &str) -> (r: String)
    ensures
        r@ == head@ + value@ + tail@,
{
    let mut m = head.to_string();
    let v = string_from(value);
    push_str(&mut m, v.as_str());
    push_str(&mut m, tail);
    m
}

fn parse_toggle_key(value: &Vec<char>) -> (r: Result<ToggleKey, ConfigError>)
    ensures
        match r {
            Ok(t) => toggle_key_of(value@) == Ok::<ToggleKey, Seq<char>>(t),
            Err(ConfigError::Parse(m)) => toggle_key_of(value@) == Err::<ToggleKey, Seq<char>>(m@),
        },
{
    if is_word(value, "zenkaku-hankaku") {
        Ok(ToggleKey::ZenkakuHankaku)
    } else if is_word(value, "ctrl-space") {
        Ok(ToggleKey::CtrlSpace)
    } else if is_word(value, "alt-tilde") {
        Ok(ToggleKey::AltTilde)
    } else {
        let m = message("不明な toggle_key: ", value, "");
        proof {
            reveal_strlit("");
            assert("不明な toggle_key: "@ + value@ + ""@ =~= "不明な toggle_key: "@ + value@);
        }
        Err(ConfigError::Parse(m))
    }
}

fn parse_preset(value: &Vec<char>) -> (r: Result<KeybindPreset, ConfigError>)
    ensures
        match r {
            Ok(p) => preset_of(value@) == Ok::<KeybindPreset, Seq<char>>(p),
            Err(ConfigError::Parse(m)) => preset_of(value@) == Err::<KeybindPreset, Seq<char>>(m@),
        },
{
    if is_word(value, "none") {
        Ok(KeybindPreset::Off)
    } else if is_word(value, "minimal") {
        Ok(KeybindPreset::Minimal)
    } else if is_word(value, "emacs") {
        Ok(KeybindPreset::Emacs)
    } else {
        Err(ConfigError::Parse(message("不正なプリセット名: ", value, " (none, minimal, emacs のいずれか)")))
    }
}

fn parse_command(value: &Vec<char>) -> (r: Result<Option<EngineCommand>, ConfigError>)
    ensures
        match r {
            Ok(c) => command_of(value@) == Ok::<Option<EngineCommand>, Seq<char>>(c),
            Err(ConfigError::Parse(m)) => command_of(value@) == Err::<Option<EngineCommand>, Seq<char>>(m@),
        },
{
    if is_word(value, "commit") {
        Ok(Some(EngineCommand::Commit))
    } else if is_word(value, "cancel") {
        Ok(Some(EngineCommand::Cancel))
    } else if is_word(value, "next") {
        Ok(Some(EngineCommand::NextCandidate))
    } else if is_word(value, "prev") {
        Ok(Some(EngineCommand::PrevCandidate))
    } else if is_word(value, "backspace") {
        Ok(Some(EngineCommand::Backspace))
    } else if is_word(value, "convert") {
        Ok(Some(EngineCommand::Convert))
    } else if is_word(value, "none") {
        Ok(None)
    } else {
        let m = message("不正なコマンド名: ", value, "");
        proof {
            reveal_strlit("");
            assert("不正なコマンド名: "@ + value@ + ""@ =~= "不正なコマンド名: "@ + value@);
        }
        Err(ConfigError::Parse(m))
    }
}

/// `v` without the double quotes at either end.
fn strip_quotes_chars(v: &Vec<char>) -> (r: Vec<char>)
    ensures
        r@ == strip_quotes(v@),
{
    let mut start: usize = 0;
    assert(v@.subrange(0, v@.len() as int) =~= v@);
    while start < v.len() && v[start] == '"'
        invariant
            start <= v@.len(),
            strip_quotes(v@) == strip_quotes(v@.subrange(start as int, v@.len() as int)),
        decreases v@.len() - start,
    {
        assert(v@.subrange(start as int, v@.len() as int).drop_first() =~= v@.subrange(start + 1, v@.len() as int));
        start = start + 1;
    }
    let mut end: usize = v.len();
    while end > start && v[end - 1] == '"'
        invariant
            start <= end <= v@.len(),
            start < v@.len() ==> v@[start as int] != '"',
            strip_quotes(v@) == strip_quotes(v@.subrange(start as int, end as int)),
        decreases end,
    {
        assert(v@.subrange(start as int, end as int).drop_last() =~= v@.subrange(start as int, end - 1));
        end = end - 1;
    }
    slice_chars(v, start, end)
}

/// The `(key, value)` of a settings line, if it holds one.
fn setting_of_line_chars(line: &Vec<char>) -> (r: Option<(Vec<char>, Vec<char>)>)
    ensures
        match r {
            Some((k, v)) => setting_of_line(line@) == Some((k@, v@)),
            None => setting_of_line(line@) is None,
        },
{
    let t = trim_chars(line);
    if t.len() == 0 || t[0] == '#' || t[0] == '[' {
        return None;
    }
    let mut k: usize = 0;
    while k < t.len() && t[k] != '='
        invariant
            k <= t@.len(),
            equals_index(t@, 0) == equals_index(t@, k as int),
        decreases t@.len() - k,
    {
        k = k + 1;
    }
    if k == t.len() {
        return None;
    }
    let head = slice_chars(&t, 0, k);
    let key = trim_chars(&head);
    let tail = slice_chars(&t, k + 1, t.len());
    let trimmed = trim_chars(&tail);
    let value = strip_quotes_chars(&trimmed);
    Some((key, value))
}

/// Settings read so far.
struct DraftState {
    toggle_key: ToggleKey,
    system_dict_path: Option<String>,
    auto_learn: bool,
    keybind_preset: KeybindPreset,
    overrides: Vec<(Vec<char>, Vec<char>)>,
}

spec fn draft_view(d: &DraftState) -> Draft {
    Draft {
        toggle_key: d.toggle_key,
        system_dict_path: match d.system_dict_path {
            Some(p) => Some(p@),
            None => None,
        },
        auto_learn: d.auto_learn,
        keybind_preset: d.keybind_preset,
        overrides: d.overrides@.map_values(|o: (Vec<char>, Vec<char>)| (o.0@, o.1@)),
    }
}

/// Applies one setting.
fn apply_setting_exec(d: &mut DraftState, key: Vec<char>, value: Vec<char>) -> (r: Result<(), ConfigError>)
    ensures
        match r {
            Ok(()) => apply_setting(draft_view(old(d)), key@, value@) == Ok::<Draft, Seq<char>>(draft_view(final(d))),
            Err(ConfigError::Parse(m)) => apply_setting(draft_view(old(d)), key@, value@) == Err::<Draft, Seq<char>>(m@),
        },
{
    let ctrl = chars_of("ctrl_");
    if is_word(&key, "toggle_key") {
        match parse_toggle_key(&value) {
            Ok(t) => {
                d.toggle_key = t;
                Ok(())
            },
            Err(e) => Err(e),
        }
    } else if is_word(&key, "system_dict_path") {
        if value.len() == 0 {
            d.system_dict_path = None;
        } else {
            d.system_dict_path = Some(string_from(&value));
        }
        Ok(())
    } else if is_word(&key, "auto_learn") {
        d.auto_learn = is_word(&value, "true");
        Ok(())
    } else if is_word(&key, "keybind_preset") {
        match parse_preset(&value) {
            Ok(p) => {
                d.keybind_preset = p;
                Ok(())
            },
            Err(e) => Err(e),
        }
    } else if chars_start_with(&key, &ctrl) {
        let ghost before = d.overrides@;
        d.overrides.push((key, value));
        assert(d.overrides@.map_values(|o: (Vec<char>, Vec<char>)| (o.0@, o.1@)) =~= before.map_values(
            |o: (Vec<char>, Vec<char>)| (o.0@, o.1@),
        ).push((key@, value@)));
        Ok(())
    } else {
        Ok(())
    }
}

/// One Ctrl-key binding replaced.
fn set_binding_exec(cfg: &mut CtrlKeyConfig, key: &Vec<char>, cmd: Option<EngineCommand>)
    ensures
        *final(cfg) == set_binding(*old(cfg), key@, cmd),
{
    if is_word(key, "ctrl_g") {
        cfg.ctrl_g = cmd;
    } else if is_word(key, "ctrl_h") {
        cfg.ctrl_h = cmd;
    } else if is_word(key, "ctrl_j") {
        cfg.ctrl_j = cmd;
    } else if is_word(key, "ctrl_m") {
        cfg.ctrl_m = cmd;
    } else if is_word(key, "ctrl_n") {
        cfg.ctrl_n = cmd;
    } else if is_word(key, "ctrl_p") {
        cfg.ctrl_p = cmd;
    }
}

/// Once the settings have failed, later lines do not matter.
proof fn lemma_draft_error_stays(a: Seq<Seq<char>>, b: Seq<Seq<char>>)
    requires
        draft_of_lines(a) is Err,
    ensures
        draft_of_lines(a + b) == draft_of_lines(a),
    decreases b.len(),
{
    if b.len() == 0 {
        assert(a + b =~= a);
    } else {
        lemma_draft_error_stays(a, b.drop_last());
        assert((a + b).drop_last() =~= a + b.drop_last());
    }
}

/// Once an override has failed, later overrides do not matter.
proof fn lemma_override_error_stays(cfg: CtrlKeyConfig, a: Seq<(Seq<char>, Seq<char>)>, b: Seq<(Seq<char>, Seq<char>)>)
    requires
        apply_overrides(cfg, a) is Err,
    ensures
        apply_overrides(cfg, a + b) == apply_overrides(cfg, a),
    decreases b.len(),
{
    if b.len() == 0 {
        assert(a + b =~= a);
    } else {
        lemma_override_error_stays(cfg, a, b.drop_last());
        assert((a + b).drop_last() =~= a + b.drop_last());
    }
}

impl Config {
    /// The defaults: Zenkaku/Hankaku toggles, no dictionary path, learning on,
    /// no Ctrl bindings.
    pub fn default_config() -> (r: Self)
        ensures
            config_view(r) == default_view(),
    {
        Config {
            toggle_key: ToggleKey::ZenkakuHankaku,
            system_dict_path: None,
            auto_learn: true,
            keybind_preset: KeybindPreset::Off,
            keybind: CtrlKeyConfig::from_preset(&KeybindPreset::Off),
        }
    }

    /// Parses settings text; the first bad value is an error.
    pub fn parse(text: &str) -> (r: Result<Self, ConfigError>)
        ensures
            match r {
                Ok(c) => config_of_text(text@) == Ok::<ConfigView, Seq<char>>(config_view(c)),
                Err(ConfigError::Parse(m)) => config_of_text(text@) == Err::<ConfigView, Seq<char>>(m@),
            },
    {
        let cs = chars_of(text);
        let mut d = DraftState {
            toggle_key: ToggleKey::ZenkakuHankaku,
            system_dict_path: None,
            auto_learn: true,
            keybind_preset: KeybindPreset::Off,
            overrides: Vec::new(),
        };
        assert(draft_view(&d) == default_draft()) by {
            assert(d.overrides@.map_values(|o: (Vec<char>, Vec<char>)| (o.0@, o.1@)) =~= Seq::<(Seq<char>, Seq<char>)>::empty());
        }
        let mut line: Vec<char> = Vec::new();
        let mut i: usize = 0;
        assert(cs@.subrange(0, 0) =~= Seq::<char>::empty());
        assert(split_on(Seq::<char>::empty(), '\n') == seq![Seq::<char>::empty()]);
        assert(seq![Seq::<char>::empty()].drop_last() =~= Seq::<Seq<char>>::empty());
        while i < cs.len()
            invariant
                i <= cs@.len(),
                cs@ == text@,
                split_on(cs@.subrange(0, i as int), '\n').len() >= 1,
                draft_of_lines(split_on(cs@.subrange(0, i as int), '\n').drop_last()) == Ok::<Draft, Seq<char>>(draft_view(&d)),
                line@ == split_on(cs@.subrange(0, i as int), '\n').last(),
            decreases cs@.len() - i,
        {
            let ghost lines = split_on(cs@.subrange(0, i as int), '\n');
            let ghost next = cs@.subrange(0, i + 1);
            assert(next.drop_last() =~= cs@.subrange(0, i as int));
            let c = cs[i];
            if c == '\n' {
                assert(split_on(next, '\n') == lines.push(Seq::empty()));
                assert(lines.push(Seq::empty()).drop_last() =~= lines);
                if let Some((key, value)) = setting_of_line_chars(&line) {
                    if let Err(e) = apply_setting_exec(&mut d, key, value) {
                        proof {
                            let rest = cs@.subrange(i + 1, cs@.len() as int);
                            assert(next + rest =~= cs@);
                            lemma_split_after_separator(next, rest, '\n');
                            assert(lines.push(Seq::empty()).drop_last() =~= lines);
                            lemma_draft_error_stays(lines, split_on(rest, '\n'));
                        }
                        return Err(e);
                    }
                }
                line = Vec::new();
            } else {
                assert(split_on(next, '\n') == lines.update(lines.len() - 1, lines.last().push(c)));
                assert(lines.update(lines.len() - 1, lines.last().push(c)).drop_last() =~= lines.drop_last());
                line.push(c);
            }
            i = i + 1;
        }
        assert(cs@.subrange(0, cs@.len() as int) =~= cs@);
        if let Some((key, value)) = setting_of_line_chars(&line) {
            if let Err(e) = apply_setting_exec(&mut d, key, value) {
                return Err(e);
            }
        }
        let ghost ovs = draft_view(&d).overrides;
        let mut keybind = CtrlKeyConfig::from_preset(&d.keybind_preset);
        let mut j: usize = 0;
        while j < d.overrides.len()
            invariant
                j <= d.overrides@.len(),
                draft_of_lines(split_on(text@, '\n')) == Ok::<Draft, Seq<char>>(draft_view(&d)),
                ovs == d.overrides@.map_values(|o: (Vec<char>, Vec<char>)| (o.0@, o.1@)),
                apply_overrides(preset_bindings(d.keybind_preset), ovs.subrange(0, j as int)) == Ok::<CtrlKeyConfig, Seq<char>>(keybind),
            decreases d.overrides@.len() - j,
        {
            assert(ovs.subrange(0, j + 1).drop_last() =~= ovs.subrange(0, j as int));
            assert(ovs.subrange(0, j + 1).last() == (d.overrides@[j as int].0@, d.overrides@[j as int].1@));
            match parse_command(&d.overrides[j].1) {
                Ok(cmd) => set_binding_exec(&mut keybind, &d.overrides[j].0, cmd),
                Err(e) => {
                    proof {
                        let a = ovs.subrange(0, j + 1);
                        let b = ovs.subrange(j + 1, ovs.len() as int);
                        assert(a + b =~= ovs);
                        lemma_override_error_stays(preset_bindings(d.keybind_preset), a, b);
                    }
                    return Err(e);
                },
            }
            j = j + 1;
        }
        assert(ovs.subrange(0, ovs.len() as int) =~= ovs);
        Ok(Config {
            toggle_key: d.toggle_key,
            system_dict_path: d.system_dict_path,
            auto_learn: d.auto_learn,
            keybind_preset: d.keybind_preset,
            keybind,
        })
    }

    /// The text of a settings file that holds the defaults, with comments.
    pub fn default_toml() -> (r: String)
        ensures
            r@ == DEFAULT_TOML@,
    {
        let r = DEFAULT_TOML.to_string();
        r
    }
}

} // verus!
