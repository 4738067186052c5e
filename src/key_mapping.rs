//! Virtual key codes and modifier state to engine commands.
//!
//! Platform independent: the codes are the Windows virtual-key values, and the
//! Ctrl bindings come from a preset that a configuration may override key by key.

use vstd::prelude::*;

use crate::engine::EngineCommand;

verus! {

pub const VK_BACK: u16 = 0x08;
pub const VK_RETURN: u16 = 0x0D;
pub const VK_SHIFT: u16 = 0x10;
pub const VK_CONTROL: u16 = 0x11;
/// The Alt key.
pub const VK_MENU: u16 = 0x12;
pub const VK_ESCAPE: u16 = 0x1B;
pub const VK_SPACE: u16 = 0x20;
pub const VK_UP: u16 = 0x26;
pub const VK_DOWN: u16 = 0x28;
pub const VK_0: u16 = 0x30;
pub const VK_9: u16 = 0x39;
pub const VK_A: u16 = 0x41;
pub const VK_G: u16 = 0x47;
pub const VK_H: u16 = 0x48;
pub const VK_J: u16 = 0x4A;
pub const VK_M: u16 = 0x4D;
pub const VK_N: u16 = 0x4E;
pub const VK_P: u16 = 0x50;
pub const VK_Z: u16 = 0x5A;
pub const VK_F1: u16 = 0x70;
pub const VK_OEM_COMMA: u16 = 0xBC;
pub const VK_OEM_MINUS: u16 = 0xBD;
pub const VK_OEM_PERIOD: u16 = 0xBE;

/// Which modifier keys are held.
#[derive(Debug, Clone, Copy, PartialEq, Eq, Structural)]
pub struct Modifiers {
    pub shift: bool,
    pub ctrl: bool,
    pub alt: bool,
}

impl Modifiers {
    pub fn none() -> (r: Self)
        ensures
            r == (Modifiers { shift: false, ctrl: false, alt: false }),
    {
        Modifiers { shift: false, ctrl: false, alt: false }
    }

    pub fn shift() -> (r: Self)
        ensures
            r == (Modifiers { shift: true, ctrl: false, alt: false }),
    {
        Modifiers { shift: true, ctrl: false, alt: false }
    }

    pub fn ctrl() -> (r: Self)
        ensures
            r == (Modifiers { shift: false, ctrl: true, alt: false }),
    {
        Modifiers { shift: false, ctrl: true, alt: false }
    }

    pub fn alt() -> (r: Self)
        ensures
            r == (Modifiers { shift: false, ctrl: false, alt: true }),
    {
        Modifiers { shift: false, ctrl: false, alt: true }
    }

    pub fn ctrl_alt() -> (r: Self)
        ensures
            r == (Modifiers { shift: false, ctrl: true, alt: true }),
    {
        Modifiers { shift: false, ctrl: true, alt: true }
    }
}

/// A named set of Ctrl-key bindings.
#[derive(Debug, Clone, Copy, PartialEq, Eq, Structural)]
pub enum KeybindPreset {
    /// No Ctrl bindings (the default).
    Off,
    /// Only keys that rarely clash: Ctrl+J, Ctrl+G, Ctrl+M.
    Minimal,
    /// The full Emacs set: Ctrl+J/G/N/P/H/M.
    Emacs,
}

/// The command bound to each configurable Ctrl key; `None` leaves the key to the system.
#[derive(Debug, Clone, Copy, PartialEq, Eq, Structural)]
pub struct CtrlKeyConfig {
    pub ctrl_g: Option<EngineCommand>,
    pub ctrl_h: Option<EngineCommand>,
    pub ctrl_j: Option<EngineCommand>,
    pub ctrl_m: Option<EngineCommand>,
    pub ctrl_n: Option<EngineCommand>,
    pub ctrl_p: Option<EngineCommand>,
}

/// The bindings of a preset.
pub open spec fn preset_bindings(preset: KeybindPreset) -> CtrlKeyConfig {
    match preset {
        KeybindPreset::Off => CtrlKeyConfig {
            ctrl_g: None,
            ctrl_h: None,
            ctrl_j: None,
            ctrl_m: None,
            ctrl_n: None,
            ctrl_p: None,
        },
        KeybindPreset::Minimal => CtrlKeyConfig {
            ctrl_g: Some(EngineCommand::Cancel),
            ctrl_h: None,
            ctrl_j: Some(EngineCommand::Commit),
            ctrl_m: Some(EngineCommand::Commit),
            ctrl_n: None,
            ctrl_p: None,
        },
        KeybindPreset::Emacs => CtrlKeyConfig {
            ctrl_g: Some(EngineCommand::Cancel),
            ctrl_h: Some(EngineCommand::Backspace),
            ctrl_j: Some(EngineCommand::Commit),
            ctrl_m: Some(EngineCommand::Commit),
            ctrl_n: Some(EngineCommand::NextCandidate),
            ctrl_p: Some(EngineCommand::PrevCandidate),
        },
    }
}

impl CtrlKeyConfig {
    /// The bindings of `preset`.
    pub fn from_preset(preset: &KeybindPreset) -> (r: Self)
        ensures
            r == preset_bindings(*preset),
    {
        match preset {
            KeybindPreset::Off => CtrlKeyConfig {
                ctrl_g: None,
                ctrl_h: None,
                ctrl_j: None,
                ctrl_m: None,
                ctrl_n: None,
                ctrl_p: None,
            },
            KeybindPreset::Minimal => CtrlKeyConfig {
                ctrl_g: Some(EngineCommand::Cancel),
                ctrl_h: None,
                ctrl_j: Some(EngineCommand::Commit),
                ctrl_m: Some(EngineCommand::Commit),
                ctrl_n: None,
                ctrl_p: None,
            },
            KeybindPreset::Emacs => CtrlKeyConfig {
                ctrl_g: Some(EngineCommand::Cancel),
                ctrl_h: Some(EngineCommand::Backspace),
                ctrl_j: Some(EngineCommand::Commit),
                ctrl_m: Some(EngineCommand::Commit),
                ctrl_n: Some(EngineCommand::NextCandidate),
                ctrl_p: Some(EngineCommand::PrevCandidate),
            },
        }
    }
}

impl Default for CtrlKeyConfig {
    fn default() -> (r: Self)
        ensures
            r == preset_bindings(KeybindPreset::Off),
    {
        Self::from_preset(&KeybindPreset::Off)
    }
}

/// The command a Ctrl chord gives under `cfg`.
pub open spec fn ctrl_command(vk: u16, cfg: CtrlKeyConfig) -> Option<EngineCommand> {
    if vk == VK_G {
        cfg.ctrl_g
    } else if vk == VK_H {
        cfg.ctrl_h
    } else if vk == VK_J {
        cfg.ctrl_j
    } else if vk == VK_M {
        cfg.ctrl_m
    } else if vk == VK_N {
        cfg.ctrl_n
    } else if vk == VK_P {
        cfg.ctrl_p
    } else {
        None
    }
}

/// The command a key gives: nothing while the input method is off or Alt is
/// held; Ctrl chords through the bindings; letters (capital with Shift), digits
/// (without Shift), `-` `.` `,` as typed characters; Space converts, Enter
/// commits, Escape cancels, Backspace deletes, Down and Up move the cursor.
pub open spec fn key_command(vk: u16, m: Modifiers, ime_on: bool, cfg: CtrlKeyConfig) -> Option<EngineCommand> {
    if !ime_on || m.alt {
        None
    } else if m.ctrl {
        ctrl_command(vk, cfg)
    } else if VK_A <= vk <= VK_Z {
        let base: u8 = if m.shift { 0x41 } else { 0x61 };
        Some(EngineCommand::InsertChar(((base + (vk - VK_A)) as u8) as char))
    } else if VK_0 <= vk <= VK_9 && !m.shift {
        Some(EngineCommand::InsertChar(((0x30 + (vk - VK_0)) as u8) as char))
    } else if vk == VK_SPACE {
        Some(EngineCommand::Convert)
    } else if vk == VK_RETURN {
        Some(EngineCommand::Commit)
    } else if vk == VK_ESCAPE {
        Some(EngineCommand::Cancel)
    } else if vk == VK_BACK {
        Some(EngineCommand::Backspace)
    } else if vk == VK_DOWN {
        Some(EngineCommand::NextCandidate)
    } else if vk == VK_UP {
        Some(EngineCommand::PrevCandidate)
    } else if vk == VK_OEM_MINUS {
        Some(EngineCommand::InsertChar('-'))
    } else if vk == VK_OEM_PERIOD {
        Some(EngineCommand::InsertChar('.'))
    } else if vk == VK_OEM_COMMA {
        Some(EngineCommand::InsertChar(','))
    } else {
        None
    }
}

/// Maps a virtual key and modifier state to an engine command; `None` for keys
/// the input method leaves to the system.
pub fn map_key(vk: u16, modifiers: &Modifiers, ime_on: bool, ctrl_config: &CtrlKeyConfig) -> (r: Option<
    EngineCommand,
>)
    ensures
        r == key_command(vk, *modifiers, ime_on, *ctrl_config),
{
    if !ime_on {
        return None;
    }
    if modifiers.alt {
        return None;
    }
    if modifiers.ctrl {
        return map_ctrl_key(vk, ctrl_config);
    }
    if VK_A <= vk && vk <= VK_Z {
        let offset = (vk - VK_A) as u8;
        let ch = if modifiers.shift {
            (0x41u8 + offset) as char
        } else {
            (0x61u8 + offset) as char
        };
        Some(EngineCommand::InsertChar(ch))
    } else if VK_0 <= vk && vk <= VK_9 && !modifiers.shift {
        Some(EngineCommand::InsertChar((0x30u8 + (vk - VK_0) as u8) as char))
    } else if vk == VK_SPACE {
        Some(EngineCommand::Convert)
    } else if vk == VK_RETURN {
        Some(EngineCommand::Commit)
    } else if vk == VK_ESCAPE {
        Some(EngineCommand::Cancel)
    } else if vk == VK_BACK {
        Some(EngineCommand::Backspace)
    } else if vk == VK_DOWN {
        Some(EngineCommand::NextCandidate)
    } else if vk == VK_UP {
        Some(EngineCommand::PrevCandidate)
    } else if vk == VK_OEM_MINUS {
        Some(EngineCommand::InsertChar('-'))
    } else if vk == VK_OEM_PERIOD {
        Some(EngineCommand::InsertChar('.'))
    } else if vk == VK_OEM_COMMA {
        Some(EngineCommand::InsertChar(','))
    } else {
        None
    }
}

/// The command a Ctrl chord gives under `config`.
fn map_ctrl_key(vk: u16, config: &CtrlKeyConfig) -> (r: Option<EngineCommand>)
    ensures
        r == ctrl_command(vk, *config),
{
    if vk == VK_G {
        config.ctrl_g
    } else if vk == VK_H {
        config.ctrl_h
    } else if vk == VK_J {
        config.ctrl_j
    } else if vk == VK_M {
        config.ctrl_m
    } else if vk == VK_N {
        config.ctrl_n
    } else if vk == VK_P {
        config.ctrl_p
    } else {
        None
    }
}

} // verus!
