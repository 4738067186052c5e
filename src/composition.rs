//! What the host's composition must do after a command: the decision part of
//! rendering an `EngineOutput`, apart from the text framework that carries it out.

use vstd::prelude::*;

use crate::engine::EngineOutput;

verus! {

/// One edit of the host composition.
#[derive(Debug, Clone, PartialEq, Eq)]
pub enum EditAction {
    /// Start or update the composition with this text.
    SetText(String),
    /// Write this text and end the composition.
    CommitText(String),
    /// Write and end with `committed`, then start a new composition showing `display`.
    CommitAndCompose { committed: String, display: String },
    /// End the composition.
    EndComposition,
}

/// The edit for `output`: commit and/or show whatever is non-empty; when both
/// are empty, end an open composition, and do nothing when none is open.
pub fn edit_action(output: &EngineOutput, composing: bool) -> (r: Option<EditAction>)
    ensures
        match r {
            Some(EditAction::CommitAndCompose { committed, display }) => output.committed@.len() > 0
                && output.display@.len() > 0 && committed@ == output.committed@ && display@ == output.display@,
            Some(EditAction::CommitText(t)) => output.committed@.len() > 0 && output.display@.len() == 0
                && t@ == output.committed@,
            Some(EditAction::SetText(t)) => output.committed@.len() == 0 && output.display@.len() > 0
                && t@ == output.display@,
            Some(EditAction::EndComposition) => output.committed@.len() == 0 && output.display@.len() == 0
                && composing,
            None => output.committed@.len() == 0 && output.display@.len() == 0 && !composing,
        },
{
    let has_commit = !output.committed.as_str().is_empty();
    let has_display = !output.display.as_str().is_empty();
    if has_commit && has_display {
        Some(EditAction::CommitAndCompose { committed: output.committed.clone(), display: output.display.clone() })
    } else if has_commit {
        Some(EditAction::CommitText(output.committed.clone()))
    } else if has_display {
        Some(EditAction::SetText(output.display.clone()))
    } else if composing {
        Some(EditAction::EndComposition)
    } else {
        None
    }
}

} // verus!
