//! What the editor panel asks for after a frame.
use vstd::prelude::*;

verus! {

/// The buttons of the editor panel pressed during a frame.
#[derive(Debug)]
pub struct EditorResponse {
    pub start_crop: bool,
    pub apply_crop: bool,
    pub cancel_crop: bool,
    pub save: bool,
    pub save_as: bool,
    pub cancel: bool,
    pub reset: bool,
}

impl Default for EditorResponse {
    /// Nothing pressed.
    fn default() -> (r: Self)
        ensures
            !r.start_crop && !r.apply_crop && !r.cancel_crop && !r.save && !r.save_as && !r.cancel
                && !r.reset,
    {
        EditorResponse {
            start_crop: false,
            apply_crop: false,
            cancel_crop: false,
            save: false,
            save_as: false,
            cancel: false,
            reset: false,
        }
    }
}

/// What the program does with the buttons pressed in one frame: the first
/// pressed in this order wins.
#[derive(Debug, Clone, Copy, PartialEq, Eq, Structural)]
pub enum EditorCommand {
    StartCrop,
    ApplyCrop,
    CancelCrop,
    Save,
    SaveAs,
    Cancel,
    Reset,
    Nothing,
}

/// The command for the pressed buttons `r`.
pub open spec fn command_spec(r: EditorResponse) -> EditorCommand {
    if r.start_crop {
        EditorCommand::StartCrop
    } else if r.apply_crop {
        EditorCommand::ApplyCrop
    } else if r.cancel_crop {
        EditorCommand::CancelCrop
    } else if r.save {
        EditorCommand::Save
    } else if r.save_as {
        EditorCommand::SaveAs
    } else if r.cancel {
        EditorCommand::Cancel
    } else if r.reset {
        EditorCommand::Reset
    } else {
        EditorCommand::Nothing
    }
}

impl EditorResponse {
    /// The one command that these pressed buttons stand for.
    pub fn command(&self) -> (r: EditorCommand)
        ensures
            r == command_spec(*self),
    {
        if self.start_crop {
            EditorCommand::StartCrop
        } else if self.apply_crop {
            EditorCommand::ApplyCrop
        } else if self.cancel_crop {
            EditorCommand::CancelCrop
        } else if self.save {
            EditorCommand::Save
        } else if self.save_as {
            EditorCommand::SaveAs
        } else if self.cancel {
            EditorCommand::Cancel
        } else if self.reset {
            EditorCommand::Reset
        } else {
            EditorCommand::Nothing
        }
    }
}

} // verus!
