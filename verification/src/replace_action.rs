use vstd::prelude::*;

verus! {

/// The command that the replace dialog asks the editor to carry out.
#[derive(Clone, Copy, Debug, PartialEq, Eq, Structural)]
pub enum ReplaceAction {
    NoAction,
    FindNext,
    Replace,
    ReplaceAll,
}

impl Default for ReplaceAction {
    /// No command is pending until a button of the dialog is pressed.
    fn default() -> (res: Self)
        ensures
            res == ReplaceAction::NoAction,
    {
        ReplaceAction::NoAction
    }
}

} // verus!
