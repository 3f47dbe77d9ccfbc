use vstd::prelude::*;

verus! {

/// How the pointer is interacting with a widget of the user interface.
#[derive(Clone, Copy, Debug, PartialEq, Eq, Structural)]
pub enum Interaction {
    Pressed,
    Hovered,
    Idle,
}

/// Some widget is under the pointer or being pressed.
pub open spec fn ui_holds_pointer(widgets: Seq<Interaction>) -> bool {
    exists|i: int| 0 <= i < widgets.len() && (#[trigger] widgets[i]) != Interaction::Idle
}

/// Where the player's commands point: nowhere while an inspector panel or a
/// widget of the interface wants the pointer, else the pointer's spot on the
/// ground (if it has one).
pub fn command_target<P: Copy>(panel_wants_pointer: bool, widgets: &Vec<Interaction>, ground_point: Option<P>) -> (r: Option<P>)
    ensures
        r == (if panel_wants_pointer || ui_holds_pointer(widgets@) { None } else { ground_point }),
{
    if panel_wants_pointer {
        return None;
    }
    let mut i: usize = 0;
    while i < widgets.len()
        invariant
            i <= widgets.len(),
            forall|j: int| 0 <= j < i ==> (#[trigger] widgets@[j]) == Interaction::Idle,
        decreases widgets.len() - i,
    {
        match widgets[i] {
            Interaction::Idle => {},
            _ => {
                return None;
            },
        }
        i = i + 1;
    }
    ground_point
}

} // verus!
