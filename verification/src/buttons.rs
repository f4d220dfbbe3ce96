//! Logical button roles and the debouncing rules of button inputs.
//!
//! Each role is a zero-sized marker type naming a capability of the
//! registry; a driver wires a physical pin to a role, and apps lease the role.

use vstd::prelude::*;

use crate::registry::CapabilityKind;

verus! {

/// Seals the set of button roles.
pub trait Sealed {}

/// Marker trait for a logical button role (e.g. `A`, `B`, `Up`).
pub trait ButtonRole: Sealed {
    /// The registry capability kind of a button with this role.
    spec fn spec_kind() -> CapabilityKind;

    /// The registry capability kind of a button with this role.
    fn kind() -> (kind: CapabilityKind)
        ensures
            kind == Self::spec_kind(),
    ;
}

/// Button A.
pub struct A;

/// Button B.
pub struct B;

/// Button X.
pub struct X;

/// Button Y.
pub struct Y;

/// Direction button up.
pub struct Up;

/// Direction button down.
pub struct Down;

/// Direction button left.
pub struct Left;

/// Direction button right.
pub struct Right;

impl Sealed for A {}

impl Sealed for B {}

impl Sealed for X {}

impl Sealed for Y {}

impl Sealed for Up {}

impl Sealed for Down {}

impl Sealed for Left {}

impl Sealed for Right {}

impl ButtonRole for A {
    open spec fn spec_kind() -> CapabilityKind {
        1
    }

    fn kind() -> (kind: CapabilityKind) {
        1
    }
}

impl ButtonRole for B {
    open spec fn spec_kind() -> CapabilityKind {
        2
    }

    fn kind() -> (kind: CapabilityKind) {
        2
    }
}

impl ButtonRole for X {
    open spec fn spec_kind() -> CapabilityKind {
        3
    }

    fn kind() -> (kind: CapabilityKind) {
        3
    }
}

impl ButtonRole for Y {
    open spec fn spec_kind() -> CapabilityKind {
        4
    }

    fn kind() -> (kind: CapabilityKind) {
        4
    }
}

impl ButtonRole for Up {
    open spec fn spec_kind() -> CapabilityKind {
        5
    }

    fn kind() -> (kind: CapabilityKind) {
        5
    }
}

impl ButtonRole for Down {
    open spec fn spec_kind() -> CapabilityKind {
        6
    }

    fn kind() -> (kind: CapabilityKind) {
        6
    }
}

impl ButtonRole for Left {
    open spec fn spec_kind() -> CapabilityKind {
        7
    }

    fn kind() -> (kind: CapabilityKind) {
        7
    }
}

impl ButtonRole for Right {
    open spec fn spec_kind() -> CapabilityKind {
        8
    }

    fn kind() -> (kind: CapabilityKind) {
        8
    }
}

/// A button of role `Role` that can say whether it is held; waiting for a
/// press is left to the executor.
pub trait Button<Role: ButtonRole> {
    fn is_pressed(&self) -> bool;
}

/// How long a button level must hold before it counts, in milliseconds.
pub const DEBOUNCE_MS: u64 = 20;

/// Where a press detection stands.
#[derive(Clone, Copy, Debug, PartialEq, Eq, Structural)]
pub enum PressWait {
    /// The button was held when the wait began; wait for it to be released.
    AwaitRelease,
    /// The button was free when the wait began; wait for it to go down.
    AwaitPress,
    /// Waiting for the button to go down and still be down after the
    /// debounce delay.
    Confirm,
    /// A debounced press was seen.
    Pressed,
}

/// What the waiting task does next.
#[derive(Clone, Copy, Debug, PartialEq, Eq, Structural)]
pub enum PressAction {
    /// Wait until the pin reads high (released), then sleep the debounce delay.
    WaitHighThenDebounce,
    /// Wait until the pin reads low (pressed), then sleep the debounce delay.
    WaitLowThenDebounce,
    /// The press is confirmed: the wait is over.
    Done,
}

/// The state in which waiting for a press starts, given whether the button
/// is held at that moment.
pub fn press_wait_start(held: bool) -> (state: PressWait)
    ensures
        state == (if held {
            PressWait::AwaitRelease
        } else {
            PressWait::AwaitPress
        }),
{
    if held {
        PressWait::AwaitRelease
    } else {
        PressWait::AwaitPress
    }
}

/// One decision of the debounced press wait of a single-pin button:
/// `held` is the pin level read after the previous action completed.
/// Returns the next state and the action to perform.
pub fn press_wait_step(state: PressWait, held: bool) -> (next: (PressWait, PressAction))
    ensures
        next == (match state {
            PressWait::AwaitRelease => if held {
                (PressWait::AwaitRelease, PressAction::WaitHighThenDebounce)
            } else {
                (PressWait::Confirm, PressAction::WaitLowThenDebounce)
            },
            PressWait::AwaitPress => (PressWait::Confirm, PressAction::WaitLowThenDebounce),
            PressWait::Confirm => if held {
                (PressWait::Pressed, PressAction::Done)
            } else {
                (PressWait::Confirm, PressAction::WaitLowThenDebounce)
            },
            PressWait::Pressed => (PressWait::Pressed, PressAction::Done),
        }),
        next.1 == PressAction::Done <==> next.0 == PressWait::Pressed,
{
    match state {
        PressWait::AwaitRelease => {
            if held {
                (PressWait::AwaitRelease, PressAction::WaitHighThenDebounce)
            } else {
                (PressWait::Confirm, PressAction::WaitLowThenDebounce)
            }
        },
        PressWait::AwaitPress => (PressWait::Confirm, PressAction::WaitLowThenDebounce),
        PressWait::Confirm => {
            if held {
                (PressWait::Pressed, PressAction::Done)
            } else {
                (PressWait::Confirm, PressAction::WaitLowThenDebounce)
            }
        },
        PressWait::Pressed => (PressWait::Pressed, PressAction::Done),
    }
}

/// Where a press detection of a button that shares its pin with another
/// role stands. Such a button polls its pin every debounce interval.
#[derive(Clone, Copy, Debug, PartialEq, Eq, Structural)]
pub enum SharedPressWait {
    /// The button was held when the wait began; wait for it to be released.
    Releasing,
    /// Wait for the button to be held at a poll.
    Waiting,
    /// A press was seen.
    Pressed,
}

/// What a shared button's waiting task does next.
#[derive(Clone, Copy, Debug, PartialEq, Eq, Structural)]
pub enum SharedPressAction {
    /// Sleep one debounce interval, then read the pin again.
    Sleep,
    /// The press is confirmed: the wait is over.
    Done,
}

/// The first decision of a shared button's press wait, given whether the
/// pin reads held: either way the task first sleeps.
pub fn shared_press_start(held: bool) -> (next: (SharedPressWait, SharedPressAction))
    ensures
        next == (if held {
            (SharedPressWait::Releasing, SharedPressAction::Sleep)
        } else {
            (SharedPressWait::Waiting, SharedPressAction::Sleep)
        }),
{
    if held {
        (SharedPressWait::Releasing, SharedPressAction::Sleep)
    } else {
        (SharedPressWait::Waiting, SharedPressAction::Sleep)
    }
}

/// One decision of a shared button's press wait: `held` is the pin read
/// after the last sleep. A press counts only once the button has been
/// seen released.
pub fn shared_press_step(state: SharedPressWait, held: bool) -> (next: (SharedPressWait, SharedPressAction))
    ensures
        next == (match state {
            SharedPressWait::Releasing => if held {
                (SharedPressWait::Releasing, SharedPressAction::Sleep)
            } else {
                (SharedPressWait::Waiting, SharedPressAction::Sleep)
            },
            SharedPressWait::Waiting => if held {
                (SharedPressWait::Pressed, SharedPressAction::Done)
            } else {
                (SharedPressWait::Waiting, SharedPressAction::Sleep)
            },
            SharedPressWait::Pressed => (SharedPressWait::Pressed, SharedPressAction::Done),
        }),
        next.1 == SharedPressAction::Done <==> next.0 == SharedPressWait::Pressed,
{
    match state {
        SharedPressWait::Releasing => {
            if held {
                (SharedPressWait::Releasing, SharedPressAction::Sleep)
            } else {
                (SharedPressWait::Waiting, SharedPressAction::Sleep)
            }
        },
        SharedPressWait::Waiting => {
            if held {
                (SharedPressWait::Pressed, SharedPressAction::Done)
            } else {
                (SharedPressWait::Waiting, SharedPressAction::Sleep)
            }
        },
        SharedPressWait::Pressed => (SharedPressWait::Pressed, SharedPressAction::Done),
    }
}

} // verus!
