//! Apps of the earlier driver API: they take resources out of the
//! registry when created and keep them.

use vstd::prelude::*;

use crate::buttons::{ButtonRole, A};
use crate::driver_api::registry::{RegisteredResource, Registry};
use crate::registry::CapabilityKind;

verus! {

/// An application that can be selected and run by the firmware.
pub trait App<R>: Sized {
    /// The capability kinds the app takes.
    spec fn required_kinds() -> Seq<CapabilityKind>;

    /// Whether the registry has what the app needs.
    fn can_run(registry: &Registry<R>) -> (ok: bool)
        requires
            registry.wf(),
        ensures
            ok == forall|i: int|
                0 <= i < Self::required_kinds().len() ==> #[trigger] registry.list(Self::required_kinds()[i]).len()
                    > 0,
    ;

    /// Takes the resources the app needs.
    fn new(registry: &mut Registry<R>) -> (app: Option<Self>)
        requires
            old(registry).wf(),
        ensures
            final(registry).wf(),
    ;
}

/// Counts presses of button A.
pub struct ButtonLoggerApp<R> {
    pub button: RegisteredResource<R>,
}

impl<R> App<R> for ButtonLoggerApp<R> {
    open spec fn required_kinds() -> Seq<CapabilityKind> {
        seq![A::spec_kind()]
    }

    fn can_run(registry: &Registry<R>) -> (ok: bool) {
        let ok = registry.has(A::kind());
        proof {
            if ok {
                assert forall|i: int| 0 <= i < Self::required_kinds().len() implies #[trigger] registry.list(
                    Self::required_kinds()[i],
                ).len() > 0 by {
                    assert(i == 0);
                }
            } else {
                assert(registry.list(Self::required_kinds()[0]).len() == 0);
            }
        }
        ok
    }

    /// Takes the most recently registered button A.
    fn new(registry: &mut Registry<R>) -> (app: Option<Self>)
        ensures
            old(registry).list(A::spec_kind()).len() == 0 ==> app is None && *final(registry) == *old(registry),
            old(registry).list(A::spec_kind()).len() > 0 ==> (app matches Some(a) && a.button == old(registry).list(
                A::spec_kind(),
            ).last()) && final(registry).list(A::spec_kind()) == old(registry).list(A::spec_kind()).drop_last(),
            forall|k: CapabilityKind|
                k != A::spec_kind() ==> final(registry).list(k) == old(registry).list(k),
    {
        match registry.take_resource(A::kind()) {
            Some(button) => Some(ButtonLoggerApp { button }),
            None => None,
        }
    }
}

} // verus!
