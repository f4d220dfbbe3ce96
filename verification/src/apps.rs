//! Application lifecycle and resource ownership.
//!
//! Apps lease capabilities from a [`Registry`] when they are created and must
//! return every lease when they are released. This makes resource
//! availability predictable as the platform switches between apps.

use vstd::prelude::*;

use crate::buttons::{ButtonRole, Down, Left, Right, Up, A, B, X, Y};
use crate::registry::{
    lease_ids, leased_ids, registry_wf, return_all, returnable, set_available, taken_from,
    lemma_single_kind_available, lemma_taken_leases_return, count_offering, CapabilityKind, Registry, RegistryView, ResourceLease,
};
use crate::video::FRAME_BUFFER_KIND;

verus! {

/// An application that can be selected and run by the firmware.
///
/// `can_run` mirrors the resource set acquired by `new`, without mutating
/// the registry. After the app has run, the platform passes it to
/// `release`, which returns all of its resource leases.
pub trait App<R>: Sized {
    /// The capability kinds the app leases, in order.
    spec fn required_kinds() -> Seq<CapabilityKind>;

    /// The leases the app holds, in the order of `required_kinds`.
    spec fn leases(&self) -> Seq<ResourceLease<R>>;

    /// User-facing name shown by the app picker.
    fn name() -> &'static str;

    /// Reports whether all resources required by this app are available.
    fn can_run(registry: &Registry<R>) -> (ok: bool)
        ensures
            ok == set_available(registry@.slots, Self::required_kinds()),
    ;

    /// Leases the resources required to construct the app, atomically.
    fn new(registry: &mut Registry<R>) -> (app: Option<Self>)
        requires
            old(registry).wf(),
        ensures
            final(registry).wf(),
            final(registry)@.id == old(registry)@.id,
            final(registry)@.next_allocated == old(registry)@.next_allocated,
            app is Some <==> set_available(old(registry)@.slots, Self::required_kinds()),
            app is None ==> final(registry)@ == old(registry)@,
            app matches Some(a) ==> taken_from(old(registry)@, a.leases(), Self::required_kinds())
                && final(registry)@.slots == leased_ids(old(registry)@.slots, lease_ids(a.leases())),
    ;

    /// Returns every resource lease held by the app to `registry`.
    fn release(self, registry: &mut Registry<R>)
        requires
            returnable(old(registry)@, self.leases()),
        ensures
            final(registry).wf(),
            final(registry)@.id == old(registry)@.id,
            final(registry)@.next_allocated == old(registry)@.next_allocated,
            final(registry)@.slots == return_all(old(registry)@.slots, self.leases()),
    ;
}

/// An app's life leaves the registry as it found it: an app created by
/// `new` from a registry in state `v` can be released right away, and
/// releasing it restores the slots of `v`, so every kind is offered by as
/// many groups as before the app was created.
pub proof fn lemma_app_release_restores<R, T: App<R>>(v: RegistryView<R>, app: T, kind: CapabilityKind)
    requires
        registry_wf(v),
        taken_from(v, app.leases(), T::required_kinds()),
    ensures
        count_offering(return_all(leased_ids(v.slots, lease_ids(app.leases())), app.leases()), kind)
            == count_offering(v.slots, kind),
        returnable(
            RegistryView {
                id: v.id,
                slots: leased_ids(v.slots, lease_ids(app.leases())),
                next_allocated: v.next_allocated,
            },
            app.leases(),
        ),
        return_all(leased_ids(v.slots, lease_ids(app.leases())), app.leases()) == v.slots,
{
    lemma_taken_leases_return(v, app.leases(), T::required_kinds());
}

/// The Button Logger can run exactly when some available group offers
/// button A: `can_run`, `new` succeeding and `has(A)` agree.
pub proof fn lemma_button_logger_needs_a<R>(v: RegistryView<R>)
    requires
        registry_wf(v),
    ensures
        set_available(v.slots, ButtonLoggerApp::<R>::required_kinds()) == (count_offering(v.slots, A::spec_kind()) >= 1),
{
    lemma_single_kind_available(v, A::spec_kind());
}

/// Capability kinds of the direction pad, in the order up, down, left, right.
pub open spec fn direction_kinds() -> Seq<CapabilityKind> {
    seq![Up::spec_kind(), Down::spec_kind(), Left::spec_kind(), Right::spec_kind()]
}

fn kinds_vec(kinds: &[CapabilityKind]) -> (v: Vec<CapabilityKind>)
    ensures
        v@ == kinds@,
{
    let mut v: Vec<CapabilityKind> = Vec::new();
    let mut i: usize = 0;
    while i < kinds.len()
        invariant
            i <= kinds@.len(),
            v@ == kinds@.take(i as int),
        decreases kinds@.len() - i,
    {
        v.push(kinds[i]);
        proof {
            assert(v@ =~= kinds@.take(i + 1));
        }
        i = i + 1;
    }
    proof {
        assert(kinds@.take(kinds@.len() as int) =~= kinds@);
    }
    v
}

/// Takes the single remaining element of a one-element vector.
fn take_one<T>(v: Vec<T>) -> (x: T)
    requires
        v@.len() == 1,
    ensures
        x == v@[0],
{
    let mut v = v;
    v.remove(0)
}

/// Splits off the last element of a non-empty vector.
fn split_last<T>(v: Vec<T>) -> (parts: (Vec<T>, T))
    requires
        v@.len() > 0,
    ensures
        parts.0@ == v@.drop_last(),
        parts.1 == v@.last(),
{
    let mut v = v;
    let ghost before = v@;
    let last = v.len() - 1;
    let x = v.remove(last);
    proof {
        assert(v@ =~= before.drop_last());
    }
    (v, x)
}

// ── Button Logger ────────────────────────────────────────────────────────

/// Counts presses of button A; holding A for a second exits.
pub struct ButtonLoggerApp<R> {
    pub button: ResourceLease<R>,
}

impl<R> App<R> for ButtonLoggerApp<R> {
    open spec fn required_kinds() -> Seq<CapabilityKind> {
        seq![A::spec_kind()]
    }

    open spec fn leases(&self) -> Seq<ResourceLease<R>> {
        seq![self.button]
    }

    fn name() -> (name: &'static str)
        ensures
            name@ == "Button Logger"@,
    {
        "Button Logger"
    }

    fn can_run(registry: &Registry<R>) -> (ok: bool) {
        let kinds = kinds_vec(&[A::kind()]);
        proof {
            assert(kinds@ =~= Self::required_kinds());
        }
        registry.has_resource_set(&kinds)
    }

    fn new(registry: &mut Registry<R>) -> (app: Option<Self>) {
        let kinds = kinds_vec(&[A::kind()]);
        proof {
            assert(kinds@ =~= Self::required_kinds());
        }
        match registry.take_resource_set(&kinds) {
            Some(leases) => {
                let button = take_one(leases);
                let app = ButtonLoggerApp { button };
                proof {
                    assert(app.leases() =~= leases@);
                }
                Some(app)
            },
            None => None,
        }
    }

    fn release(self, registry: &mut Registry<R>) {
        let mut leases: Vec<ResourceLease<R>> = Vec::new();
        leases.push(self.button);
        proof {
            assert(leases@ =~= self.leases());
        }
        registry.return_leases(leases);
    }
}

/// How long button A must be held to leave the Button Logger, in
/// milliseconds, and the polling step while it is held.
pub const LOGGER_EXIT_HOLD_MS: u32 = 1_000;

pub const LOGGER_POLL_MS: u32 = 20;

/// What the Button Logger does after it has watched a press for `held_ms`
/// milliseconds and found the button `still_held`.
#[derive(Clone, Copy, Debug, PartialEq, Eq, Structural)]
pub enum LoggerStep {
    /// Sleep one polling step and look again.
    KeepWatching,
    /// The press was short: count it.
    Count,
    /// The button was held for a second: wait for release, then exit.
    Exit,
}

/// The Button Logger's decision while a press is being watched.
pub fn logger_step(held_ms: u32, still_held: bool) -> (step: LoggerStep)
    ensures
        step == (if still_held && held_ms < LOGGER_EXIT_HOLD_MS {
            LoggerStep::KeepWatching
        } else if held_ms >= LOGGER_EXIT_HOLD_MS {
            LoggerStep::Exit
        } else {
            LoggerStep::Count
        }),
{
    if still_held && held_ms < LOGGER_EXIT_HOLD_MS {
        LoggerStep::KeepWatching
    } else if held_ms >= LOGGER_EXIT_HOLD_MS {
        LoggerStep::Exit
    } else {
        LoggerStep::Count
    }
}

// ── Cube Game ────────────────────────────────────────────────────────────

/// Moves a coloured cube with the direction pad; A changes colour, B exits.
pub struct CubeGameApp<R> {
    pub up: ResourceLease<R>,
    pub down: ResourceLease<R>,
    pub left: ResourceLease<R>,
    pub right: ResourceLease<R>,
    pub color: ResourceLease<R>,
    pub exit: ResourceLease<R>,
}

impl<R> App<R> for CubeGameApp<R> {
    open spec fn required_kinds() -> Seq<CapabilityKind> {
        direction_kinds() + seq![A::spec_kind(), B::spec_kind()]
    }

    open spec fn leases(&self) -> Seq<ResourceLease<R>> {
        seq![self.up, self.down, self.left, self.right, self.color, self.exit]
    }

    fn name() -> (name: &'static str)
        ensures
            name@ == "Cube Game"@,
    {
        "Cube Game"
    }

    fn can_run(registry: &Registry<R>) -> (ok: bool) {
        let kinds = kinds_vec(
            &[Up::kind(), Down::kind(), Left::kind(), Right::kind(), A::kind(), B::kind()],
        );
        proof {
            assert(kinds@ =~= Self::required_kinds());
        }
        registry.has_resource_set(&kinds)
    }

    fn new(registry: &mut Registry<R>) -> (app: Option<Self>) {
        let kinds = kinds_vec(
            &[Up::kind(), Down::kind(), Left::kind(), Right::kind(), A::kind(), B::kind()],
        );
        proof {
            assert(kinds@ =~= Self::required_kinds());
        }
        match registry.take_resource_set(&kinds) {
            Some(leases) => {
                let ghost all = leases@;
                let (leases, exit) = split_last(leases);
                let (leases, color) = split_last(leases);
                let (leases, right) = split_last(leases);
                let (leases, left) = split_last(leases);
                let (leases, down) = split_last(leases);
                let up = take_one(leases);
                let app = CubeGameApp { up, down, left, right, color, exit };
                proof {
                    assert(app.leases() =~= all);
                }
                Some(app)
            },
            None => None,
        }
    }

    fn release(self, registry: &mut Registry<R>) {
        let mut leases: Vec<ResourceLease<R>> = Vec::new();
        leases.push(self.up);
        leases.push(self.down);
        leases.push(self.left);
        leases.push(self.right);
        leases.push(self.color);
        leases.push(self.exit);
        proof {
            assert(leases@ =~= self.leases());
        }
        registry.return_leases(leases);
    }
}

// ── four-button games ────────────────────────────────────────────────────

/// The rhythm game: hit the falling notes with the direction pad.
pub struct NeonBeatApp<R> {
    pub up: ResourceLease<R>,
    pub down: ResourceLease<R>,
    pub left: ResourceLease<R>,
    pub right: ResourceLease<R>,
}

/// The snake game.
pub struct SnakeGameApp<R> {
    pub up: ResourceLease<R>,
    pub down: ResourceLease<R>,
    pub left: ResourceLease<R>,
    pub right: ResourceLease<R>,
}

/// Leases the direction pad as one set.
fn take_direction_pad<R>(registry: &mut Registry<R>) -> (pad: Option<
    (ResourceLease<R>, ResourceLease<R>, ResourceLease<R>, ResourceLease<R>),
>)
    requires
        old(registry).wf(),
    ensures
        final(registry).wf(),
        final(registry)@.id == old(registry)@.id,
        final(registry)@.next_allocated == old(registry)@.next_allocated,
        pad is Some <==> set_available(old(registry)@.slots, direction_kinds()),
        pad is None ==> final(registry)@ == old(registry)@,
        pad matches Some(p) ==> taken_from(old(registry)@, seq![p.0, p.1, p.2, p.3], direction_kinds())
            && final(registry)@.slots == leased_ids(
            old(registry)@.slots,
            lease_ids(seq![p.0, p.1, p.2, p.3]),
        ),
{
    let kinds = kinds_vec(&[Up::kind(), Down::kind(), Left::kind(), Right::kind()]);
    proof {
        assert(kinds@ =~= direction_kinds());
    }
    match registry.take_resource_set(&kinds) {
        Some(leases) => {
            let ghost all = leases@;
            let (leases, right) = split_last(leases);
            let (leases, left) = split_last(leases);
            let (leases, down) = split_last(leases);
            let up = take_one(leases);
            proof {
                assert(seq![up, down, left, right] =~= all);
            }
            Some((up, down, left, right))
        },
        None => None,
    }
}

/// Returns the direction pad.
fn return_direction_pad<R>(
    registry: &mut Registry<R>,
    up: ResourceLease<R>,
    down: ResourceLease<R>,
    left: ResourceLease<R>,
    right: ResourceLease<R>,
)
    requires
        returnable(old(registry)@, seq![up, down, left, right]),
    ensures
        final(registry).wf(),
        final(registry)@.id == old(registry)@.id,
        final(registry)@.next_allocated == old(registry)@.next_allocated,
        final(registry)@.slots == return_all(old(registry)@.slots, seq![up, down, left, right]),
{
    let mut leases: Vec<ResourceLease<R>> = Vec::new();
    leases.push(up);
    leases.push(down);
    leases.push(left);
    leases.push(right);
    proof {
        assert(leases@ =~= seq![up, down, left, right]);
    }
    registry.return_leases(leases);
}

impl<R> App<R> for NeonBeatApp<R> {
    open spec fn required_kinds() -> Seq<CapabilityKind> {
        direction_kinds()
    }

    open spec fn leases(&self) -> Seq<ResourceLease<R>> {
        seq![self.up, self.down, self.left, self.right]
    }

    fn name() -> (name: &'static str)
        ensures
            name@ == "Neon Beat"@,
    {
        "Neon Beat"
    }

    fn can_run(registry: &Registry<R>) -> (ok: bool) {
        let kinds = kinds_vec(&[Up::kind(), Down::kind(), Left::kind(), Right::kind()]);
        proof {
            assert(kinds@ =~= direction_kinds());
        }
        registry.has_resource_set(&kinds)
    }

    fn new(registry: &mut Registry<R>) -> (app: Option<Self>) {
        match take_direction_pad(registry) {
            Some((up, down, left, right)) => Some(NeonBeatApp { up, down, left, right }),
            None => None,
        }
    }

    fn release(self, registry: &mut Registry<R>) {
        return_direction_pad(registry, self.up, self.down, self.left, self.right);
    }
}

impl<R> App<R> for SnakeGameApp<R> {
    open spec fn required_kinds() -> Seq<CapabilityKind> {
        direction_kinds()
    }

    open spec fn leases(&self) -> Seq<ResourceLease<R>> {
        seq![self.up, self.down, self.left, self.right]
    }

    fn name() -> (name: &'static str)
        ensures
            name@ == "Snake"@,
    {
        "Snake"
    }

    fn can_run(registry: &Registry<R>) -> (ok: bool) {
        let kinds = kinds_vec(&[Up::kind(), Down::kind(), Left::kind(), Right::kind()]);
        proof {
            assert(kinds@ =~= direction_kinds());
        }
        registry.has_resource_set(&kinds)
    }

    fn new(registry: &mut Registry<R>) -> (app: Option<Self>) {
        match take_direction_pad(registry) {
            Some((up, down, left, right)) => Some(SnakeGameApp { up, down, left, right }),
            None => None,
        }
    }

    fn release(self, registry: &mut Registry<R>) {
        return_direction_pad(registry, self.up, self.down, self.left, self.right);
    }
}

// ── NES Emulator ─────────────────────────────────────────────────────────

/// The NES emulator: the direction pad, A, B, X (select), Y (start) and
/// the direct-video frame buffer.
pub struct NesEmulatorApp<R> {
    pub up: ResourceLease<R>,
    pub down: ResourceLease<R>,
    pub left: ResourceLease<R>,
    pub right: ResourceLease<R>,
    pub a: ResourceLease<R>,
    pub b: ResourceLease<R>,
    pub select: ResourceLease<R>,
    pub start: ResourceLease<R>,
    pub frame_buffer: ResourceLease<R>,
}

impl<R> App<R> for NesEmulatorApp<R> {
    open spec fn required_kinds() -> Seq<CapabilityKind> {
        direction_kinds() + seq![
            A::spec_kind(),
            B::spec_kind(),
            X::spec_kind(),
            Y::spec_kind(),
            FRAME_BUFFER_KIND,
        ]
    }

    open spec fn leases(&self) -> Seq<ResourceLease<R>> {
        seq![
            self.up,
            self.down,
            self.left,
            self.right,
            self.a,
            self.b,
            self.select,
            self.start,
            self.frame_buffer,
        ]
    }

    fn name() -> (name: &'static str)
        ensures
            name@ == "NES Emulator"@,
    {
        "NES Emulator"
    }

    fn can_run(registry: &Registry<R>) -> (ok: bool) {
        let kinds = kinds_vec(
            &[
                Up::kind(),
                Down::kind(),
                Left::kind(),
                Right::kind(),
                A::kind(),
                B::kind(),
                X::kind(),
                Y::kind(),
                FRAME_BUFFER_KIND,
            ],
        );
        proof {
            assert(kinds@ =~= Self::required_kinds());
        }
        registry.has_resource_set(&kinds)
    }

    fn new(registry: &mut Registry<R>) -> (app: Option<Self>) {
        let kinds = kinds_vec(
            &[
                Up::kind(),
                Down::kind(),
                Left::kind(),
                Right::kind(),
                A::kind(),
                B::kind(),
                X::kind(),
                Y::kind(),
                FRAME_BUFFER_KIND,
            ],
        );
        proof {
            assert(kinds@ =~= Self::required_kinds());
        }
        match registry.take_resource_set(&kinds) {
            Some(leases) => {
                let ghost all = leases@;
                let (leases, frame_buffer) = split_last(leases);
                let (leases, start) = split_last(leases);
                let (leases, select) = split_last(leases);
                let (leases, b) = split_last(leases);
                let (leases, a) = split_last(leases);
                let (leases, right) = split_last(leases);
                let (leases, left) = split_last(leases);
                let (leases, down) = split_last(leases);
                let up = take_one(leases);
                let app = NesEmulatorApp {
                    up,
                    down,
                    left,
                    right,
                    a,
                    b,
                    select,
                    start,
                    frame_buffer,
                };
                proof {
                    assert(app.leases() =~= all);
                }
                Some(app)
            },
            None => None,
        }
    }

    fn release(self, registry: &mut Registry<R>) {
        let mut leases: Vec<ResourceLease<R>> = Vec::new();
        leases.push(self.up);
        leases.push(self.down);
        leases.push(self.left);
        leases.push(self.right);
        leases.push(self.a);
        leases.push(self.b);
        leases.push(self.select);
        leases.push(self.start);
        leases.push(self.frame_buffer);
        proof {
            assert(leases@ =~= self.leases());
        }
        registry.return_leases(leases);
    }
}

} // verus!
