//! The capability registry.
//!
//! Drivers register physical resource groups; each group offers one or more
//! capabilities, each identified by a capability kind (a `u64` that names the
//! capability's type). Apps lease a whole group through one of its
//! capabilities and must return the lease to make the group available again.
//!
//! While a lease is outside the registry, every other capability of the same
//! group is unavailable.

use vstd::prelude::*;

use crate::metadata::{ModuleID, ModuleSlot};

verus! {

/// Identifies one kind of capability (one capability type).
pub type CapabilityKind = u64;

#[derive(Clone, Copy, Debug, PartialEq, Eq, Structural)]
enum ResourceIdKind {
    ModuleLocal { slot: ModuleSlot, local_id: u16 },
    RegistryAllocated(u32),
}

/// Identifies one physical resource group.
#[derive(Clone, Copy, Debug, PartialEq, Eq, Structural)]
pub struct ResourceId {
    kind: ResourceIdKind,
}

impl ResourceId {
    /// The module-local `(slot, local_id)` pair of this id, or `None` for a
    /// registry-allocated id.
    pub closed spec fn local_parts(self) -> Option<(ModuleSlot, u16)> {
        match self.kind {
            ResourceIdKind::ModuleLocal { slot, local_id } => Some((slot, local_id)),
            ResourceIdKind::RegistryAllocated(_) => None,
        }
    }

    /// The registry-allocated number of this id, or `None` for a module-local id.
    pub closed spec fn allocated_number(self) -> Option<u32> {
        match self.kind {
            ResourceIdKind::ModuleLocal { .. } => None,
            ResourceIdKind::RegistryAllocated(n) => Some(n),
        }
    }

    /// The id of a registry-allocated group with number `n`.
    pub closed spec fn allocated(n: u32) -> ResourceId {
        ResourceId { kind: ResourceIdKind::RegistryAllocated(n) }
    }

    /// The id of a module-local group.
    pub closed spec fn local(slot: ModuleSlot, local_id: u16) -> ResourceId {
        ResourceId { kind: ResourceIdKind::ModuleLocal { slot, local_id } }
    }

    /// Creates an id scoped to a module slot.
    pub fn module_local(slot: ModuleSlot, local_id: u16) -> (id: Self)
        ensures
            id == Self::local(slot, local_id),
            id.local_parts() == Some((slot, local_id)),
            id.allocated_number() is None,
    {
        ResourceId { kind: ResourceIdKind::ModuleLocal { slot, local_id } }
    }

    /// Returns the module-local `(slot, local_id)` pair, or `None` for a
    /// registry-allocated id.
    pub fn module_local_parts(self) -> (parts: Option<(ModuleSlot, u16)>)
        ensures
            parts == self.local_parts(),
    {
        match self.kind {
            ResourceIdKind::ModuleLocal { slot, local_id } => Some((slot, local_id)),
            ResourceIdKind::RegistryAllocated(_) => None,
        }
    }

    fn registry_allocated(id: u32) -> (r: Self)
        ensures
            r == Self::allocated(id),
            r.allocated_number() == Some(id),
            r.local_parts() is None,
    {
        ResourceId { kind: ResourceIdKind::RegistryAllocated(id) }
    }

    /// Two ids are equal exactly when their parts are.
    pub proof fn lemma_parts_determine_id(a: ResourceId, b: ResourceId)
        ensures
            (a.local_parts() == b.local_parts() && a.allocated_number() == b.allocated_number())
                <==> a == b,
    {
    }

    /// Allocated ids are distinct for distinct numbers.
    pub proof fn lemma_allocated_injective(n: u32, m: u32)
        ensures
            (Self::allocated(n) == Self::allocated(m)) <==> n == m,
            Self::allocated(n).allocated_number() == Some(n),
            Self::allocated(n).local_parts() is None,
    {
    }
}

/// Describes where a resource group originated.
#[derive(Clone, Copy, Debug, PartialEq, Eq, Structural)]
pub enum ResourceOrigin {
    Platform,
    Module,
}

/// Where a registered group came from and how it is identified.
#[derive(Clone, Copy, Debug, PartialEq, Eq, Structural)]
pub enum ResourceMetadata {
    PlatformAllocated { allocated_id: u32 },
    ModuleAllocated { allocated_id: u32, slot: ModuleSlot, module_id: ModuleID },
    ModuleLocal { local_id: u16, slot: ModuleSlot, module_id: ModuleID },
}

impl ResourceMetadata {
    /// The id of the group described by this metadata.
    pub open spec fn spec_id(self) -> ResourceId {
        match self {
            ResourceMetadata::PlatformAllocated { allocated_id } => ResourceId::allocated(
                allocated_id,
            ),
            ResourceMetadata::ModuleAllocated { allocated_id, .. } => ResourceId::allocated(
                allocated_id,
            ),
            ResourceMetadata::ModuleLocal { slot, local_id, .. } => ResourceId::local(
                slot,
                local_id,
            ),
        }
    }

    pub open spec fn spec_origin(self) -> ResourceOrigin {
        match self {
            ResourceMetadata::PlatformAllocated { .. } => ResourceOrigin::Platform,
            _ => ResourceOrigin::Module,
        }
    }

    pub open spec fn spec_slot(self) -> Option<ModuleSlot> {
        match self {
            ResourceMetadata::PlatformAllocated { .. } => None,
            ResourceMetadata::ModuleAllocated { slot, .. } => Some(slot),
            ResourceMetadata::ModuleLocal { slot, .. } => Some(slot),
        }
    }

    pub open spec fn spec_module_id(self) -> Option<ModuleID> {
        match self {
            ResourceMetadata::PlatformAllocated { .. } => None,
            ResourceMetadata::ModuleAllocated { module_id, .. } => Some(module_id),
            ResourceMetadata::ModuleLocal { module_id, .. } => Some(module_id),
        }
    }

    pub fn id(self) -> (id: ResourceId)
        ensures
            id == self.spec_id(),
    {
        match self {
            ResourceMetadata::PlatformAllocated { allocated_id } => ResourceId::registry_allocated(
                allocated_id,
            ),
            ResourceMetadata::ModuleAllocated { allocated_id, .. } => ResourceId::registry_allocated(
                allocated_id,
            ),
            ResourceMetadata::ModuleLocal { slot, local_id, .. } => ResourceId::module_local(
                slot,
                local_id,
            ),
        }
    }

    pub fn origin(self) -> (origin: ResourceOrigin)
        ensures
            origin == self.spec_origin(),
    {
        match self {
            ResourceMetadata::PlatformAllocated { .. } => ResourceOrigin::Platform,
            ResourceMetadata::ModuleAllocated { .. } => ResourceOrigin::Module,
            ResourceMetadata::ModuleLocal { .. } => ResourceOrigin::Module,
        }
    }

    pub fn slot(self) -> (slot: Option<ModuleSlot>)
        ensures
            slot == self.spec_slot(),
    {
        match self {
            ResourceMetadata::PlatformAllocated { .. } => None,
            ResourceMetadata::ModuleAllocated { slot, .. } => Some(slot),
            ResourceMetadata::ModuleLocal { slot, .. } => Some(slot),
        }
    }

    pub fn module_id(self) -> (module_id: Option<ModuleID>)
        ensures
            module_id == self.spec_module_id(),
    {
        match self {
            ResourceMetadata::PlatformAllocated { .. } => None,
            ResourceMetadata::ModuleAllocated { module_id, .. } => Some(module_id),
            ResourceMetadata::ModuleLocal { module_id, .. } => Some(module_id),
        }
    }
}

/// Errors returned when registering resource groups.
#[derive(Debug, Clone, Copy, PartialEq, Eq, Structural)]
pub enum RegistryError {
    DuplicateCapability,
    DuplicateResourceId,
}

// ── abstract model ───────────────────────────────────────────────────────

/// A registered group as seen by specifications: its metadata and its
/// capabilities in registration order.
pub struct GroupView<R> {
    pub metadata: ResourceMetadata,
    pub capabilities: Seq<(CapabilityKind, R)>,
}

/// One registered group slot: the group's id and, while it is not leased,
/// the group itself.
pub struct SlotView<R> {
    pub id: ResourceId,
    pub available: Option<GroupView<R>>,
}

/// The abstract state of a registry.
pub struct RegistryView<R> {
    pub id: u32,
    pub slots: Seq<SlotView<R>>,
    pub next_allocated: u32,
}

/// The capability kinds of a capability list, in order.
pub open spec fn kinds_of<R>(caps: Seq<(CapabilityKind, R)>) -> Seq<CapabilityKind> {
    caps.map_values(|c: (CapabilityKind, R)| c.0)
}

/// Whether a slot is available and offers capability `kind`.
pub open spec fn offers<R>(slot: SlotView<R>, kind: CapabilityKind) -> bool {
    &&& slot.available is Some
    &&& kinds_of(slot.available->0.capabilities).contains(kind)
}

/// Number of available groups offering `kind`.
pub open spec fn count_offering<R>(slots: Seq<SlotView<R>>, kind: CapabilityKind) -> nat
    decreases slots.len(),
{
    if slots.len() == 0 {
        0
    } else {
        count_offering(slots.drop_last(), kind) + if offers(slots.last(), kind) {
            1nat
        } else {
            0nat
        }
    }
}

/// Ids of the available groups offering `kind`, most recently registered first.
pub open spec fn offering_ids<R>(slots: Seq<SlotView<R>>, kind: CapabilityKind) -> Seq<ResourceId>
    decreases slots.len(),
{
    if slots.len() == 0 {
        Seq::empty()
    } else {
        (if offers(slots.last(), kind) {
            seq![slots.last().id]
        } else {
            Seq::empty()
        }) + offering_ids(slots.drop_last(), kind)
    }
}

/// Index of the most recently registered available group offering `kind`,
/// or -1 if there is none.
pub open spec fn last_offering<R>(slots: Seq<SlotView<R>>, kind: CapabilityKind) -> int
    decreases slots.len(),
{
    if slots.len() == 0 {
        -1
    } else if offers(slots.last(), kind) {
        slots.len() - 1
    } else {
        last_offering(slots.drop_last(), kind)
    }
}

/// Index of the first slot with id `id`, or -1 if there is none.
pub open spec fn index_of_id<R>(slots: Seq<SlotView<R>>, id: ResourceId) -> int
    decreases slots.len(),
{
    if slots.len() == 0 {
        -1
    } else if index_of_id(slots.drop_last(), id) >= 0 {
        index_of_id(slots.drop_last(), id)
    } else if slots.last().id == id {
        slots.len() - 1
    } else {
        -1
    }
}

/// The slot sequence with the slot at `index` leased out.
pub open spec fn leased_at<R>(slots: Seq<SlotView<R>>, index: int) -> Seq<SlotView<R>> {
    slots.update(index, SlotView { id: slots[index].id, available: None })
}

/// The slot sequence with every slot whose id is in `ids` leased out.
pub open spec fn leased_ids<R>(slots: Seq<SlotView<R>>, ids: Seq<ResourceId>) -> Seq<SlotView<R>> {
    slots.map_values(
        |s: SlotView<R>|
            if ids.contains(s.id) {
                SlotView { id: s.id, available: None }
            } else {
                s
            },
    )
}

/// The slot sequence with a new available group appended.
pub open spec fn with_group<R>(slots: Seq<SlotView<R>>, group: GroupView<R>) -> Seq<SlotView<R>> {
    slots.push(SlotView { id: group.metadata.spec_id(), available: Some(group) })
}

/// The capability lists of several groups.
pub open spec fn group_lists<R>(groups: Seq<Vec<(CapabilityKind, R)>>) -> Seq<Seq<(CapabilityKind, R)>> {
    groups.map_values(|g: Vec<(CapabilityKind, R)>| g@)
}

/// The slots after registering module groups in order, the first under
/// registry-allocated id `next`.
pub open spec fn with_groups<R>(
    slots: Seq<SlotView<R>>,
    groups: Seq<Seq<(CapabilityKind, R)>>,
    next: u32,
    slot: ModuleSlot,
    module_id: ModuleID,
) -> Seq<SlotView<R>>
    decreases groups.len(),
{
    if groups.len() == 0 {
        slots
    } else {
        with_group(
            with_groups(slots, groups.drop_last(), next, slot, module_id),
            GroupView {
                metadata: ResourceMetadata::ModuleAllocated {
                    allocated_id: (next + groups.len() - 1) as u32,
                    slot,
                    module_id,
                },
                capabilities: groups.last(),
            },
        )
    }
}

/// Whether some slot has id `id`.
pub open spec fn has_id<R>(slots: Seq<SlotView<R>>, id: ResourceId) -> bool {
    exists|i: int| 0 <= i < slots.len() && slots[i].id == id
}

/// Whether `a` assigns to each candidate list one of its ids, all different.
pub open spec fn is_extension(
    candidates: Seq<Seq<ResourceId>>,
    start: int,
    used: Seq<ResourceId>,
    ext: Seq<ResourceId>,
) -> bool {
    &&& 0 <= start <= candidates.len()
    &&& ext.len() == candidates.len() - start
    &&& forall|j: int| 0 <= j < ext.len() ==> #[trigger] candidates[start + j].contains(ext[j])
    &&& (used + ext).no_duplicates()
}

/// Whether `a` picks one id from each candidate list, all picks different.
pub open spec fn is_assignment(candidates: Seq<Seq<ResourceId>>, a: Seq<ResourceId>) -> bool {
    is_extension(candidates, 0, Seq::empty(), a)
}

/// Whether some assignment exists for the candidate lists.
pub open spec fn assignable(candidates: Seq<Seq<ResourceId>>) -> bool {
    exists|a: Seq<ResourceId>| is_assignment(candidates, a)
}

/// Whether no extension of the picks `prefix` exists from list `next` on.
pub open spec fn dead_end(candidates: Seq<Seq<ResourceId>>, next: int, prefix: Seq<ResourceId>) -> bool {
    forall|e: Seq<ResourceId>| !is_extension(candidates, next, prefix, e)
}

/// Whether the search skips entry `q` of list `i` after the picks
/// `prefix`: the id is taken already, or nothing can follow it.
pub open spec fn skipped(candidates: Seq<Seq<ResourceId>>, i: int, prefix: Seq<ResourceId>, q: int) -> bool {
    prefix.contains(candidates[i][q]) || dead_end(candidates, i + 1, prefix.push(candidates[i][q]))
}

/// Whether `x` is what the search picks from list `i` after the picks
/// `prefix`: an entry of the list all of whose predecessors are skipped.
pub open spec fn first_pick(candidates: Seq<Seq<ResourceId>>, i: int, prefix: Seq<ResourceId>, x: ResourceId) -> bool {
    exists|p: int|
        0 <= p < candidates[i].len() && candidates[i][p] == x && forall|q: int| 0 <= q < p ==> #[trigger] skipped(candidates, i, prefix, q)
}

/// Whether `ext` extends `used` as a depth-first search trying each list
/// in order finds it first.
pub open spec fn is_first_extension(
    candidates: Seq<Seq<ResourceId>>,
    start: int,
    used: Seq<ResourceId>,
    ext: Seq<ResourceId>,
) -> bool {
    &&& is_extension(candidates, start, used, ext)
    &&& forall|j: int| 0 <= j < ext.len() ==> first_pick(candidates, start + j, used + ext.take(j), #[trigger] ext[j])
}

/// Whether `a` is the assignment found first by trying each list's ids in
/// order: every pick is the first one after which the rest can still be
/// assigned.
pub open spec fn is_first_assignment(candidates: Seq<Seq<ResourceId>>, a: Seq<ResourceId>) -> bool {
    is_first_extension(candidates, 0, Seq::empty(), a)
}

/// The candidate lists of a set of capability kinds.
pub open spec fn candidates_for<R>(slots: Seq<SlotView<R>>, kinds: Seq<CapabilityKind>) -> Seq<
    Seq<ResourceId>,
> {
    kinds.map_values(|k: CapabilityKind| offering_ids(slots, k))
}

/// Whether one resource of every kind in `kinds` can be leased from
/// different available groups.
pub open spec fn set_available<R>(slots: Seq<SlotView<R>>, kinds: Seq<CapabilityKind>) -> bool {
    &&& kinds.no_duplicates()
    &&& assignable(candidates_for(slots, kinds))
}

/// The group of the slot with id `id`.
pub open spec fn group_with_id<R>(slots: Seq<SlotView<R>>, id: ResourceId) -> Option<GroupView<R>> {
    slots[index_of_id(slots, id)].available
}

/// Well-formedness of a registry state.
pub open spec fn registry_wf<R>(v: RegistryView<R>) -> bool {
    &&& forall|i: int|
        0 <= i < v.slots.len() && (#[trigger] v.slots[i]).available is Some
            ==> v.slots[i].available->0.metadata.spec_id() == v.slots[i].id
    &&& forall|i: int, j: int|
        0 <= i < v.slots.len() && 0 <= j < v.slots.len() && i != j ==> #[trigger] v.slots[i].id
            != #[trigger] v.slots[j].id
    &&& forall|i: int|
        0 <= i < v.slots.len() && (#[trigger] v.slots[i]).available is Some ==> kinds_of(
            v.slots[i].available->0.capabilities,
        ).no_duplicates()
    &&& forall|i: int|
        0 <= i < v.slots.len() ==> match (#[trigger] v.slots[i]).id.allocated_number() {
            Some(n) => n < v.next_allocated,
            None => true,
        }
}

// ── executable structures ────────────────────────────────────────────────

struct ResourceGroup<R> {
    metadata: ResourceMetadata,
    capabilities: Vec<(CapabilityKind, R)>,
}

impl<R> ResourceGroup<R> {
    closed spec fn view(&self) -> GroupView<R> {
        GroupView { metadata: self.metadata, capabilities: self.capabilities@ }
    }
}

struct ResourceGroupSlot<R> {
    id: ResourceId,
    available: Option<ResourceGroup<R>>,
}

impl<R> ResourceGroupSlot<R> {
    closed spec fn view(&self) -> SlotView<R> {
        SlotView {
            id: self.id,
            available: match self.available {
                Some(g) => Some(g.view()),
                None => None,
            },
        }
    }
}

/// Exclusive ownership of one physical resource group through one of its
/// capabilities.
///
/// While this lease is outside the registry, every other capability in the
/// same group is unavailable. Return it with [`Registry::return_resource`] to
/// restore the complete group.
pub struct ResourceLease<R> {
    registry_id: u32,
    group: ResourceGroup<R>,
    kind: CapabilityKind,
}

impl<R> ResourceLease<R> {
    /// The id of the registry the lease was taken from.
    pub closed spec fn registry(&self) -> u32 {
        self.registry_id
    }

    /// The leased group.
    pub closed spec fn group_view(&self) -> GroupView<R> {
        self.group.view()
    }

    /// The capability through which the group was leased.
    pub closed spec fn leased_kind(&self) -> CapabilityKind {
        self.kind
    }

    /// Whether the lease holds its selected capability exactly once.
    pub open spec fn wf(&self) -> bool {
        &&& kinds_of(self.group_view().capabilities).no_duplicates()
        &&& kinds_of(self.group_view().capabilities).contains(self.leased_kind())
    }

    /// The leased capability.
    pub open spec fn leased_resource(&self) -> R {
        capability_of(self.group_view().capabilities, self.leased_kind())
    }

    pub fn id(&self) -> (id: ResourceId)
        ensures
            id == self.group_view().metadata.spec_id(),
    {
        self.group.metadata.id()
    }

    pub fn origin(&self) -> (origin: ResourceOrigin)
        ensures
            origin == self.group_view().metadata.spec_origin(),
    {
        self.group.metadata.origin()
    }

    pub fn slot(&self) -> (slot: Option<ModuleSlot>)
        ensures
            slot == self.group_view().metadata.spec_slot(),
    {
        self.group.metadata.slot()
    }

    pub fn module_id(&self) -> (module_id: Option<ModuleID>)
        ensures
            module_id == self.group_view().metadata.spec_module_id(),
    {
        self.group.metadata.module_id()
    }

    /// The capability through which the group was leased.
    pub fn kind(&self) -> (kind: CapabilityKind)
        ensures
            kind == self.leased_kind(),
    {
        self.kind
    }

    /// The leased capability.
    pub fn resource(&self) -> (r: &R)
        requires
            self.wf(),
        ensures
            *r == self.leased_resource(),
    {
        let index = find_kind(&self.group.capabilities, self.kind);
        &self.group.capabilities[index].1
    }

    /// The leased capability, mutably: what is written through it lands in
    /// the leased group itself, and the group's other capabilities stay.
    pub fn resource_mut(&mut self) -> (r: &mut R)
        requires
            old(self).wf(),
        ensures
            *r == old(self).leased_resource(),
            final(self).registry() == old(self).registry(),
            final(self).leased_kind() == old(self).leased_kind(),
            final(self).group_view().metadata == old(self).group_view().metadata,
            kinds_of(final(self).group_view().capabilities) == kinds_of(
                old(self).group_view().capabilities,
            ),
            final(self).leased_resource() == *final(r),
            final(self).group_view().capabilities == old(self).group_view().capabilities.update(
                kinds_of(old(self).group_view().capabilities).index_of(old(self).leased_kind()),
                (old(self).leased_kind(), *final(r)),
            ),
            final(self).wf(),
    {
        let index = find_kind(&self.group.capabilities, self.kind);
        let ghost old_caps = self.group.capabilities@;
        let entry = &mut self.group.capabilities[index];
        proof {
            lemma_capability_of_index(old_caps, self.kind, index as int);
        }
        &mut entry.1
    }
}

/// The capability of kind `kind` in a capability list whose kinds are distinct.
pub open spec fn capability_of<R>(caps: Seq<(CapabilityKind, R)>, kind: CapabilityKind) -> R {
    caps[kinds_of(caps).index_of(kind)].1
}

proof fn lemma_capability_of_index<R>(caps: Seq<(CapabilityKind, R)>, kind: CapabilityKind, i: int)
    requires
        0 <= i < caps.len(),
        caps[i].0 == kind,
        kinds_of(caps).no_duplicates(),
    ensures
        kinds_of(caps).index_of(kind) == i,
        capability_of(caps, kind) == caps[i].1,
{
    let ks = kinds_of(caps);
    assert(ks[i] == kind);
    assert(ks.contains(kind));
    ks.index_of_first(kind);
    let j = ks.index_of(kind);
    assert(ks[j] == kind);
}

/// Position of the capability of kind `kind`.
fn find_kind<R>(caps: &Vec<(CapabilityKind, R)>, kind: CapabilityKind) -> (index: usize)
    requires
        kinds_of(caps@).contains(kind),
        kinds_of(caps@).no_duplicates(),
    ensures
        index < caps@.len(),
        caps@[index as int].0 == kind,
        kinds_of(caps@).index_of(kind) == index,
        capability_of(caps@, kind) == caps@[index as int].1,
{
    let mut i: usize = 0;
    while i < caps.len()
        invariant
            i <= caps@.len(),
            kinds_of(caps@).contains(kind),
            kinds_of(caps@).no_duplicates(),
            forall|j: int| 0 <= j < i ==> caps@[j].0 != kind,
        decreases caps@.len() - i,
    {
        if caps[i].0 == kind {
            proof {
                lemma_capability_of_index(caps@, kind, i as int);
            }
            return i;
        }
        i = i + 1;
    }
    proof {
        let ks = kinds_of(caps@);
        let j = choose|j: int| 0 <= j < ks.len() && ks[j] == kind;
        assert(caps@[j].0 == kind);
    }
    0
}

/// Whether `kind` occurs in a capability list.
fn has_kind<R>(caps: &Vec<(CapabilityKind, R)>, kind: CapabilityKind) -> (found: bool)
    ensures
        found == kinds_of(caps@).contains(kind),
{
    let mut i: usize = 0;
    while i < caps.len()
        invariant
            i <= caps@.len(),
            forall|j: int| 0 <= j < i ==> caps@[j].0 != kind,
        decreases caps@.len() - i,
    {
        if caps[i].0 == kind {
            proof {
                assert(kinds_of(caps@)[i as int] == kind);
            }
            return true;
        }
        i = i + 1;
    }
    proof {
        if kinds_of(caps@).contains(kind) {
            let j = choose|j: int| 0 <= j < kinds_of(caps@).len() && kinds_of(caps@)[j] == kind;
            assert(caps@[j].0 == kind);
        }
    }
    false
}

/// Returns whether all kinds in `kinds` are different.
pub fn types_are_distinct(kinds: &[CapabilityKind]) -> (distinct: bool)
    ensures
        distinct == kinds@.no_duplicates(),
{
    let mut i: usize = 0;
    while i < kinds.len()
        invariant
            i <= kinds@.len(),
            kinds@.take(i as int).no_duplicates(),
        decreases kinds@.len() - i,
    {
        let mut j: usize = 0;
        while j < i
            invariant
                i < kinds@.len(),
                j <= i,
                forall|k: int| 0 <= k < j ==> kinds@[k] != kinds@[i as int],
            decreases i - j,
        {
            if kinds[j] == kinds[i] {
                proof {
                    assert(!kinds@.no_duplicates()) by {
                        assert(kinds@[j as int] == kinds@[i as int]);
                    }
                }
                return false;
            }
            j = j + 1;
        }
        proof {
            let t = kinds@.take(i + 1);
            assert forall|a: int, b: int| 0 <= a < t.len() && 0 <= b < t.len() && a != b implies t[a]
                != t[b] by {
                if a < i && b < i {
                    assert(kinds@.take(i as int)[a] == t[a]);
                    assert(kinds@.take(i as int)[b] == t[b]);
                }
            }
        }
        i = i + 1;
    }
    proof {
        assert(kinds@.take(kinds@.len() as int) =~= kinds@);
    }
    true
}

/// The capability registry, generic over the stored capability value `R`.
pub struct Registry<R> {
    id: u32,
    groups: Vec<ResourceGroupSlot<R>>,
    next_registry_allocated_id: u32,
}

impl<R> View for Registry<R> {
    type V = RegistryView<R>;

    closed spec fn view(&self) -> RegistryView<R> {
        RegistryView {
            id: self.id,
            slots: self.groups@.map_values(|s: ResourceGroupSlot<R>| s.view()),
            next_allocated: self.next_registry_allocated_id,
        }
    }
}

impl<R> Registry<R> {
    /// Whether the registry is well formed.
    pub open spec fn wf(&self) -> bool {
        registry_wf(self@)
    }

    /// Creates an empty registry identified by `id`.
    ///
    /// Leases remember the id of the registry they were taken from, so each
    /// registry of a program should get its own id.
    pub fn new(id: u32) -> (registry: Self)
        ensures
            registry.wf(),
            registry@.id == id,
            registry@.slots == Seq::<SlotView<R>>::empty(),
            registry@.next_allocated == 0,
    {
        let registry = Registry { id, groups: Vec::new(), next_registry_allocated_id: 0 };
        proof {
            assert(registry@.slots =~= Seq::<SlotView<R>>::empty());
        }
        registry
    }

    /// Whether a slot with id `id` is registered.
    fn contains_id(&self, id: ResourceId) -> (found: bool)
        ensures
            found == has_id(self@.slots, id),
    {
        let mut i: usize = 0;
        while i < self.groups.len()
            invariant
                i <= self.groups@.len(),
                self@.slots.len() == self.groups@.len(),
                forall|j: int| 0 <= j < i ==> self@.slots[j].id != id,
            decreases self.groups@.len() - i,
        {
            if self.groups[i].id == id {
                proof {
                    assert(self@.slots[i as int].id == id);
                }
                return true;
            }
            i = i + 1;
        }
        false
    }

    fn insert_group(&mut self, metadata: ResourceMetadata, capabilities: Vec<(CapabilityKind, R)>) -> (result: Result<(), RegistryError>)
        requires
            old(self).wf(),
            kinds_of(capabilities@).no_duplicates(),
            match metadata.spec_id().allocated_number() {
                Some(n) => n < old(self)@.next_allocated,
                None => true,
            },
        ensures
            final(self).wf(),
            final(self)@.id == old(self)@.id,
            final(self)@.next_allocated == old(self)@.next_allocated,
            result is Err <==> has_id(old(self)@.slots, metadata.spec_id()),
            result is Err ==> final(self)@ == old(self)@ && result == Err::<(), RegistryError>(
                RegistryError::DuplicateResourceId,
            ),
            result is Ok ==> final(self)@.slots == with_group(
                old(self)@.slots,
                GroupView { metadata, capabilities: capabilities@ },
            ),
    {
        let id = metadata.id();
        if self.contains_id(id) {
            return Err(RegistryError::DuplicateResourceId);
        }
        let ghost old_slots = self@.slots;
        self.groups.push(
            ResourceGroupSlot { id, available: Some(ResourceGroup { metadata, capabilities }) },
        );
        proof {
            assert(self@.slots =~= with_group(
                old_slots,
                GroupView { metadata, capabilities: capabilities@ },
            ));
        }
        Ok(())
    }

    fn next_registry_allocated_id(&mut self) -> (id: u32)
        requires
            old(self).wf(),
            old(self)@.next_allocated < u32::MAX,
        ensures
            final(self).wf(),
            id == old(self)@.next_allocated,
            final(self)@.next_allocated == id + 1,
            final(self)@.slots == old(self)@.slots,
            final(self)@.id == old(self)@.id,
            !has_id(old(self)@.slots, ResourceId::allocated(id)),
    {
        let id = self.next_registry_allocated_id;
        proof {
            if has_id(self@.slots, ResourceId::allocated(id)) {
                let i = choose|i: int|
                    0 <= i < self@.slots.len() && self@.slots[i].id == ResourceId::allocated(id);
                ResourceId::lemma_allocated_injective(id, id);
                assert(match self@.slots[i].id.allocated_number() {
                    Some(n) => n < self@.next_allocated,
                    None => true,
                });
            }
        }
        self.next_registry_allocated_id = self.next_registry_allocated_id + 1;
        id
    }

    /// Registers a module resource as a single-capability physical group.
    pub fn register(&mut self, slot: ModuleSlot, module_id: ModuleID, kind: CapabilityKind, resource: R)
        requires
            old(self).wf(),
            old(self)@.next_allocated < u32::MAX,
        ensures
            final(self).wf(),
            final(self)@.id == old(self)@.id,
            final(self)@.next_allocated == old(self)@.next_allocated + 1,
            final(self)@.slots == with_group(
                old(self)@.slots,
                GroupView {
                    metadata: ResourceMetadata::ModuleAllocated {
                        allocated_id: old(self)@.next_allocated,
                        slot,
                        module_id,
                    },
                    capabilities: seq![(kind, resource)],
                },
            ),
    {
        let allocated_id = self.next_registry_allocated_id();
        let capabilities = single_capability(kind, resource);
        let result = self.insert_group(
            ResourceMetadata::ModuleAllocated { allocated_id, slot, module_id },
            capabilities,
        );
        proof {
            ResourceId::lemma_allocated_injective(allocated_id, allocated_id);
        }
        assert(result is Ok);
    }

    /// Registers several logical capabilities backed by one physical module
    /// resource.
    pub fn register_group(
        &mut self,
        slot: ModuleSlot,
        module_id: ModuleID,
        capabilities: Vec<(CapabilityKind, R)>,
    ) -> (result: Result<(), RegistryError>)
        requires
            old(self).wf(),
            kinds_of(capabilities@).no_duplicates() ==> old(self)@.next_allocated < u32::MAX,
        ensures
            final(self).wf(),
            final(self)@.id == old(self)@.id,
            result is Err <==> !kinds_of(capabilities@).no_duplicates(),
            result is Err ==> result == Err::<(), RegistryError>(RegistryError::DuplicateCapability)
                && final(self)@ == old(self)@,
            result is Ok ==> final(self)@.next_allocated == old(self)@.next_allocated + 1
                && final(self)@.slots == with_group(
                old(self)@.slots,
                GroupView {
                    metadata: ResourceMetadata::ModuleAllocated {
                        allocated_id: old(self)@.next_allocated,
                        slot,
                        module_id,
                    },
                    capabilities: capabilities@,
                },
            ),
    {
        if !capabilities_distinct(&capabilities) {
            return Err(RegistryError::DuplicateCapability);
        }
        let allocated_id = self.next_registry_allocated_id();
        let result = self.insert_group(
            ResourceMetadata::ModuleAllocated { allocated_id, slot, module_id },
            capabilities,
        );
        proof {
            ResourceId::lemma_allocated_injective(allocated_id, allocated_id);
        }
        assert(result is Ok);
        result
    }

    /// Registers several physical module groups at once: either all of
    /// them, each under the next registry-allocated id in order, or, when
    /// some group repeats a capability kind, none.
    pub fn register_groups(
        &mut self,
        slot: ModuleSlot,
        module_id: ModuleID,
        groups: Vec<Vec<(CapabilityKind, R)>>,
    ) -> (result: Result<(), RegistryError>)
        requires
            old(self).wf(),
            (forall|i: int| 0 <= i < groups@.len() ==> kinds_of(#[trigger] groups@[i]@).no_duplicates())
                ==> old(self)@.next_allocated + groups@.len() <= u32::MAX,
        ensures
            final(self).wf(),
            final(self)@.id == old(self)@.id,
            result is Err <==> exists|i: int|
                0 <= i < groups@.len() && !kinds_of(#[trigger] groups@[i]@).no_duplicates(),
            result is Err ==> result == Err::<(), RegistryError>(RegistryError::DuplicateCapability)
                && final(self)@ == old(self)@,
            result is Ok ==> final(self)@.next_allocated == old(self)@.next_allocated + groups@.len()
                && final(self)@.slots == with_groups(
                old(self)@.slots,
                group_lists(groups@),
                old(self)@.next_allocated,
                slot,
                module_id,
            ),
    {
        let mut i: usize = 0;
        while i < groups.len()
            invariant
                i <= groups@.len(),
                self.wf(),
                self@ == old(self)@,
                forall|j: int| 0 <= j < i ==> kinds_of(#[trigger] groups@[j]@).no_duplicates(),
            decreases groups@.len() - i,
        {
            if !capabilities_distinct(&groups[i]) {
                return Err(RegistryError::DuplicateCapability);
            }
            i = i + 1;
        }
        let ghost start = self@;
        let ghost all = group_lists(groups@);
        let mut groups = groups;
        let mut done: usize = 0;
        let count = groups.len();
        while groups.len() > 0
            invariant
                self.wf(),
                self@.id == start.id,
                done + groups@.len() == count,
                count == all.len(),
                start.next_allocated + count <= u32::MAX,
                self@.next_allocated == start.next_allocated + done,
                group_lists(groups@) == all.skip(done as int),
                forall|j: int| 0 <= j < groups@.len() ==> kinds_of(#[trigger] groups@[j]@).no_duplicates(),
                self@.slots == with_groups(start.slots, all.take(done as int), start.next_allocated, slot, module_id),
            decreases groups@.len(),
        {
            let ghost before = groups@;
            let capabilities = groups.remove(0);
            proof {
                assert(group_lists(groups@) =~= group_lists(before).skip(1));
                assert(group_lists(before)[0] == before[0]@);
                assert(all.skip(done as int)[0] == all[done as int]);
                assert(all[done as int] == capabilities@);
            }
            let allocated_id = self.next_registry_allocated_id();
            let result = self.insert_group(
                ResourceMetadata::ModuleAllocated { allocated_id, slot, module_id },
                capabilities,
            );
            proof {
                ResourceId::lemma_allocated_injective(allocated_id, allocated_id);
                let taken = all.take(done + 1);
                assert(taken.drop_last() =~= all.take(done as int));
                assert(all.skip(done + 1) =~= all.skip(done as int).skip(1));
            }
            assert(result is Ok);
            done = done + 1;
        }
        proof {
            assert(all.take(count as int) =~= all);
        }
        Ok(())
    }

    /// Registers a physical module group with a stable driver-defined local ID.
    pub fn register_local_group(
        &mut self,
        slot: ModuleSlot,
        module_id: ModuleID,
        local_id: u16,
        capabilities: Vec<(CapabilityKind, R)>,
    ) -> (result: Result<(), RegistryError>)
        requires
            old(self).wf(),
        ensures
            final(self).wf(),
            final(self)@.id == old(self)@.id,
            final(self)@.next_allocated == old(self)@.next_allocated,
            !kinds_of(capabilities@).no_duplicates() ==> result == Err::<(), RegistryError>(
                RegistryError::DuplicateCapability,
            ),
            kinds_of(capabilities@).no_duplicates() && has_id(
                old(self)@.slots,
                ResourceId::local(slot, local_id),
            ) ==> result == Err::<(), RegistryError>(RegistryError::DuplicateResourceId),
            result is Err ==> final(self)@ == old(self)@,
            result is Ok <==> kinds_of(capabilities@).no_duplicates() && !has_id(
                old(self)@.slots,
                ResourceId::local(slot, local_id),
            ),
            result is Ok ==> final(self)@.slots == with_group(
                old(self)@.slots,
                GroupView {
                    metadata: ResourceMetadata::ModuleLocal { local_id, slot, module_id },
                    capabilities: capabilities@,
                },
            ),
    {
        if !capabilities_distinct(&capabilities) {
            return Err(RegistryError::DuplicateCapability);
        }
        proof {
            assert(ResourceId::local(slot, local_id).allocated_number() is None);
        }
        self.insert_group(ResourceMetadata::ModuleLocal { local_id, slot, module_id }, capabilities)
    }

    /// Registers a platform resource as a single-capability physical group.
    pub fn register_platform(&mut self, kind: CapabilityKind, resource: R)
        requires
            old(self).wf(),
            old(self)@.next_allocated < u32::MAX,
        ensures
            final(self).wf(),
            final(self)@.id == old(self)@.id,
            final(self)@.next_allocated == old(self)@.next_allocated + 1,
            final(self)@.slots == with_group(
                old(self)@.slots,
                GroupView {
                    metadata: ResourceMetadata::PlatformAllocated {
                        allocated_id: old(self)@.next_allocated,
                    },
                    capabilities: seq![(kind, resource)],
                },
            ),
    {
        let allocated_id = self.next_registry_allocated_id();
        let capabilities = single_capability(kind, resource);
        let result = self.insert_group(
            ResourceMetadata::PlatformAllocated { allocated_id },
            capabilities,
        );
        proof {
            ResourceId::lemma_allocated_injective(allocated_id, allocated_id);
        }
        assert(result is Ok);
    }

    /// Registers several logical capabilities backed by one physical platform
    /// resource.
    pub fn register_platform_group(&mut self, capabilities: Vec<(CapabilityKind, R)>) -> (result:
        Result<(), RegistryError>)
        requires
            old(self).wf(),
            kinds_of(capabilities@).no_duplicates() ==> old(self)@.next_allocated < u32::MAX,
        ensures
            final(self).wf(),
            final(self)@.id == old(self)@.id,
            result is Err <==> !kinds_of(capabilities@).no_duplicates(),
            result is Err ==> result == Err::<(), RegistryError>(RegistryError::DuplicateCapability)
                && final(self)@ == old(self)@,
            result is Ok ==> final(self)@.next_allocated == old(self)@.next_allocated + 1
                && final(self)@.slots == with_group(
                old(self)@.slots,
                GroupView {
                    metadata: ResourceMetadata::PlatformAllocated {
                        allocated_id: old(self)@.next_allocated,
                    },
                    capabilities: capabilities@,
                },
            ),
    {
        if !capabilities_distinct(&capabilities) {
            return Err(RegistryError::DuplicateCapability);
        }
        let allocated_id = self.next_registry_allocated_id();
        let result = self.insert_group(
            ResourceMetadata::PlatformAllocated { allocated_id },
            capabilities,
        );
        proof {
            ResourceId::lemma_allocated_injective(allocated_id, allocated_id);
        }
        assert(result is Ok);
        result
    }

    /// Whether the slot at `index` is available and offers `kind`.
    fn slot_offers(&self, index: usize, kind: CapabilityKind) -> (found: bool)
        requires
            index < self@.slots.len(),
        ensures
            found == offers(self@.slots[index as int], kind),
    {
        match &self.groups[index].available {
            Some(group) => has_kind(&group.capabilities, kind),
            None => false,
        }
    }

    /// Returns the number of currently available groups providing `kind`.
    pub fn resource_count(&self, kind: CapabilityKind) -> (count: usize)
        ensures
            count == count_offering(self@.slots, kind),
    {
        let mut count: usize = 0;
        let mut i: usize = 0;
        while i < self.groups.len()
            invariant
                i <= self.groups@.len(),
                self@.slots.len() == self.groups@.len(),
                count == count_offering(self@.slots.take(i as int), kind),
                count <= i,
            decreases self.groups@.len() - i,
        {
            proof {
                assert(self@.slots.take(i + 1).drop_last() =~= self@.slots.take(i as int));
            }
            if self.slot_offers(i, kind) {
                count = count + 1;
            }
            i = i + 1;
        }
        proof {
            assert(self@.slots.take(i as int) =~= self@.slots);
        }
        count
    }

    /// Whether at least one available group provides `kind`.
    pub fn has(&self, kind: CapabilityKind) -> (found: bool)
        ensures
            found == (count_offering(self@.slots, kind) >= 1),
    {
        self.has_at_least(kind, 1)
    }

    /// Whether at least `count` available groups provide `kind`.
    pub fn has_at_least(&self, kind: CapabilityKind, count: usize) -> (found: bool)
        ensures
            found == (count_offering(self@.slots, kind) >= count),
    {
        self.resource_count(kind) >= count
    }
}


impl<R> Registry<R> {
    /// Leases the group at `index` through capability `kind`.
    fn take_group_capability(&mut self, index: usize, kind: CapabilityKind) -> (lease: ResourceLease<R>)
        requires
            old(self).wf(),
            index < old(self)@.slots.len(),
            offers(old(self)@.slots[index as int], kind),
        ensures
            final(self).wf(),
            final(self)@.id == old(self)@.id,
            final(self)@.next_allocated == old(self)@.next_allocated,
            final(self)@.slots == leased_at(old(self)@.slots, index as int),
            lease.registry() == old(self)@.id,
            lease.leased_kind() == kind,
            lease.group_view() == old(self)@.slots[index as int].available->0,
            lease.wf(),
    {
        let ghost old_view = self@;
        let taken = self.groups[index].available.take();
        proof {
            assert(self@.slots =~= leased_at(old_view.slots, index as int));
            assert(old_view.slots[index as int].available is Some);
        }
        match taken {
            Some(group) => {
                proof {
                    assert(group.view() == old_view.slots[index as int].available->0);
                }
                ResourceLease { registry_id: self.id, group, kind }
            },
            None => {
                proof {
                    assert(false);
                }
                ResourceLease {
                    registry_id: self.id,
                    group: ResourceGroup {
                        metadata: ResourceMetadata::PlatformAllocated { allocated_id: 0 },
                        capabilities: Vec::new(),
                    },
                    kind,
                }
            },
        }
    }

    /// Leases one available physical group through capability `kind`: the
    /// most recently registered group offering it.
    pub fn take_resource(&mut self, kind: CapabilityKind) -> (lease: Option<ResourceLease<R>>)
        requires
            old(self).wf(),
        ensures
            final(self).wf(),
            final(self)@.id == old(self)@.id,
            final(self)@.next_allocated == old(self)@.next_allocated,
            lease is Some <==> count_offering(old(self)@.slots, kind) >= 1,
            lease is None ==> final(self)@ == old(self)@,
            lease matches Some(l) ==> {
                let i = last_offering(old(self)@.slots, kind);
                &&& 0 <= i < old(self)@.slots.len()
                &&& l.registry() == old(self)@.id
                &&& l.leased_kind() == kind
                &&& l.group_view() == old(self)@.slots[i].available->0
                &&& l.wf()
                &&& final(self)@.slots == leased_at(old(self)@.slots, i)
            },
    {
        proof {
            lemma_last_offering(self@.slots, kind);
        }
        let ghost old_view = self@;
        let mut i: usize = self.groups.len();
        proof {
            assert(self@.slots.take(i as int) =~= self@.slots);
        }
        while i > 0
            invariant
                i <= self.groups@.len(),
                self@ == old_view,
                old_view == old(self)@,
                registry_wf(self@),
                self@.slots.len() == self.groups@.len(),
                last_offering(self@.slots, kind) == last_offering(self@.slots.take(i as int), kind),
            decreases i,
        {
            let j = i - 1;
            if self.slot_offers(j, kind) {
                proof {
                    let t = self@.slots.take(i as int);
                    assert(t.last() == self@.slots[j as int]);
                    assert(last_offering(t, kind) == j);
                    lemma_last_offering(self@.slots, kind);
                }
                return Some(self.take_group_capability(j, kind));
            }
            proof {
                let t = self@.slots.take(i as int);
                assert(t.last() == self@.slots[j as int]);
                assert(t.drop_last() =~= self@.slots.take(j as int));
            }
            i = j;
        }
        proof {
            assert(self@.slots.take(0) =~= Seq::<SlotView<R>>::empty());
        }
        None
    }

    /// Returns a lease and makes its complete physical group available again.
    pub fn return_resource(&mut self, lease: ResourceLease<R>)
        requires
            old(self).wf(),
            lease.wf(),
            lease.registry() == old(self)@.id,
            has_id(old(self)@.slots, lease.group_view().metadata.spec_id()),
            old(self)@.slots[index_of_id(
                old(self)@.slots,
                lease.group_view().metadata.spec_id(),
            )].available is None,
        ensures
            final(self).wf(),
            final(self)@.id == old(self)@.id,
            final(self)@.next_allocated == old(self)@.next_allocated,
            final(self)@.slots == old(self)@.slots.update(
                index_of_id(old(self)@.slots, lease.group_view().metadata.spec_id()),
                SlotView {
                    id: lease.group_view().metadata.spec_id(),
                    available: Some(lease.group_view()),
                },
            ),
    {
        let ghost lease_group = lease.group_view();
        let group = lease.group;
        proof {
            assert(lease_group == group.view());
        }
        let id = group.metadata.id();
        let ghost old_view = self@;
        let ghost target = index_of_id(old_view.slots, id);
        proof {
            lemma_index_of_id(old_view, id);
        }
        let mut i: usize = 0;
        while i < self.groups.len()
            invariant
                i <= self.groups@.len(),
                self@ == old_view,
                old_view == old(self)@,
                registry_wf(old_view),
                self@.slots.len() == self.groups@.len(),
                0 <= target < self@.slots.len(),
                target == index_of_id(old_view.slots, id),
                self@.slots[target].id == id,
                lease_group == group.view(),
                lease_group == lease.group_view(),
                kinds_of(lease_group.capabilities).no_duplicates(),
                id == lease_group.metadata.spec_id(),
                forall|j: int| 0 <= j < i ==> self@.slots[j].id != id,
            decreases self.groups@.len() - i,
        {
            if self.groups[i].id == id {
                proof {
                    assert(self@.slots[i as int].id == id);
                    if i as int != target {
                        assert(self@.slots[i as int].id != self@.slots[target].id);
                    }
                }
                proof {
                    assert(i as int == target);
                    assert(kinds_of(lease_group.capabilities).no_duplicates());
                }
                self.groups[i].available = Some(group);
                proof {
                    assert(self@.slots =~= old_view.slots.update(
                        target,
                        SlotView { id, available: Some(group.view()) },
                    ));
                    let nv = self@;
                    assert(lease_group == group.view());
                    assert forall|k: int|
                        0 <= k < nv.slots.len() && (#[trigger] nv.slots[k]).available is Some
                            implies nv.slots[k].available->0.metadata.spec_id() == nv.slots[k].id
                        && kinds_of(nv.slots[k].available->0.capabilities).no_duplicates() by {
                        if k != target {
                            assert(nv.slots[k] == old_view.slots[k]);
                        }
                    }
                    assert forall|k: int| 0 <= k < nv.slots.len() implies match (#[trigger] nv.slots[k]).id.allocated_number() {
                        Some(n) => n < nv.next_allocated,
                        None => true,
                    } by {
                        assert(nv.slots[k].id == old_view.slots[k].id);
                    }
                    assert forall|a: int, b: int|
                        0 <= a < nv.slots.len() && 0 <= b < nv.slots.len() && a != b implies #[trigger] nv.slots[a].id
                            != #[trigger] nv.slots[b].id by {
                        assert(nv.slots[a].id == old_view.slots[a].id);
                        assert(nv.slots[b].id == old_view.slots[b].id);
                    }
                }
                return;
            }
            i = i + 1;
        }
        proof {
            assert(self@.slots[target].id == id);
            assert(false);
        }
    }
}


impl<R> Registry<R> {
    /// Ids of the available groups providing `kind`, most recently
    /// registered first.
    fn resource_ids(&self, kind: CapabilityKind) -> (ids: Vec<ResourceId>)
        ensures
            ids@ == offering_ids(self@.slots, kind),
    {
        let mut ids: Vec<ResourceId> = Vec::new();
        let mut i: usize = self.groups.len();
        proof {
            assert(self@.slots.take(i as int) =~= self@.slots);
            assert(ids@ + offering_ids(self@.slots.take(i as int), kind) =~= offering_ids(self@.slots, kind));
        }
        while i > 0
            invariant
                i <= self.groups@.len(),
                self@.slots.len() == self.groups@.len(),
                ids@ + offering_ids(self@.slots.take(i as int), kind) == offering_ids(self@.slots, kind),
            decreases i,
        {
            let j = i - 1;
            let ghost t = self@.slots.take(i as int);
            proof {
                assert(t.last() == self@.slots[j as int]);
                assert(t.drop_last() =~= self@.slots.take(j as int));
            }
            let ghost before = ids@;
            if self.slot_offers(j, kind) {
                ids.push(self.groups[j].id);
                proof {
                    assert(ids@ + offering_ids(self@.slots.take(j as int), kind) =~= before
                        + offering_ids(t, kind));
                }
            } else {
                proof {
                    assert(ids@ + offering_ids(self@.slots.take(j as int), kind) =~= before
                        + offering_ids(t, kind));
                }
            }
            i = j;
        }
        proof {
            assert(self@.slots.take(0) =~= Seq::<SlotView<R>>::empty());
            assert(ids@ + Seq::<ResourceId>::empty() =~= ids@);
        }
        ids
    }

    /// Leases the group with id `id` through capability `kind`.
    fn take_resource_with_id(&mut self, id: ResourceId, kind: CapabilityKind) -> (lease: ResourceLease<R>)
        requires
            old(self).wf(),
            has_id(old(self)@.slots, id),
            offers(old(self)@.slots[index_of_id(old(self)@.slots, id)], kind),
        ensures
            final(self).wf(),
            final(self)@.id == old(self)@.id,
            final(self)@.next_allocated == old(self)@.next_allocated,
            final(self)@.slots == leased_at(old(self)@.slots, index_of_id(old(self)@.slots, id)),
            lease.registry() == old(self)@.id,
            lease.leased_kind() == kind,
            lease.group_view() == old(self)@.slots[index_of_id(old(self)@.slots, id)].available->0,
            lease.wf(),
    {
        proof {
            lemma_index_of_id(self@, id);
        }
        let ghost target = index_of_id(self@.slots, id);
        let mut i: usize = 0;
        while i < self.groups.len()
            invariant
                i <= self.groups@.len(),
                self@ == old(self)@,
                registry_wf(self@),
                self@.slots.len() == self.groups@.len(),
                target == index_of_id(self@.slots, id),
                0 <= target < self@.slots.len(),
                self@.slots[target].id == id,
                offers(self@.slots[target], kind),
                forall|j: int| 0 <= j < i ==> self@.slots[j].id != id,
            decreases self.groups@.len() - i,
        {
            if self.groups[i].id == id {
                proof {
                    assert(self@.slots[i as int].id == id);
                    if i as int != target {
                        assert(self@.slots[i as int].id != self@.slots[target].id);
                    }
                    assert(i as int == target);
                }
                return self.take_group_capability(i, kind);
            }
            i = i + 1;
        }
        proof {
            assert(self@.slots[target].id == id);
            assert(false);
        }
        self.take_group_capability(0, kind)
    }

    /// Atomically leases `count` different groups through capability
    /// `kind`: the `count` most recently registered groups offering it.
    pub fn take_resources(&mut self, kind: CapabilityKind, count: usize) -> (leases: Option<Vec<ResourceLease<R>>>)
        requires
            old(self).wf(),
        ensures
            final(self).wf(),
            final(self)@.id == old(self)@.id,
            final(self)@.next_allocated == old(self)@.next_allocated,
            leases is Some <==> count_offering(old(self)@.slots, kind) >= count,
            leases is None ==> final(self)@ == old(self)@,
            leases matches Some(ls) ==> {
                let ids = offering_ids(old(self)@.slots, kind).take(count as int);
                &&& ls@.len() == count
                &&& lease_ids(ls@) == ids
                &&& final(self)@.slots == leased_ids(old(self)@.slots, ids)
                &&& forall|j: int| 0 <= j < count ==> {
                    &&& (#[trigger] ls@[j]).registry() == old(self)@.id
                    &&& ls@[j].leased_kind() == kind
                    &&& ls@[j].wf()
                    &&& Some(ls@[j].group_view()) == group_with_id(old(self)@.slots, ids[j])
                }
            },
    {
        proof {
            lemma_offering_ids(self@, kind);
        }
        if count == 0 {
            proof {
                assert(self@.slots =~= leased_ids(self@.slots, Seq::<ResourceId>::empty()));
                assert(lease_ids(Seq::<ResourceLease<R>>::empty()) =~= Seq::<ResourceId>::empty());
                assert(offering_ids(self@.slots, kind).take(0) =~= Seq::<ResourceId>::empty());
            }
            return Some(Vec::new());
        }
        let ids = self.resource_ids(kind);
        if ids.len() < count {
            return None;
        }
        let ghost wanted = ids@.take(count as int);
        let mut leases: Vec<ResourceLease<R>> = Vec::new();
        let mut j: usize = 0;
        proof {
            assert(wanted.take(0) =~= Seq::<ResourceId>::empty());
            assert(old(self)@.slots =~= leased_ids(old(self)@.slots, wanted.take(0)));
            assert(lease_ids(leases@) =~= wanted.take(0));
        }
        while j < count
            invariant
                j <= count,
                count <= ids@.len(),
                ids@ == offering_ids(old(self)@.slots, kind),
                wanted == ids@.take(count as int),
                ids@.no_duplicates(),
                forall|x: ResourceId| #[trigger] ids@.contains(x) ==> has_id(old(self)@.slots, x)
                    && offers(old(self)@.slots[index_of_id(old(self)@.slots, x)], kind),
                registry_wf(old(self)@),
                self.wf(),
                self@.id == old(self)@.id,
                self@.next_allocated == old(self)@.next_allocated,
                self@.slots == leased_ids(old(self)@.slots, wanted.take(j as int)),
                leases@.len() == j,
                lease_ids(leases@) == wanted.take(j as int),
                forall|k: int| 0 <= k < j ==> {
                    &&& (#[trigger] leases@[k]).registry() == old(self)@.id
                    &&& leases@[k].leased_kind() == kind
                    &&& leases@[k].wf()
                    &&& Some(leases@[k].group_view()) == group_with_id(old(self)@.slots, wanted[k])
                },
            decreases count - j,
        {
            let id = ids[j];
            proof {
                assert(ids@.contains(id));
                assert(!wanted.take(j as int).contains(id)) by {
                    if wanted.take(j as int).contains(id) {
                        let k = choose|k: int| 0 <= k < j && wanted.take(j as int)[k] == id;
                        assert(ids@[k] == ids@[j as int]);
                    }
                }
                lemma_leased_ids_step(old(self)@, wanted.take(j as int), id);
                assert(wanted.take(j as int).push(id) =~= wanted.take(j + 1));
            }
            let lease = self.take_resource_with_id(id, kind);
            proof {
                let prev = leased_ids(old(self)@.slots, wanted.take(j as int));
                let idx = index_of_id(prev, id);
                lemma_index_of_id(old(self)@, id);
                lemma_leased_ids_step(old(self)@, wanted.take(j as int), id);
                assert(prev[idx].id == id);
                assert(lease.group_view() == prev[idx].available->0);
            }
            let ghost before = leases@;
            leases.push(lease);
            proof {
                assert(lease_ids(leases@) =~= lease_ids(before).push(id));
                assert forall|k: int| 0 <= k < j + 1 implies {
                    &&& (#[trigger] leases@[k]).registry() == old(self)@.id
                    &&& leases@[k].leased_kind() == kind
                    &&& leases@[k].wf()
                    &&& Some(leases@[k].group_view()) == group_with_id(old(self)@.slots, wanted[k])
                } by {
                    if k < j {
                        assert(leases@[k] == before[k]);
                    }
                }
            }
            j = j + 1;
        }
        Some(leases)
    }
}


/// The candidate lists as sequences.
pub open spec fn candidate_lists(candidates: Seq<Vec<ResourceId>>) -> Seq<Seq<ResourceId>> {
    candidates.map_values(|v: Vec<ResourceId>| v@)
}

/// Whether `id` occurs in `ids`.
fn contains_resource_id(ids: &Vec<ResourceId>, id: ResourceId) -> (found: bool)
    ensures
        found == ids@.contains(id),
{
    let mut i: usize = 0;
    while i < ids.len()
        invariant
            i <= ids@.len(),
            forall|j: int| 0 <= j < i ==> ids@[j] != id,
        decreases ids@.len() - i,
    {
        if ids[i] == id {
            proof {
                assert(ids@[i as int] == id);
            }
            return true;
        }
        i = i + 1;
    }
    false
}

/// Depth-first search for distinct picks for the candidate lists from
/// `candidate_index` on, given the picks `used` made so far.
fn assign(candidates: &Vec<Vec<ResourceId>>, candidate_index: usize, used: &mut Vec<ResourceId>) -> (found: bool)
    requires
        candidate_index <= candidates@.len(),
        old(used)@.len() == candidate_index,
        old(used)@.no_duplicates(),
    ensures
        found ==> final(used)@.len() == candidates@.len() && final(used)@.take(
            candidate_index as int,
        ) == old(used)@ && is_first_extension(
            candidate_lists(candidates@),
            candidate_index as int,
            old(used)@,
            final(used)@.skip(candidate_index as int),
        ),
        !found ==> final(used)@ == old(used)@ && forall|ext: Seq<ResourceId>|
            !is_extension(candidate_lists(candidates@), candidate_index as int, old(used)@, ext),
    decreases candidates@.len() - candidate_index,
{
    let ghost cands = candidate_lists(candidates@);
    if candidate_index == candidates.len() {
        proof {
            assert(used@.skip(candidate_index as int) =~= Seq::<ResourceId>::empty());
            assert(used@ + Seq::<ResourceId>::empty() =~= used@);
            assert(used@.take(candidate_index as int) =~= used@);
        }
        return true;
    }
    let list = &candidates[candidate_index];
    proof {
        assert(cands[candidate_index as int] == list@);
    }
    let mut k: usize = 0;
    while k < list.len()
        invariant
            k <= list@.len(),
            candidate_index < candidates@.len(),
            candidate_index < candidates.len(),
            cands == candidate_lists(candidates@),
            cands[candidate_index as int] == list@,
            used@ == old(used)@,
            old(used)@.len() == candidate_index,
            old(used)@.no_duplicates(),
            forall|j: int|
                0 <= j < k && !old(used)@.contains(#[trigger] list@[j]) ==> forall|ext: Seq<ResourceId>|
                    !#[trigger] is_extension(cands, candidate_index + 1, old(used)@.push(list@[j]), ext),
        decreases list@.len() - k,
    {
        let id = list[k];
        if !contains_resource_id(used, id) {
            used.push(id);
            proof {
                assert(used@.no_duplicates()) by {
                    assert forall|a: int, b: int| 0 <= a < used@.len() && 0 <= b < used@.len() && a != b implies used@[a]
                        != used@[b] by {
                        if a == used@.len() - 1 {
                            assert(used@[b] == old(used)@[b]);
                            if old(used)@[b] == id {
                                assert(old(used)@.contains(id));
                            }
                        } else if b == used@.len() - 1 {
                            assert(used@[a] == old(used)@[a]);
                            if old(used)@[a] == id {
                                assert(old(used)@.contains(id));
                            }
                        } else {
                            assert(used@[a] == old(used)@[a]);
                            assert(used@[b] == old(used)@[b]);
                        }
                    }
                }
            }
            let ghost pushed = used@;
            if assign(candidates, candidate_index + 1, used) {
                proof {
                    let fin = used@;
                    let ext = fin.skip(candidate_index as int);
                    let ext1 = fin.skip(candidate_index + 1);
                    assert(fin.take(candidate_index + 1) == pushed);
                    assert(fin.take(candidate_index as int) =~= old(used)@) by {
                        assert forall|i: int| 0 <= i < candidate_index implies fin.take(candidate_index as int)[i]
                            == old(used)@[i] by {
                            assert(fin[i] == fin.take(candidate_index + 1)[i]);
                            assert(pushed[i] == old(used)@[i]);
                        }
                    }
                    assert(ext[0] == id) by {
                        assert(fin[candidate_index as int] == fin.take(candidate_index + 1)[candidate_index as int]);
                    }
                    assert(ext.drop_first() =~= ext1);
                    assert forall|j: int| 0 <= j < ext.len() implies #[trigger] cands[candidate_index + j].contains(ext[j]) by {
                        if j == 0 {
                            assert(list@[k as int] == id);
                        } else {
                            assert(ext[j] == ext1[j - 1]);
                            assert(cands[(candidate_index + 1) + (j - 1)].contains(ext1[j - 1]));
                        }
                    }
                    assert(old(used)@ + ext =~= pushed + ext1) by {
                        assert(pushed =~= old(used)@.push(id));
                    }
                    assert forall|j: int| 0 <= j < ext.len() implies first_pick(
                        cands,
                        candidate_index + j,
                        old(used)@ + ext.take(j),
                        #[trigger] ext[j],
                    ) by {
                        if j == 0 {
                            assert(old(used)@ + ext.take(0) =~= old(used)@);
                            assert forall|q: int| 0 <= q < k implies #[trigger] skipped(
                                cands,
                                candidate_index as int,
                                old(used)@,
                                q,
                            ) by {
                                assert(cands[candidate_index as int][q] == list@[q]);
                            }
                            assert(cands[candidate_index + 0][k as int] == ext[0]);
                        } else {
                            assert(ext[j] == ext1[j - 1]);
                            assert(first_pick(cands, (candidate_index + 1) + (j - 1), pushed + ext1.take(j - 1), ext1[j - 1]));
                            assert(pushed + ext1.take(j - 1) =~= old(used)@ + ext.take(j)) by {
                                assert(pushed =~= old(used)@.push(id));
                            }
                        }
                    }
                }
                return true;
            }
            used.pop();
            proof {
                assert(used@ =~= old(used)@);
                assert(pushed =~= old(used)@.push(id));
            }
        }
        k = k + 1;
    }
    proof {
        assert forall|ext: Seq<ResourceId>| !is_extension(cands, candidate_index as int, old(used)@, ext) by {
            if is_extension(cands, candidate_index as int, old(used)@, ext) {
                let e = ext[0];
                assert(cands[candidate_index + 0].contains(ext[0]));
                let j = choose|j: int| 0 <= j < list@.len() && list@[j] == e;
                let all = old(used)@ + ext;
                assert(all[old(used)@.len() as int] == e);
                assert(!old(used)@.contains(e)) by {
                    if old(used)@.contains(e) {
                        let m = choose|m: int| 0 <= m < old(used)@.len() && old(used)@[m] == e;
                        assert(all[m] == e);
                    }
                }
                let rest = ext.drop_first();
                assert(old(used)@.push(e) + rest =~= all);
                assert forall|i: int| 0 <= i < rest.len() implies #[trigger] cands[(candidate_index + 1) + i].contains(rest[i]) by {
                    assert(rest[i] == ext[i + 1]);
                    assert(cands[candidate_index + (i + 1)].contains(ext[i + 1]));
                }
                assert(is_extension(cands, candidate_index + 1, old(used)@.push(list@[j]), rest));
            }
        }
    }
    false
}

/// Finds one resource id for each candidate list, all different, if
/// possible.
pub fn resource_assignment(candidates: &Vec<Vec<ResourceId>>) -> (assignment: Option<Vec<ResourceId>>)
    ensures
        assignment is Some <==> assignable(candidate_lists(candidates@)),
        assignment matches Some(a) ==> is_first_assignment(candidate_lists(candidates@), a@),
{
    let mut used: Vec<ResourceId> = Vec::new();
    proof {
        assert(used@.no_duplicates());
    }
    let ghost start = used@;
    proof {
        assert(start =~= Seq::<ResourceId>::empty());
    }
    if assign(candidates, 0, &mut used) {
        proof {
            assert(used@.skip(0) =~= used@);
            assert(is_first_extension(candidate_lists(candidates@), 0, start, used@));
            assert(is_first_assignment(candidate_lists(candidates@), used@));
            assert(is_assignment(candidate_lists(candidates@), used@));
        }
        Some(used)
    } else {
        proof {
            assert forall|a: Seq<ResourceId>| !is_assignment(candidate_lists(candidates@), a) by {
                assert(!is_extension(candidate_lists(candidates@), 0, start, a));
            }
        }
        None
    }
}

impl<R> Registry<R> {
    /// Candidate id lists for each kind.
    fn candidates_for_kinds(&self, kinds: &Vec<CapabilityKind>) -> (candidates: Vec<Vec<ResourceId>>)
        ensures
            candidate_lists(candidates@) == candidates_for(self@.slots, kinds@),
    {
        let mut candidates: Vec<Vec<ResourceId>> = Vec::new();
        let mut i: usize = 0;
        while i < kinds.len()
            invariant
                i <= kinds@.len(),
                candidate_lists(candidates@) == candidates_for(self@.slots, kinds@.take(i as int)),
            decreases kinds@.len() - i,
        {
            let ids = self.resource_ids(kinds[i]);
            let ghost before = candidates@;
            candidates.push(ids);
            proof {
                let cl = candidate_lists(candidates@);
                let cf = candidates_for(self@.slots, kinds@.take(i + 1));
                assert(kinds@.take(i as int).len() == i);
                assert(candidate_lists(before).len() == before.len());
                assert(before.len() == i);
                assert(candidates@ == before.push(ids));
                assert(cl.len() == cf.len());
                assert forall|m: int| 0 <= m < cl.len() implies cl[m] == cf[m] by {
                    if m < i {
                        assert(candidates@[m] == before[m]);
                        assert(candidate_lists(before)[m] == candidates_for(self@.slots, kinds@.take(i as int))[m]);
                        assert(kinds@.take(i + 1)[m] == kinds@.take(i as int)[m]);
                    } else {
                        assert(kinds@.take(i + 1)[m] == kinds@[i as int]);
                    }
                }
                assert(cl =~= cf);
            }
            i = i + 1;
        }
        proof {
            assert(kinds@.take(kinds@.len() as int) =~= kinds@);
        }
        candidates
    }

    /// Returns whether one resource of every kind in `kinds` can be leased
    /// from different available physical groups.
    pub fn has_resource_set(&self, kinds: &Vec<CapabilityKind>) -> (available: bool)
        ensures
            available == set_available(self@.slots, kinds@),
    {
        if !types_are_distinct(kinds.as_slice()) {
            return false;
        }
        let candidates = self.candidates_for_kinds(kinds);
        match resource_assignment(&candidates) {
            Some(_) => true,
            None => false,
        }
    }

    /// Atomically leases one resource of every kind in `kinds`, each from a
    /// different physical group.
    pub fn take_resource_set(&mut self, kinds: &Vec<CapabilityKind>) -> (leases: Option<Vec<ResourceLease<R>>>)
        requires
            old(self).wf(),
        ensures
            final(self).wf(),
            final(self)@.id == old(self)@.id,
            final(self)@.next_allocated == old(self)@.next_allocated,
            leases is Some <==> set_available(old(self)@.slots, kinds@),
            leases is None ==> final(self)@ == old(self)@,
            leases matches Some(ls) ==> taken_from(old(self)@, ls@, kinds@) && final(self)@.slots
                == leased_ids(old(self)@.slots, lease_ids(ls@)),
            leases matches Some(ls) ==> is_first_assignment(candidates_for(old(self)@.slots, kinds@), lease_ids(ls@)),
    {
        if !types_are_distinct(kinds.as_slice()) {
            return None;
        }
        let candidates = self.candidates_for_kinds(kinds);
        let assignment = match resource_assignment(&candidates) {
            Some(a) => a,
            None => {
                return None;
            },
        };
        let ghost cands = candidates_for(old(self)@.slots, kinds@);
        let ghost chosen = assignment@;
        let mut leases: Vec<ResourceLease<R>> = Vec::new();
        let mut j: usize = 0;
        proof {
            assert(chosen.take(0) =~= Seq::<ResourceId>::empty());
            assert(old(self)@.slots =~= leased_ids(old(self)@.slots, chosen.take(0)));
            assert(lease_ids(leases@) =~= chosen.take(0));
            assert(chosen =~= Seq::<ResourceId>::empty() + chosen);
        }
        while j < assignment.len()
            invariant
                j <= assignment@.len(),
                assignment@ == chosen,
                chosen.len() == kinds@.len(),
                is_assignment(cands, chosen),
                cands == candidates_for(old(self)@.slots, kinds@),
                registry_wf(old(self)@),
                self.wf(),
                self@.id == old(self)@.id,
                self@.next_allocated == old(self)@.next_allocated,
                self@.slots == leased_ids(old(self)@.slots, chosen.take(j as int)),
                leases@.len() == j,
                lease_ids(leases@) == chosen.take(j as int),
                forall|k: int| 0 <= k < j ==> {
                    &&& (#[trigger] leases@[k]).registry() == old(self)@.id
                    &&& leases@[k].leased_kind() == kinds@[k]
                    &&& leases@[k].wf()
                    &&& Some(leases@[k].group_view()) == group_with_id(old(self)@.slots, chosen[k])
                },
            decreases assignment@.len() - j,
        {
            let id = assignment[j];
            let kind = kinds[j];
            proof {
                lemma_offering_ids(old(self)@, kind);
                assert(Seq::<ResourceId>::empty() + chosen =~= chosen);
                assert(cands[0 + j as int].contains(chosen[j as int]));
                assert(cands[j as int] == offering_ids(old(self)@.slots, kind));
                assert(offering_ids(old(self)@.slots, kind).contains(id));
                assert(!chosen.take(j as int).contains(id)) by {
                    if chosen.take(j as int).contains(id) {
                        let m = choose|m: int| 0 <= m < j && chosen.take(j as int)[m] == id;
                        assert(chosen[m] == chosen[j as int]);
                        assert((Seq::<ResourceId>::empty() + chosen)[m] == (Seq::<ResourceId>::empty() + chosen)[j as int]);
                    }
                }
                lemma_leased_ids_step(old(self)@, chosen.take(j as int), id);
                lemma_index_of_id(old(self)@, id);
                assert(chosen.take(j as int).push(id) =~= chosen.take(j + 1));
            }
            let lease = self.take_resource_with_id(id, kind);
            proof {
                let prev = leased_ids(old(self)@.slots, chosen.take(j as int));
                let idx = index_of_id(prev, id);
                assert(prev[idx].id == id);
                assert(lease.group_view() == prev[idx].available->0);
            }
            let ghost before = leases@;
            leases.push(lease);
            proof {
                assert(lease_ids(leases@) =~= lease_ids(before).push(id));
                assert forall|k: int| 0 <= k < j + 1 implies {
                    &&& (#[trigger] leases@[k]).registry() == old(self)@.id
                    &&& leases@[k].leased_kind() == kinds@[k]
                    &&& leases@[k].wf()
                    &&& Some(leases@[k].group_view()) == group_with_id(old(self)@.slots, chosen[k])
                } by {
                    if k < j {
                        assert(leases@[k] == before[k]);
                    }
                }
            }
            j = j + 1;
        }
        proof {
            assert(chosen.take(chosen.len() as int) =~= chosen);
        }
        Some(leases)
    }
}

/// The ids of a sequence of leases.
pub open spec fn lease_ids<R>(leases: Seq<ResourceLease<R>>) -> Seq<ResourceId> {
    leases.map_values(|l: ResourceLease<R>| l.group_view().metadata.spec_id())
}

/// Facts about `offering_ids` in a well-formed registry.
proof fn lemma_offering_ids<R>(v: RegistryView<R>, kind: CapabilityKind)
    requires
        registry_wf(v),
    ensures
        offering_ids(v.slots, kind).len() == count_offering(v.slots, kind),
        offering_ids(v.slots, kind).no_duplicates(),
        forall|x: ResourceId| #[trigger] offering_ids(v.slots, kind).contains(x) <==> (has_id(v.slots, x)
            && offers(v.slots[index_of_id(v.slots, x)], kind)),
{
    assert(v.slots.take(v.slots.len() as int) =~= v.slots);
    lemma_offering_ids_rec(v.slots, kind, v);
    assert forall|x: ResourceId| #[trigger] offering_ids(v.slots, kind).contains(x) <==> (has_id(v.slots, x)
        && offers(v.slots[index_of_id(v.slots, x)], kind)) by {
        if has_id(v.slots, x) {
            lemma_index_of_id(v, x);
        }
        if offering_ids(v.slots, kind).contains(x) {
            let i = choose|i: int| 0 <= i < v.slots.len() && v.slots[i].id == x && offers(v.slots[i], kind);
            lemma_index_of_id(v, x);
        }
    }
}

proof fn lemma_offering_ids_rec<R>(slots: Seq<SlotView<R>>, kind: CapabilityKind, v: RegistryView<R>)
    requires
        registry_wf(v),
        slots.len() <= v.slots.len(),
        slots == v.slots.take(slots.len() as int),
    ensures
        offering_ids(slots, kind).len() == count_offering(slots, kind),
        offering_ids(slots, kind).no_duplicates(),
        forall|x: ResourceId| #[trigger] offering_ids(slots, kind).contains(x) <==> exists|i: int|
            0 <= i < slots.len() && slots[i].id == x && offers(slots[i], kind),
    decreases slots.len(),
{
    if slots.len() > 0 {
        let d = slots.drop_last();
        assert(d =~= v.slots.take(d.len() as int));
        lemma_offering_ids_rec(d, kind, v);
        let rest = offering_ids(d, kind);
        let head: Seq<ResourceId> = if offers(slots.last(), kind) {
            seq![slots.last().id]
        } else {
            Seq::empty()
        };
        assert(offering_ids(slots, kind) == head + rest);
        let last = slots.len() - 1;
        assert forall|x: ResourceId| #[trigger] rest.contains(x) implies x != slots.last().id by {
            let i = choose|i: int| 0 <= i < d.len() && d[i].id == x && offers(d[i], kind);
            assert(slots[i] == d[i]);
            assert(v.slots[i] == slots[i]);
            assert(v.slots[last] == slots[last]);
        }
        assert forall|x: ResourceId| #[trigger] offering_ids(slots, kind).contains(x) <==> exists|i: int|
            0 <= i < slots.len() && slots[i].id == x && offers(slots[i], kind) by {
            if offering_ids(slots, kind).contains(x) {
                if head.contains(x) {
                    assert(slots[last].id == x);
                } else {
                    let k = choose|k: int| 0 <= k < (head + rest).len() && (head + rest)[k] == x;
                    assert(rest[k - head.len()] == x);
                    assert(rest.contains(x));
                    let i = choose|i: int| 0 <= i < d.len() && d[i].id == x && offers(d[i], kind);
                    assert(slots[i] == d[i]);
                }
            }
            if exists|i: int| 0 <= i < slots.len() && slots[i].id == x && offers(slots[i], kind) {
                let i = choose|i: int| 0 <= i < slots.len() && slots[i].id == x && offers(slots[i], kind);
                if i == last {
                    assert(head[0] == x);
                    assert((head + rest)[0] == x);
                } else {
                    assert(d[i] == slots[i]);
                    assert(rest.contains(x));
                    let k = choose|k: int| 0 <= k < rest.len() && rest[k] == x;
                    assert((head + rest)[k + head.len()] == x);
                }
            }
        }
        assert((head + rest).no_duplicates()) by {
            assert forall|a: int, b: int| 0 <= a < (head + rest).len() && 0 <= b < (head + rest).len() && a != b
                implies (head + rest)[a] != (head + rest)[b] by {
                if a >= head.len() && b >= head.len() {
                } else if a < head.len() {
                    assert(rest.contains((head + rest)[b]));
                } else {
                    assert(rest.contains((head + rest)[a]));
                }
            }
        }
    }
}

/// Leasing one more id extends `leased_ids` by that id.
proof fn lemma_leased_ids_step<R>(v: RegistryView<R>, done: Seq<ResourceId>, id: ResourceId)
    requires
        registry_wf(v),
        has_id(v.slots, id),
        !done.contains(id),
    ensures
        index_of_id(leased_ids(v.slots, done), id) == index_of_id(v.slots, id),
        has_id(leased_ids(v.slots, done), id),
        leased_ids(v.slots, done)[index_of_id(v.slots, id)] == v.slots[index_of_id(v.slots, id)],
        leased_at(leased_ids(v.slots, done), index_of_id(v.slots, id)) == leased_ids(v.slots, done.push(id)),
        registry_wf(RegistryView { id: v.id, slots: leased_ids(v.slots, done), next_allocated: v.next_allocated }),
{
    let l = leased_ids(v.slots, done);
    lemma_index_of_id_same_ids(v.slots, l, id);
    lemma_index_of_id(v, id);
    let k = index_of_id(v.slots, id);
    assert(leased_at(l, k) =~= leased_ids(v.slots, done.push(id))) by {
        assert forall|i: int| 0 <= i < l.len() implies #[trigger] leased_at(l, k)[i] == leased_ids(
            v.slots,
            done.push(id),
        )[i] by {
            let p = done.push(id);
            assert(p[done.len() as int] == id);
            if i != k {
                assert(v.slots[i].id != id);
                let x = v.slots[i].id;
                if done.contains(x) {
                    let m = choose|m: int| 0 <= m < done.len() && done[m] == x;
                    assert(p[m] == x);
                }
                if p.contains(x) {
                    let m = choose|m: int| 0 <= m < p.len() && p[m] == x;
                    assert(m < done.len());
                    assert(done[m] == x);
                }
            }
        }
    }
}


/// Returning a lease restores the registry: leasing the available group at
/// `index` and then returning that lease gives back the slots as they were, and
/// the returned lease meets what `return_resource` asks of it.
pub proof fn lemma_return_restores<R>(v: RegistryView<R>, index: int)
    requires
        registry_wf(v),
        0 <= index < v.slots.len(),
        v.slots[index].available is Some,
    ensures
        ({
            let g = v.slots[index].available->0;
            let id = g.metadata.spec_id();
            let mid = leased_at(v.slots, index);
            &&& registry_wf(RegistryView { id: v.id, slots: mid, next_allocated: v.next_allocated })
            &&& has_id(mid, id)
            &&& mid[index_of_id(mid, id)].available is None
            &&& mid.update(index_of_id(mid, id), SlotView { id, available: Some(g) }) == v.slots
        }),
{
    let g = v.slots[index].available->0;
    let id = g.metadata.spec_id();
    let mid = leased_at(v.slots, index);
    let mv = RegistryView { id: v.id, slots: mid, next_allocated: v.next_allocated };
    assert forall|i: int| 0 <= i < mid.len() implies (#[trigger] mid[i]).id == v.slots[i].id by {}
    assert(registry_wf(mv)) by {
        assert forall|a: int, b: int| 0 <= a < mid.len() && 0 <= b < mid.len() && a != b implies #[trigger] mid[a].id
            != #[trigger] mid[b].id by {
            assert(mid[a].id == v.slots[a].id);
            assert(mid[b].id == v.slots[b].id);
        }
        assert forall|i: int| 0 <= i < mid.len() implies match (#[trigger] mid[i]).id.allocated_number() {
            Some(n) => n < mv.next_allocated,
            None => true,
        } by {
            assert(mid[i].id == v.slots[i].id);
        }
    }
    assert(mid[index].id == id);
    lemma_index_of_id(mv, id);
    assert(mid.update(index, SlotView { id, available: Some(g) }) =~= v.slots);
}

/// While a group is leased, none of its capabilities is offered: each kind
/// the group provides is offered by exactly one group fewer.
pub proof fn lemma_lease_hides_group<R>(slots: Seq<SlotView<R>>, index: int, kind: CapabilityKind)
    requires
        0 <= index < slots.len(),
        offers(slots[index], kind),
    ensures
        !offers(leased_at(slots, index)[index], kind),
        count_offering(leased_at(slots, index), kind) + 1 == count_offering(slots, kind),
    decreases slots.len(),
{
    let l = leased_at(slots, index);
    if index == slots.len() - 1 {
        assert(l.drop_last() =~= slots.drop_last());
    } else {
        lemma_lease_hides_group(slots.drop_last(), index, kind);
        assert(leased_at(slots.drop_last(), index) =~= l.drop_last());
        assert(l.last() == slots.last());
    }
}

/// A group registered last is the first one leased: right after a group
/// offering `kind` is registered, `take_resource(kind)` leases that group.
pub proof fn lemma_newest_group_taken_first<R>(
    slots: Seq<SlotView<R>>,
    group: GroupView<R>,
    kind: CapabilityKind,
)
    requires
        kinds_of(group.capabilities).contains(kind),
    ensures
        last_offering(with_group(slots, group), kind) == slots.len(),
        count_offering(with_group(slots, group), kind) == count_offering(slots, kind) + 1,
{
    let w = with_group(slots, group);
    assert(w.drop_last() =~= slots);
}

/// The number of capability lists in `groups` that offer `kind`.
pub open spec fn groups_offering<R>(groups: Seq<Seq<(CapabilityKind, R)>>, kind: CapabilityKind) -> nat
    decreases groups.len(),
{
    if groups.len() == 0 {
        0
    } else {
        groups_offering(groups.drop_last(), kind) + if kinds_of(groups.last()).contains(kind) {
            1nat
        } else {
            0nat
        }
    }
}

/// Registering one group (`register_group`, `register_platform_group` and
/// the like) adds one available group offering each of its kinds and leaves
/// every other kind's count as it was.
pub proof fn lemma_register_group_counts<R>(slots: Seq<SlotView<R>>, group: GroupView<R>, kind: CapabilityKind)
    ensures
        count_offering(with_group(slots, group), kind) == count_offering(slots, kind) + if kinds_of(
            group.capabilities,
        ).contains(kind) {
            1nat
        } else {
            0nat
        },
{
    assert(with_group(slots, group).drop_last() =~= slots);
}

/// Registering several groups adds, for every kind, one available group for
/// each registered group that offers the kind, and one slot per group.
pub proof fn lemma_register_groups_counts<R>(
    slots: Seq<SlotView<R>>,
    groups: Seq<Seq<(CapabilityKind, R)>>,
    next: u32,
    slot: ModuleSlot,
    module_id: ModuleID,
    kind: CapabilityKind,
)
    ensures
        count_offering(with_groups(slots, groups, next, slot, module_id), kind) == count_offering(slots, kind)
            + groups_offering(groups, kind),
        with_groups(slots, groups, next, slot, module_id).len() == slots.len() + groups.len(),
    decreases groups.len(),
{
    if groups.len() > 0 {
        lemma_register_groups_counts(slots, groups.drop_last(), next, slot, module_id, kind);
        let before = with_groups(slots, groups.drop_last(), next, slot, module_id);
        let after = with_groups(slots, groups, next, slot, module_id);
        assert(after.drop_last() =~= before);
    }
}

/// Taking one lease and returning it restores the registry, whichever way
/// the lease was taken: if `l` holds, as it was, the group of the available
/// slot `index` of `v`, then once that slot is leased `l` meets what
/// `return_resource` asks of it, returning it gives back the slots of `v`,
/// and every kind is offered by as many groups as before.
pub proof fn lemma_lease_returns<R>(v: RegistryView<R>, index: int, l: ResourceLease<R>, kind: CapabilityKind)
    requires
        registry_wf(v),
        0 <= index < v.slots.len(),
        v.slots[index].available == Some(l.group_view()),
    ensures
        ({
            let id = l.group_view().metadata.spec_id();
            let mid = leased_at(v.slots, index);
            let back = mid.update(index_of_id(mid, id), SlotView { id, available: Some(l.group_view()) });
            &&& registry_wf(RegistryView { id: v.id, slots: mid, next_allocated: v.next_allocated })
            &&& has_id(mid, id)
            &&& mid[index_of_id(mid, id)].available is None
            &&& back == v.slots
            &&& count_offering(back, kind) == count_offering(v.slots, kind)
        }),
{
    lemma_return_restores(v, index);
}

/// Several leases of one kind taken together and returned in order restore
/// the registry: leases as `take_resources` hands them out, from the newest
/// offering groups, are returnable right after the taking, and returning
/// them gives back the slots of `v`, so every kind is offered by as many
/// groups as before.
pub proof fn lemma_take_resources_return<R>(
    v: RegistryView<R>,
    leases: Seq<ResourceLease<R>>,
    kind: CapabilityKind,
    other: CapabilityKind,
)
    requires
        registry_wf(v),
        leases.len() <= count_offering(v.slots, kind),
        lease_ids(leases) == offering_ids(v.slots, kind).take(leases.len() as int),
        forall|j: int| 0 <= j < leases.len() ==> {
            &&& (#[trigger] leases[j]).registry() == v.id
            &&& leases[j].leased_kind() == kind
            &&& leases[j].wf()
            &&& Some(leases[j].group_view()) == group_with_id(v.slots, lease_ids(leases)[j])
        },
    ensures
        returnable(
            RegistryView {
                id: v.id,
                slots: leased_ids(v.slots, lease_ids(leases)),
                next_allocated: v.next_allocated,
            },
            leases,
        ),
        return_all(leased_ids(v.slots, lease_ids(leases)), leases) == v.slots,
        count_offering(return_all(leased_ids(v.slots, lease_ids(leases)), leases), other) == count_offering(
            v.slots,
            other,
        ),
{
    let kinds = Seq::new(leases.len(), |j: int| kind);
    let cands = candidates_for(v.slots, kinds);
    let ids = lease_ids(leases);
    let all = offering_ids(v.slots, kind);
    lemma_offering_ids(v, kind);
    assert(Seq::<ResourceId>::empty() + ids =~= ids);
    assert forall|j: int| 0 <= j < ids.len() implies #[trigger] cands[0 + j].contains(ids[j]) by {
        assert(cands[j] == all);
        assert(ids[j] == all[j]);
    }
    assert(ids.no_duplicates()) by {
        assert forall|a: int, b: int| 0 <= a < ids.len() && 0 <= b < ids.len() && a != b implies ids[a] != ids[b] by {
            assert(ids[a] == all[a]);
            assert(ids[b] == all[b]);
        }
    }
    assert(is_assignment(cands, ids));
    assert(taken_from(v, leases, kinds));
    lemma_taken_leases_return(v, leases, kinds);
}

/// A resource is read back as it was written: when a lease is returned and
/// its group is leased again through the same capability kind, the new
/// lease holds the capability the returned one held, including any change
/// made through `resource_mut`.
pub proof fn lemma_written_capability_returns<R>(v: RegistryView<R>, l: ResourceLease<R>, next: ResourceLease<R>)
    requires
        returnable(v, seq![l]),
        ({
            let id = l.group_view().metadata.spec_id();
            let back = v.slots.update(index_of_id(v.slots, id), SlotView { id, available: Some(l.group_view()) });
            &&& next.group_view() == back[index_of_id(v.slots, id)].available->0
            &&& next.leased_kind() == l.leased_kind()
        }),
    ensures
        next.leased_resource() == l.leased_resource(),
{
    let id = l.group_view().metadata.spec_id();
    assert(lease_ids(seq![l])[0] == id);
    lemma_index_of_id(v, id);
}

/// Whether one resource of a single kind can be leased is whether some
/// available group offers that kind.
pub proof fn lemma_single_kind_available<R>(v: RegistryView<R>, kind: CapabilityKind)
    requires
        registry_wf(v),
    ensures
        set_available(v.slots, seq![kind]) == (count_offering(v.slots, kind) >= 1),
{
    let kinds = seq![kind];
    let cands = candidates_for(v.slots, kinds);
    lemma_offering_ids(v, kind);
    assert(cands[0] == offering_ids(v.slots, kind));
    assert(kinds.no_duplicates());
    if count_offering(v.slots, kind) >= 1 {
        let a = seq![offering_ids(v.slots, kind)[0]];
        assert(Seq::<ResourceId>::empty() + a =~= a);
        assert(cands[0int + 0int].contains(a[0]));
        assert(is_assignment(cands, a));
    }
    if set_available(v.slots, kinds) {
        let a = choose|a: Seq<ResourceId>| is_assignment(cands, a);
        assert(cands[0int + 0int].contains(a[0]));
    }
}

/// Whether `leases` were taken from the registry state `v` as one set of
/// the capability kinds `kinds`: one lease per kind, from different
/// available groups that offered the kind, each holding its group as it was.
pub open spec fn taken_from<R>(
    v: RegistryView<R>,
    leases: Seq<ResourceLease<R>>,
    kinds: Seq<CapabilityKind>,
) -> bool {
    &&& leases.len() == kinds.len()
    &&& is_assignment(candidates_for(v.slots, kinds), lease_ids(leases))
    &&& forall|j: int| 0 <= j < leases.len() ==> {
        &&& (#[trigger] leases[j]).registry() == v.id
        &&& leases[j].leased_kind() == kinds[j]
        &&& leases[j].wf()
        &&& Some(leases[j].group_view()) == group_with_id(v.slots, lease_ids(leases)[j])
    }
}

/// Whether every lease of `leases` can be returned to the registry state
/// `v`, in order: each belongs to `v`, its group is registered there and
/// currently leased, and no group occurs twice.
pub open spec fn returnable<R>(v: RegistryView<R>, leases: Seq<ResourceLease<R>>) -> bool {
    &&& registry_wf(v)
    &&& lease_ids(leases).no_duplicates()
    &&& forall|j: int| 0 <= j < leases.len() ==> {
        &&& (#[trigger] leases[j]).registry() == v.id
        &&& leases[j].wf()
        &&& has_id(v.slots, lease_ids(leases)[j])
        &&& v.slots[index_of_id(v.slots, lease_ids(leases)[j])].available is None
    }
}

/// The slots after returning every lease of `leases`, in order.
pub open spec fn return_all<R>(slots: Seq<SlotView<R>>, leases: Seq<ResourceLease<R>>) -> Seq<
    SlotView<R>,
>
    decreases leases.len(),
{
    if leases.len() == 0 {
        slots
    } else {
        let id = leases[0].group_view().metadata.spec_id();
        return_all(
            slots.update(
                index_of_id(slots, id),
                SlotView { id, available: Some(leases[0].group_view()) },
            ),
            leases.drop_first(),
        )
    }
}

/// Returning the first lease of a returnable sequence leaves the rest
/// returnable.
pub proof fn lemma_returnable_step<R>(v: RegistryView<R>, leases: Seq<ResourceLease<R>>)
    requires
        returnable(v, leases),
        leases.len() > 0,
    ensures
        ({
            let id = leases[0].group_view().metadata.spec_id();
            let k = index_of_id(v.slots, id);
            let next = RegistryView {
                id: v.id,
                slots: v.slots.update(k, SlotView { id, available: Some(leases[0].group_view()) }),
                next_allocated: v.next_allocated,
            };
            &&& 0 <= k < v.slots.len()
            &&& v.slots[k].id == id
            &&& returnable(next, leases.drop_first())
        }),
{
    let ids = lease_ids(leases);
    let id = ids[0];
    lemma_index_of_id(v, id);
    let k = index_of_id(v.slots, id);
    let ns = v.slots.update(k, SlotView { id, available: Some(leases[0].group_view()) });
    let next = RegistryView { id: v.id, slots: ns, next_allocated: v.next_allocated };
    let rest = leases.drop_first();
    assert forall|i: int| 0 <= i < ns.len() implies (#[trigger] ns[i]).id == v.slots[i].id by {}
    assert(registry_wf(next)) by {
        assert forall|a: int, b: int| 0 <= a < ns.len() && 0 <= b < ns.len() && a != b implies #[trigger] ns[a].id
            != #[trigger] ns[b].id by {
            assert(ns[a].id == v.slots[a].id);
            assert(ns[b].id == v.slots[b].id);
        }
        assert forall|i: int| 0 <= i < ns.len() implies match (#[trigger] ns[i]).id.allocated_number() {
            Some(n) => n < next.next_allocated,
            None => true,
        } by {
            assert(ns[i].id == v.slots[i].id);
        }
        assert forall|i: int|
            0 <= i < ns.len() && (#[trigger] ns[i]).available is Some implies ns[i].available->0.metadata.spec_id()
                == ns[i].id && kinds_of(ns[i].available->0.capabilities).no_duplicates() by {
            if i == k {
                assert(leases[0].wf());
            }
        }
    }
    assert(lease_ids(rest) =~= ids.drop_first());
    assert forall|j: int| 0 <= j < rest.len() implies {
        &&& (#[trigger] rest[j]).registry() == next.id
        &&& rest[j].wf()
        &&& has_id(next.slots, lease_ids(rest)[j])
        &&& next.slots[index_of_id(next.slots, lease_ids(rest)[j])].available is None
    } by {
        assert(rest[j] == leases[j + 1]);
        let x = ids[j + 1];
        assert(lease_ids(rest)[j] == x);
        assert(x != id);
        lemma_index_of_id(v, x);
        lemma_index_of_id_same_ids(v.slots, ns, x);
        assert(index_of_id(v.slots, x) != k);
    }
}

/// Leasing a set and returning all its leases restores the registry: if
/// `leases` were taken from `v` as one set, then in the state right after
/// the taking they are returnable, and returning them in order gives back
/// the slots of `v`.
pub proof fn lemma_taken_leases_return<R>(
    v: RegistryView<R>,
    leases: Seq<ResourceLease<R>>,
    kinds: Seq<CapabilityKind>,
)
    requires
        registry_wf(v),
        taken_from(v, leases, kinds),
    ensures
        returnable(
            RegistryView {
                id: v.id,
                slots: leased_ids(v.slots, lease_ids(leases)),
                next_allocated: v.next_allocated,
            },
            leases,
        ),
        return_all(leased_ids(v.slots, lease_ids(leases)), leases) == v.slots,
{
    let ids = lease_ids(leases);
    let cands = candidates_for(v.slots, kinds);
    assert(Seq::<ResourceId>::empty() + ids =~= ids);
    assert forall|j: int| 0 <= j < ids.len() implies has_id(v.slots, #[trigger] ids[j]) && (v.slots[index_of_id(
        v.slots,
        ids[j],
    )].available == Some(leases[j].group_view())) by {
        assert(cands[0 + j].contains(ids[j]));
        assert(cands[j] == offering_ids(v.slots, kinds[j]));
        lemma_offering_ids(v, kinds[j]);
    }
    lemma_return_all_suffix(v, leases, 0);
    assert(leases.subrange(0, leases.len() as int) =~= leases);
}

/// Returning a suffix of a set taken from `v` restores `v`.
proof fn lemma_return_all_suffix<R>(v: RegistryView<R>, leases: Seq<ResourceLease<R>>, n: int)
    requires
        registry_wf(v),
        0 <= n <= leases.len(),
        lease_ids(leases).no_duplicates(),
        forall|j: int| 0 <= j < leases.len() ==> {
            &&& (#[trigger] leases[j]).registry() == v.id
            &&& leases[j].wf()
        },
        forall|j: int| 0 <= j < lease_ids(leases).len() ==> has_id(v.slots, #[trigger] lease_ids(leases)[j])
            && (v.slots[index_of_id(v.slots, lease_ids(leases)[j])].available == Some(
            leases[j].group_view(),
        )),
    ensures
        ({
            let sub = leases.subrange(n, leases.len() as int);
            let sub_ids = lease_ids(sub);
            &&& returnable(
                RegistryView {
                    id: v.id,
                    slots: leased_ids(v.slots, sub_ids),
                    next_allocated: v.next_allocated,
                },
                sub,
            )
            &&& return_all(leased_ids(v.slots, sub_ids), sub) == v.slots
        }),
    decreases leases.len() - n,
{
    let ids = lease_ids(leases);
    let sub = leases.subrange(n, leases.len() as int);
    let sub_ids = lease_ids(sub);
    let lv = RegistryView { id: v.id, slots: leased_ids(v.slots, sub_ids), next_allocated: v.next_allocated };
    assert(sub_ids =~= ids.subrange(n, ids.len() as int));
    // the leased state is well formed and the leases are returnable there
    if sub.len() > 0 {
        lemma_leased_ids_step(v, sub_ids.drop_last(), sub_ids.last());
        assert(sub_ids.drop_last().push(sub_ids.last()) =~= sub_ids);
        assert(sub_ids.last() == ids[leases.len() - 1]);
        assert(!sub_ids.drop_last().contains(sub_ids.last())) by {
            if sub_ids.drop_last().contains(sub_ids.last()) {
                let m = choose|m: int| 0 <= m < sub_ids.drop_last().len() && sub_ids.drop_last()[m] == sub_ids.last();
                assert(ids[n + m] == ids[leases.len() - 1]);
            }
        }
        assert(registry_wf(lv)) by {
            lemma_leased_ids_step(v, sub_ids.drop_last(), sub_ids.last());
            lemma_leased_wf(v, sub_ids);
        }
    } else {
        assert(leased_ids(v.slots, sub_ids) =~= v.slots);
    }
    lemma_leased_wf(v, sub_ids);
    assert(sub_ids.no_duplicates()) by {
        assert forall|a: int, b: int| 0 <= a < sub_ids.len() && 0 <= b < sub_ids.len() && a != b implies sub_ids[a]
            != sub_ids[b] by {
            assert(sub_ids[a] == ids[n + a]);
            assert(sub_ids[b] == ids[n + b]);
        }
    }
    assert forall|j: int| 0 <= j < sub.len() implies {
        &&& (#[trigger] sub[j]).registry() == lv.id
        &&& sub[j].wf()
        &&& has_id(lv.slots, lease_ids(sub)[j])
        &&& lv.slots[index_of_id(lv.slots, lease_ids(sub)[j])].available is None
    } by {
        assert(sub[j] == leases[n + j]);
        let x = ids[n + j];
        assert(sub_ids[j] == x);
        assert(has_id(v.slots, ids[n + j]));
        lemma_index_of_id(v, x);
        lemma_index_of_id_same_ids(v.slots, lv.slots, x);
        assert(sub_ids.contains(x));
    }
    if n < leases.len() {
        lemma_return_all_suffix(v, leases, n + 1);
        let x = ids[n];
        let rest = leases.subrange(n + 1, leases.len() as int);
        let rest_ids = lease_ids(rest);
        assert(rest =~= sub.drop_first());
        assert(sub[0] == leases[n]);
        assert(has_id(v.slots, ids[n]));
        lemma_index_of_id(v, x);
        let k = index_of_id(v.slots, x);
        lemma_index_of_id_same_ids(v.slots, lv.slots, x);
        assert(rest_ids =~= ids.subrange(n + 1, ids.len() as int));
        assert(!rest_ids.contains(x)) by {
            if rest_ids.contains(x) {
                let m = choose|m: int| 0 <= m < rest_ids.len() && rest_ids[m] == x;
                assert(ids[n + 1 + m] == ids[n]);
            }
        }
        assert(v.slots[k] == SlotView { id: x, available: Some(leases[n].group_view()) });
        assert(lv.slots.update(k, SlotView { id: x, available: Some(sub[0].group_view()) }) =~= leased_ids(
            v.slots,
            rest_ids,
        )) by {
            assert forall|i: int| 0 <= i < v.slots.len() implies #[trigger] lv.slots.update(
                k,
                SlotView { id: x, available: Some(sub[0].group_view()) },
            )[i] == leased_ids(v.slots, rest_ids)[i] by {
                if i != k {
                    let y = v.slots[i].id;
                    assert(y != x);
                    if sub_ids.contains(y) {
                        let m = choose|m: int| 0 <= m < sub_ids.len() && sub_ids[m] == y;
                        assert(m != 0);
                        assert(rest_ids[m - 1] == y);
                    }
                    if rest_ids.contains(y) {
                        let m = choose|m: int| 0 <= m < rest_ids.len() && rest_ids[m] == y;
                        assert(sub_ids[m + 1] == y);
                    }
                }
            }
        }
        assert(sub.len() > 0);
        assert(sub[0].group_view().metadata.spec_id() == x);
    } else {
        assert(sub =~= Seq::<ResourceLease<R>>::empty());
    }
}

/// Leasing out any set of ids keeps the registry well formed.
proof fn lemma_leased_wf<R>(v: RegistryView<R>, ids: Seq<ResourceId>)
    requires
        registry_wf(v),
    ensures
        registry_wf(RegistryView { id: v.id, slots: leased_ids(v.slots, ids), next_allocated: v.next_allocated }),
        forall|i: int| 0 <= i < v.slots.len() ==> (#[trigger] leased_ids(v.slots, ids)[i]).id == v.slots[i].id,
        leased_ids(v.slots, ids).len() == v.slots.len(),
{
    let l = leased_ids(v.slots, ids);
    let lv = RegistryView { id: v.id, slots: l, next_allocated: v.next_allocated };
    assert forall|i: int| 0 <= i < v.slots.len() implies (#[trigger] l[i]).id == v.slots[i].id by {}
    assert forall|a: int, b: int| 0 <= a < l.len() && 0 <= b < l.len() && a != b implies #[trigger] l[a].id
        != #[trigger] l[b].id by {
        assert(l[a].id == v.slots[a].id);
        assert(l[b].id == v.slots[b].id);
    }
    assert forall|i: int| 0 <= i < l.len() implies match (#[trigger] l[i]).id.allocated_number() {
        Some(n) => n < lv.next_allocated,
        None => true,
    } by {
        assert(l[i].id == v.slots[i].id);
    }
}

/// With unique ids, `index_of_id` finds the slot holding the id.
proof fn lemma_index_of_id<R>(v: RegistryView<R>, id: ResourceId)
    requires
        registry_wf(v),
        has_id(v.slots, id),
    ensures
        0 <= index_of_id(v.slots, id) < v.slots.len(),
        v.slots[index_of_id(v.slots, id)].id == id,
        forall|i: int| 0 <= i < v.slots.len() && v.slots[i].id == id ==> i == index_of_id(v.slots, id),
{
    lemma_index_of_id_first(v.slots, id);
    let k = index_of_id(v.slots, id);
    assert forall|i: int| 0 <= i < v.slots.len() && v.slots[i].id == id implies i == k by {
        if i != k {
            assert(v.slots[i].id != v.slots[k].id);
        }
    }
}

/// `index_of_id` only depends on the ids of the slots.
proof fn lemma_index_of_id_same_ids<R>(a: Seq<SlotView<R>>, b: Seq<SlotView<R>>, id: ResourceId)
    requires
        a.len() == b.len(),
        forall|i: int| 0 <= i < a.len() ==> (#[trigger] a[i]).id == b[i].id,
    ensures
        index_of_id(a, id) == index_of_id(b, id),
        has_id(a, id) == has_id(b, id),
    decreases a.len(),
{
    if a.len() > 0 {
        lemma_index_of_id_same_ids(a.drop_last(), b.drop_last(), id);
        assert(a.last().id == b.last().id);
    }
    if has_id(a, id) {
        let i = choose|i: int| 0 <= i < a.len() && a[i].id == id;
        assert(b[i].id == id);
    }
    if has_id(b, id) {
        let i = choose|i: int| 0 <= i < b.len() && b[i].id == id;
        assert(a[i].id == id);
    }
}

/// `index_of_id` finds the first slot holding the id.
proof fn lemma_index_of_id_first<R>(slots: Seq<SlotView<R>>, id: ResourceId)
    ensures
        -1 <= index_of_id(slots, id) < slots.len(),
        index_of_id(slots, id) >= 0 <==> has_id(slots, id),
        index_of_id(slots, id) >= 0 ==> slots[index_of_id(slots, id)].id == id,
        forall|j: int| 0 <= j < index_of_id(slots, id) ==> (#[trigger] slots[j]).id != id,
    decreases slots.len(),
{
    if slots.len() > 0 {
        let d = slots.drop_last();
        lemma_index_of_id_first(d, id);
        if has_id(slots, id) {
            let i = choose|i: int| 0 <= i < slots.len() && slots[i].id == id;
            if i < slots.len() - 1 {
                assert(d[i].id == id);
            }
        }
        if has_id(d, id) {
            let i = choose|i: int| 0 <= i < d.len() && d[i].id == id;
            assert(slots[i].id == id);
        }
        let k = index_of_id(slots, id);
        assert forall|j: int| 0 <= j < k implies (#[trigger] slots[j]).id != id by {
            assert(slots[j] == d[j]);
        }
        if k >= 0 && k < slots.len() - 1 {
            assert(slots[k] == d[k]);
        }
    }
}

/// `last_offering` points at an offering slot exactly when some slot offers.
proof fn lemma_last_offering<R>(slots: Seq<SlotView<R>>, kind: CapabilityKind)
    ensures
        -1 <= last_offering(slots, kind) < slots.len(),
        last_offering(slots, kind) >= 0 <==> count_offering(slots, kind) >= 1,
        last_offering(slots, kind) >= 0 ==> offers(slots[last_offering(slots, kind)], kind),
        forall|j: int| last_offering(slots, kind) < j < slots.len() ==> !offers(#[trigger] slots[j], kind),
    decreases slots.len(),
{
    if slots.len() > 0 {
        lemma_last_offering(slots.drop_last(), kind);
        let d = slots.drop_last();
        assert forall|j: int| last_offering(slots, kind) < j < slots.len() implies !offers(#[trigger] slots[j], kind) by {
            if j < slots.len() - 1 {
                assert(slots[j] == d[j]);
            }
        }
        if last_offering(slots, kind) >= 0 && !offers(slots.last(), kind) {
            assert(slots[last_offering(slots, kind)] == d[last_offering(slots, kind)]);
        }
    }
}

impl<R> Registry<R> {
    /// Returns every lease of `leases`, in order.
    pub fn return_leases(&mut self, leases: Vec<ResourceLease<R>>)
        requires
            returnable(old(self)@, leases@),
        ensures
            final(self).wf(),
            final(self)@.id == old(self)@.id,
            final(self)@.next_allocated == old(self)@.next_allocated,
            final(self)@.slots == return_all(old(self)@.slots, leases@),
    {
        let mut leases = leases;
        let ghost target = return_all(self@.slots, leases@);
        while leases.len() > 0
            invariant
                returnable(self@, leases@),
                return_all(self@.slots, leases@) == target,
                self@.id == old(self)@.id,
                self@.next_allocated == old(self)@.next_allocated,
            decreases leases@.len(),
        {
            proof {
                lemma_returnable_step(self@, leases@);
                assert(lease_ids(leases@)[0] == leases@[0].group_view().metadata.spec_id());
            }
            let ghost before = leases@;
            let lease = leases.remove(0);
            proof {
                assert(leases@ =~= before.drop_first());
            }
            self.return_resource(lease);
        }
        proof {
            assert(leases@ =~= Seq::<ResourceLease<R>>::empty());
        }
    }
}

/// A capability list holding one capability.
pub fn single_capability<R>(kind: CapabilityKind, resource: R) -> (caps: Vec<(CapabilityKind, R)>)
    ensures
        caps@ == seq![(kind, resource)],
        kinds_of(caps@).no_duplicates(),
{
    let mut caps = Vec::new();
    caps.push((kind, resource));
    proof {
        assert(caps@ =~= seq![(kind, resource)]);
        assert(kinds_of(caps@) =~= seq![kind]);
    }
    caps
}

/// Whether the kinds of a capability list are all different.
fn capabilities_distinct<R>(caps: &Vec<(CapabilityKind, R)>) -> (distinct: bool)
    ensures
        distinct == kinds_of(caps@).no_duplicates(),
{
    let mut kinds: Vec<CapabilityKind> = Vec::new();
    let mut i: usize = 0;
    while i < caps.len()
        invariant
            i <= caps@.len(),
            kinds@ == kinds_of(caps@).take(i as int),
        decreases caps@.len() - i,
    {
        kinds.push(caps[i].0);
        proof {
            assert(kinds@ =~= kinds_of(caps@).take(i + 1));
        }
        i = i + 1;
    }
    proof {
        assert(kinds@ =~= kinds_of(caps@));
    }
    types_are_distinct(kinds.as_slice())
}

} // verus!
