//! A registry that keeps, for each capability kind, a list of registered
//! resources: registering pushes onto the kind's list, taking pops the most
//! recently registered one, and returning registers it again.

use vstd::prelude::*;

use crate::metadata::{ModuleID, ModuleSlot};
use crate::registry::CapabilityKind;

verus! {

/// A resource together with the module it came from.
pub struct RegisteredResource<R> {
    pub slot: ModuleSlot,
    pub module_id: ModuleID,
    pub resource: R,
}

/// The resources registered for one capability kind, oldest first.
pub struct CapabilityList<R> {
    pub items: Vec<RegisteredResource<R>>,
}

impl<R> CapabilityList<R> {
    /// An empty list.
    pub fn new() -> (list: Self)
        ensures
            list.items@ == Seq::<RegisteredResource<R>>::empty(),
    {
        CapabilityList { items: Vec::new() }
    }
}

/// The capability lists of all kinds registered so far.
pub struct Registry<R> {
    kinds: Vec<CapabilityKind>,
    lists: Vec<CapabilityList<R>>,
}

impl<R> Registry<R> {
    /// Each kind has one list.
    pub closed spec fn wf(&self) -> bool {
        &&& self.kinds@.len() == self.lists@.len()
        &&& self.kinds@.no_duplicates()
    }

    /// Whether a list exists for `kind` (it may have become empty).
    pub closed spec fn has_list(&self, kind: CapabilityKind) -> bool {
        self.kinds@.contains(kind)
    }

    /// The resources registered for `kind`, oldest first.
    pub closed spec fn list(&self, kind: CapabilityKind) -> Seq<RegisteredResource<R>> {
        if self.kinds@.contains(kind) {
            let i = choose|i: int| 0 <= i < self.kinds@.len() && self.kinds@[i] == kind;
            self.lists@[i].items@
        } else {
            Seq::empty()
        }
    }

    proof fn lemma_list_at(&self, i: int)
        requires
            self.wf(),
            0 <= i < self.kinds@.len(),
        ensures
            self.has_list(self.kinds@[i]),
            self.list(self.kinds@[i]) == self.lists@[i].items@,
    {
        let kind = self.kinds@[i];
        let j = choose|j: int| 0 <= j < self.kinds@.len() && self.kinds@[j] == kind;
        assert(self.kinds@[j] == kind);
    }

    /// An empty registry.
    pub fn new() -> (registry: Self)
        ensures
            registry.wf(),
            forall|k: CapabilityKind| !registry.has_list(k),
            forall|k: CapabilityKind| registry.list(k) == Seq::<RegisteredResource<R>>::empty(),
    {
        Registry { kinds: Vec::new(), lists: Vec::new() }
    }

    /// The position of `kind`'s list, if it has one.
    fn position(&self, kind: CapabilityKind) -> (index: Option<usize>)
        requires
            self.wf(),
        ensures
            match index {
                Some(i) => i < self.kinds@.len() && self.kinds@[i as int] == kind,
                None => !self.has_list(kind),
            },
    {
        let mut i: usize = 0;
        while i < self.kinds.len()
            invariant
                i <= self.kinds@.len(),
                forall|j: int| 0 <= j < i ==> self.kinds@[j] != kind,
            decreases self.kinds@.len() - i,
        {
            if self.kinds[i] == kind {
                return Some(i);
            }
            i = i + 1;
        }
        None
    }

    /// Registers `resource` as a capability of kind `kind`, from module
    /// `module_id` in `slot`.
    pub fn register(&mut self, kind: CapabilityKind, slot: ModuleSlot, module_id: ModuleID, resource: R)
        requires
            old(self).wf(),
        ensures
            final(self).wf(),
            final(self).has_list(kind),
            final(self).list(kind) == old(self).list(kind).push(
                RegisteredResource { slot, module_id, resource },
            ),
            forall|k: CapabilityKind|
                k != kind ==> final(self).has_list(k) == old(self).has_list(k) && final(self).list(k)
                    == old(self).list(k),
    {
        let item = RegisteredResource { slot, module_id, resource };
        let ghost old_self = *self;
        match self.position(kind) {
            Some(i) => {
                proof {
                    old_self.lemma_list_at(i as int);
                }
                let mut list = self.lists.remove(i);
                list.items.push(item);
                self.lists.insert(i, list);
                proof {
                    self.lemma_list_at(i as int);
                    assert forall|k: CapabilityKind| k != kind implies self.has_list(k) == old_self.has_list(k)
                        && self.list(k) == old_self.list(k) by {
                        if old_self.has_list(k) {
                            let j = choose|j: int| 0 <= j < old_self.kinds@.len() && old_self.kinds@[j] == k;
                            old_self.lemma_list_at(j);
                            self.lemma_list_at(j);
                        }
                    }
                }
            },
            None => {
                let mut list = CapabilityList::new();
                list.items.push(item);
                self.kinds.push(kind);
                self.lists.push(list);
                proof {
                    let n = old_self.kinds@.len() as int;
                    assert(self.kinds@.no_duplicates()) by {
                        assert forall|a: int, b: int| 0 <= a < b < self.kinds@.len() implies self.kinds@[a]
                            != self.kinds@[b] by {
                            if b == n {
                                assert(old_self.kinds@[a] == self.kinds@[a]);
                            }
                        }
                    }
                    self.lemma_list_at(n);
                    assert(old_self.list(kind) == Seq::<RegisteredResource<R>>::empty());
                    assert(list.items@ =~= Seq::<RegisteredResource<R>>::empty().push(item));
                    assert forall|k: CapabilityKind| k != kind implies self.has_list(k) == old_self.has_list(k)
                        && self.list(k) == old_self.list(k) by {
                        if old_self.has_list(k) {
                            let j = choose|j: int| 0 <= j < old_self.kinds@.len() && old_self.kinds@[j] == k;
                            old_self.lemma_list_at(j);
                            self.lemma_list_at(j);
                        } else {
                            assert(!self.kinds@.contains(k)) by {
                                if self.kinds@.contains(k) {
                                    let j = choose|j: int| 0 <= j < self.kinds@.len() && self.kinds@[j] == k;
                                    if j < n {
                                        assert(old_self.kinds@[j] == k);
                                    }
                                }
                            }
                        }
                    }
                }
            },
        }
    }

    /// The list of kind `kind` for direct access, if one exists.
    pub fn capabilities(&mut self, kind: CapabilityKind) -> (list: Option<&mut CapabilityList<R>>)
        requires
            old(self).wf(),
        ensures
            list is Some <==> old(self).has_list(kind),
            list is None ==> *final(self) == *old(self),
            list matches Some(l) ==> {
                &&& l.items@ == old(self).list(kind)
                &&& final(self).wf()
                &&& final(self).list(kind) == final(l).items@
                &&& forall|k: CapabilityKind|
                    final(self).has_list(k) == old(self).has_list(k) && (k != kind ==> final(self).list(k)
                        == old(self).list(k))
            },
    {
        let ghost old_self = *self;
        match self.position(kind) {
            Some(i) => {
                proof {
                    old_self.lemma_list_at(i as int);
                }
                Some(&mut self.lists[i])
            },
            None => None,
        }
    }

    /// Whether some resource of kind `kind` is registered.
    pub fn has(&self, kind: CapabilityKind) -> (found: bool)
        requires
            self.wf(),
        ensures
            found == (self.list(kind).len() > 0),
    {
        match self.position(kind) {
            Some(i) => {
                proof {
                    self.lemma_list_at(i as int);
                }
                self.lists[i].items.len() > 0
            },
            None => false,
        }
    }

    /// Registers a resource again, for instance one an app is done with.
    pub fn return_resource(&mut self, kind: CapabilityKind, resource: RegisteredResource<R>)
        requires
            old(self).wf(),
        ensures
            final(self).wf(),
            final(self).has_list(kind),
            final(self).list(kind) == old(self).list(kind).push(resource),
            forall|k: CapabilityKind|
                k != kind ==> final(self).has_list(k) == old(self).has_list(k) && final(self).list(k)
                    == old(self).list(k),
    {
        self.register(kind, resource.slot, resource.module_id, resource.resource);
    }

    /// Takes the most recently registered resource of kind `kind`, if any.
    pub fn take_resource(&mut self, kind: CapabilityKind) -> (taken: Option<RegisteredResource<R>>)
        requires
            old(self).wf(),
        ensures
            final(self).wf(),
            old(self).list(kind).len() == 0 ==> taken is None && *final(self) == *old(self),
            old(self).list(kind).len() > 0 ==> taken == Some(old(self).list(kind).last()) && final(self).list(kind)
                == old(self).list(kind).drop_last(),
            forall|k: CapabilityKind|
                final(self).has_list(k) == old(self).has_list(k) && (k != kind ==> final(self).list(k)
                    == old(self).list(k)),
    {
        let ghost old_self = *self;
        match self.position(kind) {
            Some(i) => {
                proof {
                    old_self.lemma_list_at(i as int);
                }
                if self.lists[i].items.len() == 0 {
                    return None;
                }
                let mut list = self.lists.remove(i);
                let taken = list.items.pop();
                self.lists.insert(i, list);
                proof {
                    self.lemma_list_at(i as int);
                    assert forall|k: CapabilityKind| self.has_list(k) == old_self.has_list(k) && (k != kind
                        ==> self.list(k) == old_self.list(k)) by {
                        if old_self.has_list(k) {
                            let j = choose|j: int| 0 <= j < old_self.kinds@.len() && old_self.kinds@[j] == k;
                            old_self.lemma_list_at(j);
                            self.lemma_list_at(j);
                        }
                    }
                }
                taken
            },
            None => None,
        }
    }
}

/// Taking a resource of a kind right after registering one gives back the
/// resource just registered and leaves that kind's list as it was: the
/// registry hands out the newest resource first. `registered` and `after`
/// are the registry after `register` and after the following
/// `take_resource`, related to `before` as those functions ensure.
pub proof fn lemma_take_after_register<R>(
    before: Registry<R>,
    registered: Registry<R>,
    after: Registry<R>,
    kind: CapabilityKind,
    item: RegisteredResource<R>,
    taken: Option<RegisteredResource<R>>,
)
    requires
        registered.list(kind) == before.list(kind).push(item),
        registered.list(kind).len() > 0 ==> taken == Some(registered.list(kind).last())
            && after.list(kind) == registered.list(kind).drop_last(),
    ensures
        taken == Some(item),
        after.list(kind) == before.list(kind),
{
    assert(before.list(kind).push(item).drop_last() =~= before.list(kind));
}

/// What one registry call did to the list of one kind: a resource was
/// registered or returned, a `take_resource` of the kind was made, or the
/// call concerned another kind.
#[derive(Clone, Copy, Debug, PartialEq, Eq, Structural)]
pub enum ListEvent {
    Added,
    Took,
    Untouched,
}

/// How many resources of a kind a history of calls leaves: one more for
/// each registration or return, one fewer for each take that found one.
pub open spec fn net_count(events: Seq<ListEvent>) -> nat
    decreases events.len(),
{
    if events.len() == 0 {
        0
    } else {
        let n = net_count(events.drop_last());
        match events.last() {
            ListEvent::Added => n + 1,
            ListEvent::Took => if n > 0 {
                (n - 1) as nat
            } else {
                0
            },
            ListEvent::Untouched => n,
        }
    }
}

/// Whether a kind's list went from `before` to `after` as `register` or
/// `return_resource` (`Added`), `take_resource` (`Took`) or a call for
/// another kind (`Untouched`) ensure.
pub open spec fn list_follows<R>(
    before: Seq<RegisteredResource<R>>,
    after: Seq<RegisteredResource<R>>,
    event: ListEvent,
) -> bool {
    match event {
        ListEvent::Added => exists|item: RegisteredResource<R>| after == before.push(item),
        ListEvent::Took => (before.len() == 0 ==> after == before) && (before.len() > 0 ==> after
            == before.drop_last()),
        ListEvent::Untouched => after == before,
    }
}

/// Counting law of the registry: along any history of calls that starts
/// from the empty list of a new registry and makes no direct edits through
/// `capabilities`, the kind's list holds as many resources as were
/// registered or returned, less those taken, so `has` reports whether that
/// number is above zero.
pub proof fn lemma_has_counts_history<R>(lists: Seq<Seq<RegisteredResource<R>>>, events: Seq<ListEvent>)
    requires
        lists.len() == events.len() + 1,
        lists[0].len() == 0,
        forall|i: int| 0 <= i < events.len() ==> list_follows(lists[i], lists[i + 1], #[trigger] events[i]),
    ensures
        lists.last().len() == net_count(events),
        (lists.last().len() > 0) == (net_count(events) > 0),
    decreases events.len(),
{
    if events.len() > 0 {
        let n = events.len() - 1;
        lemma_has_counts_history(lists.drop_last(), events.drop_last());
        assert(list_follows(lists[n], lists[n + 1], events[n]));
        assert(lists.drop_last().last() == lists[n]);
        match events[n] {
            ListEvent::Added => {
                let item = choose|item: RegisteredResource<R>| lists[n + 1] == lists[n].push(item);
            },
            _ => {},
        }
    }
}

} // verus!
