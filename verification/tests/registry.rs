use xpanse::buttons::{ButtonRole, Down, Left, Right, Up, A, B, X, Y};
use xpanse::metadata::{ModuleDetectResistor, ModuleID, ModuleSlot};
use xpanse::registry::{
    resource_assignment, single_capability, types_are_distinct, Registry, RegistryError, ResourceId,
    ResourceOrigin,
};

fn module() -> ModuleID {
    ModuleID { md0: ModuleDetectResistor::R1K5, md1: ModuleDetectResistor::R1K6 }
}

#[test]
fn registered_resource_can_be_taken_and_returned() {
    let mut registry: Registry<u32> = Registry::new(7);
    assert!(!registry.has(A::kind()));
    registry.register(ModuleSlot::FrontLeft, module(), A::kind(), 11);
    assert!(registry.has(A::kind()));
    assert_eq!(registry.resource_count(A::kind()), 1);

    let lease = registry.take_resource(A::kind()).unwrap();
    assert_eq!(*lease.resource(), 11);
    assert_eq!(lease.kind(), A::kind());
    assert_eq!(lease.slot(), Some(ModuleSlot::FrontLeft));
    assert_eq!(lease.module_id(), Some(module()));
    assert_eq!(lease.origin(), ResourceOrigin::Module);
    assert!(!registry.has(A::kind()));
    assert!(registry.take_resource(A::kind()).is_none());

    registry.return_resource(lease);
    assert!(registry.has(A::kind()));
    assert_eq!(registry.resource_count(A::kind()), 1);
}

#[test]
fn newest_group_is_taken_first() {
    let mut registry: Registry<u32> = Registry::new(1);
    registry.register(ModuleSlot::FrontLeft, module(), A::kind(), 1);
    registry.register(ModuleSlot::BackRight, module(), A::kind(), 2);
    assert_eq!(registry.resource_count(A::kind()), 2);
    assert!(registry.has_at_least(A::kind(), 2));
    assert!(!registry.has_at_least(A::kind(), 3));
    let lease = registry.take_resource(A::kind()).unwrap();
    assert_eq!(*lease.resource(), 2);
    assert_eq!(lease.slot(), Some(ModuleSlot::BackRight));
    let older = registry.take_resource(A::kind()).unwrap();
    assert_eq!(*older.resource(), 1);
}

#[test]
fn leasing_one_capability_hides_the_whole_group() {
    let mut registry: Registry<u32> = Registry::new(1);
    registry
        .register_group(ModuleSlot::FrontRight, module(), vec![(A::kind(), 10), (Down::kind(), 20)])
        .unwrap();
    assert!(registry.has(Down::kind()));
    let lease = registry.take_resource(A::kind()).unwrap();
    assert!(!registry.has(Down::kind()));
    registry.return_resource(lease);
    assert!(registry.has(Down::kind()));
    let down = registry.take_resource(Down::kind()).unwrap();
    assert_eq!(*down.resource(), 20);
}

#[test]
fn duplicate_capabilities_are_refused() {
    let mut registry: Registry<u32> = Registry::new(1);
    let result = registry.register_group(ModuleSlot::FrontRight, module(), vec![(A::kind(), 1), (A::kind(), 2)]);
    assert_eq!(result, Err(RegistryError::DuplicateCapability));
    assert!(!registry.has(A::kind()));
    let result = registry.register_platform_group(vec![(B::kind(), 1), (B::kind(), 2)]);
    assert_eq!(result, Err(RegistryError::DuplicateCapability));
}

#[test]
fn local_ids_must_be_unique() {
    let mut registry: Registry<u32> = Registry::new(1);
    assert_eq!(registry.register_local_group(ModuleSlot::BackLeft, module(), 3, vec![(A::kind(), 1)]), Ok(()));
    assert_eq!(
        registry.register_local_group(ModuleSlot::BackLeft, module(), 3, vec![(B::kind(), 2)]),
        Err(RegistryError::DuplicateResourceId)
    );
    assert_eq!(registry.register_local_group(ModuleSlot::BackRight, module(), 3, vec![(B::kind(), 2)]), Ok(()));
    let lease = registry.take_resource(A::kind()).unwrap();
    assert_eq!(lease.id(), ResourceId::module_local(ModuleSlot::BackLeft, 3));
    assert_eq!(lease.id().module_local_parts(), Some((ModuleSlot::BackLeft, 3)));
}

#[test]
fn register_groups_is_all_or_nothing() {
    let mut registry: Registry<u32> = Registry::new(1);
    let result = registry.register_groups(
        ModuleSlot::FrontLeft,
        module(),
        vec![vec![(A::kind(), 1)], vec![(B::kind(), 2), (B::kind(), 3)]],
    );
    assert_eq!(result, Err(RegistryError::DuplicateCapability));
    assert!(!registry.has(A::kind()));
    let result = registry.register_groups(
        ModuleSlot::FrontLeft,
        module(),
        vec![vec![(A::kind(), 1), (Down::kind(), 2)], vec![(B::kind(), 3), (Right::kind(), 4)]],
    );
    assert_eq!(result, Ok(()));
    assert!(registry.has(A::kind()) && registry.has(Down::kind()));
    assert!(registry.has(B::kind()) && registry.has(Right::kind()));
}

#[test]
fn platform_resources_have_no_module() {
    let mut registry: Registry<u32> = Registry::new(1);
    registry.register_platform(16, 99);
    let lease = registry.take_resource(16).unwrap();
    assert_eq!(lease.origin(), ResourceOrigin::Platform);
    assert_eq!(lease.slot(), None);
    assert_eq!(lease.module_id(), None);
    assert_eq!(lease.id().module_local_parts(), None);
}

#[test]
fn resource_sets_use_distinct_groups() {
    let mut registry: Registry<u32> = Registry::new(1);
    registry
        .register_groups(
            ModuleSlot::FrontLeft,
            module(),
            vec![
                vec![(A::kind(), 1), (Down::kind(), 2)],
                vec![(B::kind(), 3), (Right::kind(), 4)],
                vec![(X::kind(), 5), (Left::kind(), 6)],
                vec![(Y::kind(), 7), (Up::kind(), 8)],
            ],
        )
        .unwrap();
    let kinds = vec![Up::kind(), Down::kind(), Left::kind(), Right::kind()];
    assert!(registry.has_resource_set(&kinds));
    // A and Down share one physical button: they cannot be leased together.
    assert!(!registry.has_resource_set(&vec![A::kind(), Down::kind()]));
    // Asking for the same kind twice is refused.
    assert!(!registry.has_resource_set(&vec![A::kind(), A::kind()]));

    let leases = registry.take_resource_set(&kinds).unwrap();
    let values: Vec<u32> = leases.iter().map(|l| *l.resource()).collect();
    assert_eq!(values, vec![8, 2, 6, 4]);
    assert!(!registry.has(A::kind()));
    assert!(!registry.has_resource_set(&kinds));
    registry.return_leases(leases);
    assert!(registry.has_resource_set(&kinds));
    assert!(registry.has(A::kind()));
}

#[test]
fn failed_resource_set_takes_nothing() {
    let mut registry: Registry<u32> = Registry::new(1);
    registry.register(ModuleSlot::FrontLeft, module(), A::kind(), 1);
    assert!(registry.take_resource_set(&vec![A::kind(), B::kind()]).is_none());
    assert!(registry.has(A::kind()));
}

#[test]
fn take_resources_takes_exactly_count() {
    let mut registry: Registry<u32> = Registry::new(1);
    registry.register(ModuleSlot::FrontLeft, module(), A::kind(), 1);
    registry.register(ModuleSlot::FrontRight, module(), A::kind(), 2);
    assert!(registry.take_resources(A::kind(), 3).is_none());
    assert_eq!(registry.resource_count(A::kind()), 2);
    let leases = registry.take_resources(A::kind(), 2).unwrap();
    assert_eq!(leases.len(), 2);
    assert!(!registry.has(A::kind()));
}

#[test]
fn assignment_picks_distinct_ids() {
    let a = ResourceId::module_local(ModuleSlot::FrontLeft, 1);
    let b = ResourceId::module_local(ModuleSlot::FrontLeft, 2);
    let assignment = resource_assignment(&vec![vec![a, b], vec![a]]).unwrap();
    assert_eq!(assignment, vec![b, a]);
    assert!(resource_assignment(&vec![vec![a], vec![a]]).is_none());
    assert_eq!(resource_assignment(&vec![]), Some(vec![]));
}

#[test]
fn distinct_kinds() {
    assert!(types_are_distinct(&[1, 2, 3]));
    assert!(!types_are_distinct(&[1, 2, 1]));
    assert!(types_are_distinct(&[]));
    assert_eq!(single_capability(5, 'x'), vec![(5, 'x')]);
}

#[test]
fn register_groups_adds_one_group_per_offering_group() {
    let mut registry: Registry<u32> = Registry::new(2);
    registry.register(ModuleSlot::FrontLeft, module(), A::kind(), 1);
    registry
        .register_groups(
            ModuleSlot::BackLeft,
            module(),
            vec![vec![(A::kind(), 2), (B::kind(), 3)], vec![(A::kind(), 4)], vec![(X::kind(), 5)]],
        )
        .unwrap();
    assert_eq!(registry.resource_count(A::kind()), 3);
    assert_eq!(registry.resource_count(B::kind()), 1);
    assert_eq!(registry.resource_count(X::kind()), 1);
    assert_eq!(registry.resource_count(Y::kind()), 0);
}

#[test]
fn returning_taken_leases_restores_counts() {
    let mut registry: Registry<u32> = Registry::new(3);
    registry.register_group(ModuleSlot::FrontLeft, module(), vec![(A::kind(), 1), (B::kind(), 2)]).unwrap();
    registry.register(ModuleSlot::FrontRight, module(), A::kind(), 3);
    let leases = registry.take_resources(A::kind(), 2).unwrap();
    assert_eq!(registry.resource_count(A::kind()), 0);
    assert_eq!(registry.resource_count(B::kind()), 0);
    for lease in leases {
        registry.return_resource(lease);
    }
    assert_eq!(registry.resource_count(A::kind()), 2);
    assert_eq!(registry.resource_count(B::kind()), 1);
}

#[test]
fn written_capability_survives_return() {
    let mut registry: Registry<u32> = Registry::new(4);
    registry.register_group(ModuleSlot::BackRight, module(), vec![(A::kind(), 1), (B::kind(), 2)]).unwrap();
    let mut lease = registry.take_resource(A::kind()).unwrap();
    *lease.resource_mut() = 41;
    assert_eq!(*lease.resource(), 41);
    registry.return_resource(lease);
    let again = registry.take_resource(A::kind()).unwrap();
    assert_eq!(*again.resource(), 41);
    registry.return_resource(again);
    let other = registry.take_resource(B::kind()).unwrap();
    assert_eq!(*other.resource(), 2);
}
