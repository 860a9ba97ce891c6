use device_groups::DeviceGroup;
use device_groups::GroupError;

#[test]
fn new_group_is_empty_with_fresh_id() {
    let g = DeviceGroup::new("Garage");
    assert_eq!(g.name(), "Garage");
    assert_eq!(g.id().len(), 36);
    assert!(g.devices().is_empty());
    assert!(!g.has_device("dev-1"));
}

#[test]
fn ids_are_distinct_across_groups_with_the_same_name() {
    let a = DeviceGroup::new("x");
    let b = DeviceGroup::new("x");
    assert!(!a.id().is_empty());
    assert!(!b.id().is_empty());
    assert_ne!(a.id(), b.id());
}

#[test]
fn id_is_stable_across_mutation() {
    let mut g = DeviceGroup::new("g");
    let id = g.id().to_string();
    g.add_device("dev-1").unwrap();
    g.remove_device("dev-1").unwrap();
    assert_eq!(g.id(), id);
    assert_eq!(g.name(), "g");
}

#[test]
fn add_makes_member_with_exactly_one_occurrence() {
    let mut g = DeviceGroup::new("g");
    assert!(g.add_device("dev-1").is_ok());
    assert!(g.has_device("dev-1"));
    let occurrences = g.devices().iter().filter(|d| d.as_str() == "dev-1").count();
    assert_eq!(occurrences, 1);
}

#[test]
fn add_preserves_insertion_order() {
    let mut g = DeviceGroup::new("g");
    g.add_device("dev-2").unwrap();
    g.add_device("dev-1").unwrap();
    g.add_device("dev-3").unwrap();
    assert_eq!(
        g.devices(),
        &vec!["dev-2".to_string(), "dev-1".to_string(), "dev-3".to_string()]
    );
}

#[test]
fn duplicate_add_fails_and_leaves_group_unchanged() {
    let mut g = DeviceGroup::new("g");
    g.add_device("dev-1").unwrap();
    g.add_device("dev-2").unwrap();
    let before = g.devices().clone();
    assert_eq!(g.add_device("dev-1"), Err(GroupError::DuplicateMember));
    assert_eq!(g.devices(), &before);
    assert_eq!(g.add_device("dev-1"), Err(GroupError::DuplicateMember));
    assert_eq!(g.devices(), &before);
}

#[test]
fn remove_of_absent_member_fails_and_leaves_group_unchanged() {
    let mut g = DeviceGroup::new("g");
    g.add_device("dev-1").unwrap();
    let before = g.devices().clone();
    assert_eq!(g.remove_device("dev-2"), Err(GroupError::MemberNotFound));
    assert_eq!(g.devices(), &before);
}

#[test]
fn remove_from_empty_group_fails() {
    let mut g = DeviceGroup::new("g");
    assert_eq!(g.remove_device("dev-1"), Err(GroupError::MemberNotFound));
    assert!(g.devices().is_empty());
}

#[test]
fn add_then_remove_round_trip_restores_members() {
    let mut g = DeviceGroup::new("g");
    g.add_device("dev-1").unwrap();
    g.add_device("dev-3").unwrap();
    let before = g.devices().clone();
    assert!(g.add_device("dev-2").is_ok());
    assert!(g.remove_device("dev-2").is_ok());
    assert_eq!(g.devices(), &before);
    assert!(!g.has_device("dev-2"));
}

#[test]
fn remove_keeps_relative_order_of_other_members() {
    let mut g = DeviceGroup::new("g");
    g.add_device("dev-1").unwrap();
    g.add_device("dev-2").unwrap();
    g.add_device("dev-3").unwrap();
    g.remove_device("dev-2").unwrap();
    assert_eq!(g.devices(), &vec!["dev-1".to_string(), "dev-3".to_string()]);
}

#[test]
fn garage_scenario() {
    let mut g = DeviceGroup::new("Garage");
    assert_eq!(g.name(), "Garage");
    g.add_device("dev-1").unwrap();
    g.add_device("dev-2").unwrap();
    g.remove_device("dev-1").unwrap();
    assert_eq!(g.devices(), &vec!["dev-2".to_string()]);
    assert_eq!(g.add_device("dev-2"), Err(GroupError::DuplicateMember));
    assert_eq!(g.devices(), &vec!["dev-2".to_string()]);
}
