use battlegroup_data::app_data::weapons::{WeaponClass, WeaponTargeting};

#[test]
fn weapon_class_round_trips_through_its_name() {
    for member in [WeaponClass::Superheavy, WeaponClass::Primary, WeaponClass::Auxiliary] {
        assert_eq!(WeaponClass::parse(&member.to_string()), Some(member));
    }
    assert_eq!(WeaponClass::Primary.to_string(), "Primary");
    assert_eq!(WeaponClass::parse("primary"), None);
}

#[test]
fn weapon_targeting_round_trips_through_its_name() {
    for member in [WeaponTargeting::SingleTarget, WeaponTargeting::Area] {
        assert_eq!(WeaponTargeting::parse(&member.to_string()), Some(member));
    }
    assert_eq!(WeaponTargeting::SingleTarget.to_string(), "SingleTarget");
    assert_eq!(WeaponTargeting::parse(""), None);
}

#[test]
fn enumerations_default_to_primary_and_single_target() {
    assert_eq!(WeaponClass::default(), WeaponClass::Primary);
    assert_eq!(WeaponTargeting::default(), WeaponTargeting::SingleTarget);
}
