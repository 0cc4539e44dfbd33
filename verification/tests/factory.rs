use ainukey::factory::{can_unload_now, class_object_check, ClassFactory, FactoryError};
use ainukey::guids::{GUID_PROFILE, GUID_TEXT_SERVICE};

#[test]
fn create_instance_rules() {
    assert_eq!(ClassFactory::create_instance_check(false, false), Err(FactoryError::NullPointer));
    assert_eq!(ClassFactory::create_instance_check(false, true), Err(FactoryError::NullPointer));
    assert_eq!(ClassFactory::create_instance_check(true, true), Err(FactoryError::NoAggregation));
    assert_eq!(ClassFactory::create_instance_check(true, false), Ok(()));
}

#[test]
fn class_object_rules() {
    assert_eq!(class_object_check(false, GUID_TEXT_SERVICE), Err(FactoryError::NullPointer));
    assert_eq!(class_object_check(true, GUID_PROFILE), Err(FactoryError::ClassNotAvailable));
    assert_eq!(class_object_check(true, GUID_TEXT_SERVICE), Ok(()));
}

#[test]
fn lock_count() {
    let c = ClassFactory::lock_server(0, true);
    assert_eq!(c, 1);
    assert!(!can_unload_now(c));
    let c = ClassFactory::lock_server(c, false);
    assert!(can_unload_now(c));
    assert!(can_unload_now(-1));
}
