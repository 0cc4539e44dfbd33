//! Decisions of the class factory and the DLL entry points: which requests
//! are refused, and when the module may be unloaded.

use vstd::prelude::*;

use crate::guids::GUID_TEXT_SERVICE;

verus! {

/// Why the factory refuses a request.
#[derive(Debug, Clone, Copy, PartialEq, Eq, Structural)]
pub enum FactoryError {
    /// No place was given to write the result (`E_POINTER`).
    NullPointer,
    /// Aggregation was requested (`CLASS_E_NOAGGREGATION`).
    NoAggregation,
    /// The requested class is not this text service
    /// (`CLASS_E_CLASSNOTAVAILABLE`).
    ClassNotAvailable,
}

/// The class factory of the text service.
#[derive(Debug, Clone, Copy)]
pub struct ClassFactory;

impl ClassFactory {
    /// Whether `CreateInstance` may build a text service: it needs a place
    /// for the result and refuses aggregation (checked in that order).
    pub fn create_instance_check(has_out: bool, has_outer: bool) -> (res: Result<(), FactoryError>)
        ensures
            !has_out ==> res == Err::<(), FactoryError>(FactoryError::NullPointer),
            has_out && has_outer ==> res == Err::<(), FactoryError>(FactoryError::NoAggregation),
            has_out && !has_outer ==> res is Ok,
    {
        if !has_out {
            Err(FactoryError::NullPointer)
        } else if has_outer {
            Err(FactoryError::NoAggregation)
        } else {
            Ok(())
        }
    }

    /// The module lock count after `LockServer(lock)`.
    pub fn lock_server(count: i32, lock: bool) -> (res: i32)
        requires
            lock ==> count < i32::MAX,
            !lock ==> count > i32::MIN,
        ensures
            res == if lock { count + 1 } else { count - 1 },
    {
        if lock {
            count + 1
        } else {
            count - 1
        }
    }
}

/// Whether `DllGetClassObject` may hand out the factory for `clsid`.
pub fn class_object_check(has_out: bool, clsid: u128) -> (res: Result<(), FactoryError>)
    ensures
        !has_out ==> res == Err::<(), FactoryError>(FactoryError::NullPointer),
        has_out && clsid != GUID_TEXT_SERVICE ==> res == Err::<(), FactoryError>(
            FactoryError::ClassNotAvailable,
        ),
        has_out && clsid == GUID_TEXT_SERVICE ==> res is Ok,
{
    if !has_out {
        Err(FactoryError::NullPointer)
    } else if clsid != GUID_TEXT_SERVICE {
        Err(FactoryError::ClassNotAvailable)
    } else {
        Ok(())
    }
}

/// `DllCanUnloadNow`: the module may unload once no lock is held.
pub fn can_unload_now(lock_count: i32) -> (res: bool)
    ensures
        res == (lock_count <= 0),
{
    lock_count <= 0
}

} // verus!
