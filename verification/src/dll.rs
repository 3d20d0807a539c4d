//! The entry points of the DLL.

use vstd::prelude::*;
use crate::com_server::{
    after_events, countable, law_every_event_counts, lock_count, net_locks, net_objects, ClassFactory,
    ServerEvent, ServerLocks,
};
use crate::constants::{DRIVER_CLSID_STR, E_NOINTERFACE, S_FALSE, S_OK};
use crate::guid::{iid_iasio_spec, law_class_is_interface, parse_guid, Guid};
use crate::registration::{
    get_dll_path, op_models, register_driver, registration, unregister_driver, unregistration,
    RegOp,
};
use crate::utf16::decoded;

verus! {

/// The reason of a call of [`DllMain`] when the DLL is loaded.
pub const DLL_PROCESS_ATTACH: u32 = 1;

/// Called when the DLL is loaded or unloaded: keeps the handle of the module on
/// loading, and always succeeds.
#[allow(non_snake_case)]
pub fn DllMain(kept: &mut usize, module: usize, reason: u32) -> (r: i32)
    ensures
        r == 1,
        *final(kept) == (if reason == DLL_PROCESS_ATTACH {
            module
        } else {
            *old(kept)
        }),
{
    if reason == DLL_PROCESS_ATTACH {
        *kept = module;
    }
    1
}

/// Makes the class factory, if the driver's class is asked for and there is a
/// place to put it.
#[allow(non_snake_case)]
pub fn DllGetClassObject(rclsid: Option<&Guid>, has_ppv: bool, locks: &mut ServerLocks) -> (r: (
    i32,
    Option<ClassFactory>,
))
    ensures
        if has_ppv && (rclsid matches Some(g) && g@ == iid_iasio_spec()) {
            &&& r == (S_OK, Some(ClassFactory { ref_count: 1 }))
            &&& *final(locks) == old(locks).with_object()
        } else {
            &&& r.0 == E_NOINTERFACE
            &&& r.1 is None
            &&& *final(locks) == *old(locks)
        },
{
    match rclsid {
        Some(g) => {
            if !has_ppv {
                return (E_NOINTERFACE, None);
            }
            proof {
                law_class_is_interface();
            }
            if !g.same(&parse_guid(DRIVER_CLSID_STR)) {
                return (E_NOINTERFACE, None);
            }
            locks.object_created();
            (S_OK, Some(ClassFactory::new()))
        },
        None => (E_NOINTERFACE, None),
    }
}

/// The answer to whether the DLL can be unloaded: `S_OK` if no objects are alive
/// and no lock is held.
pub open spec fn unload_answer(locks: ServerLocks) -> i32 {
    if locks.count == 0 && locks.objects == 0 {
        S_OK
    } else {
        S_FALSE
    }
}

/// Whether the DLL can be unloaded; see [`unload_answer`].
#[allow(non_snake_case)]
pub fn DllCanUnloadNow(locks: &ServerLocks) -> (r: i32)
    ensures
        r == unload_answer(*locks),
{
    if lock_count(locks) == 0 && locks.objects == 0 {
        S_OK
    } else {
        S_FALSE
    }
}

/// What registers the driver, from the module's file name: the first `len` units
/// that the system wrote into `buf`.
#[allow(non_snake_case)]
pub fn DllRegisterServer(buf: &Vec<u16>, len: usize) -> (r: Vec<RegOp>)
    requires
        len <= buf.len(),
    ensures
        op_models(r@) == registration(decoded(buf@.take(len as int))),
{
    let path = get_dll_path(buf, len);
    register_driver(path.as_str())
}

/// What unregisters the driver.
#[allow(non_snake_case)]
pub fn DllUnregisterServer() -> (r: Vec<RegOp>)
    ensures
        op_models(r@) == unregistration(),
{
    unregister_driver()
}

/// What is answered once the registry operations are over.
pub fn server_result(outcome: Result<(), i32>) -> (r: i32)
    ensures
        r == (match outcome {
            Ok(_) => S_OK,
            Err(code) => code,
        }),
{
    match outcome {
        Ok(_) => S_OK,
        Err(code) => code,
    }
}

/// While an object that was handed out is alive, or a lock is held, the DLL
/// cannot be unloaded; once the object and the lock are gone, it can be again.
pub proof fn law_stays_loaded_while_used(locks: ServerLocks)
    requires
        unload_answer(locks) == S_OK,
    ensures
        unload_answer(locks.with_object()) == S_FALSE,
        unload_answer(locks.locked()) == S_FALSE,
        unload_answer(locks.with_object().locked().without_object()) == S_FALSE,
        unload_answer(locks.with_object().without_object()) == S_OK,
        unload_answer(locks.with_object().locked().without_object().unlocked()) == S_OK,
{
}

/// Whatever was locked, unlocked, made and ended since the DLL was loaded: while
/// objects are alive or locks are held, it cannot be unloaded, and otherwise it
/// can.
pub proof fn law_unload_only_when_unused(events: Seq<ServerEvent>)
    requires
        countable(net_locks(events)),
        countable(net_objects(events)),
    ensures
        ({
            let answer = unload_answer(
                after_events(ServerLocks { count: 0, objects: 0 }, events),
            );
            &&& net_objects(events) >= 1 ==> answer == S_FALSE
            &&& net_locks(events) >= 1 ==> answer == S_FALSE
            &&& net_objects(events) == 0 && net_locks(events) == 0 ==> answer == S_OK
        }),
{
    law_every_event_counts(ServerLocks { count: 0, objects: 0 }, events);
}

/// With any number of objects alive the DLL cannot be unloaded, whatever locks
/// are held.
pub proof fn law_objects_keep_loaded(locks: ServerLocks)
    requires
        1 <= locks.objects,
    ensures
        unload_answer(locks) == S_FALSE,
        locks.objects < i32::MAX ==> unload_answer(locks.with_object()) == S_FALSE,
        locks.objects > 1 ==> unload_answer(locks.without_object()) == S_FALSE,
{
}

} // verus!
