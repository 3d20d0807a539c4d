//! The COM class factory of the driver, and the count that keeps the server
//! loaded.

use vstd::prelude::*;
use crate::asio_com::IrigAsioDriverCom;
use crate::asio_driver::StateModel;
use crate::constants::{CLASS_E_NOAGGREGATION, E_NOINTERFACE, S_OK};
use crate::guid::{
    iid_iclassfactory, iid_iclassfactory_spec, iid_iunknown, iid_iunknown_spec, Guid,
};

verus! {

/// What keeps the server loaded: the locks that are held on it, and its objects
/// that are alive.
#[derive(Clone, Copy, Debug, PartialEq, Eq, Structural)]
pub struct ServerLocks {
    pub count: i32,
    pub objects: i32,
}

/// `n + 1`; after the largest number comes the smallest.
pub open spec fn next(n: i32) -> i32 {
    if n == i32::MAX {
        i32::MIN
    } else {
        (n + 1) as i32
    }
}

/// `n - 1`; before the smallest number comes the largest.
pub open spec fn previous(n: i32) -> i32 {
    if n == i32::MIN {
        i32::MAX
    } else {
        (n - 1) as i32
    }
}

fn step_up(n: i32) -> (r: i32)
    ensures
        r == next(n),
{
    if n == i32::MAX {
        i32::MIN
    } else {
        n + 1
    }
}

fn step_down(n: i32) -> (r: i32)
    ensures
        r == previous(n),
{
    if n == i32::MIN {
        i32::MAX
    } else {
        n - 1
    }
}

impl ServerLocks {
    /// No locks and no objects.
    pub fn new() -> (r: Self)
        ensures
            r == (ServerLocks { count: 0, objects: 0 }),
    {
        ServerLocks { count: 0, objects: 0 }
    }

    /// With one more lock.
    pub open spec fn locked(self) -> ServerLocks {
        ServerLocks { count: next(self.count), ..self }
    }

    /// With one lock less.
    pub open spec fn unlocked(self) -> ServerLocks {
        ServerLocks { count: previous(self.count), ..self }
    }

    /// With one more object.
    pub open spec fn with_object(self) -> ServerLocks {
        ServerLocks { objects: next(self.objects), ..self }
    }

    /// With one object less.
    pub open spec fn without_object(self) -> ServerLocks {
        ServerLocks { objects: previous(self.objects), ..self }
    }

    /// Takes note of a new object.
    pub fn object_created(&mut self)
        ensures
            *final(self) == old(self).with_object(),
    {
        self.objects = step_up(self.objects);
    }

    /// Takes note of the end of an object.
    pub fn object_destroyed(&mut self)
        ensures
            *final(self) == old(self).without_object(),
    {
        self.objects = step_down(self.objects);
    }
}

/// Locks the server once more.
pub fn increment_lock_count(locks: &mut ServerLocks)
    ensures
        *final(locks) == old(locks).locked(),
{
    locks.count = step_up(locks.count);
}

/// Takes one lock off the server.
pub fn decrement_lock_count(locks: &mut ServerLocks)
    ensures
        *final(locks) == old(locks).unlocked(),
{
    locks.count = step_down(locks.count);
}

/// How many locks are held on the server.
pub fn lock_count(locks: &ServerLocks) -> (r: i32)
    ensures
        r == locks.count,
{
    locks.count
}

/// What is written where the caller wants an interface.
#[derive(Clone, Copy, Debug, PartialEq, Eq, Structural)]
pub enum Out {
    /// Nothing.
    Untouched,
    /// A null pointer.
    Null,
    /// The object that was asked.
    This,
}

/// The number of references after one has been added.
pub open spec fn with_reference(n: i32) -> int {
    n + 1
}

/// The number of references after one has been taken off.
pub open spec fn without_reference(n: i32) -> int {
    n - 1
}

/// The reference taken off is the last one, with which the object goes.
pub open spec fn is_last_reference(n: i32) -> bool {
    n == 1
}

/// Taking off a reference that was added brings the number back and never ends
/// the object.
pub proof fn law_release_undoes_add_ref(n: i32)
    requires
        1 <= n < i32::MAX,
    ensures
        without_reference(with_reference(n) as i32) == n,
        !is_last_reference(with_reference(n) as i32),
        is_last_reference(n) <==> without_reference(n) == 0,
        with_reference(n) == n + 1,
        without_reference(n) == n - 1,
        is_last_reference(n) <==> n == 1,
{
}

/// The class factory object; it is alive while references to it are held.
#[derive(Clone, Copy, Debug, PartialEq, Eq, Structural)]
pub struct ClassFactory {
    pub ref_count: i32,
}

impl ClassFactory {
    /// References to the object are held.
    pub open spec fn wf(&self) -> bool {
        self.ref_count >= 1
    }

    /// A factory with one reference to it.
    pub fn new() -> (r: Self)
        ensures
            r == (ClassFactory { ref_count: 1 }),
    {
        ClassFactory { ref_count: 1 }
    }
}

/// Adds a reference and returns their number.
pub fn cf_add_ref(this: &mut ClassFactory) -> (r: u32)
    requires
        old(this).wf(),
        old(this).ref_count < i32::MAX,
    ensures
        final(this).wf(),
        final(this).ref_count == with_reference(old(this).ref_count),
        r == with_reference(old(this).ref_count),
{
    this.ref_count = this.ref_count + 1;
    this.ref_count as u32
}

/// Takes off a reference. Returns their number, and whether the object is to be
/// destroyed, which is the case with the last one.
pub fn cf_release(this: &mut ClassFactory, locks: &mut ServerLocks) -> (r: (u32, bool))
    requires
        old(this).wf(),
    ensures
        final(this).ref_count == without_reference(old(this).ref_count),
        r.0 == without_reference(old(this).ref_count),
        r.1 <==> is_last_reference(old(this).ref_count),
        r.1 <==> !final(this).wf(),
        *final(locks) == (if r.1 {
            old(locks).without_object()
        } else {
            *old(locks)
        }),
{
    this.ref_count = this.ref_count - 1;
    if this.ref_count == 0 {
        locks.object_destroyed();
        return (0, true);
    }
    (this.ref_count as u32, false)
}

/// Hands out the factory as the interface asked for, if it has that interface;
/// the new reference is counted.
pub fn cf_query_interface(this: &mut ClassFactory, iid: Option<&Guid>, has_ppv: bool) -> (r: (
    i32,
    Out,
))
    requires
        old(this).wf(),
        old(this).ref_count < i32::MAX,
    ensures
        final(this).wf(),
        match iid {
            Some(g) if has_ppv => if g@ == iid_iunknown_spec() || g@ == iid_iclassfactory_spec() {
                &&& r == (S_OK, Out::This)
                &&& final(this).ref_count == with_reference(old(this).ref_count)
            } else {
                &&& r == (E_NOINTERFACE, Out::Null)
                &&& *final(this) == *old(this)
            },
            _ => {
                &&& r == (E_NOINTERFACE, Out::Untouched)
                &&& *final(this) == *old(this)
            },
        },
{
    match iid {
        Some(g) => {
            if !has_ppv {
                return (E_NOINTERFACE, Out::Untouched);
            }
            if g.same(&iid_iunknown()) || g.same(&iid_iclassfactory()) {
                let _ = cf_add_ref(this);
                return (S_OK, Out::This);
            }
            (E_NOINTERFACE, Out::Null)
        },
        None => (E_NOINTERFACE, Out::Untouched),
    }
}

/// Makes a driver object, unless it is to be part of another object, which is
/// not supported.
pub fn cf_create_instance(has_outer: bool, locks: &mut ServerLocks) -> (r: (
    i32,
    Option<IrigAsioDriverCom>,
))
    ensures
        if has_outer {
            &&& r.0 == CLASS_E_NOAGGREGATION
            &&& r.1 is None
            &&& *final(locks) == *old(locks)
        } else {
            &&& r.0 == S_OK
            &&& r.1 matches Some(com)
            &&& com.wf()
            &&& com.ref_count == 1
            &&& com.driver.state@ == StateModel::fresh()
            &&& *final(locks) == old(locks).with_object()
        },
{
    if has_outer {
        return (CLASS_E_NOAGGREGATION, None);
    }
    locks.object_created();
    (S_OK, Some(IrigAsioDriverCom::new()))
}

/// Locks the server, or takes off a lock where `lock` is zero.
pub fn cf_lock_server(locks: &mut ServerLocks, lock: i32) -> (r: i32)
    ensures
        r == S_OK,
        *final(locks) == (if lock != 0 {
            old(locks).locked()
        } else {
            old(locks).unlocked()
        }),
{
    if lock != 0 {
        increment_lock_count(locks);
    } else {
        decrement_lock_count(locks);
    }
    S_OK
}

/// Taking off a lock undoes locking, and the other way round.
pub proof fn law_unlock_undoes_lock(locks: ServerLocks)
    ensures
        locks.locked().unlocked() == locks,
        locks.unlocked().locked() == locks,
        locks.locked().count != locks.count,
{
}

/// What changes the counts of the server.
pub enum ServerEvent {
    Locked,
    Unlocked,
    Created,
    Destroyed,
}

/// The counts after one event.
pub open spec fn after_event(locks: ServerLocks, e: ServerEvent) -> ServerLocks {
    match e {
        ServerEvent::Locked => locks.locked(),
        ServerEvent::Unlocked => locks.unlocked(),
        ServerEvent::Created => locks.with_object(),
        ServerEvent::Destroyed => locks.without_object(),
    }
}

/// The counts after these events, in whichever order they came.
pub open spec fn after_events(locks: ServerLocks, events: Seq<ServerEvent>) -> ServerLocks
    decreases events.len(),
{
    if events.len() == 0 {
        locks
    } else {
        after_event(after_events(locks, events.drop_last()), events.last())
    }
}

/// How many of the events lock the server, less how many unlock it.
pub open spec fn net_locks(events: Seq<ServerEvent>) -> int
    decreases events.len(),
{
    if events.len() == 0 {
        0
    } else {
        net_locks(events.drop_last()) + match events.last() {
            ServerEvent::Locked => 1int,
            ServerEvent::Unlocked => -1int,
            _ => 0int,
        }
    }
}

/// How many of the events make an object, less how many end one.
pub open spec fn net_objects(events: Seq<ServerEvent>) -> int
    decreases events.len(),
{
    if events.len() == 0 {
        0
    } else {
        net_objects(events.drop_last()) + match events.last() {
            ServerEvent::Created => 1int,
            ServerEvent::Destroyed => -1int,
            _ => 0int,
        }
    }
}

/// `n` can be counted.
pub open spec fn countable(n: int) -> bool {
    i32::MIN <= n <= i32::MAX
}

proof fn lemma_history(locks: ServerLocks, events: Seq<ServerEvent>)
    ensures
        (after_events(locks, events).count - locks.count - net_locks(events)) % 0x1_0000_0000 == 0,
        (after_events(locks, events).objects - locks.objects - net_objects(events)) % 0x1_0000_0000
            == 0,
    decreases events.len(),
{
    if events.len() > 0 {
        lemma_history(locks, events.drop_last());
    }
}

/// No lock and no object is lost: after any mix of events the counts have changed
/// by what was added less what was taken off, wherever they can hold that, even
/// where they could not on the way.
pub proof fn law_every_event_counts(locks: ServerLocks, events: Seq<ServerEvent>)
    ensures
        countable(locks.count + net_locks(events)) ==> after_events(locks, events).count
            == locks.count + net_locks(events),
        countable(locks.objects + net_objects(events)) ==> after_events(locks, events).objects
            == locks.objects + net_objects(events),
{
    lemma_history(locks, events);
}

/// The end of an object undoes its making.
pub proof fn law_destroy_undoes_create(locks: ServerLocks)
    ensures
        locks.with_object().without_object() == locks,
        locks.with_object().objects != locks.objects,
{
}

/// A lock counts one up and an unlocking one down, and neither touches the
/// objects; an object counts one up and its end one down, and neither touches the
/// locks.
pub proof fn law_counts_of_the_server(locks: ServerLocks)
    ensures
        locks.count < i32::MAX ==> locks.locked().count == locks.count + 1,
        locks.count > i32::MIN ==> locks.unlocked().count == locks.count - 1,
        locks.objects < i32::MAX ==> locks.with_object().objects == locks.objects + 1,
        locks.objects > i32::MIN ==> locks.without_object().objects == locks.objects - 1,
        locks.locked().objects == locks.objects && locks.unlocked().objects == locks.objects,
        locks.with_object().count == locks.count && locks.without_object().count == locks.count,
{
}

} // verus!
