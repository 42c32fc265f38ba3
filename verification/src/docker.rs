//! What the Docker engine's replies mean.
use vstd::prelude::*;

verus! {

/// A request that the Docker engine did not carry out. It has a status where the
/// engine answered.
#[derive(Debug)]
pub struct DockerFailure {
    pub status: Option<u16>,
    pub message: String,
}

/// Whether the engine does not know what was asked for.
pub open spec fn not_found(failure: DockerFailure) -> bool {
    failure.status == Some(404u16)
}

/// Whether what was asked for is so already, or stands against what is.
pub open spec fn conflict(failure: DockerFailure) -> bool {
    failure.status == Some(409u16)
}

/// Whether the engine does not know what was asked for.
pub fn is_not_found(failure: &DockerFailure) -> (r: bool)
    ensures
        r == not_found(*failure),
        r == (failure.status is Some && failure.status->0 == 404),
{
    match failure.status {
        Some(status) => status == 404,
        None => false,
    }
}

/// Whether what was asked for is so already, or stands against what is.
pub fn is_conflict(failure: &DockerFailure) -> (r: bool)
    ensures
        r == conflict(*failure),
        r == (failure.status is Some && failure.status->0 == 409),
{
    match failure.status {
        Some(status) => status == 409,
        None => false,
    }
}

/// What is to be done about something that must exist.
#[derive(Debug)]
pub enum Ensure {
    /// Nothing: it exists.
    Present,
    /// Create it.
    Create,
    /// Give up.
    Fail(DockerFailure),
}

/// What is to be done about something that must exist, given what the engine
/// says of it: create it only where the engine does not know it.
pub fn ensure_present(inspected: Result<(), DockerFailure>) -> (r: Ensure)
    ensures
        r == match inspected {
            Ok(_) => Ensure::Present,
            Err(failure) => if not_found(failure) {
                Ensure::Create
            } else {
                Ensure::Fail(failure)
            },
        },
        inspected matches Err(failure) ==> {
            &&& failure.status == Some(404u16) ==> r == Ensure::Create
            &&& failure.status != Some(404u16) ==> r == Ensure::Fail(failure)
        },
{
    match inspected {
        Ok(_) => Ensure::Present,
        Err(failure) => {
            if is_not_found(&failure) {
                Ensure::Create
            } else {
                Ensure::Fail(failure)
            }
        },
    }
}

/// The outcome of starting a container, given the engine's reply: one that runs
/// already is started.
pub fn start_container(reply: Result<(), DockerFailure>) -> (r: Result<(), DockerFailure>)
    ensures
        r == match reply {
            Ok(_) => Ok(()),
            Err(failure) => if conflict(failure) {
                Ok(())
            } else {
                Err(failure)
            },
        },
        reply matches Err(failure) ==> {
            &&& r is Ok <==> failure.status == Some(409u16)
            &&& r is Err ==> r == Err::<(), DockerFailure>(failure)
        },
{
    match reply {
        Ok(_) => Ok(()),
        Err(failure) => {
            if is_conflict(&failure) {
                Ok(())
            } else {
                Err(failure)
            }
        },
    }
}

/// The outcome of stopping a container, given the engine's reply: one that does
/// not run, or does not exist, is stopped.
pub fn stop_container(reply: Result<(), DockerFailure>) -> (r: Result<(), DockerFailure>)
    ensures
        r == match reply {
            Ok(_) => Ok(()),
            Err(failure) => if conflict(failure) || not_found(failure) {
                Ok(())
            } else {
                Err(failure)
            },
        },
        reply matches Err(failure) ==> {
            &&& r is Ok <==> failure.status == Some(409u16) || failure.status == Some(404u16)
            &&& r is Err ==> r == Err::<(), DockerFailure>(failure)
        },
{
    match reply {
        Ok(_) => Ok(()),
        Err(failure) => {
            if is_conflict(&failure) || is_not_found(&failure) {
                Ok(())
            } else {
                Err(failure)
            }
        },
    }
}

/// The outcome of removing something, given the engine's reply: what does not
/// exist is removed.
pub fn remove_if_present(reply: Result<(), DockerFailure>) -> (r: Result<(), DockerFailure>)
    ensures
        r == match reply {
            Ok(_) => Ok(()),
            Err(failure) => if not_found(failure) {
                Ok(())
            } else {
                Err(failure)
            },
        },
        reply matches Err(failure) ==> {
            &&& r is Ok <==> failure.status == Some(404u16)
            &&& r is Err ==> r == Err::<(), DockerFailure>(failure)
        },
{
    match reply {
        Ok(_) => Ok(()),
        Err(failure) => {
            if is_not_found(&failure) {
                Ok(())
            } else {
                Err(failure)
            }
        },
    }
}

/// What is to be done about the network that clusters share.
#[derive(Debug)]
pub enum NetworkCleanup {
    /// Nothing: it does not exist, or containers are attached to it.
    Keep,
    /// Remove it.
    Remove,
    /// Give up.
    Fail(DockerFailure),
}

/// What is to be done about the network that clusters share, given how many
/// containers are attached to it.
pub fn cleanup_network_if_unused(inspected: Result<usize, DockerFailure>) -> (r: NetworkCleanup)
    ensures
        r == match inspected {
            Ok(attached) => if attached > 0 {
                NetworkCleanup::Keep
            } else {
                NetworkCleanup::Remove
            },
            Err(failure) => if not_found(failure) {
                NetworkCleanup::Keep
            } else {
                NetworkCleanup::Fail(failure)
            },
        },
        inspected matches Err(failure) ==> {
            &&& failure.status == Some(404u16) ==> r == NetworkCleanup::Keep
            &&& failure.status != Some(404u16) ==> r == NetworkCleanup::Fail(failure)
        },
{
    match inspected {
        Ok(attached) => {
            if attached > 0 {
                NetworkCleanup::Keep
            } else {
                NetworkCleanup::Remove
            }
        },
        Err(failure) => {
            if is_not_found(&failure) {
                NetworkCleanup::Keep
            } else {
                NetworkCleanup::Fail(failure)
            }
        },
    }
}

/// Only the engine's status tells what a failure means: what it does not know has the
/// status 404, what stands against what is has the status 409, and what is said of a
/// failure does not matter.
pub proof fn law_status_tells(failure: DockerFailure)
    ensures
        not_found(failure) <==> failure.status is Some && failure.status->0 == 404,
        conflict(failure) <==> failure.status is Some && failure.status->0 == 409,
        !(not_found(failure) && conflict(failure)),
{
}

} // verus!
