//! The decisions of the virtio-fs backend: which queue an event is about, when
//! the guest is notified and when the work is done.

use vstd::prelude::*;
use vstd::string::StringExecFns;
use crate::error::{Error, ErrorKind};

verus! {

/// How many requests a queue holds.
pub const QUEUE_SIZE: usize = 1024;

/// How many queues there are.
pub const NUM_QUEUES: usize = 2;

/// The guest queued an available buffer for the high priority queue.
pub const HIPRIO_QUEUE_EVENT: u16 = 0;

/// The guest queued an available buffer for the request queue.
pub const REQ_QUEUE_EVENT: u16 = 1;

/// The bit of a device that follows the standard.
pub const VIRTIO_F_VERSION_1: u64 = 0x1_0000_0000;

/// The bit of rings with indirect descriptors.
pub const VIRTIO_RING_F_INDIRECT_DESC: u64 = 0x1000_0000;

/// The bit of rings that say from which request on they want notifications.
pub const VIRTIO_RING_F_EVENT_IDX: u64 = 0x2000_0000;

/// The bit of a backend that negotiates features of the protocol.
pub const VHOST_USER_F_PROTOCOL_FEATURES: u64 = 0x4000_0000;

/// The bit of many queues.
pub const VHOST_USER_PROTOCOL_F_MQ: u64 = 0x1;

/// The bit of a channel for requests of the backend.
pub const VHOST_USER_PROTOCOL_F_BACKEND_REQ: u64 = 0x20;

/// What can go wrong in the backend.
#[derive(Clone, Copy, Debug, PartialEq, Eq, Structural)]
pub enum VirtiofsError {
    HandleEventNotEpollIn,
    HandleEventUnknownEvent(u16),
    IterateQueue,
    InvalidDescriptorChain,
    ProcessQueue,
    QueueMemoryUnset,
    EventFdCreate,
    StartDaemon,
    CreateListener,
    ThreadSpawn,
}

impl VirtiofsError {
    /// The words of the error.
    pub open spec fn text(self) -> Seq<char> {
        match self {
            VirtiofsError::HandleEventNotEpollIn => {
                "Failed to handle event, not an EPOLLIN event"@
            },
            VirtiofsError::HandleEventUnknownEvent(event) => {
                "Failed to handle event, unknown event: "@ + crate::text::decimal_text(event as int)
            },
            VirtiofsError::IterateQueue => "Failed to iterate virtio queue"@,
            VirtiofsError::InvalidDescriptorChain => "Invalid descriptor chain"@,
            VirtiofsError::ProcessQueue => "Failed to process virtio queue"@,
            VirtiofsError::QueueMemoryUnset => "Guest memory is not set"@,
            VirtiofsError::EventFdCreate => "Failed to create new EventFd"@,
            VirtiofsError::StartDaemon => "Failed to start vhost-user daemon"@,
            VirtiofsError::CreateListener => "Failed to create vhost-user listener"@,
            VirtiofsError::ThreadSpawn => "Failed to spawn daemon thread"@,
        }
    }

    /// The words of the error.
    pub fn message(&self) -> (r: String)
        ensures
            r@ == self.text(),
    {
        match self {
            VirtiofsError::HandleEventNotEpollIn => {
                "Failed to handle event, not an EPOLLIN event".to_string()
            },
            VirtiofsError::HandleEventUnknownEvent(event) => {
                let mut text = "Failed to handle event, unknown event: ".to_string();
                text.append(crate::text::decimal(*event as i64).as_str());
                text
            },
            VirtiofsError::IterateQueue => "Failed to iterate virtio queue".to_string(),
            VirtiofsError::InvalidDescriptorChain => "Invalid descriptor chain".to_string(),
            VirtiofsError::ProcessQueue => "Failed to process virtio queue".to_string(),
            VirtiofsError::QueueMemoryUnset => "Guest memory is not set".to_string(),
            VirtiofsError::EventFdCreate => "Failed to create new EventFd".to_string(),
            VirtiofsError::StartDaemon => "Failed to start vhost-user daemon".to_string(),
            VirtiofsError::CreateListener => "Failed to create vhost-user listener".to_string(),
            VirtiofsError::ThreadSpawn => "Failed to spawn daemon thread".to_string(),
        }
    }

    /// The error as others see it.
    pub fn to_error(&self) -> (r: Error)
        ensures
            r@ == (crate::error::ErrorView::Message { kind: ErrorKind::Other, message: self.text() }),
    {
        Error::Message { kind: ErrorKind::Other, message: self.message() }
    }
}

/// The features of the device.
pub fn features() -> (r: u64)
    ensures
        r == VIRTIO_F_VERSION_1 | VIRTIO_RING_F_INDIRECT_DESC | VIRTIO_RING_F_EVENT_IDX
            | VHOST_USER_F_PROTOCOL_FEATURES,
{
    VIRTIO_F_VERSION_1 | VIRTIO_RING_F_INDIRECT_DESC | VIRTIO_RING_F_EVENT_IDX
        | VHOST_USER_F_PROTOCOL_FEATURES
}

/// The features of the protocol.
pub fn protocol_features() -> (r: u64)
    ensures
        r == VHOST_USER_PROTOCOL_F_MQ | VHOST_USER_PROTOCOL_F_BACKEND_REQ,
{
    VHOST_USER_PROTOCOL_F_MQ | VHOST_USER_PROTOCOL_F_BACKEND_REQ
}

/// The queue that an event is about; `readable` tells whether the event is
/// that there is something to read, and nothing else.
pub fn queue_of_event(readable: bool, device_event: u16) -> (r: Result<usize, VirtiofsError>)
    ensures
        r == if !readable {
            Err(VirtiofsError::HandleEventNotEpollIn)
        } else if device_event == HIPRIO_QUEUE_EVENT {
            Ok(0usize)
        } else if device_event == REQ_QUEUE_EVENT {
            Ok(1usize)
        } else {
            Err(VirtiofsError::HandleEventUnknownEvent(device_event))
        },
        r matches Ok(q) ==> q < NUM_QUEUES,
{
    if !readable {
        return Err(VirtiofsError::HandleEventNotEpollIn);
    }
    if device_event == HIPRIO_QUEUE_EVENT {
        Ok(0)
    } else if device_event == REQ_QUEUE_EVENT {
        Ok(1)
    } else {
        Err(VirtiofsError::HandleEventUnknownEvent(device_event))
    }
}

/// Decides whether the guest is notified of a request that was served. It
/// always is if it did not say from which request on it wants that; else the
/// ring tells, and if it could not tell, the guest is notified.
pub fn should_signal(event_idx: bool, needs_notification: Option<bool>) -> (r: bool)
    ensures
        r == (!event_idx || needs_notification != Some(false)),
{
    if !event_idx {
        return true;
    }
    match needs_notification {
        Some(needed) => needed,
        None => true,
    }
}

/// Decides whether a queue has to be looked at again after it was worked off:
/// only if more came in before notifications were turned on again.
pub fn works_again(event_idx: bool, more_came: bool) -> (r: bool)
    ensures
        r == (event_idx && more_came),
{
    event_idx && more_came
}

} // verus!
