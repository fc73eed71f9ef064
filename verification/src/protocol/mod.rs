//! Protocol servers: what the gateway shows of its sensors, and the writes
//! that it takes.

pub mod modbus_server;
pub mod redfish;
pub mod views;

use vstd::prelude::*;

use crate::acquisition::AcquisitionError;

verus! {

/// A value that a protocol writes to a device.
#[derive(Debug, Clone, Copy, PartialEq, Eq, Structural)]
pub enum WriteValue {
    Holding(u16),
    Coil(bool),
}

/// Why a write did not reach its device.
#[derive(Debug)]
pub enum WriteError {
    UnknownDevice(String),
    BrokerClosed,
    NoReply,
    Acquisition(AcquisitionError),
}

impl WriteError {
    /// The text of the error.
    pub open spec fn text(self) -> Seq<char> {
        match self {
            WriteError::UnknownDevice(d) => "unknown device `"@ + d@ + "` (no poll task for it)"@,
            WriteError::BrokerClosed => "write channel closed"@,
            WriteError::NoReply => "no reply from acquisition layer"@,
            WriteError::Acquisition(e) => "acquisition error: "@ + e.text(),
        }
    }

    /// The text of the error.
    pub fn message(&self) -> (r: String)
        ensures
            r@ == self.text(),
    {
        match self {
            WriteError::UnknownDevice(d) => crate::text::join3(
                "unknown device `",
                d.as_str(),
                "` (no poll task for it)",
            ),
            WriteError::BrokerClosed => "write channel closed".to_owned(),
            WriteError::NoReply => "no reply from acquisition layer".to_owned(),
            WriteError::Acquisition(e) => {
                let m = e.message();
                crate::text::join2("acquisition error: ", m.as_str())
            },
        }
    }
}

/// How far a write got on its way to a device.
#[derive(Debug)]
pub enum WriteProgress {
    /// No task polls the device.
    NoTask,
    /// The task does not take writes any more.
    Closed,
    /// The task took the write and gave no reply.
    Unanswered,
    /// The device, or the connection to it, took the write or refused it.
    Answered(Result<(), AcquisitionError>),
}

/// What a write to a device came to.
pub fn write_outcome(device: &str, progress: WriteProgress) -> (r: Result<(), WriteError>)
    ensures
        match progress {
            WriteProgress::NoTask => r matches Err(WriteError::UnknownDevice(d)) && d@ == device@,
            WriteProgress::Closed => r == Err::<(), WriteError>(WriteError::BrokerClosed),
            WriteProgress::Unanswered => r == Err::<(), WriteError>(WriteError::NoReply),
            WriteProgress::Answered(Ok(_)) => r is Ok,
            WriteProgress::Answered(Err(e)) => r == Err::<(), WriteError>(WriteError::Acquisition(e)),
        },
{
    match progress {
        WriteProgress::NoTask => Err(WriteError::UnknownDevice(device.to_owned())),
        WriteProgress::Closed => Err(WriteError::BrokerClosed),
        WriteProgress::Unanswered => Err(WriteError::NoReply),
        WriteProgress::Answered(Ok(())) => Ok(()),
        WriteProgress::Answered(Err(e)) => Err(WriteError::Acquisition(e)),
    }
}

} // verus!
