//! The types that the layers share: sensor ids, raw samples and metrics.

use vstd::prelude::*;

use crate::number::Real;

verus! {

/// Stable identifier of a sensor, unique in the whole gateway.
#[derive(Debug, PartialEq, Eq, Hash, PartialOrd, Ord)]
pub struct SensorId(pub String);

impl SensorId {
    /// The identifier as text.
    pub fn as_str(&self) -> (r: &str)
        ensures
            r@ == self.0@,
    {
        self.0.as_str()
    }
}

impl Clone for SensorId {
    fn clone(&self) -> (r: Self)
        ensures
            r == *self,
    {
        SensorId(self.0.clone())
    }
}

/// A copy of an optional string.
pub(crate) fn copy_text(o: &Option<String>) -> (r: Option<String>)
    ensures
        r == *o,
{
    match o {
        Some(s) => Some(s.clone()),
        None => None,
    }
}

/// Milliseconds since the epoch; a time before it counts as the epoch.
pub open spec fn since_epoch(timestamp: i64) -> u64 {
    if timestamp < 0 {
        0
    } else {
        timestamp as u64
    }
}

/// One reading of a sensor, decoded but not yet converted.
#[derive(Debug)]
pub struct RawSample {
    pub sensor_id: SensorId,
    pub name: String,
    pub raw_value: Real,
    pub unit: Option<String>,
    /// Time of the reading, in milliseconds relative to the epoch.
    pub timestamp: i64,
}

impl RawSample {
    /// Milliseconds since the epoch.
    pub fn timestamp_ms(&self) -> (r: u64)
        ensures
            r == since_epoch(self.timestamp),
    {
        if self.timestamp < 0 {
            0
        } else {
            self.timestamp as u64
        }
    }
}

impl Clone for RawSample {
    fn clone(&self) -> (r: Self)
        ensures
            r == *self,
    {
        RawSample {
            sensor_id: self.sensor_id.clone(),
            name: self.name.clone(),
            raw_value: self.raw_value,
            unit: copy_text(&self.unit),
            timestamp: self.timestamp,
        }
    }
}

/// Health of a processed metric.
#[derive(Debug, Clone, Copy, PartialEq, Eq, Structural)]
pub enum MetricStatus {
    Normal,
    Warning,
    Critical,
    Unknown,
}

/// A processed metric.
#[derive(Debug)]
pub struct Metric {
    pub sensor_id: SensorId,
    pub value: Real,
    pub unit: Option<String>,
    pub status: MetricStatus,
    /// Time of the reading, in milliseconds relative to the epoch.
    pub timestamp: i64,
}

impl Metric {
    /// Milliseconds since the epoch.
    pub fn timestamp_ms(&self) -> (r: u64)
        ensures
            r == since_epoch(self.timestamp),
    {
        if self.timestamp < 0 {
            0
        } else {
            self.timestamp as u64
        }
    }
}

impl Clone for Metric {
    fn clone(&self) -> (r: Self)
        ensures
            r == *self,
    {
        Metric {
            sensor_id: self.sensor_id.clone(),
            value: self.value,
            unit: copy_text(&self.unit),
            status: self.status,
            timestamp: self.timestamp,
        }
    }
}

} // verus!
