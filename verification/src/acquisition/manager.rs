//! Polling of devices: when to connect, read, back off and stop.

use vstd::prelude::*;

use crate::config::{Config, DeviceConfig};
use crate::config_handle::ConfigHandle;
use crate::text::same_string;

verus! {

/// The devices to poll, one task each.
pub struct AcquisitionManager {
    device_names: Vec<String>,
}

impl AcquisitionManager {
    pub closed spec fn names(&self) -> Seq<Seq<char>> {
        crate::expression::texts(self.device_names@)
    }

    /// The devices of the configuration in force.
    pub fn new(handle: &ConfigHandle) -> (r: Self)
        ensures
            r.names() == handle.current().devices@.map_values(|d: DeviceConfig| d.name@),
    {
        let config = handle.read();
        let mut device_names: Vec<String> = Vec::new();
        let mut i: usize = 0;
        while i < config.devices.len()
            invariant
                i <= config.devices@.len(),
                device_names@.len() == i,
                forall|j: int| 0 <= j < i ==> (#[trigger] device_names@[j])@ == config.devices@[j].name@,
            decreases config.devices@.len() - i,
        {
            device_names.push(config.devices[i].name.clone());
            i = i + 1;
        }
        let r = AcquisitionManager { device_names };
        assert(r.names() =~= config.devices@.map_values(|d: DeviceConfig| d.name@));
        r
    }

    /// The number of devices.
    pub fn device_count(&self) -> (r: usize)
        ensures
            r == self.names().len(),
    {
        self.device_names.len()
    }

    /// The name of device `i`.
    pub fn device_name(&self, i: usize) -> (r: &str)
        requires
            i < self.names().len(),
        ensures
            r@ == self.names()[i as int],
    {
        self.device_names[i].as_str()
    }
}

/// The device of this name in the configuration, where it is still there.
pub fn find_device<'a>(config: &'a Config, name: &String) -> (r: Option<&'a DeviceConfig>)
    ensures
        match crate::registration::device_index(config.devices@, name@, 0) {
            Some(k) => r == Some(&config.devices@[k]),
            None => r is None,
        },
{
    let mut i: usize = 0;
    while i < config.devices.len()
        invariant
            i <= config.devices@.len(),
            crate::registration::device_index(config.devices@, name@, 0) == crate::registration::device_index(
                config.devices@,
                name@,
                i as int,
            ),
        decreases config.devices@.len() - i,
    {
        if same_string(&config.devices[i].name, name) {
            return Some(&config.devices[i]);
        }
        i = i + 1;
    }
    None
}

/// The delay after a number of failures in a row: the initial delay doubled
/// with each of the first ten failures, up to the maximum. Both count as at least
/// one millisecond, and the maximum as at least the initial delay.
pub open spec fn backoff(initial: u64, max: u64, failures: u64) -> nat {
    let base: nat = if initial < 1 {
        1
    } else {
        initial as nat
    };
    let limit: nat = if (max as nat) < base {
        base
    } else {
        max as nat
    };
    let doubled = base * vstd::arithmetic::power2::pow2(
        if failures > 10 {
            10
        } else {
            failures as nat
        },
    );
    if doubled < limit {
        doubled
    } else {
        limit
    }
}

/// The delay in milliseconds after a number of failures in a row.
pub fn backoff_delay(device: &DeviceConfig, failures: u64) -> (r: u64)
    ensures
        r == backoff(device.reconnect_initial_ms, device.reconnect_max_ms, failures),
{
    let base: u64 = if device.reconnect_initial_ms < 1 {
        1
    } else {
        device.reconnect_initial_ms
    };
    let limit: u64 = if device.reconnect_max_ms < base {
        base
    } else {
        device.reconnect_max_ms
    };
    let exponent: u64 = if failures > 10 {
        10
    } else {
        failures
    };
    let mut delay: u64 = base;
    let mut i: u64 = 0;
    proof {
        vstd::arithmetic::power2::lemma2_to64();
    }
    while i < exponent
        invariant
            i <= exponent <= 10,
            1 <= base <= limit,
            delay == (if base * vstd::arithmetic::power2::pow2(i as nat) < limit {
                base * vstd::arithmetic::power2::pow2(i as nat)
            } else {
                limit as int
            }),
        decreases exponent - i,
    {
        proof {
            vstd::arithmetic::power2::lemma_pow2_unfold((i + 1) as nat);
            let p = vstd::arithmetic::power2::pow2(i as nat);
            assert(base * (2 * p) == 2 * (base * p)) by (nonlinear_arith);
        }
        if delay >= limit - delay {
            delay = limit;
        } else {
            delay = 2 * delay;
        }
        i = i + 1;
    }
    delay
}

/// The shortest delay: the initial one, at least a millisecond.
pub open spec fn shortest(initial: u64) -> u64 {
    if initial < 1 {
        1
    } else {
        initial
    }
}

/// The longest delay: the maximum, at least the shortest delay.
pub open spec fn longest(initial: u64, max: u64) -> u64 {
    if max < shortest(initial) {
        shortest(initial)
    } else {
        max
    }
}

/// A delay is never shorter than the shortest, nor longer than the longest, and
/// further failures never shorten it.
pub proof fn backoff_is_bounded_and_grows(initial: u64, max: u64, failures: u64, more: u64)
    requires
        failures <= more,
    ensures
        shortest(initial) <= backoff(initial, max, failures) <= longest(initial, max),
        backoff(initial, max, failures) <= backoff(initial, max, more),
{
    let base = shortest(initial);
    let a = if failures > 10 {
        10nat
    } else {
        failures as nat
    };
    let b = if more > 10 {
        10nat
    } else {
        more as nat
    };
    let p = vstd::arithmetic::power2::pow2(a);
    let q = vstd::arithmetic::power2::pow2(b);
    vstd::arithmetic::power2::lemma_pow2_pos(a);
    if a < b {
        vstd::arithmetic::power2::lemma_pow2_strictly_increases(a, b);
    }
    assert(base * p >= base) by (nonlinear_arith)
        requires
            p >= 1,
    ;
    assert(base * p <= base * q) by (nonlinear_arith)
        requires
            p <= q,
    ;
}

/// The state of a device's polling task.
pub struct DeviceLoop {
    /// Whether a connection is held.
    pub connected: bool,
    /// Failures in a row.
    pub failures: u64,
    /// The poll interval that the timer runs at, once it runs.
    pub interval_ms: Option<u64>,
}

/// What the task has just seen.
#[derive(Debug, Clone, Copy, PartialEq, Eq, Structural)]
pub enum DeviceEvent {
    /// The poll timer fired.
    Tick,
    /// An attempt to connect succeeded or failed.
    Connected(bool),
    /// A read of all registers succeeded or failed.
    Read(bool),
    /// The samples were handed over, or the consumer is gone.
    Delivered(bool),
    /// A write request came in; the channel is closed where this is false.
    Write(bool),
    /// The process shuts down.
    Shutdown,
}

/// What the task does next.
#[derive(Debug, Clone, Copy, PartialEq, Eq, Structural)]
pub enum DeviceAction {
    /// Wait for the next event.
    Wait,
    /// Open a connection.
    Connect,
    /// Read all registers.
    Read,
    /// Hand the samples over.
    Deliver,
    /// Drop the connection, if one is held, and wait this many milliseconds.
    BackOff(u64),
    /// Pass the write on to the connection.
    ForwardWrite,
    /// Refuse the write: there is no connection.
    RefuseWrite,
    /// End the task.
    Stop,
}

/// The next state of the task, and what it does.
pub open spec fn next_step(s: DeviceLoop, e: DeviceEvent, initial: u64, max: u64) -> (DeviceLoop, DeviceAction) {
    match e {
        DeviceEvent::Tick => (
            s,
            if s.connected {
                DeviceAction::Read
            } else {
                DeviceAction::Connect
            },
        ),
        DeviceEvent::Connected(true) => (DeviceLoop { connected: true, failures: 0, ..s }, DeviceAction::Read),
        DeviceEvent::Connected(false) => {
            let failures = (s.failures + 1) as u64;
            (
                DeviceLoop { connected: false, failures, ..s },
                DeviceAction::BackOff(backoff(initial, max, failures) as u64),
            )
        },
        DeviceEvent::Read(true) => (DeviceLoop { failures: 0, ..s }, DeviceAction::Deliver),
        DeviceEvent::Read(false) => {
            let failures = (s.failures + 1) as u64;
            (
                DeviceLoop { connected: false, failures, ..s },
                DeviceAction::BackOff(backoff(initial, max, failures) as u64),
            )
        },
        DeviceEvent::Delivered(true) => (s, DeviceAction::Wait),
        DeviceEvent::Delivered(false) => (s, DeviceAction::Stop),
        DeviceEvent::Write(true) => (
            s,
            if s.connected {
                DeviceAction::ForwardWrite
            } else {
                DeviceAction::RefuseWrite
            },
        ),
        DeviceEvent::Write(false) => (s, DeviceAction::Stop),
        DeviceEvent::Shutdown => (s, DeviceAction::Stop),
    }
}

/// The timer runs at the poll interval of the device; it is restarted where it
/// did not before.
pub open spec fn retimed(before: DeviceLoop, poll_interval_ms: u64, after: DeviceLoop, restart: Option<u64>) -> bool {
    &&& after == (DeviceLoop { interval_ms: Some(poll_interval_ms), ..before })
    &&& restart == (if before.interval_ms == Some(poll_interval_ms) {
        None
    } else {
        Some(poll_interval_ms)
    })
}

impl DeviceLoop {
    /// A task that is not connected yet.
    pub fn new() -> (r: Self)
        ensures
            r == (DeviceLoop { connected: false, failures: 0, interval_ms: None }),
    {
        DeviceLoop { connected: false, failures: 0, interval_ms: None }
    }

    /// The interval to restart the timer at, before the task waits for the
    /// next event; none where the timer already runs at it.
    pub fn retime(&mut self, device: &DeviceConfig) -> (r: Option<u64>)
        ensures
            *final(self) == (DeviceLoop { interval_ms: Some(device.poll_interval_ms), ..*old(self) }),
            r == (if old(self).interval_ms == Some(device.poll_interval_ms) {
                None
            } else {
                Some(device.poll_interval_ms)
            }),
            retimed(*old(self), device.poll_interval_ms, *final(self), r),
    {
        let wanted: u64 = device.poll_interval_ms;
        let same = match self.interval_ms {
            Some(ms) => ms == wanted,
            None => false,
        };
        if same {
            None
        } else {
            self.interval_ms = Some(wanted);
            Some(wanted)
        }
    }

    /// Takes an event and says what to do.
    pub fn step(&mut self, device: &DeviceConfig, e: DeviceEvent) -> (r: DeviceAction)
        requires
            old(self).failures < u64::MAX,
        ensures
            (*final(self), r) == next_step(*old(self), e, device.reconnect_initial_ms, device.reconnect_max_ms),
    {
        match e {
            DeviceEvent::Tick => {
                if self.connected {
                    DeviceAction::Read
                } else {
                    DeviceAction::Connect
                }
            },
            DeviceEvent::Connected(ok) => {
                if ok {
                    self.connected = true;
                    self.failures = 0;
                    DeviceAction::Read
                } else {
                    self.connected = false;
                    self.failures = self.failures + 1;
                    DeviceAction::BackOff(backoff_delay(device, self.failures))
                }
            },
            DeviceEvent::Read(ok) => {
                if ok {
                    self.failures = 0;
                    DeviceAction::Deliver
                } else {
                    self.connected = false;
                    self.failures = self.failures + 1;
                    DeviceAction::BackOff(backoff_delay(device, self.failures))
                }
            },
            DeviceEvent::Delivered(ok) => {
                if ok {
                    DeviceAction::Wait
                } else {
                    DeviceAction::Stop
                }
            },
            DeviceEvent::Write(ok) => {
                if !ok {
                    DeviceAction::Stop
                } else if self.connected {
                    DeviceAction::ForwardWrite
                } else {
                    DeviceAction::RefuseWrite
                }
            },
            DeviceEvent::Shutdown => DeviceAction::Stop,
        }
    }
}

/// The error of a write to a device that is not connected.
pub fn not_connected(device: &DeviceConfig) -> (r: crate::acquisition::AcquisitionError)
    ensures
        crate::acquisition::device_error(r, device.name@, "device not connected (write refused)"@),
{
    crate::acquisition::AcquisitionError::Config {
        device: device.name.clone(),
        message: "device not connected (write refused)".to_owned(),
    }
}

/// After a failed poll the task holds no connection, so the next tick connects
/// anew; after a successful one no failures count.
pub proof fn polling_recovers(s: DeviceLoop, initial: u64, max: u64)
    requires
        s.failures < u64::MAX,
    ensures
        ({
            let (t, _) = next_step(s, DeviceEvent::Read(false), initial, max);
            let (_, again) = next_step(t, DeviceEvent::Tick, initial, max);
            again == DeviceAction::Connect && t.failures == s.failures + 1
        }),
        next_step(s, DeviceEvent::Read(true), initial, max).0.failures == 0,
        next_step(s, DeviceEvent::Connected(true), initial, max).0.failures == 0,
{
}

} // verus!
