//! Connection bookkeeping for UCNet devices: which devices are connected,
//! when each was last confirmed alive, and which have missed their
//! keep-alive window. The surrounding program owns the sockets and drives
//! this table with its clock; every decision here is pure state.

use vstd::prelude::*;
use crate::errors::UcNetError;
use crate::strutil::str_eq;
use crate::ucnet_types::{ConnectionEvent, ConnectionState, UcNetDevice};

verus! {

/// How long a connection may go unconfirmed before it counts as lost, in
/// milliseconds.
pub const CONNECTION_TIMEOUT_MS: u64 = 15_000;

/// The entry stored for a device id, searching the newest binding first.
pub open spec fn spec_conn_lookup(s: Seq<(UcNetDevice, u64)>, id: Seq<char>) -> Option<
    (UcNetDevice, u64),
>
    decreases s.len(),
{
    if s.len() == 0 {
        None
    } else if s.last().0.id@ == id {
        Some(s.last())
    } else {
        spec_conn_lookup(s.drop_last(), id)
    }
}

/// The table after removing every entry with the given id, in order.
pub open spec fn spec_conn_retain(s: Seq<(UcNetDevice, u64)>, id: Seq<char>) -> Seq<
    (UcNetDevice, u64),
>
    decreases s.len(),
{
    if s.len() == 0 {
        Seq::empty()
    } else {
        let rest = spec_conn_retain(s.drop_last(), id);
        if s.last().0.id@ == id {
            rest
        } else {
            rest.push(s.last())
        }
    }
}

/// An entry is alive at `now` when the last confirmation is at most the
/// timeout ago; a confirmation stamped in the future counts as fresh.
pub open spec fn spec_conn_alive(last_ms: u64, now: u64) -> bool {
    last_ms > now || now - last_ms <= CONNECTION_TIMEOUT_MS
}

/// The entries still alive at `now`, in order.
pub open spec fn spec_conn_fresh(s: Seq<(UcNetDevice, u64)>, now: u64) -> Seq<(UcNetDevice, u64)>
    decreases s.len(),
{
    if s.len() == 0 {
        Seq::empty()
    } else {
        let rest = spec_conn_fresh(s.drop_last(), now);
        if spec_conn_alive(s.last().1, now) {
            rest.push(s.last())
        } else {
            rest
        }
    }
}

/// The ids of the entries that have missed their keep-alive window at
/// `now`, in order.
pub open spec fn spec_conn_stale_ids(s: Seq<(UcNetDevice, u64)>, now: u64) -> Seq<String>
    decreases s.len(),
{
    if s.len() == 0 {
        Seq::empty()
    } else {
        let rest = spec_conn_stale_ids(s.drop_last(), now);
        if spec_conn_alive(s.last().1, now) {
            rest
        } else {
            rest.push(s.last().0.id)
        }
    }
}

/// The table of connected devices with their last keep-alive confirmation.
pub struct ConnectionManager {
    connections: Vec<(UcNetDevice, u64)>,
}

impl ConnectionManager {
    /// The table's entries, in connection order.
    pub closed spec fn entries(&self) -> Seq<(UcNetDevice, u64)> {
        self.connections@
    }

    /// Creates an empty table.
    pub fn new() -> (r: Self)
        ensures
            r.entries() == Seq::<(UcNetDevice, u64)>::empty(),
    {
        Self { connections: Vec::new() }
    }

    /// Finds the index of a device id in the table.
    fn find(&self, device_id: &str) -> (r: Option<usize>)
        ensures
            match r {
                Some(i) => i < self.entries().len() && self.entries()[i as int].0.id@ == device_id@
                    && Some(self.entries()[i as int]) == spec_conn_lookup(
                    self.entries(),
                    device_id@,
                ),
                None => spec_conn_lookup(self.entries(), device_id@) is None,
            },
    {
        let n = self.connections.len();
        proof {
            assert(self.connections@.take(n as int) =~= self.connections@);
        }
        let mut i = n;
        while i > 0
            invariant
                i <= n,
                n == self.connections@.len(),
                spec_conn_lookup(self.connections@, device_id@) == spec_conn_lookup(
                    self.connections@.take(i as int),
                    device_id@,
                ),
            decreases i,
        {
            proof {
                assert(self.connections@.take(i as int).last() == self.connections@[i - 1]);
                assert(self.connections@.take(i as int).drop_last() =~= self.connections@.take(
                    i - 1,
                ));
            }
            if str_eq(self.connections[i - 1].0.id.as_str(), device_id) {
                return Some(i - 1);
            }
            i = i - 1;
        }
        proof {
            assert(self.connections@.take(0) =~= Seq::<(UcNetDevice, u64)>::empty());
        }
        None
    }

    /// Registers a device as connected at time `now_ms`. Fails exactly when
    /// the id is already in the table; otherwise the device is stored in the
    /// connected state and a connected event comes back.
    pub fn connect(&mut self, device: UcNetDevice, now_ms: u64) -> (r: Result<
        ConnectionEvent,
        UcNetError,
    >)
        ensures
            match r {
                Ok(ev) => {
                    &&& spec_conn_lookup(old(self).entries(), device.id@) is None
                    &&& final(self).entries().len() == old(self).entries().len() + 1
                    &&& final(self).entries().last().0.id@ == device.id@
                    &&& final(self).entries().last().0.state == ConnectionState::Connected
                    &&& final(self).entries().last().1 == now_ms
                    &&& final(self).entries().drop_last() == old(self).entries()
                    &&& ev matches ConnectionEvent::Connected(id) && id@ == device.id@
                },
                Err(e) => {
                    &&& spec_conn_lookup(old(self).entries(), device.id@) is Some
                    &&& final(self).entries() == old(self).entries()
                    &&& e matches UcNetError::AlreadyConnected(_)
                },
            },
    {
        if self.find(device.id.as_str()).is_some() {
            return Err(UcNetError::AlreadyConnected(device.id.clone()));
        }
        let id = device.id.clone();
        let mut connected = device;
        connected.state = ConnectionState::Connected;
        self.connections.push((connected, now_ms));
        proof {
            assert(self.connections@.drop_last() =~= old(self).connections@);
        }
        Ok(ConnectionEvent::Connected(id))
    }

    /// Removes a device from the table. Fails exactly when the id is not in
    /// the table; otherwise a disconnected event comes back and every other
    /// entry stays, in order.
    pub fn disconnect(&mut self, device_id: &str) -> (r: Result<ConnectionEvent, UcNetError>)
        ensures
            match r {
                Ok(ev) => {
                    &&& spec_conn_lookup(old(self).entries(), device_id@) is Some
                    &&& final(self).entries() == spec_conn_retain(old(self).entries(), device_id@)
                    &&& ev matches ConnectionEvent::Disconnected(id) && id@ == device_id@
                },
                Err(e) => {
                    &&& spec_conn_lookup(old(self).entries(), device_id@) is None
                    &&& final(self).entries() == old(self).entries()
                    &&& e matches UcNetError::DeviceNotFound(_)
                },
            },
    {
        let n = self.connections.len();
        let mut kept: Vec<(UcNetDevice, u64)> = Vec::new();
        let mut removed = false;
        let mut j: usize = 0;
        while j < n
            invariant
                j <= n,
                n == self.connections@.len(),
                self.connections@ == old(self).connections@,
                kept@ == spec_conn_retain(old(self).connections@.take(j as int), device_id@),
                removed == !(spec_conn_lookup(
                    old(self).connections@.take(j as int),
                    device_id@,
                ) is None),
            decreases n - j,
        {
            proof {
                assert(old(self).connections@.take(j + 1).drop_last() =~= old(
                    self,
                ).connections@.take(j as int));
                assert(old(self).connections@.take(j + 1).last() == old(
                    self,
                ).connections@[j as int]);
            }
            let is_match = str_eq(self.connections[j].0.id.as_str(), device_id);
            if is_match {
                removed = true;
            } else {
                let entry = (self.connections[j].0.clone(), self.connections[j].1);
                kept.push(entry);
            }
            j = j + 1;
        }
        proof {
            assert(old(self).connections@.take(n as int) =~= old(self).connections@);
        }
        if removed {
            self.connections = kept;
            Ok(ConnectionEvent::Disconnected(device_id.to_owned()))
        } else {
            Err(UcNetError::DeviceNotFound(device_id.to_owned()))
        }
    }

    /// The connection state of a device, or `None` when it is not in the
    /// table.
    pub fn get_device_state(&self, device_id: &str) -> (r: Option<ConnectionState>)
        ensures
            r == (match spec_conn_lookup(self.entries(), device_id@) {
                Some(e) => Some(e.0.state),
                None => None::<ConnectionState>,
            }),
    {
        match self.find(device_id) {
            Some(i) => Some(self.connections[i].0.state),
            None => None,
        }
    }

    /// A copy of every connected device.
    pub fn get_connected_devices(&self) -> (r: Vec<UcNetDevice>)
        ensures
            r@.len() == self.entries().len(),
            forall|i: int| 0 <= i < r@.len() ==> r@[i] == (#[trigger] self.entries()[i]).0,
    {
        let mut out: Vec<UcNetDevice> = Vec::new();
        let mut i: usize = 0;
        while i < self.connections.len()
            invariant
                i <= self.connections@.len(),
                out@.len() == i,
                forall|k: int|
                    0 <= k < i ==> out@[k] == (#[trigger] self.connections@[k]).0,
            decreases self.connections@.len() - i,
        {
            out.push(self.connections[i].0.clone());
            i = i + 1;
        }
        out
    }

    /// Records a successful keep-alive for a device at time `now_ms`; a
    /// device not in the table is left alone.
    pub fn record_keepalive(&mut self, device_id: &str, now_ms: u64)
        ensures
            final(self).entries().len() == old(self).entries().len(),
            forall|i: int|
                0 <= i < old(self).entries().len() ==> (if old(self).entries()[i].0.id@
                    == device_id@ {
                    #[trigger] final(self).entries()[i] == (old(self).entries()[i].0, now_ms)
                } else {
                    final(self).entries()[i] == old(self).entries()[i]
                }),
    {
        let n = self.connections.len();
        let mut updated: Vec<(UcNetDevice, u64)> = Vec::new();
        let mut i: usize = 0;
        while i < n
            invariant
                i <= n,
                n == self.connections@.len(),
                self.connections@ == old(self).connections@,
                updated@.len() == i,
                forall|k: int|
                    0 <= k < i ==> (if old(self).connections@[k].0.id@ == device_id@ {
                        #[trigger] updated@[k] == (old(self).connections@[k].0, now_ms)
                    } else {
                        updated@[k] == old(self).connections@[k]
                    }),
            decreases n - i,
        {
            if str_eq(self.connections[i].0.id.as_str(), device_id) {
                let entry = (self.connections[i].0.clone(), now_ms);
                updated.push(entry);
            } else {
                let entry = (self.connections[i].0.clone(), self.connections[i].1);
                updated.push(entry);
            }
            i = i + 1;
        }
        self.connections = updated;
    }

    /// Drops every device whose last confirmation is older than the timeout
    /// at `now_ms`, and returns their ids in table order: the devices the
    /// surrounding program should tear down and report.
    pub fn keepalive_timeouts(&mut self, now_ms: u64) -> (r: Vec<String>)
        ensures
            final(self).entries() == spec_conn_fresh(old(self).entries(), now_ms),
            r@ == spec_conn_stale_ids(old(self).entries(), now_ms),
    {
        let n = self.connections.len();
        let mut kept: Vec<(UcNetDevice, u64)> = Vec::new();
        let mut timed_out: Vec<String> = Vec::new();
        let mut i: usize = 0;
        while i < n
            invariant
                i <= n,
                n == self.connections@.len(),
                self.connections@ == old(self).connections@,
                kept@ == spec_conn_fresh(old(self).connections@.take(i as int), now_ms),
                timed_out@ == spec_conn_stale_ids(old(self).connections@.take(i as int), now_ms),
            decreases n - i,
        {
            proof {
                assert(old(self).connections@.take(i + 1).drop_last() =~= old(
                    self,
                ).connections@.take(i as int));
                assert(old(self).connections@.take(i + 1).last() == old(
                    self,
                ).connections@[i as int]);
            }
            let last = self.connections[i].1;
            let alive = last > now_ms || now_ms - last <= CONNECTION_TIMEOUT_MS;
            if alive {
                let entry = (self.connections[i].0.clone(), last);
                kept.push(entry);
            } else {
                timed_out.push(self.connections[i].0.id.clone());
            }
            i = i + 1;
        }
        proof {
            assert(old(self).connections@.take(n as int) =~= old(self).connections@);
        }
        self.connections = kept;
        timed_out
    }
}

impl Default for ConnectionManager {
    /// An empty table.
    fn default() -> (r: Self)
        ensures
            r.entries() == Seq::<(UcNetDevice, u64)>::empty(),
    {
        Self::new()
    }
}

} // verus!
