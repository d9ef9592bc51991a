use vstd::prelude::*;

verus! {

#[verifier::external_type_specification]
#[verifier::external_body]
pub struct ExInstant(std::time::Instant);

/// `std::time::Instant::now`: the current time. Nothing is claimed of it.
#[verifier::external_body]
pub(crate) fn instant_now() -> (t: std::time::Instant) {
    std::time::Instant::now()
}

/// A peer's socket address, as plain values: an IPv4 address and port, or
/// an IPv6 address, port, flow information and scope.
#[derive(Debug, Clone, Copy, PartialEq, Eq, Structural, Hash)]
pub enum PeerAddr {
    V4 { ip: u32, port: u16 },
    V6 { ip: u128, port: u16, flowinfo: u32, scope_id: u32 },
}

/// Traffic counters of a connection or of the whole server.
#[derive(Debug)]
pub struct PacketStats {
    pub packets_tx: usize,
    pub packets_rx: usize,
    pub bytes_tx: usize,
    pub bytes_rx: usize,
    pub last_tx: std::time::Instant,
    pub last_rx: std::time::Instant,
}

impl Default for PacketStats {
    /// No traffic yet; both timestamps are now.
    fn default() -> (s: PacketStats)
        ensures
            s.packets_tx == 0,
            s.packets_rx == 0,
            s.bytes_tx == 0,
            s.bytes_rx == 0,
    {
        PacketStats {
            packets_tx: 0,
            packets_rx: 0,
            bytes_tx: 0,
            bytes_rx: 0,
            last_tx: instant_now(),
            last_rx: instant_now(),
        }
    }
}

impl PacketStats {
    /// Counts one packet of `num_bytes` sent now.
    pub fn add_tx(&mut self, num_bytes: usize)
        requires
            old(self).packets_tx < usize::MAX,
            old(self).bytes_tx + num_bytes <= usize::MAX,
        ensures
            final(self).packets_tx == old(self).packets_tx + 1,
            final(self).bytes_tx == old(self).bytes_tx + num_bytes,
            final(self).packets_rx == old(self).packets_rx,
            final(self).bytes_rx == old(self).bytes_rx,
            final(self).last_rx == old(self).last_rx,
    {
        self.add_tx_at(num_bytes, instant_now());
    }

    /// Counts one packet of `num_bytes` sent at `now`.
    pub fn add_tx_at(&mut self, num_bytes: usize, now: std::time::Instant)
        requires
            old(self).packets_tx < usize::MAX,
            old(self).bytes_tx + num_bytes <= usize::MAX,
        ensures
            final(self).packets_tx == old(self).packets_tx + 1,
            final(self).bytes_tx == old(self).bytes_tx + num_bytes,
            final(self).last_tx == now,
            final(self).packets_rx == old(self).packets_rx,
            final(self).bytes_rx == old(self).bytes_rx,
            final(self).last_rx == old(self).last_rx,
    {
        self.last_tx = now;
        self.packets_tx = self.packets_tx + 1;
        self.bytes_tx = self.bytes_tx + num_bytes;
    }

    /// Counts one packet of `num_bytes` received now.
    pub fn add_rx(&mut self, num_bytes: usize)
        requires
            old(self).packets_rx < usize::MAX,
            old(self).bytes_rx + num_bytes <= usize::MAX,
        ensures
            final(self).packets_rx == old(self).packets_rx + 1,
            final(self).bytes_rx == old(self).bytes_rx + num_bytes,
            final(self).packets_tx == old(self).packets_tx,
            final(self).bytes_tx == old(self).bytes_tx,
            final(self).last_tx == old(self).last_tx,
    {
        self.add_rx_at(num_bytes, instant_now());
    }

    /// Counts one packet of `num_bytes` received at `now`.
    pub fn add_rx_at(&mut self, num_bytes: usize, now: std::time::Instant)
        requires
            old(self).packets_rx < usize::MAX,
            old(self).bytes_rx + num_bytes <= usize::MAX,
        ensures
            final(self).packets_rx == old(self).packets_rx + 1,
            final(self).bytes_rx == old(self).bytes_rx + num_bytes,
            final(self).last_rx == now,
            final(self).packets_tx == old(self).packets_tx,
            final(self).bytes_tx == old(self).bytes_tx,
            final(self).last_tx == old(self).last_tx,
    {
        self.last_rx = now;
        self.packets_rx = self.packets_rx + 1;
        self.bytes_rx = self.bytes_rx + num_bytes;
    }
}

/// Network settings, in milliseconds; zero switches the feature off.
#[derive(Debug, Clone, Copy, PartialEq, Eq, Structural)]
pub struct NetConfig {
    pub send_keepalive: u32,
    pub keepalive_timeout: u32,
}

impl Default for NetConfig {
    fn default() -> (c: NetConfig)
        ensures
            c.send_keepalive == 0,
            c.keepalive_timeout == 0,
    {
        NetConfig { send_keepalive: 0, keepalive_timeout: 0 }
    }
}

} // verus!
