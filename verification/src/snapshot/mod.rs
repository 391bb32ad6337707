//! Host snapshots: the process tree and the IPv4 TCP connection table, and
//! the address classes that decide which connections matter.
//!
//! Enumerating the live host is platform I/O and happens outside this
//! library; `capture` takes what was enumerated and stamps it with the time.

pub mod ipv4;
pub mod tcp;

use vstd::prelude::*;
use crate::snapshot::ipv4::{address_of, parse_ipv4, Ipv4};

verus! {

/// One process discovered on the host.
#[derive(Debug, PartialEq, Eq)]
pub struct ProcessInfo {
    pub pid: u32,
    pub parent_pid: u32,
    pub name: String,
}

/// The mathematical value of a [`ProcessInfo`].
pub struct ProcessView {
    pub pid: u32,
    pub parent_pid: u32,
    pub name: Seq<char>,
}

impl View for ProcessInfo {
    type V = ProcessView;

    open spec fn view(&self) -> ProcessView {
        ProcessView { pid: self.pid, parent_pid: self.parent_pid, name: self.name@ }
    }
}

impl Clone for ProcessInfo {
    fn clone(&self) -> (r: Self)
        ensures
            r@ == self@,
    {
        ProcessInfo { pid: self.pid, parent_pid: self.parent_pid, name: self.name.clone() }
    }
}

/// One IPv4 TCP connection attributed to its owning process.
#[derive(Debug, PartialEq, Eq, Hash)]
pub struct Connection {
    pub pid: u32,
    /// `local_ip:port`
    pub local_addr: String,
    /// `remote_ip:port`
    pub remote_addr: String,
    /// TCP state name (ESTABLISHED, LISTEN, TIME_WAIT, ...).
    pub state: String,
}

/// The mathematical value of a [`Connection`]: two connections are the same
/// record exactly when their views are equal.
pub struct ConnectionView {
    pub pid: u32,
    pub local_addr: Seq<char>,
    pub remote_addr: Seq<char>,
    pub state: Seq<char>,
}

impl View for Connection {
    type V = ConnectionView;

    open spec fn view(&self) -> ConnectionView {
        ConnectionView {
            pid: self.pid,
            local_addr: self.local_addr@,
            remote_addr: self.remote_addr@,
            state: self.state@,
        }
    }
}

impl Clone for Connection {
    fn clone(&self) -> (r: Self)
        ensures
            r@ == self@,
    {
        Connection {
            pid: self.pid,
            local_addr: self.local_addr.clone(),
            remote_addr: self.remote_addr.clone(),
            state: self.state.clone(),
        }
    }
}

impl Connection {
    /// Whether `self` and `other` are the same record (pid, both addresses
    /// and state).
    pub fn same_record(&self, other: &Connection) -> (r: bool)
        ensures
            r == (self@ == other@),
    {
        self.pid == other.pid && self.local_addr == other.local_addr && self.remote_addr
            == other.remote_addr && self.state == other.state
    }
}

/// A point-in-time host snapshot: process tree + connection table.
#[derive(Debug, PartialEq, Eq)]
pub struct Snapshot {
    /// Unix epoch seconds at capture time.
    pub timestamp: u64,
    pub processes: Vec<ProcessInfo>,
    pub connections: Vec<Connection>,
}

/// The mathematical value of a [`Snapshot`].
pub struct SnapshotView {
    pub timestamp: u64,
    pub processes: Seq<ProcessView>,
    pub connections: Seq<ConnectionView>,
}

/// The views of a sequence of processes.
pub open spec fn process_views(s: Seq<ProcessInfo>) -> Seq<ProcessView> {
    s.map_values(|p: ProcessInfo| p@)
}

/// The views of a sequence of connections.
pub open spec fn connection_views(s: Seq<Connection>) -> Seq<ConnectionView> {
    s.map_values(|c: Connection| c@)
}

impl View for Snapshot {
    type V = SnapshotView;

    open spec fn view(&self) -> SnapshotView {
        SnapshotView {
            timestamp: self.timestamp,
            processes: process_views(self.processes@),
            connections: connection_views(self.connections@),
        }
    }
}

impl Clone for Snapshot {
    fn clone(&self) -> (r: Self)
        ensures
            r@ == self@,
    {
        Snapshot {
            timestamp: self.timestamp,
            processes: clone_processes(&self.processes),
            connections: clone_connections(&self.connections),
        }
    }
}

impl Default for Snapshot {
    fn default() -> (r: Self)
        ensures
            r.timestamp == 0,
            r.processes@.len() == 0,
            r.connections@.len() == 0,
    {
        Snapshot { timestamp: 0, processes: Vec::new(), connections: Vec::new() }
    }
}

/// A copy of a list of processes, record by record.
pub fn clone_processes(v: &Vec<ProcessInfo>) -> (r: Vec<ProcessInfo>)
    ensures
        process_views(r@) == process_views(v@),
{
    let mut r: Vec<ProcessInfo> = Vec::new();
    let mut i: usize = 0;
    while i < v.len()
        invariant
            i <= v.len(),
            r.len() == i,
            forall|k: int| 0 <= k < i ==> (#[trigger] r@[k])@ == v@[k]@,
        decreases v.len() - i,
    {
        r.push(v[i].clone());
        i += 1;
    }
    assert(process_views(r@) =~= process_views(v@));
    r
}

/// A copy of a list of connections, record by record.
pub fn clone_connections(v: &Vec<Connection>) -> (r: Vec<Connection>)
    ensures
        connection_views(r@) == connection_views(v@),
{
    let mut r: Vec<Connection> = Vec::new();
    let mut i: usize = 0;
    while i < v.len()
        invariant
            i <= v.len(),
            r.len() == i,
            forall|k: int| 0 <= k < i ==> (#[trigger] r@[k])@ == v@[k]@,
        decreases v.len() - i,
    {
        r.push(v[i].clone());
        i += 1;
    }
    assert(connection_views(r@) =~= connection_views(v@));
    r
}

/// A remote address is external when it has a real peer: its host part is
/// an IPv4 address that is neither loopback (127/8), unspecified
/// (`0.0.0.0`) nor multicast. Text that is no IPv4 address is not external.
pub open spec fn external_address(addr: Seq<char>) -> bool {
    match address_of(addr) {
        Some(ip) => !(ip.is_loopback() || ip.is_unspecified() || ip.is_multicast()),
        None => false,
    }
}

/// A remote address is public when it has a real peer (not loopback,
/// unspecified or multicast), is not RFC 1918 private and is not
/// link-local. Text that is no IPv4 address is not public.
pub open spec fn public_address(addr: Seq<char>) -> bool {
    match address_of(addr) {
        Some(ip) => !ip.is_loopback() && !ip.is_unspecified() && !ip.is_multicast()
            && !ip.is_private() && !ip.is_link_local(),
        None => false,
    }
}

/// A connection is "external" if it has a real remote peer — i.e. its remote
/// address is neither loopback (127/8), the unspecified `0.0.0.0`, nor
/// multicast. A `LISTEN` socket with `0.0.0.0:0` is therefore *not* external.
pub fn is_external(addr: &str) -> (r: bool)
    ensures
        r == external_address(addr@),
{
    match parse_ipv4(addr) {
        Some(ip) => !(ip.is_loopback() || ip.is_unspecified() || ip.is_multicast()),
        None => false,
    }
}

/// A remote address is "public" (globally routable / off your private LAN):
/// it has a real peer (not loopback / unspecified / multicast), is not
/// RFC 1918 private, and is not link-local. Documentation/reserved ranges
/// (e.g. 203.0.113.0/24) are not private and therefore count as public.
pub fn is_public(addr: &str) -> (r: bool)
    ensures
        r == public_address(addr@),
{
    match parse_ipv4(addr) {
        Some(ip) => !ip.is_loopback() && !ip.is_unspecified() && !ip.is_multicast()
            && !ip.is_private() && !ip.is_link_local(),
        None => false,
    }
}

/// Every public address is external.
pub proof fn lemma_public_is_external(addr: Seq<char>)
    ensures
        public_address(addr) ==> external_address(addr),
{
}

/// An address as a number: `a.b.c.d` read as a 32-bit big-endian value.
pub open spec fn address_number(ip: Ipv4) -> int {
    ip.a * 0x100_0000 + ip.b * 0x1_0000 + ip.c * 0x100 + ip.d
}

/// `n` lies in the half-open range `[lo, hi)`.
pub open spec fn in_range(n: int, lo: int, hi: int) -> bool {
    lo <= n < hi
}

/// The address ranges that have no real remote peer: the loopback block
/// 127.0.0.0/8, the unspecified address 0.0.0.0 and the multicast block
/// 224.0.0.0/4, written as ranges of address numbers.
pub open spec fn peerless_number(n: int) -> bool {
    in_range(n, 0x7F00_0000, 0x8000_0000) || n == 0 || in_range(n, 0xE000_0000, 0xF000_0000)
}

/// The RFC 1918 blocks 10.0.0.0/8, 172.16.0.0/12, 192.168.0.0/16 and the
/// link-local block 169.254.0.0/16, written as ranges of address numbers.
pub open spec fn local_network_number(n: int) -> bool {
    in_range(n, 0x0A00_0000, 0x0B00_0000) || in_range(n, 0xAC10_0000, 0xAC20_0000) || in_range(
        n,
        0xC0A8_0000,
        0xC0A9_0000,
    ) || in_range(n, 0xA9FE_0000, 0xA9FF_0000)
}

/// `is_external` answers, for every text, true exactly when the text names
/// an IPv4 address whose number lies outside the loopback block
/// 127.0.0.0/8 (all of it), is not 0.0.0.0, and lies outside the multicast
/// block 224.0.0.0/4.
pub proof fn lemma_external_address_ranges(addr: Seq<char>)
    ensures
        external_address(addr) <==> (address_of(addr) matches Some(ip) && !peerless_number(
            address_number(ip),
        )),
{
}

/// `is_public` answers, for every text, true exactly when the text names an
/// IPv4 address whose number lies outside 127.0.0.0/8, 224.0.0.0/4, the
/// RFC 1918 blocks and 169.254.0.0/16, and is not 0.0.0.0.
pub proof fn lemma_public_address_ranges(addr: Seq<char>)
    ensures
        public_address(addr) <==> (address_of(addr) matches Some(ip) && !peerless_number(
            address_number(ip),
        ) && !local_network_number(address_number(ip))),
{
}

/// The clock as std represents a reading of it.
#[verifier::external_type_specification]
#[verifier::external_body]
pub struct ExSystemTime(std::time::SystemTime);

/// `SystemTime::now`: a reading of the system clock. It depends on the
/// clock, so nothing is stated of it.
#[verifier::external_body]
fn clock_now() -> std::time::SystemTime {
    std::time::SystemTime::now()
}

/// `SystemTime::duration_since(UNIX_EPOCH)`: the time elapsed from the Unix
/// epoch to `t`, or `None` when `t` lies before the epoch. Nothing is stated
/// of which holds, as `t` is opaque here.
#[verifier::external_body]
fn since_unix_epoch(t: &std::time::SystemTime) -> Option<std::time::Duration> {
    match t.duration_since(std::time::UNIX_EPOCH) {
        Ok(d) => Some(d),
        Err(_) => None,
    }
}

/// `Duration::as_secs`: the whole seconds of `d`. Nothing is stated of the
/// number, as `d` is opaque here.
#[verifier::external_body]
fn whole_seconds(d: &std::time::Duration) -> u64 {
    d.as_secs()
}

/// Unix epoch seconds now, or 0 when the clock reads before the epoch.
fn now_secs() -> u64 {
    match since_unix_epoch(&clock_now()) {
        Some(elapsed) => whole_seconds(&elapsed),
        None => 0,
    }
}

/// Stamp the processes and connections enumerated on the host with the
/// current time. The records are kept as they were handed in.
pub fn capture(processes: Vec<ProcessInfo>, connections: Vec<Connection>) -> (r: Snapshot)
    ensures
        r.processes == processes,
        r.connections == connections,
{
    Snapshot { timestamp: now_secs(), processes, connections }
}

} // verus!
