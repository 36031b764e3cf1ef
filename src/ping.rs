//! The probe scheduler: one round sends an echo request to every monitored
//! address, accepts only the replies that match what this round sent, and
//! reports a timeout for every address that stayed silent.
//!
//! The engine here makes every decision of a round; the caller owns the
//! sockets, the clock and the threads, and drives a round as
//! `start_round`, `prepare_probe` and `record_request` for each address,
//! `decode_reply` and `handle_response` for each packet read,
//! `round_timed_out` while waiting, and `finish_round`.
use vstd::prelude::*;
use crate::codec::{
    parse_echo_reply, random_probe, reply_of, request_bytes, ICMP_ECHO_REQUEST, ICMPV6_ECHO_REQUEST,
};
use crate::registry::{
    addresses_of, as_map, cleared, holds, index_of, lemma_cleared_all_unseen, parse_ip, parsed_ip,
    sorted, unseen_of, Address, Registry,
};

verus! {

/// Round timeout, in milliseconds, when none is given.
pub const DEFAULT_TIMEOUT_MS: u64 = 1000;

/// An event of the result bus. `rtt` is in microseconds.
#[derive(Clone, Copy, PartialEq, Eq, Structural, Debug)]
pub enum PingResult {
    Timeout { addr: Address },
    Response { addr: Address, rtt: u64, sequence: u16, identifier: u16 },
    Request { addr: Address, sequence: u16, identifier: u16, sent_success: bool },
}

/// What a request sent in this round lets through: a reply must carry back
/// the same address, sequence number and identifier.
#[derive(Clone, Copy, PartialEq, Eq, Structural, Debug)]
pub struct ProbeRecord {
    pub address: Address,
    pub sequence: u16,
    pub identifier: u16,
}

/// An echo request for one address, ready for the socket of its family.
#[derive(Clone, PartialEq, Eq, Debug)]
pub struct Probe {
    pub address: Address,
    pub packet: Vec<u8>,
    pub sequence: u16,
    pub identifier: u16,
}

/// The ICMP type of an echo request to `a`.
pub open spec fn request_type(a: Address) -> u8 {
    if a is V4 { ICMP_ECHO_REQUEST } else { ICMPV6_ECHO_REQUEST }
}

/// A timeout event for each address, in order.
pub open spec fn timeouts_for(s: Seq<Address>) -> Seq<PingResult> {
    s.map_values(|a: Address| PingResult::Timeout { addr: a })
}

/// The registry map after adding the address written in `s`, if any.
pub open spec fn added(m: Map<Address, bool>, s: Seq<char>) -> Map<Address, bool> {
    match parsed_ip(s) {
        Some(a) => m.insert(a, true),
        None => m,
    }
}

/// The registry map after removing the address written in `s`, if any.
pub open spec fn removed(m: Map<Address, bool>, s: Seq<char>) -> Map<Address, bool> {
    match parsed_ip(s) {
        Some(a) => m.remove(a),
        None => m,
    }
}

/// The addresses a round probes, in order: every IPv4 address, and the
/// IPv6 ones only when IPv6 is enabled.
pub open spec fn probe_targets(s: Seq<Address>, v6: bool) -> Seq<Address> {
    s.filter(probed(v6))
}

/// Whether a round probes an address, given whether IPv6 is enabled.
pub open spec fn probed(v6: bool) -> spec_fn(Address) -> bool {
    |a: Address| a is V4 || v6
}

/// Keeps the records that do not name `a`.
pub open spec fn not_for(a: Address) -> spec_fn(ProbeRecord) -> bool {
    |r: ProbeRecord| r.address != a
}

/// Pending records name monitored addresses, at most one record each.
pub open spec fn pending_ok(p: Seq<ProbeRecord>, m: Map<Address, bool>) -> bool {
    &&& forall|i: int, j: int| 0 <= i < j < p.len() ==> p[i].address != p[j].address
    &&& forall|i: int| 0 <= i < p.len() ==> m.contains_key(#[trigger] p[i].address)
}

/// True when no pending record names `a`.
pub open spec fn no_record_for(p: Seq<ProbeRecord>, a: Address) -> bool {
    forall|i: int| 0 <= i < p.len() ==> (#[trigger] p[i]).address != a
}

/// The end of a round: its timeout events, and whether another round follows.
#[derive(Clone, PartialEq, Eq, Debug)]
pub struct RoundEnd {
    pub timeouts: Vec<PingResult>,
    pub next_round: bool,
}

pub struct PingUtility {
    timeout_ms: u64,
    addresses: Registry,
    pending: Vec<ProbeRecord>,
    flag_stop: bool,
    flag_ipv6_enable: bool,
}

impl PingUtility {
    pub closed spec fn timeout_ms(&self) -> u64 {
        self.timeout_ms
    }

    pub closed spec fn registry(&self) -> Registry {
        self.addresses
    }

    /// The requests sent in the current round.
    pub closed spec fn pending(&self) -> Seq<ProbeRecord> {
        self.pending@
    }

    pub closed spec fn stop_requested(&self) -> bool {
        self.flag_stop
    }

    pub closed spec fn ipv6(&self) -> bool {
        self.flag_ipv6_enable
    }

    pub open spec fn wf(&self) -> bool {
        &&& self.registry().wf()
        &&& pending_ok(self.pending(), self.registry()@)
    }

    /// An engine with no addresses, whose rounds wait `max_timeout`
    /// milliseconds (1000 when `None`).
    pub fn new(max_timeout: Option<u64>) -> (r: PingUtility)
        ensures
            r.wf(),
            r.timeout_ms() == match max_timeout {
                Some(t) => t,
                None => DEFAULT_TIMEOUT_MS,
            },
            r.registry()@ == Map::<Address, bool>::empty(),
            r.pending() == Seq::<ProbeRecord>::empty(),
            !r.stop_requested(),
            !r.ipv6(),
    {
        let timeout_ms = match max_timeout {
            Some(t) => t,
            None => DEFAULT_TIMEOUT_MS,
        };
        PingUtility {
            timeout_ms,
            addresses: Registry::new(),
            pending: Vec::new(),
            flag_stop: false,
            flag_ipv6_enable: false,
        }
    }

    pub fn timeout(&self) -> (r: u64)
        ensures
            r == self.timeout_ms(),
    {
        self.timeout_ms
    }

    pub fn enable_ipv6(&mut self)
        ensures
            final(self).ipv6(),
            final(self).registry() == old(self).registry(),
            final(self).pending() == old(self).pending(),
            final(self).stop_requested() == old(self).stop_requested(),
            final(self).timeout_ms() == old(self).timeout_ms(),
    {
        self.flag_ipv6_enable = true;
    }

    pub fn disable_ipv6(&mut self)
        ensures
            !final(self).ipv6(),
            final(self).registry() == old(self).registry(),
            final(self).pending() == old(self).pending(),
            final(self).stop_requested() == old(self).stop_requested(),
            final(self).timeout_ms() == old(self).timeout_ms(),
    {
        self.flag_ipv6_enable = false;
    }

    /// True when the IPv6 receiver should run.
    pub fn ipv6_enabled(&self) -> (r: bool)
        ensures
            r == self.ipv6(),
    {
        self.flag_ipv6_enable
    }

    /// Starts monitoring `address`, counted as seen until its first round.
    pub fn add_address(&mut self, address: Address)
        requires
            old(self).wf(),
        ensures
            final(self).wf(),
            final(self).registry()@ == old(self).registry()@.insert(address, true),
            final(self).pending() == old(self).pending(),
            final(self).stop_requested() == old(self).stop_requested(),
            final(self).timeout_ms() == old(self).timeout_ms(),
            final(self).ipv6() == old(self).ipv6(),
    {
        self.addresses.add(address);
    }

    /// Stops monitoring `address`; a no-op where it is not monitored.
    pub fn remove_address(&mut self, address: Address)
        requires
            old(self).wf(),
        ensures
            final(self).wf(),
            final(self).registry()@ == old(self).registry()@.remove(address),
            final(self).pending() == old(self).pending().filter(not_for(address)),
            final(self).stop_requested() == old(self).stop_requested(),
            final(self).timeout_ms() == old(self).timeout_ms(),
            final(self).ipv6() == old(self).ipv6(),
    {
        self.addresses.remove(&address);
        self.drop_records(&address);
    }

    /// Forgets the pending record of `a`, if any.
    fn drop_records(&mut self, a: &Address)
        requires
            old(self).registry().wf(),
            pending_ok(old(self).pending(), old(self).registry()@.insert(*a, true)),
            forall|b: Address| #[trigger] old(self).registry()@.contains_key(b) <==> b != *a && (
            old(self).registry()@.insert(*a, true).contains_key(b)),
        ensures
            final(self).wf(),
            final(self).pending() == old(self).pending().filter(not_for(*a)),
            final(self).registry() == old(self).registry(),
            final(self).stop_requested() == old(self).stop_requested(),
            final(self).timeout_ms() == old(self).timeout_ms(),
            final(self).ipv6() == old(self).ipv6(),
    {
        let ghost old_p = self.pending@;
        let ghost pred = not_for(*a);
        let mut kept: Vec<ProbeRecord> = Vec::new();
        let mut i: usize = 0;
        while i < self.pending.len()
            invariant
                self.pending@ == old_p,
                i <= old_p.len(),
                pred == not_for(*a),
                kept@ == old_p.take(i as int).filter(pred),
                pending_ok(old_p, self.addresses@.insert(*a, true)),
                forall|b: Address| #[trigger] self.addresses@.contains_key(b) <==> b != *a && (
                self.addresses@.insert(*a, true).contains_key(b)),
                forall|k: int| 0 <= k < kept@.len() ==> exists|j: int|
                    0 <= j < i && #[trigger] kept@[k] == old_p[j],
                forall|k: int| 0 <= k < kept@.len() ==> (#[trigger] kept@[k]).address != *a,
                forall|x: int, y: int| 0 <= x < y < kept@.len() ==> kept@[x].address
                    != kept@[y].address,
            decreases old_p.len() - i,
        {
            let r = self.pending[i];
            proof {
                assert(old_p.take(i + 1) =~= old_p.take(i as int).push(old_p[i as int]));
                old_p.take(i as int).lemma_filter_push(old_p[i as int], pred);
                assert(pred(old_p[i as int]) == (r.address != *a));
            }
            if r.address != *a {
                let ghost before = kept@;
                kept.push(r);
                proof {
                    assert forall|x: int, y: int| 0 <= x < y < kept@.len() implies kept@[x].address
                        != kept@[y].address by {
                        if y == before.len() {
                            let j = choose|j: int| 0 <= j < i && before[x] == old_p[j];
                            assert(kept@[x] == old_p[j]);
                        } else {
                            assert(kept@[x] == before[x]);
                            assert(kept@[y] == before[y]);
                        }
                    }
                    assert forall|k: int| 0 <= k < kept@.len() implies exists|j: int|
                        0 <= j < i + 1 && #[trigger] kept@[k] == old_p[j] by {
                        if k < before.len() {
                            let j = choose|j: int| 0 <= j < i && before[k] == old_p[j];
                            assert(kept@[k] == old_p[j]);
                        } else {
                            assert(kept@[k] == old_p[i as int]);
                        }
                    }
                }
            }
            i = i + 1;
        }
        proof {
            assert(old_p.take(i as int) =~= old_p);
            let m = self.addresses@;
            let q = kept@;
            assert forall|x: int| 0 <= x < q.len() implies m.contains_key(#[trigger] q[x].address) by {
                let jx = choose|j: int| 0 <= j < i && q[x] == old_p[j];
                assert(q[x].address != *a);
                assert(m.insert(*a, true).contains_key(old_p[jx].address));
            }
        }
        self.pending = kept;
    }

    /// Starts monitoring the address written in `ipaddress`; text that is
    /// not an IP address is ignored. Returns whether it was one.
    pub fn add_ipaddress(&mut self, ipaddress: &str) -> (ok: bool)
        requires
            old(self).wf(),
        ensures
            final(self).wf(),
            ok == parsed_ip(ipaddress@) is Some,
            final(self).registry()@ == added(old(self).registry()@, ipaddress@),
            final(self).pending() == old(self).pending(),
            final(self).stop_requested() == old(self).stop_requested(),
            final(self).timeout_ms() == old(self).timeout_ms(),
            final(self).ipv6() == old(self).ipv6(),
    {
        match parse_ip(ipaddress) {
            Some(a) => {
                self.add_address(a);
                true
            },
            None => false,
        }
    }

    /// Stops monitoring the address written in `ipaddress`; a no-op where
    /// the text is not an IP address or the address is not monitored.
    /// Returns whether the text was an IP address.
    pub fn remove_ipaddress(&mut self, ipaddress: &str) -> (ok: bool)
        requires
            old(self).wf(),
        ensures
            final(self).wf(),
            ok == parsed_ip(ipaddress@) is Some,
            final(self).registry()@ == removed(old(self).registry()@, ipaddress@),
            final(self).pending() == match parsed_ip(ipaddress@) {
                Some(a) => old(self).pending().filter(not_for(a)),
                None => old(self).pending(),
            },
            final(self).stop_requested() == old(self).stop_requested(),
            final(self).timeout_ms() == old(self).timeout_ms(),
            final(self).ipv6() == old(self).ipv6(),
    {
        match parse_ip(ipaddress) {
            Some(a) => {
                self.remove_address(a);
                true
            },
            None => false,
        }
    }

    /// Clears the stop signal, so that rounds go on until it is set again.
    pub fn start_pinging(&mut self)
        ensures
            !final(self).stop_requested(),
            final(self).registry() == old(self).registry(),
            final(self).pending() == old(self).pending(),
            final(self).timeout_ms() == old(self).timeout_ms(),
            final(self).ipv6() == old(self).ipv6(),
    {
        self.flag_stop = false;
    }

    /// Sets the stop signal: the round under way is the last one.
    pub fn stop(&mut self)
        ensures
            final(self).stop_requested(),
            final(self).registry() == old(self).registry(),
            final(self).pending() == old(self).pending(),
            final(self).timeout_ms() == old(self).timeout_ms(),
            final(self).ipv6() == old(self).ipv6(),
    {
        self.flag_stop = true;
    }

    /// Opens a round: forgets the requests of the last round, clears every
    /// seen flag, and returns the addresses to probe, in address order.
    pub fn start_round(&mut self) -> (r: Vec<Address>)
        requires
            old(self).wf(),
        ensures
            final(self).wf(),
            final(self).registry().entries() == cleared(old(self).registry().entries()),
            final(self).pending() == Seq::<ProbeRecord>::empty(),
            final(self).stop_requested() == old(self).stop_requested(),
            final(self).timeout_ms() == old(self).timeout_ms(),
            final(self).ipv6() == old(self).ipv6(),
            r@ == probe_targets(addresses_of(old(self).registry().entries()), old(self).ipv6()),
    {
        self.pending = Vec::new();
        let all = self.addresses.addresses();
        let v6 = self.flag_ipv6_enable;
        let ghost pred = probed(v6);
        let mut r: Vec<Address> = Vec::new();
        let mut i: usize = 0;
        while i < all.len()
            invariant
                i <= all@.len(),
                pred == probed(v6),
                r@ == all@.take(i as int).filter(pred),
            decreases all@.len() - i,
        {
            proof {
                assert(all@.take(i + 1) =~= all@.take(i as int).push(all@[i as int]));
                all@.take(i as int).lemma_filter_push(all@[i as int], pred);
                assert(pred(all@[i as int]) == (all@[i as int] is V4 || v6));
            }
            if all[i].is_ipv4() || v6 {
                r.push(all[i]);
            }
            i = i + 1;
        }
        assert(all@.take(i as int) =~= all@);
        self.addresses.reset_seen();
        proof {
            let e = old(self).registry().entries();
            assert forall|b: Address| #[trigger] holds(cleared(e), b) == holds(e, b) by {
                if holds(e, b) {
                    let j = index_of(e, b);
                    assert(cleared(e)[j].0 == b);
                }
                if holds(cleared(e), b) {
                    let j = index_of(cleared(e), b);
                    assert(e[j].0 == b);
                }
            }
        }
        r
    }

    /// An IPv4 echo request to `address`, with a random sequence number and
    /// identifier.
    pub fn send_echo_request(address: Address) -> (r: Probe)
        ensures
            r.address == address,
            r.packet@ == request_bytes(ICMP_ECHO_REQUEST, r.sequence, r.identifier),
    {
        let p = random_probe(ICMP_ECHO_REQUEST);
        Probe { address, packet: p.packet, sequence: p.sequence, identifier: p.identifier }
    }

    /// An ICMPv6 echo request to `address`, with a random sequence number and
    /// identifier.
    pub fn send_echov6_request(address: Address) -> (r: Probe)
        ensures
            r.address == address,
            r.packet@ == request_bytes(ICMPV6_ECHO_REQUEST, r.sequence, r.identifier),
    {
        let p = random_probe(ICMPV6_ECHO_REQUEST);
        Probe { address, packet: p.packet, sequence: p.sequence, identifier: p.identifier }
    }

    /// The echo request for `address`, of its family.
    pub fn prepare_probe(address: Address) -> (r: Probe)
        ensures
            r.address == address,
            r.packet@ == request_bytes(request_type(address), r.sequence, r.identifier),
    {
        if address.is_ipv4() {
            Self::send_echo_request(address)
        } else {
            Self::send_echov6_request(address)
        }
    }

    /// What a receiver passes on for a packet read from `from`, `rtt`
    /// microseconds into the round: a response carrying the packet's
    /// sequence number and identifier if it is an echo reply of the family,
    /// nothing otherwise.
    pub fn decode_reply(bytes: &[u8], v6: bool, from: Address, rtt: u64) -> (r: Option<PingResult>)
        ensures
            r == match reply_of(bytes@, v6) {
                Some(e) => Some(
                    PingResult::Response {
                        addr: from,
                        rtt,
                        sequence: e.sequence,
                        identifier: e.identifier,
                    },
                ),
                None => None,
            },
    {
        match parse_echo_reply(bytes, v6) {
            Some(e) => Some(
                PingResult::Response { addr: from, rtt, sequence: e.sequence, identifier: e.identifier },
            ),
            None => None,
        }
    }

    /// Notes how sending `probe` went. A request that went out is pending for
    /// the rest of the round; one that failed is reported and not pending.
    pub fn record_request(&mut self, probe: &Probe, sent_success: bool) -> (r: PingResult)
        requires
            old(self).wf(),
            old(self).registry()@.contains_key(probe.address),
            no_record_for(old(self).pending(), probe.address),
        ensures
            final(self).wf(),
            final(self).pending().len() <= final(self).registry().entries().len(),
            r == (PingResult::Request {
                addr: probe.address,
                sequence: probe.sequence,
                identifier: probe.identifier,
                sent_success,
            }),
            final(self).pending() == if sent_success {
                old(self).pending().push(
                    ProbeRecord {
                        address: probe.address,
                        sequence: probe.sequence,
                        identifier: probe.identifier,
                    },
                )
            } else {
                old(self).pending()
            },
            final(self).registry() == old(self).registry(),
            final(self).stop_requested() == old(self).stop_requested(),
            final(self).timeout_ms() == old(self).timeout_ms(),
            final(self).ipv6() == old(self).ipv6(),
    {
        if sent_success {
            self.pending.push(
                ProbeRecord {
                    address: probe.address,
                    sequence: probe.sequence,
                    identifier: probe.identifier,
                },
            );
        }
        proof {
            lemma_pending_bounded(*self);
        }
        PingResult::Request {
            addr: probe.address,
            sequence: probe.sequence,
            identifier: probe.identifier,
            sent_success,
        }
    }

    /// True when `a` is monitored.
    pub fn is_monitored(&self, a: Address) -> (r: bool)
        requires
            self.wf(),
        ensures
            r == self.registry()@.contains_key(a),
    {
        self.addresses.contains(&a)
    }

    /// True when a request to `a` is already pending in this round.
    pub fn has_record_for(&self, a: Address) -> (r: bool)
        ensures
            r == !no_record_for(self.pending(), a),
    {
        let mut i: usize = 0;
        while i < self.pending.len()
            invariant
                i <= self.pending@.len(),
                forall|k: int| 0 <= k < i ==> (#[trigger] self.pending@[k]).address != a,
            decreases self.pending@.len() - i,
        {
            if self.pending[i].address == a {
                return true;
            }
            i = i + 1;
        }
        false
    }

    fn is_pending(&self, rec: &ProbeRecord) -> (r: bool)
        ensures
            r == self.pending().contains(*rec),
    {
        let mut i: usize = 0;
        while i < self.pending.len()
            invariant
                i <= self.pending@.len(),
                forall|k: int| 0 <= k < i ==> self.pending@[k] != *rec,
            decreases self.pending@.len() - i,
        {
            if self.pending[i] == *rec {
                return true;
            }
            i = i + 1;
        }
        false
    }

    /// Takes a decoded echo reply. It is passed on, and its address counted
    /// as seen, exactly when a request of this round carried the same
    /// address, sequence number and identifier; anything else is dropped.
    pub fn handle_response(&mut self, addr: Address, rtt: u64, sequence: u16, identifier: u16) -> (r:
        Option<PingResult>)
        requires
            old(self).wf(),
        ensures
            final(self).wf(),
            old(self).pending().contains(
                ProbeRecord { address: addr, sequence, identifier },
            ) ==> r == Some(PingResult::Response { addr, rtt, sequence, identifier })
                && final(self).registry()@ == (if old(self).registry()@.contains_key(addr) {
                old(self).registry()@.insert(addr, true)
            } else {
                old(self).registry()@
            }) && final(self).registry().entries() == (if old(self).registry()@.contains_key(
                addr,
            ) {
                old(self).registry().entries().update(
                    index_of(old(self).registry().entries(), addr),
                    (addr, true),
                )
            } else {
                old(self).registry().entries()
            }),
            !old(self).pending().contains(ProbeRecord { address: addr, sequence, identifier })
                ==> r is None && final(self).registry() == old(self).registry(),
            final(self).pending() == old(self).pending(),
            final(self).stop_requested() == old(self).stop_requested(),
            final(self).timeout_ms() == old(self).timeout_ms(),
            final(self).ipv6() == old(self).ipv6(),
    {
        let rec = ProbeRecord { address: addr, sequence, identifier };
        if self.is_pending(&rec) {
            self.addresses.mark_seen(&addr);
            Some(PingResult::Response { addr, rtt, sequence, identifier })
        } else {
            None
        }
    }

    /// True once `elapsed_ms` milliseconds since the round began exceed the
    /// round timeout.
    pub fn round_timed_out(&self, elapsed_ms: u64) -> (r: bool)
        ensures
            r == (elapsed_ms > self.timeout_ms()),
    {
        elapsed_ms > self.timeout_ms
    }

    /// Closes the round: a timeout for every address not seen, in address
    /// order; the round's requests are forgotten; another round follows
    /// unless the stop signal is set.
    pub fn finish_round(&mut self) -> (r: RoundEnd)
        requires
            old(self).wf(),
        ensures
            final(self).wf(),
            r.timeouts@ == timeouts_for(unseen_of(old(self).registry().entries())),
            r.next_round == !old(self).stop_requested(),
            final(self).pending() == Seq::<ProbeRecord>::empty(),
            final(self).registry() == old(self).registry(),
            final(self).stop_requested() == old(self).stop_requested(),
            final(self).timeout_ms() == old(self).timeout_ms(),
            final(self).ipv6() == old(self).ipv6(),
    {
        let unseen = self.addresses.unseen();
        let mut timeouts: Vec<PingResult> = Vec::new();
        let mut i: usize = 0;
        while i < unseen.len()
            invariant
                i <= unseen@.len(),
                timeouts@ == timeouts_for(unseen@.take(i as int)),
            decreases unseen@.len() - i,
        {
            timeouts.push(PingResult::Timeout { addr: unseen[i] });
            proof {
                assert(timeouts_for(unseen@.take(i + 1)) =~= timeouts_for(unseen@.take(i as int)).push(
                    PingResult::Timeout { addr: unseen@[i as int] },
                ));
            }
            i = i + 1;
        }
        assert(unseen@.take(i as int) =~= unseen@);
        self.pending = Vec::new();
        RoundEnd { timeouts, next_round: !self.flag_stop }
    }
}

/// A round in which no reply was accepted reports exactly one timeout for
/// each monitored address, in address order, and nothing else.
pub proof fn lemma_silent_round(before: PingUtility, opened: PingUtility, end: RoundEnd)
    requires
        before.wf(),
        opened.registry().entries() == cleared(before.registry().entries()),
        end.timeouts@ == timeouts_for(unseen_of(opened.registry().entries())),
    ensures
        end.timeouts@ == timeouts_for(addresses_of(before.registry().entries())),
        end.timeouts@.len() == before.registry().entries().len(),
        forall|i: int| 0 <= i < end.timeouts@.len() ==> end.timeouts@[i] is Timeout,
{
    lemma_cleared_all_unseen(before.registry().entries());
}

/// Adding the address written in a valid IP literal and then removing it
/// leaves the registry without that address, as if only the removal had
/// happened.
pub proof fn lemma_add_then_remove_text(m: Map<Address, bool>, s: Seq<char>)
    requires
        parsed_ip(s) is Some,
    ensures
        !removed(added(m, s), s).contains_key(parsed_ip(s).unwrap()),
        removed(added(m, s), s) == removed(m, s),
{
    assert(removed(added(m, s), s) =~= removed(m, s));
}

/// Removing an address that was never added, or text that is no address,
/// changes nothing.
pub proof fn lemma_remove_absent_text(m: Map<Address, bool>, s: Seq<char>)
    requires
        parsed_ip(s) matches Some(a) ==> !m.contains_key(a),
    ensures
        removed(m, s) == m,
{
    if let Some(a) = parsed_ip(s) {
        assert(m.remove(a) =~= m);
    }
}

/// The records pending in a round never outnumber the monitored addresses.
pub proof fn lemma_pending_bounded(p: PingUtility)
    requires
        p.wf(),
    ensures
        p.pending().len() <= p.registry().entries().len(),
{
    broadcast use vstd::seq_lib::seq_to_set_is_finite;
    let e = p.registry().entries();
    let pa = p.pending().map_values(|r: ProbeRecord| r.address);
    let ea = addresses_of(e);
    assert(pa.no_duplicates());
    assert(ea.no_duplicates()) by {
        assert forall|i: int, j: int| 0 <= i < ea.len() && 0 <= j < ea.len() && i != j implies ea[i]
            != ea[j] by {
            if i < j {
                assert(e[i].0.rank() < e[j].0.rank());
            } else {
                assert(e[j].0.rank() < e[i].0.rank());
            }
        }
    }
    pa.unique_seq_to_set();
    ea.unique_seq_to_set();
    assert forall|x: Address| pa.to_set().contains(x) implies ea.to_set().contains(x) by {
        let i = choose|i: int| 0 <= i < pa.len() && pa[i] == x;
        assert(p.registry()@.contains_key(p.pending()[i].address));
        assert(holds(e, x));
        let j = choose|j: int| 0 <= j < e.len() && e[j].0 == x;
        assert(ea[j] == x);
    }
    vstd::set_lib::lemma_len_subset(pa.to_set(), ea.to_set());
}
} // verus!
