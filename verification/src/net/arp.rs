//! ARP (RFC 826): a table from IP addresses to hardware addresses with
//! entry states, aging, static entries, spoofing checks and statistics.
//!
//! Entries are kept in the order of their IP addresses, as an ordered map
//! would keep them. The clock is an argument (`now`, milliseconds).
use vstd::prelude::*;
use crate::net::types::{NetworkAddress, NetworkError, NetworkResult, bytes_eq};
use crate::net::wire::push_all;

verus! {

/// States of an ARP entry.
#[derive(Debug, Clone, Copy, PartialEq, Eq, Structural)]
pub enum ArpEntryState {
    /// A request was sent and no reply came yet.
    Incomplete,
    /// Recently confirmed.
    Reachable,
    /// May be outdated but usable.
    Stale,
    /// Waiting for confirmation.
    Delay,
    /// Being probed.
    Probe,
    /// Failed its reachability test.
    Failed,
}

/// Security marks of an entry.
#[derive(Debug, Clone, Copy, PartialEq, Eq, Structural)]
pub struct ArpSecurityFlags {
    /// Confirmed by a gratuitous ARP.
    pub verified: bool,
    /// Its hardware address changed.
    pub suspicious: bool,
    /// Failed a security check.
    pub blocked: bool,
    /// From a trusted source.
    pub trusted: bool,
}

/// No mark set.
pub open spec fn no_security_flags() -> ArpSecurityFlags {
    ArpSecurityFlags { verified: false, suspicious: false, blocked: false, trusted: false }
}

impl Default for ArpSecurityFlags {
    fn default() -> (r: Self)
        ensures
            r == no_security_flags(),
    {
        ArpSecurityFlags { verified: false, suspicious: false, blocked: false, trusted: false }
    }
}

/// An ARP table entry.
#[derive(Debug, Clone)]
pub struct ArpEntry {
    pub ip_address: NetworkAddress,
    pub mac_address: Option<NetworkAddress>,
    pub state: ArpEntryState,
    pub created: u64,
    pub updated: u64,
    pub last_used: u64,
    pub use_count: u64,
    pub request_count: u8,
    pub interface: String,
    pub is_static: bool,
    pub security_flags: ArpSecurityFlags,
}

/// A new, incomplete, dynamic entry made at `now`.
pub open spec fn new_entry_spec(ip: NetworkAddress, interface: String, now: u64) -> ArpEntry {
    ArpEntry {
        ip_address: ip,
        mac_address: None,
        state: ArpEntryState::Incomplete,
        created: now,
        updated: now,
        last_used: now,
        use_count: 0,
        request_count: 0,
        interface,
        is_static: false,
        security_flags: no_security_flags(),
    }
}

/// A static, reachable, trusted entry made at `now`.
pub open spec fn static_entry_spec(ip: NetworkAddress, mac: NetworkAddress, interface: String, now: u64) -> ArpEntry {
    ArpEntry {
        ip_address: ip,
        mac_address: Some(mac),
        state: ArpEntryState::Reachable,
        created: now,
        updated: now,
        last_used: now,
        use_count: 0,
        request_count: 0,
        interface,
        is_static: true,
        security_flags: ArpSecurityFlags { trusted: true, ..no_security_flags() },
    }
}

/// `e` after learning `mac` at `now`: reachable, requests reset; a dynamic
/// entry whose address changes is marked suspicious.
pub open spec fn update_mac_spec(e: ArpEntry, mac: NetworkAddress, now: u64) -> ArpEntry {
    let suspicious = match e.mac_address {
        Some(m) => m != mac && !e.is_static,
        None => false,
    };
    ArpEntry {
        mac_address: Some(mac),
        state: ArpEntryState::Reachable,
        updated: now,
        request_count: 0,
        security_flags: if suspicious {
            ArpSecurityFlags { suspicious: true, ..e.security_flags }
        } else {
            e.security_flags
        },
        ..e
    }
}

/// `e` after a use at `now`: a stale entry goes to `Delay`.
pub open spec fn mark_used_spec(e: ArpEntry, now: u64) -> ArpEntry {
    ArpEntry {
        last_used: now,
        use_count: (e.use_count + 1) as u64,
        state: if e.state == ArpEntryState::Stale {
            ArpEntryState::Delay
        } else {
            e.state
        },
        ..e
    }
}

/// The clock is not behind any of the entry's times.
pub open spec fn times_before(e: ArpEntry, now: u64) -> bool {
    now >= e.created && now >= e.updated && now >= e.last_used
}

/// Whether `e` has expired at `now`: never when static; incomplete after
/// 3 s, reachable after `max_age`, stale after twice that, delayed 5 s after
/// its last use, probed after 1 s, failed at once.
pub open spec fn expired_spec(e: ArpEntry, max_age: u64, now: u64) -> bool {
    if e.is_static {
        false
    } else {
        match e.state {
            ArpEntryState::Incomplete => now - e.created > 3000,
            ArpEntryState::Reachable => now - e.updated > max_age,
            ArpEntryState::Stale => now - e.updated > max_age * 2,
            ArpEntryState::Delay => now - e.last_used > 5000,
            ArpEntryState::Probe => now - e.updated > 1000,
            ArpEntryState::Failed => true,
        }
    }
}

impl ArpEntry {
    /// A new, incomplete, dynamic entry made at `now`.
    pub fn new(ip: NetworkAddress, interface: String, now: u64) -> (r: Self)
        ensures
            r == new_entry_spec(ip, interface, now),
    {
        ArpEntry {
            ip_address: ip,
            mac_address: None,
            state: ArpEntryState::Incomplete,
            created: now,
            updated: now,
            last_used: now,
            use_count: 0,
            request_count: 0,
            interface,
            is_static: false,
            security_flags: ArpSecurityFlags::default(),
        }
    }

    /// A static, reachable, trusted entry made at `now`.
    pub fn new_static(ip: NetworkAddress, mac: NetworkAddress, interface: String, now: u64) -> (r: Self)
        ensures
            r == static_entry_spec(ip, mac, interface, now),
    {
        ArpEntry {
            ip_address: ip,
            mac_address: Some(mac),
            state: ArpEntryState::Reachable,
            created: now,
            updated: now,
            last_used: now,
            use_count: 0,
            request_count: 0,
            interface,
            is_static: true,
            security_flags: ArpSecurityFlags { trusted: true, ..ArpSecurityFlags::default() },
        }
    }

    /// A copy of the entry.
    pub fn copy(&self) -> (r: Self)
        ensures
            r == *self,
    {
        ArpEntry {
            ip_address: self.ip_address,
            mac_address: self.mac_address,
            state: self.state,
            created: self.created,
            updated: self.updated,
            last_used: self.last_used,
            use_count: self.use_count,
            request_count: self.request_count,
            interface: self.interface.clone(),
            is_static: self.is_static,
            security_flags: self.security_flags,
        }
    }

    /// Learns `mac` at `now`; a changed address of a dynamic entry marks it
    /// suspicious.
    pub fn update_mac(&mut self, mac: NetworkAddress, now: u64)
        ensures
            *final(self) == update_mac_spec(*old(self), mac, now),
    {
        match self.mac_address {
            Some(existing) => {
                if !existing.same(&mac) && !self.is_static {
                    self.security_flags.suspicious = true;
                }
            },
            None => {},
        }
        self.mac_address = Some(mac);
        self.state = ArpEntryState::Reachable;
        self.updated = now;
        self.request_count = 0;
    }

    /// Records a use at `now`; a stale entry goes to `Delay`.
    pub fn mark_used(&mut self, now: u64)
        requires
            old(self).use_count < u64::MAX,
        ensures
            *final(self) == mark_used_spec(*old(self), now),
    {
        self.last_used = now;
        self.use_count = self.use_count + 1;
        if self.state == ArpEntryState::Stale {
            self.state = ArpEntryState::Delay;
        }
    }

    /// Whether the entry has expired at `now`.
    pub fn is_expired(&self, max_age_ms: u64, now: u64) -> (r: bool)
        requires
            times_before(*self, now),
            self.state == ArpEntryState::Stale && !self.is_static ==> max_age_ms * 2 <= u64::MAX,
        ensures
            r == expired_spec(*self, max_age_ms, now),
    {
        if self.is_static {
            return false;
        }
        match self.state {
            ArpEntryState::Incomplete => now - self.created > 3000,
            ArpEntryState::Reachable => now - self.updated > max_age_ms,
            ArpEntryState::Stale => now - self.updated > max_age_ms * 2,
            ArpEntryState::Delay => now - self.last_used > 5000,
            ArpEntryState::Probe => now - self.updated > 1000,
            ArpEntryState::Failed => true,
        }
    }

    /// Whether the entry should be confirmed again at `now`: a dynamic
    /// reachable entry after 15 s, a stale one always, a delayed one 5 s
    /// after its last use.
    pub fn needs_revalidation(&self, now: u64) -> (r: bool)
        requires
            times_before(*self, now),
        ensures
            r == (!self.is_static && match self.state {
                ArpEntryState::Reachable => now - self.updated > 15000,
                ArpEntryState::Stale => true,
                ArpEntryState::Delay => now - self.last_used > 5000,
                _ => false,
            }),
    {
        if self.is_static {
            return false;
        }
        match self.state {
            ArpEntryState::Reachable => now - self.updated > 15000,
            ArpEntryState::Stale => true,
            ArpEntryState::Delay => now - self.last_used > 5000,
            _ => false,
        }
    }

    /// Counts one more request; true once more than three were sent.
    pub fn increment_request_count(&mut self) -> (r: bool)
        requires
            old(self).request_count < u8::MAX,
        ensures
            *final(self) == (ArpEntry { request_count: (old(self).request_count + 1) as u8, ..*old(self) }),
            r == (final(self).request_count > 3),
    {
        self.request_count = self.request_count + 1;
        self.request_count > 3
    }
}

/// ARP table statistics.
#[derive(Debug, Clone, Copy, PartialEq, Eq, Structural)]
pub struct ArpTableStats {
    pub total_entries: usize,
    pub static_entries: usize,
    pub reachable_entries: usize,
    pub stale_entries: usize,
    pub incomplete_entries: usize,
    pub failed_entries: usize,
    pub requests_sent: u64,
    pub replies_received: u64,
    pub gratuitous_arps: u64,
    pub security_violations: u64,
    pub cache_hits: u64,
    pub cache_misses: u64,
}

/// All counters at zero.
pub open spec fn zero_arp_stats() -> ArpTableStats {
    ArpTableStats {
        total_entries: 0,
        static_entries: 0,
        reachable_entries: 0,
        stale_entries: 0,
        incomplete_entries: 0,
        failed_entries: 0,
        requests_sent: 0,
        replies_received: 0,
        gratuitous_arps: 0,
        security_violations: 0,
        cache_hits: 0,
        cache_misses: 0,
    }
}

impl Default for ArpTableStats {
    fn default() -> (r: Self)
        ensures
            r == zero_arp_stats(),
    {
        ArpTableStats {
            total_entries: 0,
            static_entries: 0,
            reachable_entries: 0,
            stale_entries: 0,
            incomplete_entries: 0,
            failed_entries: 0,
            requests_sent: 0,
            replies_received: 0,
            gratuitous_arps: 0,
            security_violations: 0,
            cache_hits: 0,
            cache_misses: 0,
        }
    }
}

/// ARP configuration.
#[derive(Debug, Clone)]
pub struct ArpConfig {
    /// Age after which a reachable entry expires (milliseconds).
    pub max_age_ms: u64,
    /// Most entries before the oldest dynamic one is evicted.
    pub max_entries: usize,
    /// Whether address changes are checked.
    pub security_enabled: bool,
    /// Whether gratuitous ARP updates are taken.
    pub allow_gratuitous: bool,
    /// Hardware address prefixes of trusted vendors.
    pub trusted_prefixes: Vec<[u8; 3]>,
}

impl Default for ArpConfig {
    fn default() -> (r: Self)
        ensures
            r.max_age_ms == 300000,
            r.max_entries == 1024,
            r.security_enabled,
            r.allow_gratuitous,
            r.trusted_prefixes@.len() == 0,
    {
        ArpConfig {
            max_age_ms: 300000,
            max_entries: 1024,
            security_enabled: true,
            allow_gratuitous: true,
            trusted_prefixes: Vec::new(),
        }
    }
}

/// The rank of an address's family in the order of addresses.
pub open spec fn addr_tag(a: NetworkAddress) -> int {
    match a {
        NetworkAddress::IPv4(_) => 0,
        NetworkAddress::IPv6(_) => 1,
        NetworkAddress::Mac(_) => 2,
    }
}

/// The bytes of an address.
pub open spec fn addr_bytes(a: NetworkAddress) -> Seq<u8> {
    match a {
        NetworkAddress::IPv4(b) => b@,
        NetworkAddress::IPv6(b) => b@,
        NetworkAddress::Mac(b) => b@,
    }
}

/// `x` comes before `y` in lexicographic order, at the first position where
/// they differ.
pub open spec fn bytes_less(x: Seq<u8>, y: Seq<u8>) -> bool {
    exists|i: int| 0 <= i < x.len() && i < y.len() && x[i] < y[i] && forall|j: int| 0 <= j < i ==> #[trigger] x[j] == y[j]
}

/// The order of addresses: by family (IPv4, IPv6, hardware), then by bytes.
pub open spec fn addr_less(a: NetworkAddress, b: NetworkAddress) -> bool {
    addr_tag(a) < addr_tag(b) || (addr_tag(a) == addr_tag(b) && bytes_less(addr_bytes(a), addr_bytes(b)))
}

proof fn lemma_addr_len(a: NetworkAddress)
    ensures
        addr_tag(a) == 0 ==> addr_bytes(a).len() == 4,
        addr_tag(a) == 1 ==> addr_bytes(a).len() == 16,
        addr_tag(a) == 2 ==> addr_bytes(a).len() == 6,
{
}

proof fn lemma_bytes_less_trans(x: Seq<u8>, y: Seq<u8>, z: Seq<u8>)
    requires
        bytes_less(x, y),
        bytes_less(y, z),
    ensures
        bytes_less(x, z),
{
    let i = choose|i: int| 0 <= i < x.len() && i < y.len() && x[i] < y[i] && forall|j: int| 0 <= j < i ==> #[trigger] x[j] == y[j];
    let k = choose|k: int| 0 <= k < y.len() && k < z.len() && y[k] < z[k] && forall|j: int| 0 <= j < k ==> #[trigger] y[j] == z[j];
    let m = if i < k { i } else { k };
    assert forall|j: int| 0 <= j < m implies #[trigger] x[j] == z[j] by {
        assert(x[j] == y[j]);
    }
    assert(x[m] < z[m]);
}

proof fn lemma_bytes_less_irrefl(x: Seq<u8>, y: Seq<u8>)
    requires
        bytes_less(x, y),
    ensures
        !bytes_less(y, x),
        x != y,
{
    let i = choose|i: int| 0 <= i < x.len() && i < y.len() && x[i] < y[i] && forall|j: int| 0 <= j < i ==> #[trigger] x[j] == y[j];
    if bytes_less(y, x) {
        let k = choose|k: int| 0 <= k < y.len() && k < x.len() && y[k] < x[k] && forall|j: int| 0 <= j < k ==> #[trigger] y[j] == x[j];
        if i < k {
            assert(y[i] == x[i]);
        } else if k < i {
            assert(x[k] == y[k]);
        }
    }
}

proof fn lemma_bytes_total(x: Seq<u8>, y: Seq<u8>)
    requires
        x.len() == y.len(),
        !bytes_less(x, y),
        !bytes_less(y, x),
    ensures
        x == y,
{
    assert forall|k: int| 0 <= k < x.len() implies x[k] == y[k] by {
        lemma_bytes_prefix_eq(x, y, k);
    }
    assert(x =~= y);
}

proof fn lemma_bytes_prefix_eq(x: Seq<u8>, y: Seq<u8>, k: int)
    requires
        x.len() == y.len(),
        !bytes_less(x, y),
        !bytes_less(y, x),
        0 <= k < x.len(),
    ensures
        forall|j: int| 0 <= j <= k ==> #[trigger] x[j] == y[j],
    decreases k,
{
    if k > 0 {
        lemma_bytes_prefix_eq(x, y, k - 1);
    }
    assert forall|j: int| 0 <= j < k implies #[trigger] x[j] == y[j] by {
        if k > 0 {
            assert(x[j] == y[j]);
        }
    }
    if x[k] < y[k] {
        assert(bytes_less(x, y));
    } else if y[k] < x[k] {
        assert forall|j: int| 0 <= j < k implies #[trigger] y[j] == x[j] by {
            assert(x[j] == y[j]);
        }
        assert(bytes_less(y, x));
    }
}

/// The order of addresses is transitive.
pub proof fn lemma_addr_less_trans(a: NetworkAddress, b: NetworkAddress, c: NetworkAddress)
    requires
        addr_less(a, b),
        addr_less(b, c),
    ensures
        addr_less(a, c),
{
    if addr_tag(a) == addr_tag(b) && addr_tag(b) == addr_tag(c) {
        lemma_bytes_less_trans(addr_bytes(a), addr_bytes(b), addr_bytes(c));
    }
}

/// The order of addresses is strict and total.
pub proof fn lemma_addr_less_total(a: NetworkAddress, b: NetworkAddress)
    ensures
        addr_less(a, b) ==> !addr_less(b, a) && a != b,
        !addr_less(a, b) && !addr_less(b, a) ==> a == b,
{
    if addr_less(a, b) && addr_tag(a) == addr_tag(b) {
        lemma_bytes_less_irrefl(addr_bytes(a), addr_bytes(b));
    }
    if !addr_less(a, b) && !addr_less(b, a) {
        lemma_addr_len(a);
        lemma_addr_len(b);
        lemma_bytes_total(addr_bytes(a), addr_bytes(b));
        match (a, b) {
            (NetworkAddress::IPv4(x), NetworkAddress::IPv4(y)) => {
                assert(x@ =~= y@);
                assert(x == y);
            },
            (NetworkAddress::IPv6(x), NetworkAddress::IPv6(y)) => {
                assert(x@ =~= y@);
                assert(x == y);
            },
            (NetworkAddress::Mac(x), NetworkAddress::Mac(y)) => {
                assert(x@ =~= y@);
                assert(x == y);
            },
            _ => {},
        }
    }
}

fn slice_less(x: &[u8], y: &[u8]) -> (r: bool)
    requires
        x@.len() == y@.len(),
    ensures
        r == bytes_less(x@, y@),
{
    let mut i: usize = 0;
    while i < x.len()
        invariant
            x@.len() == y@.len(),
            i <= x@.len(),
            forall|j: int| 0 <= j < i ==> #[trigger] x@[j] == y@[j],
        decreases x@.len() - i,
    {
        if x[i] != y[i] {
            proof {
                if x@[i as int] > y@[i as int] {
                    if bytes_less(x@, y@) {
                        let k = choose|k: int| 0 <= k < x@.len() && k < y@.len() && x@[k] < y@[k] && forall|j: int|
                            0 <= j < k ==> #[trigger] x@[j] == y@[j];
                        if k > i {
                            assert(x@[i as int] == y@[i as int]);
                        }
                    }
                }
            }
            return x[i] < y[i];
        }
        i = i + 1;
    }
    assert(!bytes_less(x@, y@));
    false
}

/// Whether `a` comes before `b` in the order of addresses.
pub fn address_less(a: &NetworkAddress, b: &NetworkAddress) -> (r: bool)
    ensures
        r == addr_less(*a, *b),
{
    match (a, b) {
        (NetworkAddress::IPv4(x), NetworkAddress::IPv4(y)) => slice_less(x, y),
        (NetworkAddress::IPv6(x), NetworkAddress::IPv6(y)) => slice_less(x, y),
        (NetworkAddress::Mac(x), NetworkAddress::Mac(y)) => slice_less(x, y),
        (NetworkAddress::IPv4(_), _) => true,
        (NetworkAddress::IPv6(_), NetworkAddress::Mac(_)) => true,
        _ => false,
    }
}

/// The entries are in strictly increasing order of IP address.
pub open spec fn sorted_by_ip(s: Seq<ArpEntry>) -> bool {
    forall|i: int, j: int| 0 <= i < j < s.len() ==> addr_less(#[trigger] s[i].ip_address, #[trigger] s[j].ip_address)
}

/// Whether some entry has IP address `ip`.
pub open spec fn has_ip(s: Seq<ArpEntry>, ip: NetworkAddress) -> bool {
    exists|i: int| 0 <= i < s.len() && (#[trigger] s[i]).ip_address == ip
}

/// `r` is `s` with `e` inserted where the order of IP addresses puts it.
pub open spec fn inserted_in_order(s: Seq<ArpEntry>, e: ArpEntry, r: Seq<ArpEntry>) -> bool {
    sorted_by_ip(r) && exists|p: int| 0 <= p <= s.len() && r == s.insert(p, e)
}

/// Entry `i` is the dynamic entry used longest ago, the first such in
/// order of IP address.
pub open spec fn is_oldest_dynamic(s: Seq<ArpEntry>, i: int) -> bool {
    &&& 0 <= i < s.len()
    &&& !s[i].is_static
    &&& forall|j: int| 0 <= j < s.len() && !s[j].is_static ==> s[i].last_used <= (#[trigger] s[j]).last_used
    &&& forall|j: int| 0 <= j < i && !s[j].is_static ==> s[i].last_used < (#[trigger] s[j]).last_used
}

/// `s` with its oldest dynamic entry removed, if it has one.
pub open spec fn evict_oldest_spec(s: Seq<ArpEntry>) -> Seq<ArpEntry> {
    if exists|i: int| is_oldest_dynamic(s, i) {
        s.remove(choose|i: int| is_oldest_dynamic(s, i))
    } else {
        s
    }
}

/// How many entries satisfy `p`.
pub open spec fn count_entries(s: Seq<ArpEntry>, p: spec_fn(ArpEntry) -> bool) -> nat {
    s.filter(p).len()
}

/// The statistics with the per-state counts taken from `s`.
pub open spec fn recount(stats: ArpTableStats, s: Seq<ArpEntry>) -> ArpTableStats {
    ArpTableStats {
        total_entries: s.len() as usize,
        static_entries: count_entries(s, |e: ArpEntry| e.is_static) as usize,
        reachable_entries: count_entries(s, |e: ArpEntry| e.state == ArpEntryState::Reachable) as usize,
        stale_entries: count_entries(s, |e: ArpEntry| e.state == ArpEntryState::Stale) as usize,
        incomplete_entries: count_entries(s, |e: ArpEntry| e.state == ArpEntryState::Incomplete) as usize,
        failed_entries: count_entries(s, |e: ArpEntry| e.state == ArpEntryState::Failed) as usize,
        ..stats
    }
}

/// Whether a hardware address starts with a trusted prefix.
pub open spec fn trusted_mac(prefixes: Seq<[u8; 3]>, mac: NetworkAddress) -> bool {
    match mac {
        NetworkAddress::Mac(b) => exists|i: int| 0 <= i < prefixes.len() && (#[trigger] prefixes[i])@ == b@.subrange(0, 3),
        _ => false,
    }
}

/// The entry for `ip` knows a hardware address other than `mac`.
pub open spec fn mac_conflict(s: Seq<ArpEntry>, ip: NetworkAddress, mac: NetworkAddress) -> bool {
    exists|i: int|
        0 <= i < s.len() && (#[trigger] s[i]).ip_address == ip && (s[i].mac_address matches Some(m) && m != mac)
}

/// The ARP table: entries in order of IP address, statistics and
/// configuration.
pub struct ArpTable {
    entries: Vec<ArpEntry>,
    stats: ArpTableStats,
    config: ArpConfig,
}

impl ArpTable {
    /// The entries, in order of IP address.
    pub closed spec fn entries_spec(&self) -> Seq<ArpEntry> {
        self.entries@
    }

    /// The statistics as kept.
    pub closed spec fn stats_spec(&self) -> ArpTableStats {
        self.stats
    }

    /// The configuration's maximum age.
    pub closed spec fn max_age_spec(&self) -> u64 {
        self.config.max_age_ms
    }

    /// The configuration's maximum number of entries.
    pub closed spec fn max_entries_spec(&self) -> usize {
        self.config.max_entries
    }

    /// Whether address changes are checked.
    pub closed spec fn security_spec(&self) -> bool {
        self.config.security_enabled
    }

    /// Whether gratuitous ARP is taken.
    pub closed spec fn gratuitous_spec(&self) -> bool {
        self.config.allow_gratuitous
    }

    /// The trusted hardware address prefixes.
    pub closed spec fn prefixes_spec(&self) -> Seq<[u8; 3]> {
        self.config.trusted_prefixes@
    }

    /// The entries are in order and the entry counter covers them.
    pub closed spec fn wf(&self) -> bool {
        sorted_by_ip(self.entries@) && self.stats.total_entries >= self.entries@.len()
    }

    /// The clock is not behind any entry's times, and twice the maximum age
    /// fits in 64 bits.
    pub open spec fn clock_ok(&self, now: u64) -> bool {
        &&& forall|i: int| 0 <= i < self.entries_spec().len() ==> times_before(#[trigger] self.entries_spec()[i], now)
        &&& self.max_age_spec() * 2 <= u64::MAX
    }

    /// An empty table with the default configuration.
    pub fn new() -> (r: Self)
        ensures
            r.wf(),
            r.entries_spec().len() == 0,
            r.stats_spec() == zero_arp_stats(),
            r.max_age_spec() == 300000,
            r.max_entries_spec() == 1024,
            r.security_spec(),
            r.gratuitous_spec(),
            r.prefixes_spec().len() == 0,
    {
        ArpTable { entries: Vec::new(), stats: ArpTableStats::default(), config: ArpConfig::default() }
    }

    /// An empty table with the given configuration.
    pub fn with_config(config: ArpConfig) -> (r: Self)
        ensures
            r.wf(),
            r.entries_spec().len() == 0,
            r.stats_spec() == zero_arp_stats(),
            r.max_age_spec() == config.max_age_ms,
            r.max_entries_spec() == config.max_entries,
            r.security_spec() == config.security_enabled,
            r.gratuitous_spec() == config.allow_gratuitous,
            r.prefixes_spec() == config.trusted_prefixes@,
    {
        ArpTable { entries: Vec::new(), stats: ArpTableStats::default(), config }
    }

    fn find(&self, ip: &NetworkAddress) -> (r: Option<usize>)
        ensures
            r is None <==> !has_ip(self.entries@, *ip),
            r matches Some(i) ==> i < self.entries@.len() && self.entries@[i as int].ip_address == *ip,
    {
        let mut i: usize = 0;
        while i < self.entries.len()
            invariant
                i <= self.entries@.len(),
                forall|j: int| 0 <= j < i ==> (#[trigger] self.entries@[j]).ip_address != *ip,
            decreases self.entries@.len() - i,
        {
            if self.entries[i].ip_address.same(ip) {
                return Some(i);
            }
            i = i + 1;
        }
        None
    }

    fn is_trusted_mac(&self, mac: &NetworkAddress) -> (r: bool)
        ensures
            r == trusted_mac(self.config.trusted_prefixes@, *mac),
    {
        broadcast use vstd::array::group_array_axioms;

        match mac {
            NetworkAddress::Mac(b) => {
                let prefix: [u8; 3] = [b[0], b[1], b[2]];
                assert(prefix@ =~= b@.subrange(0, 3));
                let mut i: usize = 0;
                while i < self.config.trusted_prefixes.len()
                    invariant
                        i <= self.config.trusted_prefixes@.len(),
                        prefix@ == b@.subrange(0, 3),
                        *mac == NetworkAddress::Mac(*b),
                        forall|j: int| 0 <= j < i ==> (#[trigger] self.config.trusted_prefixes@[j])@ != prefix@,
                    decreases self.config.trusted_prefixes@.len() - i,
                {
                    if bytes_eq(&self.config.trusted_prefixes[i], &prefix) {
                        assert(self.config.trusted_prefixes@[i as int]@ == b@.subrange(0, 3));
                        return true;
                    }
                    assert(self.config.trusted_prefixes@[i as int] != prefix);
                    assert(self.config.trusted_prefixes@[i as int]@ != prefix@) by {
                        if self.config.trusted_prefixes@[i as int]@ == prefix@ {
                            assert(self.config.trusted_prefixes@[i as int] =~= prefix);
                        }
                    }
                    i = i + 1;
                }
                false
            },
            _ => false,
        }
    }

    fn has_conflict(&self, ip: &NetworkAddress, mac: &NetworkAddress) -> (r: bool)
        requires
            sorted_by_ip(self.entries@),
        ensures
            r == mac_conflict(self.entries@, *ip, *mac),
    {
        match self.find(ip) {
            Some(i) => {
                proof {
                    assert forall|j: int| 0 <= j < self.entries@.len() && (#[trigger] self.entries@[j]).ip_address == *ip implies j == i by {
                        if j < i {
                            lemma_addr_less_total(self.entries@[j].ip_address, self.entries@[i as int].ip_address);
                        } else if j > i {
                            lemma_addr_less_total(self.entries@[i as int].ip_address, self.entries@[j].ip_address);
                        }
                    }
                }
                match self.entries[i].mac_address {
                    Some(m) => !m.same(mac),
                    None => false,
                }
            },
            None => false,
        }
    }

    /// Inserts an entry for an IP address the table does not have, in order.
    fn insert_sorted(&mut self, entry: ArpEntry)
        requires
            sorted_by_ip(old(self).entries@),
            !has_ip(old(self).entries@, entry.ip_address),
        ensures
            inserted_in_order(old(self).entries@, entry, final(self).entries@),
            final(self).stats == old(self).stats,
            final(self).config == old(self).config,
    {
        let ghost s = self.entries@;
        let ghost e = entry;
        let mut p: usize = 0;
        while p < self.entries.len()
            invariant
                self.entries@ == s,
                e == entry,
                p <= s.len(),
                forall|j: int| 0 <= j < p ==> addr_less((#[trigger] s[j]).ip_address, e.ip_address),
            ensures
                p <= s.len(),
                forall|j: int| 0 <= j < p ==> addr_less((#[trigger] s[j]).ip_address, e.ip_address),
                p < s.len() ==> !addr_less(s[p as int].ip_address, e.ip_address),
            decreases s.len() - p,
        {
            if !address_less(&self.entries[p].ip_address, &entry.ip_address) {
                break;
            }
            assert(addr_less(s[p as int].ip_address, e.ip_address));
            p = p + 1;
        }
        proof {
            if p < s.len() {
                lemma_addr_less_total(s[p as int].ip_address, e.ip_address);
                assert(s[p as int].ip_address != e.ip_address);
                assert(addr_less(e.ip_address, s[p as int].ip_address));
            }
        }
        self.entries.insert(p, entry);
        proof {
            let r = self.entries@;
            assert(r == s.insert(p as int, e));
            assert forall|i: int, j: int| 0 <= i < j < r.len() implies addr_less(#[trigger] r[i].ip_address, #[trigger] r[j].ip_address) by {
                if j < p {
                } else if i < p && j == p {
                } else if i < p && j > p {
                    assert(addr_less(s[i].ip_address, e.ip_address));
                    assert(addr_less(e.ip_address, s[p as int].ip_address));
                    if j - 1 > p {
                        assert(addr_less(s[p as int].ip_address, s[j - 1].ip_address));
                        lemma_addr_less_trans(e.ip_address, s[p as int].ip_address, s[j - 1].ip_address);
                    }
                    lemma_addr_less_trans(s[i].ip_address, e.ip_address, s[j - 1].ip_address);
                } else if i == p {
                    if j - 1 > p {
                        assert(addr_less(s[p as int].ip_address, s[j - 1].ip_address));
                        lemma_addr_less_trans(e.ip_address, s[p as int].ip_address, s[j - 1].ip_address);
                    }
                } else {
                    assert(addr_less(s[i - 1].ip_address, s[j - 1].ip_address));
                }
            }
            assert(inserted_in_order(s, e, r));
        }
    }

    /// Removes the dynamic entry used longest ago (the first in order of IP
    /// address among equals), if there is one.
    fn evict_oldest_entry(&mut self)
        requires
            sorted_by_ip(old(self).entries@),
        ensures
            sorted_by_ip(final(self).entries@),
            final(self).entries@ == evict_oldest_spec(old(self).entries@),
            final(self).stats == old(self).stats,
            final(self).config == old(self).config,
    {
        let ghost s = self.entries@;
        let mut best: Option<usize> = None;
        let mut i: usize = 0;
        while i < self.entries.len()
            invariant
                self.entries@ == s,
                i <= s.len(),
                best is None ==> forall|j: int| 0 <= j < i ==> (#[trigger] s[j]).is_static,
                best matches Some(b) ==> b < i && !s[b as int].is_static && (forall|j: int|
                    0 <= j < i && !s[j].is_static ==> s[b as int].last_used <= (#[trigger] s[j]).last_used) && (forall|
                    j: int,
                | 0 <= j < b && !s[j].is_static ==> s[b as int].last_used < (#[trigger] s[j]).last_used),
            decreases s.len() - i,
        {
            if !self.entries[i].is_static {
                match best {
                    Some(b) => {
                        if self.entries[i].last_used < self.entries[b].last_used {
                            best = Some(i);
                        }
                    },
                    None => {
                        best = Some(i);
                    },
                }
            }
            i = i + 1;
        }
        match best {
            Some(b) => {
                proof {
                    assert(is_oldest_dynamic(s, b as int));
                    let c = choose|c: int| is_oldest_dynamic(s, c);
                    if c < b {
                        assert(s[b as int].last_used < s[c].last_used);
                    } else if c > b {
                        assert(s[c].last_used < s[b as int].last_used);
                    }
                    assert(c == b);
                }
                self.entries.remove(b);
                proof {
                    let r = self.entries@;
                    assert forall|x: int, y: int| 0 <= x < y < r.len() implies addr_less(#[trigger] r[x].ip_address, #[trigger] r[y].ip_address) by {
                        let x0 = if x < b { x } else { x + 1 };
                        let y0 = if y < b { y } else { y + 1 };
                        assert(addr_less(s[x0].ip_address, s[y0].ip_address));
                    }
                }
            },
            None => {
                proof {
                    assert(!exists|c: int| is_oldest_dynamic(s, c));
                }
            },
        }
    }

    fn count_where_static(&self) -> (r: usize)
        ensures
            r == count_entries(self.entries@, |e: ArpEntry| e.is_static),
    {
        let ghost p = |e: ArpEntry| e.is_static;
        let mut n: usize = 0;
        let mut i: usize = 0;
        while i < self.entries.len()
            invariant
                i <= self.entries@.len(),
                n == self.entries@.subrange(0, i as int).filter(p).len(),
                p == (|e: ArpEntry| e.is_static),
            decreases self.entries@.len() - i,
        {
            proof {
                assert(self.entries@.subrange(0, i + 1).drop_last() =~= self.entries@.subrange(0, i as int));
                reveal(Seq::filter);
                self.entries@.subrange(0, i as int).lemma_filter_len(p);
            }
            if self.entries[i].is_static {
                n = n + 1;
            }
            i = i + 1;
        }
        assert(self.entries@.subrange(0, self.entries@.len() as int) =~= self.entries@);
        n
    }

    fn count_state(&self, state: ArpEntryState) -> (r: usize)
        ensures
            r == count_entries(self.entries@, |e: ArpEntry| e.state == state),
    {
        let ghost p = |e: ArpEntry| e.state == state;
        let mut n: usize = 0;
        let mut i: usize = 0;
        while i < self.entries.len()
            invariant
                i <= self.entries@.len(),
                n == self.entries@.subrange(0, i as int).filter(p).len(),
                p == (|e: ArpEntry| e.state == state),
            decreases self.entries@.len() - i,
        {
            proof {
                assert(self.entries@.subrange(0, i + 1).drop_last() =~= self.entries@.subrange(0, i as int));
                reveal(Seq::filter);
                self.entries@.subrange(0, i as int).lemma_filter_len(p);
            }
            if self.entries[i].state == state {
                n = n + 1;
            }
            i = i + 1;
        }
        assert(self.entries@.subrange(0, self.entries@.len() as int) =~= self.entries@);
        n
    }

    /// Recomputes the entry counts from the entries.
    fn update_state_stats(&mut self)
        ensures
            final(self).stats == recount(old(self).stats, old(self).entries@),
            final(self).entries == old(self).entries,
            final(self).config == old(self).config,
    {
        let total = self.entries.len();
        let st = self.count_where_static();
        let reachable = self.count_state(ArpEntryState::Reachable);
        let stale = self.count_state(ArpEntryState::Stale);
        let incomplete = self.count_state(ArpEntryState::Incomplete);
        let failed = self.count_state(ArpEntryState::Failed);
        self.stats.total_entries = total;
        self.stats.static_entries = st;
        self.stats.reachable_entries = reachable;
        self.stats.stale_entries = stale;
        self.stats.incomplete_entries = incomplete;
        self.stats.failed_entries = failed;
    }
}

/// The index of the entry for `ip`.
pub open spec fn ip_index(s: Seq<ArpEntry>, ip: NetworkAddress) -> int {
    choose|i: int| 0 <= i < s.len() && (#[trigger] s[i]).ip_address == ip
}

/// `e` marked as confirmed by a gratuitous ARP.
pub open spec fn verified_spec(e: ArpEntry) -> ArpEntry {
    ArpEntry { security_flags: ArpSecurityFlags { verified: true, ..e.security_flags }, ..e }
}

proof fn lemma_ip_index(s: Seq<ArpEntry>, ip: NetworkAddress, i: int)
    requires
        sorted_by_ip(s),
        0 <= i < s.len(),
        s[i].ip_address == ip,
    ensures
        ip_index(s, ip) == i,
{
    let k = ip_index(s, ip);
    if k < i {
        lemma_addr_less_total(s[k].ip_address, s[i].ip_address);
    } else if k > i {
        lemma_addr_less_total(s[i].ip_address, s[k].ip_address);
    }
}

proof fn lemma_update_sorted(s: Seq<ArpEntry>, i: int, e: ArpEntry)
    requires
        sorted_by_ip(s),
        0 <= i < s.len(),
        e.ip_address == s[i].ip_address,
    ensures
        sorted_by_ip(s.update(i, e)),
{
    let r = s.update(i, e);
    assert forall|a: int, b: int| 0 <= a < b < r.len() implies addr_less(#[trigger] r[a].ip_address, #[trigger] r[b].ip_address) by {
        assert(addr_less(s[a].ip_address, s[b].ip_address));
    }
}

/// Two tables have the same configuration.
pub open spec fn config_same(a: ArpTable, b: ArpTable) -> bool {
    &&& b.max_age_spec() == a.max_age_spec()
    &&& b.max_entries_spec() == a.max_entries_spec()
    &&& b.security_spec() == a.security_spec()
    &&& b.gratuitous_spec() == a.gratuitous_spec()
    &&& b.prefixes_spec() == a.prefixes_spec()
}

/// The table after `update_entry`.
pub open spec fn update_entry_post(a: ArpTable, b: ArpTable, ip: NetworkAddress, mac: NetworkAddress, interface: String, now: u64) -> bool {
        let s = a.entries_spec();
        let st = a.stats_spec();
        let violation = a.security_spec() && mac_conflict(s, ip, mac) && !trusted_mac(
            a.prefixes_spec(),
            mac,
        );
        let st1 = ArpTableStats {
            security_violations: if violation {
                (st.security_violations + 1) as u64
            } else {
                st.security_violations
            },
            ..st
        };
        &&& has_ip(s, ip) ==> b.entries_spec() == s.update(
            ip_index(s, ip),
            update_mac_spec(s[ip_index(s, ip)], mac, now),
        ) && b.stats_spec() == (ArpTableStats {
            replies_received: (st.replies_received + 1) as u64,
            ..st1
        })
        &&& !has_ip(s, ip) ==> inserted_in_order(
            if s.len() >= a.max_entries_spec() {
                evict_oldest_spec(s)
            } else {
                s
            },
            update_mac_spec(new_entry_spec(ip, interface, now), mac, now),
            b.entries_spec(),
        ) && b.stats_spec() == (ArpTableStats {
            total_entries: (st.total_entries + 1) as usize,
            ..st1
        })
}

/// The table and answer after `lookup`.
pub open spec fn lookup_post(a: ArpTable, b: ArpTable, ip: NetworkAddress, now: u64, r: Option<NetworkAddress>) -> bool {
        let s = a.entries_spec();
        let st = a.stats_spec();
        let i = ip_index(s, ip);
        let miss = !has_ip(s, ip) || expired_spec(s[i], a.max_age_spec(), now);
        &&& miss ==> r is None && b.entries_spec() == s && b.stats_spec() == (ArpTableStats {
            cache_misses: (st.cache_misses + 1) as u64,
            ..st
        })
        &&& !miss ==> r == s[i].mac_address && b.entries_spec() == s.update(
            i,
            mark_used_spec(s[i], now),
        ) && b.stats_spec() == (ArpTableStats { cache_hits: (st.cache_hits + 1) as u64, ..st })
}

/// The table after `add_static_entry`.
pub open spec fn add_static_post(a: ArpTable, b: ArpTable, ip: NetworkAddress, mac: NetworkAddress, interface: String, now: u64) -> bool {
        let s = a.entries_spec();
        let st = a.stats_spec();
        let e = static_entry_spec(ip, mac, interface, now);
        &&& has_ip(s, ip) ==> b.entries_spec() == s.update(ip_index(s, ip), e)
        &&& !has_ip(s, ip) ==> inserted_in_order(s, e, b.entries_spec())
        &&& b.stats_spec() == (ArpTableStats {
            total_entries: (st.total_entries + 1) as usize,
            static_entries: (st.static_entries + 1) as usize,
            ..st
        })
}

/// The table and answer after `remove_entry`.
pub open spec fn remove_post(a: ArpTable, b: ArpTable, ip: NetworkAddress, r: NetworkResult<()>) -> bool {
        let s = a.entries_spec();
        let st = a.stats_spec();
        &&& has_ip(s, ip) ==> r is Ok && b.entries_spec() == s.remove(ip_index(s, ip))
            && b.stats_spec() == (ArpTableStats {
            total_entries: (st.total_entries - 1) as usize,
            ..st
        })
        &&& !has_ip(s, ip) ==> r == Err::<(), NetworkError>(NetworkError::InvalidAddress)
            && b.entries_spec() == s && b.stats_spec() == st
}

/// The table and answer after `handle_gratuitous_arp`.
pub open spec fn gratuitous_post(a: ArpTable, b: ArpTable, ip: NetworkAddress, mac: NetworkAddress, interface: String, now: u64, r: NetworkResult<()>) -> bool {
        let s = a.entries_spec();
        let st = a.stats_spec();
        let st1 = ArpTableStats { gratuitous_arps: (st.gratuitous_arps + 1) as u64, ..st };
        let refused = a.security_spec() && mac_conflict(s, ip, mac);
        &&& !a.gratuitous_spec() ==> r == Err::<(), NetworkError>(NetworkError::NotSupported)
            && b.entries_spec() == s && b.stats_spec() == st
        &&& a.gratuitous_spec() && refused ==> r == Err::<(), NetworkError>(
            NetworkError::PermissionDenied,
        ) && b.entries_spec() == s && b.stats_spec() == (ArpTableStats {
            security_violations: (st.security_violations + 1) as u64,
            ..st1
        })
        &&& a.gratuitous_spec() && !refused && has_ip(s, ip) ==> r is Ok && b.entries_spec()
            == s.update(ip_index(s, ip), verified_spec(update_mac_spec(s[ip_index(s, ip)], mac, now)))
            && b.stats_spec() == st1
        &&& a.gratuitous_spec() && !refused && !has_ip(s, ip) ==> r is Ok && inserted_in_order(
            s,
            verified_spec(update_mac_spec(new_entry_spec(ip, interface, now), mac, now)),
            b.entries_spec(),
        ) && b.stats_spec() == (ArpTableStats {
            total_entries: (st.total_entries + 1) as usize,
            ..st1
        })
}

impl ArpTable {
    fn set_entry(&mut self, i: usize, e: ArpEntry)
        requires
            sorted_by_ip(old(self).entries@),
            i < old(self).entries@.len(),
            e.ip_address == old(self).entries@[i as int].ip_address,
        ensures
            final(self).entries@ == old(self).entries@.update(i as int, e),
            sorted_by_ip(final(self).entries@),
            final(self).stats == old(self).stats,
            final(self).config == old(self).config,
    {
        proof {
            lemma_update_sorted(self.entries@, i as int, e);
        }
        self.entries.set(i, e);
    }

    fn retain_marked(&mut self, marks: &Vec<bool>, Ghost(p): Ghost<spec_fn(ArpEntry) -> bool>)
        requires
            sorted_by_ip(old(self).entries@),
            marks@.len() == old(self).entries@.len(),
            forall|i: int| 0 <= i < marks@.len() ==> marks@[i] == p(#[trigger] old(self).entries@[i]),
        ensures
            final(self).entries@ == old(self).entries@.filter(p),
            sorted_by_ip(final(self).entries@),
            final(self).stats == old(self).stats,
            final(self).config == old(self).config,
    {
        let ghost s = self.entries@;
        let mut kept: Vec<ArpEntry> = Vec::new();
        let mut i: usize = 0;
        while i < self.entries.len()
            invariant
                self.entries@ == s,
                marks@.len() == s.len(),
                forall|j: int| 0 <= j < marks@.len() ==> marks@[j] == p(#[trigger] s[j]),
                sorted_by_ip(s),
                i <= s.len(),
                kept@ == s.subrange(0, i as int).filter(p),
                sorted_by_ip(kept@),
                forall|x: int| 0 <= x < kept@.len() ==> exists|j: int| 0 <= j < i && (#[trigger] kept@[x]) == s[j],
            decreases s.len() - i,
        {
            proof {
                assert(s.subrange(0, i + 1).drop_last() =~= s.subrange(0, i as int));
                reveal(Seq::filter);
            }
            if marks[i] {
                let ghost k0 = kept@;
                kept.push(self.entries[i].copy());
                proof {
                    assert forall|a: int, b: int| 0 <= a < b < kept@.len() implies addr_less(#[trigger] kept@[a].ip_address, #[trigger] kept@[b].ip_address) by {
                        if b == k0.len() {
                            let j = choose|j: int| 0 <= j < i && (#[trigger] k0[a]) == s[j];
                            assert(addr_less(s[j].ip_address, s[i as int].ip_address));
                        } else {
                            assert(addr_less(k0[a].ip_address, k0[b].ip_address));
                        }
                    }
                    assert forall|x: int| 0 <= x < kept@.len() implies exists|j: int| 0 <= j < i + 1 && (#[trigger] kept@[x]) == s[j] by {
                        if x == k0.len() {
                            assert(kept@[x] == s[i as int]);
                        } else {
                            let j = choose|j: int| 0 <= j < i && (#[trigger] k0[x]) == s[j];
                            assert(kept@[x] == s[j]);
                        }
                    }
                }
            }
            i = i + 1;
        }
        assert(s.subrange(0, s.len() as int) =~= s);
        self.entries = kept;
    }

    /// Records that `ip` is at `mac` (seen on `interface` at `now`). An
    /// existing entry learns the address and counts a reply; otherwise a new
    /// entry is added, after evicting the oldest dynamic entry when the
    /// table is full. With security checks on, a changed address from an
    /// untrusted vendor counts as a security violation.
    pub fn update_entry(&mut self, ip: NetworkAddress, mac: NetworkAddress, interface: String, now: u64) -> (r:
        NetworkResult<()>)
        requires
            old(self).wf(),
            old(self).stats_spec().security_violations < u64::MAX,
            old(self).stats_spec().replies_received < u64::MAX,
            old(self).stats_spec().total_entries < usize::MAX,
        ensures
            final(self).wf(),
            r is Ok,
            config_same(*old(self), *final(self)),
            update_entry_post(*old(self), *final(self), ip, mac, interface, now),
    {
        if self.config.security_enabled {
            if self.has_conflict(&ip, &mac) && !self.is_trusted_mac(&mac) {
                self.stats.security_violations = self.stats.security_violations + 1;
            }
        }
        match self.find(&ip) {
            Some(i) => {
                proof {
                    lemma_ip_index(self.entries@, ip, i as int);
                }
                let mut e = self.entries[i].copy();
                e.update_mac(mac, now);
                self.set_entry(i, e);
                self.stats.replies_received = self.stats.replies_received + 1;
            },
            None => {
                if self.entries.len() >= self.config.max_entries {
                    self.evict_oldest_entry();
                }
                proof {
                    let s1 = self.entries@;
                    if has_ip(s1, ip) {
                        let j = choose|j: int| 0 <= j < s1.len() && (#[trigger] s1[j]).ip_address == ip;
                        let s = old(self).entries@;
                        let c = choose|c: int| is_oldest_dynamic(s, c);
                        let j0 = if j < c { j } else { j + 1 };
                        assert(s[j0].ip_address == ip);
                    }
                }
                let mut e = ArpEntry::new(ip, interface, now);
                e.update_mac(mac, now);
                self.insert_sorted(e);
                self.stats.total_entries = self.stats.total_entries + 1;
            },
        }
        Ok(())
    }

    /// Looks up the hardware address of `ip` at `now`. An expired entry
    /// counts as a miss; otherwise the entry is marked used and counts as a
    /// hit.
    pub fn lookup(&mut self, ip: &NetworkAddress, now: u64) -> (r: Option<NetworkAddress>)
        requires
            old(self).wf(),
            old(self).clock_ok(now),
            old(self).stats_spec().cache_hits < u64::MAX,
            old(self).stats_spec().cache_misses < u64::MAX,
            forall|i: int| 0 <= i < old(self).entries_spec().len() ==> (#[trigger] old(self).entries_spec()[i]).use_count < u64::MAX,
        ensures
            final(self).wf(),
            config_same(*old(self), *final(self)),
            lookup_post(*old(self), *final(self), *ip, now, r),
    {
        match self.find(ip) {
            Some(i) => {
                proof {
                    lemma_ip_index(self.entries@, *ip, i as int);
                    assert(times_before(self.entries@[i as int], now));
                }
                if self.entries[i].is_expired(self.config.max_age_ms, now) {
                    self.stats.cache_misses = self.stats.cache_misses + 1;
                    return None;
                }
                let mut e = self.entries[i].copy();
                e.mark_used(now);
                let mac = e.mac_address;
                self.set_entry(i, e);
                self.stats.cache_hits = self.stats.cache_hits + 1;
                mac
            },
            None => {
                self.stats.cache_misses = self.stats.cache_misses + 1;
                None
            },
        }
    }

    /// Adds a static entry, replacing any entry for `ip`.
    pub fn add_static_entry(&mut self, ip: NetworkAddress, mac: NetworkAddress, interface: String, now: u64) -> (r:
        NetworkResult<()>)
        requires
            old(self).wf(),
            old(self).stats_spec().total_entries < usize::MAX,
            old(self).stats_spec().static_entries < usize::MAX,
        ensures
            final(self).wf(),
            r is Ok,
            config_same(*old(self), *final(self)),
            add_static_post(*old(self), *final(self), ip, mac, interface, now),
    {
        let e = ArpEntry::new_static(ip, mac, interface, now);
        match self.find(&ip) {
            Some(i) => {
                proof {
                    lemma_ip_index(self.entries@, ip, i as int);
                }
                self.set_entry(i, e);
            },
            None => {
                self.insert_sorted(e);
            },
        }
        self.stats.total_entries = self.stats.total_entries + 1;
        self.stats.static_entries = self.stats.static_entries + 1;
        Ok(())
    }

    /// Removes the entry for `ip`; `InvalidAddress` when there is none.
    pub fn remove_entry(&mut self, ip: &NetworkAddress) -> (r: NetworkResult<()>)
        requires
            old(self).wf(),
        ensures
            final(self).wf(),
            config_same(*old(self), *final(self)),
            remove_post(*old(self), *final(self), *ip, r),
    {
        match self.find(ip) {
            Some(i) => {
                let ghost s = self.entries@;
                proof {
                    lemma_ip_index(s, *ip, i as int);
                }
                self.entries.remove(i);
                proof {
                    let r = self.entries@;
                    assert forall|x: int, y: int| 0 <= x < y < r.len() implies addr_less(#[trigger] r[x].ip_address, #[trigger] r[y].ip_address) by {
                        let x0 = if x < i { x } else { x + 1 };
                        let y0 = if y < i { y } else { y + 1 };
                        assert(addr_less(s[x0].ip_address, s[y0].ip_address));
                    }
                }
                self.stats.total_entries = self.stats.total_entries - 1;
                Ok(())
            },
            None => Err(NetworkError::InvalidAddress),
        }
    }

    /// Copies of all entries, in order of IP address.
    pub fn get_all_entries(&self) -> (r: Vec<ArpEntry>)
        ensures
            r@ == self.entries_spec(),
    {
        let mut out: Vec<ArpEntry> = Vec::new();
        let mut i: usize = 0;
        while i < self.entries.len()
            invariant
                i <= self.entries@.len(),
                out@ == self.entries@.subrange(0, i as int),
            decreases self.entries@.len() - i,
        {
            out.push(self.entries[i].copy());
            assert(out@ =~= self.entries@.subrange(0, i + 1));
            i = i + 1;
        }
        assert(self.entries@.subrange(0, self.entries@.len() as int) =~= self.entries@);
        out
    }

    /// Removes the entries expired at `now` and recounts the statistics.
    pub fn age_entries(&mut self, now: u64)
        requires
            old(self).wf(),
            old(self).clock_ok(now),
        ensures
            final(self).wf(),
            final(self).entries_spec() == old(self).entries_spec().filter(
                |e: ArpEntry| !expired_spec(e, old(self).max_age_spec(), now),
            ),
            final(self).stats_spec() == recount(old(self).stats_spec(), final(self).entries_spec()),
            config_same(*old(self), *final(self)),
    {
        let ghost p = |e: ArpEntry| !expired_spec(e, self.config.max_age_ms, now);
        assert forall|j: int| 0 <= j < self.entries@.len() implies times_before(#[trigger] self.entries@[j], now) by {
            assert(times_before(self.entries_spec()[j], now));
        }
        let mut marks: Vec<bool> = Vec::new();
        let mut i: usize = 0;
        while i < self.entries.len()
            invariant
                i <= self.entries@.len(),
                marks@.len() == i,
                self.config.max_age_ms * 2 <= u64::MAX,
                forall|j: int| 0 <= j < self.entries@.len() ==> times_before(#[trigger] self.entries@[j], now),
                p == (|e: ArpEntry| !expired_spec(e, self.config.max_age_ms, now)),
                forall|j: int| 0 <= j < i ==> marks@[j] == p(#[trigger] self.entries@[j]),
            decreases self.entries@.len() - i,
        {
            assert(times_before(self.entries@[i as int], now));
            let expired = self.entries[i].is_expired(self.config.max_age_ms, now);
            marks.push(!expired);
            i = i + 1;
        }
        self.retain_marked(&marks, Ghost(p));
        self.update_state_stats();
    }

    /// Takes a gratuitous ARP announcing `ip` at `mac`. `NotSupported` when
    /// gratuitous ARP is off; with security checks on, an entry for `ip`
    /// that knows another address makes it a security violation refused with
    /// `PermissionDenied`. Otherwise the entry is updated or added (without
    /// eviction) and marked verified.
    pub fn handle_gratuitous_arp(&mut self, ip: NetworkAddress, mac: NetworkAddress, interface: String, now: u64) -> (r:
        NetworkResult<()>)
        requires
            old(self).wf(),
            old(self).stats_spec().gratuitous_arps < u64::MAX,
            old(self).stats_spec().security_violations < u64::MAX,
            old(self).stats_spec().total_entries < usize::MAX,
        ensures
            final(self).wf(),
            config_same(*old(self), *final(self)),
            gratuitous_post(*old(self), *final(self), ip, mac, interface, now, r),
    {
        if !self.config.allow_gratuitous {
            return Err(NetworkError::NotSupported);
        }
        self.stats.gratuitous_arps = self.stats.gratuitous_arps + 1;
        if self.config.security_enabled {
            if self.has_conflict(&ip, &mac) {
                self.stats.security_violations = self.stats.security_violations + 1;
                return Err(NetworkError::PermissionDenied);
            }
        }
        match self.find(&ip) {
            Some(i) => {
                proof {
                    lemma_ip_index(self.entries@, ip, i as int);
                }
                let mut e = self.entries[i].copy();
                e.update_mac(mac, now);
                e.security_flags.verified = true;
                self.set_entry(i, e);
            },
            None => {
                let mut e = ArpEntry::new(ip, interface, now);
                e.update_mac(mac, now);
                e.security_flags.verified = true;
                self.insert_sorted(e);
                self.stats.total_entries = self.stats.total_entries + 1;
            },
        }
        Ok(())
    }

    /// Recounts the entry statistics and returns them.
    pub fn get_stats(&mut self) -> (r: ArpTableStats)
        requires
            old(self).wf(),
        ensures
            final(self).wf(),
            r == recount(old(self).stats_spec(), old(self).entries_spec()),
            final(self).stats_spec() == r,
            final(self).entries_spec() == old(self).entries_spec(),
            config_same(*old(self), *final(self)),
    {
        self.update_state_stats();
        self.stats
    }

    /// Removes every dynamic entry and recounts the statistics.
    pub fn clear_dynamic_entries(&mut self)
        requires
            old(self).wf(),
        ensures
            final(self).wf(),
            final(self).entries_spec() == old(self).entries_spec().filter(|e: ArpEntry| e.is_static),
            final(self).stats_spec() == recount(old(self).stats_spec(), final(self).entries_spec()),
            config_same(*old(self), *final(self)),
    {
        let ghost p = |e: ArpEntry| e.is_static;
        let mut marks: Vec<bool> = Vec::new();
        let mut i: usize = 0;
        while i < self.entries.len()
            invariant
                i <= self.entries@.len(),
                marks@.len() == i,
                p == (|e: ArpEntry| e.is_static),
                forall|j: int| 0 <= j < i ==> marks@[j] == p(#[trigger] self.entries@[j]),
            decreases self.entries@.len() - i,
        {
            marks.push(self.entries[i].is_static);
            i = i + 1;
        }
        self.retain_marked(&marks, Ghost(p));
        self.update_state_stats();
    }
}

/// Records that `ip` is at `mac`, as `ArpTable::update_entry` does.
pub fn update_arp_entry(
    table: &mut ArpTable,
    ip: NetworkAddress,
    mac: NetworkAddress,
    interface: String,
    now: u64,
) -> (r: NetworkResult<()>)
    requires
        old(table).wf(),
        old(table).stats_spec().security_violations < u64::MAX,
        old(table).stats_spec().replies_received < u64::MAX,
        old(table).stats_spec().total_entries < usize::MAX,
    ensures
        final(table).wf(),
        r is Ok,
        config_same(*old(table), *final(table)),
        update_entry_post(*old(table), *final(table), ip, mac, interface, now),
{
    table.update_entry(ip, mac, interface, now)
}

/// Looks up the hardware address of `ip`, as `ArpTable::lookup` does.
pub fn lookup_arp(table: &mut ArpTable, ip: &NetworkAddress, now: u64) -> (r: Option<NetworkAddress>)
    requires
        old(table).wf(),
        old(table).clock_ok(now),
        old(table).stats_spec().cache_hits < u64::MAX,
        old(table).stats_spec().cache_misses < u64::MAX,
        forall|i: int| 0 <= i < old(table).entries_spec().len() ==> (#[trigger] old(table).entries_spec()[i]).use_count < u64::MAX,
    ensures
        final(table).wf(),
        config_same(*old(table), *final(table)),
        lookup_post(*old(table), *final(table), *ip, now, r),
{
    table.lookup(ip, now)
}

/// Adds a static entry, as `ArpTable::add_static_entry` does.
pub fn add_static_arp(
    table: &mut ArpTable,
    ip: NetworkAddress,
    mac: NetworkAddress,
    interface: String,
    now: u64,
) -> (r: NetworkResult<()>)
    requires
        old(table).wf(),
        old(table).stats_spec().total_entries < usize::MAX,
        old(table).stats_spec().static_entries < usize::MAX,
    ensures
        final(table).wf(),
        r is Ok,
        config_same(*old(table), *final(table)),
        add_static_post(*old(table), *final(table), ip, mac, interface, now),
{
    table.add_static_entry(ip, mac, interface, now)
}

/// Removes the entry for `ip`, as `ArpTable::remove_entry` does.
pub fn remove_arp_entry(table: &mut ArpTable, ip: &NetworkAddress) -> (r: NetworkResult<()>)
    requires
        old(table).wf(),
    ensures
        final(table).wf(),
        config_same(*old(table), *final(table)),
        remove_post(*old(table), *final(table), *ip, r),
{
    table.remove_entry(ip)
}

/// Copies of all entries, in order of IP address.
pub fn get_arp_table(table: &ArpTable) -> (r: Vec<ArpEntry>)
    ensures
        r@ == table.entries_spec(),
{
    table.get_all_entries()
}

/// Removes the entries expired at `now` and recounts the statistics.
pub fn age_arp_table(table: &mut ArpTable, now: u64)
    requires
        old(table).wf(),
        old(table).clock_ok(now),
    ensures
        final(table).wf(),
        config_same(*old(table), *final(table)),
        final(table).entries_spec() == old(table).entries_spec().filter(
            |e: ArpEntry| !expired_spec(e, old(table).max_age_spec(), now),
        ),
        final(table).stats_spec() == recount(old(table).stats_spec(), final(table).entries_spec()),
{
    table.age_entries(now)
}

/// Takes a gratuitous ARP, as `ArpTable::handle_gratuitous_arp` does.
pub fn handle_gratuitous_arp(
    table: &mut ArpTable,
    ip: NetworkAddress,
    mac: NetworkAddress,
    interface: String,
    now: u64,
) -> (r: NetworkResult<()>)
    requires
        old(table).wf(),
        old(table).stats_spec().gratuitous_arps < u64::MAX,
        old(table).stats_spec().security_violations < u64::MAX,
        old(table).stats_spec().total_entries < usize::MAX,
    ensures
        final(table).wf(),
        config_same(*old(table), *final(table)),
        gratuitous_post(*old(table), *final(table), ip, mac, interface, now, r),
{
    table.handle_gratuitous_arp(ip, mac, interface, now)
}

/// Recounts the entry statistics and returns them.
pub fn get_arp_stats(table: &mut ArpTable) -> (r: ArpTableStats)
    requires
        old(table).wf(),
    ensures
        final(table).wf(),
        r == recount(old(table).stats_spec(), old(table).entries_spec()),
        final(table).stats_spec() == r,
        final(table).entries_spec() == old(table).entries_spec(),
        config_same(*old(table), *final(table)),
{
    table.get_stats()
}

/// Removes every dynamic entry and recounts the statistics.
pub fn clear_arp_table(table: &mut ArpTable)
    requires
        old(table).wf(),
    ensures
        final(table).wf(),
        config_same(*old(table), *final(table)),
        final(table).entries_spec() == old(table).entries_spec().filter(|e: ArpEntry| e.is_static),
        final(table).stats_spec() == recount(old(table).stats_spec(), final(table).entries_spec()),
{
    table.clear_dynamic_entries()
}

/// Starts the ARP subsystem; the table needs no set-up, so this succeeds.
pub fn init() -> (r: NetworkResult<()>)
    ensures
        r is Ok,
{
    Ok(())
}

/// The periodic clean-up: ages the table at `now`.
pub fn cleanup(table: &mut ArpTable, now: u64)
    requires
        old(table).wf(),
        old(table).clock_ok(now),
    ensures
        final(table).wf(),
        config_same(*old(table), *final(table)),
        final(table).entries_spec() == old(table).entries_spec().filter(
            |e: ArpEntry| !expired_spec(e, old(table).max_age_spec(), now),
        ),
        final(table).stats_spec() == recount(old(table).stats_spec(), final(table).entries_spec()),
{
    age_arp_table(table, now)
}

/// A network interface as ARP sees it: its hardware address and its IP
/// addresses.
#[derive(Debug, Clone)]
pub struct ArpInterface {
    pub mac_address: NetworkAddress,
    pub ip_addresses: Vec<NetworkAddress>,
}

/// An ARP reply to send: from our hardware and IP address to the asker's.
#[derive(Debug, Clone, Copy, PartialEq, Eq)]
pub struct ArpReply {
    pub our_mac: NetworkAddress,
    pub our_ip: NetworkAddress,
    pub target_mac: NetworkAddress,
    pub target_ip: NetworkAddress,
}

/// Takes an ARP request: the table learns the sender, and when the target
/// address is one of the receiving interface's, the reply to send is
/// returned.
pub fn process_arp_request(
    table: &mut ArpTable,
    sender_ip: NetworkAddress,
    sender_mac: NetworkAddress,
    target_ip: NetworkAddress,
    interface: String,
    iface: Option<&ArpInterface>,
    now: u64,
) -> (r: NetworkResult<Option<ArpReply>>)
    requires
        old(table).wf(),
        old(table).stats_spec().security_violations < u64::MAX,
        old(table).stats_spec().replies_received < u64::MAX,
        old(table).stats_spec().total_entries < usize::MAX,
    ensures
        final(table).wf(),
        config_same(*old(table), *final(table)),
        update_entry_post(*old(table), *final(table), sender_ip, sender_mac, interface, now),
        match iface {
            Some(i) => {
                if i.ip_addresses@.contains(target_ip) {
                    r == Ok::<Option<ArpReply>, NetworkError>(
                        Some(
                            ArpReply {
                                our_mac: i.mac_address,
                                our_ip: target_ip,
                                target_mac: sender_mac,
                                target_ip: sender_ip,
                            },
                        ),
                    )
                } else {
                    r == Ok::<Option<ArpReply>, NetworkError>(None)
                }
            },
            None => r == Ok::<Option<ArpReply>, NetworkError>(None),
        },
{
    let _ = table.update_entry(sender_ip, sender_mac, interface, now);
    match iface {
        Some(i) => {
            if contains_address(&i.ip_addresses, &target_ip) {
                Ok(
                    Some(
                        ArpReply {
                            our_mac: i.mac_address,
                            our_ip: target_ip,
                            target_mac: sender_mac,
                            target_ip: sender_ip,
                        },
                    ),
                )
            } else {
                Ok(None)
            }
        },
        None => Ok(None),
    }
}

/// Whether `a` is one of `v`.
fn contains_address(v: &Vec<NetworkAddress>, a: &NetworkAddress) -> (r: bool)
    ensures
        r == v@.contains(*a),
{
    let mut k: usize = 0;
    while k < v.len()
        invariant
            k <= v@.len(),
            forall|j: int| 0 <= j < k ==> v@[j] != *a,
        decreases v@.len() - k,
    {
        if v[k].same(a) {
            assert(v@[k as int] == *a);
            return true;
        }
        k = k + 1;
    }
    false
}

/// Takes an ARP reply: the table learns the sender.
pub fn process_arp_reply(
    table: &mut ArpTable,
    sender_ip: NetworkAddress,
    sender_mac: NetworkAddress,
    interface: String,
    now: u64,
) -> (r: NetworkResult<()>)
    requires
        old(table).wf(),
        old(table).stats_spec().security_violations < u64::MAX,
        old(table).stats_spec().replies_received < u64::MAX,
        old(table).stats_spec().total_entries < usize::MAX,
    ensures
        final(table).wf(),
        r is Ok,
        config_same(*old(table), *final(table)),
        update_entry_post(*old(table), *final(table), sender_ip, sender_mac, interface, now),
{
    table.update_entry(sender_ip, sender_mac, interface, now)
}

/// The Ethernet frame of an ARP request (RFC 826) from hardware address
/// `mac` and IPv4 address `sender` asking for `target`: broadcast
/// destination, type 0x0806, Ethernet/IPv4 operation 1, unknown target
/// hardware address.
pub open spec fn arp_request_frame(mac: Seq<u8>, sender: Seq<u8>, target: Seq<u8>) -> Seq<u8> {
    seq![0xFFu8, 0xFF, 0xFF, 0xFF, 0xFF, 0xFF] + mac + seq![0x08u8, 0x06] + seq![
        0x00u8,
        0x01,
        0x08,
        0x00,
        6,
        4,
        0x00,
        0x01,
    ] + mac + sender + seq![0u8, 0, 0, 0, 0, 0] + target
}

/// The table part of an ARP request for `target_ip`: an incomplete entry is
/// added when there is none, and the request is counted.
pub open spec fn request_post(a: ArpTable, b: ArpTable, target_ip: NetworkAddress, interface: String, now: u64) -> bool {
    let s = a.entries_spec();
    let st = a.stats_spec();
    &&& has_ip(s, target_ip) ==> b.entries_spec() == s && b.stats_spec() == (ArpTableStats {
        requests_sent: (st.requests_sent + 1) as u64,
        ..st
    })
    &&& !has_ip(s, target_ip) ==> inserted_in_order(s, new_entry_spec(target_ip, interface, now), b.entries_spec())
        && b.stats_spec() == (ArpTableStats {
        total_entries: (st.total_entries + 1) as usize,
        incomplete_entries: (st.incomplete_entries + 1) as usize,
        requests_sent: (st.requests_sent + 1) as u64,
        ..st
    })
}

/// Prepares an ARP request for `target_ip` on `interface`, whose hardware
/// and IP addresses `iface` gives: the table gets an incomplete entry and
/// counts the request, then the frame to broadcast is built from the
/// interface's hardware address and first IP address. `InvalidAddress`
/// without an interface, without an IP address or with a hardware address
/// that is not an Ethernet one; `NotSupported` when either IP address is
/// not IPv4.
pub fn send_arp_request(
    table: &mut ArpTable,
    target_ip: NetworkAddress,
    interface: String,
    iface: Option<&ArpInterface>,
    now: u64,
) -> (r: NetworkResult<Vec<u8>>)
    requires
        old(table).wf(),
        old(table).stats_spec().total_entries < usize::MAX,
        old(table).stats_spec().incomplete_entries < usize::MAX,
        old(table).stats_spec().requests_sent < u64::MAX,
    ensures
        final(table).wf(),
        config_same(*old(table), *final(table)),
        request_post(*old(table), *final(table), target_ip, interface, now),
        match iface {
            None => r == Err::<Vec<u8>, NetworkError>(NetworkError::InvalidAddress),
            Some(i) => if i.ip_addresses@.len() == 0 {
                r == Err::<Vec<u8>, NetworkError>(NetworkError::InvalidAddress)
            } else {
                match (i.mac_address, i.ip_addresses@[0], target_ip) {
                    (NetworkAddress::Mac(m), NetworkAddress::IPv4(sip), NetworkAddress::IPv4(tip)) => r matches Ok(
                        frame,
                    ) && frame@ == arp_request_frame(m@, sip@, tip@),
                    (NetworkAddress::Mac(_), NetworkAddress::IPv4(_), _) => r == Err::<Vec<u8>, NetworkError>(
                        NetworkError::NotSupported,
                    ),
                    (NetworkAddress::Mac(_), _, _) => r == Err::<Vec<u8>, NetworkError>(NetworkError::NotSupported),
                    _ => r == Err::<Vec<u8>, NetworkError>(NetworkError::InvalidAddress),
                }
            },
        },
{
    match table.find(&target_ip) {
        Some(_) => {},
        None => {
            let e = ArpEntry::new(target_ip, interface, now);
            table.insert_sorted(e);
            table.stats.total_entries = table.stats.total_entries + 1;
            table.stats.incomplete_entries = table.stats.incomplete_entries + 1;
        },
    }
    table.stats.requests_sent = table.stats.requests_sent + 1;
    let i = match iface {
        Some(i) => i,
        None => {
            return Err(NetworkError::InvalidAddress);
        },
    };
    if i.ip_addresses.len() == 0 {
        return Err(NetworkError::InvalidAddress);
    }
    let sender_mac = i.mac_address;
    let sender_ip = i.ip_addresses[0];
    let mac = match sender_mac {
        NetworkAddress::Mac(m) => m,
        _ => {
            return Err(NetworkError::InvalidAddress);
        },
    };
    let mut frame: Vec<u8> = Vec::new();
    push_all(&mut frame, &[0xFFu8, 0xFF, 0xFF, 0xFF, 0xFF, 0xFF]);
    push_all(&mut frame, &mac);
    push_all(&mut frame, &[0x08u8, 0x06]);
    push_all(&mut frame, &[0x00u8, 0x01, 0x08, 0x00, 6, 4, 0x00, 0x01]);
    push_all(&mut frame, &mac);
    let sip = match sender_ip {
        NetworkAddress::IPv4(b) => b,
        _ => {
            return Err(NetworkError::NotSupported);
        },
    };
    push_all(&mut frame, &sip);
    push_all(&mut frame, &[0u8, 0, 0, 0, 0, 0]);
    let tip = match target_ip {
        NetworkAddress::IPv4(b) => b,
        _ => {
            return Err(NetworkError::NotSupported);
        },
    };
    push_all(&mut frame, &tip);
    assert(frame@ =~= arp_request_frame(mac@, sip@, tip@));
    Ok(frame)
}

/// A learned address stays valid for `max_age` ms: an entry that learned
/// `mac` at time `t` (made reachable by `update_mac_spec`) is not expired
/// at any time from `t` up to `t + max_age`, and is expired at any later
/// time, unless it is static, which never expires. More generally, a
/// dynamic reachable entry is expired exactly when more than `max_age` ms
/// have passed since its last update.
pub proof fn lemma_learned_entry_lifetime(e: ArpEntry, mac: NetworkAddress, t: u64, max_age: u64, now: u64)
    requires
        t <= now,
    ensures
        ({
            let l = update_mac_spec(e, mac, t);
            &&& l.mac_address == Some(mac)
            &&& l.state == ArpEntryState::Reachable
            &&& (now <= t + max_age ==> !expired_spec(l, max_age, now))
            &&& (now > t + max_age ==> expired_spec(l, max_age, now) == !e.is_static)
        }),
        e.state == ArpEntryState::Reachable && !e.is_static && e.updated <= now ==> (expired_spec(e, max_age, now)
            <==> now > e.updated + max_age),
{
}

/// A lookup answers with the address of an entry that has not expired and
/// misses on one that has: where the entry for `ip` is dynamic and
/// reachable, the lookup at `now` returns its hardware address (counted as
/// a hit) when at most the table's maximum age has passed since its last
/// update, and returns nothing (counted as a miss) once more has passed.
pub proof fn lemma_lookup_fresh_entry(a: ArpTable, b: ArpTable, ip: NetworkAddress, now: u64, r: Option<NetworkAddress>)
    requires
        has_ip(a.entries_spec(), ip),
        lookup_post(a, b, ip, now, r),
        a.entries_spec()[ip_index(a.entries_spec(), ip)].state == ArpEntryState::Reachable,
        !a.entries_spec()[ip_index(a.entries_spec(), ip)].is_static,
        a.entries_spec()[ip_index(a.entries_spec(), ip)].updated <= now,
        a.stats_spec().cache_hits < u64::MAX,
        a.stats_spec().cache_misses < u64::MAX,
    ensures
        ({
            let e = a.entries_spec()[ip_index(a.entries_spec(), ip)];
            &&& now <= e.updated + a.max_age_spec() ==> r == e.mac_address && b.stats_spec().cache_hits
                == a.stats_spec().cache_hits + 1
            &&& now > e.updated + a.max_age_spec() ==> r is None && b.stats_spec().cache_misses
                == a.stats_spec().cache_misses + 1
        }),
{
}

/// What the table learns it gives back: after `update_entry` learned that
/// `ip` is at `mac` at time `t` (into a well-formed table `b`), a lookup of
/// `ip` at any time from `t` up to `t` plus the table's maximum age answers
/// `mac`, counted as a hit.
pub proof fn lemma_learned_address_found(
    a: ArpTable,
    b: ArpTable,
    c: ArpTable,
    ip: NetworkAddress,
    mac: NetworkAddress,
    interface: String,
    t: u64,
    now: u64,
    r: Option<NetworkAddress>,
)
    requires
        b.wf(),
        update_entry_post(a, b, ip, mac, interface, t),
        lookup_post(b, c, ip, now, r),
        t <= now <= t + b.max_age_spec(),
        b.stats_spec().cache_hits < u64::MAX,
    ensures
        r == Some(mac),
        c.stats_spec().cache_hits == b.stats_spec().cache_hits + 1,
{
    let s = a.entries_spec();
    let sb = b.entries_spec();
    if has_ip(s, ip) {
        let i = ip_index(s, ip);
        assert(sb[i].ip_address == ip);
        lemma_ip_index(sb, ip, i);
        assert(has_ip(sb, ip));
    } else {
        let s2 = if s.len() >= a.max_entries_spec() {
            evict_oldest_spec(s)
        } else {
            s
        };
        let u = update_mac_spec(new_entry_spec(ip, interface, t), mac, t);
        let q = choose|q: int| 0 <= q <= s2.len() && sb == s2.insert(q, u);
        assert(sb[q] == u);
        lemma_ip_index(sb, ip, q);
        assert(has_ip(sb, ip));
    }
}

/// How long each kind of dynamic entry lasts. A static entry never expires.
/// A dynamic entry expires: when incomplete, more than 3 s after it was
/// made; when reachable, more than the maximum age after its last update;
/// when stale, more than twice that; when delayed, more than 5 s after its
/// last use; when probing, more than 1 s after its last update; when
/// failed, at once.
pub proof fn lemma_expiry_by_state(e: ArpEntry, max_age: u64, now: u64)
    requires
        times_before(e, now),
    ensures
        e.is_static ==> !expired_spec(e, max_age, now),
        !e.is_static ==> (expired_spec(e, max_age, now) <==> match e.state {
            ArpEntryState::Incomplete => now > e.created + 3000,
            ArpEntryState::Reachable => now > e.updated + max_age,
            ArpEntryState::Stale => now > e.updated + 2 * max_age,
            ArpEntryState::Delay => now > e.last_used + 5000,
            ArpEntryState::Probe => now > e.updated + 1000,
            ArpEntryState::Failed => true,
        }),
{
}

} // verus!
