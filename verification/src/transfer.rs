//! The LAN wire format and the list of discovered peers.
//!
//! Discovery: each device broadcasts
//! `DROP_AIR_DISCOVERY_V1|<id>|<name>|<transfer port>` over UDP.
//! Transfer: a TCP stream opens with `DROP_AIR_TRANSFER_V1|<id>|<name>` on a
//! line of its own; each item follows as a JSON header line and its bytes.

use vstd::prelude::*;
use crate::text::{
    append_str, chars_of, decimal, is_ascii_digit, lemma_decimal_digits, lemma_parse_decimal_u16,
    lemma_split_once_absent, lemma_split_once_concat, lemma_trim_unchanged, parse_u16,
    parse_u16_chars, push_decimal, split_once, split_once_chars, string_of, strip_prefix,
    strip_prefix_chars, trim, trim_chars, trim_start, trim_end, is_whitespace_char, is_blank,
    is_blank_chars, path_file_name, is_dot_name, is_plain_component, plain_tail,
};
use crate::shelf::{AppState, ShelfItem, ShelfItemKind};
use vstd::utf8::encode_utf8;

verus! {

pub const DISCOVERY_PORT: u16 = 47653;
pub const TRANSFER_PORT: u16 = 47654;

/// Peers not heard from for this many milliseconds are dropped.
pub const PEER_TIMEOUT_MS: u64 = 20_000;

pub open spec fn discovery_prefix() -> Seq<char> {
    "DROP_AIR_DISCOVERY_V1|"@
}

pub open spec fn transfer_prefix() -> Seq<char> {
    "DROP_AIR_TRANSFER_V1|"@
}

/// The datagram that announces a device.
pub open spec fn spec_discovery_message(id: Seq<char>, name: Seq<char>) -> Seq<char> {
    discovery_prefix() + id + seq!['|'] + name + seq!['|'] + decimal(TRANSFER_PORT as nat)
}

/// What a datagram announces: the sender's id, name and transfer port. The
/// text after the prefix splits at `|`; a fourth field and beyond are ignored.
pub open spec fn parse_discovery(message: Seq<char>) -> Option<(Seq<char>, Seq<char>, u16)> {
    match strip_prefix(message, discovery_prefix()) {
        None => None,
        Some(payload) => match split_once(payload, '|').1 {
            None => None,
            Some(after_id) => match split_once(after_id, '|').1 {
                None => None,
                Some(after_name) => match parse_u16(trim(split_once(after_name, '|').0)) {
                    None => None,
                    Some(port) => Some(
                        (split_once(payload, '|').0, split_once(after_id, '|').0, port),
                    ),
                },
            },
        },
    }
}

/// A device's announcement.
pub struct DiscoveryAnnouncement {
    pub id: String,
    pub name: String,
    pub port: u16,
}

/// The datagram that announces this device.
pub fn discovery_message(id: &String, name: &String) -> (m: String)
    ensures
        m@ == spec_discovery_message(id@, name@),
{
    let mut out: Vec<char> = Vec::new();
    append_str(&mut out, "DROP_AIR_DISCOVERY_V1|");
    append_str(&mut out, id.as_str());
    out.push('|');
    append_str(&mut out, name.as_str());
    out.push('|');
    push_decimal(&mut out, TRANSFER_PORT as u64);
    assert(out@ =~= spec_discovery_message(id@, name@));
    string_of(&out)
}

/// Reads an announcement; `None` for a datagram that is not one.
pub fn parse_discovery_message(message: &str) -> (r: Option<DiscoveryAnnouncement>)
    ensures
        r is Some == parse_discovery(message@) is Some,
        r matches Some(a) ==> parse_discovery(message@) == Some((a.id@, a.name@, a.port)),
{
    let cs = chars_of(message);
    let prefix = chars_of("DROP_AIR_DISCOVERY_V1|");
    let payload = match strip_prefix_chars(&cs, &prefix) {
        None => return None,
        Some(p) => p,
    };
    let (id, after_id) = split_once_chars(&payload, '|');
    let after_id = match after_id {
        None => return None,
        Some(a) => a,
    };
    let (name, after_name) = split_once_chars(&after_id, '|');
    let after_name = match after_name {
        None => return None,
        Some(a) => a,
    };
    let (port_text, _) = split_once_chars(&after_name, '|');
    let port = match parse_u16_chars(&trim_chars(&port_text)) {
        None => return None,
        Some(p) => p,
    };
    Some(DiscoveryAnnouncement { id: string_of(&id), name: string_of(&name), port })
}

proof fn lemma_strip_prefix_concat(p: Seq<char>, rest: Seq<char>)
    ensures
        strip_prefix(p + rest, p) == Some(rest),
{
    assert((p + rest).take(p.len() as int) =~= p);
    assert((p + rest).skip(p.len() as int) =~= rest);
}

proof fn lemma_decimal_plain(n: nat)
    ensures
        !decimal(n).contains('|'),
        trim(decimal(n)) == decimal(n),
        split_once(decimal(n), '|') == (decimal(n), None::<Seq<char>>),
{
    lemma_decimal_digits(n);
    let d = decimal(n);
    if d.contains('|') {
        let i = choose|i: int| 0 <= i < d.len() && d[i] == '|';
        assert(is_ascii_digit(d[i]));
    }
    assert(is_ascii_digit(d[0]));
    assert(is_ascii_digit(d[d.len() - 1]));
    lemma_trim_unchanged(d);
    lemma_split_once_absent(d, '|');
}

/// What a device announces is what its peers read: the id, the name and
/// the transfer port come back, as long as neither id nor name holds `|`.
pub proof fn lemma_discovery_roundtrip(id: Seq<char>, name: Seq<char>)
    requires
        !id.contains('|'),
        !name.contains('|'),
    ensures
        parse_discovery(spec_discovery_message(id, name)) == Some((id, name, TRANSFER_PORT)),
{
    let digits = decimal(TRANSFER_PORT as nat);
    let payload = id + seq!['|'] + name + seq!['|'] + digits;
    assert(spec_discovery_message(id, name) =~= discovery_prefix() + payload);
    lemma_strip_prefix_concat(discovery_prefix(), payload);
    let after_id = name + seq!['|'] + digits;
    assert(payload =~= id + seq!['|'] + after_id);
    lemma_split_once_concat(id, '|', after_id);
    lemma_split_once_concat(name, '|', digits);
    lemma_decimal_plain(TRANSFER_PORT as nat);
    lemma_parse_decimal_u16(TRANSFER_PORT);
}


/// A device found on the LAN.
#[derive(Debug)]
pub struct PeerInfo {
    pub id: String,
    pub name: String,
    pub address: String,
    pub port: u16,
    /// When it last announced itself, in milliseconds since the Unix epoch.
    pub last_seen: u64,
}

pub struct PeerView {
    pub id: Seq<char>,
    pub name: Seq<char>,
    pub address: Seq<char>,
    pub port: u16,
    pub last_seen: u64,
}

impl View for PeerInfo {
    type V = PeerView;

    open spec fn view(&self) -> PeerView {
        PeerView {
            id: self.id@,
            name: self.name@,
            address: self.address@,
            port: self.port,
            last_seen: self.last_seen,
        }
    }
}

impl PeerInfo {
    /// A copy of the peer.
    pub fn duplicate(&self) -> (r: PeerInfo)
        ensures
            r == *self,
    {
        PeerInfo {
            id: self.id.clone(),
            name: self.name.clone(),
            address: self.address.clone(),
            port: self.port,
            last_seen: self.last_seen,
        }
    }
}

pub open spec fn peer_views(peers: Seq<PeerInfo>) -> Seq<PeerView> {
    peers.map_values(|p: PeerInfo| p@)
}

/// No two peers share an id.
pub open spec fn peers_wf(peers: Seq<PeerView>) -> bool {
    forall|i: int, j: int|
        0 <= i < j < peers.len() ==> #[trigger] peers[i].id != #[trigger] peers[j].id
}

/// The peer list after hearing from `p`, and whether anything but its
/// last-seen time changed: a known id is updated in place, a new one is
/// appended.
pub open spec fn upsert(peers: Seq<PeerView>, p: PeerView) -> (Seq<PeerView>, bool) {
    if exists|k: int| 0 <= k < peers.len() && peers[k].id == p.id {
        let k = choose|k: int| 0 <= k < peers.len() && peers[k].id == p.id;
        (
            peers.update(k, p),
            peers[k].address != p.address || peers[k].port != p.port || peers[k].name != p.name,
        )
    } else {
        (peers.push(p), true)
    }
}

/// The peer list after a datagram from `address` arrives at `now`, and
/// whether the list changed in a way worth telling the front end. A
/// datagram that is not an announcement, or that this device sent itself,
/// changes nothing.
pub open spec fn discovery_outcome(
    peers: Seq<PeerView>,
    message: Seq<char>,
    address: Seq<char>,
    own_id: Seq<char>,
    now: u64,
) -> (Seq<PeerView>, bool) {
    match parse_discovery(message) {
        None => (peers, false),
        Some((id, name, port)) => if id == own_id {
            (peers, false)
        } else {
            upsert(peers, PeerView { id, name, address, port, last_seen: now })
        },
    }
}

pub open spec fn is_fresh(cutoff: u64) -> spec_fn(PeerInfo) -> bool {
    |p: PeerInfo| p.last_seen >= cutoff
}

/// The oldest last-seen time that survives pruning at `now`.
pub open spec fn prune_cutoff(now: u64) -> u64 {
    if now >= PEER_TIMEOUT_MS {
        (now - PEER_TIMEOUT_MS) as u64
    } else {
        0
    }
}

/// A peer survives pruning at `now` exactly when it was last heard from at
/// most `PEER_TIMEOUT_MS` (20 s) before `now`, on the full millisecond clock.
pub proof fn lemma_prune_cutoff(now: u64, peer: PeerInfo)
    ensures
        PEER_TIMEOUT_MS == 20_000,
        is_fresh(prune_cutoff(now))(peer) <==> peer.last_seen + 20_000 >= now,
        prune_cutoff(now) <= now,
{
}

pub open spec fn peer_address_spec(p: PeerView) -> Seq<char> {
    p.address + seq![':'] + decimal(p.port as nat)
}

/// The devices found on the LAN.
pub struct PeersState {
    peers: Vec<PeerInfo>,
}

impl PeersState {
    pub closed spec fn peers(&self) -> Seq<PeerInfo> {
        self.peers@
    }

    pub open spec fn model(&self) -> Seq<PeerView> {
        peer_views(self.peers())
    }

    pub open spec fn wf(&self) -> bool {
        peers_wf(self.model())
    }

    pub fn new() -> (s: PeersState)
        ensures
            s.wf(),
            s.peers().len() == 0,
    {
        PeersState { peers: Vec::new() }
    }

    /// A copy of the peer list.
    pub fn list_peers(&self) -> (r: Vec<PeerInfo>)
        ensures
            r@ == self.peers(),
    {
        let mut r: Vec<PeerInfo> = Vec::new();
        let mut i: usize = 0;
        while i < self.peers.len()
            invariant
                i <= self.peers.len(),
                r@ == self.peers@.take(i as int),
            decreases self.peers.len() - i,
        {
            r.push(self.peers[i].duplicate());
            assert(self.peers@.take(i + 1) =~= self.peers@.take(i as int).push(
                self.peers@[i as int],
            ));
            i = i + 1;
        }
        assert(self.peers@.take(i as int) =~= self.peers@);
        r
    }

    /// The position of the peer with this id, if it is known.
    fn position_of(&self, id: &String) -> (r: Option<usize>)
        ensures
            r is None <==> forall|k: int| 0 <= k < self.peers().len() ==> self.peers()[k].id@ != id@,
            r matches Some(k) ==> k < self.peers().len() && self.peers()[k as int].id@ == id@
                && forall|j: int| 0 <= j < k ==> self.peers()[j].id@ != id@,
    {
        let mut k: usize = 0;
        while k < self.peers.len()
            invariant
                k <= self.peers.len(),
                forall|j: int| 0 <= j < k ==> self.peers@[j].id@ != id@,
            decreases self.peers.len() - k,
        {
            if self.peers[k].id == *id {
                assert(self.peers()[k as int].id@ == id@);
                return Some(k);
            }
            k = k + 1;
        }
        None
    }

    /// Takes in a datagram from `address` received at `now` (milliseconds
    /// since the Unix epoch). Returns whether the peer list changed in a way
    /// that the front end should hear of.
    pub fn handle_discovery_message(&mut self, message: &str, address: String, own_id: &String, now: u64) -> (changed: bool)
        requires
            old(self).wf(),
        ensures
            final(self).wf(),
            (final(self).model(), changed) == discovery_outcome(
                old(self).model(),
                message@,
                address@,
                own_id@,
                now,
            ),
            (forall|i: int| 0 <= i < old(self).model().len() ==> #[trigger] old(self).model()[i].id != own_id@)
                ==> (forall|i: int| 0 <= i < final(self).model().len() ==> #[trigger] final(self).model()[i].id != own_id@),
    {
        let ann = match parse_discovery_message(message) {
            None => return false,
            Some(a) => a,
        };
        if ann.id == *own_id {
            return false;
        }
        let ghost old_model = self.model();
        let ghost p = PeerView { id: ann.id@, name: ann.name@, address: address@, port: ann.port, last_seen: now };
        match self.position_of(&ann.id) {
            Some(k) => {
                proof {
                    let c = choose|c: int| 0 <= c < old_model.len() && old_model[c].id == p.id;
                    if c != k {
                        assert(old_model[c].id == old_model[k as int].id);
                    }
                }
                let existing = &self.peers[k];
                let structural = !(existing.address == address) || existing.port != ann.port
                    || !(existing.name == ann.name);
                let peer = PeerInfo { id: ann.id, name: ann.name, address, port: ann.port, last_seen: now };
                self.peers.set(k, peer);
                assert(self.model() =~= old_model.update(k as int, p));
                structural
            },
            None => {
                let peer = PeerInfo { id: ann.id, name: ann.name, address, port: ann.port, last_seen: now };
                self.peers.push(peer);
                assert(self.model() =~= old_model.push(p));
                true
            },
        }
    }

    /// Drops the peers not heard from in the last `PEER_TIMEOUT_MS`
    /// milliseconds before `now`. Returns whether any was dropped.
    pub fn prune_stale_peers(&mut self, now: u64) -> (changed: bool)
        requires
            old(self).wf(),
        ensures
            final(self).wf(),
            final(self).peers() == old(self).peers().filter(is_fresh(prune_cutoff(now))),
            changed == (final(self).peers().len() != old(self).peers().len()),
            forall|i: int| 0 <= i < final(self).peers().len() ==> #[trigger] final(self).peers()[i].last_seen >= prune_cutoff(now),
            forall|j: int| 0 <= j < old(self).peers().len() && old(self).peers()[j].last_seen >= prune_cutoff(now)
                ==> final(self).peers().contains(#[trigger] old(self).peers()[j]),
            forall|i: int| 0 <= i < final(self).peers().len() ==> #[trigger] final(self).peers()[i].last_seen
                + PEER_TIMEOUT_MS >= now,
            forall|j: int| 0 <= j < old(self).peers().len() ==> (final(self).peers().contains(
                #[trigger] old(self).peers()[j],
            ) <==> old(self).peers()[j].last_seen + PEER_TIMEOUT_MS >= now),
    {
        let cutoff = now.saturating_sub(PEER_TIMEOUT_MS);
        let ghost pred = is_fresh(cutoff);
        let ghost old_peers = self.peers@;
        let mut kept: Vec<PeerInfo> = Vec::new();
        let mut i: usize = 0;
        while i < self.peers.len()
            invariant
                i <= self.peers.len(),
                self.peers@ == old_peers,
                peers_wf(peer_views(old_peers)),
                pred == is_fresh(cutoff),
                kept@ == old_peers.take(i as int).filter(pred),
                forall|a: int| 0 <= a < kept@.len() ==> exists|j: int| 0 <= j < i && #[trigger] kept@[a] == old_peers[j],
                peers_wf(peer_views(kept@)),
            decreases self.peers.len() - i,
        {
            let ghost before = kept@;
            proof {
                reveal(Seq::filter);
                assert(old_peers.take(i + 1).drop_last() =~= old_peers.take(i as int));
            }
            if self.peers[i].last_seen >= cutoff {
                kept.push(self.peers[i].duplicate());
                proof {
                    let kv = peer_views(kept@);
                    assert forall|a: int, b: int| 0 <= a < b < kv.len() implies #[trigger] kv[a].id != #[trigger] kv[b].id by {
                        if b == kv.len() - 1 {
                            let j = choose|j: int| 0 <= j < i && before[a] == old_peers[j];
                            assert(peer_views(old_peers)[j].id != peer_views(old_peers)[i as int].id);
                        } else {
                            assert(peer_views(before)[a].id != peer_views(before)[b].id);
                        }
                    }
                }
            }
            i = i + 1;
        }
        assert(old_peers.take(i as int) =~= old_peers);
        let changed = kept.len() != self.peers.len();
        self.peers = kept;
        proof {
            assert forall|k: int| 0 <= k < self.peers@.len() implies #[trigger] self.peers@[k].last_seen >= cutoff by {
                old_peers.lemma_filter_pred(pred, k);
            }
            assert forall|j: int| 0 <= j < old_peers.len() && old_peers[j].last_seen >= cutoff implies self.peers@.contains(#[trigger] old_peers[j]) by {
                old_peers.lemma_filter_contains(pred, j);
            }
            assert forall|j: int| 0 <= j < old_peers.len() && self.peers@.contains(#[trigger] old_peers[j]) implies old_peers[j].last_seen >= cutoff by {
                let k = choose|k: int| 0 <= k < self.peers@.len() && self.peers@[k] == old_peers[j];
                assert(self.peers@[k].last_seen >= cutoff);
            }
        }
        changed
    }

    /// The `address:port` to send to the peer with this id.
    pub fn peer_address(&self, peer_id: &String) -> (r: Result<String, String>)
        ensures
            r is Ok <==> exists|k: int| 0 <= k < self.peers().len() && self.peers()[k].id@ == peer_id@,
            r matches Ok(a) ==> exists|k: int|
                0 <= k < self.peers().len() && self.peers()[k].id@ == peer_id@
                    && (forall|j: int| 0 <= j < k ==> self.peers()[j].id@ != peer_id@)
                    && a@ == peer_address_spec(self.peers()[k]@),
            r matches Err(e) ==> e@ == "device is no longer on the network"@,
    {
        match self.position_of(peer_id) {
            Some(k) => {
                let peer = &self.peers[k];
                let mut out = chars_of(peer.address.as_str());
                out.push(':');
                push_decimal(&mut out, peer.port as u64);
                assert(out@ =~= peer_address_spec(self.peers()[k as int]@));
                Ok(string_of(&out))
            },
            None => Err(String::from_str("device is no longer on the network")),
        }
    }
}


/// The first line of an outgoing transfer.
pub open spec fn spec_transfer_handshake(id: Seq<char>, name: Seq<char>) -> Seq<char> {
    transfer_prefix() + id + seq!['|'] + name + seq!['\n']
}

/// The sender's name in a transfer's first line: the second `|`-separated
/// field after the prefix, or "Unknown device".
pub open spec fn spec_handshake_peer_name(line: Seq<char>) -> Seq<char> {
    match strip_prefix(trim(line), transfer_prefix()) {
        None => "Unknown device"@,
        Some(payload) => match split_once(payload, '|').1 {
            None => "Unknown device"@,
            Some(rest) => split_once(rest, '|').0,
        },
    }
}

/// The first line of an outgoing transfer, with its line break.
pub fn transfer_handshake(id: &String, name: &String) -> (line: String)
    ensures
        line@ == spec_transfer_handshake(id@, name@),
{
    let mut out: Vec<char> = Vec::new();
    append_str(&mut out, "DROP_AIR_TRANSFER_V1|");
    append_str(&mut out, id.as_str());
    out.push('|');
    append_str(&mut out, name.as_str());
    out.push('\n');
    assert(out@ =~= spec_transfer_handshake(id@, name@));
    string_of(&out)
}

/// The sender's name in the first line of an incoming transfer.
pub fn handshake_peer_name(line: &str) -> (name: String)
    ensures
        name@ == spec_handshake_peer_name(line@),
{
    let cs = chars_of(line);
    let trimmed = trim_chars(&cs);
    let prefix = chars_of("DROP_AIR_TRANSFER_V1|");
    match strip_prefix_chars(&trimmed, &prefix) {
        None => String::from_str("Unknown device"),
        Some(payload) => {
            let (_, rest) = split_once_chars(&payload, '|');
            match rest {
                None => String::from_str("Unknown device"),
                Some(rest) => {
                    let (field, _) = split_once_chars(&rest, '|');
                    string_of(&field)
                },
            }
        },
    }
}

/// The receiver reads back the name that the sender put in the first
/// line, as long as neither id nor name holds `|` and the name does not
/// end in whitespace.
pub proof fn lemma_handshake_roundtrip(id: Seq<char>, name: Seq<char>)
    requires
        !id.contains('|'),
        !name.contains('|'),
        name.len() > 0 ==> !is_whitespace_char(name.last()),
    ensures
        spec_handshake_peer_name(spec_transfer_handshake(id, name)) == name,
{
    reveal_strlit("DROP_AIR_TRANSFER_V1|");
    let body = transfer_prefix() + id + seq!['|'] + name;
    let line = spec_transfer_handshake(id, name);
    assert(line =~= body.push('\n'));
    assert(body[0] == 'D');
    assert(line[0] == 'D');
    assert(trim_start(line) == line);
    assert(line.drop_last() =~= body);
    assert(trim_end(line) == trim_end(body));
    if name.len() > 0 {
        assert(body.last() == name.last());
    } else {
        assert(body.last() == '|');
    }
    assert(trim_end(body) == body);
    assert(trim(line) == body);
    let payload = id + seq!['|'] + name;
    assert(body =~= transfer_prefix() + payload);
    lemma_strip_prefix_concat(transfer_prefix(), payload);
    assert(payload =~= id + seq!['|'] + name + Seq::<char>::empty());
    lemma_split_once_concat(id, '|', name);
    lemma_split_once_absent(name, '|');
}

/// Characters that a received file's name may not hold: ASCII controls and
/// the characters that Windows forbids in file names.
pub open spec fn is_unsafe_file_char(c: char) -> bool {
    ||| c <= '\u{1f}'
    ||| c == '\u{7f}'
    ||| c == '<'
    ||| c == '>'
    ||| c == ':'
    ||| c == '"'
    ||| c == '/'
    ||| c == '\\'
    ||| c == '|'
    ||| c == '?'
    ||| c == '*'
}

pub open spec fn clean_char(c: char) -> char {
    if is_unsafe_file_char(c) {
        '_'
    } else {
        c
    }
}

/// The name a received file is stored under, given the last component of
/// the name that the sender gave: unsafe characters become `_`, and a name
/// that is missing or blank becomes "received".
pub open spec fn spec_sanitize(file_name: Option<Seq<char>>) -> Seq<char> {
    let base = match file_name {
        Some(n) => n,
        None => "received"@,
    };
    let cleaned = base.map_values(|c: char| clean_char(c));
    if is_blank(cleaned) {
        "received"@
    } else {
        cleaned
    }
}

/// A character that a received file's name keeps as it is: neither an
/// ASCII control (U+0000 to U+001F, U+007F) nor one of `< > : " / \ | ? *`.
pub open spec fn is_kept_file_char(c: char) -> bool {
    &&& c > '\u{1f}'
    &&& c != '\u{7f}'
    &&& c != '<'
    &&& c != '>'
    &&& c != ':'
    &&& c != '"'
    &&& c != '/'
    &&& c != '\\'
    &&& c != '|'
    &&& c != '?'
    &&& c != '*'
}

/// Sanitising a name that is not blank keeps its length, keeps every
/// character that is neither an ASCII control nor one of `< > : " / \ | ? *`,
/// and puts `_` in place of each one that is. So a name with no such
/// character comes back as it was; only a blank one becomes "received".
pub proof fn lemma_sanitize_keeps_plain_chars(name: Seq<char>)
    ensures
        !is_blank(name) ==> ({
            let r = spec_sanitize(Some(name));
            &&& r.len() == name.len()
            &&& forall|i: int|
                0 <= i < name.len() ==> #[trigger] r[i] == (if is_kept_file_char(name[i]) {
                    name[i]
                } else {
                    '_'
                })
        }),
        !is_blank(name) && (forall|i: int| 0 <= i < name.len() ==> is_kept_file_char(#[trigger] name[i]))
            ==> spec_sanitize(Some(name)) == name,
        is_blank(name) ==> spec_sanitize(Some(name)) == "received"@ || spec_sanitize(Some(name)).len()
            == name.len(),
{
    let cleaned = name.map_values(|c: char| clean_char(c));
    if !is_blank(name) {
        let k = choose|k: int| 0 <= k < name.len() && !is_whitespace_char(#[trigger] name[k]);
        assert(!is_whitespace_char(cleaned[k]));
        assert(!is_blank(cleaned));
    }
    if !is_blank(name) && (forall|i: int| 0 <= i < name.len() ==> is_kept_file_char(#[trigger] name[i])) {
        assert(cleaned =~= name);
    }
}

/// A name that holds no unsafe character and is not blank.
pub open spec fn has_safe_chars(name: Seq<char>) -> bool {
    &&& name.len() > 0
    &&& !is_blank(name)
    &&& forall|i: int| 0 <= i < name.len() ==> !is_unsafe_file_char(#[trigger] name[i])
}

/// A name that, joined to a directory, names an entry of that directory: it
/// holds no unsafe character, is not blank, and is neither `.` nor `..`.
pub open spec fn is_safe_file_name(name: Seq<char>) -> bool {
    &&& has_safe_chars(name)
    &&& !is_dot_name(name)
}

fn is_unsafe_file_char_exec(c: char) -> (b: bool)
    ensures
        b == is_unsafe_file_char(c),
{
    c <= '\u{1f}' || c == '\u{7f}' || c == '<' || c == '>' || c == ':' || c == '"' || c == '/'
        || c == '\\' || c == '|' || c == '?' || c == '*'
}

/// The name a received file is stored under, given the last component of
/// the sender's name as `Path::file_name` found it.
pub fn sanitize_component(file_name: Option<String>) -> (r: String)
    ensures
        r@ == spec_sanitize(
            match file_name {
                Some(n) => Some(n@),
                None => None,
            },
        ),
        has_safe_chars(r@),
        (match file_name {
            Some(n) => !is_dot_name(n@),
            None => true,
        }) ==> !is_dot_name(r@),
        file_name matches Some(n) ==> (!is_blank(n@) && (forall|i: int|
            0 <= i < n@.len() ==> is_kept_file_char(#[trigger] n@[i])) ==> r@ == n@),
{
    proof {
        reveal_strlit("received");
        if file_name is Some {
            lemma_sanitize_keeps_plain_chars(file_name.unwrap()@);
        }
    }
    let base = match file_name {
        Some(n) => chars_of(n.as_str()),
        None => chars_of("received"),
    };
    let mut cleaned: Vec<char> = Vec::new();
    let mut i: usize = 0;
    while i < base.len()
        invariant
            i <= base.len(),
            cleaned@ == base@.take(i as int).map_values(|c: char| clean_char(c)),
        decreases base.len() - i,
    {
        let c = base[i];
        let d = if is_unsafe_file_char_exec(c) {
            '_'
        } else {
            c
        };
        cleaned.push(d);
        assert(base@.take(i + 1).map_values(|c: char| clean_char(c)) =~= base@.take(
            i as int,
        ).map_values(|c: char| clean_char(c)).push(clean_char(c)));
        i = i + 1;
    }
    assert(base@.take(i as int) =~= base@);
    let received = chars_of("received");
    assert(received@[0] == 'r');
    assert(!is_whitespace_char(received@[0]));
    assert(received@.len() == 8);
    if is_blank_chars(&cleaned) {
        string_of(&received)
    } else {
        proof {
            assert(cleaned@.len() == base@.len());
            if cleaned@.len() >= 1 && cleaned@[0] == '.' {
                assert(clean_char(base@[0]) == '.');
                assert(base@[0] == '.');
            }
            if cleaned@.len() == 2 && cleaned@[1] == '.' {
                assert(clean_char(base@[1]) == '.');
                assert(base@[1] == '.');
            }
            if is_dot_name(cleaned@) {
                assert(base@ =~= cleaned@);
            }
            assert forall|k: int| 0 <= k < cleaned@.len() implies !is_unsafe_file_char(
                #[trigger] cleaned@[k],
            ) by {
                assert(cleaned@[k] == clean_char(base@[k]));
            }
        }
        string_of(&cleaned)
    }
}

/// The name a received file is stored under, for the name the sender gave:
/// whatever its last component is, the result is a safe file name.
pub fn sanitize_file_name(name: &str) -> (r: String)
    ensures
        is_safe_file_name(r@),
        exists|f: Option<Seq<char>>| r@ == spec_sanitize(f),
        name@.len() == 0 ==> r@ == spec_sanitize(None),
        is_plain_component(name@) ==> r@ == spec_sanitize(Some(name@)),
        plain_tail(name@) is Some ==> r@ == spec_sanitize(plain_tail(name@)),
        is_plain_component(name@) && !is_blank(name@) && (forall|i: int|
            0 <= i < name@.len() ==> is_kept_file_char(#[trigger] name@[i])) ==> r@ == name@,
{
    let component = path_file_name(name);
    let ghost f = match &component {
        Some(n) => Some(n@),
        None => None,
    };
    let r = sanitize_component(component);
    assert(r@ == spec_sanitize(f));
    proof {
        lemma_sanitize_keeps_plain_chars(name@);
    }
    r
}

/// The file name a received item is written to: the receive time in
/// milliseconds, `_`, and the sanitised name.
pub fn received_file_name(now: u64, file_name: &String) -> (r: String)
    ensures
        r@ == decimal(now as nat) + seq!['_'] + file_name@,
{
    let mut out: Vec<char> = Vec::new();
    push_decimal(&mut out, now);
    out.push('_');
    append_str(&mut out, file_name.as_str());
    string_of(&out)
}

/// The JSON header line that precedes each item's bytes.
#[derive(Debug)]
pub struct TransferHeader {
    pub kind: String,
    pub name: String,
    pub size: u64,
}

/// What is sent for a shelf item.
#[derive(Debug)]
pub enum OutgoingItem {
    /// A text item: its header and its text.
    Text { header: TransferHeader, content: String },
    /// A file: its name and where it is; the header is made once its size is read.
    File { name: String, path: String },
}

/// The header of a file of `size` bytes.
pub fn file_header(name: String, size: u64) -> (h: TransferHeader)
    ensures
        h.kind@ == "file"@,
        h.name == name,
        h.size == size,
{
    TransferHeader { kind: String::from_str("file"), name, size }
}

/// Whether `r` is what goes out for `item` (see `outgoing_item`).
pub open spec fn is_outgoing_for(item: ShelfItem, r: Option<OutgoingItem>) -> bool {
    match item.kind {
        ShelfItemKind::Text => {
            let content = match item.content {
                Some(c) => c@,
                None => Seq::<char>::empty(),
            };
            &&& r matches Some(OutgoingItem::Text { header, content: c })
            &&& header.kind@ == "text"@
            &&& header.name@ == item.name@ + ".txt"@
            &&& c@ == content
            &&& header.size == (encode_utf8(content).len() as usize) as u64
        },
        ShelfItemKind::File => (r matches Some(OutgoingItem::File { name, path }) && name@
            == item.name@ && path@ == item.path@),
        _ => r is None,
    }
}

/// What is sent for a shelf item: texts and files go out, folders and
/// other entries are skipped (`None`). A text goes out as `<name>.txt`,
/// sized in UTF-8 bytes as `str::len` counts them.
pub fn outgoing_item(item: &ShelfItem) -> (r: Option<OutgoingItem>)
    ensures
        is_outgoing_for(*item, r),
{
    match item.kind {
        ShelfItemKind::Text => {
            let content = match &item.content {
                Some(c) => c.clone(),
                None => String::new(),
            };
            let size = content.as_str().len() as u64;
            let name = item.name.clone().concat(".txt");
            let header = TransferHeader { kind: String::from_str("text"), name, size };

            Some(OutgoingItem::Text { header, content })
        },
        ShelfItemKind::File => Some(
            OutgoingItem::File { name: item.name.clone(), path: item.path.clone() },
        ),
        ShelfItemKind::Directory | ShelfItemKind::Other => None,
    }
}

pub open spec fn missing_item_message(id: u64) -> Seq<char> {
    "shelf item "@ + decimal(id as nat) + " no longer exists"@
}

/// What is sent for the shelf item with id `item_id`; an error when it is
/// no longer on the shelf.
pub fn next_transfer_item(state: &AppState, item_id: u64) -> (r: Result<Option<OutgoingItem>, String>)
    ensures
        r is Err <==> forall|i: int| 0 <= i < state.items().len() ==> state.items()[i].id != item_id,
        r matches Err(e) ==> e@ == missing_item_message(item_id),
        r matches Ok(o) ==> exists|i: int|
            0 <= i < state.items().len() && state.items()[i].id == item_id && is_outgoing_for(
                state.items()[i],
                o,
            ),
{
    match state.find_item(item_id) {
        None => {
            let mut out = chars_of("shelf item ");
            push_decimal(&mut out, item_id);
            append_str(&mut out, " no longer exists");
            Err(string_of(&out))
        },
        Some(item) => Ok(outgoing_item(&item)),
    }
}

/// One item of an outgoing transfer: what to send for `item_id`, and the
/// count of items sent once it has gone out (folders and other entries are
/// skipped and not counted); an error, which ends the transfer, when the
/// item is no longer on the shelf.
pub fn next_send_step(state: &AppState, item_id: u64, sent: usize) -> (r: Result<(Option<OutgoingItem>, usize), String>)
    requires
        sent < usize::MAX,
    ensures
        r is Err <==> forall|i: int| 0 <= i < state.items().len() ==> state.items()[i].id != item_id,
        r matches Err(e) ==> e@ == missing_item_message(item_id),
        r matches Ok((o, n)) ==> {
            &&& exists|i: int|
                0 <= i < state.items().len() && state.items()[i].id == item_id
                    && is_outgoing_for(state.items()[i], o)
            &&& n == if o is Some {
                sent + 1
            } else {
                sent as int
            }
        },
{
    match next_transfer_item(state, item_id) {
        Err(e) => Err(e),
        Ok(o) => {
            let n = match &o {
                Some(_) => sent + 1,
                None => sent,
            };
            Ok((o, n))
        },
    }
}

/// The size of the next read of an incoming payload: what is left, but no
/// more than the buffer holds.
pub fn next_chunk_len(remaining: u64, capacity: usize) -> (n: usize)
    ensures
        n as int == if remaining < capacity { remaining as int } else { capacity as int },
{
    if remaining < capacity as u64 {
        remaining as usize
    } else {
        capacity
    }
}

/// What is left of an incoming payload after a read of `read` bytes; an
/// error when the read found the connection closed.
pub fn payload_after_read(remaining: u64, read: usize) -> (r: Result<u64, String>)
    requires
        read <= remaining,
    ensures
        read == 0 ==> (r matches Err(e) && e@ == "connection closed before payload finished"@),
        read > 0 ==> r == Ok::<u64, String>((remaining - read) as u64),
{
    if read == 0 {
        Err(String::from_str("connection closed before payload finished"))
    } else {
        Ok(remaining - read as u64)
    }
}

/// The status message for an item received from a peer.
pub fn received_message(item_name: &String, peer_name: &String) -> (m: String)
    ensures
        m@ == "Received "@ + item_name@ + " from "@ + peer_name@,
{
    let mut out = chars_of("Received ");
    append_str(&mut out, item_name.as_str());
    append_str(&mut out, " from ");
    append_str(&mut out, peer_name.as_str());
    string_of(&out)
}

/// The state and message reported when a send ends: how many items went
/// out, or why it failed.
pub fn transfer_outcome(result: &Result<usize, String>) -> (r: (&'static str, String))
    ensures
        match result {
            Ok(sent) => r.0@ == "sent"@ && r.1@ == "Sent "@ + decimal(*sent as nat) + " item(s)"@,
            Err(e) => r.0@ == "error"@ && r.1@ == "Transfer failed: "@ + e@,
        },
{
    match result {
        Ok(sent) => {
            let mut out = chars_of("Sent ");
            push_decimal(&mut out, *sent as u64);
            append_str(&mut out, " item(s)");
            ("sent", string_of(&out))
        },
        Err(e) => {
            let mut out = chars_of("Transfer failed: ");
            append_str(&mut out, e.as_str());
            ("error", string_of(&out))
        },
    }
}

} // verus!
