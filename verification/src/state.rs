//! Runtime state of the application core: the stored accounts, the account
//! currently on line, and what is known about each connected peer.
//!
//! Two clocks appear here as plain numbers: a monotonic instant counted in
//! seconds since the application started, and calendar time counted in
//! signed seconds. The application owns the real clocks and key material;
//! this module owns the decisions made from them.

use vstd::prelude::*;

verus! {

use crate::peer::PeerId;
use crate::save_state::{clone_friends, Account, Friend, TheManSaveState};

/// What a peer reported about itself through the identification protocol.
#[derive(Clone, Debug)]
pub struct IdentifyInfo {
    pub protocol_version: String,
    pub agent_version: String,
    pub listen_addrs: Vec<String>,
    pub protocols: Vec<String>,
    pub observed_addr: String,
}

/// The mathematical value of an [`IdentifyInfo`].
pub struct IdentifyInfoView {
    pub protocol_version: Seq<char>,
    pub agent_version: Seq<char>,
    pub listen_addrs: Seq<Seq<char>>,
    pub protocols: Seq<Seq<char>>,
    pub observed_addr: Seq<char>,
}

impl View for IdentifyInfo {
    type V = IdentifyInfoView;

    open spec fn view(&self) -> IdentifyInfoView {
        IdentifyInfoView {
            protocol_version: self.protocol_version@,
            agent_version: self.agent_version@,
            listen_addrs: self.listen_addrs.deep_view(),
            protocols: self.protocols.deep_view(),
            observed_addr: self.observed_addr@,
        }
    }
}

impl DeepView for IdentifyInfo {
    type V = IdentifyInfoView;

    open spec fn deep_view(&self) -> IdentifyInfoView {
        self.view()
    }
}

/// A successful ping: a bare pong, or a round trip with the instant it was
/// sent and how long it took, in the application's clock ticks.
#[derive(Clone, Copy, PartialEq, Eq, Structural, Debug)]
pub enum PingOk {
    Pong,
    Ping(u64, u64),
}

/// A failed ping.
#[derive(Clone, Debug)]
pub enum PingError {
    Timeout,
    Unsupported,
    Other(String),
}

/// The mathematical value of a [`PingError`].
pub enum PingErrorView {
    Timeout,
    Unsupported,
    Other(Seq<char>),
}

impl View for PingError {
    type V = PingErrorView;

    open spec fn view(&self) -> PingErrorView {
        match self {
            PingError::Timeout => PingErrorView::Timeout,
            PingError::Unsupported => PingErrorView::Unsupported,
            PingError::Other(e) => PingErrorView::Other(e@),
        }
    }
}

impl DeepView for PingError {
    type V = PingErrorView;

    open spec fn deep_view(&self) -> PingErrorView {
        self.view()
    }
}

/// What is known about one connected peer: created when its connection is
/// established, dropped when it closes.
#[derive(Debug)]
pub struct PeerStatus {
    pub info: Option<IdentifyInfo>,
    pub ping: Option<Result<PingOk, PingError>>,
}

/// The mathematical value of a [`PeerStatus`].
pub struct PeerStatusView {
    pub info: Option<IdentifyInfoView>,
    pub ping: Option<Result<PingOk, PingErrorView>>,
}

/// The value of a recorded ping outcome.
pub open spec fn spec_ping_view(p: Result<PingOk, PingError>) -> Result<PingOk, PingErrorView> {
    match p {
        Ok(ok) => Ok(ok),
        Err(e) => Err(e@),
    }
}

impl View for PeerStatus {
    type V = PeerStatusView;

    open spec fn view(&self) -> PeerStatusView {
        PeerStatusView {
            info: match self.info {
                Some(i) => Some(i@),
                None => None,
            },
            ping: match self.ping {
                Some(p) => Some(spec_ping_view(p)),
                None => None,
            },
        }
    }
}

impl DeepView for PeerStatus {
    type V = PeerStatusView;

    open spec fn deep_view(&self) -> PeerStatusView {
        self.view()
    }
}

impl Default for PeerStatus {
    /// A peer nothing is known about yet.
    fn default() -> (r: PeerStatus)
        ensures
            r.info is None,
            r.ping is None,
    {
        PeerStatus { info: None, ping: None }
    }
}

/// One audio route: the playback channel assigned to one peer's voice on one
/// named channel.
#[derive(Clone, Debug)]
pub struct VoiceRoute {
    pub channel: String,
    pub peer: PeerId,
    pub audio_id: usize,
}

/// The account currently on line.
#[derive(Clone, Debug)]
pub struct ActiveAccount {
    /// Its position in the stored account list.
    pub index: usize,
    pub name: String,
    pub peer_id: PeerId,
    pub friends: Vec<Friend>,
    /// When the published name record expires, as an instant; the renewal
    /// timer is armed at this value.
    pub expires: u64,
    /// Whether the registration is renewed without asking.
    pub auto_renew: bool,
    /// The audio routes of the voice channels in use.
    pub voice_channels: Vec<VoiceRoute>,
}

/// The whole runtime state of the core.
#[derive(Debug)]
pub struct TheManState {
    pub accounts: Vec<Account>,
    pub account: Option<ActiveAccount>,
    pub peers: Vec<(PeerId, PeerStatus)>,
    pub bootnodes: Vec<String>,
}

/// The instant at which a record expiring at calendar second `expires_utc`
/// should be renewed, seen from a machine whose clock reads `now_instant`
/// at calendar second `now_utc`: the current instant plus however much
/// calendar time is left, never in the past, capped at the clock's range.
pub open spec fn spec_renewal_instant(now_instant: u64, now_utc: i64, expires_utc: i64) -> u64 {
    if expires_utc <= now_utc {
        now_instant
    } else if now_instant + (expires_utc - now_utc) <= u64::MAX {
        (now_instant + (expires_utc - now_utc)) as u64
    } else {
        u64::MAX
    }
}

/// Computes [`spec_renewal_instant`].
pub fn renewal_instant(now_instant: u64, now_utc: i64, expires_utc: i64) -> (r: u64)
    ensures
        r == spec_renewal_instant(now_instant, now_utc, expires_utc),
{
    if expires_utc <= now_utc {
        now_instant
    } else {
        let left: i128 = (expires_utc as i128) - (now_utc as i128);
        if left >= (u64::MAX as i128) {
            u64::MAX
        } else {
            let left64: u64 = left as u64;
            if now_instant <= u64::MAX - left64 {
                now_instant + left64
            } else {
                u64::MAX
            }
        }
    }
}

impl TheManState {
    /// Puts the account at `account_index` on line. The application decodes
    /// the account's key material to `peer_id` and builds the connection
    /// machinery; this sets up everything the core decides from: the fresh
    /// account record with no voice routes, and the renewal instant computed
    /// from the persisted expiry. A bad index changes nothing.
    pub fn set_account(&mut self, account_index: usize, peer_id: PeerId, now_instant: u64, now_utc: i64)
        ensures
            account_index >= old(self).accounts@.len() ==> *final(self) == *old(self),
            account_index < old(self).accounts@.len() ==> {
                &&& final(self).accounts == old(self).accounts
                &&& final(self).peers == old(self).peers
                &&& final(self).bootnodes == old(self).bootnodes
                &&& match final(self).account {
                    Some(a) => {
                        &&& a.index == account_index
                        &&& a.name@ == old(self).accounts@[account_index as int].name@
                        &&& a.peer_id == peer_id
                        &&& a.friends.deep_view() == old(self).accounts@[
                            account_index as int
                        ].friends.deep_view()
                        &&& a.expires == spec_renewal_instant(
                            now_instant,
                            now_utc,
                            old(self).accounts@[account_index as int].expires,
                        )
                        &&& a.auto_renew == old(self).accounts@[account_index as int].renew
                        &&& a.voice_channels@ == Seq::<VoiceRoute>::empty()
                    },
                    None => false,
                }
            },
    {
        if account_index >= self.accounts.len() {
            return;
        }
        let name = self.accounts[account_index].name.clone();
        let friends = clone_friends(&self.accounts[account_index].friends);
        let expires = renewal_instant(now_instant, now_utc, self.accounts[account_index].expires);
        let auto_renew = self.accounts[account_index].renew;
        self.account = Some(
            ActiveAccount {
                index: account_index,
                name,
                peer_id,
                friends,
                expires,
                auto_renew,
                voice_channels: Vec::new(),
            },
        );
    }
}

/// Copies a list of strings value for value.
#[verifier::loop_isolation(false)]
pub fn clone_strings(v: &Vec<String>) -> (r: Vec<String>)
    ensures
        r.deep_view() == v.deep_view(),
{
    let mut out: Vec<String> = Vec::new();
    let mut i: usize = 0;
    while i < v.len()
        invariant
            0 <= i <= v.len(),
            out.deep_view() =~= v.deep_view().take(i as int),
        decreases v.len() - i,
    {
        let ghost opre = out.deep_view();
        out.push(v[i].clone());
        proof {
            assert(out.deep_view() =~= opre.push(v.deep_view()[i as int]));
            assert(v.deep_view().take(i + 1) =~= v.deep_view().take(i as int).push(
                v.deep_view()[i as int],
            ));
        }
        i = i + 1;
    }
    proof {
        assert(v.deep_view().take(v@.len() as int) =~= v.deep_view());
    }
    out
}

/// Copies a peer's self-description value for value.
pub fn clone_identify_info(info: &IdentifyInfo) -> (r: IdentifyInfo)
    ensures
        r@ == info@,
{
    IdentifyInfo {
        protocol_version: info.protocol_version.clone(),
        agent_version: info.agent_version.clone(),
        listen_addrs: clone_strings(&info.listen_addrs),
        protocols: clone_strings(&info.protocols),
        observed_addr: info.observed_addr.clone(),
    }
}

/// Copies a ping outcome value for value.
pub fn clone_ping_result(ping: &Result<PingOk, PingError>) -> (r: Result<PingOk, PingError>)
    ensures
        spec_ping_view(r) == spec_ping_view(*ping),
{
    match ping {
        Ok(ok) => Ok(*ok),
        Err(PingError::Timeout) => Err(PingError::Timeout),
        Err(PingError::Unsupported) => Err(PingError::Unsupported),
        Err(PingError::Other(e)) => Err(PingError::Other(e.clone())),
    }
}

/// Copies a peer record value for value.
pub fn clone_peer_status(status: &PeerStatus) -> (r: PeerStatus)
    ensures
        r@ == status@,
{
    let info = match &status.info {
        Some(i) => Some(clone_identify_info(i)),
        None => None,
    };
    let ping = match &status.ping {
        Some(p) => Some(clone_ping_result(p)),
        None => None,
    };
    PeerStatus { info, ping }
}

/// Copies the known-peer table value for value.
#[verifier::loop_isolation(false)]
pub fn clone_peers(peers: &Vec<(PeerId, PeerStatus)>) -> (r: Vec<(PeerId, PeerStatus)>)
    ensures
        r.deep_view() == peers.deep_view(),
{
    let mut out: Vec<(PeerId, PeerStatus)> = Vec::new();
    let mut i: usize = 0;
    while i < peers.len()
        invariant
            0 <= i <= peers.len(),
            out.deep_view() =~= peers.deep_view().take(i as int),
        decreases peers.len() - i,
    {
        let ghost opre = out.deep_view();
        let entry = (peers[i].0, clone_peer_status(&peers[i].1));
        out.push(entry);
        proof {
            assert(out.deep_view() =~= opre.push(peers.deep_view()[i as int]));
            assert(peers.deep_view().take(i + 1) =~= peers.deep_view().take(i as int).push(
                peers.deep_view()[i as int],
            ));
        }
        i = i + 1;
    }
    proof {
        assert(peers.deep_view().take(peers@.len() as int) =~= peers.deep_view());
    }
    out
}

/// The position of the first entry for `peer` in the known-peer table.
pub open spec fn spec_peer_index(peers: Seq<(PeerId, PeerStatus)>, peer: PeerId) -> Option<int>
    decreases peers.len(),
{
    if peers.len() == 0 {
        None
    } else if peers[0].0 == peer {
        Some(0)
    } else {
        match spec_peer_index(peers.drop_first(), peer) {
            Some(k) => Some(k + 1),
            None => None,
        }
    }
}

/// Searching past a prefix without matches shifts the found position.
proof fn lemma_peer_index_skip(peers: Seq<(PeerId, PeerStatus)>, peer: PeerId, i: int)
    requires
        0 <= i <= peers.len(),
        forall|j: int| 0 <= j < i ==> (#[trigger] peers[j]).0 != peer,
    ensures
        spec_peer_index(peers, peer) == match spec_peer_index(peers.skip(i), peer) {
            Some(k) => Some(k + i),
            None => None::<int>,
        },
    decreases i,
{
    if i > 0 {
        assert(peers[0].0 != peer);
        assert forall|j: int| 0 <= j < i - 1 implies (#[trigger] peers.drop_first()[j]).0
            != peer by {
            assert(peers.drop_first()[j] == peers[j + 1]);
        }
        lemma_peer_index_skip(peers.drop_first(), peer, i - 1);
        assert(peers.drop_first().skip(i - 1) =~= peers.skip(i));
    } else {
        assert(peers.skip(0) =~= peers);
    }
}

/// Whether the found position is in range and the entries before it differ.
pub proof fn lemma_peer_index_in_range(peers: Seq<(PeerId, PeerStatus)>, peer: PeerId)
    ensures
        match spec_peer_index(peers, peer) {
            Some(k) => 0 <= k < peers.len() && peers[k].0 == peer,
            None => forall|j: int| 0 <= j < peers.len() ==> (#[trigger] peers[j]).0 != peer,
        },
    decreases peers.len(),
{
    if peers.len() != 0 && peers[0].0 != peer {
        lemma_peer_index_in_range(peers.drop_first(), peer);
        match spec_peer_index(peers.drop_first(), peer) {
            Some(k) => {
                assert(peers.drop_first()[k] == peers[k + 1]);
            },
            None => {
                assert forall|j: int| 0 <= j < peers.len() implies (#[trigger] peers[j]).0
                    != peer by {
                    if j > 0 {
                        assert(peers.drop_first()[j - 1] == peers[j]);
                    }
                }
            },
        }
    }
}

/// Finds the position of `peer` in the known-peer table.
#[verifier::loop_isolation(false)]
pub fn find_peer(peers: &Vec<(PeerId, PeerStatus)>, peer: PeerId) -> (r: Option<usize>)
    ensures
        match r {
            Some(k) => spec_peer_index(peers@, peer) == Some(k as int) && k < peers@.len()
                && peers@[k as int].0 == peer,
            None => spec_peer_index(peers@, peer) is None,
        },
{
    let mut i: usize = 0;
    while i < peers.len()
        invariant
            0 <= i <= peers.len(),
            forall|j: int| 0 <= j < i ==> (#[trigger] peers@[j]).0 != peer,
        decreases peers.len() - i,
    {
        if peers[i].0 == peer {
            proof {
                lemma_peer_index_skip(peers@, peer, i as int);
                assert(peers@.skip(i as int)[0] == peers@[i as int]);
            }
            return Some(i);
        }
        i = i + 1;
    }
    proof {
        lemma_peer_index_skip(peers@, peer, peers@.len() as int);
        assert(peers@.skip(peers@.len() as int) =~= Seq::<(PeerId, PeerStatus)>::empty());
    }
    None
}

} // verus!

