//! The reactor's decision core: it turns swarm events, shell messages and
//! timer wakes into state changes, messages for the shell and the audio
//! engine, and commands for the connection machinery.
//!
//! The surrounding application runs the event loop: it performs each
//! enqueued [`SwarmCommand`], numbers the distributed hash table queries it
//! starts, and feeds completions back as [`NetEvent`]s. Everything decided
//! from those values is decided here.

use vstd::prelude::*;

verus! {

use crate::behaviour::BehaviourEvent;
use crate::message::{
    AudioMessage, DhtRecord, GuiMessage, Message, NetEvent, ProgressStep, QueryUpdate,
    SwarmCommand, SwarmStatus, VoiceMessage,
};
use crate::peer::{spec_peer_id_bytes, PeerId};
use crate::save_state::{clone_accounts, clone_friends, TheManSaveState};
use crate::state::{
    find_peer, spec_peer_index, ActiveAccount, PeerStatus, PingError, PingOk, TheManState,
    VoiceRoute,
};
use vstd::utf8::encode_utf8;

use sha2::Digest;

/// How long a published name record lives, in seconds: three days.
pub const REGISTRATION_TTL_SECS: u64 = 60 * 60 * 24 * 3;

/// How many known peers the network view must hold before a name record is
/// published into it.
pub const MIN_KNOWN_PEERS: usize = 600;

/// The digest the name-hashing function produces for the given bytes.
pub uninterp spec fn sha256_of(bytes: Seq<u8>) -> Seq<u8>;

/// Relies on the sha2 crate's SHA-256 (the hasher behind the transport
/// stack's name hashing): the digest depends on the input bytes alone and is
/// 32 bytes long.
#[verifier::external_body]
fn sha2_256(bytes: &[u8]) -> (r: Vec<u8>)
    ensures
        r@ == sha256_of(bytes@),
        r@.len() == 32,
{
    sha2::Sha256::digest(bytes).to_vec()
}

/// The distributed hash table key under which a display name is registered:
/// the SHA-256 digest of its UTF-8 bytes.
pub fn name_key(name: &str) -> (r: Vec<u8>)
    ensures
        r@ == sha256_of(encode_utf8(name@)),
        r@.len() == 32,
{
    sha2_256(name.as_bytes())
}

/// Whether a fetched name record certifies itself: it names a publisher and
/// its payload is exactly that publisher's identity bytes. Anything else is
/// surfaced as found but not safe.
pub fn record_is_safe(record: &DhtRecord) -> (r: bool)
    ensures
        r == match record.publisher {
            Some(p) => record.value@ == spec_peer_id_bytes(p),
            None => false,
        },
{
    match &record.publisher {
        Some(p) => {
            let expected = p.to_bytes();
            crate::peer::bytes_eq(record.value.as_slice(), expected.as_slice())
        },
        None => false,
    }
}

/// `a + b`, stopping at the top of the clock.
pub open spec fn spec_sat_add(a: u64, b: u64) -> u64 {
    if a + b <= u64::MAX {
        (a + b) as u64
    } else {
        u64::MAX
    }
}

/// Computes [`spec_sat_add`].
pub fn sat_add(a: u64, b: u64) -> (r: u64)
    ensures
        r == spec_sat_add(a, b),
{
    if a <= u64::MAX - b {
        a + b
    } else {
        u64::MAX
    }
}

/// The calendar second to persist for a record that lapses at instant
/// `expiry_instant`, seen from a machine whose clock reads `now_instant` at
/// calendar second `now_utc`.
pub open spec fn spec_persisted_expiry(now_utc: i64, now_instant: u64, expiry_instant: u64) -> i64 {
    if expiry_instant <= now_instant {
        now_utc
    } else if now_utc + (expiry_instant - now_instant) <= i64::MAX {
        (now_utc + (expiry_instant - now_instant)) as i64
    } else {
        i64::MAX
    }
}

/// Computes [`spec_persisted_expiry`].
pub fn persisted_expiry(now_utc: i64, now_instant: u64, expiry_instant: u64) -> (r: i64)
    ensures
        r == spec_persisted_expiry(now_utc, now_instant, expiry_instant),
{
    if expiry_instant <= now_instant {
        now_utc
    } else {
        let left: u64 = expiry_instant - now_instant;
        let sum: i128 = (now_utc as i128) + (left as i128);
        if sum > (i64::MAX as i128) {
            i64::MAX
        } else {
            sum as i64
        }
    }
}

/// The context one event is handled in: the number the next query would get,
/// the two clocks, and the connection snapshot for status reports.
#[derive(Clone, Copy, Debug)]
pub struct EventCtx {
    pub next_query_id: u64,
    pub now_instant: u64,
    pub now_utc: i64,
    pub status: SwarmStatus,
}

/// The reactor's whole decision state.
#[derive(Debug)]
pub struct TheManLogic {
    pub state: TheManState,
    /// The number of the running routing-table refresh query, if any.
    pub bootstrap: Option<u64>,
    /// Whether the refresh cycle re-arms itself on completion.
    pub bootstraping: bool,
    /// The topics subscribed since the account went on line.
    pub subscribed: Vec<String>,
    /// Phase two of a name registration: the publication query and the
    /// instant the record will lapse at.
    pub registration_query: Option<(u64, u64)>,
    /// Phase one of a name registration: the readiness lookup and the name
    /// hash it was issued for.
    pub registration_step_1_query: Option<(u64, Vec<u8>)>,
    /// The next fresh audio playback channel number.
    pub audio_counter: usize,
    /// The known-peer floor under which no registration is attempted.
    pub min_peers: usize,
    /// Messages for the interface shell, oldest first.
    pub outbox: Vec<Message>,
    /// Messages for the audio engine, oldest first.
    pub audio_outbox: Vec<Message>,
    /// Commands for the connection machinery, oldest first.
    pub commands: Vec<SwarmCommand>,
}

/// Whether a renewal wake may start phase one of a registration: an account
/// with automatic renewal is on line, no registration phase is in flight,
/// and the known-peer count reaches the configured floor.
pub open spec fn renewal_gate(l: TheManLogic, num_peers: usize) -> bool {
    &&& l.state.account matches Some(a) && a.auto_renew
    &&& l.registration_step_1_query is None
    &&& l.registration_query is None
    &&& num_peers >= l.min_peers
}

/// Whether a query report completes the outstanding phase-one lookup and the
/// registration may proceed to phase two: an account is on line, the report
/// is not the bootstrap cycle's, it carries the phase-one query's number, it
/// is the query's last report, and the known-peer count still reaches the
/// configured floor at this moment.
pub open spec fn phase_one_completes(
    l: TheManLogic,
    id: u64,
    step: ProgressStep,
    num_peers: usize,
) -> bool {
    &&& l.state.account is Some
    &&& l.bootstrap != Some(id)
    &&& l.registration_step_1_query matches Some((q, _)) && q == id
    &&& step.last
    &&& num_peers >= l.min_peers
}

/// Whether a query report is the bootstrap cycle's, due to re-arm: it ends
/// the current refresh query while the cycle is switched on.
pub open spec fn bootstrap_rearms(l: TheManLogic, id: u64, step: ProgressStep) -> bool {
    &&& l.state.account is Some
    &&& l.bootstrap == Some(id)
    &&& step.last
    &&& l.bootstraping
}

/// Whether a query report completes the outstanding phase-two publication.
pub open spec fn phase_two_completes(
    l: TheManLogic,
    id: u64,
    result: QueryUpdate,
    put_ok: bool,
) -> bool {
    &&& l.state.account is Some
    &&& l.bootstrap != Some(id)
    &&& l.registration_query matches Some((q, _)) && q == id
    &&& result matches QueryUpdate::PutRecord { ok } && ok == put_ok
}

/// Whether this command publishes the given name record.
pub open spec fn is_put_record(
    c: SwarmCommand,
    query_id: u64,
    key: Seq<u8>,
    value: Seq<u8>,
    publisher: PeerId,
    expires: u64,
) -> bool {
    &&& c matches SwarmCommand::PutRecord { query_id: q, key: k, value: v, publisher: p, expires: e }
    &&& q == query_id
    &&& k@ == key
    &&& v@ == value
    &&& p == publisher
    &&& e == expires
}

impl TheManLogic {
    /// A fresh reactor around a loaded state: no queries in flight, the
    /// bootstrap cycle armed, and every queue empty.
    pub fn new(state: TheManState) -> (r: TheManLogic)
        ensures
            r.state == state,
            r.bootstrap is None,
            r.bootstraping,
            r.subscribed@ == Seq::<String>::empty(),
            r.registration_query is None,
            r.registration_step_1_query is None,
            r.audio_counter == 0,
            r.min_peers == MIN_KNOWN_PEERS,
            r.outbox@ == Seq::<Message>::empty(),
            r.audio_outbox@ == Seq::<Message>::empty(),
            r.commands@ == Seq::<SwarmCommand>::empty(),
    {
        TheManLogic {
            state,
            bootstrap: None,
            bootstraping: true,
            subscribed: Vec::new(),
            registration_query: None,
            registration_step_1_query: None,
            audio_counter: 0,
            min_peers: MIN_KNOWN_PEERS,
            outbox: Vec::new(),
            audio_outbox: Vec::new(),
            commands: Vec::new(),
        }
    }

    /// First turn of the reactor: the shell learns the stored accounts, and
    /// the audio engine opens the one capture channel, number zero.
    pub fn on_start(&mut self)
        ensures
            final(self).outbox@.len() == old(self).outbox@.len() + 1,
            final(self).outbox@.last() matches Message::Accounts(a) && a.deep_view() == old(
                self,
            ).state.accounts.deep_view(),
            final(self).audio_outbox@.len() == old(self).audio_outbox@.len() + 1,
            final(self).audio_outbox@.last() matches Message::Audio(
                AudioMessage::CreateInputChannel { id, codec },
            ) && id == 0 && codec@ == opus_name(),
            final(self).audio_counter == 1,
            *final(self) == (TheManLogic {
                outbox: final(self).outbox,
                audio_outbox: final(self).audio_outbox,
                audio_counter: final(self).audio_counter,
                ..*old(self)
            }),
    {
        let accounts = clone_accounts(&self.state.accounts);
        self.outbox.push(Message::Accounts(accounts));
        self.audio_outbox.push(
            Message::Audio(AudioMessage::CreateInputChannel { id: 0, codec: opus() }),
        );
        self.audio_counter = 1;
    }

    /// Reports the connection snapshot to the shell, while an account is on
    /// line.
    pub fn update_swarm_status(&mut self, status: SwarmStatus)
        ensures
            *final(self) == (TheManLogic { outbox: final(self).outbox, ..*old(self) }),
            old(self).state.account is Some ==> final(self).outbox@ == old(self).outbox@.push(
                Message::SwarmStatus(status),
            ),
            old(self).state.account is None ==> final(self).outbox@ == old(self).outbox@,
    {
        if self.state.account.is_some() {
            self.outbox.push(Message::SwarmStatus(status));
        }
    }

    /// A renewal timer wake. When renewal may proceed (automatic renewal is
    /// on, nothing is in flight, and at least `min_peers` peers are known)
    /// phase one starts: the digest of the display name is remembered under
    /// `query_id` and returned as the key whose closest peers the
    /// application must look up. Otherwise nothing changes.
    pub fn on_renewal_due(&mut self, num_peers: usize, query_id: u64) -> (r: Option<Vec<u8>>)
        ensures
            !renewal_gate(*old(self), num_peers) ==> r is None && *final(self) == *old(self),
            renewal_gate(*old(self), num_peers) ==> {
                &&& r matches Some(k) && k@ == sha256_of(
                    encode_utf8(old(self).state.account->Some_0.name@),
                )
                &&& final(self).registration_step_1_query matches Some((q, h)) && q == query_id
                    && h@ == sha256_of(encode_utf8(old(self).state.account->Some_0.name@))
                &&& *final(self) == (TheManLogic {
                    registration_step_1_query: final(self).registration_step_1_query,
                    ..*old(self)
                })
            },
    {
        let gate_open = match &self.state.account {
            Some(a) => a.auto_renew && self.registration_step_1_query.is_none()
                && self.registration_query.is_none() && num_peers >= self.min_peers,
            None => false,
        };
        if !gate_open {
            return None;
        }
        let hash = match &self.state.account {
            Some(a) => name_key(a.name.as_str()),
            None => Vec::new(),
        };
        let key = vstd::slice::slice_to_vec(hash.as_slice());
        self.registration_step_1_query = Some((query_id, hash));
        Some(key)
    }

    /// Phase two failed to start on the machinery's side: the attempt is
    /// abandoned; the next renewal wake retries.
    pub fn registration_put_failed(&mut self)
        ensures
            *final(self) == (TheManLogic { registration_query: None, ..*old(self) }),
    {
        self.registration_query = None;
    }
}

/// The name of the one audio codec in use.
pub fn opus() -> (r: String)
    ensures
        r@ == opus_name(),
{
    proof {
        reveal_strlit("opus");
    }
    "opus".to_owned()
}

/// The value of the one audio codec name.
pub open spec fn opus_name() -> Seq<char> {
    "opus"@
}

/// The position of the first audio route for (channel, peer).
pub open spec fn spec_route_index(routes: Seq<VoiceRoute>, channel: Seq<char>, peer: PeerId)
    -> Option<int>
    decreases routes.len(),
{
    if routes.len() == 0 {
        None
    } else if routes[0].channel@ == channel && routes[0].peer == peer {
        Some(0)
    } else {
        match spec_route_index(routes.drop_first(), channel, peer) {
            Some(k) => Some(k + 1),
            None => None,
        }
    }
}

/// Searching past a prefix without matches shifts the found position.
proof fn lemma_route_index_skip(routes: Seq<VoiceRoute>, channel: Seq<char>, peer: PeerId, i: int)
    requires
        0 <= i <= routes.len(),
        forall|j: int|
            0 <= j < i ==> !((#[trigger] routes[j]).channel@ == channel && routes[j].peer == peer),
    ensures
        spec_route_index(routes, channel, peer) == match spec_route_index(
            routes.skip(i),
            channel,
            peer,
        ) {
            Some(k) => Some(k + i),
            None => None::<int>,
        },
    decreases i,
{
    if i > 0 {
        assert(!(routes[0].channel@ == channel && routes[0].peer == peer));
        assert forall|j: int|
            0 <= j < i - 1 implies !((#[trigger] routes.drop_first()[j]).channel@ == channel
            && routes.drop_first()[j].peer == peer) by {
            assert(routes.drop_first()[j] == routes[j + 1]);
        }
        lemma_route_index_skip(routes.drop_first(), channel, peer, i - 1);
        assert(routes.drop_first().skip(i - 1) =~= routes.skip(i));
    } else {
        assert(routes.skip(0) =~= routes);
    }
}

/// Finds the position of the audio route for (channel, peer).
#[verifier::loop_isolation(false)]
fn find_route(routes: &Vec<VoiceRoute>, channel: &String, peer: PeerId) -> (r: Option<usize>)
    ensures
        match r {
            Some(k) => spec_route_index(routes@, channel@, peer) == Some(k as int) && k
                < routes@.len() && routes@[k as int].channel@ == channel@ && routes@[k as int].peer
                == peer,
            None => spec_route_index(routes@, channel@, peer) is None,
        },
{
    let mut i: usize = 0;
    while i < routes.len()
        invariant
            0 <= i <= routes.len(),
            forall|j: int|
                0 <= j < i ==> !((#[trigger] routes@[j]).channel@ == channel@ && routes@[j].peer
                    == peer),
        decreases routes.len() - i,
    {
        let here = routes[i].channel.eq(channel) && routes[i].peer == peer;
        if here {
            proof {
                lemma_route_index_skip(routes@, channel@, peer, i as int);
                assert(routes@.skip(i as int)[0] == routes@[i as int]);
            }
            return Some(i);
        }
        i = i + 1;
    }
    proof {
        lemma_route_index_skip(routes@, channel@, peer, routes@.len() as int);
        assert(routes@.skip(routes@.len() as int) =~= Seq::<VoiceRoute>::empty());
    }
    None
}

/// Keeps the audio routes of peers other than `peer`.
pub open spec fn pred_route_not_peer(peer: PeerId) -> spec_fn(VoiceRoute) -> bool {
    |r: VoiceRoute| r.peer != peer
}

/// Maps a departing peer's route to the teardown of its playback channel.
pub open spec fn route_destroy_fn(peer: PeerId) -> spec_fn(VoiceRoute) -> Option<Message> {
    |r: VoiceRoute|
        if r.peer == peer {
            Some(Message::Audio(AudioMessage::DestroyOuputChannel { id: r.audio_id }))
        } else {
            None
        }
}

/// Persists a new expiry for the stored account at `i`.
fn set_account_expires(accounts: &mut Vec<crate::save_state::Account>, i: usize, expires: i64)
    requires
        i < old(accounts)@.len(),
    ensures
        final(accounts)@ == old(accounts)@.update(
            i as int,
            crate::save_state::Account {
                expires,
                name: old(accounts)@[i as int].name,
                private: old(accounts)@[i as int].private,
                friends: old(accounts)@[i as int].friends,
                channels: old(accounts)@[i as int].channels,
                renew: old(accounts)@[i as int].renew,
            },
        ),
{
    let a = accounts.remove(i);
    let a2 = crate::save_state::Account { expires, ..a };
    accounts.insert(i, a2);
    proof {
        assert(accounts@ =~= old(accounts)@.update(
            i as int,
            crate::save_state::Account {
                expires,
                name: old(accounts)@[i as int].name,
                private: old(accounts)@[i as int].private,
                friends: old(accounts)@[i as int].friends,
                channels: old(accounts)@[i as int].channels,
                renew: old(accounts)@[i as int].renew,
            },
        ));
    }
}

/// What handling one query report does; see [`TheManLogic::on_query_progressed`].
pub open spec fn post_query_progressed(
    pre: TheManLogic,
    post: TheManLogic,
    id: u64,
    result: QueryUpdate,
    step: ProgressStep,
    ctx: EventCtx,
) -> bool {
    if pre.state.account is None {
        post == pre
    } else if pre.bootstrap == Some(id) {
        // The refresh cycle: re-arm on completion while it is switched on.
        if step.last && pre.bootstraping {
            post == (TheManLogic {
                bootstrap: Some(ctx.next_query_id),
                commands: post.commands,
                ..pre
            }) && post.commands@ == pre.commands@.push(
                SwarmCommand::Bootstrap { query_id: ctx.next_query_id },
            )
        } else {
            post == pre
        }
    } else {
        // Any other query is forwarded to the shell, after the registration
        // phases take what is theirs.
        if phase_one_completes(pre, id, step, ctx.status.num_peers) {
            // Phase one done: publish the self-certifying record and
            // remember phase two under its expiry instant.
            let expires = spec_sat_add(ctx.now_instant, REGISTRATION_TTL_SECS);
            let acct = pre.state.account->Some_0;
            &&& post == (TheManLogic {
                registration_step_1_query: None,
                registration_query: Some((ctx.next_query_id, expires)),
                commands: post.commands,
                outbox: post.outbox,
                ..pre
            })
            &&& post.commands@.len() == pre.commands@.len() + 1
            &&& is_put_record(
                post.commands@.last(),
                ctx.next_query_id,
                pre.registration_step_1_query->Some_0.1@,
                spec_peer_id_bytes(acct.peer_id),
                acct.peer_id,
                expires,
            )
            &&& post.outbox@ == pre.outbox@.push(Message::KademliaQueryProgress(id, result, step))
        } else if pre.registration_step_1_query matches Some((q, _)) && q == id && step.last {
            // The lookup completed but the known-peer floor fell meanwhile:
            // the attempt is abandoned; the next renewal wake retries.
            &&& post == (TheManLogic {
                registration_step_1_query: None,
                outbox: post.outbox,
                ..pre
            })
            &&& post.outbox@ == pre.outbox@.push(Message::KademliaQueryProgress(id, result, step))
        } else if phase_two_completes(pre, id, result, true) {
            // Phase two succeeded: the record is out; remember its expiry,
            // persist it, and tell the shell.
            let instant = pre.registration_query->Some_0.1;
            let acct = pre.state.account->Some_0;
            let persisted = spec_persisted_expiry(ctx.now_utc, ctx.now_instant, instant);
            &&& post == (TheManLogic {
                registration_query: None,
                state: TheManState {
                    account: post.state.account,
                    accounts: post.state.accounts,
                    ..pre.state
                },
                outbox: post.outbox,
                ..pre
            })
            &&& post.state.account == Some(ActiveAccount { expires: instant, ..acct })
            &&& post.state.accounts@ == if acct.index < pre.state.accounts@.len() {
                pre.state.accounts@.update(
                    acct.index as int,
                    crate::save_state::Account {
                        expires: persisted,
                        name: pre.state.accounts@[acct.index as int].name,
                        private: pre.state.accounts@[acct.index as int].private,
                        friends: pre.state.accounts@[acct.index as int].friends,
                        channels: pre.state.accounts@[acct.index as int].channels,
                        renew: pre.state.accounts@[acct.index as int].renew,
                    },
                )
            } else {
                pre.state.accounts@
            }
            &&& post.outbox@.len() == pre.outbox@.len() + 2
            &&& post.outbox@[pre.outbox@.len() as int] matches Message::Accounts(a)
                && a.deep_view() == post.state.accounts.deep_view()
            &&& post.outbox@.last() == Message::KademliaQueryProgress(id, result, step)
        } else if phase_two_completes(pre, id, result, false) {
            // Phase two failed: abandon silently; the next renewal wake
            // retries.
            &&& post == (TheManLogic { registration_query: None, outbox: post.outbox, ..pre })
            &&& post.outbox@ == pre.outbox@.push(Message::KademliaQueryProgress(id, result, step))
        } else {
            &&& post == (TheManLogic { outbox: post.outbox, ..pre })
            &&& post.outbox@ == pre.outbox@.push(Message::KademliaQueryProgress(id, result, step))
        }
    }
}

/// What recording a peer's self-description does.
pub open spec fn post_identify(
    pre: TheManLogic,
    post: TheManLogic,
    peer: PeerId,
    info: crate::state::IdentifyInfo,
) -> bool {
    match spec_peer_index(pre.state.peers@, peer) {
        Some(k) => {
            &&& post == (TheManLogic {
                state: TheManState { peers: post.state.peers, ..pre.state },
                ..pre
            })
            &&& post.state.peers@ == pre.state.peers@.update(
                k,
                (pre.state.peers@[k].0, PeerStatus {
                    info: Some(info),
                    ping: pre.state.peers@[k].1.ping,
                }),
            )
        },
        None => post == pre,
    }
}

/// What recording a ping outcome does.
pub open spec fn post_ping(
    pre: TheManLogic,
    post: TheManLogic,
    peer: PeerId,
    result: Result<PingOk, PingError>,
) -> bool {
    match spec_peer_index(pre.state.peers@, peer) {
        Some(k) => {
            &&& post == (TheManLogic {
                state: TheManState { peers: post.state.peers, ..pre.state },
                ..pre
            })
            &&& post.state.peers@ == pre.state.peers@.update(
                k,
                (pre.state.peers@[k].0, PeerStatus {
                    info: pre.state.peers@[k].1.info,
                    ping: Some(result),
                }),
            )
        },
        None => post == pre,
    }
}

/// What a fresh connection does: the peer enters the table with a blank
/// record, and the shell gets a status report while an account is on line.
pub open spec fn post_connection_established(
    pre: TheManLogic,
    post: TheManLogic,
    peer: PeerId,
    status: SwarmStatus,
) -> bool {
    &&& post == (TheManLogic {
        state: TheManState { peers: post.state.peers, ..pre.state },
        outbox: post.outbox,
        ..pre
    })
    &&& post.state.peers@ == match spec_peer_index(pre.state.peers@, peer) {
        Some(k) => pre.state.peers@.update(k, (peer, PeerStatus { info: None, ping: None })),
        None => pre.state.peers@.push((peer, PeerStatus { info: None, ping: None })),
    }
    &&& post.outbox@ == if pre.state.account is Some {
        pre.outbox@.push(Message::SwarmStatus(status))
    } else {
        pre.outbox@
    }
}

/// What a closed connection does: the peer leaves the table, and the shell
/// gets a status report while an account is on line.
pub open spec fn post_connection_closed(
    pre: TheManLogic,
    post: TheManLogic,
    peer: PeerId,
    status: SwarmStatus,
) -> bool {
    &&& post == (TheManLogic {
        state: TheManState { peers: post.state.peers, ..pre.state },
        outbox: post.outbox,
        ..pre
    })
    &&& post.state.peers@ == match spec_peer_index(pre.state.peers@, peer) {
        Some(k) => pre.state.peers@.remove(k),
        None => pre.state.peers@,
    }
    &&& post.outbox@ == if pre.state.account is Some {
        pre.outbox@.push(Message::SwarmStatus(status))
    } else {
        pre.outbox@
    }
}

/// What routing one voice packet does; the first packet from a peer on a
/// channel opens a playback channel for it.
pub open spec fn post_voice_packet(
    pre: TheManLogic,
    post: TheManLogic,
    from: PeerId,
    data: Vec<u8>,
    channel: String,
) -> bool {
    if pre.state.account is None {
        post == pre
    } else {
        let acct = pre.state.account->Some_0;
        let routes = acct.voice_channels@;
        match spec_route_index(routes, channel@, from) {
            Some(k) => {
                &&& post == (TheManLogic { audio_outbox: post.audio_outbox, ..pre })
                &&& post.audio_outbox@ == pre.audio_outbox@.push(
                    Message::Audio(AudioMessage::OutputData { id: routes[k].audio_id, data }),
                )
            },
            None => {
                let id = pre.audio_counter;
                &&& post == (TheManLogic {
                    state: TheManState { account: post.state.account, ..pre.state },
                    audio_counter: if pre.audio_counter < usize::MAX {
                        (pre.audio_counter + 1) as usize
                    } else {
                        pre.audio_counter
                    },
                    audio_outbox: post.audio_outbox,
                    ..pre
                })
                &&& post.state.account == Some(
                    ActiveAccount {
                        voice_channels: post.state.account->Some_0.voice_channels,
                        ..acct
                    },
                )
                &&& post.state.account->Some_0.voice_channels@ == routes.push(
                    VoiceRoute { channel, peer: from, audio_id: id },
                )
                &&& post.audio_outbox@.len() == pre.audio_outbox@.len() + 2
                &&& (post.audio_outbox@[pre.audio_outbox@.len() as int] matches Message::Audio(
                    AudioMessage::CreateOutputChannel { id: cid, codec },
                ) && cid == id && codec@ == opus_name())
                &&& post.audio_outbox@.last() == Message::Audio(
                    AudioMessage::OutputData { id, data },
                )
            },
        }
    }
}

/// What a peer leaving one channel does: its playback channel is torn down
/// and the shell learns of the departure.
pub open spec fn post_voice_left_channel(
    pre: TheManLogic,
    post: TheManLogic,
    channel: String,
    from: PeerId,
) -> bool {
    if pre.state.account is None {
        post == pre
    } else {
        let acct = pre.state.account->Some_0;
        let routes = acct.voice_channels@;
        &&& post == (TheManLogic {
            state: TheManState { account: post.state.account, ..pre.state },
            audio_outbox: post.audio_outbox,
            outbox: post.outbox,
            ..pre
        })
        &&& match spec_route_index(routes, channel@, from) {
            Some(k) => {
                &&& post.state.account == Some(
                    ActiveAccount {
                        voice_channels: post.state.account->Some_0.voice_channels,
                        ..acct
                    },
                )
                &&& post.state.account->Some_0.voice_channels@ == routes.remove(k)
                &&& post.audio_outbox@ == pre.audio_outbox@.push(
                    Message::Audio(AudioMessage::DestroyOuputChannel { id: routes[k].audio_id }),
                )
            },
            None => {
                &&& post.state.account == pre.state.account
                &&& post.audio_outbox@ == pre.audio_outbox@
            },
        }
        &&& post.outbox@ == pre.outbox@.push(
            Message::Voice(VoiceMessage::UnRequest(channel, from)),
        )
    }
}

/// What a fully departed peer does: every playback channel routed to it is
/// torn down, in route order, and the shell learns it is gone.
pub open spec fn post_voice_peer_gone(pre: TheManLogic, post: TheManLogic, from: PeerId) -> bool {
    if pre.state.account is None {
        post == pre
    } else {
        let acct = pre.state.account->Some_0;
        let routes = acct.voice_channels@;
        &&& post == (TheManLogic {
            state: TheManState { account: post.state.account, ..pre.state },
            audio_outbox: post.audio_outbox,
            outbox: post.outbox,
            ..pre
        })
        &&& post.state.account == Some(
            ActiveAccount { voice_channels: post.state.account->Some_0.voice_channels, ..acct },
        )
        &&& post.state.account->Some_0.voice_channels@ == routes.filter(pred_route_not_peer(from))
        &&& post.audio_outbox@ == pre.audio_outbox@ + routes.filter_map(route_destroy_fn(from))
        &&& post.outbox@ == pre.outbox@.push(Message::Voice(VoiceMessage::Disconnected(from)))
    }
}

/// What one voice-relay event does; see [`TheManLogic::on_voice_event`].
pub open spec fn post_voice_event(
    pre: TheManLogic,
    post: TheManLogic,
    event: BehaviourEvent,
) -> bool {
    match event {
        BehaviourEvent::VoicePacket { from, codec: _, data, channel } => post_voice_packet(
            pre,
            post,
            from,
            data,
            channel,
        ),
        BehaviourEvent::Request { channel, from } => if pre.state.account is None {
            post == pre
        } else {
            &&& post == (TheManLogic { outbox: post.outbox, ..pre })
            &&& post.outbox@ == pre.outbox@.push(
                Message::Voice(VoiceMessage::Request(channel, from)),
            )
        },
        BehaviourEvent::Disconnected { channel, from } => post_voice_left_channel(
            pre,
            post,
            channel,
            from,
        ),
        BehaviourEvent::VoiceDisconnected { from } => post_voice_peer_gone(pre, post, from),
        BehaviourEvent::VoiceErrorConnection { .. } => post == pre,
    }
}

/// What a gossip report does: forwarded to the shell.
pub open spec fn post_gossip_message(
    pre: TheManLogic,
    post: TheManLogic,
    message: crate::message::GossipMessage,
) -> bool {
    &&& post == (TheManLogic { outbox: post.outbox, ..pre })
    &&& post.outbox@ == pre.outbox@.push(Message::NewMessage(message.topic, message))
}

/// A subscription report: forwarded to the shell.
pub open spec fn post_gossip_subscribed(
    pre: TheManLogic,
    post: TheManLogic,
    peer: PeerId,
    topic: String,
) -> bool {
    &&& post == (TheManLogic { outbox: post.outbox, ..pre })
    &&& post.outbox@ == pre.outbox@.push(Message::NewSubscribed(peer, topic))
}

/// An unsubscription report: forwarded to the shell.
pub open spec fn post_gossip_unsubscribed(
    pre: TheManLogic,
    post: TheManLogic,
    peer: PeerId,
    topic: String,
) -> bool {
    &&& post == (TheManLogic { outbox: post.outbox, ..pre })
    &&& post.outbox@ == pre.outbox@.push(Message::DestroySubscriber(peer, topic))
}

/// A status refresh: reported while an account is on line.
pub open spec fn post_status_refresh(
    pre: TheManLogic,
    post: TheManLogic,
    status: SwarmStatus,
) -> bool {
    &&& post == (TheManLogic { outbox: post.outbox, ..pre })
    &&& post.outbox@ == if pre.state.account is Some {
        pre.outbox@.push(Message::SwarmStatus(status))
    } else {
        pre.outbox@
    }
}

impl TheManLogic {
    /// One distributed hash table query progressed: the bootstrap cycle
    /// re-arms itself; a completed phase-one lookup publishes the name
    /// record and opens phase two; a finished phase-two publication settles
    /// the expiry; everything that is not the bootstrap cycle's is forwarded
    /// to the shell. Nothing happens while no account is on line.
    pub fn on_query_progressed(&mut self, id: u64, result: QueryUpdate, step: ProgressStep, ctx: EventCtx)
        ensures
            post_query_progressed(*old(self), *final(self), id, result, step, ctx),
    {
        if self.state.account.is_none() {
            return;
        }
        let is_bootstrap = match self.bootstrap {
            Some(b) => b == id,
            None => false,
        };
        if is_bootstrap {
            if step.last && self.bootstraping {
                self.bootstrap = Some(ctx.next_query_id);
                self.commands.push(SwarmCommand::Bootstrap { query_id: ctx.next_query_id });
            }
            return;
        }
        let phase_one = match &self.registration_step_1_query {
            Some((q, _)) => *q == id && step.last && ctx.status.num_peers >= self.min_peers,
            None => false,
        };
        let lookup_done = match &self.registration_step_1_query {
            Some((q, _)) => *q == id && step.last,
            None => false,
        };
        if lookup_done && !phase_one {
            self.registration_step_1_query = None;
            self.outbox.push(Message::KademliaQueryProgress(id, result, step));
            return;
        }
        if phase_one {
            let token = self.registration_step_1_query.take();
            let expires = sat_add(ctx.now_instant, REGISTRATION_TTL_SECS);
            match (token, &self.state.account) {
                (Some((_, hash)), Some(acct)) => {
                    let publisher = acct.peer_id;
                    let value = publisher.to_bytes();
                    self.commands.push(
                        SwarmCommand::PutRecord {
                            query_id: ctx.next_query_id,
                            key: hash,
                            value,
                            publisher,
                            expires,
                        },
                    );
                    self.registration_query = Some((ctx.next_query_id, expires));
                },
                _ => {},
            }
            self.outbox.push(Message::KademliaQueryProgress(id, result, step));
            return;
        }
        let phase_two = match &self.registration_query {
            Some((q, _)) => *q == id && matches!(result, QueryUpdate::PutRecord { .. }),
            None => false,
        };
        if phase_two {
            let token = self.registration_query.take();
            let ok = matches!(result, QueryUpdate::PutRecord { ok: true });
            if ok {
                let instant = match token {
                    Some((_, t)) => t,
                    None => 0,
                };
                let mut index: usize = 0;
                match &mut self.state.account {
                    Some(a) => {
                        a.expires = instant;
                        index = a.index;
                    },
                    None => {},
                }
                if index < self.state.accounts.len() {
                    let persisted = persisted_expiry(ctx.now_utc, ctx.now_instant, instant);
                    set_account_expires(&mut self.state.accounts, index, persisted);
                }
                let accounts = clone_accounts(&self.state.accounts);
                self.outbox.push(Message::Accounts(accounts));
            }
            self.outbox.push(Message::KademliaQueryProgress(id, result, step));
            return;
        }
        self.outbox.push(Message::KademliaQueryProgress(id, result, step));
    }

    /// Records what a peer reported about itself; unknown peers are ignored.
    pub fn on_identify_received(&mut self, peer: PeerId, info: crate::state::IdentifyInfo)
        ensures
            post_identify(*old(self), *final(self), peer, info),
    {
        match find_peer(&self.state.peers, peer) {
            Some(k) => {
                let entry = self.state.peers.remove(k);
                self.state.peers.insert(
                    k,
                    (entry.0, PeerStatus { info: Some(info), ping: entry.1.ping }),
                );
                proof {
                    crate::state::lemma_peer_index_in_range(old(self).state.peers@, peer);
                    assert(self.state.peers@ =~= old(self).state.peers@.update(
                        k as int,
                        (old(self).state.peers@[k as int].0, PeerStatus {
                            info: Some(info),
                            ping: old(self).state.peers@[k as int].1.ping,
                        }),
                    ));
                }
            },
            None => {},
        }
    }

    /// Records a ping outcome; unknown peers are ignored.
    pub fn on_ping_result(&mut self, peer: PeerId, result: Result<PingOk, PingError>)
        ensures
            post_ping(*old(self), *final(self), peer, result),
    {
        match find_peer(&self.state.peers, peer) {
            Some(k) => {
                let entry = self.state.peers.remove(k);
                self.state.peers.insert(
                    k,
                    (entry.0, PeerStatus { info: entry.1.info, ping: Some(result) }),
                );
                proof {
                    crate::state::lemma_peer_index_in_range(old(self).state.peers@, peer);
                    assert(self.state.peers@ =~= old(self).state.peers@.update(
                        k as int,
                        (old(self).state.peers@[k as int].0, PeerStatus {
                            info: old(self).state.peers@[k as int].1.info,
                            ping: Some(result),
                        }),
                    ));
                }
            },
            None => {},
        }
    }

    /// A connection was established: the peer enters the table with a blank
    /// record, and the shell learns the new status.
    pub fn on_connection_established(&mut self, peer: PeerId, status: SwarmStatus)
        ensures
            post_connection_established(*old(self), *final(self), peer, status),
    {
        match find_peer(&self.state.peers, peer) {
            Some(k) => {
                let _ = self.state.peers.remove(k);
                self.state.peers.insert(k, (peer, PeerStatus { info: None, ping: None }));
                proof {
                    crate::state::lemma_peer_index_in_range(old(self).state.peers@, peer);
                    assert(self.state.peers@ =~= old(self).state.peers@.update(
                        k as int,
                        (peer, PeerStatus { info: None, ping: None }),
                    ));
                }
            },
            None => {
                self.state.peers.push((peer, PeerStatus { info: None, ping: None }));
            },
        }
        self.update_swarm_status(status);
    }

    /// A connection closed: the peer leaves the table, and the shell learns
    /// the new status.
    pub fn on_connection_closed(&mut self, peer: PeerId, status: SwarmStatus)
        ensures
            post_connection_closed(*old(self), *final(self), peer, status),
    {
        match find_peer(&self.state.peers, peer) {
            Some(k) => {
                let _ = self.state.peers.remove(k);
            },
            None => {},
        }
        self.update_swarm_status(status);
    }

    /// Routes one voice packet to its playback channel, opening one on
    /// first contact with this peer on this channel.
    pub fn on_voice_packet(&mut self, from: PeerId, data: Vec<u8>, channel: String)
        ensures
            post_voice_packet(*old(self), *final(self), from, data, channel),
    {
        if self.state.account.is_none() {
            return;
        }
        let found = match &self.state.account {
            Some(a) => find_route(&a.voice_channels, &channel, from),
            None => None,
        };
        match found {
            Some(k) => {
                let id = match &self.state.account {
                    Some(a) => a.voice_channels[k].audio_id,
                    None => 0,
                };
                self.audio_outbox.push(Message::Audio(AudioMessage::OutputData { id, data }));
            },
            None => {
                let id = self.audio_counter;
                if self.audio_counter < usize::MAX {
                    self.audio_counter = self.audio_counter + 1;
                }
                match &mut self.state.account {
                    Some(a) => {
                        a.voice_channels.push(VoiceRoute { channel, peer: from, audio_id: id });
                    },
                    None => {},
                }
                self.audio_outbox.push(
                    Message::Audio(AudioMessage::CreateOutputChannel { id, codec: opus() }),
                );
                self.audio_outbox.push(Message::Audio(AudioMessage::OutputData { id, data }));
            },
        }
    }

    /// A peer left one channel: its playback channel is torn down and the
    /// shell learns of the departure.
    pub fn on_voice_left_channel(&mut self, channel: String, from: PeerId)
        ensures
            post_voice_left_channel(*old(self), *final(self), channel, from),
    {
        if self.state.account.is_none() {
            return;
        }
        let found = match &self.state.account {
            Some(a) => find_route(&a.voice_channels, &channel, from),
            None => None,
        };
        match found {
            Some(k) => {
                let removed = match &mut self.state.account {
                    Some(a) => Some(a.voice_channels.remove(k)),
                    None => None,
                };
                match removed {
                    Some(r) => {
                        self.audio_outbox.push(
                            Message::Audio(AudioMessage::DestroyOuputChannel { id: r.audio_id }),
                        );
                    },
                    None => {},
                }
            },
            None => {},
        }
        self.outbox.push(Message::Voice(VoiceMessage::UnRequest(channel, from)));
    }

    /// A peer is fully gone: every playback channel routed to it is torn
    /// down, in route order, and the shell learns of it.
    #[verifier::loop_isolation(false)]
    pub fn on_voice_peer_gone(&mut self, from: PeerId)
        ensures
            post_voice_peer_gone(*old(self), *final(self), from),
    {
        if self.state.account.is_none() {
            return;
        }
        let ghost pre = *self;
        let acct_opt = self.state.account.take();
        match acct_opt {
            Some(mut a) => {
                let ghost acct0 = pre.state.account->Some_0;
                let ghost routes = acct0.voice_channels@;
                let ghost keep = pred_route_not_peer(from);
                let ghost destroy = route_destroy_fn(from);
                let mut kept: Vec<VoiceRoute> = Vec::new();
                let mut i: usize = 0;
                proof {
                    assert(routes.take(0).filter(keep) =~= Seq::<VoiceRoute>::empty());
                    assert(routes.take(0).filter_map(destroy) =~= Seq::<Message>::empty());
                    assert(self.audio_outbox@ =~= pre.audio_outbox@ + routes.take(0).filter_map(
                        destroy,
                    ));
                }
                while i < a.voice_channels.len()
                    invariant
                        0 <= i <= a.voice_channels.len(),
                        a == acct0,
                        routes == acct0.voice_channels@,
                        routes.len() == a.voice_channels.len(),
                        *self == (TheManLogic {
                            state: self.state,
                            audio_outbox: self.audio_outbox,
                            ..pre
                        }),
                        self.state == (TheManState { account: None, ..pre.state }),
                        kept@ == routes.take(i as int).filter(keep),
                        self.audio_outbox@ == pre.audio_outbox@ + routes.take(i as int).filter_map(
                            destroy,
                        ),
                    decreases a.voice_channels.len() - i,
                {
                    let ghost kpre = kept@;
                    if a.voice_channels[i].peer == from {
                        let id = a.voice_channels[i].audio_id;
                        self.audio_outbox.push(
                            Message::Audio(AudioMessage::DestroyOuputChannel { id }),
                        );
                    } else {
                        let route = VoiceRoute {
                            channel: a.voice_channels[i].channel.clone(),
                            peer: a.voice_channels[i].peer,
                            audio_id: a.voice_channels[i].audio_id,
                        };
                        proof {
                            assert(route == routes[i as int]);
                        }
                        kept.push(route);
                        proof {
                            assert(kept@ =~= kpre.push(routes[i as int]));
                        }
                    }
                    proof {
                        routes.take(i as int).lemma_filter_push(routes[i as int], keep);
                        routes.lemma_filter_map_take_succ(destroy, i as int);
                        assert(routes.take(i as int).push(routes[i as int]) =~= routes.take(i + 1));
                    }
                    i = i + 1;
                }
                proof {
                    assert(routes.take(routes.len() as int) =~= routes);
                }
                a.voice_channels = kept;
                self.state.account = Some(a);
            },
            None => {},
        }
        self.outbox.push(Message::Voice(VoiceMessage::Disconnected(from)));
    }

    /// One event from the channel-mesh behaviour: voice packets are routed
    /// to their playback channel, opening one on first contact; requests and
    /// departures are forwarded to the shell; a fully departed peer's
    /// playback channels are torn down. Nothing happens while no account is
    /// on line.
    pub fn on_voice_event(&mut self, event: BehaviourEvent)
        ensures
            post_voice_event(*old(self), *final(self), event),
    {
        match event {
            BehaviourEvent::VoicePacket { from, codec: _, data, channel } => {
                self.on_voice_packet(from, data, channel);
            },
            BehaviourEvent::Request { channel, from } => {
                if self.state.account.is_some() {
                    self.outbox.push(Message::Voice(VoiceMessage::Request(channel, from)));
                }
            },
            BehaviourEvent::Disconnected { channel, from } => {
                self.on_voice_left_channel(channel, from);
            },
            BehaviourEvent::VoiceDisconnected { from } => {
                self.on_voice_peer_gone(from);
            },
            BehaviourEvent::VoiceErrorConnection { .. } => {},
        }
    }

    /// Routes one event from the connection machinery to its handler.
    pub fn on_event(&mut self, event: NetEvent, ctx: EventCtx)
        ensures
            match event {
                NetEvent::KademliaProgress { id, result, step } => post_query_progressed(
                    *old(self),
                    *final(self),
                    id,
                    result,
                    step,
                    ctx,
                ),
                NetEvent::IdentifyReceived { peer, info } => post_identify(
                    *old(self),
                    *final(self),
                    peer,
                    info,
                ),
                NetEvent::PingResult { peer, result } => post_ping(
                    *old(self),
                    *final(self),
                    peer,
                    result,
                ),
                NetEvent::GossipMessage { message } => post_gossip_message(
                    *old(self),
                    *final(self),
                    message,
                ),
                NetEvent::GossipSubscribed { peer, topic } => post_gossip_subscribed(
                    *old(self),
                    *final(self),
                    peer,
                    topic,
                ),
                NetEvent::GossipUnsubscribed { peer, topic } => post_gossip_unsubscribed(
                    *old(self),
                    *final(self),
                    peer,
                    topic,
                ),
                NetEvent::TheMan(ev) => post_voice_event(*old(self), *final(self), ev),
                NetEvent::ConnectionEstablished { peer } => post_connection_established(
                    *old(self),
                    *final(self),
                    peer,
                    ctx.status,
                ),
                NetEvent::ConnectionClosed { peer } => post_connection_closed(
                    *old(self),
                    *final(self),
                    peer,
                    ctx.status,
                ),
                NetEvent::ListenerUpdate => post_status_refresh(*old(self), *final(self), ctx.status),
                NetEvent::Other => *final(self) == *old(self),
            },
    {
        match event {
            NetEvent::KademliaProgress { id, result, step } => {
                self.on_query_progressed(id, result, step, ctx);
            },
            NetEvent::IdentifyReceived { peer, info } => {
                self.on_identify_received(peer, info);
            },
            NetEvent::PingResult { peer, result } => {
                self.on_ping_result(peer, result);
            },
            NetEvent::GossipMessage { message } => {
                let topic = message.topic.clone();
                self.outbox.push(Message::NewMessage(topic, message));
            },
            NetEvent::GossipSubscribed { peer, topic } => {
                self.outbox.push(Message::NewSubscribed(peer, topic));
            },
            NetEvent::GossipUnsubscribed { peer, topic } => {
                self.outbox.push(Message::DestroySubscriber(peer, topic));
            },
            NetEvent::TheMan(ev) => {
                self.on_voice_event(ev);
            },
            NetEvent::ConnectionEstablished { peer } => {
                self.on_connection_established(peer, ctx.status);
            },
            NetEvent::ConnectionClosed { peer } => {
                self.on_connection_closed(peer, ctx.status);
            },
            NetEvent::ListenerUpdate => {
                self.update_swarm_status(ctx.status);
            },
            NetEvent::Other => {},
        }
    }
}


/// Keeps the audio routes of channels other than `channel`.
pub open spec fn pred_route_not_channel(channel: Seq<char>) -> spec_fn(VoiceRoute) -> bool {
    |r: VoiceRoute| r.channel@ != channel
}

/// Maps a torn-down channel's route to the teardown of its playback channel.
pub open spec fn route_destroy_channel_fn(channel: Seq<char>) -> spec_fn(VoiceRoute) -> Option<
    Message,
> {
    |r: VoiceRoute|
        if r.channel@ == channel {
            Some(Message::Audio(AudioMessage::DestroyOuputChannel { id: r.audio_id }))
        } else {
            None
        }
}

/// Maps any route to the teardown of its playback channel.
pub open spec fn route_destroy_all_fn() -> spec_fn(VoiceRoute) -> Message {
    |r: VoiceRoute| Message::Audio(AudioMessage::DestroyOuputChannel { id: r.audio_id })
}

/// What leaving a voice channel on request of the shell does: the channel's
/// playback routes are torn down and the machinery is told to leave.
pub open spec fn post_voice_channel_left(
    pre: TheManLogic,
    post: TheManLogic,
    channel: String,
) -> bool {
    if pre.state.account is None {
        post == pre
    } else {
        let acct = pre.state.account->Some_0;
        let routes = acct.voice_channels@;
        &&& post == (TheManLogic {
            state: TheManState { account: post.state.account, ..pre.state },
            audio_outbox: post.audio_outbox,
            commands: post.commands,
            ..pre
        })
        &&& post.state.account == Some(
            ActiveAccount { voice_channels: post.state.account->Some_0.voice_channels, ..acct },
        )
        &&& post.state.account->Some_0.voice_channels@ == routes.filter(
            pred_route_not_channel(channel@),
        )
        &&& post.audio_outbox@ == pre.audio_outbox@ + routes.filter_map(
            route_destroy_channel_fn(channel@),
        )
        &&& post.commands@ == pre.commands@.push(SwarmCommand::VoiceDisconnect { channel })
    }
}

impl TheManLogic {
    /// One message from the interface shell. Voice commands go to the
    /// channel-mesh behaviour, tearing playback routes down where the shell
    /// gave a channel or a peer up; searches and subscriptions become
    /// machinery commands; account and peer listings are answered from
    /// state. Requests that need data only the application holds (saving,
    /// the stored boot nodes, the listen addresses, switching accounts) are
    /// answered through [`Self::on_save_request`], [`Self::on_boot_nodes`],
    /// [`Self::on_addresses`] and [`Self::activate_account`]; here they
    /// change nothing.
    pub fn on_message(&mut self, message: Message, ctx: EventCtx)
        ensures
            ({
                let pre = *old(self);
                let post = *final(self);
                match message {
                    Message::Gui(GuiMessage::Friends(friends)) => if pre.state.account is None {
                        post == pre
                    } else {
                        &&& post == (TheManLogic {
                            state: TheManState { account: post.state.account, ..pre.state },
                            outbox: post.outbox,
                            ..pre
                        })
                        &&& post.state.account == Some(
                            ActiveAccount {
                                friends: post.state.account->Some_0.friends,
                                ..pre.state.account->Some_0
                            },
                        )
                        &&& post.state.account->Some_0.friends.deep_view() == friends.deep_view()
                        &&& post.outbox@ == pre.outbox@.push(
                            Message::Gui(GuiMessage::Friends(friends)),
                        )
                    },
                    Message::Gui(GuiMessage::RefreshFriends) => if pre.state.account is None {
                        post == pre
                    } else {
                        let friends = pre.state.account->Some_0.friends@;
                        &&& post == (TheManLogic { commands: post.commands, ..pre })
                        &&& post.commands@.len() == pre.commands@.len() + friends.len()
                        &&& forall|k: int|
                            0 <= k < friends.len() ==> (#[trigger] post.commands@[
                                pre.commands@.len() + k
                            ] matches SwarmCommand::GetClosestPeers { query_id, key }
                                && query_id == spec_sat_add(ctx.next_query_id, k as u64)
                                && key@ == spec_peer_id_bytes(friends[k].peer_id))
                    },
                    Message::Voice(VoiceMessage::Connect(channel)) => if pre.state.account
                        is Some {
                        &&& post == (TheManLogic { commands: post.commands, ..pre })
                        &&& post.commands@ == pre.commands@.push(
                            SwarmCommand::VoiceConnect { channel },
                        )
                    } else {
                        post == pre
                    },
                    Message::Voice(VoiceMessage::Disconnect(channel)) => post_voice_channel_left(
                        pre,
                        post,
                        channel,
                    ),
                    Message::Voice(VoiceMessage::Accept(channel, peer)) => if pre.state.account
                        is Some {
                        &&& post == (TheManLogic { commands: post.commands, ..pre })
                        &&& post.commands@ == pre.commands@.push(
                            SwarmCommand::VoiceAccept { channel, peer },
                        )
                    } else {
                        post == pre
                    },
                    Message::Voice(VoiceMessage::Refuse(channel, peer)) => if pre.state.account
                        is None {
                        post == pre
                    } else {
                        let acct = pre.state.account->Some_0;
                        let routes = acct.voice_channels@;
                        &&& post == (TheManLogic {
                            state: TheManState { account: post.state.account, ..pre.state },
                            audio_outbox: post.audio_outbox,
                            commands: post.commands,
                            ..pre
                        })
                        &&& match spec_route_index(routes, channel@, peer) {
                            Some(k) => {
                                &&& post.state.account == Some(
                                    ActiveAccount {
                                        voice_channels: post.state.account->Some_0.voice_channels,
                                        ..acct
                                    },
                                )
                                &&& post.state.account->Some_0.voice_channels@ == routes.remove(k)
                                &&& post.audio_outbox@ == pre.audio_outbox@.push(
                                    Message::Audio(
                                        AudioMessage::DestroyOuputChannel {
                                            id: routes[k].audio_id,
                                        },
                                    ),
                                )
                            },
                            None => {
                                &&& post.state.account == pre.state.account
                                &&& post.audio_outbox@ == pre.audio_outbox@
                            },
                        }
                        &&& post.commands@ == pre.commands@.push(
                            SwarmCommand::VoiceRefuse { channel, peer },
                        )
                    },
                    Message::BootstrapSet(value) => {
                        &&& post == (TheManLogic {
                            bootstraping: value,
                            bootstrap: post.bootstrap,
                            commands: post.commands,
                            ..pre
                        })
                        &&& if value && pre.state.account is Some {
                            &&& post.bootstrap == Some(ctx.next_query_id)
                            &&& post.commands@ == pre.commands@.push(
                                SwarmCommand::Bootstrap { query_id: ctx.next_query_id },
                            )
                        } else {
                            &&& post.bootstrap == pre.bootstrap
                            &&& post.commands@ == pre.commands@
                        }
                    },
                    Message::GetAccounts => {
                        &&& post == (TheManLogic { outbox: post.outbox, ..pre })
                        &&& post.outbox@.len() == pre.outbox@.len() + 1
                        &&& (post.outbox@.last() matches Message::Accounts(a) && a.deep_view()
                            == pre.state.accounts.deep_view())
                    },
                    Message::GetPeers => {
                        &&& post == (TheManLogic { outbox: post.outbox, ..pre })
                        &&& post.outbox@.len() == pre.outbox@.len() + 1
                        &&& (post.outbox@.last() matches Message::Peers(p) && p.deep_view()
                            == pre.state.peers.deep_view())
                    },
                    Message::UpdateAccounts(accounts) => {
                        &&& post == (TheManLogic {
                            state: TheManState { accounts: post.state.accounts, ..pre.state },
                            outbox: post.outbox,
                            ..pre
                        })
                        &&& post.state.accounts == accounts
                        &&& post.outbox@.len() == pre.outbox@.len() + 1
                        &&& (post.outbox@.last() matches Message::Accounts(a) && a.deep_view()
                            == accounts.deep_view())
                    },
                    Message::SearchForKey(key) => if pre.state.account is Some {
                        &&& post == (TheManLogic {
                            outbox: post.outbox,
                            commands: post.commands,
                            ..pre
                        })
                        &&& post.commands@.len() == pre.commands@.len() + 1
                        &&& (post.commands@.last() matches SwarmCommand::GetClosestPeers {
                            query_id,
                            key: k,
                        } && query_id == ctx.next_query_id && k@ == key@)
                        &&& post.outbox@ == pre.outbox@.push(
                            Message::ResSearchForKey(key, ctx.next_query_id),
                        )
                    } else {
                        post == pre
                    },
                    Message::SearchForRecord(key) => if pre.state.account is Some {
                        &&& post == (TheManLogic {
                            outbox: post.outbox,
                            commands: post.commands,
                            ..pre
                        })
                        &&& post.commands@.len() == pre.commands@.len() + 1
                        &&& (post.commands@.last() matches SwarmCommand::GetRecord {
                            query_id,
                            key: k,
                        } && query_id == ctx.next_query_id && k@ == key@)
                        &&& post.outbox@ == pre.outbox@.push(
                            Message::ResSearchForRecord(key, ctx.next_query_id),
                        )
                    } else {
                        post == pre
                    },
                    Message::SubscribeTopic(topic) => if pre.state.account is Some {
                        &&& post == (TheManLogic {
                            subscribed: post.subscribed,
                            commands: post.commands,
                            ..pre
                        })
                        &&& post.commands@ == pre.commands@.push(
                            SwarmCommand::Subscribe { topic },
                        )
                        &&& post.subscribed@ == pre.subscribed@.push(topic)
                    } else {
                        post == pre
                    },
                    Message::UnsubscibeTopic(topic) => if pre.state.account is Some {
                        &&& post == (TheManLogic { commands: post.commands, ..pre })
                        &&& post.commands@ == pre.commands@.push(
                            SwarmCommand::Unsubscribe { topic },
                        )
                    } else {
                        post == pre
                    },
                    Message::SendMessage(topic, data) => if pre.state.account is Some {
                        &&& post == (TheManLogic { commands: post.commands, ..pre })
                        &&& post.commands@ == pre.commands@.push(
                            SwarmCommand::Publish { topic, data },
                        )
                    } else {
                        post == pre
                    },
                    _ => post == pre,
                }
            }),
    {
        match message {
            Message::Gui(GuiMessage::Friends(friends)) => {
                if self.state.account.is_some() {
                    let copy = clone_friends(&friends);
                    match &mut self.state.account {
                        Some(a) => {
                            a.friends = copy;
                        },
                        None => {},
                    }
                    self.outbox.push(Message::Gui(GuiMessage::Friends(friends)));
                }
            },
            Message::Gui(GuiMessage::RefreshFriends) => {
                self.refresh_friends(ctx);
            },
            Message::Voice(VoiceMessage::Connect(channel)) => {
                if self.state.account.is_some() {
                    self.commands.push(SwarmCommand::VoiceConnect { channel });
                }
            },
            Message::Voice(VoiceMessage::Disconnect(channel)) => {
                self.leave_voice_channel(channel);
            },
            Message::Voice(VoiceMessage::Accept(channel, peer)) => {
                if self.state.account.is_some() {
                    self.commands.push(SwarmCommand::VoiceAccept { channel, peer });
                }
            },
            Message::Voice(VoiceMessage::Refuse(channel, peer)) => {
                if self.state.account.is_some() {
                    let found = match &self.state.account {
                        Some(a) => find_route(&a.voice_channels, &channel, peer),
                        None => None,
                    };
                    match found {
                        Some(k) => {
                            let removed = match &mut self.state.account {
                                Some(a) => Some(a.voice_channels.remove(k)),
                                None => None,
                            };
                            match removed {
                                Some(r) => {
                                    self.audio_outbox.push(
                                        Message::Audio(
                                            AudioMessage::DestroyOuputChannel { id: r.audio_id },
                                        ),
                                    );
                                },
                                None => {},
                            }
                        },
                        None => {},
                    }
                    self.commands.push(SwarmCommand::VoiceRefuse { channel, peer });
                }
            },
            Message::BootstrapSet(value) => {
                if value && self.state.account.is_some() {
                    self.bootstrap = Some(ctx.next_query_id);
                    self.commands.push(SwarmCommand::Bootstrap { query_id: ctx.next_query_id });
                }
                self.bootstraping = value;
            },
            Message::GetAccounts => {
                let accounts = clone_accounts(&self.state.accounts);
                self.outbox.push(Message::Accounts(accounts));
            },
            Message::GetPeers => {
                let peers = crate::state::clone_peers(&self.state.peers);
                self.outbox.push(Message::Peers(peers));
            },
            Message::UpdateAccounts(accounts) => {
                self.state.accounts = accounts;
                let copy = clone_accounts(&self.state.accounts);
                self.outbox.push(Message::Accounts(copy));
            },
            Message::SearchForKey(key) => {
                if self.state.account.is_some() {
                    let k = vstd::slice::slice_to_vec(key.as_slice());
                    self.commands.push(
                        SwarmCommand::GetClosestPeers { query_id: ctx.next_query_id, key: k },
                    );
                    self.outbox.push(Message::ResSearchForKey(key, ctx.next_query_id));
                }
            },
            Message::SearchForRecord(key) => {
                if self.state.account.is_some() {
                    let k = vstd::slice::slice_to_vec(key.as_slice());
                    self.commands.push(
                        SwarmCommand::GetRecord { query_id: ctx.next_query_id, key: k },
                    );
                    self.outbox.push(Message::ResSearchForRecord(key, ctx.next_query_id));
                }
            },
            Message::SubscribeTopic(topic) => {
                if self.state.account.is_some() {
                    let copy = topic.clone();
                    self.commands.push(SwarmCommand::Subscribe { topic: copy });
                    self.subscribed.push(topic);
                }
            },
            Message::UnsubscibeTopic(topic) => {
                if self.state.account.is_some() {
                    self.commands.push(SwarmCommand::Unsubscribe { topic });
                }
            },
            Message::SendMessage(topic, data) => {
                if self.state.account.is_some() {
                    self.commands.push(SwarmCommand::Publish { topic, data });
                }
            },
            _ => {},
        }
    }

    /// Asks the machinery for the closest peers to every friend, one lookup
    /// each, numbered upward from the context's next query number.
    #[verifier::loop_isolation(false)]
    fn refresh_friends(&mut self, ctx: EventCtx)
        ensures
            old(self).state.account is None ==> *final(self) == *old(self),
            old(self).state.account is Some ==> {
                let friends = old(self).state.account->Some_0.friends@;
                &&& *final(self) == (TheManLogic { commands: final(self).commands, ..*old(self) })
                &&& final(self).commands@.len() == old(self).commands@.len() + friends.len()
                &&& final(self).commands@.take(old(self).commands@.len() as int) == old(
                    self,
                ).commands@
                &&& forall|k: int|
                    0 <= k < friends.len() ==> (#[trigger] final(self).commands@[
                        old(self).commands@.len() + k
                    ] matches SwarmCommand::GetClosestPeers { query_id, key } && query_id
                        == spec_sat_add(ctx.next_query_id, k as u64) && key@ == spec_peer_id_bytes(
                        friends[k].peer_id,
                    ))
            },
    {
        if self.state.account.is_none() {
            return;
        }
        let ghost pre = *self;
        let total = match &self.state.account {
            Some(a) => a.friends.len(),
            None => 0,
        };
        let mut k: usize = 0;
        proof {
            assert(self.commands@.take(pre.commands@.len() as int) =~= pre.commands@);
        }
        while k < total
            invariant
                0 <= k <= total,
                *self == (TheManLogic { commands: self.commands, ..pre }),
                pre.state.account is Some,
                total == pre.state.account->Some_0.friends@.len(),
                self.commands@.len() == pre.commands@.len() + k,
                self.commands@.take(pre.commands@.len() as int) == pre.commands@,
                forall|j: int|
                    0 <= j < k ==> (#[trigger] self.commands@[pre.commands@.len() + j] matches
                        SwarmCommand::GetClosestPeers { query_id, key } && query_id == spec_sat_add(
                        ctx.next_query_id,
                        j as u64,
                    ) && key@ == spec_peer_id_bytes(
                        pre.state.account->Some_0.friends@[j].peer_id,
                    )),
            decreases total - k,
        {
            let peer = match &self.state.account {
                Some(a) => a.friends[k].peer_id,
                None => PeerId { id: 0 },
            };
            let key = peer.to_bytes();
            let qid = sat_add(ctx.next_query_id, k as u64);
            self.commands.push(SwarmCommand::GetClosestPeers { query_id: qid, key });
            proof {
                assert(self.commands@.take(pre.commands@.len() as int) =~= pre.commands@);
            }
            k = k + 1;
        }
    }

    /// Leaves a voice channel on the shell's request: every playback route
    /// of the channel is torn down, in route order, and the machinery is
    /// told to leave it.
    #[verifier::loop_isolation(false)]
    pub fn leave_voice_channel(&mut self, channel: String)
        ensures
            post_voice_channel_left(*old(self), *final(self), channel),
    {
        if self.state.account.is_none() {
            return;
        }
        let ghost pre = *self;
        let acct_opt = self.state.account.take();
        match acct_opt {
            Some(mut a) => {
                let ghost acct0 = pre.state.account->Some_0;
                let ghost routes = acct0.voice_channels@;
                let ghost keep = pred_route_not_channel(channel@);
                let ghost destroy = route_destroy_channel_fn(channel@);
                let mut kept: Vec<VoiceRoute> = Vec::new();
                let mut i: usize = 0;
                proof {
                    assert(routes.take(0).filter(keep) =~= Seq::<VoiceRoute>::empty());
                    assert(routes.take(0).filter_map(destroy) =~= Seq::<Message>::empty());
                    assert(self.audio_outbox@ =~= pre.audio_outbox@ + routes.take(0).filter_map(
                        destroy,
                    ));
                }
                while i < a.voice_channels.len()
                    invariant
                        0 <= i <= a.voice_channels.len(),
                        a == acct0,
                        routes == acct0.voice_channels@,
                        routes.len() == a.voice_channels.len(),
                        *self == (TheManLogic {
                            state: self.state,
                            audio_outbox: self.audio_outbox,
                            ..pre
                        }),
                        self.state == (TheManState { account: None, ..pre.state }),
                        kept@ == routes.take(i as int).filter(keep),
                        self.audio_outbox@ == pre.audio_outbox@ + routes.take(i as int).filter_map(
                            destroy,
                        ),
                    decreases a.voice_channels.len() - i,
                {
                    let ghost kpre = kept@;
                    if crate::behaviour::string_eq(&a.voice_channels[i].channel, &channel) {
                        let id = a.voice_channels[i].audio_id;
                        self.audio_outbox.push(
                            Message::Audio(AudioMessage::DestroyOuputChannel { id }),
                        );
                    } else {
                        let route = VoiceRoute {
                            channel: a.voice_channels[i].channel.clone(),
                            peer: a.voice_channels[i].peer,
                            audio_id: a.voice_channels[i].audio_id,
                        };
                        proof {
                            assert(route == routes[i as int]);
                        }
                        kept.push(route);
                        proof {
                            assert(kept@ =~= kpre.push(routes[i as int]));
                        }
                    }
                    proof {
                        routes.take(i as int).lemma_filter_push(routes[i as int], keep);
                        routes.lemma_filter_map_take_succ(destroy, i as int);
                        assert(routes.take(i as int).push(routes[i as int]) =~= routes.take(i + 1));
                    }
                    i = i + 1;
                }
                proof {
                    assert(routes.take(routes.len() as int) =~= routes);
                }
                a.voice_channels = kept;
                self.state.account = Some(a);
            },
            None => {},
        }
        self.commands.push(SwarmCommand::VoiceDisconnect { channel });
    }

    /// One message from the audio engine: captured audio becomes a broadcast
    /// to the accepted mesh, and a failed stream is torn down and recreated
    /// at once, so the channel heals itself.
    pub fn on_audio_message(&mut self, message: Message)
        ensures
            ({
                let pre = *old(self);
                let post = *final(self);
                match message {
                    Message::Audio(AudioMessage::InputData { id: _, data }) => if pre.state.account
                        is Some {
                        &&& post == (TheManLogic { commands: post.commands, ..pre })
                        &&& post.commands@.len() == pre.commands@.len() + 1
                        &&& (post.commands@.last() matches SwarmCommand::VoiceAudioPacket {
                            codec,
                            data: d,
                        } && codec@ == opus_name() && d == data)
                    } else {
                        post == pre
                    },
                    Message::Audio(AudioMessage::OutputError { id, error: _ }) => {
                        &&& post == (TheManLogic { audio_outbox: post.audio_outbox, ..pre })
                        &&& post.audio_outbox@.len() == pre.audio_outbox@.len() + 2
                        &&& post.audio_outbox@[pre.audio_outbox@.len() as int] == Message::Audio(
                            AudioMessage::DestroyOuputChannel { id },
                        )
                        &&& (post.audio_outbox@.last() matches Message::Audio(
                            AudioMessage::CreateOutputChannel { id: cid, codec },
                        ) && cid == id && codec@ == opus_name())
                    },
                    Message::Audio(AudioMessage::InputError { id, error: _ }) => {
                        &&& post == (TheManLogic { audio_outbox: post.audio_outbox, ..pre })
                        &&& post.audio_outbox@.len() == pre.audio_outbox@.len() + 2
                        &&& post.audio_outbox@[pre.audio_outbox@.len() as int] == Message::Audio(
                            AudioMessage::DestroyInputChannel { id },
                        )
                        &&& (post.audio_outbox@.last() matches Message::Audio(
                            AudioMessage::CreateInputChannel { id: cid, codec },
                        ) && cid == id && codec@ == opus_name())
                    },
                    _ => post == pre,
                }
            }),
    {
        match message {
            Message::Audio(AudioMessage::InputData { id: _, data }) => {
                if self.state.account.is_some() {
                    self.commands.push(SwarmCommand::VoiceAudioPacket { codec: opus(), data });
                }
            },
            Message::Audio(AudioMessage::OutputError { id, error: _ }) => {
                self.audio_outbox.push(Message::Audio(AudioMessage::DestroyOuputChannel { id }));
                self.audio_outbox.push(
                    Message::Audio(AudioMessage::CreateOutputChannel { id, codec: opus() }),
                );
            },
            Message::Audio(AudioMessage::InputError { id, error: _ }) => {
                self.audio_outbox.push(Message::Audio(AudioMessage::DestroyInputChannel { id }));
                self.audio_outbox.push(
                    Message::Audio(AudioMessage::CreateInputChannel { id, codec: opus() }),
                );
            },
            _ => {},
        }
    }

    /// Answers a save request: the active account's expiry and friends are
    /// persisted into the stored account list, and the shell receives the
    /// whole state to write out, with the given boot-node addresses. With no
    /// account on line the shell receives nothing to save.
    pub fn on_save_request(&mut self, nodes: Vec<String>, now_instant: u64, now_utc: i64)
        ensures
            ({
                let pre = *old(self);
                let post = *final(self);
                match pre.state.account {
                    Some(acct) => {
                        &&& post == (TheManLogic {
                            state: TheManState { accounts: post.state.accounts, ..pre.state },
                            outbox: post.outbox,
                            ..pre
                        })
                        &&& post.state.accounts@.len() == pre.state.accounts@.len()
                        &&& acct.index < pre.state.accounts@.len() ==> {
                            &&& post.state.accounts@[acct.index as int].expires
                                == spec_persisted_expiry(now_utc, now_instant, acct.expires)
                            &&& post.state.accounts@[acct.index as int].friends.deep_view()
                                == acct.friends.deep_view()
                            &&& forall|j: int|
                                0 <= j < pre.state.accounts@.len() && j != acct.index ==> (
                                #[trigger] post.state.accounts@[j]) == pre.state.accounts@[j]
                        }
                        &&& acct.index >= pre.state.accounts@.len() ==> post.state.accounts@
                            == pre.state.accounts@
                        &&& post.outbox@.len() == pre.outbox@.len() + 1
                        &&& (post.outbox@.last() matches Message::SaveResponse(Some(s))
                            && s.accounts.deep_view() == post.state.accounts.deep_view()
                            && s.bootnodes == nodes)
                    },
                    None => {
                        &&& post == (TheManLogic { outbox: post.outbox, ..pre })
                        &&& post.outbox@ == pre.outbox@.push(Message::SaveResponse(None))
                    },
                }
            }),
    {
        let (index, expires, friends) = match &self.state.account {
            Some(a) => (a.index, a.expires, clone_friends(&a.friends)),
            None => {
                self.outbox.push(Message::SaveResponse(None));
                return ;
            },
        };
        if index < self.state.accounts.len() {
            let persisted = persisted_expiry(now_utc, now_instant, expires);
            let a = self.state.accounts.remove(index);
            let a2 = crate::save_state::Account { expires: persisted, friends, ..a };
            self.state.accounts.insert(index, a2);
            proof {
                assert(self.state.accounts@ =~= old(self).state.accounts@.update(
                    index as int,
                    self.state.accounts@[index as int],
                ));
            }
        }
        let accounts = clone_accounts(&self.state.accounts);
        let save = TheManSaveState { accounts, bootnodes: nodes };
        self.outbox.push(Message::SaveResponse(Some(save)));
    }

    /// Answers a boot-node listing with what the application read from the
    /// routing table, while an account is on line.
    pub fn on_boot_nodes(&mut self, nodes: Vec<(PeerId, Vec<String>)>)
        ensures
            *final(self) == (TheManLogic { outbox: final(self).outbox, ..*old(self) }),
            old(self).state.account is Some ==> final(self).outbox@ == old(self).outbox@.push(
                Message::BootNodes(nodes),
            ),
            old(self).state.account is None ==> final(self).outbox@ == old(self).outbox@,
    {
        if self.state.account.is_some() {
            self.outbox.push(Message::BootNodes(nodes));
        }
    }

    /// Switches the active account, as the shell requested: the previous
    /// reactor state is torn down (subscriptions, registration phases, the
    /// peer table, and every playback channel of the old account) and the
    /// account at `account_index` goes on line, with its key material
    /// decoded to `peer_id` by the application. The shell then hears the
    /// status, the activation, the stored accounts and the friend list; the
    /// machinery refreshes its routing table (when the cycle is on, under
    /// the context's query number) and looks up every friend (numbered
    /// upward from one past it). A bad index tears down and switches nothing.
    #[verifier::loop_isolation(false)]
    pub fn activate_account(&mut self, account_index: usize, peer_id: PeerId, ctx: EventCtx)
        ensures
            ({
                let pre = *old(self);
                let post = *final(self);
                &&& post.subscribed@ == Seq::<String>::empty()
                &&& post.registration_query is None
                &&& post.registration_step_1_query is None
                &&& post.state.peers@ == Seq::<(PeerId, PeerStatus)>::empty()
                &&& post.audio_outbox@ == match pre.state.account {
                    Some(a) => pre.audio_outbox@ + a.voice_channels@.map_values(
                        route_destroy_all_fn(),
                    ),
                    None => pre.audio_outbox@,
                }
                &&& post.bootstraping == pre.bootstraping
                &&& post.audio_counter == pre.audio_counter
                &&& post.min_peers == pre.min_peers
                &&& post.state.accounts == pre.state.accounts
                &&& post.state.bootnodes == pre.state.bootnodes
                &&& if account_index < pre.state.accounts@.len() {
                    post.state.account matches Some(a) && {
                        &&& a.index == account_index
                        &&& a.name@ == pre.state.accounts@[account_index as int].name@
                        &&& a.peer_id == peer_id
                        &&& a.friends.deep_view() == pre.state.accounts@[
                            account_index as int
                        ].friends.deep_view()
                        &&& a.expires == crate::state::spec_renewal_instant(
                            ctx.now_instant,
                            ctx.now_utc,
                            pre.state.accounts@[account_index as int].expires,
                        )
                        &&& a.auto_renew == pre.state.accounts@[account_index as int].renew
                        &&& a.voice_channels@ == Seq::<VoiceRoute>::empty()
                    }
                } else {
                    post.state.account == pre.state.account
                }
                &&& match post.state.account {
                    Some(a) => {
                        &&& post.outbox@.len() == pre.outbox@.len() + 4
                        &&& post.outbox@[pre.outbox@.len() as int] == Message::SwarmStatus(
                            ctx.status,
                        )
                        &&& post.outbox@[pre.outbox@.len() as int + 1] == Message::AccountActivate(
                            account_index,
                            a.peer_id,
                        )
                        &&& (post.outbox@[pre.outbox@.len() as int + 2] matches Message::Accounts(acc)
                            && acc.deep_view() == post.state.accounts.deep_view())
                        &&& (post.outbox@.last() matches Message::Gui(GuiMessage::Friends(f))
                            && f.deep_view() == a.friends.deep_view())
                        &&& post.bootstrap == if pre.bootstraping {
                            Some(ctx.next_query_id)
                        } else {
                            pre.bootstrap
                        }
                        &&& post.commands@.len() == pre.commands@.len() + (if pre.bootstraping {
                            1int
                        } else {
                            0
                        }) + a.friends@.len()
                        &&& (pre.bootstraping ==> post.commands@[pre.commands@.len() as int]
                            == SwarmCommand::Bootstrap { query_id: ctx.next_query_id })
                        &&& ({
                            let base = pre.commands@.len() + (if pre.bootstraping {
                                1int
                            } else {
                                0
                            });
                            forall|k: int|
                                0 <= k < a.friends@.len() ==> (#[trigger] post.commands@[base + k]
                                    matches SwarmCommand::GetClosestPeers { query_id, key }
                                    && query_id == spec_sat_add(
                                    spec_sat_add(ctx.next_query_id, 1),
                                    k as u64,
                                ) && key@ == spec_peer_id_bytes(a.friends@[k].peer_id))
                        })
                    },
                    None => {
                        &&& post.outbox@ == pre.outbox@
                        &&& post.commands@ == pre.commands@
                        &&& post.bootstrap == pre.bootstrap
                    },
                }
            }),
    {
        let ghost pre = *self;
        self.subscribed.clear();
        self.registration_query = None;
        self.registration_step_1_query = None;
        self.state.peers.clear();
        let acct_opt = self.state.account.take();
        match acct_opt {
            Some(a) => {
                let ghost routes = a.voice_channels@;
                let ghost destroy = route_destroy_all_fn();
                let ghost mid = *self;
                let mut i: usize = 0;
                proof {
                    assert(routes.take(0).map_values(destroy) =~= Seq::<Message>::empty());
                    assert(self.audio_outbox@ =~= pre.audio_outbox@ + routes.take(0).map_values(
                        destroy,
                    ));
                }
                while i < a.voice_channels.len()
                    invariant
                        0 <= i <= a.voice_channels.len(),
                        routes == a.voice_channels@,
                        routes.len() == a.voice_channels.len(),
                        *self == (TheManLogic { audio_outbox: self.audio_outbox, ..mid }),
                        self.audio_outbox@ == pre.audio_outbox@ + routes.take(i as int).map_values(
                            destroy,
                        ),
                    decreases a.voice_channels.len() - i,
                {
                    let ghost apre = self.audio_outbox@;
                    let id = a.voice_channels[i].audio_id;
                    self.audio_outbox.push(
                        Message::Audio(AudioMessage::DestroyOuputChannel { id }),
                    );
                    proof {
                        assert(self.audio_outbox@ =~= apre.push(destroy(routes[i as int])));
                        assert(routes.take(i + 1).map_values(destroy) =~= routes.take(
                            i as int,
                        ).map_values(destroy).push(destroy(routes[i as int])));
                    }
                    i = i + 1;
                }
                proof {
                    assert(routes.take(routes.len() as int) =~= routes);
                }
                self.state.account = Some(a);
            },
            None => {},
        }
        self.state.set_account(account_index, peer_id, ctx.now_instant, ctx.now_utc);
        if self.state.account.is_some() {
            self.update_swarm_status(ctx.status);
            let (pid, friends) = match &self.state.account {
                Some(a) => (a.peer_id, clone_friends(&a.friends)),
                None => (peer_id, Vec::new()),
            };
            self.outbox.push(Message::AccountActivate(account_index, pid));
            let accounts = clone_accounts(&self.state.accounts);
            self.outbox.push(Message::Accounts(accounts));
            self.outbox.push(Message::Gui(GuiMessage::Friends(friends)));
            if self.bootstraping {
                self.bootstrap = Some(ctx.next_query_id);
                self.commands.push(SwarmCommand::Bootstrap { query_id: ctx.next_query_id });
            }
            let ghost cmds_mid = self.commands@;
            let ctx2 = EventCtx { next_query_id: sat_add(ctx.next_query_id, 1), ..ctx };
            self.refresh_friends(ctx2);
            proof {
                assert(self.commands@.take(cmds_mid.len() as int) == cmds_mid);
                if pre.bootstraping {
                    assert(cmds_mid[pre.commands@.len() as int] == SwarmCommand::Bootstrap {
                        query_id: ctx.next_query_id,
                    });
                    assert(self.commands@[pre.commands@.len() as int] == self.commands@.take(
                        cmds_mid.len() as int,
                    )[pre.commands@.len() as int]);
                }
            }
        }
    }

    /// Answers an address listing with the application's external addresses,
    /// while an account is on line.
    pub fn on_addresses(&mut self, addresses: Vec<String>)
        ensures
            *final(self) == (TheManLogic { outbox: final(self).outbox, ..*old(self) }),
            old(self).state.account is Some ==> final(self).outbox@ == old(self).outbox@.push(
                Message::Adresses(addresses),
            ),
            old(self).state.account is None ==> final(self).outbox@ == old(self).outbox@,
    {
        if self.state.account.is_some() {
            self.outbox.push(Message::Adresses(addresses));
        }
    }
}


/// Registration gating law: a record publication leaves the dispatcher only
/// as the direct completion of the outstanding phase-one lookup (the same
/// query number, on its final report), it is published under that lookup's
/// name hash, and a phase-one lookup is only started while automatic renewal
/// is on, nothing else is in flight, and the known-peer count is at or above
/// the configured floor.
pub proof fn lemma_registration_gating(
    pre: TheManLogic,
    post: TheManLogic,
    id: u64,
    result: QueryUpdate,
    step: ProgressStep,
    ctx: EventCtx,
    num_peers: usize,
)
    requires
        post_query_progressed(pre, post, id, result, step, ctx),
    ensures
        (exists|k: int|
            pre.commands@.len() <= k < post.commands@.len() && (#[trigger] post.commands@[k])
                is PutRecord) ==> phase_one_completes(pre, id, step, ctx.status.num_peers)
            && ctx.status.num_peers >= pre.min_peers,
        phase_one_completes(pre, id, step, ctx.status.num_peers) ==> (post.commands@.last()
            matches SwarmCommand::PutRecord { key, .. } && key@
            == pre.registration_step_1_query->Some_0.1@),
        renewal_gate(pre, num_peers) ==> num_peers >= pre.min_peers
            && pre.registration_step_1_query is None && pre.registration_query is None
            && pre.state.account->Some_0.auto_renew,
{
    if exists|k: int|
        pre.commands@.len() <= k < post.commands@.len() && (#[trigger] post.commands@[k])
            is PutRecord {
        let k = choose|k: int|
            pre.commands@.len() <= k < post.commands@.len() && (#[trigger] post.commands@[k])
                is PutRecord;
        if pre.state.account is None {
        } else if pre.bootstrap == Some(id) {
            if step.last && pre.bootstraping {
                assert(post.commands@[k] == SwarmCommand::Bootstrap { query_id: ctx.next_query_id });
            }
        } else if phase_one_completes(pre, id, step, ctx.status.num_peers) {
        } else {
            assert(post.commands@ == pre.commands@);
        }
    }
}

} // verus!
