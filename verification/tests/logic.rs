//! Reactor tests: the registration gate and the two-phase renewal, record
//! verification, voice routing to playback channels, and the save flow.

use the_man::logic::{
    name_key, record_is_safe, EventCtx, TheManLogic, MIN_KNOWN_PEERS, REGISTRATION_TTL_SECS,
};
use the_man::message::{
    AudioMessage, DhtRecord, Message, ProgressStep, QueryUpdate, SwarmCommand, SwarmStatus,
};
use the_man::peer::PeerId;
use the_man::save_state::{Account, TheManSaveState};
use the_man::state::TheManState;

fn status() -> SwarmStatus {
    SwarmStatus {
        num_peers: MIN_KNOWN_PEERS,
        num_connections: 0,
        pending_incoming: 0,
        pending_outgoing: 0,
        established_incoming: 0,
        established_outgoing: 0,
    }
}

fn ctx(next_query_id: u64, now_instant: u64, now_utc: i64) -> EventCtx {
    EventCtx { next_query_id, now_instant, now_utc, status: status() }
}

fn guest_account(renew: bool, expires: i64) -> Account {
    Account {
        name: "Guest".to_string(),
        private: vec![1, 2, 3],
        friends: Vec::new(),
        expires,
        channels: Vec::new(),
        renew,
    }
}

fn logic_with_active_account(renew: bool) -> TheManLogic {
    let save = TheManSaveState { accounts: vec![guest_account(renew, 0)], bootnodes: Vec::new() };
    let mut logic = TheManLogic::new(TheManState::from_save(save));
    logic.activate_account(0, PeerId { id: 77 }, ctx(1, 1000, 50_000));
    logic.commands.clear();
    logic.outbox.clear();
    logic
}

const GUEST_SHA256: [u8; 32] = [
    94, 216, 148, 74, 133, 169, 118, 63, 211, 21, 133, 47, 68, 140, 183, 222, 54, 197, 233, 40,
    225, 59, 59, 228, 39, 249, 143, 125, 196, 85, 241, 65,
];

#[test]
fn name_key_is_the_sha256_of_the_name() {
    assert_eq!(name_key("Guest"), GUEST_SHA256.to_vec());
    assert_ne!(name_key("Guest"), b"Guest".to_vec());
    assert_eq!(name_key("Guest").len(), 32);
}

#[test]
fn renewal_gate_needs_enough_known_peers() {
    let mut logic = logic_with_active_account(true);
    assert_eq!(logic.on_renewal_due(MIN_KNOWN_PEERS - 1, 5), None);
    assert!(logic.registration_step_1_query.is_none());
    let key = logic.on_renewal_due(MIN_KNOWN_PEERS, 5).expect("gate open");
    assert_eq!(key, GUEST_SHA256.to_vec());
    assert_eq!(logic.registration_step_1_query, Some((5, GUEST_SHA256.to_vec())));
}

#[test]
fn renewal_gate_needs_auto_renew_and_an_idle_service() {
    let mut logic = logic_with_active_account(false);
    assert_eq!(logic.on_renewal_due(MIN_KNOWN_PEERS, 5), None);

    let mut logic = logic_with_active_account(true);
    assert!(logic.on_renewal_due(MIN_KNOWN_PEERS, 5).is_some());
    // A second wake while phase one is outstanding is ignored.
    assert_eq!(logic.on_renewal_due(MIN_KNOWN_PEERS, 6), None);
}

/// The renewal scenario: the due account starts phase one; its completion
/// publishes a record expiring a fixed three days later; and only the
/// publication's success updates the account's expiries.
#[test]
fn two_phase_renewal_updates_expiry_only_after_success() {
    let mut logic = logic_with_active_account(true);
    let key = logic.on_renewal_due(MIN_KNOWN_PEERS, 5).expect("gate open");

    // Phase one completes at instant 2000 (calendar second 100000): the
    // record publication goes out under query number 9.
    logic.on_query_progressed(
        5,
        QueryUpdate::ClosestPeers { key: key.clone(), peers: Vec::new() },
        ProgressStep { count: 1, last: true },
        ctx(9, 2000, 100_000),
    );
    let put = logic.commands.pop().expect("a publication command");
    match put {
        SwarmCommand::PutRecord { query_id, key: k, value, publisher, expires } => {
            assert_eq!(query_id, 9);
            assert_eq!(k, GUEST_SHA256.to_vec());
            assert_eq!(publisher, PeerId { id: 77 });
            assert_eq!(value, 77u64.to_le_bytes().to_vec());
            assert_eq!(expires, 2000 + REGISTRATION_TTL_SECS);
        },
        other => panic!("expected a record publication, got {:?}", other),
    }
    assert_eq!(logic.registration_step_1_query, None);
    assert_eq!(logic.registration_query, Some((9, 2000 + REGISTRATION_TTL_SECS)));

    // A failed publication is abandoned silently.
    let expires_before = match &logic.state.account {
        Some(a) => a.expires,
        None => panic!("account is on line"),
    };
    logic.on_query_progressed(
        9,
        QueryUpdate::PutRecord { ok: false },
        ProgressStep { count: 2, last: true },
        ctx(10, 2050, 100_050),
    );
    assert_eq!(logic.registration_query, None);
    match &logic.state.account {
        Some(a) => assert_eq!(a.expires, expires_before),
        None => panic!("account is on line"),
    }

    // Run the cycle again; this time the publication succeeds and the
    // expiries move: the account renews at the record's lapse instant, and
    // the stored account persists the matching calendar second.
    let key2 = logic.on_renewal_due(MIN_KNOWN_PEERS, 11).expect("gate open again");
    assert_eq!(key2, key);
    logic.on_query_progressed(
        11,
        QueryUpdate::ClosestPeers { key: key2, peers: Vec::new() },
        ProgressStep { count: 1, last: true },
        ctx(12, 3000, 101_000),
    );
    logic.on_query_progressed(
        12,
        QueryUpdate::PutRecord { ok: true },
        ProgressStep { count: 2, last: true },
        ctx(13, 3100, 101_100),
    );
    match &logic.state.account {
        Some(a) => assert_eq!(a.expires, 3000 + REGISTRATION_TTL_SECS),
        None => panic!("account is on line"),
    }
    // Persisted: now_utc + (expiry instant - now instant).
    assert_eq!(
        logic.state.accounts[0].expires,
        101_100 + (3000 + REGISTRATION_TTL_SECS as i64 - 3100),
    );
    assert_eq!(logic.registration_query, None);
}

#[test]
fn no_publication_without_a_completed_matching_lookup() {
    let mut logic = logic_with_active_account(true);
    let _ = logic.on_renewal_due(MIN_KNOWN_PEERS, 5).expect("gate open");
    // Another query's completion does not publish.
    logic.on_query_progressed(
        99,
        QueryUpdate::ClosestPeers { key: vec![1], peers: Vec::new() },
        ProgressStep { count: 1, last: true },
        ctx(9, 2000, 100_000),
    );
    assert!(logic.commands.is_empty());
    // A non-final report of the right query does not publish either.
    logic.on_query_progressed(
        5,
        QueryUpdate::ClosestPeers { key: vec![1], peers: Vec::new() },
        ProgressStep { count: 1, last: false },
        ctx(9, 2000, 100_000),
    );
    assert!(logic.commands.is_empty());
    assert!(logic.registration_step_1_query.is_some());
}

#[test]
fn bootstrap_cycle_rearms_on_completion() {
    let mut logic = logic_with_active_account(true);
    logic.on_message(Message::BootstrapSet(true), ctx(2, 0, 0));
    assert_eq!(logic.bootstrap, Some(2));
    assert!(matches!(logic.commands.pop(), Some(SwarmCommand::Bootstrap { query_id: 2 })));
    logic.on_query_progressed(
        2,
        QueryUpdate::Bootstrap { ok: true },
        ProgressStep { count: 1, last: true },
        ctx(3, 0, 0),
    );
    assert_eq!(logic.bootstrap, Some(3));
    assert!(matches!(logic.commands.pop(), Some(SwarmCommand::Bootstrap { query_id: 3 })));
}

#[test]
fn record_verification_is_self_certifying() {
    let owner = PeerId { id: 5 };
    let good = DhtRecord {
        key: vec![1],
        value: owner.to_bytes(),
        publisher: Some(owner),
        expires: None,
    };
    assert!(record_is_safe(&good));
    let stolen = DhtRecord {
        key: vec![1],
        value: owner.to_bytes(),
        publisher: Some(PeerId { id: 6 }),
        expires: None,
    };
    assert!(!record_is_safe(&stolen));
    let anonymous = DhtRecord { key: vec![1], value: owner.to_bytes(), publisher: None, expires: None };
    assert!(!record_is_safe(&anonymous));
}

#[test]
fn first_voice_packet_opens_a_playback_channel() {
    let mut logic = logic_with_active_account(true);
    let before = logic.audio_counter;
    logic.on_voice_event(the_man::behaviour::BehaviourEvent::VoicePacket {
        from: PeerId { id: 2 },
        codec: "opus".to_string(),
        data: vec![9],
        channel: "general".to_string(),
    });
    assert_eq!(logic.audio_counter, before + 1);
    assert!(matches!(
        &logic.audio_outbox[logic.audio_outbox.len() - 2],
        Message::Audio(AudioMessage::CreateOutputChannel { id, .. }) if *id == before
    ));
    assert!(matches!(
        &logic.audio_outbox[logic.audio_outbox.len() - 1],
        Message::Audio(AudioMessage::OutputData { id, data }) if *id == before && data == &vec![9]
    ));
    // The second packet reuses the route without opening a new channel.
    logic.on_voice_event(the_man::behaviour::BehaviourEvent::VoicePacket {
        from: PeerId { id: 2 },
        codec: "opus".to_string(),
        data: vec![8],
        channel: "general".to_string(),
    });
    assert_eq!(logic.audio_counter, before + 1);
    assert!(matches!(
        &logic.audio_outbox[logic.audio_outbox.len() - 1],
        Message::Audio(AudioMessage::OutputData { id, data }) if *id == before && data == &vec![8]
    ));
}

#[test]
fn departed_peer_loses_all_playback_channels() {
    let mut logic = logic_with_active_account(true);
    for channel in ["a", "b"] {
        logic.on_voice_event(the_man::behaviour::BehaviourEvent::VoicePacket {
            from: PeerId { id: 2 },
            codec: "opus".to_string(),
            data: vec![1],
            channel: channel.to_string(),
        });
    }
    logic.audio_outbox.clear();
    logic.on_voice_event(the_man::behaviour::BehaviourEvent::VoiceDisconnected {
        from: PeerId { id: 2 },
    });
    let destroyed: Vec<usize> = logic
        .audio_outbox
        .iter()
        .filter_map(|m| match m {
            Message::Audio(AudioMessage::DestroyOuputChannel { id }) => Some(*id),
            _ => None,
        })
        .collect();
    assert_eq!(destroyed.len(), 2);
    match &logic.state.account {
        Some(a) => assert!(a.voice_channels.is_empty()),
        None => panic!("account is on line"),
    }
}

#[test]
fn failed_audio_stream_heals_itself() {
    let mut logic = logic_with_active_account(true);
    logic.on_audio_message(Message::Audio(AudioMessage::OutputError {
        id: 4,
        error: "gone".to_string(),
    }));
    let n = logic.audio_outbox.len();
    assert!(matches!(
        &logic.audio_outbox[n - 2],
        Message::Audio(AudioMessage::DestroyOuputChannel { id: 4 })
    ));
    assert!(matches!(
        &logic.audio_outbox[n - 1],
        Message::Audio(AudioMessage::CreateOutputChannel { id: 4, .. })
    ));
}

#[test]
fn captured_audio_is_broadcast() {
    let mut logic = logic_with_active_account(true);
    logic.on_audio_message(Message::Audio(AudioMessage::InputData { id: 0, data: vec![5, 6] }));
    assert!(matches!(
        logic.commands.pop(),
        Some(SwarmCommand::VoiceAudioPacket { data, .. }) if data == vec![5, 6]
    ));
}

#[test]
fn save_persists_expiry_and_returns_the_state() {
    let mut logic = logic_with_active_account(true);
    match &mut logic.state.account {
        Some(a) => a.expires = 5000,
        None => panic!("account is on line"),
    }
    logic.on_save_request(vec!["/ip4/1.2.3.4/tcp/1".to_string()], 1000, 70_000);
    // The active account expires 4000 ticks from now, so the persisted
    // calendar second is 74000.
    assert_eq!(logic.state.accounts[0].expires, 74_000);
    match logic.outbox.pop() {
        Some(Message::SaveResponse(Some(save))) => {
            assert_eq!(save.accounts.len(), 1);
            assert_eq!(save.accounts[0].expires, 74_000);
            assert_eq!(save.bootnodes, vec!["/ip4/1.2.3.4/tcp/1".to_string()]);
        },
        other => panic!("expected a save, got {:?}", other),
    }
}

#[test]
fn save_without_an_account_returns_nothing() {
    let save = TheManSaveState { accounts: Vec::new(), bootnodes: Vec::new() };
    let mut logic = TheManLogic::new(TheManState::from_save(save));
    logic.on_save_request(Vec::new(), 0, 0);
    assert!(matches!(logic.outbox.pop(), Some(Message::SaveResponse(None))));
}

#[test]
fn switching_accounts_tears_the_reactor_down() {
    let mut logic = logic_with_active_account(true);
    // Open one playback channel and one subscription, then switch.
    logic.on_voice_event(the_man::behaviour::BehaviourEvent::VoicePacket {
        from: PeerId { id: 2 },
        codec: "opus".to_string(),
        data: vec![1],
        channel: "general".to_string(),
    });
    logic.on_message(Message::SubscribeTopic("news".to_string()), ctx(4, 0, 0));
    logic.state.accounts.push(guest_account(false, 99_000));
    logic.audio_outbox.clear();
    logic.activate_account(1, PeerId { id: 88 }, ctx(30, 2000, 90_000));
    assert!(logic.subscribed.is_empty());
    assert!(logic.state.peers.is_empty());
    assert!(logic.registration_step_1_query.is_none());
    // The old playback channel was torn down.
    assert!(matches!(
        &logic.audio_outbox[0],
        Message::Audio(AudioMessage::DestroyOuputChannel { .. })
    ));
    match &logic.state.account {
        Some(a) => {
            assert_eq!(a.index, 1);
            assert_eq!(a.peer_id, PeerId { id: 88 });
            assert!(a.voice_channels.is_empty());
            // The renewal instant: 2000 + (99000 - 90000).
            assert_eq!(a.expires, 11_000);
            assert!(!a.auto_renew);
        },
        None => panic!("the new account is on line"),
    }
}

#[test]
fn peer_table_follows_the_connection_lifecycle() {
    let mut logic = logic_with_active_account(true);
    let p = PeerId { id: 3 };
    logic.on_event(the_man::message::NetEvent::ConnectionEstablished { peer: p }, ctx(1, 0, 0));
    assert_eq!(logic.state.peers.len(), 1);
    assert!(logic.state.peers[0].1.info.is_none());

    logic.on_event(
        the_man::message::NetEvent::IdentifyReceived {
            peer: p,
            info: the_man::state::IdentifyInfo {
                protocol_version: "theman/1.0.0".to_string(),
                agent_version: "x".to_string(),
                listen_addrs: Vec::new(),
                protocols: Vec::new(),
                observed_addr: String::new(),
            },
        },
        ctx(1, 0, 0),
    );
    assert!(logic.state.peers[0].1.info.is_some());

    logic.on_event(
        the_man::message::NetEvent::PingResult {
            peer: p,
            result: Ok(the_man::state::PingOk::Pong),
        },
        ctx(1, 0, 0),
    );
    assert!(matches!(
        logic.state.peers[0].1.ping,
        Some(Ok(the_man::state::PingOk::Pong))
    ));
    // The self-description survives the ping.
    assert!(logic.state.peers[0].1.info.is_some());

    logic.on_event(the_man::message::NetEvent::ConnectionClosed { peer: p }, ctx(1, 0, 0));
    assert!(logic.state.peers.is_empty());
}

#[test]
fn searches_pair_the_reply_with_the_query_number() {
    let mut logic = logic_with_active_account(true);
    logic.outbox.clear();
    logic.on_message(Message::SearchForKey(vec![1, 2]), ctx(41, 0, 0));
    assert!(matches!(
        logic.commands.pop(),
        Some(SwarmCommand::GetClosestPeers { query_id: 41, key }) if key == vec![1, 2]
    ));
    assert!(matches!(
        logic.outbox.pop(),
        Some(Message::ResSearchForKey(key, 41)) if key == vec![1, 2]
    ));
    logic.on_message(Message::SearchForRecord(vec![9]), ctx(42, 0, 0));
    assert!(matches!(
        logic.commands.pop(),
        Some(SwarmCommand::GetRecord { query_id: 42, key }) if key == vec![9]
    ));
}

#[test]
fn voice_shell_commands_reach_the_mesh() {
    let mut logic = logic_with_active_account(true);
    logic.on_message(Message::Voice(the_man::message::VoiceMessage::Connect("a".to_string())), ctx(1, 0, 0));
    assert!(matches!(
        logic.commands.pop(),
        Some(SwarmCommand::VoiceConnect { channel }) if channel == "a"
    ));
    logic.on_message(Message::Voice(the_man::message::VoiceMessage::Disconnect("a".to_string())), ctx(1, 0, 0));
    assert!(matches!(
        logic.commands.pop(),
        Some(SwarmCommand::VoiceDisconnect { channel }) if channel == "a"
    ));
}

#[test]
fn gossip_reports_are_forwarded() {
    let mut logic = logic_with_active_account(true);
    logic.outbox.clear();
    logic.on_event(
        the_man::message::NetEvent::GossipMessage {
            message: the_man::message::GossipMessage {
                source: None,
                data: vec![1],
                topic: "t".to_string(),
            },
        },
        ctx(1, 0, 0),
    );
    assert!(matches!(
        logic.outbox.pop(),
        Some(Message::NewMessage(topic, m)) if topic == "t" && m.data == vec![1]
    ));
}

#[test]
fn publication_needs_the_peer_floor_at_completion_too() {
    let mut logic = logic_with_active_account(true);
    let key = logic.on_renewal_due(MIN_KNOWN_PEERS, 5).expect("lookup starts");
    // The network view shrank below the floor while the lookup ran: the
    // attempt is abandoned and nothing is published.
    let mut shrunk = ctx(9, 2000, 100_000);
    shrunk.status.num_peers = MIN_KNOWN_PEERS - 1;
    logic.on_query_progressed(
        5,
        QueryUpdate::ClosestPeers { key, peers: Vec::new() },
        ProgressStep { count: 1, last: true },
        shrunk,
    );
    assert!(logic.commands.is_empty());
    assert_eq!(logic.registration_step_1_query, None);
    assert_eq!(logic.registration_query, None);
    // The next wake may retry.
    assert!(logic.on_renewal_due(MIN_KNOWN_PEERS, 6).is_some());
}
