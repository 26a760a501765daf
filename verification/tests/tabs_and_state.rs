//! Tab-state, parsing and clock-conversion tests.

use the_man::logic::{persisted_expiry, sat_add};
use the_man::state::renewal_instant;
use the_man::tabs::{next_free_id, parse_usize, TabAccount, TabQuery, TabQuerys};

#[test]
fn parse_usize_reads_plain_decimals() {
    assert_eq!(parse_usize("0"), Some(0));
    assert_eq!(parse_usize("42"), Some(42));
    assert_eq!(parse_usize("007"), Some(7));
    assert_eq!(parse_usize(""), None);
    assert_eq!(parse_usize("4x2"), None);
    assert_eq!(parse_usize("-1"), None);
    assert_eq!(parse_usize("99999999999999999999999999"), None);
    assert_eq!(parse_usize(&usize::MAX.to_string()), Some(usize::MAX));
}

#[test]
fn tabs_read_numeric_messages() {
    let mut tab = TabAccount::default();
    tab.recive("3".to_string());
    assert_eq!(tab.account_id, 3);
    tab.recive("nonsense".to_string());
    assert_eq!(tab.account_id, 3);

    let mut q = TabQuery::default();
    q.recive("11".to_string());
    assert_eq!(q.index, 11);
}

#[test]
fn tabs_carry_their_instance_number() {
    let mut tab = TabQuerys::default();
    assert_eq!(tab.id(), 0);
    tab.set_id(7);
    assert_eq!(tab.id(), 7);
    assert_eq!(tab.name(), "Querys");
    assert!(!tab.hidden());
    let account = TabAccount::default();
    assert!(account.hidden());
}

#[test]
fn next_free_id_picks_the_smallest_gap() {
    assert_eq!(next_free_id(&vec![]), 1);
    assert_eq!(next_free_id(&vec![1, 2, 4]), 3);
    assert_eq!(next_free_id(&vec![2, 3]), 1);
    assert_eq!(next_free_id(&vec![1, 2, 3]), 4);
}

#[test]
fn renewal_instant_keeps_remaining_calendar_time() {
    // 100 ticks now, record lapses 900 calendar seconds from now.
    assert_eq!(renewal_instant(100, 50_000, 50_900), 1000);
    // An already lapsed record renews at once.
    assert_eq!(renewal_instant(100, 50_000, 40_000), 100);
}

#[test]
fn persisted_expiry_mirrors_renewal_instant() {
    assert_eq!(persisted_expiry(50_000, 100, 1000), 50_900);
    assert_eq!(persisted_expiry(50_000, 100, 50), 50_000);
}

#[test]
fn sat_add_stops_at_the_top() {
    assert_eq!(sat_add(1, 2), 3);
    assert_eq!(sat_add(u64::MAX - 1, 5), u64::MAX);
}

#[test]
fn peer_identity_bytes_are_little_endian() {
    assert_eq!(the_man::peer::PeerId { id: 0x0102 }.to_bytes(), vec![2, 1, 0, 0, 0, 0, 0, 0]);
}

#[test]
fn playable_len_plays_whole_blocks_or_silence() {
    assert_eq!(the_man::audio::playable_len(100, 60), 60);
    assert_eq!(the_man::audio::playable_len(50, 60), 0);
}

#[test]
fn failure_carries_its_message() {
    let f = the_man::behaviour::Failure::Other { error: "broken pipe".to_string() };
    assert_eq!(f.message(), "broken pipe");
}
