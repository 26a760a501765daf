//! Persisted account data: what the application saves to disk and loads
//! back, reduced to the plain values the protocol logic reads.
//!
//! The application serialises these values and holds the key material; here
//! a point in calendar time is a signed count of seconds, a transport
//! address is its textual form, and a peer identity is a [`PeerId`].

use vstd::prelude::*;

verus! {

use crate::peer::PeerId;
use crate::state::TheManState;

/// A remembered peer: an identity under a human-chosen name.
#[derive(Clone, Debug)]
pub struct Friend {
    pub peer_id: PeerId,
    pub name: String,
}

/// The mathematical value of a [`Friend`].
pub struct FriendView {
    pub peer_id: PeerId,
    pub name: Seq<char>,
}

impl View for Friend {
    type V = FriendView;

    open spec fn view(&self) -> FriendView {
        FriendView { peer_id: self.peer_id, name: self.name@ }
    }
}

impl DeepView for Friend {
    type V = FriendView;

    open spec fn deep_view(&self) -> FriendView {
        self.view()
    }
}

/// What a named channel carries: text messages or voice.
#[derive(Clone, Copy, PartialEq, Eq, Structural, Debug, Default)]
pub enum ChannelType {
    #[default]
    Message,
    Voice,
}

impl View for ChannelType {
    type V = ChannelType;

    open spec fn view(&self) -> ChannelType {
        *self
    }
}

impl DeepView for ChannelType {
    type V = ChannelType;

    open spec fn deep_view(&self) -> ChannelType {
        *self
    }
}

/// One stored account: key material, social state, and the expiry of its
/// last successful name registration, as seconds of calendar time.
#[derive(Clone, Debug)]
pub struct Account {
    pub name: String,
    /// The account's encoded private key; only the application reads it.
    pub private: Vec<u8>,
    pub friends: Vec<Friend>,
    /// When the published name record expires, in seconds of calendar time.
    pub expires: i64,
    pub channels: Vec<(String, ChannelType)>,
    /// Whether the registration is renewed without asking.
    pub renew: bool,
}

/// The mathematical value of an [`Account`].
pub struct AccountView {
    pub name: Seq<char>,
    pub private: Seq<u8>,
    pub friends: Seq<FriendView>,
    pub expires: i64,
    pub channels: Seq<(Seq<char>, ChannelType)>,
    pub renew: bool,
}

impl View for Account {
    type V = AccountView;

    open spec fn view(&self) -> AccountView {
        AccountView {
            name: self.name@,
            private: self.private@,
            friends: self.friends.deep_view(),
            expires: self.expires,
            channels: self.channels.deep_view(),
            renew: self.renew,
        }
    }
}

impl DeepView for Account {
    type V = AccountView;

    open spec fn deep_view(&self) -> AccountView {
        self.view()
    }
}

/// Everything the application persists between runs: the accounts and the
/// bootstrap addresses gathered from the network, in textual form.
#[derive(Clone, Debug)]
pub struct TheManSaveState {
    pub accounts: Vec<Account>,
    pub bootnodes: Vec<String>,
}

/// The mathematical value of a [`TheManSaveState`].
pub struct SaveStateView {
    pub accounts: Seq<AccountView>,
    pub bootnodes: Seq<Seq<char>>,
}

impl View for TheManSaveState {
    type V = SaveStateView;

    open spec fn view(&self) -> SaveStateView {
        SaveStateView {
            accounts: self.accounts.deep_view(),
            bootnodes: self.bootnodes.deep_view(),
        }
    }
}

impl TheManState {
    /// A freshly loaded state: the saved accounts and bootstrap addresses,
    /// no active account, and no peers yet.
    pub fn from_save(value: TheManSaveState) -> (r: TheManState)
        ensures
            r.accounts == value.accounts,
            r.account is None,
            r.peers@ == Seq::<(crate::peer::PeerId, crate::state::PeerStatus)>::empty(),
            r.bootnodes == value.bootnodes,
    {
        TheManState {
            accounts: value.accounts,
            account: None,
            peers: Vec::new(),
            bootnodes: value.bootnodes,
        }
    }
}

/// Copies a channel list value for value.
#[verifier::loop_isolation(false)]
pub fn clone_channels(channels: &Vec<(String, ChannelType)>) -> (r: Vec<(String, ChannelType)>)
    ensures
        r.deep_view() == channels.deep_view(),
{
    let mut out: Vec<(String, ChannelType)> = Vec::new();
    let mut i: usize = 0;
    while i < channels.len()
        invariant
            0 <= i <= channels.len(),
            out.deep_view() =~= channels.deep_view().take(i as int),
        decreases channels.len() - i,
    {
        let ghost opre = out.deep_view();
        let entry = (channels[i].0.clone(), channels[i].1);
        out.push(entry);
        proof {
            assert(out.deep_view() =~= opre.push(channels.deep_view()[i as int]));
            assert(channels.deep_view().take(i + 1) =~= channels.deep_view().take(i as int).push(
                channels.deep_view()[i as int],
            ));
        }
        i = i + 1;
    }
    proof {
        assert(channels.deep_view().take(channels@.len() as int) =~= channels.deep_view());
    }
    out
}

/// Copies a friend list value for value.
#[verifier::loop_isolation(false)]
pub fn clone_friends(friends: &Vec<Friend>) -> (r: Vec<Friend>)
    ensures
        r.deep_view() == friends.deep_view(),
{
    let mut out: Vec<Friend> = Vec::new();
    let mut i: usize = 0;
    while i < friends.len()
        invariant
            0 <= i <= friends.len(),
            out.deep_view() =~= friends.deep_view().take(i as int),
        decreases friends.len() - i,
    {
        let ghost opre = out.deep_view();
        let f = Friend { peer_id: friends[i].peer_id, name: friends[i].name.clone() };
        out.push(f);
        proof {
            assert(out.deep_view() =~= opre.push(friends.deep_view()[i as int]));
            assert(friends.deep_view().take(i + 1) =~= friends.deep_view().take(i as int).push(
                friends.deep_view()[i as int],
            ));
        }
        i = i + 1;
    }
    proof {
        assert(friends.deep_view().take(friends@.len() as int) =~= friends.deep_view());
    }
    out
}

/// Copies one account value for value.
pub fn clone_account(account: &Account) -> (r: Account)
    ensures
        r@ == account@,
{
    Account {
        name: account.name.clone(),
        private: vstd::slice::slice_to_vec(account.private.as_slice()),
        friends: clone_friends(&account.friends),
        expires: account.expires,
        channels: clone_channels(&account.channels),
        renew: account.renew,
    }
}

/// Copies the account list value for value.
#[verifier::loop_isolation(false)]
pub fn clone_accounts(accounts: &Vec<Account>) -> (r: Vec<Account>)
    ensures
        r.deep_view() == accounts.deep_view(),
{
    let mut out: Vec<Account> = Vec::new();
    let mut i: usize = 0;
    while i < accounts.len()
        invariant
            0 <= i <= accounts.len(),
            out.deep_view() =~= accounts.deep_view().take(i as int),
        decreases accounts.len() - i,
    {
        let ghost opre = out.deep_view();
        let a = clone_account(&accounts[i]);
        out.push(a);
        proof {
            assert(out.deep_view() =~= opre.push(accounts.deep_view()[i as int]));
            assert(accounts.deep_view().take(i + 1) =~= accounts.deep_view().take(i as int).push(
                accounts.deep_view()[i as int],
            ));
        }
        i = i + 1;
    }
    proof {
        assert(accounts.deep_view().take(accounts@.len() as int) =~= accounts.deep_view());
    }
    out
}

} // verus!
