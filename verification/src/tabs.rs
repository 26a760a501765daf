//! The state each interface tab keeps between frames, as plain values.
//!
//! The drawing itself happens outside; these types hold what a tab remembers
//! (its instance number, its input fields, what it is waiting for) and the
//! few decisions made on it, such as reading a tab-to-tab message or picking
//! the next free instance number.

use vstd::prelude::*;

verus! {

use crate::save_state::ChannelType;
use vstd::string::StringSliceAdditionalSpecFns;

/// The value of a decimal digit string, highest digit first.
pub open spec fn spec_decimal_value(bytes: Seq<u8>) -> int
    decreases bytes.len(),
{
    if bytes.len() == 0 {
        0
    } else {
        spec_decimal_value(bytes.drop_last()) * 10 + (bytes.last() - 48)
    }
}

/// Whether every byte is an ASCII digit.
pub open spec fn spec_all_digits(bytes: Seq<u8>) -> bool {
    forall|i: int| 0 <= i < bytes.len() ==> 48 <= #[trigger] bytes[i] <= 57
}

/// A digit string's value is never negative.
proof fn lemma_decimal_nonneg(bytes: Seq<u8>)
    requires
        spec_all_digits(bytes),
    ensures
        spec_decimal_value(bytes) >= 0,
    decreases bytes.len(),
{
    if bytes.len() != 0 {
        assert(spec_all_digits(bytes.drop_last()));
        lemma_decimal_nonneg(bytes.drop_last());
    }
}

/// A digit string's value never shrinks as digits are appended.
proof fn lemma_decimal_monotone(bytes: Seq<u8>, i: int)
    requires
        0 <= i <= bytes.len(),
        spec_all_digits(bytes),
    ensures
        spec_decimal_value(bytes.take(i)) <= spec_decimal_value(bytes),
        spec_decimal_value(bytes) >= 0,
    decreases bytes.len() - i,
{
    lemma_decimal_nonneg(bytes);
    if i == bytes.len() {
        assert(bytes.take(i) =~= bytes);
    } else {
        lemma_decimal_monotone(bytes, i + 1);
        assert(bytes.take(i + 1).drop_last() =~= bytes.take(i));
        assert(48 <= bytes.take(i + 1).last() <= 57) by {
            assert(bytes.take(i + 1).last() == bytes[i]);
        }
        assert(spec_all_digits(bytes.take(i))) by {
            assert(forall|j: int|
                0 <= j < i ==> #[trigger] bytes.take(i)[j] == bytes[j]);
        }
        lemma_decimal_nonneg(bytes.take(i));
        assert(spec_decimal_value(bytes.take(i + 1)) == spec_decimal_value(bytes.take(i)) * 10 + (
        bytes.take(i + 1).last() - 48));
    }
}

/// Reads a plain decimal number: `Some` exactly when the string is nonempty,
/// all ASCII digits, and its value fits the machine word.
pub fn parse_usize(s: &str) -> (r: Option<usize>)
    ensures
        ({
            let bytes = s.spec_bytes();
            match r {
                Some(v) => bytes.len() > 0 && spec_all_digits(bytes) && v == spec_decimal_value(
                    bytes,
                ),
                None => bytes.len() == 0 || !spec_all_digits(bytes) || spec_decimal_value(bytes)
                    > usize::MAX,
            }
        }),
{
    let bytes = s.as_bytes();
    if bytes.len() == 0 {
        return None;
    }
    let mut i: usize = 0;
    while i < bytes.len()
        invariant
            0 <= i <= bytes@.len(),
            bytes@ == s.spec_bytes(),
            forall|j: int| 0 <= j < i ==> 48 <= #[trigger] bytes@[j] <= 57,
        decreases bytes@.len() - i,
    {
        let b = bytes[i];
        if b < 48 || b > 57 {
            return None;
        }
        i = i + 1;
    }
    let mut acc: u128 = 0;
    let mut k: usize = 0;
    proof {
        assert(bytes@.take(0) =~= Seq::<u8>::empty());
    }
    while k < bytes.len()
        invariant
            0 <= k <= bytes@.len(),
            bytes@ == s.spec_bytes(),
            spec_all_digits(bytes@),
            acc == spec_decimal_value(bytes@.take(k as int)),
            acc <= usize::MAX,
        decreases bytes@.len() - k,
    {
        let d = bytes[k];
        acc = acc * 10 + ((d - 48) as u128);
        proof {
            assert(bytes@.take(k + 1).drop_last() =~= bytes@.take(k as int));
            assert(bytes@.take(k + 1).last() == bytes@[k as int]);
        }
        if acc > (usize::MAX as u128) {
            proof {
                lemma_decimal_monotone(bytes@, k + 1);
            }
            return None;
        }
        k = k + 1;
    }
    proof {
        assert(bytes@.take(bytes@.len() as int) =~= bytes@);
    }
    Some(acc as usize)
}

/// The smallest instance number from one upward that no open tab of the same
/// kind uses yet.
#[verifier::loop_isolation(false)]
pub fn next_free_id(used: &Vec<usize>) -> (r: usize)
    requires
        used@.len() < usize::MAX,
    ensures
        r >= 1,
        !used@.contains(r),
        forall|v: int| 1 <= v < r ==> used@.contains(#[trigger] (v as usize)),
{
    let mut id: usize = 1;
    loop
        invariant
            1 <= id <= used@.len() + 1,
            forall|v: int| 1 <= v < id ==> used@.contains(#[trigger] (v as usize)),
        decreases used@.len() + 1 - id,
    {
        let mut found = false;
        let mut i: usize = 0;
        while i < used.len()
            invariant
                0 <= i <= used@.len(),
                found <==> exists|j: int| 0 <= j < i && used@[j] == id,
            decreases used@.len() - i,
        {
            if used[i] == id {
                found = true;
            }
            i = i + 1;
        }
        if !found {
            proof {
                if used@.contains(id) {
                    let j = choose|j: int| 0 <= j < used@.len() && used@[j] == id;
                    assert(false);
                }
            }
            return id;
        }
        proof {
            assert(used@.contains(id)) by {
                let j = choose|j: int| 0 <= j < used@.len() && used@[j] == id;
                assert(used@[j] == id);
            }
            assert forall|v: int| 1 <= v <= id implies used@.contains(
                #[trigger] (v as usize),
            ) by {
                if v == id {
                    assert((v as usize) == id);
                }
            }
            lemma_range_needs_room(used@, id as int);
        }
        id = id + 1;
    }
}

/// A list containing the numbers from one to `n` among its values has length
/// at least `n`.
proof fn lemma_range_needs_room(used: Seq<usize>, n: int)
    requires
        0 <= n <= usize::MAX,
        forall|v: int| 1 <= v <= n ==> used.contains(#[trigger] (v as usize)),
    ensures
        used.len() >= n,
    decreases n,
{
    if n > 0 {
        assert(used.contains(n as usize));
        let j = choose|j: int| 0 <= j < used.len() && used[j] == n as usize;
        let trimmed = used.subrange(0, j) + used.subrange(j + 1, used.len() as int);
        assert forall|v: int| 1 <= v <= n - 1 implies trimmed.contains(
            #[trigger] (v as usize),
        ) by {
            assert(used.contains(v as usize));
            let i = choose|i: int| 0 <= i < used.len() && used[i] == v as usize;
            assert((v as usize) != (n as usize));
            if i < j {
                assert(trimmed[i] == used[i]);
                assert(trimmed.contains(v as usize));
            } else {
                assert(i > j);
                assert(trimmed[i - 1] == used[i]);
                assert(trimmed.contains(v as usize));
            }
        }
        lemma_range_needs_room(trimmed, n - 1);
    }
}

/// The state the "About" tab keeps between frames.
#[derive(Debug)]
pub struct TabAbout {
    pub id: usize,
}

impl Default for TabAbout {
    /// A fresh, unnumbered tab.
    fn default() -> (r: TabAbout)
        ensures
            r.id == 0,
    {
        TabAbout {
            id: 0,
        }
    }
}

impl TabAbout {
    /// The tab's display name.
    pub fn name(&self) -> (r: &'static str)
        ensures
            r@ == "About"@,
    {
        "About"
    }

    /// Whether the tab stays out of the tab-adding list.
    pub fn hidden(&self) -> (r: bool)
        ensures
            !r,
    {
        false
    }

    /// The tab's instance number.
    pub fn id(&self) -> (r: usize)
        ensures
            r == self.id,
    {
        self.id
    }

    /// Renumbers the tab.
    pub fn set_id(&mut self, id: usize)
        ensures
            *final(self) == (TabAbout { id, ..*old(self) }),
    {
        self.id = id;
    }

    /// Reads a tab-to-tab message; this tab ignores them.
    pub fn recive(&mut self, message: String)
        ensures
            *final(self) == *old(self),
    {
        let _ = message;
    }
}

/// The state the "Account" tab keeps between frames.
#[derive(Debug)]
pub struct TabAccount {
    pub id: usize,
    pub account_id: usize,
    pub name: String,
    pub peer_id: String,
}

impl Default for TabAccount {
    /// A fresh, unnumbered tab.
    fn default() -> (r: TabAccount)
        ensures
            r.id == 0,
            r.account_id == 0,
            r.name@ == Seq::<char>::empty(),
            r.peer_id@ == Seq::<char>::empty(),
    {
        TabAccount {
            id: 0,
            account_id: 0,
            name: String::new(),
            peer_id: String::new(),
        }
    }
}

impl TabAccount {
    /// The tab's display name.
    pub fn name(&self) -> (r: &'static str)
        ensures
            r@ == "Account"@,
    {
        "Account"
    }

    /// Whether the tab stays out of the tab-adding list.
    pub fn hidden(&self) -> (r: bool)
        ensures
            r,
    {
        true
    }

    /// The tab's instance number.
    pub fn id(&self) -> (r: usize)
        ensures
            r == self.id,
    {
        self.id
    }

    /// Renumbers the tab.
    pub fn set_id(&mut self, id: usize)
        ensures
            *final(self) == (TabAccount { id, ..*old(self) }),
    {
        self.id = id;
    }

    /// Reads a tab-to-tab message: a plain decimal number selects what the
    /// tab shows; anything else is ignored.
    pub fn recive(&mut self, message: String)
        ensures
            ({
                let bytes = vstd::utf8::encode_utf8(message@);
                if bytes.len() > 0 && spec_all_digits(bytes) && spec_decimal_value(bytes)
                    <= usize::MAX {
                    *final(self) == (TabAccount {
                        account_id: spec_decimal_value(bytes) as usize,
                        ..*old(self)
                    })
                } else {
                    *final(self) == *old(self)
                }
            }),
    {
        match parse_usize(message.as_str()) {
            Some(v) => {
                self.account_id = v;
            },
            None => {},
        }
    }
}

/// The state the "Accounts" tab keeps between frames.
#[derive(Debug)]
pub struct TabAccounts {
    pub id: usize,
    pub add_user_name: String,
}

impl Default for TabAccounts {
    /// A fresh, unnumbered tab.
    fn default() -> (r: TabAccounts)
        ensures
            r.id == 0,
            r.add_user_name@ == Seq::<char>::empty(),
    {
        TabAccounts {
            id: 0,
            add_user_name: String::new(),
        }
    }
}

impl TabAccounts {
    /// The tab's display name.
    pub fn name(&self) -> (r: &'static str)
        ensures
            r@ == "Accounts"@,
    {
        "Accounts"
    }

    /// The tab's instance number.
    pub fn id(&self) -> (r: usize)
        ensures
            r == self.id,
    {
        self.id
    }

    /// Renumbers the tab.
    pub fn set_id(&mut self, id: usize)
        ensures
            *final(self) == (TabAccounts { id, ..*old(self) }),
    {
        self.id = id;
    }

    /// Reads a tab-to-tab message; this tab ignores them.
    pub fn recive(&mut self, message: String)
        ensures
            *final(self) == *old(self),
    {
        let _ = message;
    }
}

/// The state the "Boot Nodes" tab keeps between frames.
#[derive(Debug)]
pub struct TabBootNodes {
    pub id: usize,
}

impl Default for TabBootNodes {
    /// A fresh, unnumbered tab.
    fn default() -> (r: TabBootNodes)
        ensures
            r.id == 0,
    {
        TabBootNodes {
            id: 0,
        }
    }
}

impl TabBootNodes {
    /// The tab's display name.
    pub fn name(&self) -> (r: &'static str)
        ensures
            r@ == "Boot Nodes"@,
    {
        "Boot Nodes"
    }

    /// Whether the tab stays out of the tab-adding list.
    pub fn hidden(&self) -> (r: bool)
        ensures
            !r,
    {
        false
    }

    /// The tab's instance number.
    pub fn id(&self) -> (r: usize)
        ensures
            r == self.id,
    {
        self.id
    }

    /// Renumbers the tab.
    pub fn set_id(&mut self, id: usize)
        ensures
            *final(self) == (TabBootNodes { id, ..*old(self) }),
    {
        self.id = id;
    }

    /// Reads a tab-to-tab message; this tab ignores them.
    pub fn recive(&mut self, message: String)
        ensures
            *final(self) == *old(self),
    {
        let _ = message;
    }
}

/// The state the "Channels" tab keeps between frames.
#[derive(Debug)]
pub struct TabChannels {
    pub id: usize,
    pub channel_type: ChannelType,
    pub channel_name: String,
}

impl Default for TabChannels {
    /// A fresh, unnumbered tab.
    fn default() -> (r: TabChannels)
        ensures
            r.id == 0,
            r.channel_type == ChannelType::Message,
            r.channel_name@ == Seq::<char>::empty(),
    {
        TabChannels {
            id: 0,
            channel_type: ChannelType::Message,
            channel_name: String::new(),
        }
    }
}

impl TabChannels {
    /// The tab's display name.
    pub fn name(&self) -> (r: &'static str)
        ensures
            r@ == "Channels"@,
    {
        "Channels"
    }

    /// Whether the tab stays out of the tab-adding list.
    pub fn hidden(&self) -> (r: bool)
        ensures
            !r,
    {
        false
    }

    /// The tab's instance number.
    pub fn id(&self) -> (r: usize)
        ensures
            r == self.id,
    {
        self.id
    }

    /// Renumbers the tab.
    pub fn set_id(&mut self, id: usize)
        ensures
            *final(self) == (TabChannels { id, ..*old(self) }),
    {
        self.id = id;
    }

    /// Reads a tab-to-tab message; this tab ignores them.
    pub fn recive(&mut self, message: String)
        ensures
            *final(self) == *old(self),
    {
        let _ = message;
    }
}

/// The state the "Discover" tab keeps between frames.
#[derive(Debug)]
pub struct TabDiscover {
    pub id: usize,
    pub peer_id: String,
    pub name: String,
    pub waiting_for_key: Option<Vec<u8>>,
    pub waiting_for_record: Option<Vec<u8>>,
    pub searching_by_name: bool,
}

impl Default for TabDiscover {
    /// A fresh, unnumbered tab.
    fn default() -> (r: TabDiscover)
        ensures
            r.id == 0,
            r.peer_id@ == Seq::<char>::empty(),
            r.name@ == Seq::<char>::empty(),
            r.waiting_for_key is None,
            r.waiting_for_record is None,
            !r.searching_by_name,
    {
        TabDiscover {
            id: 0,
            peer_id: String::new(),
            name: String::new(),
            waiting_for_key: None,
            waiting_for_record: None,
            searching_by_name: false,
        }
    }
}

impl TabDiscover {
    /// The tab's display name.
    pub fn name(&self) -> (r: &'static str)
        ensures
            r@ == "Discover"@,
    {
        "Discover"
    }

    /// Whether the tab stays out of the tab-adding list.
    pub fn hidden(&self) -> (r: bool)
        ensures
            !r,
    {
        false
    }

    /// The tab's instance number.
    pub fn id(&self) -> (r: usize)
        ensures
            r == self.id,
    {
        self.id
    }

    /// Renumbers the tab.
    pub fn set_id(&mut self, id: usize)
        ensures
            *final(self) == (TabDiscover { id, ..*old(self) }),
    {
        self.id = id;
    }

    /// Reads a tab-to-tab message; this tab ignores them.
    pub fn recive(&mut self, message: String)
        ensures
            *final(self) == *old(self),
    {
        let _ = message;
    }
}

/// The state the "Friends" tab keeps between frames.
#[derive(Debug)]
pub struct TabFriends {
    pub id: usize,
    pub name: String,
    pub peer_id: String,
}

impl Default for TabFriends {
    /// A fresh, unnumbered tab.
    fn default() -> (r: TabFriends)
        ensures
            r.id == 0,
            r.name@ == Seq::<char>::empty(),
            r.peer_id@ == Seq::<char>::empty(),
    {
        TabFriends {
            id: 0,
            name: String::new(),
            peer_id: String::new(),
        }
    }
}

impl TabFriends {
    /// The tab's display name.
    pub fn name(&self) -> (r: &'static str)
        ensures
            r@ == "Friends"@,
    {
        "Friends"
    }

    /// The tab's instance number.
    pub fn id(&self) -> (r: usize)
        ensures
            r == self.id,
    {
        self.id
    }

    /// Renumbers the tab.
    pub fn set_id(&mut self, id: usize)
        ensures
            *final(self) == (TabFriends { id, ..*old(self) }),
    {
        self.id = id;
    }

    /// Reads a tab-to-tab message; this tab ignores them.
    pub fn recive(&mut self, message: String)
        ensures
            *final(self) == *old(self),
    {
        let _ = message;
    }
}

/// The state the "My Self" tab keeps between frames.
#[derive(Debug)]
pub struct TabMySelf {
    pub id: usize,
}

impl Default for TabMySelf {
    /// A fresh, unnumbered tab.
    fn default() -> (r: TabMySelf)
        ensures
            r.id == 0,
    {
        TabMySelf {
            id: 0,
        }
    }
}

impl TabMySelf {
    /// The tab's display name.
    pub fn name(&self) -> (r: &'static str)
        ensures
            r@ == "My Self"@,
    {
        "My Self"
    }

    /// The tab's instance number.
    pub fn id(&self) -> (r: usize)
        ensures
            r == self.id,
    {
        self.id
    }

    /// Renumbers the tab.
    pub fn set_id(&mut self, id: usize)
        ensures
            *final(self) == (TabMySelf { id, ..*old(self) }),
    {
        self.id = id;
    }

    /// Reads a tab-to-tab message; this tab ignores them.
    pub fn recive(&mut self, message: String)
        ensures
            *final(self) == *old(self),
    {
        let _ = message;
    }
}

/// The state the "Peers" tab keeps between frames.
#[derive(Debug)]
pub struct TabPeers {
    pub id: usize,
}

impl Default for TabPeers {
    /// A fresh, unnumbered tab.
    fn default() -> (r: TabPeers)
        ensures
            r.id == 0,
    {
        TabPeers {
            id: 0,
        }
    }
}

impl TabPeers {
    /// The tab's display name.
    pub fn name(&self) -> (r: &'static str)
        ensures
            r@ == "Peers"@,
    {
        "Peers"
    }

    /// Whether the tab stays out of the tab-adding list.
    pub fn hidden(&self) -> (r: bool)
        ensures
            !r,
    {
        false
    }

    /// The tab's instance number.
    pub fn id(&self) -> (r: usize)
        ensures
            r == self.id,
    {
        self.id
    }

    /// Renumbers the tab.
    pub fn set_id(&mut self, id: usize)
        ensures
            *final(self) == (TabPeers { id, ..*old(self) }),
    {
        self.id = id;
    }

    /// Reads a tab-to-tab message; this tab ignores them.
    pub fn recive(&mut self, message: String)
        ensures
            *final(self) == *old(self),
    {
        let _ = message;
    }
}

/// The state the "Query" tab keeps between frames.
#[derive(Debug)]
pub struct TabQuery {
    pub id: usize,
    pub index: usize,
}

impl Default for TabQuery {
    /// A fresh, unnumbered tab.
    fn default() -> (r: TabQuery)
        ensures
            r.id == 0,
            r.index == 0,
    {
        TabQuery {
            id: 0,
            index: 0,
        }
    }
}

impl TabQuery {
    /// The tab's display name.
    pub fn name(&self) -> (r: &'static str)
        ensures
            r@ == "Query"@,
    {
        "Query"
    }

    /// Whether the tab stays out of the tab-adding list.
    pub fn hidden(&self) -> (r: bool)
        ensures
            r,
    {
        true
    }

    /// The tab's instance number.
    pub fn id(&self) -> (r: usize)
        ensures
            r == self.id,
    {
        self.id
    }

    /// Renumbers the tab.
    pub fn set_id(&mut self, id: usize)
        ensures
            *final(self) == (TabQuery { id, ..*old(self) }),
    {
        self.id = id;
    }

    /// Reads a tab-to-tab message: a plain decimal number selects what the
    /// tab shows; anything else is ignored.
    pub fn recive(&mut self, message: String)
        ensures
            ({
                let bytes = vstd::utf8::encode_utf8(message@);
                if bytes.len() > 0 && spec_all_digits(bytes) && spec_decimal_value(bytes)
                    <= usize::MAX {
                    *final(self) == (TabQuery {
                        index: spec_decimal_value(bytes) as usize,
                        ..*old(self)
                    })
                } else {
                    *final(self) == *old(self)
                }
            }),
    {
        match parse_usize(message.as_str()) {
            Some(v) => {
                self.index = v;
            },
            None => {},
        }
    }
}

/// The state the "Querys" tab keeps between frames.
#[derive(Debug)]
pub struct TabQuerys {
    pub id: usize,
}

impl Default for TabQuerys {
    /// A fresh, unnumbered tab.
    fn default() -> (r: TabQuerys)
        ensures
            r.id == 0,
    {
        TabQuerys {
            id: 0,
        }
    }
}

impl TabQuerys {
    /// The tab's display name.
    pub fn name(&self) -> (r: &'static str)
        ensures
            r@ == "Querys"@,
    {
        "Querys"
    }

    /// Whether the tab stays out of the tab-adding list.
    pub fn hidden(&self) -> (r: bool)
        ensures
            !r,
    {
        false
    }

    /// The tab's instance number.
    pub fn id(&self) -> (r: usize)
        ensures
            r == self.id,
    {
        self.id
    }

    /// Renumbers the tab.
    pub fn set_id(&mut self, id: usize)
        ensures
            *final(self) == (TabQuerys { id, ..*old(self) }),
    {
        self.id = id;
    }

    /// Reads a tab-to-tab message; this tab ignores them.
    pub fn recive(&mut self, message: String)
        ensures
            *final(self) == *old(self),
    {
        let _ = message;
    }
}

/// The state the "Swarm Status" tab keeps between frames.
#[derive(Debug)]
pub struct TabSwarmStatus {
    pub id: usize,
}

impl Default for TabSwarmStatus {
    /// A fresh, unnumbered tab.
    fn default() -> (r: TabSwarmStatus)
        ensures
            r.id == 0,
    {
        TabSwarmStatus {
            id: 0,
        }
    }
}

impl TabSwarmStatus {
    /// The tab's display name.
    pub fn name(&self) -> (r: &'static str)
        ensures
            r@ == "Swarm Status"@,
    {
        "Swarm Status"
    }

    /// Whether the tab stays out of the tab-adding list.
    pub fn hidden(&self) -> (r: bool)
        ensures
            !r,
    {
        false
    }

    /// The tab's instance number.
    pub fn id(&self) -> (r: usize)
        ensures
            r == self.id,
    {
        self.id
    }

    /// Renumbers the tab.
    pub fn set_id(&mut self, id: usize)
        ensures
            *final(self) == (TabSwarmStatus { id, ..*old(self) }),
    {
        self.id = id;
    }

    /// Reads a tab-to-tab message; this tab ignores them.
    pub fn recive(&mut self, message: String)
        ensures
            *final(self) == *old(self),
    {
        let _ = message;
    }
}

} // verus!
