//! The relay's decisions: which registrations it accepts, where an
//! encrypted payload goes, which connection a user is reached on, and in
//! what order queued payloads are handed over.

use vstd::prelude::*;
use vstd::string::StringExecFns;
use crate::protocol::{is_valid_ed25519_public_key_text, is_valid_username,
    is_valid_x25519_public_key_text, valid_key_text, valid_username, KeyRecordView, PublicKeyEntry,
    PublicKeyRegistration, RoutedEncryptedMessage, ED25519_PUBLIC_KEY_TEXT_LEN,
    X25519_PUBLIC_KEY_TEXT_LEN};
use crate::text::string_from_chars;

verus! {

/// An encrypted payload waiting in the relay's queue.
#[derive(Clone, Debug, PartialEq, Eq)]
pub struct QueuedMessage {
    pub id: i64,
    pub payload: Vec<u8>,
}

/// Why the relay refused a request.
#[derive(Clone, Copy, Debug, PartialEq, Eq, Structural)]
pub enum Rejection {
    InvalidUsername,
    InvalidIdentityKey,
    InvalidEncryptionKey,
    KeyNotFound,
    DirectoryError,
}

impl Rejection {
    /// The HTTP status the relay answers with.
    pub fn status_code(&self) -> (r: u16)
        ensures
            r == rejection_status(*self),
    {
        match self {
            Rejection::InvalidUsername => 400,
            Rejection::InvalidIdentityKey => 400,
            Rejection::InvalidEncryptionKey => 400,
            Rejection::KeyNotFound => 404,
            Rejection::DirectoryError => 500,
        }
    }

    /// The text of the answer.
    pub fn message(&self) -> (r: String)
        ensures
            r@ == rejection_text(*self),
    {
        match self {
            Rejection::InvalidUsername => String::from_str(
                "username must use only letters, numbers, '.', '-', or '_'",
            ),
            Rejection::InvalidIdentityKey => String::from_str(
                "public key must be a base64url Ed25519 public key",
            ),
            Rejection::InvalidEncryptionKey => String::from_str(
                "encryption public key must be a base64url X25519 public key",
            ),
            Rejection::KeyNotFound => String::from_str("public key not found"),
            Rejection::DirectoryError => String::from_str("directory database error"),
        }
    }
}

/// The text the relay answers a refused request with.
pub open spec fn rejection_text(r: Rejection) -> Seq<char> {
    match r {
        Rejection::InvalidUsername => "username must use only letters, numbers, '.', '-', or '_'"@,
        Rejection::InvalidIdentityKey => "public key must be a base64url Ed25519 public key"@,
        Rejection::InvalidEncryptionKey => "encryption public key must be a base64url X25519 public key"@,
        Rejection::KeyNotFound => "public key not found"@,
        Rejection::DirectoryError => "directory database error"@,
    }
}

/// Bad requests answer 400, a missing key 404, a database failure 500.
pub open spec fn rejection_status(r: Rejection) -> u16 {
    match r {
        Rejection::KeyNotFound => 404,
        Rejection::DirectoryError => 500,
        _ => 400,
    }
}

/// The relay's verdict on a registration: the username is checked first,
/// then the identity key, then the encryption key.
pub open spec fn registration_verdict(r: KeyRecordView) -> Result<(), Rejection> {
    if !valid_username(r.username) {
        Err(Rejection::InvalidUsername)
    } else if !valid_key_text(r.identity_public_key, ED25519_PUBLIC_KEY_TEXT_LEN as nat) {
        Err(Rejection::InvalidIdentityKey)
    } else if !valid_key_text(r.encryption_public_key, X25519_PUBLIC_KEY_TEXT_LEN as nat) {
        Err(Rejection::InvalidEncryptionKey)
    } else {
        Ok(())
    }
}

/// Checks a registration before it is stored.
pub fn validate_registration(registration: &PublicKeyRegistration) -> (r: Result<(), Rejection>)
    ensures
        r == registration_verdict(registration@),
{
    if !is_valid_username(registration.username.as_str()) {
        return Err(Rejection::InvalidUsername);
    }
    if !is_valid_ed25519_public_key_text(registration.identity_public_key.as_str()) {
        return Err(Rejection::InvalidIdentityKey);
    }
    if !is_valid_x25519_public_key_text(registration.encryption_public_key.as_str()) {
        return Err(Rejection::InvalidEncryptionKey);
    }
    Ok(())
}

/// An accepted registration carries a username of 1 to 64 ASCII letters,
/// digits, '-', '_' or '.', and two key texts of 43 characters, each an
/// ASCII letter, digit, '-' or '_'.
pub proof fn lemma_accepted_registration_alphabet(r: KeyRecordView)
    requires
        registration_verdict(r) is Ok,
    ensures
        0 < r.username.len() <= 64,
        forall|i: int|
            0 <= i < r.username.len() ==> ('a' <= #[trigger] r.username[i] <= 'z') || ('A' <= r.username[i]
                <= 'Z') || ('0' <= r.username[i] <= '9') || r.username[i] == '-' || r.username[i] == '_'
                || r.username[i] == '.',
        r.identity_public_key.len() == 43,
        forall|i: int|
            0 <= i < r.identity_public_key.len() ==> ('a' <= #[trigger] r.identity_public_key[i] <= 'z') || (
            'A' <= r.identity_public_key[i] <= 'Z') || ('0' <= r.identity_public_key[i] <= '9')
                || r.identity_public_key[i] == '-' || r.identity_public_key[i] == '_',
        r.encryption_public_key.len() == 43,
        forall|i: int|
            0 <= i < r.encryption_public_key.len() ==> ('a' <= #[trigger] r.encryption_public_key[i] <= 'z')
                || ('A' <= r.encryption_public_key[i] <= 'Z') || ('0' <= r.encryption_public_key[i] <= '9')
                || r.encryption_public_key[i] == '-' || r.encryption_public_key[i] == '_',
{
    crate::protocol::lemma_username_alphabet(r.username);
    crate::protocol::lemma_key_text_alphabet(r.identity_public_key, 43);
    crate::protocol::lemma_key_text_alphabet(r.encryption_public_key, 43);
}

/// A registration whose username and two key texts are well formed is
/// accepted; in particular the keys of a freshly created identity are.
pub proof fn lemma_well_formed_registration_accepted(r: KeyRecordView)
    requires
        valid_username(r.username),
        valid_key_text(r.identity_public_key, ED25519_PUBLIC_KEY_TEXT_LEN as nat),
        valid_key_text(r.encryption_public_key, X25519_PUBLIC_KEY_TEXT_LEN as nat),
    ensures
        registration_verdict(r) == Ok::<(), Rejection>(()),
{
}

/// Checks the username of a lookup or a connection.
pub fn check_username(username: &str) -> (r: Result<(), Rejection>)
    ensures
        r is Ok <==> valid_username(username@),
        r matches Err(e) ==> e == Rejection::InvalidUsername,
{
    if is_valid_username(username) {
        Ok(())
    } else {
        Err(Rejection::InvalidUsername)
    }
}

/// The directory record stored for a registration: the same three texts.
pub fn registered_entry(registration: &PublicKeyRegistration) -> (r: PublicKeyEntry)
    ensures
        r@ == registration@,
{
    PublicKeyEntry {
        username: registration.username.clone(),
        identity_public_key: registration.identity_public_key.clone(),
        encryption_public_key: registration.encryption_public_key.clone(),
    }
}

/// The answer to a lookup: the record, or "not found".
pub fn lookup_result(found: Option<PublicKeyEntry>) -> (r: Result<PublicKeyEntry, Rejection>)
    ensures
        match found {
            Some(e) => r matches Ok(x) && x@ == e@,
            None => r == Err::<PublicKeyEntry, Rejection>(Rejection::KeyNotFound),
        },
{
    match found {
        Some(e) => Ok(e),
        None => Err(Rejection::KeyNotFound),
    }
}

/// The lowercase hexadecimal digits.
pub open spec fn hex_digits() -> Seq<char> {
    seq!['0', '1', '2', '3', '4', '5', '6', '7', '8', '9', 'a', 'b', 'c', 'd', 'e', 'f']
}

/// Two lowercase hexadecimal digits per byte.
pub open spec fn hex_of(bytes: Seq<u8>) -> Seq<char>
    decreases bytes.len(),
{
    if bytes.len() == 0 {
        Seq::empty()
    } else {
        let b = bytes.last();
        hex_of(bytes.drop_last()) + seq![hex_digits()[(b / 16) as int], hex_digits()[(b % 16) as int]]
    }
}

/// How many payload bytes the relay's log shows.
pub const HEX_PREVIEW_LIMIT: usize = 96;

/// The log preview of a payload: the hexadecimal of its first 96 bytes,
/// followed by `...` when there are more.
pub open spec fn hex_preview_of(bytes: Seq<u8>) -> Seq<char> {
    if bytes.len() > HEX_PREVIEW_LIMIT {
        hex_of(bytes.take(HEX_PREVIEW_LIMIT as int)) + seq!['.', '.', '.']
    } else {
        hex_of(bytes)
    }
}

/// The log preview of a payload.
pub fn hex_preview(bytes: &[u8]) -> (r: String)
    ensures
        r@ == hex_preview_of(bytes@),
{
    let digits: [char; 16] = ['0', '1', '2', '3', '4', '5', '6', '7', '8', '9', 'a', 'b', 'c', 'd', 'e', 'f'];
    assert(digits@ =~= hex_digits());
    let n = if bytes.len() < HEX_PREVIEW_LIMIT {
        bytes.len()
    } else {
        HEX_PREVIEW_LIMIT
    };
    let mut out: Vec<char> = Vec::new();
    let mut i: usize = 0;
    assert(bytes@.take(0) =~= Seq::<u8>::empty());
    while i < n
        invariant
            n <= bytes@.len(),
            i <= n,
            digits@ == hex_digits(),
            out@ == hex_of(bytes@.take(i as int)),
        decreases n - i,
    {
        let b = bytes[i];
        out.push(digits[(b / 16) as usize]);
        out.push(digits[(b % 16) as usize]);
        assert(bytes@.take(i + 1).drop_last() =~= bytes@.take(i as int));
        i += 1;
    }
    if bytes.len() > HEX_PREVIEW_LIMIT {
        out.push('.');
        out.push('.');
        out.push('.');
    } else {
        assert(bytes@.take(n as int) =~= bytes@);
    }
    string_from_chars(out.as_slice())
}

/// The next thing to do while handing queued payloads to a user who just
/// connected.
#[derive(Debug)]
pub enum DeliveryStep {
    /// Hand this payload to the user's connection.
    Send(Vec<u8>),
    /// Remove the queued payload with this id: it was handed over.
    Delete(i64),
    /// Nothing more to do.
    Done,
}

/// Hands queued payloads over in queue order: each is sent, then deleted;
/// the first failure of either ends the delivery, so a payload that could
/// not be sent stays queued, and so does everything after it.
pub struct QueueDelivery {
    queued: Vec<QueuedMessage>,
    position: usize,
    sent_current: bool,
    stopped: bool,
}

impl QueueDelivery {
    /// The queued payloads as (id, payload) pairs.
    pub closed spec fn queue(&self) -> Seq<(i64, Seq<u8>)> {
        self.queued@.map_values(|q: QueuedMessage| (q.id, q.payload@))
    }

    /// How many payloads have been sent and deleted.
    pub closed spec fn delivered(&self) -> nat {
        self.position as nat
    }

    /// Whether the payload at `delivered()` has been sent but not yet deleted.
    pub closed spec fn awaiting_delete(&self) -> bool {
        self.sent_current
    }

    /// Whether a failure ended the delivery.
    pub closed spec fn stopped(&self) -> bool {
        self.stopped
    }

    /// Whether there is nothing left to do.
    pub open spec fn finished(&self) -> bool {
        self.stopped() || self.delivered() >= self.queue().len()
    }

    #[verifier::type_invariant]
    closed spec fn in_bounds(&self) -> bool {
        &&& self.position <= self.queued@.len()
        &&& self.sent_current ==> self.position < self.queued@.len()
    }

    /// Starts handing over `queued` (in the order given, which is queue order).
    pub fn new(queued: Vec<QueuedMessage>) -> (r: Self)
        ensures
            r.queue() == queued@.map_values(|q: QueuedMessage| (q.id, q.payload@)),
            r.delivered() == 0,
            !r.awaiting_delete(),
            !r.stopped(),
    {
        QueueDelivery { queued, position: 0, sent_current: false, stopped: false }
    }

    /// The next step: send the next payload, delete the one just sent, or
    /// nothing.
    pub fn next_step(&self) -> (r: DeliveryStep)
        ensures
            self.finished() ==> r is Done,
            !self.finished() && !self.awaiting_delete() ==> (r matches DeliveryStep::Send(p) && p@
                == self.queue()[self.delivered() as int].1),
            !self.finished() && self.awaiting_delete() ==> (r matches DeliveryStep::Delete(id) && id
                == self.queue()[self.delivered() as int].0),
    {
        proof {
            use_type_invariant(self);
        }
        if self.stopped || self.position >= self.queued.len() {
            return DeliveryStep::Done;
        }
        if self.sent_current {
            DeliveryStep::Delete(self.queued[self.position].id)
        } else {
            DeliveryStep::Send(self.queued[self.position].payload.clone())
        }
    }

    /// Records whether the step just taken succeeded. A failure ends the
    /// delivery; a successful send is followed by the delete of the same
    /// payload; a successful delete moves on to the next payload.
    pub fn record(&mut self, succeeded: bool)
        requires
            !old(self).finished(),
        ensures
            final(self).queue() == old(self).queue(),
            !succeeded ==> final(self).stopped() && final(self).delivered() == old(self).delivered(),
            succeeded && !old(self).awaiting_delete() ==> !final(self).stopped() && final(self).awaiting_delete()
                && final(self).delivered() == old(self).delivered(),
            succeeded && old(self).awaiting_delete() ==> !final(self).stopped() && !final(self).awaiting_delete()
                && final(self).delivered() == old(self).delivered() + 1,
    {
        proof {
            use_type_invariant(&*self);
        }
        if !succeeded {
            self.stopped = true;
        } else if !self.sent_current {
            self.sent_current = true;
        } else {
            let len = self.queued.len();
            assert(self.position < len);
            let next = self.position + 1;
            self.sent_current = false;
            self.position = next;
        }
    }
}

/// Where an encrypted payload that arrived on a user's connection goes.
#[derive(Clone, Copy, Debug, PartialEq, Eq, Structural)]
pub enum RouteDecision {
    /// The payload claims a sender other than the connection's user.
    ForgedSender,
    /// The recipient's name breaks the username rules.
    InvalidRecipient,
    /// The payload goes to the recipient (live, or through the queue).
    Forward,
}

/// The relay forwards only payloads whose claimed sender is the user of the
/// connection they arrived on, addressed to a valid username.
pub open spec fn route_of(connection_user: Seq<char>, from: Seq<char>, to: Seq<char>) -> RouteDecision {
    if from != connection_user {
        RouteDecision::ForgedSender
    } else if !valid_username(to) {
        RouteDecision::InvalidRecipient
    } else {
        RouteDecision::Forward
    }
}

/// Decides where a payload that arrived on `connection_user`'s connection
/// goes.
pub fn route_payload(connection_user: &str, routed: &RoutedEncryptedMessage) -> (r: RouteDecision)
    ensures
        r == route_of(connection_user@, routed@.from, routed@.to),
{
    let from = crate::text::chars_of(routed.from.as_str());
    let user = crate::text::chars_of(connection_user);
    if crate::text::compare_chars(&from, &user) != crate::text::TextOrder::Same {
        return RouteDecision::ForgedSender;
    }
    if !is_valid_username(routed.to.as_str()) {
        return RouteDecision::InvalidRecipient;
    }
    RouteDecision::Forward
}

/// Where a payload that routing forwards ends up.
#[derive(Clone, Copy, Debug, PartialEq, Eq, Structural)]
pub enum Delivery {
    /// Handed to the recipient's live connection.
    Relayed,
    /// Kept in the queue until the recipient connects.
    Queued,
}

/// A forwarded payload is relayed when the recipient is connected and its
/// connection took the payload, and queued otherwise. `live_send` is `None`
/// when the recipient is not connected, else whether the hand-over worked.
pub open spec fn delivery_of(live_send: Option<bool>) -> Delivery {
    if live_send == Some(true) {
        Delivery::Relayed
    } else {
        Delivery::Queued
    }
}

/// Decides where a forwarded payload ends up, given the outcome of the
/// live hand-over (`None` when the recipient is not connected).
pub fn delivery_after(live_send: Option<bool>) -> (r: Delivery)
    ensures
        r == delivery_of(live_send),
{
    match live_send {
        Some(true) => Delivery::Relayed,
        _ => Delivery::Queued,
    }
}

/// Names that occur at most once.
pub open spec fn distinct_names<T>(entries: Seq<(Seq<char>, u64, T)>) -> bool {
    forall|i: int, j: int|
        0 <= i < entries.len() && 0 <= j < entries.len() && i != j ==> #[trigger] entries[i].0
            != #[trigger] entries[j].0
}

/// An index at which `k` is registered, when there is one.
pub open spec fn registered_index<T>(entries: Seq<(Seq<char>, u64, T)>, k: Seq<char>) -> int {
    choose|i: int| 0 <= i < entries.len() && #[trigger] entries[i].0 == k
}

/// The map from user to (connection id, sender) that a list with distinct
/// names stands for.
pub open spec fn entries_map<T>(entries: Seq<(Seq<char>, u64, T)>) -> Map<Seq<char>, (u64, T)> {
    Map::new(
        |k: Seq<char>| exists|i: int| 0 <= i < entries.len() && #[trigger] entries[i].0 == k,
        |k: Seq<char>| {
            let i = registered_index(entries, k);
            (entries[i].1, entries[i].2)
        },
    )
}

/// The registry after the connection `connection_id` of `user` closed: the
/// user's entry goes only if it is still that connection.
pub open spec fn after_disconnect<T>(m: Map<Seq<char>, (u64, T)>, user: Seq<char>, connection_id: u64) -> Map<Seq<char>, (u64, T)> {
    if m.contains_key(user) && m[user].0 == connection_id {
        m.remove(user)
    } else {
        m
    }
}

/// When a user reconnects, the close of the older connection leaves the
/// newer one registered; the close of the newest one unregisters the user.
pub proof fn lemma_reconnect_survives_stale_close<T>(
    m: Map<Seq<char>, (u64, T)>,
    user: Seq<char>,
    new_id: u64,
    sender: T,
    old_id: u64,
)
    ensures
        old_id != new_id ==> after_disconnect(m.insert(user, (new_id, sender)), user, old_id) == m.insert(
            user,
            (new_id, sender),
        ),
        after_disconnect(m.insert(user, (new_id, sender)), user, new_id) == m.remove(user),
{
    assert(m.insert(user, (new_id, sender)).remove(user) =~= m.remove(user));
}

proof fn lemma_entry_at<T>(entries: Seq<(Seq<char>, u64, T)>, i: int)
    requires
        distinct_names(entries),
        0 <= i < entries.len(),
    ensures
        entries_map(entries).dom().contains(entries[i].0),
        entries_map(entries)[entries[i].0] == (entries[i].1, entries[i].2),
{
    let k = entries[i].0;
    assert(entries[i].0 == k);
    let j = registered_index(entries, k);
    assert(0 <= j < entries.len() && entries[j].0 == k);
    assert(j == i);
}

/// The users connected to the relay right now, each with the id of the
/// connection that reaches them and what sends to it.
pub struct ClientRegistry<T> {
    clients: Vec<(String, u64, T)>,
}

impl<T> ClientRegistry<T> {
    closed spec fn entries(&self) -> Seq<(Seq<char>, u64, T)> {
        self.clients@.map_values(|c: (String, u64, T)| (c.0@, c.1, c.2))
    }

    #[verifier::type_invariant]
    closed spec fn names_distinct(&self) -> bool {
        distinct_names(self.entries())
    }

    /// The registry with nobody connected.
    pub fn new() -> (r: Self)
        ensures
            r@ == Map::<Seq<char>, (u64, T)>::empty(),
    {
        let r = ClientRegistry { clients: Vec::new() };
        assert(r@ =~= Map::<Seq<char>, (u64, T)>::empty());
        r
    }

    fn find(&self, username: &str) -> (r: Option<usize>)
        ensures
            match r {
                Some(i) => i < self.entries().len() && self.entries()[i as int].0 == username@,
                None => forall|j: int| 0 <= j < self.entries().len() ==> #[trigger] self.entries()[j].0 != username@,
            },
    {
        let wanted = crate::text::chars_of(username);
        let mut i: usize = 0;
        while i < self.clients.len()
            invariant
                i <= self.clients@.len(),
                wanted@ == username@,
                forall|j: int| 0 <= j < i ==> #[trigger] self.entries()[j].0 != username@,
            decreases self.clients@.len() - i,
        {
            let name = crate::text::chars_of(self.clients[i].0.as_str());
            if crate::text::compare_chars(&name, &wanted) == crate::text::TextOrder::Same {
                return Some(i);
            }
            i += 1;
        }
        None
    }

    /// The connection id and sender of `username`, if connected.
    pub fn connection(&self, username: &str) -> (r: Option<(u64, &T)>)
        ensures
            match r {
                Some((id, sender)) => self@.contains_key(username@) && self@[username@] == (id, *sender),
                None => !self@.contains_key(username@),
            },
    {
        proof {
            use_type_invariant(self);
        }
        match self.find(username) {
            Some(i) => {
                proof {
                    lemma_entry_at(self.entries(), i as int);
                }
                Some((self.clients[i].1, &self.clients[i].2))
            },
            None => None,
        }
    }

    /// Registers the new connection `connection_id` of `username`, in place of
    /// any older one.
    pub fn connect(&mut self, username: String, connection_id: u64, sender: T)
        ensures
            final(self)@ == old(self)@.insert(username@, (connection_id, sender)),
    {
        proof {
            use_type_invariant(&*self);
        }
        let ghost old_entries = self.entries();
        let found = self.find(username.as_str());
        let ghost k = username@;
        let mut clients: Vec<(String, u64, T)> = Vec::new();
        std::mem::swap(&mut clients, &mut self.clients);
        assert(clients@.map_values(|c: (String, u64, T)| (c.0@, c.1, c.2)) == old_entries);
        let ghost new_entries: Seq<(Seq<char>, u64, T)>;
        match found {
            Some(i) => {
                clients.set(i, (username, connection_id, sender));
                proof {
                    new_entries = old_entries.update(i as int, (k, connection_id, sender));
                }
            },
            None => {
                clients.push((username, connection_id, sender));
                proof {
                    new_entries = old_entries.push((k, connection_id, sender));
                }
            },
        }
        assert(clients@.map_values(|c: (String, u64, T)| (c.0@, c.1, c.2)) =~= new_entries);
        assert(distinct_names(new_entries));
        let ghost m = entries_map(new_entries);
        let ghost t = entries_map(old_entries).insert(k, (connection_id, sender));
        assert forall|q: Seq<char>| #[trigger] m.dom().contains(q) <==> t.dom().contains(q) by {
            if m.dom().contains(q) {
                let j = choose|j: int| 0 <= j < new_entries.len() && #[trigger] new_entries[j].0 == q;
                if q != k {
                    assert(old_entries[j].0 == q);
                }
            }
            if t.dom().contains(q) {
                if q == k {
                    match found {
                        Some(i) => assert(new_entries[i as int].0 == q),
                        None => assert(new_entries[old_entries.len() as int].0 == q),
                    }
                } else {
                    let j = choose|j: int| 0 <= j < old_entries.len() && #[trigger] old_entries[j].0 == q;
                    assert(new_entries[j].0 == q);
                }
            }
        }
        assert forall|q: Seq<char>| #[trigger] m.dom().contains(q) implies m[q] == t[q] by {
            let j = choose|j: int| 0 <= j < new_entries.len() && #[trigger] new_entries[j].0 == q;
            lemma_entry_at(new_entries, j);
            if q != k {
                lemma_entry_at(old_entries, j);
            }
        }
        assert(m =~= t);
        self.clients = clients;
    }

    /// Unregisters `username` when its registered connection is
    /// `connection_id`; a newer connection of the same user stays.
    pub fn disconnect(&mut self, username: &str, connection_id: u64)
        ensures
            final(self)@ == after_disconnect(old(self)@, username@, connection_id),
    {
        proof {
            use_type_invariant(&*self);
        }
        let ghost old_entries = self.entries();
        match self.find(username) {
            None => {
                return;
            },
            Some(i) => {
                proof {
                    lemma_entry_at(old_entries, i as int);
                }
                if self.clients[i].1 != connection_id {
                    return;
                }
                let ghost k = username@;
                let mut clients: Vec<(String, u64, T)> = Vec::new();
                std::mem::swap(&mut clients, &mut self.clients);
                assert(clients@.map_values(|c: (String, u64, T)| (c.0@, c.1, c.2)) == old_entries);
                let _ = clients.remove(i);
                let ghost new_entries = old_entries.remove(i as int);
                assert(clients@.map_values(|c: (String, u64, T)| (c.0@, c.1, c.2)) =~= new_entries);
                assert(distinct_names(new_entries));
                let ghost m = entries_map(new_entries);
                let ghost t = entries_map(old_entries).remove(k);
                assert forall|q: Seq<char>| #[trigger] m.dom().contains(q) <==> t.dom().contains(q) by {
                    if m.dom().contains(q) {
                        let j = choose|j: int| 0 <= j < new_entries.len() && #[trigger] new_entries[j].0 == q;
                        if j < i {
                            assert(old_entries[j].0 == q);
                        } else {
                            assert(old_entries[j + 1].0 == q);
                        }
                    }
                    if t.dom().contains(q) {
                        let j = choose|j: int| 0 <= j < old_entries.len() && #[trigger] old_entries[j].0 == q;
                        if j < i {
                            assert(new_entries[j].0 == q);
                        } else {
                            assert(new_entries[j - 1].0 == q);
                        }
                    }
                }
                assert forall|q: Seq<char>| #[trigger] m.dom().contains(q) implies m[q] == t[q] by {
                    let j = choose|j: int| 0 <= j < new_entries.len() && #[trigger] new_entries[j].0 == q;
                    lemma_entry_at(new_entries, j);
                    if j < i {
                        lemma_entry_at(old_entries, j);
                    } else {
                        lemma_entry_at(old_entries, j + 1);
                    }
                }
                assert(m =~= t);
                self.clients = clients;
            },
        }
    }
}

impl<T> View for ClientRegistry<T> {
    type V = Map<Seq<char>, (u64, T)>;

    closed spec fn view(&self) -> Map<Seq<char>, (u64, T)> {
        entries_map(self.entries())
    }
}

} // verus!
