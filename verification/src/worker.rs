//! What a worker keeps and decides: its buddy list, the buddies it was asked
//! to add and has not confirmed yet, and what it does with each packet that
//! the chat server sends it.

use vstd::prelude::*;

use dashmap::{DashMap, DashSet};

use crate::text::{debug_quote, debug_quoted, decimal, render_u64, str_eq};

verus! {

#[verifier::external_type_specification]
#[verifier::external_body]
#[verifier::reject_recursive_types(K)]
#[verifier::reject_recursive_types(V)]
#[verifier::reject_recursive_types(S)]
pub struct ExDashMap<K, V, S>(dashmap::DashMap<K, V, S>);

#[verifier::external_type_specification]
#[verifier::external_body]
#[verifier::reject_recursive_types(K)]
#[verifier::reject_recursive_types(S)]
pub struct ExDashSet<K, S>(dashmap::DashSet<K, S>);

/// The character ids that a `DashSet` holds.
pub uninterp spec fn dash_set_contents(set: DashSet<u32>) -> Set<u32>;

/// The entries that a `DashMap` holds.
pub uninterp spec fn dash_map_contents(map: DashMap<u32, u64>) -> Map<u32, u64>;

/// `DashSet::new`: an empty set.
#[verifier::external_body]
fn dash_set_new() -> (set: DashSet<u32>)
    ensures
        dash_set_contents(set) == Set::<u32>::empty(),
{
    DashSet::new()
}

/// `DashSet::insert`: the key is in the set afterwards, nothing else changes;
/// the result says whether it was absent.
#[verifier::external_body]
fn dash_set_insert(set: &mut DashSet<u32>, key: u32) -> (added: bool)
    ensures
        dash_set_contents(*final(set)) == dash_set_contents(*old(set)).insert(key),
        added == !dash_set_contents(*old(set)).contains(key),
{
    set.insert(key)
}

/// `DashSet::remove`: the key is not in the set afterwards, nothing else
/// changes; the result holds the key where it was present.
#[verifier::external_body]
fn dash_set_remove(set: &mut DashSet<u32>, key: u32) -> (removed: Option<u32>)
    ensures
        dash_set_contents(*final(set)) == dash_set_contents(*old(set)).remove(key),
        removed == (if dash_set_contents(*old(set)).contains(key) {
            Some(key)
        } else {
            None
        }),
{
    set.remove(&key)
}

/// `DashSet::contains`.
#[verifier::external_body]
fn dash_set_contains(set: &DashSet<u32>, key: u32) -> (found: bool)
    ensures
        found == dash_set_contents(*set).contains(key),
{
    set.contains(&key)
}

/// `DashSet::len`: the number of keys in the set.
#[verifier::external_body]
fn dash_set_len(set: &DashSet<u32>) -> (len: usize)
    ensures
        len == dash_set_contents(*set).len(),
{
    set.len()
}

/// `DashMap::new`: an empty map.
#[verifier::external_body]
fn dash_map_new() -> (created: DashMap<u32, u64>)
    ensures
        dash_map_contents(created).dom() == Set::<u32>::empty(),
{
    DashMap::new()
}

/// `DashMap::insert`: the key maps to the value afterwards, nothing else
/// changes; the result is the value it replaced.
#[verifier::external_body]
fn dash_map_insert(map: &mut DashMap<u32, u64>, key: u32, value: u64) -> (replaced: Option<u64>)
    ensures
        dash_map_contents(*final(map)) == dash_map_contents(*old(map)).insert(key, value),
        replaced == (if dash_map_contents(*old(map)).contains_key(key) {
            Some(dash_map_contents(*old(map))[key])
        } else {
            None
        }),
{
    map.insert(key, value)
}

/// `DashMap::remove`: the key has no entry afterwards, nothing else changes;
/// the result is the entry it had.
#[verifier::external_body]
fn dash_map_remove(map: &mut DashMap<u32, u64>, key: u32) -> (removed: Option<(u32, u64)>)
    ensures
        dash_map_contents(*final(map)) == dash_map_contents(*old(map)).remove(key),
        removed == (if dash_map_contents(*old(map)).contains_key(key) {
            Some((key, dash_map_contents(*old(map))[key]))
        } else {
            None
        }),
{
    map.remove(&key)
}

/// `DashMap::len`: the number of entries.
#[verifier::external_body]
fn dash_map_len(map: &DashMap<u32, u64>) -> (len: usize)
    ensures
        len == dash_map_contents(*map).len(),
{
    map.len()
}

/// `DashMap::retain` with `pending_is_kept` as the predicate: the entries for
/// which it holds stay, the others go.
#[verifier::external_body]
fn dash_map_retain_pending(map: &mut DashMap<u32, u64>, now: u64)
    ensures
        dash_map_contents(*final(map)) == dash_map_contents(*old(map)).restrict(
            dash_map_contents(*old(map)).dom().filter(
                |k: u32| spec_pending_is_kept(dash_map_contents(*old(map))[k], now),
            ),
        ),
{
    map.retain(|_, added_at| pending_is_kept(*added_at, now))
}

/// How often unconfirmed buddy additions are swept, in nanoseconds.
pub open spec fn sweep_interval() -> int {
    10_000_000_000
}

/// A sweep at `now` keeps the entries that are older than the sweep
/// interval (times in nanoseconds since the proxy started).
pub open spec fn spec_pending_is_kept(added_at: u64, now: u64) -> bool {
    added_at + sweep_interval() < now
}

pub fn pending_is_kept(added_at: u64, now: u64) -> (kept: bool)
    ensures
        kept == spec_pending_is_kept(added_at, now),
{
    added_at < now && now - added_at > 10_000_000_000u64
}

/// A sweep drops the requests made within the last ten seconds and keeps
/// the older ones: a request is kept exactly when more than ten seconds
/// (in nanoseconds) passed since it was made, and once kept it stays kept
/// at every later sweep.
pub proof fn law_sweep_keeps_older_requests(added_at: u64, now: u64, later: u64)
    ensures
        spec_pending_is_kept(added_at, now) <==> now > added_at && now - added_at
            > 10_000_000_000,
        spec_pending_is_kept(added_at, now) && later >= now ==> spec_pending_is_kept(
            added_at,
            later,
        ),
        now <= added_at ==> !spec_pending_is_kept(added_at, now),
{
}

/// The buddy list of one connection, and the buddies that it was asked to
/// add and that the server has not confirmed, with the time of the request.
pub struct BuddyBook {
    buddies: DashSet<u32>,
    pending: DashMap<u32, u64>,
}

impl BuddyBook {
    pub closed spec fn buddy_ids(&self) -> Set<u32> {
        dash_set_contents(self.buddies)
    }

    pub closed spec fn pending_since(&self) -> Map<u32, u64> {
        dash_map_contents(self.pending)
    }

    pub open spec fn wf(&self) -> bool {
        &&& self.buddy_ids().finite()
        &&& self.pending_since().dom().finite()
    }

    /// What the worker reports as its number of buddies: the confirmed ones
    /// and the ones still waiting for confirmation.
    pub open spec fn spec_total(&self) -> nat {
        self.buddy_ids().len() + self.pending_since().len()
    }

    pub fn new() -> (book: BuddyBook)
        ensures
            book.wf(),
            book.buddy_ids() == Set::<u32>::empty(),
            book.pending_since().dom() == Set::<u32>::empty(),
    {
        BuddyBook { buddies: dash_set_new(), pending: dash_map_new() }
    }

    pub fn buddy_count(&self) -> (n: usize)
        ensures
            n == self.buddy_ids().len(),
    {
        dash_set_len(&self.buddies)
    }

    pub fn pending_count(&self) -> (n: usize)
        ensures
            n == self.pending_since().len(),
    {
        dash_map_len(&self.pending)
    }

    /// The number of buddies the worker counts as its own.
    pub fn total_buddies(&self) -> (n: usize)
        requires
            self.spec_total() <= usize::MAX,
        ensures
            n == self.spec_total(),
    {
        dash_set_len(&self.buddies) + dash_map_len(&self.pending)
    }

    pub fn has_buddy(&self, id: u32) -> (found: bool)
        ensures
            found == self.buddy_ids().contains(id),
    {
        dash_set_contains(&self.buddies, id)
    }

    /// A request to add `id` was sent at `now`.
    pub fn buddy_add_sent(&mut self, id: u32, now: u64)
        requires
            old(self).wf(),
        ensures
            final(self).wf(),
            final(self).buddy_ids() == old(self).buddy_ids(),
            final(self).pending_since() == old(self).pending_since().insert(id, now),
    {
        dash_map_insert(&mut self.pending, id, now);
    }

    /// The server reports `id` on the buddy list.
    pub fn buddy_confirmed(&mut self, id: u32)
        requires
            old(self).wf(),
        ensures
            final(self).wf(),
            final(self).buddy_ids() == old(self).buddy_ids().insert(id),
            final(self).pending_since() == old(self).pending_since().remove(id),
    {
        dash_map_remove(&mut self.pending, id);
        dash_set_insert(&mut self.buddies, id);
    }

    /// The server reports `id` removed from the buddy list.
    pub fn buddy_removed(&mut self, id: u32)
        requires
            old(self).wf(),
        ensures
            final(self).wf(),
            final(self).buddy_ids() == old(self).buddy_ids().remove(id),
            final(self).pending_since() == old(self).pending_since(),
    {
        dash_set_remove(&mut self.buddies, id);
    }

    /// Drops the additions that were requested within the last sweep
    /// interval before `now`, and keeps the older ones.
    pub fn sweep_pending(&mut self, now: u64)
        requires
            old(self).wf(),
        ensures
            final(self).wf(),
            final(self).buddy_ids() == old(self).buddy_ids(),
            final(self).pending_since() == old(self).pending_since().restrict(
                old(self).pending_since().dom().filter(
                    |k: u32| spec_pending_is_kept(old(self).pending_since()[k], now),
                ),
            ),
    {
        let ghost before = self.pending_since();
        dash_map_retain_pending(&mut self.pending, now);
        proof {
            let kept = before.dom().filter(
                |k: u32| spec_pending_is_kept(before[k], now),
            );
            vstd::set_lib::lemma_len_subset(kept, before.dom());
            assert(self.pending_since().dom() =~= kept);
        }
    }
}

/// A confirmation moves a requested buddy from the pending requests onto the
/// list: the number of buddies the worker reports stays the same, and the
/// buddy is on the list.
pub proof fn law_confirmation_keeps_count(book: BuddyBook, confirmed: BuddyBook, id: u32)
    requires
        book.wf(),
        book.pending_since().contains_key(id),
        !book.buddy_ids().contains(id),
        confirmed.buddy_ids() == book.buddy_ids().insert(id),
        confirmed.pending_since() == book.pending_since().remove(id),
    ensures
        confirmed.spec_total() == book.spec_total(),
        confirmed.buddy_ids().contains(id),
{
    assert(book.pending_since().remove(id).dom() =~= book.pending_since().dom().remove(id));
}

/// A request for a buddy that the worker neither has nor is waiting for
/// counts at once: the number of buddies it reports grows by one.
pub proof fn law_request_counts_at_once(book: BuddyBook, requested: BuddyBook, id: u32, now: u64)
    requires
        book.wf(),
        !book.pending_since().contains_key(id),
        requested.buddy_ids() == book.buddy_ids(),
        requested.pending_since() == book.pending_since().insert(id, now),
    ensures
        requested.spec_total() == book.spec_total() + 1,
{
    assert(book.pending_since().insert(id, now).dom() =~= book.pending_since().dom().insert(id));
}

/// A character on an account, as the server lists it.
pub struct CharacterEntry {
    pub id: u32,
    pub name: String,
}

/// What the server sends a worker, as far as the worker looks into it.
pub enum WorkerEvent {
    LoginOk,
    LoginError,
    ClientName,
    MsgSystem,
    LoginSeed,
    LoginCharlist { characters: Vec<CharacterEntry> },
    BuddyStatus { character_id: u32 },
    BuddyRemove { character_id: u32 },
    MsgPrivate,
    Ping { client: String },
    Other,
}

/// What a worker does with a packet from the server.
#[derive(Debug, Clone, Copy, PartialEq, Eq, Structural)]
pub enum WorkerAction {
    /// Pass the packet on to the bot unchanged.
    Forward,
    /// Pass the packet on to the bot with the worker's identifier as its tag.
    ForwardTagged,
    /// Log in with the account's username and password and the seed.
    LogIn,
    /// Log in as the character with this id.
    SelectCharacter(u32),
    /// The account has no character of the configured name: stop.
    CharacterMissing,
    /// The login failed: stop.
    Stop,
    /// Drop the packet.
    Ignore,
}

/// The id of the first character of that name, if any.
pub open spec fn spec_find_character(characters: Seq<CharacterEntry>, name: Seq<char>) -> Option<
    u32,
>
    decreases characters.len(),
{
    if characters.len() == 0 {
        None
    } else if characters[0].name@ == name {
        Some(characters[0].id)
    } else {
        spec_find_character(characters.drop_first(), name)
    }
}

pub fn find_character(characters: &Vec<CharacterEntry>, name: &str) -> (id: Option<u32>)
    ensures
        id == spec_find_character(characters@, name@),
{
    let mut i: usize = 0;
    assert(characters@.skip(0) =~= characters@);
    while i < characters.len()
        invariant
            i <= characters.len(),
            spec_find_character(characters@, name@) == spec_find_character(
                characters@.skip(i as int),
                name@,
            ),
        decreases characters.len() - i,
    {
        let ghost rest = characters@.skip(i as int);
        assert(rest[0] == characters@[i as int]);
        assert(rest.drop_first() =~= characters@.skip(i + 1));
        if str_eq(characters[i].name.as_str(), name) {
            return Some(characters[i].id);
        }
        i = i + 1;
    }
    None
}

/// The action for an event, and how the buddy book changes with it:
/// confirmations and removals update the list, everything else leaves it.
pub open spec fn spec_worker_action(
    event: WorkerEvent,
    relay_worker_tells: bool,
    character: Seq<char>,
) -> WorkerAction {
    match event {
        WorkerEvent::LoginOk => WorkerAction::Forward,
        WorkerEvent::LoginError => WorkerAction::Stop,
        WorkerEvent::ClientName => WorkerAction::Forward,
        WorkerEvent::MsgSystem => WorkerAction::Forward,
        WorkerEvent::LoginSeed => WorkerAction::LogIn,
        WorkerEvent::LoginCharlist { characters } => match spec_find_character(
            characters@,
            character,
        ) {
            Some(id) => WorkerAction::SelectCharacter(id),
            None => WorkerAction::CharacterMissing,
        },
        WorkerEvent::BuddyStatus { .. } => WorkerAction::ForwardTagged,
        WorkerEvent::BuddyRemove { .. } => WorkerAction::Forward,
        WorkerEvent::MsgPrivate => if relay_worker_tells {
            WorkerAction::ForwardTagged
        } else {
            WorkerAction::Ignore
        },
        WorkerEvent::Ping { client } => if client@ != "nadylib"@ {
            WorkerAction::Forward
        } else {
            WorkerAction::Ignore
        },
        WorkerEvent::Other => WorkerAction::Ignore,
    }
}

/// What a worker does with each kind of packet from the server. Login
/// results, client names and system messages are passed on unchanged, and so
/// are buddy removals; buddy statuses are passed on with the worker's tag;
/// private messages are passed on with the tag exactly when worker tells are
/// relayed; pings are passed on unless they come from the library's own
/// keepalive; a login seed starts the login; a login error stops the
/// worker; the character list selects the configured character, or stops
/// the worker where the account has none of that name.
pub proof fn law_worker_packet_actions(
    relay_worker_tells: bool,
    character: Seq<char>,
    characters: Vec<CharacterEntry>,
    id: u32,
    client: String,
)
    ensures
        spec_worker_action(WorkerEvent::LoginOk, relay_worker_tells, character)
            == WorkerAction::Forward,
        spec_worker_action(WorkerEvent::ClientName, relay_worker_tells, character)
            == WorkerAction::Forward,
        spec_worker_action(WorkerEvent::MsgSystem, relay_worker_tells, character)
            == WorkerAction::Forward,
        spec_worker_action(WorkerEvent::LoginError, relay_worker_tells, character)
            == WorkerAction::Stop,
        spec_worker_action(WorkerEvent::LoginSeed, relay_worker_tells, character)
            == WorkerAction::LogIn,
        spec_worker_action(WorkerEvent::BuddyStatus { character_id: id }, relay_worker_tells, character)
            == WorkerAction::ForwardTagged,
        spec_worker_action(WorkerEvent::BuddyRemove { character_id: id }, relay_worker_tells, character)
            == WorkerAction::Forward,
        spec_worker_action(WorkerEvent::MsgPrivate, true, character) == WorkerAction::ForwardTagged,
        spec_worker_action(WorkerEvent::MsgPrivate, false, character) == WorkerAction::Ignore,
        spec_worker_action(WorkerEvent::Other, relay_worker_tells, character) == WorkerAction::Ignore,
        client@ == "nadylib"@ ==> spec_worker_action(
            WorkerEvent::Ping { client },
            relay_worker_tells,
            character,
        ) == WorkerAction::Ignore,
        client@ != "nadylib"@ ==> spec_worker_action(
            WorkerEvent::Ping { client },
            relay_worker_tells,
            character,
        ) == WorkerAction::Forward,
        (exists|i: int|
            0 <= i < characters@.len() && #[trigger] characters@[i].name@ == character)
            <==> spec_worker_action(
            WorkerEvent::LoginCharlist { characters },
            relay_worker_tells,
            character,
        ) is SelectCharacter,
        spec_worker_action(WorkerEvent::LoginCharlist { characters }, relay_worker_tells, character)
            matches WorkerAction::SelectCharacter(selected) ==> exists|i: int|
            0 <= i < characters@.len() && #[trigger] characters@[i].name@ == character
                && characters@[i].id == selected && forall|j: int|
                0 <= j < i ==> #[trigger] characters@[j].name@ != character,
{
    law_find_character(characters@, character);
}

/// The character selected from a list is the first of the configured name,
/// and there is one exactly when some character has that name.
pub proof fn law_find_character(characters: Seq<CharacterEntry>, name: Seq<char>)
    ensures
        (exists|i: int| 0 <= i < characters.len() && #[trigger] characters[i].name@ == name)
            <==> spec_find_character(characters, name) is Some,
        spec_find_character(characters, name) matches Some(selected) ==> exists|i: int|
            0 <= i < characters.len() && #[trigger] characters[i].name@ == name
                && characters[i].id == selected && forall|j: int|
                0 <= j < i ==> #[trigger] characters[j].name@ != name,
    decreases characters.len(),
{
    if characters.len() > 0 {
        let rest = characters.drop_first();
        law_find_character(rest, name);
        if characters[0].name@ == name {
            assert(characters[0].name@ == name);
        } else {
            assert forall|i: int| 0 <= i < rest.len() implies rest[i] == characters[i + 1] by {}
            if exists|i: int| 0 <= i < characters.len() && #[trigger] characters[i].name@ == name {
                let i = choose|i: int| 0 <= i < characters.len() && #[trigger] characters[i].name@
                    == name;
                assert(rest[i - 1].name@ == name);
            }
            if let Some(selected) = spec_find_character(characters, name) {
                let i = choose|i: int|
                    0 <= i < rest.len() && #[trigger] rest[i].name@ == name && rest[i].id
                        == selected && forall|j: int|
                        0 <= j < i ==> #[trigger] rest[j].name@ != name;
                assert(characters[i + 1].name@ == name);
                assert forall|j: int| 0 <= j < i + 1 implies #[trigger] characters[j].name@
                    != name by {
                    if j > 0 {
                        assert(characters[j] == rest[j - 1]);
                    }
                }
            }
        }
    }
}

/// How the buddy book of a connection changes with a packet from the server.
pub open spec fn book_after(book: BuddyBook, final_book: BuddyBook, event: WorkerEvent) -> bool {
    match event {
        WorkerEvent::BuddyStatus { character_id } => {
            &&& final_book.buddy_ids() == book.buddy_ids().insert(character_id)
            &&& final_book.pending_since() == book.pending_since().remove(character_id)
        },
        WorkerEvent::BuddyRemove { character_id } => {
            &&& final_book.buddy_ids() == book.buddy_ids().remove(character_id)
            &&& final_book.pending_since() == book.pending_since()
        },
        _ => {
            &&& final_book.buddy_ids() == book.buddy_ids()
            &&& final_book.pending_since() == book.pending_since()
        },
    }
}

/// What a packet does to the buddy book: a buddy status puts the buddy on
/// the list and ends the wait for it; a removal takes the buddy off the
/// list; any other packet changes nothing. No other buddy is touched.
pub proof fn law_buddy_book_updates(book: BuddyBook, after: BuddyBook, event: WorkerEvent, other: u32)
    requires
        book_after(book, after, event),
    ensures
        event matches WorkerEvent::BuddyStatus { character_id } ==> {
            &&& after.buddy_ids().contains(character_id)
            &&& !after.pending_since().contains_key(character_id)
            &&& other != character_id ==> (after.buddy_ids().contains(other)
                == book.buddy_ids().contains(other) && after.pending_since().contains_key(other)
                == book.pending_since().contains_key(other))
        },
        event matches WorkerEvent::BuddyRemove { character_id } ==> {
            &&& !after.buddy_ids().contains(character_id)
            &&& after.pending_since() == book.pending_since()
            &&& other != character_id ==> after.buddy_ids().contains(other)
                == book.buddy_ids().contains(other)
        },
        !(event is BuddyStatus) && !(event is BuddyRemove) ==> after.buddy_ids()
            == book.buddy_ids() && after.pending_since() == book.pending_since(),
{
}

/// The tag a worker puts on what it passes on is a JSON object with its
/// number in decimal under `id` and its character's name, quoted, under
/// `name`.
pub proof fn law_worker_tag_layout(id: nat, character: Seq<char>)
    ensures
        identifier_text(id, character) == "{\"id\": "@ + decimal(id) + ", \"name\": "@
            + debug_quoted(character) + "}"@,
        identifier_text(id, character).len() > 0,
{
}

/// Handles a packet that the server sends to a worker account.
pub fn worker_packet(
    event: &WorkerEvent,
    relay_worker_tells: bool,
    character: &str,
    book: &mut BuddyBook,
) -> (action: WorkerAction)
    requires
        old(book).wf(),
    ensures
        final(book).wf(),
        action == spec_worker_action(*event, relay_worker_tells, character@),
        book_after(*old(book), *final(book), *event),
{
    match event {
        WorkerEvent::LoginOk => WorkerAction::Forward,
        WorkerEvent::LoginError => WorkerAction::Stop,
        WorkerEvent::ClientName => WorkerAction::Forward,
        WorkerEvent::MsgSystem => WorkerAction::Forward,
        WorkerEvent::LoginSeed => WorkerAction::LogIn,
        WorkerEvent::LoginCharlist { characters } => match find_character(characters, character) {
            Some(id) => WorkerAction::SelectCharacter(id),
            None => WorkerAction::CharacterMissing,
        },
        WorkerEvent::BuddyStatus { character_id } => {
            book.buddy_confirmed(*character_id);
            WorkerAction::ForwardTagged
        },
        WorkerEvent::BuddyRemove { character_id } => {
            book.buddy_removed(*character_id);
            WorkerAction::Forward
        },
        WorkerEvent::MsgPrivate => {
            if relay_worker_tells {
                WorkerAction::ForwardTagged
            } else {
                WorkerAction::Ignore
            }
        },
        WorkerEvent::Ping { client } => {
            if !str_eq(client.as_str(), "nadylib") {
                WorkerAction::Forward
            } else {
                WorkerAction::Ignore
            }
        },
        WorkerEvent::Other => WorkerAction::Ignore,
    }
}

/// Handles a packet that the server sends to the main connection; the result
/// says whether the bot has logged in. Every packet is passed on.
pub fn main_packet(event: &WorkerEvent, book: &mut BuddyBook) -> (logged_in: bool)
    requires
        old(book).wf(),
    ensures
        final(book).wf(),
        logged_in == (event is LoginOk),
        book_after(*old(book), *final(book), *event),
{
    match event {
        WorkerEvent::LoginOk => true,
        WorkerEvent::BuddyStatus { character_id } => {
            book.buddy_confirmed(*character_id);
            false
        },
        WorkerEvent::BuddyRemove { character_id } => {
            book.buddy_removed(*character_id);
            false
        },
        _ => false,
    }
}

/// The tag that a worker puts on what it passes on: its number and its
/// character's name.
pub open spec fn identifier_text(id: nat, character: Seq<char>) -> Seq<char> {
    "{\"id\": "@ + decimal(id) + ", \"name\": "@ + debug_quoted(character) + "}"@
}

pub fn worker_identifier(id: usize, character: &str) -> (tag: String)
    ensures
        tag@ == identifier_text(id as nat, character@),
{
    let mut tag = String::from_str("{\"id\": ");
    let number = render_u64(id as u64);
    tag.append(number.as_str());
    tag.append(", \"name\": ");
    let name = debug_quote(character);
    tag.append(name.as_str());
    tag.append("}");
    tag
}

} // verus!
