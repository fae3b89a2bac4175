//! Where the proxy sends what the connected bot sends it: tells, buddy
//! additions, client lookups and commands in `Ping` packets. Worker 0 is the
//! bot's own ("main") connection, workers 1 to `account_num` are the
//! configured accounts.

use vstd::prelude::*;

use crate::communication::{BuddyAddPayload, Command, CommandPayload, SendMessagePayload, SendMode};
use crate::config::{config_is_valid, Config};
use crate::text::str_eq;

verus! {

/// The routing state of one client connection.
pub struct Router {
    pub account_num: usize,
    pub spam_bot_support: bool,
    pub send_tells_over_main: bool,
    pub default_mode: SendMode,
    /// The first worker that round-robin tells use.
    pub start_at: usize,
    /// The worker that the last tell went to.
    pub current_buddy: usize,
    /// The worker that the next client lookup goes to.
    pub current_lookup: usize,
}

/// How a spread tell asks to be routed, once its tag has been read.
#[derive(Debug, Clone, Copy, PartialEq, Eq, Structural)]
pub struct TellRequest {
    pub mode: SendMode,
    pub msgid: Option<usize>,
    pub worker: Option<usize>,
}

/// What the proxy does with a `Ping` packet from the bot.
pub enum PingAction {
    /// Answer with the capabilities.
    ReplyCapabilities,
    /// Send a `Ping` with this body over this worker.
    SendToWorker { worker: usize, payload: String },
    /// Drop the packet.
    Ignore,
    /// Pass the packet on over the main connection.
    ForwardToMain,
}

impl Router {
    pub open spec fn wf(self) -> bool {
        &&& self.account_num < usize::MAX
        &&& (self.default_mode == SendMode::RoundRobin || self.default_mode == SendMode::ByCharId)
        &&& self.start_at == (if self.send_tells_over_main {
            0usize
        } else {
            1usize
        })
        &&& (self.spam_bot_support && !self.send_tells_over_main ==> self.account_num >= 1)
        &&& (self.spam_bot_support ==> self.current_buddy <= self.account_num)
        &&& self.current_lookup <= self.account_num
    }

    /// Whether a tell with this tag is spread over the workers, and how it
    /// asks to be. `payload` is what the tag reads as in the extensible
    /// JSON format, if it reads as one.
    pub open spec fn spec_tell_request(
        self,
        tag: Seq<char>,
        payload: Option<SendMessagePayload>,
    ) -> Option<TellRequest> {
        if self.spam_bot_support && tag != "\u{0}"@ {
            match payload {
                Some(p) => Some(
                    TellRequest {
                        mode: if p.mode != SendMode::Default {
                            p.mode
                        } else {
                            self.default_mode
                        },
                        msgid: p.msgid,
                        worker: p.worker,
                    },
                ),
                None => if tag != "spam"@ {
                    Some(TellRequest { mode: SendMode::ByWorker, msgid: None, worker: Some(0) })
                } else {
                    Some(TellRequest { mode: self.default_mode, msgid: None, worker: None })
                },
            }
        } else {
            None
        }
    }

    /// The worker that a key (a character or message id) is bound to.
    pub open spec fn keyed_worker(self, key: nat) -> nat {
        if self.send_tells_over_main {
            key % (self.account_num as nat + 1)
        } else {
            key % (self.account_num as nat) + 1
        }
    }

    /// The worker that a tell goes to; for a spread tell also the new
    /// `current_buddy`.
    pub open spec fn spec_tell_target(
        self,
        request: Option<TellRequest>,
        charid: usize,
    ) -> nat {
        match request {
            None => 0,
            Some(r) => if r.mode == SendMode::ByCharId || (r.mode == SendMode::ByMsgId
                && self.default_mode == SendMode::ByCharId) {
                self.keyed_worker(charid as nat)
            } else if r.mode == SendMode::ByMsgId && r.msgid is Some {
                self.keyed_worker(r.msgid->0 as nat)
            } else if r.mode == SendMode::ByWorker && r.worker is Some {
                if self.send_tells_over_main {
                    r.worker->0 as nat % (self.account_num as nat + 1)
                } else {
                    ((r.worker->0 - 1) as nat) % (self.account_num as nat) + 1
                }
            } else if r.mode == SendMode::RoundRobin {
                round_robin_next(
                    self.current_buddy as nat,
                    self.start_at as nat,
                    self.account_num as nat,
                )
            } else {
                self.current_buddy as nat
            },
        }
    }

    /// A tell asks for worker 0 by worker number while worker numbers start
    /// at 1 (tells are not sent over the main connection).
    pub open spec fn asks_for_main_by_worker(self, request: Option<TellRequest>) -> bool {
        &&& !self.send_tells_over_main
        &&& request matches Some(r)
        &&& r.mode == SendMode::ByWorker
        &&& r.worker == Some(0usize)
    }

    /// The routing state for a new client connection.
    pub fn new(config: &Config) -> (r: Router)
        requires
            config_is_valid(*config),
            config.accounts@.len() < usize::MAX,
        ensures
            r.wf(),
            r.account_num == config.accounts@.len(),
            r.spam_bot_support == config.spam_bot_support,
            r.send_tells_over_main == config.send_tells_over_main,
            r.default_mode == config.default_mode,
            r.current_buddy == r.start_at,
            r.current_lookup == 0,
    {
        let start_at: usize = if config.send_tells_over_main {
            0
        } else {
            1
        };
        Router {
            account_num: config.accounts.len(),
            spam_bot_support: config.spam_bot_support,
            send_tells_over_main: config.send_tells_over_main,
            default_mode: config.default_mode,
            start_at,
            current_buddy: start_at,
            current_lookup: 0,
        }
    }

    /// Reads the tag of a tell: `None` where the tell goes over the main
    /// connection as it is.
    pub fn tell_request(&self, tag: &str, payload: Option<SendMessagePayload>) -> (request: Option<
        TellRequest,
    >)
        ensures
            request == self.spec_tell_request(tag@, payload),
    {
        if self.spam_bot_support && !str_eq(tag, "\u{0}") {
            match payload {
                Some(p) => {
                    let mode = if p.mode != SendMode::Default {
                        p.mode
                    } else {
                        self.default_mode
                    };
                    Some(TellRequest { mode, msgid: p.msgid, worker: p.worker })
                },
                None => {
                    if !str_eq(tag, "spam") {
                        Some(TellRequest { mode: SendMode::ByWorker, msgid: None, worker: Some(0) })
                    } else {
                        Some(TellRequest { mode: self.default_mode, msgid: None, worker: None })
                    }
                },
            }
        } else {
            None
        }
    }

    fn keyed(&self, key: usize) -> (w: usize)
        requires
            self.wf(),
            !self.send_tells_over_main ==> self.account_num >= 1,
        ensures
            w == self.keyed_worker(key as nat),
            w <= self.account_num,
            !self.send_tells_over_main ==> w >= 1,
    {
        if self.send_tells_over_main {
            key % (self.account_num + 1)
        } else {
            key % self.account_num + 1
        }
    }

    /// Picks the worker for a tell and remembers it as `current_buddy`.
    pub fn route_tell(&mut self, request: Option<TellRequest>, charid: usize) -> (worker: usize)
        requires
            old(self).wf(),
            request is Some ==> old(self).spam_bot_support,
            request matches Some(r) ==> r.mode != SendMode::Default,
            !old(self).asks_for_main_by_worker(request),
        ensures
            final(self).wf(),
            worker == old(self).spec_tell_target(request, charid),
            worker <= old(self).account_num,
            request is Some && !old(self).send_tells_over_main && old(self).current_buddy >= 1
                ==> worker >= 1,
            final(self).current_buddy == worker,
            final(self).current_lookup == old(self).current_lookup,
            final(self).account_num == old(self).account_num,
            final(self).spam_bot_support == old(self).spam_bot_support,
            final(self).send_tells_over_main == old(self).send_tells_over_main,
            final(self).default_mode == old(self).default_mode,
            final(self).start_at == old(self).start_at,
    {
        let worker: usize = match request {
            None => 0,
            Some(r) => {
                if r.mode == SendMode::ByCharId || (r.mode == SendMode::ByMsgId
                    && self.default_mode == SendMode::ByCharId) {
                    self.keyed(charid)
                } else if r.mode == SendMode::ByMsgId && r.msgid.is_some() {
                    self.keyed(r.msgid.unwrap())
                } else if r.mode == SendMode::ByWorker && r.worker.is_some() {
                    let w = r.worker.unwrap();
                    if self.send_tells_over_main {
                        w % (self.account_num + 1)
                    } else {
                        (w - 1) % self.account_num + 1
                    }
                } else if r.mode == SendMode::RoundRobin {
                    if self.current_buddy + 1 > self.account_num {
                        self.start_at
                    } else {
                        self.current_buddy + 1
                    }
                } else {
                    self.current_buddy
                }
            },
        };
        self.current_buddy = worker;
        worker
    }

    /// The worker for the next client lookup; lookups go round all workers,
    /// the main connection included.
    pub fn next_lookup(&mut self) -> (worker: usize)
        requires
            old(self).wf(),
        ensures
            final(self).wf(),
            worker == old(self).current_lookup,
            final(self).current_lookup == round_robin_next(
                worker as nat,
                0,
                old(self).account_num as nat,
            ),
            final(self).current_buddy == old(self).current_buddy,
            final(self).account_num == old(self).account_num,
            final(self).spam_bot_support == old(self).spam_bot_support,
            final(self).send_tells_over_main == old(self).send_tells_over_main,
            final(self).default_mode == old(self).default_mode,
            final(self).start_at == old(self).start_at,
    {
        let worker = self.current_lookup;
        self.current_lookup = self.current_lookup + 1;
        if self.current_lookup > self.account_num {
            self.current_lookup = 0;
        }
        worker
    }
}

/// The next position in a round over `start..=last`.
pub open spec fn round_robin_next(current: nat, start: nat, last: nat) -> nat {
    if current + 1 > last {
        start
    } else {
        current + 1
    }
}

/// The position after `steps` moves of a round over `start..=last`.
pub open spec fn round_robin_after(current: nat, start: nat, last: nat, steps: nat) -> nat
    decreases steps,
{
    if steps == 0 {
        current
    } else {
        round_robin_next(round_robin_after(current, start, last, (steps - 1) as nat), start, last)
    }
}

proof fn lemma_round_robin_position(current: nat, start: nat, last: nat, steps: nat)
    requires
        start <= current <= last,
    ensures
        round_robin_after(current, start, last, steps) == start + ((current - start + steps) as nat)
            % ((last - start + 1) as nat),
    decreases steps,
{
    let period = (last - start + 1) as nat;
    let c = (current - start) as nat;
    if steps == 0 {
        vstd::arithmetic::div_mod::lemma_small_mod(c, period);
    } else {
        lemma_round_robin_position(current, start, last, (steps - 1) as nat);
        let k = (steps - 1) as nat;
        let m = (c + k) % period;
        vstd::arithmetic::div_mod::lemma_mod_bound((c + k) as int, period as int);
        vstd::arithmetic::div_mod::lemma_add_mod_noop((c + k) as int, 1, period as int);
        if period > 1 {
            vstd::arithmetic::div_mod::lemma_small_mod(1, period);
        } else {
            vstd::arithmetic::div_mod::lemma_mod_self_0(1);
        }
        if m + 1 == period {
            vstd::arithmetic::div_mod::lemma_mod_self_0(period as int);
        } else {
            vstd::arithmetic::div_mod::lemma_small_mod(m + 1, period);
        }
    }
}

/// A round over `start..=last` comes back to where it was after one move
/// per position, and meets every position on the way.
pub proof fn law_round_robin_visits_each_once(current: nat, start: nat, last: nat, target: nat)
    requires
        start <= current <= last,
        start <= target <= last,
    ensures
        round_robin_after(current, start, last, (last - start + 1) as nat) == current,
        exists|steps: nat|
            steps < last - start + 1 && #[trigger] round_robin_after(current, start, last, steps)
                == target,
{
    let period = (last - start + 1) as nat;
    let c = (current - start) as nat;
    let t = (target - start) as nat;
    lemma_round_robin_position(current, start, last, period);
    vstd::arithmetic::div_mod::lemma_mod_add_multiples_vanish(c as int, period as int);
    vstd::arithmetic::div_mod::lemma_small_mod(c, period);
    let steps: nat = if t >= c {
        (t - c) as nat
    } else {
        (period - c + t) as nat
    };
    lemma_round_robin_position(current, start, last, steps);
    if t >= c {
        vstd::arithmetic::div_mod::lemma_small_mod(t, period);
    } else {
        vstd::arithmetic::div_mod::lemma_mod_add_multiples_vanish(t as int, period as int);
        vstd::arithmetic::div_mod::lemma_small_mod(t, period);
    }
    assert(round_robin_after(current, start, last, steps) == target);
}

/// How a tag is read. Without spam support, or with the plain tag `"\0"`,
/// a tell is not spread. Otherwise a tag that reads as a JSON payload asks
/// for the mode it names (only `proxy-default` stands for the configured
/// mode), with the payload's message id and worker; the legacy tag `spam`
/// asks for the configured mode with neither; any other tag asks for the
/// main connection by worker number.
pub proof fn law_tell_tags(r: Router, tag: Seq<char>, payload: Option<SendMessagePayload>)
    ensures
        (!r.spam_bot_support || tag == "\u{0}"@) ==> r.spec_tell_request(tag, payload) is None,
        r.spam_bot_support && tag != "\u{0}"@ ==> match payload {
            Some(p) => {
                &&& r.spec_tell_request(tag, payload) matches Some(req)
                &&& req.msgid == p.msgid
                &&& req.worker == p.worker
                &&& (p.mode != SendMode::Default ==> req.mode == p.mode)
                &&& (p.mode == SendMode::Default ==> req.mode == r.default_mode)
            },
            None => if tag == "spam"@ {
                r.spec_tell_request(tag, payload) == Some(
                    TellRequest { mode: r.default_mode, msgid: None, worker: None },
                )
            } else {
                r.spec_tell_request(tag, payload) == Some(
                    TellRequest { mode: SendMode::ByWorker, msgid: None, worker: Some(0) },
                )
            },
        },
{
}

/// Paged tells: a tell that asks for by-msgid with a message id, under a
/// round-robin default, goes to the worker bound to that id,
/// whatever the router's state: every page of a message goes to one worker.
pub proof fn law_message_pages_stay_together(
    r1: Router,
    r2: Router,
    p: SendMessagePayload,
    tag: Seq<char>,
    charid1: usize,
    charid2: usize,
)
    requires
        r1.wf(),
        r2.wf(),
        r1.account_num == r2.account_num,
        r1.send_tells_over_main == r2.send_tells_over_main,
        r1.default_mode == r2.default_mode,
        r1.spam_bot_support,
        r2.spam_bot_support,
        tag != "\u{0}"@,
        p.mode == SendMode::ByMsgId,
        p.msgid is Some,
        r1.default_mode == SendMode::RoundRobin,
    ensures
        r1.spec_tell_target(r1.spec_tell_request(tag, Some(p)), charid1) == r2.spec_tell_target(
            r2.spec_tell_request(tag, Some(p)),
            charid2,
        ),
        r1.spec_tell_target(r1.spec_tell_request(tag, Some(p)), charid1) == (if r1.send_tells_over_main {
            p.msgid->0 as nat % (r1.account_num as nat + 1)
        } else {
            p.msgid->0 as nat % (r1.account_num as nat) + 1
        }),
{
}

/// Tells that are keyed by character id, or by message id, go to the same
/// worker whatever tells came before: the worker depends on the key alone.
pub proof fn law_keyed_tells_ignore_history(
    r1: Router,
    r2: Router,
    request: TellRequest,
    charid: usize,
)
    requires
        r1.account_num == r2.account_num,
        r1.send_tells_over_main == r2.send_tells_over_main,
        r1.default_mode == r2.default_mode,
        request.mode == SendMode::ByCharId || (request.mode == SendMode::ByMsgId
            && request.msgid is Some),
    ensures
        r1.spec_tell_target(Some(request), charid) == r2.spec_tell_target(Some(request), charid),
{
}

/// Where a spread tell goes, by the mode it asks for, with `n` workers
/// besides the main connection: by character id to `id mod (n + 1)` when the
/// main connection sends tells too, else to `id mod n + 1`; by message id the
/// same with the message id (by character id where the configured mode is
/// by-charid); by worker to that worker, taken mod `n + 1`, or to
/// `(w - 1) mod n + 1` when the main connection sends no tells; round-robin
/// to the worker after the last one, wrapping to the first; a request that
/// lacks the id or worker it needs goes where the last tell went. A tell
/// that is not spread goes over the main connection.
pub proof fn law_tell_targets(r: Router, request: TellRequest, charid: usize)
    requires
        r.wf(),
        r.spam_bot_support,
    ensures
        r.spec_tell_target(None, charid) == 0,
        ({
            let n = r.account_num as int;
            let target = r.spec_tell_target(Some(request), charid) as int;
            let keyed = |key: int|
                if r.send_tells_over_main {
                    key % (n + 1)
                } else {
                    key % n + 1
                };
            &&& (request.mode == SendMode::ByCharId || (request.mode == SendMode::ByMsgId
                && r.default_mode == SendMode::ByCharId)) ==> target == keyed(charid as int)
            &&& (request.mode == SendMode::ByMsgId && r.default_mode != SendMode::ByCharId
                && request.msgid is Some) ==> target == keyed(request.msgid->0 as int)
            &&& (request.mode == SendMode::ByMsgId && r.default_mode != SendMode::ByCharId
                && request.msgid is None) ==> target == r.current_buddy
            &&& (request.mode == SendMode::ByWorker && request.worker is Some
                && r.send_tells_over_main) ==> target == (request.worker->0 as int) % (n + 1)
            &&& (request.mode == SendMode::ByWorker && request.worker is Some
                && !r.send_tells_over_main && request.worker->0 >= 1) ==> target == (
            request.worker->0 - 1) % n + 1
            &&& (request.mode == SendMode::ByWorker && request.worker is None) ==> target
                == r.current_buddy
            &&& request.mode == SendMode::RoundRobin ==> target == (if r.current_buddy < n {
                r.current_buddy + 1
            } else {
                r.start_at as int
            })
            &&& request.mode == SendMode::Default ==> target == r.current_buddy
        }),
{
}

/// The worker a buddy addition goes to when no worker is forced is
/// determined by the counts alone: it holds the smallest count, and every
/// worker before it holds more; exactly one worker is such.
pub proof fn law_least_buddies_is_unique(counts: Seq<usize>, i: int, j: int)
    ensures
        is_first_minimum(counts, i) <==> (0 <= i < counts.len() && (forall|k: int|
            0 <= k < counts.len() ==> counts[i] <= #[trigger] counts[k]) && (forall|k: int|
            0 <= k < i ==> #[trigger] counts[k] != counts[i])),
        is_first_minimum(counts, i) && is_first_minimum(counts, j) ==> i == j,
{
    if is_first_minimum(counts, i) && is_first_minimum(counts, j) {
        if i < j {
            assert(counts[i] > counts[j]);
        } else if j < i {
            assert(counts[j] > counts[i]);
        }
    }
    if 0 <= i < counts.len() && (forall|k: int|
        0 <= k < counts.len() ==> counts[i] <= #[trigger] counts[k]) && (forall|k: int|
        0 <= k < i ==> #[trigger] counts[k] != counts[i]) {
        assert forall|k: int| 0 <= k < i implies counts[i] < #[trigger] counts[k] by {
            assert(counts[i] <= counts[k]);
            assert(counts[k] != counts[i]);
        }
    }
}

/// `index` holds the first of the smallest counts.
pub open spec fn is_first_minimum(counts: Seq<usize>, index: int) -> bool {
    &&& 0 <= index < counts.len()
    &&& forall|j: int| 0 <= j < counts.len() ==> counts[index] <= #[trigger] counts[j]
    &&& forall|j: int| 0 <= j < index ==> counts[index] < #[trigger] counts[j]
}

/// The worker that a tag forces a buddy onto: the worker it names, where
/// that worker exists (0 to `account_num`), and none otherwise, in which case
/// the buddy is not added at all.
pub fn forced_buddy_worker(forced: BuddyAddPayload, account_num: usize) -> (worker: Option<usize>)
    ensures
        worker == (if forced.worker > account_num {
            None
        } else {
            Some(forced.worker)
        }),
{
    if forced.worker > account_num {
        None
    } else {
        Some(forced.worker)
    }
}

/// The worker that a buddy is added on where the tag forces none: the first
/// one with the fewest buddies. `buddy_counts[i]` is the number of buddies
/// of worker `i`.
pub fn least_buddies(buddy_counts: &Vec<usize>) -> (worker: usize)
    requires
        buddy_counts@.len() >= 1,
    ensures
        is_first_minimum(buddy_counts@, worker as int),
{
    let mut least: usize = 0;
    let mut count: usize = buddy_counts[0];
    let mut i: usize = 1;
    while i < buddy_counts.len()
        invariant
            1 <= i <= buddy_counts@.len(),
            least < i,
            count == buddy_counts@[least as int],
            forall|j: int| 0 <= j < i ==> count <= #[trigger] buddy_counts@[j],
            forall|j: int| 0 <= j < least ==> count < #[trigger] buddy_counts@[j],
        decreases buddy_counts.len() - i,
    {
        if buddy_counts[i] < count {
            least = i;
            count = buddy_counts[i];
        }
        i = i + 1;
    }
    least
}

/// The action for a `Ping` packet from the bot; `command` is what its body
/// reads as, if it reads as a command.
pub fn ping_action(command: Option<CommandPayload>) -> (action: PingAction)
    ensures
        match command {
            None => action is ForwardToMain,
            Some(c) => match c.cmd {
                Command::Capabilities => action is ReplyCapabilities,
                Command::Ping => match (c.worker, c.payload) {
                    (Some(w), Some(p)) => action matches PingAction::SendToWorker {
                        worker,
                        payload,
                    } && worker == w && payload == p,
                    _ => action is Ignore,
                },
            },
        },
{
    match command {
        None => PingAction::ForwardToMain,
        Some(c) => match c.cmd {
            Command::Capabilities => PingAction::ReplyCapabilities,
            Command::Ping => match (c.worker, c.payload) {
                (Some(worker), Some(payload)) => PingAction::SendToWorker { worker, payload },
                _ => PingAction::Ignore,
            },
        },
    }
}

} // verus!
