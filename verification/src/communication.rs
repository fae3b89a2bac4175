//! The messages that a connected bot sends to the proxy inside packet tags.

use vstd::prelude::*;

use crate::text::{debug_quote, debug_quoted, decimal, render_u64};

verus! {

/// A command that a bot may put into a `Ping` packet.
#[derive(Debug, Clone, Copy, PartialEq, Eq, Structural)]
pub enum Command {
    Capabilities,
    Ping,
}

/// How a tell is spread over the workers.
#[derive(Debug, Clone, Copy, PartialEq, Eq, Structural)]
pub enum SendMode {
    RoundRobin,
    ByCharId,
    ByMsgId,
    ByWorker,
    Default,
}

impl Default for SendMode {
    fn default() -> (mode: Self)
        ensures
            mode == SendMode::RoundRobin,
    {
        SendMode::RoundRobin
    }
}

/// The name under which a send mode is written in JSON and in the capabilities.
pub open spec fn send_mode_name(mode: SendMode) -> Seq<char> {
    match mode {
        SendMode::RoundRobin => "round-robin"@,
        SendMode::ByCharId => "by-charid"@,
        SendMode::ByMsgId => "by-msgid"@,
        SendMode::ByWorker => "by-worker"@,
        SendMode::Default => "proxy-default"@,
    }
}

/// The names of the send modes, as the bot writes them; no two modes share
/// a name.
pub proof fn law_send_mode_names(m1: SendMode, m2: SendMode)
    ensures
        send_mode_name(SendMode::RoundRobin) == "round-robin"@,
        send_mode_name(SendMode::ByCharId) == "by-charid"@,
        send_mode_name(SendMode::ByMsgId) == "by-msgid"@,
        send_mode_name(SendMode::ByWorker) == "by-worker"@,
        send_mode_name(SendMode::Default) == "proxy-default"@,
        send_mode_name(m1) == send_mode_name(m2) ==> m1 == m2,
{
    reveal_strlit("round-robin");
    reveal_strlit("by-charid");
    reveal_strlit("by-msgid");
    reveal_strlit("by-worker");
    reveal_strlit("proxy-default");
    assert("by-charid"@[3] != "by-msgid"@[3]);
    assert("by-charid"@[3] != "by-worker"@[3]);
    assert("by-msgid"@[3] != "by-worker"@[3]);
}

impl SendMode {
    pub fn as_str(&self) -> (name: &'static str)
        ensures
            name@ == send_mode_name(*self),
    {
        match self {
            SendMode::RoundRobin => "round-robin",
            SendMode::ByCharId => "by-charid",
            SendMode::ByMsgId => "by-msgid",
            SendMode::ByWorker => "by-worker",
            SendMode::Default => "proxy-default",
        }
    }
}

/// The body of a `Ping` packet that carries a command for the proxy.
#[derive(Debug)]
pub struct CommandPayload {
    pub cmd: Command,
    pub worker: Option<usize>,
    pub payload: Option<String>,
}

/// The routing key of a tell in the extensible format.
#[derive(Debug, Clone, Copy, PartialEq, Eq, Structural)]
pub struct SendMessagePayload {
    pub mode: SendMode,
    pub msgid: Option<usize>,
    pub worker: Option<usize>,
}

/// The routing key of a `BuddyAdd` packet that forces a worker.
#[derive(Debug, Clone, Copy, PartialEq, Eq, Structural)]
pub struct BuddyAddPayload {
    pub worker: usize,
}

/// The `Debug` notation of a list of strings: each in its `Debug` notation,
/// separated by a comma and a space.
pub open spec fn debug_items(items: Seq<Seq<char>>) -> Seq<char>
    decreases items.len(),
{
    if items.len() == 0 {
        Seq::empty()
    } else if items.len() == 1 {
        debug_quoted(items[0])
    } else {
        debug_items(items.drop_last()) + ", "@ + debug_quoted(items.last())
    }
}

/// Listing names one after the other: no names give nothing, one name gives
/// it quoted, and two non-empty runs of names give their listings joined by
/// one `", "`; so between every two consecutive names stands exactly `", "`.
pub proof fn law_debug_items_join(first: Seq<Seq<char>>, second: Seq<Seq<char>>, name: Seq<char>)
    ensures
        debug_items(Seq::empty()) == Seq::<char>::empty(),
        debug_items(seq![name]) == debug_quoted(name),
        first.len() > 0 && second.len() > 0 ==> debug_items(first + second) == debug_items(first)
            + ", "@ + debug_items(second),
    decreases second.len(),
{
    if first.len() > 0 && second.len() > 0 {
        let both = first + second;
        if second.len() == 1 {
            assert(both.drop_last() =~= first);
            assert(both.last() == second[0]);
        } else {
            let shorter = second.drop_last();
            law_debug_items_join(first, shorter, name);
            assert(both.drop_last() =~= first + shorter);
            assert(both.last() == second.last());
            assert(debug_items(both) =~= debug_items(first) + ", "@ + debug_items(second));
        }
    }
}

pub open spec fn debug_list(items: Seq<Seq<char>>) -> Seq<char> {
    "["@ + debug_items(items) + "]"@
}

/// The answer to a capabilities command: the proxy's name and version, the
/// commands and send modes it knows, its default mode, its workers' names
/// and when it started (UNIX seconds).
pub open spec fn capabilities_text(
    version: Seq<char>,
    default_mode: SendMode,
    workers: Seq<Seq<char>>,
    started_at: nat,
) -> Seq<char> {
    "{\"name\": \"aochatproxy\", \"version\": \""@ + version
        + "\", \"type\": \"capabilities\", \"supported-cmds\": [\"capabilities\", \"ping\"], \"rate-limited\": true, \"default-mode\": "@
        + debug_quoted(send_mode_name(default_mode)) + ", \"workers\": "@ + debug_list(workers)
        + ", \"started-at\": "@ + decimal(started_at)
        + ", \"send-modes\": [\"round-robin\", \"by-charid\", \"by-msgid\", \"proxy-default\", \"by-worker\"], \"buddy-modes\": [\"by-worker\"]}"@
}

/// The capabilities answer is one JSON object: its fixed fields, the
/// version as given, the default mode's name quoted, the workers' names
/// quoted in a list, and the start time in decimal, in this order.
pub proof fn law_capabilities_layout(
    version: Seq<char>,
    default_mode: SendMode,
    workers: Seq<Seq<char>>,
    started_at: nat,
)
    ensures
        capabilities_text(version, default_mode, workers, started_at) == "{\"name\": \"aochatproxy\", \"version\": \""@
            + version
            + "\", \"type\": \"capabilities\", \"supported-cmds\": [\"capabilities\", \"ping\"], \"rate-limited\": true, \"default-mode\": "@
            + debug_quoted(send_mode_name(default_mode)) + ", \"workers\": ["@ + debug_items(workers)
            + "], \"started-at\": "@ + decimal(started_at)
            + ", \"send-modes\": [\"round-robin\", \"by-charid\", \"by-msgid\", \"proxy-default\", \"by-worker\"], \"buddy-modes\": [\"by-worker\"]}"@,
{
    reveal_strlit(", \"workers\": ");
    reveal_strlit("[");
    reveal_strlit(", \"workers\": [");
    reveal_strlit("]");
    reveal_strlit(", \"started-at\": ");
    reveal_strlit("], \"started-at\": ");
    let x = "{\"name\": \"aochatproxy\", \"version\": \""@ + version
        + "\", \"type\": \"capabilities\", \"supported-cmds\": [\"capabilities\", \"ping\"], \"rate-limited\": true, \"default-mode\": "@
        + debug_quoted(send_mode_name(default_mode));
    let y = decimal(started_at)
        + ", \"send-modes\": [\"round-robin\", \"by-charid\", \"by-msgid\", \"proxy-default\", \"by-worker\"], \"buddy-modes\": [\"by-worker\"]}"@;
    assert(x + ", \"workers\": "@ + ("["@ + debug_items(workers) + "]"@) + ", \"started-at\": "@ + y
        =~= x + ", \"workers\": ["@ + debug_items(workers) + "], \"started-at\": "@ + y);
}

pub open spec fn strings_view(items: Seq<String>) -> Seq<Seq<char>> {
    items.map_values(|s: String| s@)
}

fn render_debug_list(items: &Vec<String>) -> (text: String)
    ensures
        text@ == debug_list(strings_view(items@)),
{
    let mut text = String::from_str("[");
    let mut i: usize = 0;
    while i < items.len()
        invariant
            i <= items.len(),
            text@ == "["@ + debug_items(strings_view(items@).take(i as int)),
        decreases items.len() - i,
    {
        let ghost before = strings_view(items@).take(i as int);
        let ghost after = strings_view(items@).take(i + 1);
        assert(after.drop_last() =~= before);
        if i > 0 {
            text.append(", ");
        }
        let quoted = debug_quote(items[i].as_str());
        text.append(quoted.as_str());
        i = i + 1;
        assert(text@ =~= "["@ + debug_items(after));
    }
    assert(strings_view(items@).take(i as int) =~= strings_view(items@));
    text.append("]");
    text
}

/// The body of the `Ping` packet that answers a capabilities command.
pub fn capabilities(
    version: &str,
    default_mode: SendMode,
    workers: &Vec<String>,
    started_at: u64,
) -> (text: String)
    ensures
        text@ == capabilities_text(
            version@,
            default_mode,
            strings_view(workers@),
            started_at as nat,
        ),
{
    let mut text = String::from_str("{\"name\": \"aochatproxy\", \"version\": \"");
    text.append(version);
    text.append(
        "\", \"type\": \"capabilities\", \"supported-cmds\": [\"capabilities\", \"ping\"], \"rate-limited\": true, \"default-mode\": ",
    );
    let mode = debug_quote(default_mode.as_str());
    text.append(mode.as_str());
    text.append(", \"workers\": ");
    let list = render_debug_list(workers);
    text.append(list.as_str());
    text.append(", \"started-at\": ");
    let started = render_u64(started_at);
    text.append(started.as_str());
    text.append(
        ", \"send-modes\": [\"round-robin\", \"by-charid\", \"by-msgid\", \"proxy-default\", \"by-worker\"], \"buddy-modes\": [\"by-worker\"]}",
    );
    text
}

} // verus!
