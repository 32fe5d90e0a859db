//! The decisions of a node's network event loop: what it does with the
//! commands of its client and with the events of its swarm, and how the
//! events it hands on are reported.

use vstd::prelude::*;
use vstd::utf8::{valid_utf8, decode_utf8, encode_utf8, encode_utf8_valid_utf8, encode_utf8_decode_utf8};
use crate::text::string_from_utf8;

verus! {

/// The secret key bytes of a node started with a fixed seed: the seed, then
/// thirty-one zero bytes.
pub open spec fn secret_key_seq(seed: u8) -> Seq<u8> {
    seq![seed] + Seq::new(31, |i: int| 0u8)
}

/// The thirty-two bytes from which a node started with `seed` derives its
/// ed25519 key pair, so that its peer identity is the same on every run.
pub fn secret_key_bytes(seed: u8) -> (bytes: Vec<u8>)
    ensures
        bytes@ == secret_key_seq(seed),
        bytes@.len() == 32,
        bytes@[0] == seed,
        forall|i: int| 1 <= i < 32 ==> bytes@[i] == 0u8,
{
    proof {
        lemma_key_bytes_are_seed_then_zeros(seed);
    }
    let mut bytes: Vec<u8> = Vec::new();
    bytes.push(seed);
    let mut i: usize = 1;
    while i < 32
        invariant
            1 <= i <= 32,
            bytes@.len() == i,
            bytes@[0] == seed,
            forall|j: int| 1 <= j < i ==> bytes@[j] == 0u8,
        decreases 32 - i,
    {
        bytes.push(0u8);
        i = i + 1;
    }
    proof {
        assert(bytes@ =~= secret_key_seq(seed));
    }
    bytes
}


/// The key bytes are thirty-two long: the seed first, every other byte
/// zero.
pub proof fn lemma_key_bytes_are_seed_then_zeros(seed: u8)
    ensures
        secret_key_seq(seed).len() == 32,
        secret_key_seq(seed)[0] == seed,
        forall|i: int| 1 <= i < 32 ==> secret_key_seq(seed)[i] == 0u8,
{
}

/// The seed fixes the key material: the same seed always gives the same
/// bytes, and different seeds give different bytes.
pub proof fn lemma_seed_determines_key(a: u8, b: u8)
    ensures
        (secret_key_seq(a) == secret_key_seq(b)) <==> (a == b),
{
    if secret_key_seq(a) == secret_key_seq(b) {
        assert(secret_key_seq(a)[0] == a);
        assert(secret_key_seq(b)[0] == b);
    }
}

/// An event that the event loop hands on to the rest of the node.
pub enum NodeEvent {
    /// A record was found in the DHT.
    GetResult { key: String, value: String },
    /// A record was stored in the DHT; an error is carried as its text.
    PutResult { result: Result<(), String> },
}

/// The mathematical form of a [`NodeEvent`].
pub enum NodeEventView {
    GetResult(Seq<char>, Seq<char>),
    PutResult(Result<(), Seq<char>>),
}

impl View for NodeEvent {
    type V = NodeEventView;

    open spec fn view(&self) -> NodeEventView {
        match self {
            NodeEvent::GetResult { key, value } => NodeEventView::GetResult(key@, value@),
            NodeEvent::PutResult { result } => NodeEventView::PutResult(
                match result {
                    Ok(()) => Ok(()),
                    Err(e) => Err(e@),
                },
            ),
        }
    }
}

/// What the swarm reported, reduced to what the event loop's decisions
/// read: the kind of event, and the key and value bytes of records.
pub enum SwarmNotice {
    /// The node listens on a new address.
    NewListenAddr,
    /// Local discovery found peers and their addresses.
    PeersDiscovered,
    /// A lookup found a record.
    RecordFound { key: Vec<u8>, value: Vec<u8> },
    /// A lookup ended successfully without a record to hand on.
    GetRecordFinished,
    /// A lookup failed.
    GetRecordFailed,
    /// A record was stored.
    RecordStored { key: Vec<u8> },
    /// Storing a record failed.
    PutRecordFailed,
    /// Anything else the swarm reports.
    Other,
}

/// What the event loop does, in order, for a swarm event.
pub enum EventAction {
    /// Report the new listening address on standard output.
    ReportListening,
    /// Add every discovered peer address to the routing table.
    AddDiscoveredPeers,
    /// Hand this event on to the node.
    Emit(NodeEvent),
    /// Report on standard output that the record with this key was stored.
    ReportStored { key: String },
    /// Report the failed lookup on standard error.
    ReportGetFailure,
    /// Report the failed store on standard error.
    ReportPutFailure,
    /// A record key or value is not valid UTF-8: the node stops, as it
    /// cannot hand the record on as text.
    RejectMalformedRecord,
}

/// The mathematical form of an [`EventAction`].
pub enum EventActionView {
    ReportListening,
    AddDiscoveredPeers,
    Emit(NodeEventView),
    ReportStored(Seq<char>),
    ReportGetFailure,
    ReportPutFailure,
    RejectMalformedRecord,
}

impl View for EventAction {
    type V = EventActionView;

    open spec fn view(&self) -> EventActionView {
        match self {
            EventAction::ReportListening => EventActionView::ReportListening,
            EventAction::AddDiscoveredPeers => EventActionView::AddDiscoveredPeers,
            EventAction::Emit(e) => EventActionView::Emit(e@),
            EventAction::ReportStored { key } => EventActionView::ReportStored(key@),
            EventAction::ReportGetFailure => EventActionView::ReportGetFailure,
            EventAction::ReportPutFailure => EventActionView::ReportPutFailure,
            EventAction::RejectMalformedRecord => EventActionView::RejectMalformedRecord,
        }
    }
}

/// The views of a sequence of actions.
pub open spec fn action_views(actions: Seq<EventAction>) -> Seq<EventActionView> {
    actions.map_values(|a: EventAction| a@)
}

/// The actions for a swarm event. Found records are handed on with their
/// key and value decoded from UTF-8; a stored record is reported and then
/// announced as a successful put; keys or values that are not UTF-8 stop
/// the node.
pub open spec fn event_actions(notice: SwarmNotice) -> Seq<EventActionView> {
    match notice {
        SwarmNotice::NewListenAddr => seq![EventActionView::ReportListening],
        SwarmNotice::PeersDiscovered => seq![EventActionView::AddDiscoveredPeers],
        SwarmNotice::RecordFound { key, value } => {
            if valid_utf8(key@) && valid_utf8(value@) {
                seq![EventActionView::Emit(NodeEventView::GetResult(decode_utf8(key@), decode_utf8(value@)))]
            } else {
                seq![EventActionView::RejectMalformedRecord]
            }
        },
        SwarmNotice::GetRecordFinished => seq![],
        SwarmNotice::GetRecordFailed => seq![EventActionView::ReportGetFailure],
        SwarmNotice::RecordStored { key } => {
            if valid_utf8(key@) {
                seq![
                    EventActionView::ReportStored(decode_utf8(key@)),
                    EventActionView::Emit(NodeEventView::PutResult(Ok(()))),
                ]
            } else {
                seq![EventActionView::RejectMalformedRecord]
            }
        },
        SwarmNotice::PutRecordFailed => seq![EventActionView::ReportPutFailure],
        SwarmNotice::Other => seq![],
    }
}

/// Decides what the event loop does with a swarm event.
pub fn handle_event(notice: SwarmNotice) -> (actions: Vec<EventAction>)
    ensures
        action_views(actions@) == event_actions(notice),
{
    let ghost n = notice;
    let mut actions: Vec<EventAction> = Vec::new();
    match notice {
        SwarmNotice::NewListenAddr => actions.push(EventAction::ReportListening),
        SwarmNotice::PeersDiscovered => actions.push(EventAction::AddDiscoveredPeers),
        SwarmNotice::RecordFound { key, value } => {
            match string_from_utf8(key) {
                Some(key) => match string_from_utf8(value) {
                    Some(value) => actions.push(EventAction::Emit(NodeEvent::GetResult { key, value })),
                    None => actions.push(EventAction::RejectMalformedRecord),
                },
                None => actions.push(EventAction::RejectMalformedRecord),
            }
        },
        SwarmNotice::GetRecordFinished => {},
        SwarmNotice::GetRecordFailed => actions.push(EventAction::ReportGetFailure),
        SwarmNotice::RecordStored { key } => {
            match string_from_utf8(key) {
                Some(key) => {
                    actions.push(EventAction::ReportStored { key });
                    actions.push(EventAction::Emit(NodeEvent::PutResult { result: Ok(()) }));
                },
                None => actions.push(EventAction::RejectMalformedRecord),
            }
        },
        SwarmNotice::PutRecordFailed => actions.push(EventAction::ReportPutFailure),
        SwarmNotice::Other => {},
    }
    proof {
        assert(action_views(actions@) =~= event_actions(n));
    }
    actions
}

/// A record whose key and value are texts is handed on exactly as it was
/// stored: the node receives the same key and value texts.
pub proof fn lemma_found_text_record_handed_on(key: Seq<char>, value: Seq<char>, kb: Vec<u8>, vb: Vec<u8>)
    requires
        kb@ == encode_utf8(key),
        vb@ == encode_utf8(value),
    ensures
        event_actions(SwarmNotice::RecordFound { key: kb, value: vb })
            == seq![EventActionView::Emit(NodeEventView::GetResult(key, value))],
{
    encode_utf8_valid_utf8(key);
    encode_utf8_valid_utf8(value);
    encode_utf8_decode_utf8(key);
    encode_utf8_decode_utf8(value);
}

/// A stored record whose key is a text is reported with that text and then
/// announced as a successful put.
pub proof fn lemma_stored_text_record_announced(key: Seq<char>, kb: Vec<u8>)
    requires
        kb@ == encode_utf8(key),
    ensures
        event_actions(SwarmNotice::RecordStored { key: kb })
            == seq![EventActionView::ReportStored(key), EventActionView::Emit(NodeEventView::PutResult(Ok(())))],
{
    encode_utf8_valid_utf8(key);
    encode_utf8_decode_utf8(key);
}


/// The kind of a command that the client sends to the event loop.
#[derive(PartialEq, Eq, Structural, Clone, Copy)]
pub enum CommandKind {
    /// Listen on an address.
    StartListening,
    /// Look a record up.
    Get,
    /// Store a record.
    Put,
}

/// What the event loop does once the swarm has carried a command out.
pub enum CommandReply {
    /// Answer the client with this result.
    Reply(Result<(), String>),
    /// The record could not even be stored locally: the node stops.
    Abort,
}

/// The mathematical form of a [`CommandReply`].
pub enum CommandReplyView {
    Reply(Result<(), Seq<char>>),
    Abort,
}

/// The view of a result that carries an error text.
pub open spec fn result_view(r: Result<(), String>) -> Result<(), Seq<char>> {
    match r {
        Ok(()) => Ok(()),
        Err(e) => Err(e@),
    }
}

impl View for CommandReply {
    type V = CommandReplyView;

    open spec fn view(&self) -> CommandReplyView {
        match self {
            CommandReply::Reply(r) => CommandReplyView::Reply(result_view(*r)),
            CommandReply::Abort => CommandReplyView::Abort,
        }
    }
}

/// The answer to a command: listening forwards the swarm's outcome, a
/// lookup is always acknowledged (its result arrives later as an event),
/// and a store is acknowledged once the record is stored locally.
pub open spec fn command_outcome(kind: CommandKind, outcome: Result<(), Seq<char>>) -> CommandReplyView {
    match kind {
        CommandKind::StartListening => CommandReplyView::Reply(outcome),
        CommandKind::Get => CommandReplyView::Reply(Ok(())),
        CommandKind::Put => match outcome {
            Ok(()) => CommandReplyView::Reply(Ok(())),
            Err(_) => CommandReplyView::Abort,
        },
    }
}

/// What each command is answered, whatever the swarm reported: a lookup
/// is always acknowledged and never stops the node; listening passes the
/// swarm's outcome on unchanged; a store is acknowledged when it succeeded
/// and stops the node exactly when it failed. Only a failed store stops the
/// node.
pub proof fn lemma_command_answers(kind: CommandKind, outcome: Result<(), Seq<char>>)
    ensures
        command_outcome(CommandKind::Get, outcome) == CommandReplyView::Reply(Ok(())),
        command_outcome(CommandKind::StartListening, outcome) == CommandReplyView::Reply(outcome),
        (command_outcome(CommandKind::Put, outcome) == CommandReplyView::Abort) <==> outcome is Err,
        outcome is Ok ==> command_outcome(CommandKind::Put, outcome) == CommandReplyView::Reply(Ok(())),
        command_outcome(kind, outcome) == CommandReplyView::Abort ==> kind == CommandKind::Put && outcome is Err,
{
}

/// Decides the answer to a command from the outcome of the swarm call that
/// carried it out.
pub fn command_reply(kind: CommandKind, outcome: Result<(), String>) -> (reply: CommandReply)
    ensures
        reply@ == command_outcome(kind, result_view(outcome)),
        kind == CommandKind::Get ==> reply@ == CommandReplyView::Reply(Ok(())),
        kind == CommandKind::StartListening ==> reply@ == CommandReplyView::Reply(result_view(outcome)),
        kind == CommandKind::Put ==> (reply@ == CommandReplyView::Abort <==> outcome is Err),
        kind == CommandKind::Put && outcome is Ok ==> reply@ == CommandReplyView::Reply(Ok(())),
{
    proof {
        lemma_command_answers(kind, result_view(outcome));
    }
    match kind {
        CommandKind::StartListening => CommandReply::Reply(outcome),
        CommandKind::Get => CommandReply::Reply(Ok(())),
        CommandKind::Put => match outcome {
            Ok(()) => CommandReply::Reply(Ok(())),
            Err(_) => CommandReply::Abort,
        },
    }
}

/// The line that reports an event handed on by the event loop, where
/// `publisher` is the text of the record's publisher.
pub open spec fn event_report_text(event: NodeEventView, publisher: Seq<char>) -> Seq<char> {
    match event {
        NodeEventView::GetResult(key, value) => "New record: "@ + key + ", "@ + value + ", "@ + publisher,
        NodeEventView::PutResult(Ok(())) => "PutResult: Ok(())"@,
        NodeEventView::PutResult(Err(e)) => "PutResult: Err("@ + e + ")"@,
    }
}

/// The line that reports an event handed on by the event loop.
pub fn describe_event(event: &NodeEvent, publisher: &str) -> (line: String)
    ensures
        line@ == event_report_text(event@, publisher@),
{
    match event {
        NodeEvent::GetResult { key, value } => {
            let mut line = "New record: ".to_owned();
            line.append(key.as_str());
            line.append(", ");
            line.append(value.as_str());
            line.append(", ");
            line.append(publisher);
            line
        },
        NodeEvent::PutResult { result } => match result {
            Ok(()) => "PutResult: Ok(())".to_owned(),
            Err(e) => {
                let mut line = "PutResult: Err(".to_owned();
                line.append(e.as_str());
                line.append(")");
                line
            },
        },
    }
}

/// Only a record that is not UTF-8 stops the node; only found and stored
/// records are handed on; every event leads to at most two actions, and
/// events other than stored records to at most one.
pub proof fn lemma_event_action_bounds(notice: SwarmNotice)
    ensures
        event_actions(notice).len() <= 2,
        !(notice is RecordStored) ==> event_actions(notice).len() <= 1,
        event_actions(notice).contains(EventActionView::RejectMalformedRecord) ==> match notice {
            SwarmNotice::RecordFound { key, value } => !valid_utf8(key@) || !valid_utf8(value@),
            SwarmNotice::RecordStored { key } => !valid_utf8(key@),
            _ => false,
        },
        (exists|i: int| 0 <= i < event_actions(notice).len() && #[trigger] event_actions(notice)[i] is Emit)
            ==> (notice is RecordFound || notice is RecordStored),
{
    let a = event_actions(notice);
    if a.contains(EventActionView::RejectMalformedRecord) {
        let i = choose|i: int| 0 <= i < a.len() && a[i] == EventActionView::RejectMalformedRecord;
    }
    if exists|i: int| 0 <= i < a.len() && #[trigger] a[i] is Emit {
        let i = choose|i: int| 0 <= i < a.len() && #[trigger] a[i] is Emit;
    }
}

/// The report of a found record starts with `New record: `, then the key,
/// `, `, the value, `, ` and the publisher; the report of a put starts with
/// `PutResult: ` and tells success from failure.
pub proof fn lemma_event_report(key: Seq<char>, value: Seq<char>, publisher: Seq<char>, err: Seq<char>)
    ensures
        ({
            let line = event_report_text(NodeEventView::GetResult(key, value), publisher);
            &&& line.len() == 16 + key.len() + value.len() + publisher.len()
            &&& line.subrange(0, 12) == "New record: "@
            &&& line.subrange(12, 12 + key.len() as int) == key
            &&& line.subrange(14 + key.len() as int, 14 + key.len() + value.len() as int) == value
            &&& line.subrange(16 + key.len() + value.len() as int, line.len() as int) == publisher
        }),
        event_report_text(NodeEventView::PutResult(Ok(())), publisher) == "PutResult: Ok(())"@,
        ({
            let line = event_report_text(NodeEventView::PutResult(Err(err)), publisher);
            &&& line.subrange(0, 15) == "PutResult: Err("@
            &&& line.subrange(15, 15 + err.len() as int) == err
            &&& line.len() == 16 + err.len()
        }),
{
    reveal_strlit("New record: ");
    reveal_strlit(", ");
    reveal_strlit("PutResult: Err(");
    reveal_strlit(")");
    let line = event_report_text(NodeEventView::GetResult(key, value), publisher);
    assert(line.subrange(0, 12) =~= "New record: "@);
    assert(line.subrange(12, 12 + key.len() as int) =~= key);
    assert(line.subrange(14 + key.len() as int, 14 + key.len() + value.len() as int) =~= value);
    assert(line.subrange(16 + key.len() + value.len() as int, line.len() as int) =~= publisher);
    let l2 = event_report_text(NodeEventView::PutResult(Err(err)), publisher);
    assert(l2.subrange(0, 15) =~= "PutResult: Err("@);
    assert(l2.subrange(15, 15 + err.len() as int) =~= err);
}

/// The events that carry no record: a new address is reported,
/// discovered peers are added, failures are reported, and an ended lookup
/// or any other event leads to nothing.
pub proof fn lemma_events_without_records()
    ensures
        event_actions(SwarmNotice::NewListenAddr) == seq![EventActionView::ReportListening],
        event_actions(SwarmNotice::PeersDiscovered) == seq![EventActionView::AddDiscoveredPeers],
        event_actions(SwarmNotice::GetRecordFailed) == seq![EventActionView::ReportGetFailure],
        event_actions(SwarmNotice::PutRecordFailed) == seq![EventActionView::ReportPutFailure],
        event_actions(SwarmNotice::GetRecordFinished).len() == 0,
        event_actions(SwarmNotice::Other).len() == 0,
{
}

} // verus!
