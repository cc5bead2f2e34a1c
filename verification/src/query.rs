//! The raw-mode session a position query runs through on a stream
//! terminal.
//!
//! A query must snapshot the terminal's input mode, switch off canonical
//! input, echo and the read-enable flag, write the query request, read
//! the reply one byte at a time, and put the snapshot back on every exit
//! path — success, parse error or I/O error — so a failed query never
//! leaves the terminal in raw mode.
//!
//! The session is a state machine from plain values to plain values. The
//! caller performs each returned [`Action`] against the terminal and
//! answers it with an [`Event`]; the machine decides everything else.
//! The lemmas at the end state the restoration discipline: the snapshot
//! rides through the whole session unchanged, the session finishes only
//! out of the restoring state, and the restoring state is entered only
//! with a mode-set action carrying exactly the snapshot.

use vstd::prelude::*;
use crate::{Error, Pos};
use crate::reply::{spec_step, ReplyParser};

verus! {

/// The local-mode bits a query must switch off, as the platform defines
/// them: canonical (line-buffered) input, local echo, and the general
/// read-enable flag that would let another reader consume the reply.
#[derive(Clone, Copy, Debug, PartialEq, Eq, Structural)]
pub struct ModeMasks {
    pub icanon: u32,
    pub echo: u32,
    pub cread: u32,
}

/// The local-mode word with the three query-disturbing flags cleared.
pub open spec fn spec_raw_lflag(lflag: u32, m: ModeMasks) -> u32 {
    lflag & !m.icanon & !m.echo & !m.cread
}

/// Computes the transient local-mode word for the duration of a query.
pub fn raw_lflag(lflag: u32, m: ModeMasks) -> (r: u32)
    ensures
        r == spec_raw_lflag(lflag, m),
{
    lflag & !m.icanon & !m.echo & !m.cread
}

/// The transient word has all three masked flags at zero.
pub proof fn lemma_raw_lflag_clears(lflag: u32, m: ModeMasks)
    ensures
        spec_raw_lflag(lflag, m) & (m.icanon | m.echo | m.cread) == 0,
{
    let i = m.icanon;
    let e = m.echo;
    let c = m.cread;
    assert(lflag & !i & !e & !c & (i | e | c) == 0) by (bit_vector);
}

/// The transient word changes nothing outside the three masks.
pub proof fn lemma_raw_lflag_preserves_others(lflag: u32, m: ModeMasks)
    ensures
        (spec_raw_lflag(lflag, m) & !(m.icanon | m.echo | m.cread)
            == lflag & !(m.icanon | m.echo | m.cread)),
{
    let i = m.icanon;
    let e = m.echo;
    let c = m.cread;
    assert(lflag & !i & !e & !c & !(i | e | c) == lflag & !(i | e | c)) by (bit_vector);
}

/// What the caller must do next against the terminal.
#[derive(Clone, Copy, Debug, PartialEq, Eq)]
pub enum Action {
    /// Read the terminal's current input-mode configuration.
    ReadMode,
    /// Apply this local-mode word to the terminal, flushing the change.
    SetMode { lflag: u32 },
    /// Write the position-query request bytes and flush output.
    WriteQuery,
    /// Read one byte from the input stream.
    ReadByte,
    /// The session is over; hand this outcome to the caller.
    Finish { outcome: Result<Pos, Error> },
}

/// How the terminal answered the previous action.
#[derive(Clone, Copy, Debug, PartialEq, Eq)]
pub enum Event {
    /// The mode was read; this is its local-mode word.
    Mode { lflag: u32 },
    /// The mode change or the write went through.
    Succeeded,
    /// The read, write or mode change failed at the byte-stream level.
    Failed,
    /// One byte arrived from the input stream.
    Byte { value: u8 },
}

/// One state of the query session.
#[derive(Clone, Copy, Debug, PartialEq, Eq)]
pub enum QueryState {
    /// Waiting for the snapshot of the current input mode.
    TakeSnapshot,
    /// Snapshot in hand; waiting for the transient raw mode to apply.
    EnterRaw { saved: u32 },
    /// Raw mode active; waiting for the query request to be written.
    SendQuery { saved: u32 },
    /// Raw mode active; reading the reply byte by byte.
    AwaitReply { saved: u32, parser: ReplyParser },
    /// The verdict is fixed; waiting for the snapshot to be re-applied.
    RestoreMode { saved: u32, outcome: Result<Pos, Error> },
    /// The session is over.
    Finished { outcome: Result<Pos, Error> },
}

/// The events a state can be answered with.
pub open spec fn accepts(s: QueryState, ev: Event) -> bool {
    match s {
        QueryState::TakeSnapshot => ev is Mode || ev is Failed,
        QueryState::EnterRaw { .. } => ev is Succeeded || ev is Failed,
        QueryState::SendQuery { .. } => ev is Succeeded || ev is Failed,
        QueryState::AwaitReply { .. } => ev is Byte || ev is Failed,
        QueryState::RestoreMode { .. } => ev is Succeeded || ev is Failed,
        QueryState::Finished { .. } => false,
    }
}

/// The transition relation of the session. Once the snapshot is taken,
/// every path to `Finished` passes through `RestoreMode`, whose entering
/// action re-applies the snapshot word; a failure while nothing has been
/// changed yet ends the session directly.
pub open spec fn spec_query_step(s: QueryState, ev: Event, m: ModeMasks) -> (QueryState, Action) {
    match (s, ev) {
        (QueryState::TakeSnapshot, Event::Mode { lflag }) => (
            QueryState::EnterRaw { saved: lflag },
            Action::SetMode { lflag: spec_raw_lflag(lflag, m) },
        ),
        (QueryState::TakeSnapshot, _) => (
            QueryState::Finished { outcome: Err(Error::IOError) },
            Action::Finish { outcome: Err(Error::IOError) },
        ),
        (QueryState::EnterRaw { saved }, Event::Succeeded) => (
            QueryState::SendQuery { saved },
            Action::WriteQuery,
        ),
        (QueryState::EnterRaw { saved }, _) => (
            QueryState::RestoreMode { saved, outcome: Err(Error::IOError) },
            Action::SetMode { lflag: saved },
        ),
        (QueryState::SendQuery { saved }, Event::Succeeded) => (
            QueryState::AwaitReply { saved, parser: ReplyParser::ExpectEsc },
            Action::ReadByte,
        ),
        (QueryState::SendQuery { saved }, _) => (
            QueryState::RestoreMode { saved, outcome: Err(Error::IOError) },
            Action::SetMode { lflag: saved },
        ),
        (QueryState::AwaitReply { saved, parser }, Event::Byte { value }) => {
            match spec_step(parser, value) {
                ReplyParser::Done { col, row } => (
                    QueryState::RestoreMode { saved, outcome: Ok(Pos { col, row }) },
                    Action::SetMode { lflag: saved },
                ),
                ReplyParser::Failed { fault } => (
                    QueryState::RestoreMode { saved, outcome: Err(Error::ParseError(fault)) },
                    Action::SetMode { lflag: saved },
                ),
                p => (QueryState::AwaitReply { saved, parser: p }, Action::ReadByte),
            }
        },
        (QueryState::AwaitReply { saved, .. }, _) => (
            QueryState::RestoreMode { saved, outcome: Err(Error::IOError) },
            Action::SetMode { lflag: saved },
        ),
        (QueryState::RestoreMode { outcome, .. }, Event::Succeeded) => (
            QueryState::Finished { outcome },
            Action::Finish { outcome },
        ),
        (QueryState::RestoreMode { .. }, _) => (
            QueryState::Finished { outcome: Err(Error::IOError) },
            Action::Finish { outcome: Err(Error::IOError) },
        ),
        (QueryState::Finished { outcome }, _) => (
            QueryState::Finished { outcome },
            Action::Finish { outcome },
        ),
    }
}

/// The state a query session begins in, and the first thing to do.
pub fn query_start() -> (r: (QueryState, Action))
    ensures
        r.0 == QueryState::TakeSnapshot,
        r.1 == Action::ReadMode,
{
    (QueryState::TakeSnapshot, Action::ReadMode)
}

/// Whether `ev` is an answer the state can take.
pub fn event_accepted(s: &QueryState, ev: &Event) -> (b: bool)
    ensures
        b == accepts(*s, *ev),
{
    match s {
        QueryState::TakeSnapshot => matches!(ev, Event::Mode { .. } | Event::Failed),
        QueryState::EnterRaw { .. } => matches!(ev, Event::Succeeded | Event::Failed),
        QueryState::SendQuery { .. } => matches!(ev, Event::Succeeded | Event::Failed),
        QueryState::AwaitReply { .. } => matches!(ev, Event::Byte { .. } | Event::Failed),
        QueryState::RestoreMode { .. } => matches!(ev, Event::Succeeded | Event::Failed),
        QueryState::Finished { .. } => false,
    }
}

/// Advances the session by one answered action.
pub fn query_step(s: QueryState, ev: Event, m: ModeMasks) -> (r: (QueryState, Action))
    requires
        accepts(s, ev),
    ensures
        r == spec_query_step(s, ev, m),
{
    match (s, ev) {
        (QueryState::TakeSnapshot, Event::Mode { lflag }) => (
            QueryState::EnterRaw { saved: lflag },
            Action::SetMode { lflag: raw_lflag(lflag, m) },
        ),
        (QueryState::TakeSnapshot, _) => (
            QueryState::Finished { outcome: Err(Error::IOError) },
            Action::Finish { outcome: Err(Error::IOError) },
        ),
        (QueryState::EnterRaw { saved }, Event::Succeeded) => (
            QueryState::SendQuery { saved },
            Action::WriteQuery,
        ),
        (QueryState::EnterRaw { saved }, _) => (
            QueryState::RestoreMode { saved, outcome: Err(Error::IOError) },
            Action::SetMode { lflag: saved },
        ),
        (QueryState::SendQuery { saved }, Event::Succeeded) => (
            QueryState::AwaitReply { saved, parser: ReplyParser::ExpectEsc },
            Action::ReadByte,
        ),
        (QueryState::SendQuery { saved }, _) => (
            QueryState::RestoreMode { saved, outcome: Err(Error::IOError) },
            Action::SetMode { lflag: saved },
        ),
        (QueryState::AwaitReply { saved, parser }, Event::Byte { value }) => {
            match crate::reply::step(parser, value) {
                ReplyParser::Done { col, row } => (
                    QueryState::RestoreMode { saved, outcome: Ok(Pos { col, row }) },
                    Action::SetMode { lflag: saved },
                ),
                ReplyParser::Failed { fault } => (
                    QueryState::RestoreMode { saved, outcome: Err(Error::ParseError(fault)) },
                    Action::SetMode { lflag: saved },
                ),
                p => (QueryState::AwaitReply { saved, parser: p }, Action::ReadByte),
            }
        },
        (QueryState::AwaitReply { saved, .. }, _) => (
            QueryState::RestoreMode { saved, outcome: Err(Error::IOError) },
            Action::SetMode { lflag: saved },
        ),
        (QueryState::RestoreMode { outcome, .. }, Event::Succeeded) => (
            QueryState::Finished { outcome },
            Action::Finish { outcome },
        ),
        (QueryState::RestoreMode { .. }, _) => (
            QueryState::Finished { outcome: Err(Error::IOError) },
            Action::Finish { outcome: Err(Error::IOError) },
        ),
        (QueryState::Finished { outcome }, _) => (
            QueryState::Finished { outcome },
            Action::Finish { outcome },
        ),
    }
}

/// The snapshot a state holds, if it holds one.
pub open spec fn saved_mode(s: QueryState) -> Option<u32> {
    match s {
        QueryState::TakeSnapshot => None,
        QueryState::EnterRaw { saved } => Some(saved),
        QueryState::SendQuery { saved } => Some(saved),
        QueryState::AwaitReply { saved, .. } => Some(saved),
        QueryState::RestoreMode { saved, .. } => Some(saved),
        QueryState::Finished { .. } => None,
    }
}

/// The snapshot never changes while the session holds one: whatever mode
/// word was captured at the start is the one every later state carries.
pub proof fn lemma_snapshot_carried(s: QueryState, ev: Event, m: ModeMasks)
    requires
        accepts(s, ev),
        saved_mode(s) is Some,
    ensures
        ({
            let (s2, _) = spec_query_step(s, ev, m);
            saved_mode(s2) is Some ==> saved_mode(s2) == saved_mode(s)
        }),
{
}

/// While the session holds the snapshot, it finishes only out of the
/// restoring state: no state that has changed the terminal's mode can
/// end the session without first issuing the restore.
pub proof fn lemma_finish_only_after_restore(s: QueryState, ev: Event, m: ModeMasks)
    requires
        accepts(s, ev),
        saved_mode(s) is Some,
        !(s is RestoreMode),
    ensures
        !(spec_query_step(s, ev, m).0 is Finished),
{
}

/// The restoring state is entered only by an action that sets the mode
/// to exactly the snapshot the session captured.
pub proof fn lemma_restore_uses_snapshot(s: QueryState, ev: Event, m: ModeMasks)
    requires
        accepts(s, ev),
    ensures
        ({
            let (s2, a) = spec_query_step(s, ev, m);
            s2 matches QueryState::RestoreMode { saved, .. }
                ==> a == (Action::SetMode { lflag: saved }) && saved_mode(s) == Some(saved)
        }),
{
}

/// The state after answering a whole sequence of actions.
pub open spec fn spec_query_run(s: QueryState, evs: Seq<Event>, m: ModeMasks) -> QueryState
    decreases evs.len(),
{
    if evs.len() == 0 {
        s
    } else {
        spec_query_run(spec_query_step(s, evs[0], m).0, evs.skip(1), m)
    }
}

/// The actions a session issues along a sequence of answers.
pub open spec fn spec_query_actions(s: QueryState, evs: Seq<Event>, m: ModeMasks) -> Seq<Action>
    decreases evs.len(),
{
    if evs.len() == 0 {
        Seq::empty()
    } else {
        seq![spec_query_step(s, evs[0], m).1]
            + spec_query_actions(spec_query_step(s, evs[0], m).0, evs.skip(1), m)
    }
}

/// Every event along the way answers the state it arrives in.
pub open spec fn accepted_trace(s: QueryState, evs: Seq<Event>, m: ModeMasks) -> bool
    decreases evs.len(),
{
    evs.len() == 0
        || (accepts(s, evs[0]) && accepted_trace(spec_query_step(s, evs[0], m).0, evs.skip(1), m))
}

proof fn lemma_saved_trace(s: QueryState, evs: Seq<Event>, m: ModeMasks, l: u32)
    requires
        accepted_trace(s, evs, m),
        saved_mode(s) == Some(l),
        spec_query_run(s, evs, m) is Finished,
    ensures
        ({
            let acts = spec_query_actions(s, evs, m);
            if s is RestoreMode {
                forall|j: int| 0 <= j < acts.len() ==> !(#[trigger] acts[j] is SetMode)
            } else {
                exists|i: int|
                    0 <= i < acts.len()
                    && (#[trigger] acts[i]) == (Action::SetMode { lflag: l })
                    && (forall|j: int|
                        0 <= j < acts.len() && j != i ==> !(#[trigger] acts[j] is SetMode))
            }
        }),
    decreases evs.len(),
{
    if evs.len() == 0 {
        assert(spec_query_run(s, evs, m) == s);
        assert(false);
    } else {
        let ev0 = evs[0];
        let rest = evs.skip(1);
        let s2 = spec_query_step(s, ev0, m).0;
        let a = spec_query_step(s, ev0, m).1;
        let acts = spec_query_actions(s, evs, m);
        let acts2 = spec_query_actions(s2, rest, m);
        assert(acts == seq![a] + acts2);
        assert(acts.len() == 1 + acts2.len());
        assert(acts[0] == a);
        assert(forall|j: int| 1 <= j < acts.len() ==> acts[j] == acts2[j - 1]);
        if s is RestoreMode {
            // The only step out of the restoring state ends the session,
            // and an accepted trace carries no event past the end.
            assert(s2 is Finished);
            assert(accepted_trace(s2, rest, m));
            if rest.len() > 0 {
                assert(accepts(s2, rest[0]) && accepted_trace(
                    spec_query_step(s2, rest[0], m).0,
                    rest.skip(1),
                    m,
                ));
                assert(!accepts(s2, rest[0]));
                assert(false);
            }
            assert(acts =~= seq![a]);
            assert(!(a is SetMode));
        } else {
            assert(saved_mode(s2) == Some(l));
            lemma_saved_trace(s2, rest, m, l);
            if s2 is RestoreMode {
                assert(a == (Action::SetMode { lflag: l }));
                assert(forall|j: int| 0 < j < acts.len() ==> !(#[trigger] acts[j] is SetMode));
                assert(
                    0 <= 0 < acts.len()
                    && acts[0] == (Action::SetMode { lflag: l })
                    && (forall|j: int|
                        0 <= j < acts.len() && j != 0 ==> !(#[trigger] acts[j] is SetMode))
                );
            } else {
                assert(!(a is SetMode));
                let i0 = choose|i: int|
                    0 <= i < acts2.len()
                    && (#[trigger] acts2[i]) == (Action::SetMode { lflag: l })
                    && (forall|j: int|
                        0 <= j < acts2.len() && j != i ==> !(#[trigger] acts2[j] is SetMode));
                assert(acts[i0 + 1] == acts2[i0]);
                assert(forall|j: int|
                    0 <= j < acts.len() && j != i0 + 1 ==> !(#[trigger] acts[j] is SetMode));
                assert(
                    0 <= i0 + 1 < acts.len()
                    && acts[i0 + 1] == (Action::SetMode { lflag: l })
                    && (forall|j: int|
                        0 <= j < acts.len() && j != i0 + 1 ==> !(#[trigger] acts[j] is SetMode))
                );
            }
        }
    }
}

/// Restoration on every exit path, over whole sessions: however a query
/// session that captured the snapshot `l` plays out — clean reply,
/// malformed reply, or a failed read, write or mode change — it issues
/// exactly two mode-set actions: first the switch to the transient raw
/// word, last the restore of exactly `l`, and no other action in the
/// whole session touches the mode. The snapshot is taken once and
/// restored exactly once.
pub proof fn lemma_query_restores_snapshot(evs: Seq<Event>, m: ModeMasks)
    requires
        accepted_trace(QueryState::TakeSnapshot, evs, m),
        spec_query_run(QueryState::TakeSnapshot, evs, m) is Finished,
        evs.len() > 0,
        evs[0] is Mode,
    ensures
        ({
            let acts = spec_query_actions(QueryState::TakeSnapshot, evs, m);
            let l = evs[0]->Mode_lflag;
            &&& acts.len() > 0
            &&& acts[0] == (Action::SetMode { lflag: spec_raw_lflag(l, m) })
            &&& exists|i: int|
                0 < i < acts.len()
                && (#[trigger] acts[i]) == (Action::SetMode { lflag: l })
                && (forall|j: int|
                    0 < j < acts.len() && j != i ==> !(#[trigger] acts[j] is SetMode))
        }),
{
    let l = evs[0]->Mode_lflag;
    let rest = evs.skip(1);
    let s2 = spec_query_step(QueryState::TakeSnapshot, evs[0], m).0;
    let acts = spec_query_actions(QueryState::TakeSnapshot, evs, m);
    let acts2 = spec_query_actions(s2, rest, m);
    assert(s2 == (QueryState::EnterRaw { saved: l }));
    assert(acts == seq![spec_query_step(QueryState::TakeSnapshot, evs[0], m).1] + acts2);
    assert(acts[0] == (Action::SetMode { lflag: spec_raw_lflag(l, m) }));
    assert(forall|j: int| 1 <= j < acts.len() ==> acts[j] == acts2[j - 1]);
    lemma_saved_trace(s2, rest, m, l);
    let i0 = choose|i: int|
        0 <= i < acts2.len()
        && (#[trigger] acts2[i]) == (Action::SetMode { lflag: l })
        && (forall|j: int|
            0 <= j < acts2.len() && j != i ==> !(#[trigger] acts2[j] is SetMode));
    assert(acts[i0 + 1] == acts2[i0]);
    assert(forall|j: int|
        0 < j < acts.len() && j != i0 + 1 ==> !(#[trigger] acts[j] is SetMode));
    assert(
        0 < i0 + 1 < acts.len()
        && acts[i0 + 1] == (Action::SetMode { lflag: l })
        && (forall|j: int|
            0 < j < acts.len() && j != i0 + 1 ==> !(#[trigger] acts[j] is SetMode))
    );
}

/// A malformed reply byte ends the reading phase with a parse error and
/// the restore action, never with the terminal left in raw mode: the
/// session moves to the restoring state, its verdict is the parser's
/// fault, and the action it issues re-applies the snapshot.
pub proof fn lemma_malformed_reply_restores(saved: u32, parser: ReplyParser, value: u8, m: ModeMasks)
    requires
        spec_step(parser, value) is Failed,
    ensures
        ({
            let (s2, a) = spec_query_step(
                QueryState::AwaitReply { saved, parser },
                Event::Byte { value },
                m,
            );
            &&& s2 == (QueryState::RestoreMode {
                saved,
                outcome: Err(Error::ParseError(spec_step(parser, value)->Failed_fault)),
            })
            &&& a == (Action::SetMode { lflag: saved })
        }),
{
}

} // verus!
