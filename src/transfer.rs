//! One transfer: resume a file from its length on disk up to the size that
//! the remote declares. The decisions are a state machine; whoever runs it
//! performs each action (open the file, probe, stream, flush) and reports
//! what happened as the next event.
use vstd::prelude::*;
use crate::decimal::{is_numeral, numeral_value, parse_numeral};
use crate::errors::ErrorKind;

verus! {

/// Where a transfer stands.
#[derive(Clone, Copy, Debug, PartialEq, Eq)]
pub enum TransferPhase {
    /// The target file is being created or opened for append.
    Opening,
    /// The file holds `on_disk` bytes; the size of the remote is asked.
    Probing { on_disk: u64 },
    /// Bytes arrive for a resource of `total` bytes; `transferred` of them
    /// are on disk, counted up to `total`.
    Streaming { total: u64, transferred: u64 },
    /// The body has ended; the file is being flushed.
    Flushing { total: u64, transferred: u64 },
    /// The transfer is over.
    Finished { result: Result<(), ErrorKind> },
}

/// What happened since the last action.
#[derive(Debug, PartialEq, Eq)]
pub enum TransferEvent {
    /// The file is open for append and holds `len` bytes.
    Opened { len: u64 },
    /// The probe was answered; `length` is its size header, if any.
    ProbeAnswered { length: Option<String> },
    /// A chunk of `len` bytes arrived and was appended to the file.
    ChunkWritten { len: u64 },
    /// The body has no more chunks.
    StreamEnded,
    /// The file reached stable storage.
    Flushed,
    /// The step in progress failed.
    Failed { kind: ErrorKind },
}

/// What to do next.
#[derive(Clone, Copy, Debug, PartialEq, Eq)]
pub enum TransferAction {
    /// Create the parent directories, then open the file for append (or
    /// create it) and report its length.
    OpenFile,
    /// Ask the remote for its size.
    Probe,
    /// The file already holds the whole resource: report `total` bytes done.
    AlreadyComplete { total: u64 },
    /// Ask for the bytes from `offset` to the end; `offset` of `total` are
    /// already there.
    RequestRange { offset: u64, total: u64 },
    /// Report progress.
    Progress { transferred: u64, total: u64 },
    /// Flush the file.
    Flush,
    /// The transfer is over with this result.
    Finish { result: Result<(), ErrorKind> },
    /// Nothing: the event did not fit the phase.
    Wait,
}

/// The size that a size header declares: a numeral within `u64`.
pub open spec fn declared_length(h: Option<Seq<char>>) -> Option<u64> {
    match h {
        Some(s) => if is_numeral(s) && numeral_value(s) <= u64::MAX {
            Some(numeral_value(s) as u64)
        } else {
            None
        },
        None => None,
    }
}

/// Reads the size header of a probe's answer; a missing or unreadable one
/// is `MissingLength`.
pub fn content_length(header: Option<&str>) -> (r: Result<u64, ErrorKind>)
    ensures
        match declared_length(
            match header {
                Some(h) => Some(h@),
                None => None,
            },
        ) {
            Some(t) => r == Ok::<u64, ErrorKind>(t),
            None => r == Err::<u64, ErrorKind>(ErrorKind::MissingLength),
        },
{
    match header {
        Some(h) => {
            let n = h.unicode_len();
            match parse_numeral(h, 0, n, u64::MAX) {
                Some(t) => {
                    assert(h@.subrange(0, n as int) =~= h@);
                    Ok(t)
                },
                None => {
                    assert(h@.subrange(0, n as int) =~= h@);
                    Err(ErrorKind::MissingLength)
                },
            }
        },
        None => Err(ErrorKind::MissingLength),
    }
}

/// The characters of a size header, if there is one.
pub open spec fn header_view(h: Option<String>) -> Option<Seq<char>> {
    match h {
        Some(s) => Some(s@),
        None => None,
    }
}

/// The smaller of `a` and `b`.
pub open spec fn min_u64(a: int, b: u64) -> u64 {
    if a < b {
        a as u64
    } else {
        b
    }
}

/// The transfer ends with `result`.
pub open spec fn finish(result: Result<(), ErrorKind>) -> (TransferPhase, TransferAction) {
    (TransferPhase::Finished { result }, TransferAction::Finish { result })
}

/// The transition of the transfer machine.
pub open spec fn spec_next(p: TransferPhase, e: TransferEvent) -> (TransferPhase, TransferAction) {
    match p {
        TransferPhase::Finished { .. } => (p, TransferAction::Wait),
        _ => match e {
            TransferEvent::Failed { kind } => finish(Err(kind)),
            _ => match (p, e) {
                (TransferPhase::Opening, TransferEvent::Opened { len }) => (
                    TransferPhase::Probing { on_disk: len },
                    TransferAction::Probe,
                ),
                (TransferPhase::Probing { on_disk }, TransferEvent::ProbeAnswered { length }) => {
                    match declared_length(header_view(length)) {
                        None => finish(Err(ErrorKind::MissingLength)),
                        Some(total) => if on_disk >= total {
                            (
                                TransferPhase::Finished { result: Ok(()) },
                                TransferAction::AlreadyComplete { total },
                            )
                        } else {
                            (
                                TransferPhase::Streaming { total, transferred: on_disk },
                                TransferAction::RequestRange { offset: on_disk, total },
                            )
                        },
                    }
                },
                (
                    TransferPhase::Streaming { total, transferred },
                    TransferEvent::ChunkWritten { len },
                ) => {
                    let t = min_u64(transferred + len, total);
                    (
                        TransferPhase::Streaming { total, transferred: t },
                        TransferAction::Progress { transferred: t, total },
                    )
                },
                (TransferPhase::Streaming { total, transferred }, TransferEvent::StreamEnded) => (
                    TransferPhase::Flushing { total, transferred },
                    TransferAction::Flush,
                ),
                (TransferPhase::Flushing { total, transferred }, TransferEvent::Flushed) => {
                    if transferred >= total {
                        finish(Ok(()))
                    } else {
                        finish(Err(ErrorKind::IncompleteStream))
                    }
                },
                _ => (p, TransferAction::Wait),
            },
        },
    }
}

/// The counted bytes never exceed the declared size.
pub open spec fn phase_wf(p: TransferPhase) -> bool {
    match p {
        TransferPhase::Streaming { total, transferred } => transferred <= total,
        TransferPhase::Flushing { total, transferred } => transferred <= total,
        _ => true,
    }
}

/// The bytes counted so far in a phase.
pub open spec fn counted(p: TransferPhase) -> Option<u64> {
    match p {
        TransferPhase::Streaming { transferred, .. } => Some(transferred),
        TransferPhase::Flushing { transferred, .. } => Some(transferred),
        _ => None,
    }
}

impl TransferPhase {
    /// A transfer begins by opening its file.
    pub fn start() -> (r: (TransferPhase, TransferAction))
        ensures
            r == (TransferPhase::Opening, TransferAction::OpenFile),
    {
        (TransferPhase::Opening, TransferAction::OpenFile)
    }

    /// Whether the transfer is over.
    pub fn is_finished(&self) -> (r: bool)
        ensures
            r == (*self is Finished),
    {
        match self {
            TransferPhase::Finished { .. } => true,
            _ => false,
        }
    }

    /// Takes one event and returns the next phase and action. The count of
    /// transferred bytes never decreases and never passes the declared size.
    pub fn next(&self, e: &TransferEvent) -> (r: (TransferPhase, TransferAction))
        requires
            phase_wf(*self),
        ensures
            r == spec_next(*self, *e),
            phase_wf(r.0),
            counted(*self) is Some && counted(r.0) is Some ==> counted(*self).unwrap()
                <= counted(r.0).unwrap(),
    {
        if self.is_finished() {
            return (*self, TransferAction::Wait);
        }
        if let TransferEvent::Failed { kind } = e {
            return (
                TransferPhase::Finished { result: Err(*kind) },
                TransferAction::Finish { result: Err(*kind) },
            );
        }
        match (self, e) {
            (TransferPhase::Opening, TransferEvent::Opened { len }) => (
                TransferPhase::Probing { on_disk: *len },
                TransferAction::Probe,
            ),
            (TransferPhase::Probing { on_disk }, TransferEvent::ProbeAnswered { length }) => {
                let header: Option<&str> = match length {
                    Some(s) => Some(s.as_str()),
                    None => None,
                };
                match content_length(header) {
                    Err(kind) => (
                        TransferPhase::Finished { result: Err(kind) },
                        TransferAction::Finish { result: Err(kind) },
                    ),
                    Ok(total) => {
                        if *on_disk >= total {
                            (
                                TransferPhase::Finished { result: Ok(()) },
                                TransferAction::AlreadyComplete { total },
                            )
                        } else {
                            (
                                TransferPhase::Streaming { total, transferred: *on_disk },
                                TransferAction::RequestRange { offset: *on_disk, total },
                            )
                        }
                    },
                }
            },
            (TransferPhase::Streaming { total, transferred }, TransferEvent::ChunkWritten { len }) => {
                let t: u64 = if *len < *total - *transferred {
                    *transferred + *len
                } else {
                    *total
                };
                (
                    TransferPhase::Streaming { total: *total, transferred: t },
                    TransferAction::Progress { transferred: t, total: *total },
                )
            },
            (TransferPhase::Streaming { total, transferred }, TransferEvent::StreamEnded) => (
                TransferPhase::Flushing { total: *total, transferred: *transferred },
                TransferAction::Flush,
            ),
            (TransferPhase::Flushing { total, transferred }, TransferEvent::Flushed) => {
                let result: Result<(), ErrorKind> = if *transferred >= *total {
                    Ok(())
                } else {
                    Err(ErrorKind::IncompleteStream)
                };
                (TransferPhase::Finished { result }, TransferAction::Finish { result })
            },
            _ => (*self, TransferAction::Wait),
        }
    }
}

/// The phase after each event of `es` in turn.
pub open spec fn run(p: TransferPhase, es: Seq<TransferEvent>) -> TransferPhase
    decreases es.len(),
{
    if es.len() == 0 {
        p
    } else {
        run(spec_next(p, es[0]).0, es.skip(1))
    }
}

/// The actions taken on the events of `es`, in order.
pub open spec fn run_actions(p: TransferPhase, es: Seq<TransferEvent>) -> Seq<TransferAction>
    decreases es.len(),
{
    if es.len() == 0 {
        Seq::empty()
    } else {
        seq![spec_next(p, es[0]).1] + run_actions(spec_next(p, es[0]).0, es.skip(1))
    }
}

/// One `ChunkWritten` event for each chunk length.
pub open spec fn chunk_events(lens: Seq<u64>) -> Seq<TransferEvent> {
    lens.map_values(|n: u64| TransferEvent::ChunkWritten { len: n })
}

/// The sum of the chunk lengths.
pub open spec fn total_len(lens: Seq<u64>) -> nat
    decreases lens.len(),
{
    if lens.len() == 0 {
        0
    } else {
        lens[0] as nat + total_len(lens.skip(1))
    }
}

/// The first event taken as a pair.
pub open spec fn opened_and_probed(len: u64, header: Option<String>) -> Seq<TransferEvent> {
    seq![TransferEvent::Opened { len }, TransferEvent::ProbeAnswered { length: header }]
}

proof fn lemma_run_append(p: TransferPhase, a: Seq<TransferEvent>, b: Seq<TransferEvent>)
    ensures
        run(p, a + b) == run(run(p, a), b),
    decreases a.len(),
{
    if a.len() == 0 {
        assert(a + b =~= b);
    } else {
        assert((a + b)[0] == a[0]);
        assert((a + b).skip(1) =~= a.skip(1) + b);
        lemma_run_append(spec_next(p, a[0]).0, a.skip(1), b);
    }
}

proof fn lemma_stream_chunks(total: u64, transferred: u64, lens: Seq<u64>)
    requires
        transferred <= total,
    ensures
        run(TransferPhase::Streaming { total, transferred }, chunk_events(lens))
            == (TransferPhase::Streaming {
            total,
            transferred: min_u64(transferred + total_len(lens), total),
        }),
    decreases lens.len(),
{
    let es = chunk_events(lens);
    if lens.len() == 0 {
        assert(es.len() == 0);
    } else {
        assert(es[0] == TransferEvent::ChunkWritten { len: lens[0] });
        assert(es.skip(1) =~= chunk_events(lens.skip(1)));
        let t = min_u64(transferred + lens[0], total);
        lemma_stream_chunks(total, t, lens.skip(1));
    }
}

/// A file that already holds the size that the probe declares is left as it
/// is: the transfer asks for no bytes and succeeds. Nothing is kept between
/// runs, so running it again on that file does exactly the same.
pub proof fn lemma_complete_file_untouched(len: u64, header: String)
    requires
        declared_length(Some(header@)) is Some,
        len >= declared_length(Some(header@)).unwrap(),
    ensures
        run(TransferPhase::Opening, opened_and_probed(len, Some(header)))
            == (TransferPhase::Finished { result: Ok(()) }),
        run_actions(TransferPhase::Opening, opened_and_probed(len, Some(header))) == seq![
            TransferAction::Probe,
            TransferAction::AlreadyComplete { total: declared_length(Some(header@)).unwrap() },
        ],
{
    reveal_with_fuel(run, 3);
    reveal_with_fuel(run_actions, 3);
    let es = opened_and_probed(len, Some(header));
    assert(es.skip(1).skip(1) =~= Seq::<TransferEvent>::empty());
    assert(es.skip(1)[0] == es[1]);
    assert(run_actions(TransferPhase::Opening, es) =~= seq![
        TransferAction::Probe,
        TransferAction::AlreadyComplete { total: declared_length(Some(header@)).unwrap() },
    ]);
}

/// Resuming: from a file of `len` bytes, short of the declared size `t`, the
/// transfer asks for the bytes from offset `len` to the end, and after the
/// body ends and the file is flushed it succeeds exactly when the chunks
/// that arrived make up the rest of the `t` bytes (else the body was cut
/// short). A shortened file is resumed from its new length in the same way.
pub proof fn lemma_resume(len: u64, header: String, lens: Seq<u64>)
    requires
        declared_length(Some(header@)) is Some,
        len < declared_length(Some(header@)).unwrap(),
    ensures
        ({
            let t = declared_length(Some(header@)).unwrap();
            &&& run_actions(TransferPhase::Opening, opened_and_probed(len, Some(header)))[1]
                == (TransferAction::RequestRange { offset: len, total: t })
            &&& run(
                TransferPhase::Opening,
                opened_and_probed(len, Some(header)) + chunk_events(lens) + seq![
                    TransferEvent::StreamEnded,
                    TransferEvent::Flushed,
                ],
            ) == (TransferPhase::Finished {
                result: if len + total_len(lens) >= t {
                    Ok(())
                } else {
                    Err(ErrorKind::IncompleteStream)
                },
            })
        }),
{
    reveal_with_fuel(run, 3);
    reveal_with_fuel(run_actions, 3);
    let t = declared_length(Some(header@)).unwrap();
    let head = opened_and_probed(len, Some(header));
    let tail: Seq<TransferEvent> = seq![TransferEvent::StreamEnded, TransferEvent::Flushed];
    assert(head.skip(1)[0] == head[1]);
    assert(head.skip(1).skip(1) =~= Seq::<TransferEvent>::empty());
    let streaming = TransferPhase::Streaming { total: t, transferred: len };
    assert(run(TransferPhase::Opening, head) == streaming);
    lemma_run_append(TransferPhase::Opening, head, chunk_events(lens));
    lemma_stream_chunks(t, len, lens);
    lemma_run_append(TransferPhase::Opening, head + chunk_events(lens), tail);
    let after = TransferPhase::Streaming {
        total: t,
        transferred: min_u64(len + total_len(lens), t),
    };
    assert(tail.skip(1)[0] == tail[1]);
    assert(tail.skip(1).skip(1) =~= Seq::<TransferEvent>::empty());
    assert(run(after, tail) == run(
        TransferPhase::Flushing { total: t, transferred: min_u64(len + total_len(lens), t) },
        tail.skip(1),
    ));
}

/// Running twice: once a resumed transfer has received the rest of the
/// declared size and succeeded, a second run on the file it left (which
/// holds `len` plus the received bytes) asks for no bytes and succeeds too.
pub proof fn lemma_second_run_fetches_nothing(len: u64, header: String, lens: Seq<u64>)
    requires
        declared_length(Some(header@)) is Some,
        len < declared_length(Some(header@)).unwrap(),
        len + total_len(lens) >= declared_length(Some(header@)).unwrap(),
        len + total_len(lens) <= u64::MAX,
    ensures
        run(
            TransferPhase::Opening,
            opened_and_probed(len, Some(header)) + chunk_events(lens) + seq![
                TransferEvent::StreamEnded,
                TransferEvent::Flushed,
            ],
        ) == (TransferPhase::Finished { result: Ok(()) }),
        run(
            TransferPhase::Opening,
            opened_and_probed((len + total_len(lens)) as u64, Some(header)),
        ) == (TransferPhase::Finished { result: Ok(()) }),
        run_actions(
            TransferPhase::Opening,
            opened_and_probed((len + total_len(lens)) as u64, Some(header)),
        ) == seq![
            TransferAction::Probe,
            TransferAction::AlreadyComplete { total: declared_length(Some(header@)).unwrap() },
        ],
{
    lemma_resume(len, header, lens);
    lemma_complete_file_untouched((len + total_len(lens)) as u64, header);
}

/// A probe whose answer has no size header ends the transfer with
/// `MissingLength`, whatever the file holds.
pub proof fn lemma_missing_length(len: u64)
    ensures
        run(TransferPhase::Opening, opened_and_probed(len, None))
            == (TransferPhase::Finished { result: Err(ErrorKind::MissingLength) }),
{
    reveal_with_fuel(run, 3);
    let es = opened_and_probed(len, None);
    assert(es.skip(1)[0] == es[1]);
    assert(es.skip(1).skip(1) =~= Seq::<TransferEvent>::empty());
}

} // verus!
