use vstd::prelude::*;

use crate::json::redacted;
use crate::sanitize::sanitized;
use crate::types::{error_text, ErrorEvent, HandlerError, LogEvent, Severity, MAX_MESSAGE_LEN};

verus! {

/// The persistence path of an event: the log alone, or the relational store
/// and then the log.
#[derive(Clone, Copy, Debug, PartialEq, Eq, Structural)]
pub enum Tier {
    LogOnly,
    Database,
}

/// Where an event stands on its path.
pub enum Phase {
    /// The event is being recorded in the buffer.
    Buffering,
    /// Its message text is being inserted in the store.
    InsertingMessage,
    /// Its record is being inserted in the store.
    InsertingError,
    /// It is being appended to the log.
    Logging,
    /// The store failed with this error; the event is being appended to the
    /// fallback file.
    FallingBack(HandlerError),
    /// The call is over.
    Finished,
}

/// What the caller is to do next with the event.
pub enum Step {
    /// Record the event in the buffer.
    Buffer,
    /// Insert the event's message text in the store, keeping the identifier.
    InsertMessage,
    /// Insert the event's record in the store, under that identifier.
    InsertError,
    /// Append the encoded event to the log.
    WriteLog,
    /// Append the encoded event to the fallback file.
    WriteFallback,
    /// Return this result to the caller.
    Finish(Result<(), HandlerError>),
}

/// How the last step went.
pub enum Reply {
    Done,
    Failed(HandlerError),
}

/// The state of one event's way through the pipeline.
pub struct Flow {
    pub tier: Tier,
    pub phase: Phase,
}

/// The path that an error event of this severity takes.
pub open spec fn tier_of(severity: Severity) -> Tier {
    if severity == Severity::WM {
        Tier::LogOnly
    } else {
        Tier::Database
    }
}

/// A failure of the store, as the caller sees it.
pub open spec fn as_db_error(e: HandlerError) -> HandlerError {
    HandlerError::Db(error_text(e))
}

/// What the caller sees of the log write.
pub open spec fn log_result(r: Reply) -> Result<(), HandlerError> {
    match r {
        Reply::Done => Ok(()),
        Reply::Failed(e) => Err(e),
    }
}

/// The next state and step, given how the last step went.
pub open spec fn next(f: Flow, r: Reply) -> (Flow, Step) {
    match f.phase {
        Phase::Buffering => if f.tier == Tier::LogOnly {
            (Flow { tier: f.tier, phase: Phase::Logging }, Step::WriteLog)
        } else {
            (Flow { tier: f.tier, phase: Phase::InsertingMessage }, Step::InsertMessage)
        },
        Phase::InsertingMessage => match r {
            Reply::Done => (Flow { tier: f.tier, phase: Phase::InsertingError }, Step::InsertError),
            Reply::Failed(e) => (
                Flow { tier: f.tier, phase: Phase::FallingBack(as_db_error(e)) },
                Step::WriteFallback,
            ),
        },
        Phase::InsertingError => match r {
            Reply::Done => (Flow { tier: f.tier, phase: Phase::Logging }, Step::WriteLog),
            Reply::Failed(e) => (
                Flow { tier: f.tier, phase: Phase::FallingBack(as_db_error(e)) },
                Step::WriteFallback,
            ),
        },
        Phase::FallingBack(e) => (Flow { tier: f.tier, phase: Phase::Finished }, Step::Finish(Err(e))),
        Phase::Logging => (Flow { tier: f.tier, phase: Phase::Finished }, Step::Finish(log_result(r))),
        // a finished call takes no further reply; this arm only makes the map total
        Phase::Finished => (f, Step::Finish(Ok(()))),
    }
}

/// The steps that follow from a state when the replies come in this order, up
/// to and including the step that finishes the call.
pub open spec fn run(f: Flow, replies: Seq<Reply>) -> Seq<Step>
    decreases replies.len(),
{
    if replies.len() == 0 || f.phase is Finished {
        Seq::empty()
    } else {
        let (g, s) = next(f, replies[0]);
        seq![s] + run(g, replies.drop_first())
    }
}

/// True when the step calls on the relational store.
pub open spec fn is_db_step(s: Step) -> bool {
    s is InsertMessage || s is InsertError
}

/// The state in which an accepted event of this tier starts.
pub open spec fn start(tier: Tier) -> Flow {
    Flow { tier, phase: Phase::Buffering }
}

fn into_db_error(e: HandlerError) -> (r: HandlerError)
    ensures
        r == as_db_error(e),
{
    match e {
        HandlerError::Validation(t) => HandlerError::Db(t),
        HandlerError::Io(t) => HandlerError::Db(t),
        HandlerError::Db(t) => HandlerError::Db(t),
        HandlerError::Json(t) => HandlerError::Db(t),
        HandlerError::RateLimited(t) => HandlerError::Db(t),
    }
}

fn rejected() -> (r: (Flow, Step))
    ensures
        r.0.phase is Finished,
        r.1 is Finish,
        r.1->Finish_0 is Err,
        r.1->Finish_0->Err_0 is Validation,
{
    (
        Flow { tier: Tier::LogOnly, phase: Phase::Finished },
        Step::Finish(Err(HandlerError::Validation(String::from_str("Empty message")))),
    )
}

impl Flow {
    /// Takes in an informational event: cleans and cuts its message, and
    /// refuses it when no message is left; else the event goes to the buffer
    /// and then to the log.
    pub fn begin_info(evt: &mut LogEvent) -> (r: (Flow, Step))
        ensures
            final(evt).message@ == sanitized(old(evt).message@, MAX_MESSAGE_LEN as nat),
            *final(evt) == (LogEvent { message: final(evt).message, ..*old(evt) }),
            final(evt).message@.len() == 0 ==> {
                &&& r.0.phase is Finished
                &&& r.1 is Finish
                &&& r.1->Finish_0 is Err
                &&& r.1->Finish_0->Err_0 is Validation
            },
            final(evt).message@.len() > 0 ==> r.0 == start(Tier::LogOnly) && r.1 is Buffer,
            r.0.phase is Finished <==> r.1 is Finish,
    {
        evt.sanitize_and_truncate_message(MAX_MESSAGE_LEN);
        if evt.message.as_str().unicode_len() == 0 {
            return rejected();
        }
        (Flow { tier: Tier::LogOnly, phase: Phase::Buffering }, Step::Buffer)
    }

    /// Takes in a warning or error event: cleans and cuts its message and
    /// refuses it when no message is left; else redacts its context and stack
    /// trace, and the event goes to the buffer and then along its severity's path.
    pub fn begin_error(evt: &mut ErrorEvent) -> (r: (Flow, Step))
        ensures
            final(evt).message@ == sanitized(old(evt).message@, MAX_MESSAGE_LEN as nat),
            final(evt).message@.len() == 0 ==> {
                &&& *final(evt) == (ErrorEvent { message: final(evt).message, ..*old(evt) })
                &&& r.0.phase is Finished
                &&& r.1 is Finish
                &&& r.1->Finish_0 is Err
                &&& r.1->Finish_0->Err_0 is Validation
            },
            final(evt).message@.len() > 0 ==> {
                &&& final(evt).context@ == redacted(old(evt).context@)
                &&& final(evt).stack_trace is Some == old(evt).stack_trace is Some
                &&& old(evt).stack_trace is Some ==> final(evt).stack_trace->Some_0@ == redacted(
                    old(evt).stack_trace->Some_0@,
                )
                &&& *final(evt) == (ErrorEvent {
                    message: final(evt).message,
                    context: final(evt).context,
                    stack_trace: final(evt).stack_trace,
                    ..*old(evt)
                })
                &&& r.0 == start(tier_of(old(evt).severity))
                &&& r.1 is Buffer
            },
            r.0.phase is Finished <==> r.1 is Finish,
    {
        evt.sanitize_and_truncate_message(MAX_MESSAGE_LEN);
        if evt.message.as_str().unicode_len() == 0 {
            return rejected();
        }
        evt.redact_sensitive_data();
        let tier = if evt.severity == Severity::WM {
            Tier::LogOnly
        } else {
            Tier::Database
        };
        (Flow { tier, phase: Phase::Buffering }, Step::Buffer)
    }

    pub fn is_finished(&self) -> (r: bool)
        ensures
            r == self.phase is Finished,
    {
        match self.phase {
            Phase::Finished => true,
            _ => false,
        }
    }

    /// Moves on from the last step, given how it went: the next state, and
    /// what to do next.
    pub fn advance(self, reply: Reply) -> (r: (Flow, Step))
        requires
            !(self.phase is Finished),
        ensures
            r == next(self, reply),
            r.0.phase is Finished <==> r.1 is Finish,
    {
        let tier = self.tier;
        match self.phase {
            Phase::Buffering => {
                if tier == Tier::LogOnly {
                    (Flow { tier, phase: Phase::Logging }, Step::WriteLog)
                } else {
                    (Flow { tier, phase: Phase::InsertingMessage }, Step::InsertMessage)
                }
            },
            Phase::InsertingMessage => match reply {
                Reply::Done => (Flow { tier, phase: Phase::InsertingError }, Step::InsertError),
                Reply::Failed(e) => (
                    Flow { tier, phase: Phase::FallingBack(into_db_error(e)) },
                    Step::WriteFallback,
                ),
            },
            Phase::InsertingError => match reply {
                Reply::Done => (Flow { tier, phase: Phase::Logging }, Step::WriteLog),
                Reply::Failed(e) => (
                    Flow { tier, phase: Phase::FallingBack(into_db_error(e)) },
                    Step::WriteFallback,
                ),
            },
            Phase::FallingBack(e) => (Flow { tier, phase: Phase::Finished }, Step::Finish(Err(e))),
            Phase::Logging => match reply {
                Reply::Done => (Flow { tier, phase: Phase::Finished }, Step::Finish(Ok(()))),
                Reply::Failed(e) => (Flow { tier, phase: Phase::Finished }, Step::Finish(Err(e))),
            },
            Phase::Finished => (Flow { tier, phase: Phase::Finished }, Step::Finish(Ok(()))),
        }
    }
}

/// An accepted warning-minor event never reaches the relational store: after
/// the buffer it is appended to the log once, and the call returns what that
/// append returned.
pub proof fn lemma_log_only_path(replies: Seq<Reply>)
    ensures
        forall|i: int|
            0 <= i < run(start(tier_of(Severity::WM)), replies).len() ==> !is_db_step(
                #[trigger] run(start(tier_of(Severity::WM)), replies)[i],
            ),
        replies.len() >= 2 ==> run(start(tier_of(Severity::WM)), replies) == seq![
            Step::WriteLog,
            Step::Finish(log_result(replies[1])),
        ],
{
    let f0 = start(tier_of(Severity::WM));
    let t = run(f0, replies);
    if replies.len() >= 1 {
        let (f1, s1) = next(f0, replies[0]);
        let r1 = replies.drop_first();
        if r1.len() >= 1 {
            let (f2, s2) = next(f1, r1[0]);
            let r2 = r1.drop_first();
            assert(f2.phase is Finished);
            assert(run(f2, r2) == Seq::<Step>::empty());
            assert(run(f1, r1) =~= seq![s2]);
            assert(t =~= seq![s1, s2]);
        } else {
            assert(run(f1, r1) == Seq::<Step>::empty());
            assert(t =~= seq![s1]);
        }
    }
}

/// An accepted event of any other severity makes exactly one message insert.
/// When it fails, the event goes once to the fallback file and the call
/// returns a store error; else exactly one record insert follows, and when that
/// fails, the same. When both succeed, the event is appended to the log once
/// and the call returns what that append returned.
pub proof fn lemma_database_path(severity: Severity, replies: Seq<Reply>)
    requires
        severity != Severity::WM,
        replies.len() >= 4,
    ensures
        replies[1] is Failed ==> run(start(tier_of(severity)), replies) == seq![
            Step::InsertMessage,
            Step::WriteFallback,
            Step::Finish(Err(as_db_error(replies[1]->Failed_0))),
        ],
        replies[1] is Done && replies[2] is Failed ==> run(start(tier_of(severity)), replies)
            == seq![
            Step::InsertMessage,
            Step::InsertError,
            Step::WriteFallback,
            Step::Finish(Err(as_db_error(replies[2]->Failed_0))),
        ],
        replies[1] is Done && replies[2] is Done ==> run(start(tier_of(severity)), replies)
            == seq![
            Step::InsertMessage,
            Step::InsertError,
            Step::WriteLog,
            Step::Finish(log_result(replies[3])),
        ],
{
    let f0 = start(tier_of(severity));
    let (f1, s1) = next(f0, replies[0]);
    let q1 = replies.drop_first();
    let (f2, s2) = next(f1, q1[0]);
    let q2 = q1.drop_first();
    let (f3, s3) = next(f2, q2[0]);
    let q3 = q2.drop_first();
    if f3.phase is Finished {
        assert(run(f3, q3) == Seq::<Step>::empty());
        assert(run(f2, q2) =~= seq![s3]);
        assert(run(f1, q1) =~= seq![s2, s3]);
        assert(run(f0, replies) =~= seq![s1, s2, s3]);
    } else {
        let (f4, s4) = next(f3, q3[0]);
        let q4 = q3.drop_first();
        assert(f4.phase is Finished);
        assert(run(f4, q4) == Seq::<Step>::empty());
        assert(run(f3, q3) =~= seq![s4]);
        assert(run(f2, q2) =~= seq![s3, s4]);
        assert(run(f1, q1) =~= seq![s2, s3, s4]);
        assert(run(f0, replies) =~= seq![s1, s2, s3, s4]);
    }
}

} // verus!
