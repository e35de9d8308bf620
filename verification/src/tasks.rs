//! The tasks of a connection besides its reader: the writer, the fan-out of its topic, and what
//! becomes of the others when one of them ends.
use bytes::Bytes;
use tokio::sync::mpsc;
use vstd::prelude::*;
use vstd::string::StringExecFns;

use crate::channel::bytes_of;
use crate::channel::OutboundMessage;
use crate::channel::SendOutcome;
use crate::channel::WsFrame;
use crate::channel::WsFrameModel;
use crate::metrics::Metrics;
use crate::server::send_encoded;
use crate::session::Step;
use crate::session::TaskFault;
use crate::state::AppState;

verus! {

/// What a connection's writer comes upon.
#[derive(Debug)]
pub enum WriterEvent {
    /// It is time for a ping.
    Heartbeat,
    /// A message for the client.
    Message(OutboundMessage),
    /// There will be no more messages.
    Closed,
}

/// What a writer writes.
#[derive(Clone, Copy, Debug, PartialEq, Eq, Structural)]
pub enum Written {
    Ping,
    Message,
}

/// The frame that a writer has to write, and what it is. None where the writer is done.
pub fn writer_step(event: WriterEvent) -> (r: Option<(WsFrame, Written)>)
    ensures
        match (event, r) {
            (WriterEvent::Heartbeat, Some((frame, written))) => frame@ == WsFrameModel::Ping(seq![])
                && written == Written::Ping,
            (WriterEvent::Message(message), Some((frame, written))) => frame@ == message@.frame()
                && written == Written::Message,
            (WriterEvent::Closed, None) => true,
            _ => false,
        },
{
    match event {
        WriterEvent::Heartbeat => {
            let frame = WsFrame::Ping(Vec::new());
            assert(frame@ == WsFrameModel::Ping(seq![]));
            Some((frame, Written::Ping))
        },
        WriterEvent::Message(message) => Some((message.into_ws_message(), Written::Message)),
        WriterEvent::Closed => None,
    }
}

/// What a writer does once it has written, or failed to. Only messages count as sent.
pub fn writer_done(metrics: &mut Metrics, written: Written, ok: bool) -> (r: Step)
    ensures
        r == (match (ok, written) {
            (true, _) => Step::Continue,
            (false, Written::Ping) => Step::Fail(TaskFault::Ping),
            (false, Written::Message) => Step::Fail(TaskFault::Message),
        }),
        *final(metrics) == (if ok && written == Written::Message {
            old(metrics).after_message_out()
        } else {
            *old(metrics)
        }),
{
    match written {
        Written::Ping => if ok {
            Step::Continue
        } else {
            Step::Fail(TaskFault::Ping)
        },
        Written::Message => if ok {
            metrics.message_out();
            Step::Continue
        } else {
            Step::Fail(TaskFault::Message)
        },
    }
}

/// What the fan-out of a connection's topic comes upon.
pub enum FanoutEvent {
    /// A message on the topic.
    Message(Bytes),
    /// Messages were missed, because they were read too slowly.
    Lagged,
    /// There will be no more messages.
    Closed,
}

/// What the fan-out of a connection's topic does with what it came upon. A client whose queue takes
/// no more loses its connection; one that missed messages keeps it.
pub fn fanout_step(
    state: &mut AppState,
    queue: &mpsc::Sender<OutboundMessage>,
    event: FanoutEvent,
) -> (r: Step)
    ensures
        match event {
            FanoutEvent::Message(message) => exists|outcome: SendOutcome|
                {
                    &&& final(state)@ == #[trigger] old(state)@.after_send(
                        *queue,
                        bytes_of(message),
                        outcome,
                    )
                    &&& r == (if outcome == SendOutcome::Sent {
                        Step::Continue
                    } else {
                        Step::Fail(TaskFault::Queue)
                    })
                },
            FanoutEvent::Lagged => {
                &&& final(state)@ == old(state)@.counting(old(state)@.metrics.after_drop())
                &&& r == Step::Continue
            },
            FanoutEvent::Closed => final(state)@ == old(state)@ && r == Step::Stop,
        },
        old(state)@.wf() ==> final(state)@.wf(),
{
    match event {
        FanoutEvent::Message(message) => {
            if send_encoded(queue, message, state) {
                Step::Continue
            } else {
                Step::Fail(TaskFault::Queue)
            }
        },
        FanoutEvent::Lagged => {
            state.metrics.message_dropped();
            Step::Continue
        },
        FanoutEvent::Closed => Step::Stop,
    }
}

/// The tasks of a connection.
#[derive(Clone, Copy, Debug, PartialEq, Eq, Structural)]
pub enum ConnectionTask {
    Reader,
    Writer,
    Fanout,
}

/// How a task of a connection is stopped.
#[derive(Clone, Copy, Debug, PartialEq, Eq, Structural)]
pub enum Stopping {
    /// At once.
    Abort,
    /// Once it has dealt with all that is waiting for it.
    Drain,
}

impl ConnectionTask {
    /// The name of the task.
    pub open spec fn spec_name(self) -> Seq<char> {
        match self {
            ConnectionTask::Reader => "reader"@,
            ConnectionTask::Writer => "writer"@,
            ConnectionTask::Fanout => "fanout"@,
        }
    }

    /// The name of the task.
    pub fn name(&self) -> (r: &'static str)
        ensures
            r@ == self.spec_name(),
    {
        match self {
            ConnectionTask::Reader => "reader",
            ConnectionTask::Writer => "writer",
            ConnectionTask::Fanout => "fanout",
        }
    }

    /// The tasks that have to be stopped once this one has ended, in this order: the two others.
    /// Where the reader has ended, the writer still writes what waits in the client's queue: the
    /// reader's last words to the client are there.
    pub fn others(&self) -> (r: [(ConnectionTask, Stopping); 2])
        ensures
            r@ == (match self {
                ConnectionTask::Reader => seq![
                    (ConnectionTask::Fanout, Stopping::Abort),
                    (ConnectionTask::Writer, Stopping::Drain),
                ],
                ConnectionTask::Writer => seq![
                    (ConnectionTask::Reader, Stopping::Abort),
                    (ConnectionTask::Fanout, Stopping::Abort),
                ],
                ConnectionTask::Fanout => seq![
                    (ConnectionTask::Reader, Stopping::Abort),
                    (ConnectionTask::Writer, Stopping::Abort),
                ],
            }),
            forall|task: ConnectionTask|
                (task == r@[0].0 || task == r@[1].0) <==> #[trigger] is_other(task, *self),
    {
        match self {
            ConnectionTask::Reader => [
                (ConnectionTask::Fanout, Stopping::Abort),
                (ConnectionTask::Writer, Stopping::Drain),
            ],
            ConnectionTask::Writer => [
                (ConnectionTask::Reader, Stopping::Abort),
                (ConnectionTask::Fanout, Stopping::Abort),
            ],
            ConnectionTask::Fanout => [
                (ConnectionTask::Reader, Stopping::Abort),
                (ConnectionTask::Writer, Stopping::Abort),
            ],
        }
    }
}

/// Whether two tasks differ.
pub open spec fn is_other(task: ConnectionTask, ended: ConnectionTask) -> bool {
    task != ended
}

/// How a task ended.
#[derive(Debug)]
pub enum TaskOutcome {
    /// It ran to its end, with or without a fault.
    Finished(Result<(), String>),
    /// It was stopped.
    Cancelled,
    /// It broke off, for this reason.
    Failed(String),
}

/// What a connection comes to whose task ended so. A task that was stopped is no fault.
pub fn task_result(task_name: &str, outcome: TaskOutcome) -> (r: Result<(), String>)
    ensures
        match outcome {
            TaskOutcome::Finished(result) => r == result,
            TaskOutcome::Cancelled => r is Ok,
            TaskOutcome::Failed(reason) => r matches Err(message) && message@ == task_name@
                + " task failed: "@ + reason@,
        },
{
    match outcome {
        TaskOutcome::Finished(result) => result,
        TaskOutcome::Cancelled => Ok(()),
        TaskOutcome::Failed(reason) => {
            let mut message = task_name.to_owned();
            message.append(" task failed: ");
            message.append(reason.as_str());
            Err(message)
        },
    }
}

} // verus!
