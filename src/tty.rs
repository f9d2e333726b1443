pub mod control_code;

use vstd::prelude::*;
use crate::screen::Screen;

verus! {

/// Why a read from the pseudo-terminal produced no bytes.
#[derive(Debug, Clone, Copy, PartialEq, Eq)]
pub enum TryReadError {
    /// No bytes arrived within the timeout.
    Empty,
    /// The child process closed its end.
    Closed,
}

/// How many bytes the reader asks the pseudo-terminal for at a time.
pub const READ_CHUNK: usize = 8192;

/// What the consumer does after one poll of the output queue.
#[derive(Debug, Clone, Copy, PartialEq, Eq)]
pub enum PollAction {
    /// Poll the queue again within this frame.
    PollAgain,
    /// Stop polling and let the frame be drawn.
    EndFrame,
    /// The child process is gone: end the session.
    CloseSession,
}

/// One poll of the output queue: hands the bytes that came, if any, to the screen,
/// and decides whether to poll again. A frame ends when the queue is empty or once
/// `budget_ms` have passed, so that a burst of output cannot starve drawing; the
/// session ends when the child has closed the pseudo-terminal.
pub fn poll_step(
    screen: &mut Screen,
    event: Result<&[u8], TryReadError>,
    elapsed_ms: u64,
    budget_ms: u64,
) -> (r: PollAction)
    requires
        old(screen).wf(),
    ensures
        final(screen).wf(),
        match event {
            Ok(bytes) => (final(screen)@, final(screen).residual_input@) == old(screen)@.process(
                old(screen).residual_input@,
                bytes@,
            ) && r == (if elapsed_ms > budget_ms {
                PollAction::EndFrame
            } else {
                PollAction::PollAgain
            }),
            Err(TryReadError::Empty) => final(screen)@ == old(screen)@
                && final(screen).residual_input@ == old(screen).residual_input@ && r
                == PollAction::EndFrame,
            Err(TryReadError::Closed) => final(screen)@ == old(screen)@
                && final(screen).residual_input@ == old(screen).residual_input@ && r
                == PollAction::CloseSession,
        },
{
    match event {
        Ok(bytes) => {
            screen.process_input(bytes);
            if elapsed_ms > budget_ms {
                PollAction::EndFrame
            } else {
                PollAction::PollAgain
            }
        },
        Err(TryReadError::Empty) => PollAction::EndFrame,
        Err(TryReadError::Closed) => PollAction::CloseSession,
    }
}

/// What the writer found on its input queue.
#[derive(Debug, Clone, Copy, PartialEq, Eq)]
pub enum QueueEvent {
    /// A chunk of bytes for the child.
    Received,
    /// Nothing queued at the moment.
    Empty,
    /// Every sender is gone.
    Disconnected,
}

/// What the writer does next.
#[derive(Debug, Clone, Copy, PartialEq, Eq)]
pub enum WriterAction {
    /// Write the chunk, then look at the queue again without waiting.
    WriteAndContinue,
    /// Flush what was written, then wait for the next chunk, so that no keystroke is
    /// held back while the queue is idle.
    FlushAndWait,
    /// End the writer.
    Stop,
}

/// The writer's decision on what it found on its queue.
pub fn writer_step(event: QueueEvent) -> (r: WriterAction)
    ensures
        r == match event {
            QueueEvent::Received => WriterAction::WriteAndContinue,
            QueueEvent::Empty => WriterAction::FlushAndWait,
            QueueEvent::Disconnected => WriterAction::Stop,
        },
{
    match event {
        QueueEvent::Received => WriterAction::WriteAndContinue,
        QueueEvent::Empty => WriterAction::FlushAndWait,
        QueueEvent::Disconnected => WriterAction::Stop,
    }
}

/// What the reader does with one read from the pseudo-terminal.
#[derive(Debug, Clone, Copy, PartialEq, Eq)]
pub enum ReaderAction {
    /// Forward the first `n` bytes of the buffer to the consumer and wake it.
    Forward(usize),
    /// End of file: the child closed its end; end the reader.
    Stop,
}

/// The reader's decision on a read of `count` bytes into a buffer of `READ_CHUNK`.
pub fn reader_step(count: usize) -> (r: ReaderAction)
    requires
        count <= READ_CHUNK,
    ensures
        count == 0 ==> r == ReaderAction::Stop,
        count > 0 ==> r == ReaderAction::Forward(count),
{
    if count == 0 {
        ReaderAction::Stop
    } else {
        ReaderAction::Forward(count)
    }
}

} // verus!
