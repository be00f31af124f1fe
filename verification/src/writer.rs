//! The writer: what becomes of each request to write, flush or shut down.
//!
//! The writer either holds the open file, with the counts of what the file
//! holds, or has handed the file to a rotation that is in flight, or has
//! lost it to a rotation that failed. It performs no I/O. Asked what to do
//! with a request, it answers with a directive; the caller carries the
//! directive out on the file and reports back what came of it.

use crate::archive::{has_extension, LogicalPath};
use crate::counters::{Counters, Recovery, RotationMode};
use crate::rotation::{Rotation, RotationView};
use vstd::prelude::*;

verus! {

/// What the writer holds. `H` is the handle of an open file.
pub enum WriterState<H> {
    /// The writer owns the open file, which holds as much as the counts say.
    Ready(Counters, H),
    /// A rotation is in flight and owns the file.
    Rotating,
    /// A rotation failed. There is no file, and no way back.
    Failed,
}

/// What is asked of the writer.
#[derive(Clone, Copy, Debug, PartialEq, Eq)]
pub enum Request {
    Write,
    Flush,
    Shutdown,
}

/// What the caller does for a request.
pub enum Directive<H> {
    /// Write the request's bytes to the file, and report how many were
    /// accepted with `written`.
    Write,
    /// Flush the file.
    Flush,
    /// Shut the file down.
    Shutdown,
    /// The threshold is reached: run this rotation, which now owns the file
    /// that comes with it, and report its end with `rotation_resolved`.
    Rotate(Rotation, H),
    /// A rotation is in flight: wait for it, and report its end with
    /// `rotation_resolved`.
    Await,
    /// There is no file: fail the request.
    Fail,
}

/// What becomes of a request once the rotation it waited for has ended.
#[derive(Clone, Copy, Debug, PartialEq, Eq)]
pub enum Resumed {
    /// The rotation succeeded: ask the writer again.
    Retry,
    /// The rotation succeeded, and with it the request.
    Succeeded,
    /// The rotation failed, and with it the request.
    Failed,
}

/// Why a writer could not be made.
#[derive(Clone, Copy, Debug, PartialEq, Eq)]
pub enum OpenError {
    /// The path does not end in a file name with an extension.
    NotAFile,
    /// A read of the recovery scan failed.
    ScanFailed,
    /// The recovery scan has not come to the end of the file.
    ScanUnfinished,
}

/// The error that a writer for `path` is refused with after the scan
/// `recovered`, if it is refused. The path is looked at first.
pub open spec fn refusal(path: Seq<char>, recovered: Recovery) -> Option<OpenError> {
    if !has_extension(path) {
        Some(OpenError::NotAFile)
    } else {
        match recovered {
            Recovery::Complete(_) => None,
            Recovery::Failed => Some(OpenError::ScanFailed),
            Recovery::Scanning(_) => Some(OpenError::ScanUnfinished),
        }
    }
}

impl<H> WriterState<H> {
    /// The counts of the open file, where the writer owns one.
    pub open spec fn counters(self) -> Option<Counters> {
        match self {
            WriterState::Ready(c, _) => Some(c),
            _ => None,
        }
    }

    /// Whether `request` finds the file open and due for rotation. Only a
    /// write starts a rotation.
    pub open spec fn starts_rotation(self, mode: RotationMode, request: Request) -> bool {
        self matches WriterState::Ready(c, _) && request == Request::Write && mode.due(c)
    }

    /// The state after the writer has been asked about `request`.
    pub open spec fn polled(self, mode: RotationMode, request: Request) -> WriterState<H> {
        if self.starts_rotation(mode, request) {
            WriterState::Rotating
        } else {
            self
        }
    }

    /// The state after `accepted` has been written to the open file.
    pub open spec fn written(self, accepted: Seq<u8>) -> WriterState<H> {
        match self {
            WriterState::Ready(c, file) => WriterState::Ready(c.credited(accepted), file),
            _ => self,
        }
    }

    /// The state after the rotation in flight has ended, with a fresh file
    /// or without.
    pub open spec fn resolved(self, fresh: Option<H>) -> WriterState<H> {
        match fresh {
            Some(file) => WriterState::Ready(Counters::zero(), file),
            None => WriterState::Failed,
        }
    }
}

/// What becomes of `request` when the rotation it waited for has ended. A
/// write and a shutdown go on to the fresh file; a flush has nothing left to
/// do, since the rotation synced what the old file held.
pub open spec fn resumed(request: Request, succeeded: bool) -> Resumed {
    if !succeeded {
        Resumed::Failed
    } else if request == Request::Flush {
        Resumed::Succeeded
    } else {
        Resumed::Retry
    }
}

/// What a writer is, to its contracts.
pub struct WriterView<H> {
    pub path: Seq<char>,
    pub mode: RotationMode,
    pub state: WriterState<H>,
}

impl<H> WriterView<H> {
    /// Whether `directive` is the writer's answer to `request`.
    pub open spec fn directs(self, request: Request, directive: Directive<H>) -> bool {
        match self.state {
            WriterState::Ready(c, file) => if self.state.starts_rotation(self.mode, request) {
                directive matches Directive::Rotate(plan, handed) && plan@ == RotationView::started(self.path)
                    && handed == file
            } else {
                match request {
                    Request::Write => directive is Write,
                    Request::Flush => directive is Flush,
                    Request::Shutdown => directive is Shutdown,
                }
            },
            WriterState::Rotating => directive is Await,
            WriterState::Failed => directive is Fail,
        }
    }
}

/// A writer to the file at a path, which is rotated when it reaches a
/// threshold.
pub struct RotatingFile<H> {
    path: LogicalPath,
    rotation: RotationMode,
    state: WriterState<H>,
}

impl<H> View for RotatingFile<H> {
    type V = WriterView<H>;

    closed spec fn view(&self) -> WriterView<H> {
        WriterView { path: self.path@, mode: self.rotation, state: self.state }
    }
}

impl<H> RotatingFile<H> {
    /// A writer to `file`, the file at `path` opened for appending, of which
    /// the recovery scan `recovered` has the counts. It fails where `path`
    /// does not end in a file name with an extension, as the path of a
    /// directory does not, and where the scan has failed or has not come to
    /// the end of the file: a writer is never made with the counts of a part
    /// of its file.
    pub fn new(path: &str, mode: RotationMode, recovered: Recovery, file: H) -> (writer: Result<
        RotatingFile<H>,
        OpenError,
    >)
        ensures
            writer is Ok <==> refusal(path@, recovered) is None,
            writer matches Ok(w) ==> recovered is Complete && w@ == (WriterView {
                path: path@,
                mode: mode,
                state: WriterState::Ready(recovered->Complete_0, file),
            }),
            writer matches Err(e) ==> refusal(path@, recovered) == Some(e),
    {
        match LogicalPath::new(path) {
            Some(logical) => match recovered {
                Recovery::Complete(counters) => Ok(
                    RotatingFile {
                        path: logical,
                        rotation: mode,
                        state: WriterState::Ready(counters, file),
                    },
                ),
                Recovery::Failed => Err(OpenError::ScanFailed),
                Recovery::Scanning(_) => Err(OpenError::ScanUnfinished),
            },
            None => Err(OpenError::NotAFile),
        }
    }

    /// The open file, where the writer owns one.
    pub fn file_mut(&mut self) -> (file: Option<&mut H>)
        ensures
            match file {
                Some(f) => old(self)@.state matches WriterState::Ready(c, h) && *f == h
                    && final(self)@ == (WriterView {
                    state: WriterState::Ready(c, *final(f)),
                    ..old(self)@
                }),
                None => !(old(self)@.state is Ready) && final(self)@ == old(self)@,
            },
    {
        match &mut self.state {
            WriterState::Ready(_, file) => Some(file),
            _ => None,
        }
    }

    /// The path that the writer writes to.
    pub fn path(&self) -> (path: &str)
        ensures
            path@ == self@.path,
            has_extension(path@),
    {
        self.path.as_str()
    }

    /// The threshold that the writer rotates at.
    pub fn mode(&self) -> (mode: RotationMode)
        ensures
            mode == self@.mode,
    {
        self.rotation
    }

    /// The counts of the open file, where the writer owns one.
    pub fn counters(&self) -> (counters: Option<Counters>)
        ensures
            counters == self@.state.counters(),
    {
        match &self.state {
            WriterState::Ready(c, _) => Some(*c),
            _ => None,
        }
    }

    /// Whether a rotation is in flight.
    pub fn is_rotating(&self) -> (yes: bool)
        ensures
            yes == (self@.state is Rotating),
    {
        match &self.state {
            WriterState::Rotating => true,
            _ => false,
        }
    }

    /// Whether a rotation has failed, and the file with it.
    pub fn has_failed(&self) -> (yes: bool)
        ensures
            yes == (self@.state is Failed),
    {
        match &self.state {
            WriterState::Failed => true,
            _ => false,
        }
    }

    /// Says what to do for `request`. A write that finds the open file at
    /// its threshold starts a rotation: the file leaves the writer with the
    /// directive, and the bytes wait. Nothing else changes the writer.
    pub fn poll(&mut self, request: Request) -> (directive: Directive<H>)
        ensures
            final(self)@ == (WriterView {
                state: old(self)@.state.polled(old(self)@.mode, request),
                ..old(self)@
            }),
            old(self)@.directs(request, directive),
    {
        let mut state = WriterState::Rotating;
        core::mem::swap(&mut self.state, &mut state);
        match state {
            WriterState::Ready(c, file) => {
                let rotate = match request {
                    Request::Write => self.rotation.is_due(&c),
                    _ => false,
                };
                if rotate {
                    Directive::Rotate(Rotation::begin_at(self.path.duplicate()), file)
                } else {
                    self.state = WriterState::Ready(c, file);
                    match request {
                        Request::Write => Directive::Write,
                        Request::Flush => Directive::Flush,
                        Request::Shutdown => Directive::Shutdown,
                    }
                }
            },
            WriterState::Rotating => Directive::Await,
            WriterState::Failed => {
                self.state = WriterState::Failed;
                Directive::Fail
            },
        }
    }

    /// Takes note that the first `accepted` bytes of `buf` have been written
    /// to the open file: they and their line ends are added to the counts.
    /// A writer without a file is left as it is.
    pub fn written(&mut self, buf: &[u8], accepted: usize)
        requires
            accepted <= buf@.len(),
        ensures
            final(self)@ == (WriterView {
                state: old(self)@.state.written(buf@.take(accepted as int)),
                ..old(self)@
            }),
    {
        match &mut self.state {
            WriterState::Ready(c, _) => {
                c.credit(vstd::slice::slice_subrange(buf, 0, accepted));
            },
            _ => {},
        }
    }

    /// Takes the end of the rotation in flight: its fresh file, or `None`
    /// where it failed. With a fresh file the writer is ready again, at
    /// counts of zero; without one it has failed for good. The result says
    /// what becomes of `request`, which waited for the rotation.
    pub fn rotation_resolved(&mut self, request: Request, fresh: Option<H>) -> (next: Resumed)
        requires
            old(self)@.state is Rotating,
        ensures
            final(self)@ == (WriterView {
                state: old(self)@.state.resolved(fresh),
                ..old(self)@
            }),
            next == resumed(request, fresh is Some),
    {
        match fresh {
            Some(file) => {
                self.state = WriterState::Ready(Counters::new(), file);
                match request {
                    Request::Flush => Resumed::Succeeded,
                    _ => Resumed::Retry,
                }
            },
            None => {
                self.state = WriterState::Failed;
                Resumed::Failed
            },
        }
    }
}

} // verus!
