//! The plan of one rotation: which file-system step comes next, and when
//! the rotation has failed.
//!
//! A rotation syncs the file that is rotated out, renames it to its archive
//! name, streams the archive through a compressor into the compressed
//! archive, removes the uncompressed archive, and opens a fresh file at the
//! logical path. The plan touches no file. It names the step to perform;
//! the caller performs it and reports the outcome, and the plan names the
//! next one. The compressor is the plan's own: the caller reports each
//! chunk that it has read from the archive, and is handed the compressed
//! bytes to append to the compressed archive.

use crate::archive::{
    archive_name, compressed_dest, compressed_name, has_extension, is_timestamp_suffix,
    LogicalPath,
};
use crate::clock::local_timestamp;
use crate::compress::{
    closing, consumed, encoder_finish, encoder_new, encoder_take_output, encoder_write_all, ends,
    held_after, takes, Compressor,
};
use vstd::prelude::*;
use vstd::string::*;

verus! {

/// How many bytes of the archive the compressor is fed at a time.
pub const COMPRESS_CHUNK: usize = 4096;

/// Where a rotation stands: the step whose outcome it waits for, or how it
/// ended.
#[derive(Clone, Copy, Debug, PartialEq, Eq)]
pub enum Phase {
    /// Syncing the file that is rotated out.
    Syncing,
    /// Renaming the file to its archive name.
    Renaming,
    /// Opening the archive for reading.
    OpeningArchive,
    /// Creating the compressed archive.
    CreatingCompressed,
    /// Reading the next chunk of the archive.
    Reading,
    /// Appending to the compressed archive what the compressor made of the
    /// chunk just read.
    Appending,
    /// Appending to the compressed archive the end of the compressor's
    /// stream, after the archive has been read to its end.
    Closing,
    /// Removing the uncompressed archive.
    Removing,
    /// Opening a fresh file at the logical path.
    Reopening,
    /// Every step succeeded.
    Completed,
    /// A step failed.
    Failed,
}

/// How a step went.
#[derive(Clone, Copy, Debug, PartialEq, Eq)]
pub enum Outcome<'a> {
    /// The step succeeded.
    Done,
    /// A read succeeded, with these bytes; with none at the end of the file.
    Read(&'a [u8]),
    /// The step failed.
    Failed,
}

/// An outcome, to the contracts.
pub enum Event {
    Done,
    Read(Seq<u8>),
    Failed,
}

impl<'a> View for Outcome<'a> {
    type V = Event;

    open spec fn view(&self) -> Event {
        match *self {
            Outcome::Done => Event::Done,
            Outcome::Read(chunk) => Event::Read(chunk@),
            Outcome::Failed => Event::Failed,
        }
    }
}

/// What the caller of a rotation does next, with the paths to do it on.
#[derive(Debug, PartialEq, Eq)]
pub enum Command {
    /// Sync the file that is rotated out.
    Sync,
    /// Rename the file at the logical path to its archive name.
    Rename { from: String, to: String },
    /// Open the archive, at this path, for reading.
    OpenArchive(String),
    /// Create the compressed archive at this path.
    CreateCompressed(String),
    /// Read the next chunk of the archive.
    Read,
    /// Append these bytes to the compressed archive.
    Append(Vec<u8>),
    /// Remove the uncompressed archive, at this path.
    Remove(String),
    /// Open a fresh file at this path, the logical path, for appending.
    Reopen(String),
    /// Hand the fresh file to the writer.
    Complete,
    /// Report the failure to the writer; perform no further step.
    Abort,
}

impl Phase {
    /// The phase that follows `self` once its step has ended with `event`.
    /// `packed` says whether the compressor took the chunk of a read or, at
    /// the end of the archive, ended its stream; it matters for a read
    /// alone. A failed step, and an outcome that is not one of the step's
    /// own, end the rotation in `Failed`.
    pub open spec fn next(self, event: Event, packed: bool) -> Phase {
        match (self, event) {
            (Phase::Syncing, Event::Done) => Phase::Renaming,
            (Phase::Renaming, Event::Done) => Phase::OpeningArchive,
            (Phase::OpeningArchive, Event::Done) => Phase::CreatingCompressed,
            (Phase::CreatingCompressed, Event::Done) => Phase::Reading,
            (Phase::Reading, Event::Read(chunk)) => if !packed {
                Phase::Failed
            } else if chunk.len() == 0 {
                Phase::Closing
            } else {
                Phase::Appending
            },
            (Phase::Appending, Event::Done) => Phase::Reading,
            (Phase::Closing, Event::Done) => Phase::Removing,
            (Phase::Removing, Event::Done) => Phase::Reopening,
            (Phase::Reopening, Event::Done) => Phase::Completed,
            (Phase::Completed, _) => Phase::Completed,
            _ => Phase::Failed,
        }
    }

    /// How far a rotation has come: the place of the phase in the order of
    /// the steps. The two phases of the compression loop share a place.
    pub open spec fn rank(self) -> nat {
        match self {
            Phase::Syncing => 0,
            Phase::Renaming => 1,
            Phase::OpeningArchive => 2,
            Phase::CreatingCompressed => 3,
            Phase::Reading => 4,
            Phase::Appending => 4,
            Phase::Closing => 5,
            Phase::Removing => 6,
            Phase::Reopening => 7,
            Phase::Completed => 8,
            Phase::Failed => 9,
        }
    }

    /// Computes `next`.
    pub fn step(self, outcome: &Outcome, packed: bool) -> (phase: Phase)
        ensures
            phase == self.next(outcome@, packed),
    {
        match (self, outcome) {
            (Phase::Syncing, Outcome::Done) => Phase::Renaming,
            (Phase::Renaming, Outcome::Done) => Phase::OpeningArchive,
            (Phase::OpeningArchive, Outcome::Done) => Phase::CreatingCompressed,
            (Phase::CreatingCompressed, Outcome::Done) => Phase::Reading,
            (Phase::Reading, Outcome::Read(chunk)) => if !packed {
                Phase::Failed
            } else if chunk.len() == 0 {
                Phase::Closing
            } else {
                Phase::Appending
            },
            (Phase::Appending, Outcome::Done) => Phase::Reading,
            (Phase::Closing, Outcome::Done) => Phase::Removing,
            (Phase::Removing, Outcome::Done) => Phase::Reopening,
            (Phase::Reopening, Outcome::Done) => Phase::Completed,
            (Phase::Completed, _) => Phase::Completed,
            _ => Phase::Failed,
        }
    }
}

/// What a rotation is, to its contracts.
pub struct RotationView {
    /// The path that is rotated.
    pub path: Seq<char>,
    /// The archive's name, from the moment the file is to be renamed.
    pub archive: Option<Seq<char>>,
    pub phase: Phase,
    /// Whether the rotation holds a compressor.
    pub compressing: bool,
    /// The bytes that the compressor has consumed.
    pub fed: Seq<u8>,
}

/// One reported outcome, and whether the compressor did its part on it.
pub struct Step {
    pub event: Event,
    pub packed: bool,
}

impl RotationView {
    /// A rotation of the file at `path`, before its first step.
    pub open spec fn started(path: Seq<char>) -> RotationView {
        RotationView {
            path,
            archive: None,
            phase: Phase::Syncing,
            compressing: false,
            fed: Seq::empty(),
        }
    }

    /// Whether `command` is what the caller does now, on the paths of this
    /// rotation. Which bytes an `Append` carries is said where it is given.
    pub open spec fn commands(self, command: Command) -> bool {
        match self.phase {
            Phase::Syncing => command == Command::Sync,
            Phase::Renaming => command matches Command::Rename { from, to } && from@ == self.path
                && self.archive == Some(to@),
            Phase::OpeningArchive => command matches Command::OpenArchive(name) && self.archive
                == Some(name@),
            Phase::CreatingCompressed => command matches Command::CreateCompressed(name)
                && self.archive is Some && name@ == compressed_name(self.archive->0),
            Phase::Reading => command == Command::Read,
            Phase::Appending => command is Append,
            Phase::Closing => command is Append,
            Phase::Removing => command matches Command::Remove(name) && self.archive == Some(
                name@,
            ),
            Phase::Reopening => command matches Command::Reopen(path) && path@ == self.path,
            Phase::Completed => command == Command::Complete,
            Phase::Failed => command == Command::Abort,
        }
    }

    /// The rotation after the step of its phase has ended with `event`,
    /// where the clock read `stamp` when the sync ended, and `packed` says
    /// whether the compressor did its part.
    pub open spec fn advanced(self, event: Event, stamp: Seq<char>, packed: bool) -> RotationView {
        RotationView {
            path: self.path,
            archive: if self.phase == Phase::Syncing && event == Event::Done {
                Some(archive_name(self.path, stamp))
            } else {
                self.archive
            },
            phase: self.phase.next(event, packed),
            compressing: if self.phase == Phase::CreatingCompressed && event == Event::Done {
                true
            } else if self.phase == Phase::Reading && event is Read {
                packed && event->Read_0.len() > 0
            } else {
                self.compressing
            },
            fed: if self.phase == Phase::CreatingCompressed && event == Event::Done {
                Seq::empty()
            } else if self.phase == Phase::Reading && packed && event is Read {
                self.fed + event->Read_0
            } else {
                self.fed
            },
        }
    }

    /// Whether `after` is this rotation advanced by `event`, with the
    /// archive's name, where `event` fixes it, stamped by some well-formed
    /// timestamp.
    pub open spec fn advanced_by_the_clock(
        self,
        event: Event,
        packed: bool,
        after: RotationView,
    ) -> bool {
        if self.phase == Phase::Syncing && event == Event::Done {
            exists|stamp: Seq<char>|
                is_timestamp_suffix(stamp) && after == #[trigger] self.advanced(
                    event,
                    stamp,
                    packed,
                )
        } else {
            after == self.advanced(event, Seq::empty(), packed)
        }
    }

    /// The rotation after each of `steps` in turn.
    pub open spec fn run(self, steps: Seq<Step>, stamp: Seq<char>) -> RotationView
        decreases steps.len(),
    {
        if steps.len() == 0 {
            self
        } else {
            self.run(steps.drop_last(), stamp).advanced(
                steps.last().event,
                stamp,
                steps.last().packed,
            )
        }
    }
}

/// The bytes of the chunks that the reads among `steps` reported, in their
/// order.
pub open spec fn chunks_read(steps: Seq<Step>) -> Seq<u8>
    decreases steps.len(),
{
    if steps.len() == 0 {
        Seq::empty()
    } else {
        chunks_read(steps.drop_last()) + match steps.last().event {
            Event::Read(chunk) => chunk,
            _ => Seq::empty(),
        }
    }
}

/// One rotation of the file at a path.
pub struct Rotation {
    path: LogicalPath,
    archive: Option<String>,
    phase: Phase,
    compressor: Option<Compressor>,
    /// What the compressor had consumed when the rotation let go of it.
    fed: Ghost<Seq<u8>>,
}

impl View for Rotation {
    type V = RotationView;

    closed spec fn view(&self) -> RotationView {
        RotationView {
            path: self.path@,
            archive: match self.archive {
                Some(name) => Some(name@),
                None => None,
            },
            phase: self.phase,
            compressing: self.compressor is Some,
            fed: match self.compressor {
                Some(compressor) => consumed(compressor),
                None => self.fed@,
            },
        }
    }
}

impl Rotation {
    /// From the renaming on, a rotation that has not failed knows its
    /// archive's name.
    #[verifier::type_invariant]
    spec fn well_formed(self) -> bool {
        1 <= self.phase.rank() <= 8 ==> self.archive is Some
    }

    /// Whether the compressor does its part on `chunk`: takes it or, where
    /// it is empty, ends its stream. Without a compressor nothing does.
    spec fn squeezes(&self, chunk: Seq<u8>) -> bool {
        match self.compressor {
            Some(compressor) => if chunk.len() == 0 {
                ends(compressor)
            } else {
                takes(compressor, chunk)
            },
            None => false,
        }
    }

    /// The compressed bytes that come out when the compressor does its part
    /// on `chunk`.
    spec fn squeezed(&self, chunk: Seq<u8>) -> Seq<u8> {
        match self.compressor {
            Some(compressor) => if chunk.len() == 0 {
                closing(compressor)
            } else {
                held_after(compressor, chunk)
            },
            None => Seq::empty(),
        }
    }

    /// Whether the compressor does its part on `event`: whether the
    /// rotation is reading, `event` is a read, and the compressor that the
    /// rotation holds takes the chunk or, at the end of the archive, ends
    /// its stream.
    pub closed spec fn packs(&self, event: Event) -> bool {
        self.phase == Phase::Reading && event is Read && self.squeezes(event->Read_0)
    }

    /// The compressed bytes that the compressor gives on `event`: what its
    /// `Vec` holds once it has taken the chunk or, at the end of the
    /// archive, what it gives when it ends its stream.
    pub closed spec fn packed_bytes(&self, event: Event) -> Seq<u8> {
        if event is Read {
            self.squeezed(event->Read_0)
        } else {
            Seq::empty()
        }
    }

    /// A rotation of the file at `path`, before its first step, which is to
    /// sync the file; or `None` where `path` has no file name with an
    /// extension to put a timestamp before.
    pub fn begin(path: &str) -> (rotation: Option<Rotation>)
        ensures
            rotation is Some <==> has_extension(path@),
            rotation matches Some(r) ==> r@ == RotationView::started(path@),
    {
        match LogicalPath::new(path) {
            Some(logical) => Some(Rotation::begin_at(logical)),
            None => None,
        }
    }

    /// A rotation of the file at `path`, before its first step, which is to
    /// sync the file.
    pub fn begin_at(path: LogicalPath) -> (rotation: Rotation)
        ensures
            rotation@ == RotationView::started(path@),
    {
        Rotation {
            path,
            archive: None,
            phase: Phase::Syncing,
            compressor: None,
            fed: Ghost(Seq::empty()),
        }
    }

    /// Where the rotation stands.
    pub fn phase(&self) -> (phase: Phase)
        ensures
            phase == self@.phase,
    {
        self.phase
    }

    /// The path that is rotated: the file to sync and rename, and the place
    /// of the fresh file.
    pub fn path(&self) -> (path: &str)
        ensures
            path@ == self@.path,
            has_extension(path@),
    {
        self.path.as_str()
    }

    /// The archive's name: where the file is renamed to, what is read for
    /// the compressor, and what is removed in the end. It is known once the
    /// sync has succeeded.
    pub fn archive(&self) -> (name: Option<&str>)
        ensures
            match name {
                Some(n) => self@.archive == Some(n@),
                None => self@.archive is None,
            },
    {
        match &self.archive {
            Some(name) => Some(name.as_str()),
            None => None,
        }
    }

    /// The compressed archive's name: the archive's name with the
    /// compression suffix behind it.
    pub fn compressed(&self) -> (name: Option<String>)
        ensures
            match name {
                Some(n) => self@.archive is Some && n@ == compressed_name(self@.archive->0),
                None => self@.archive is None,
            },
    {
        match &self.archive {
            Some(name) => Some(compressed_dest(name.as_str())),
            None => None,
        }
    }

    /// The archive's name, in a phase that has one.
    fn named(&self) -> (name: &str)
        requires
            1 <= self.phase.rank() <= 8,
        ensures
            self@.archive == Some(name@),
    {
        proof {
            use_type_invariant(self);
        }
        self.archive.as_ref().unwrap().as_str()
    }

    /// The command of a phase in which nothing is appended.
    fn plain_command(&self) -> (command: Command)
        requires
            self.phase != Phase::Appending,
            self.phase != Phase::Closing,
        ensures
            self@.commands(command),
    {
        match self.phase {
            Phase::Syncing => Command::Sync,
            Phase::Renaming => Command::Rename {
                from: String::from_str(self.path.as_str()),
                to: String::from_str(self.named()),
            },
            Phase::OpeningArchive => Command::OpenArchive(String::from_str(self.named())),
            Phase::CreatingCompressed => Command::CreateCompressed(compressed_dest(self.named())),
            Phase::Reading => Command::Read,
            Phase::Removing => Command::Remove(String::from_str(self.named())),
            Phase::Reopening => Command::Reopen(String::from_str(self.path.as_str())),
            Phase::Completed => Command::Complete,
            _ => Command::Abort,
        }
    }

    /// What the caller does now; for a rotation that has just begun, the
    /// sync. The result is `None` in the two phases in which the caller
    /// appends bytes: those bytes came with the command when it was given,
    /// and are not kept.
    pub fn command(&self) -> (command: Option<Command>)
        ensures
            match command {
                Some(c) => self@.commands(c),
                None => self@.phase == Phase::Appending || self@.phase == Phase::Closing,
            },
    {
        match self.phase {
            Phase::Appending => None,
            Phase::Closing => None,
            _ => Some(self.plain_command()),
        }
    }

    /// Gives the compressor one chunk of the archive, or ends its stream
    /// where the chunk is empty, and takes out what it has compressed. The
    /// result is `None` where there is no compressor or it failed. The
    /// rotation keeps its compressor only where it took a chunk that was not
    /// empty: a compressor that has failed, or has ended its stream, is let
    /// go of, so that nothing more is ever given to it.
    fn pack(&mut self, chunk: &[u8]) -> (packed: Option<Vec<u8>>)
        ensures
            packed is Some <==> old(self).squeezes(chunk@),
            packed matches Some(bytes) ==> bytes@ == old(self).squeezed(chunk@),
            final(self)@ == (RotationView {
                compressing: packed is Some && chunk@.len() > 0,
                fed: if packed is Some {
                    old(self)@.fed + chunk@
                } else {
                    old(self)@.fed
                },
                ..old(self)@
            }),
    {
        proof {
            use_type_invariant(&*self);
        }
        let ghost before = self@.fed;
        let mut held: Option<Compressor> = None;
        core::mem::swap(&mut self.compressor, &mut held);
        self.fed = Ghost(before);
        match held {
            Some(mut compressor) => {
                if chunk.len() == 0 {
                    assert(before + chunk@ =~= before);
                    encoder_finish(compressor)
                } else if encoder_write_all(&mut compressor, chunk) {
                    let output = encoder_take_output(&mut compressor);
                    self.compressor = Some(compressor);
                    Some(output)
                } else {
                    None
                }
            },
            None => None,
        }
    }

    /// Takes the outcome of the step that the rotation waited for, and names
    /// the next one. `stamp` is the timestamp that goes into the archive's
    /// name if this outcome is the one that fixes it, the success of the
    /// sync; otherwise it is not looked at. A chunk that was read goes to
    /// the compressor, and what comes out of it comes back to be appended;
    /// where the compressor does not do its part, the rotation has failed.
    pub fn advance_at(&mut self, outcome: Outcome, stamp: &str) -> (command: Command)
        ensures
            final(self)@ == old(self)@.advanced(outcome@, stamp@, old(self).packs(outcome@)),
            final(self)@.commands(command),
            command matches Command::Append(bytes) ==> bytes@ == old(self).packed_bytes(outcome@),
    {
        proof {
            use_type_invariant(&*self);
        }
        match (self.phase, outcome) {
            (Phase::Reading, Outcome::Read(chunk)) => {
                match self.pack(chunk) {
                    Some(output) => {
                        self.phase = self.phase.step(&outcome, true);
                        Command::Append(output)
                    },
                    None => {
                        self.phase = Phase::Failed;
                        Command::Abort
                    },
                }
            },
            (Phase::Syncing, Outcome::Done) => {
                self.archive = Some(self.path.archive(stamp));
                self.phase = Phase::Renaming;
                self.plain_command()
            },
            (Phase::CreatingCompressed, Outcome::Done) => {
                self.compressor = Some(encoder_new());
                self.phase = Phase::Reading;
                Command::Read
            },
            (phase, outcome) => {
                self.phase = phase.step(&outcome, false);
                self.plain_command()
            },
        }
    }

    /// Takes the outcome of the step that the rotation waited for, and names
    /// the next one. Where the outcome is the success of the sync, the
    /// archive's name is fixed with the local time of this call.
    pub fn advance(&mut self, outcome: Outcome) -> (command: Command)
        ensures
            old(self)@.advanced_by_the_clock(
                outcome@,
                old(self).packs(outcome@),
                final(self)@,
            ),
            final(self)@.commands(command),
            command matches Command::Append(bytes) ==> bytes@ == old(self).packed_bytes(outcome@),
    {
        let fixes_name = match (self.phase, outcome) {
            (Phase::Syncing, Outcome::Done) => true,
            _ => false,
        };
        if fixes_name {
            let stamp = local_timestamp();
            self.advance_at(outcome, stamp.as_str())
        } else {
            let command = self.advance_at(outcome, "");
            proof {
                let before = old(self)@;
                let packed = old(self).packs(outcome@);
                assert(before.advanced(outcome@, ""@, packed) == before.advanced(
                    outcome@,
                    Seq::empty(),
                    packed,
                ));
            }
            command
        }
    }
}

/// The compressor does its part only for a rotation that is reading and
/// holds one, and only on a read.
pub proof fn lemma_packs_needs_a_compressor(rotation: Rotation, event: Event)
    ensures
        rotation.packs(event) ==> rotation@.phase == Phase::Reading && rotation@.compressing
            && event is Read,
{
}

/// A failed step ends the rotation, and a rotation that has failed stays
/// failed: no later outcome brings it back.
pub proof fn lemma_failure_is_final(view: RotationView, steps: Seq<Step>, stamp: Seq<char>)
    ensures
        view.phase != Phase::Completed ==> view.phase.next(Event::Failed, true) == Phase::Failed,
        view.phase == Phase::Failed ==> view.run(steps, stamp).phase == Phase::Failed,
    decreases steps.len(),
{
    if steps.len() > 0 {
        lemma_failure_is_final(view, steps.drop_last(), stamp);
    }
}

/// The steps of a rotation come in their order: one outcome takes a
/// rotation to the next step and no further, save that appending a chunk
/// leads back to reading the next, or it ends the rotation in `Failed`.
pub proof fn lemma_steps_in_order(phase: Phase, event: Event, packed: bool)
    ensures
        phase.next(event, packed) == Phase::Failed || phase.next(event, packed).rank()
            == phase.rank() || phase.next(event, packed).rank() == phase.rank() + 1,
        phase == Phase::Completed ==> phase.next(event, packed) == Phase::Completed,
{
}

/// The uncompressed archive is removed only once the compressor has ended
/// its stream and the end of the stream stands in the compressed archive:
/// the one way into `Removing` is a `Done` in `Closing`, and the one way
/// into `Closing` is a read that found the end of the archive, on which the
/// compressor ended its stream.
pub proof fn lemma_removed_only_after_closing(phase: Phase, event: Event, packed: bool)
    ensures
        phase.next(event, packed) == Phase::Removing <==> phase == Phase::Closing && event
            == Event::Done,
        phase.next(event, packed) == Phase::Closing <==> phase == Phase::Reading && packed
            && event == Event::Read(Seq::empty()),
{
    if phase == Phase::Reading && packed {
        if let Event::Read(chunk) = event {
            if chunk.len() == 0 {
                assert(chunk =~= Seq::empty());
            }
        }
    }
}

/// No step is skipped: a rotation that has come to a place in the order of
/// the steps without failing has stood at every place before it. One that
/// is `Completed` has synced, renamed, compressed to the end, removed and
/// reopened.
pub proof fn lemma_no_step_is_skipped(
    path: Seq<char>,
    steps: Seq<Step>,
    stamp: Seq<char>,
    rank: nat,
)
    requires
        RotationView::started(path).run(steps, stamp).phase.rank() >= rank,
        RotationView::started(path).run(steps, stamp).phase != Phase::Failed,
    ensures
        exists|k: int|
            0 <= k <= steps.len() && (#[trigger] RotationView::started(path).run(
                steps.take(k),
                stamp,
            )).phase.rank() == rank,
    decreases steps.len(),
{
    let start = RotationView::started(path);
    if steps.len() == 0 {
        assert(steps.take(0) =~= steps);
    } else {
        let before = start.run(steps.drop_last(), stamp);
        lemma_steps_in_order(before.phase, steps.last().event, steps.last().packed);
        if start.run(steps, stamp).phase.rank() == rank {
            assert(steps.take(steps.len() as int) =~= steps);
        } else {
            lemma_no_step_is_skipped(path, steps.drop_last(), stamp, rank);
            let k = choose|k: int|
                0 <= k <= steps.drop_last().len() && (#[trigger] start.run(
                    steps.drop_last().take(k),
                    stamp,
                )).phase.rank() == rank;
            assert(steps.drop_last().take(k) =~= steps.take(k));
        }
    }
}

/// The compressor is fed the archive: while a rotation has not failed, its
/// compressor has consumed exactly the chunks that the reads reported, in
/// their order. So it has when the uncompressed archive is removed, and
/// when the rotation completes.
pub proof fn lemma_compressor_is_fed_the_archive(
    path: Seq<char>,
    steps: Seq<Step>,
    stamp: Seq<char>,
)
    ensures
        ({
            let end = RotationView::started(path).run(steps, stamp);
            &&& end.phase != Phase::Failed && end.phase != Phase::Completed ==> end.fed
                == chunks_read(steps)
            &&& end.phase.rank() <= 3 ==> chunks_read(steps) == Seq::<u8>::empty()
            &&& steps.len() > 0 && end.phase == Phase::Completed && RotationView::started(
                path,
            ).run(steps.drop_last(), stamp).phase != Phase::Completed ==> end.fed == chunks_read(
                steps,
            )
        }),
    decreases steps.len(),
{
    if steps.len() > 0 {
        let front = steps.drop_last();
        let last = steps.last();
        lemma_compressor_is_fed_the_archive(path, front, stamp);
        let before = RotationView::started(path).run(front, stamp);
        let end = before.advanced(last.event, stamp, last.packed);
        lemma_steps_in_order(before.phase, last.event, last.packed);
        if end.phase != Phase::Failed && before.phase != Phase::Completed {
            assert(before.phase != Phase::Failed);
            match last.event {
                Event::Read(chunk) => {
                    assert(before.phase == Phase::Reading && last.packed);
                },
                _ => {
                    assert(chunks_read(steps) =~= chunks_read(front));
                },
            }
        }
    }
}

} // verus!
