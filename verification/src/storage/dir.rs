//! A storage that keeps one file per key in a directory.
//!
//! The storage opens and reads no file itself. It names the file of a key,
//! says which operation on that file comes next, and turns what the
//! operation gave into the reply.

use super::{Error, Get, GetOutput, Put, PutOutput};
use crate::hex;
use crate::json::{decode_value, encode_value, json_decoded, json_encodes};
use crate::kv::key::Key;
use std::path::PathBuf;
use vstd::prelude::*;
use vstd::string::StringExecFns;

verus! {

/// `std::path::PathBuf`, an owned path of the file system.
#[verifier::external_type_specification]
#[verifier::external_body]
pub struct ExPathBuf(PathBuf);

/// A storage over the files of one directory.
#[derive(Debug)]
pub struct DirStorage {
    pub dir_path: PathBuf,
}

/// The name of the file of the key with the bytes `key`: its 64
/// hexadecimal digits and `.json`.
pub open spec fn file_name_of(key: Seq<u8>) -> Seq<char> {
    hex::encoded(key) + ".json"@
}

/// The kind of a failure of the file system, as far as the storage tells
/// kinds apart.
#[derive(Debug, Clone, Copy, PartialEq, Eq, Structural)]
pub enum FailureKind {
    /// The file was to be created and exists already.
    AlreadyExists,
    /// There is no such file.
    NotFound,
    /// Anything else.
    Other,
}

/// A failure of the file system: its kind, and its cause as text.
#[derive(Debug)]
pub struct Failure {
    pub kind: FailureKind,
    pub cause: String,
}

/// Where a write stands.
#[derive(Debug, Clone, Copy, PartialEq, Eq, Structural)]
pub enum PutStage {
    /// The file is to be created for writing, and must not exist.
    Creating,
    /// The file is to be opened for writing, must exist, and is emptied
    /// on opening, so that nothing of the old document stays behind the
    /// new one.
    Reopening,
    /// The bytes are to be written to the open file in one piece.
    Writing { new: bool },
}

/// How a file is opened for writing.
#[derive(Debug, Clone, Copy, PartialEq, Eq, Structural)]
pub struct OpenMode {
    /// The file is created, and opening fails where it exists.
    pub create_new: bool,
    /// The file is emptied on opening.
    pub truncate: bool,
}

/// How the file is opened at `stage`: created anew while creating, and
/// emptied, never created, while reopening.
pub open spec fn open_mode_of(stage: PutStage) -> OpenMode {
    OpenMode { create_new: stage == PutStage::Creating, truncate: stage == PutStage::Reopening }
}

/// What a write does after an operation on its file.
#[derive(Debug)]
pub enum PutStep {
    /// Go on with the operation of this stage.
    Continue(PutStage),
    /// Answer the caller.
    Reply(Result<PutOutput, Error>),
}

/// A write under way: the file, the bytes to write, and the stage.
#[derive(Debug)]
pub struct DirPut {
    pub file_name: String,
    pub contents: Vec<u8>,
    pub stage: PutStage,
}

/// The reply to a read, from what reading the file gave: the document
/// that the text is the JSON of, nothing where there is no file, and a
/// failure otherwise.
pub open spec fn read_reply(outcome: Result<String, Failure>, reply: Result<GetOutput, Error>) -> bool {
    match outcome {
        Ok(text) => match json_decoded(text@) {
            Some(value) => reply == Ok::<GetOutput, Error>(Some(value)),
            None => reply is Err && reply->Err_0 is Json,
        },
        Err(failure) => if failure.kind == FailureKind::NotFound {
            reply == Ok::<GetOutput, Error>(None)
        } else {
            reply == Err::<GetOutput, Error>(Error::Io(failure.cause))
        },
    }
}

/// What follows `stage` once opening the file gave `outcome`.
///
/// A file that exists when it is to be created is opened as it is, and
/// was not new; one that has gone when it is to be opened is created
/// again. Any other failure ends the write.
pub open spec fn after_open(stage: PutStage, outcome: Result<(), Failure>) -> PutStep {
    match outcome {
        Ok(()) => PutStep::Continue(PutStage::Writing { new: stage == PutStage::Creating }),
        Err(failure) => if stage == PutStage::Creating && failure.kind
            == FailureKind::AlreadyExists {
            PutStep::Continue(PutStage::Reopening)
        } else if stage == PutStage::Reopening && failure.kind == FailureKind::NotFound {
            PutStep::Continue(PutStage::Creating)
        } else {
            PutStep::Reply(Err(Error::Io(failure.cause)))
        },
    }
}

/// The reply to a write whose file was new or not, once writing the bytes
/// gave `outcome`.
pub open spec fn after_write(new: bool, outcome: Result<(), Failure>) -> Result<PutOutput, Error> {
    match outcome {
        Ok(()) => Ok(new),
        Err(failure) => Err(Error::Io(failure.cause)),
    }
}

impl DirStorage {
    /// A storage over the directory at `dir_path`.
    pub fn open(dir_path: PathBuf) -> (storage: DirStorage)
        ensures
            storage.dir_path == dir_path,
    {
        DirStorage { dir_path }
    }

    /// The name of the file of `key` in the directory.
    pub fn file_name(key: &Key) -> (name: String)
        ensures
            name@ == file_name_of(key@),
    {
        key.to_hex().concat(".json")
    }

    /// The file to read for `request`.
    pub fn get(&self, request: &Get) -> (name: String)
        ensures
            name@ == file_name_of(request.key@),
    {
        DirStorage::file_name(&request.key)
    }

    /// The reply to a read, from what reading the file gave.
    pub fn on_read(&self, outcome: Result<String, Failure>) -> (reply: Result<GetOutput, Error>)
        ensures
            read_reply(outcome, reply),
    {
        match outcome {
            Ok(text) => match decode_value(text.as_str()) {
                Ok(value) => Ok(Some(value)),
                Err(cause) => Err(Error::Json(cause)),
            },
            Err(failure) => match failure.kind {
                FailureKind::NotFound => Ok(None),
                _ => Err(Error::Io(failure.cause)),
            },
        }
    }

    /// Starts the write for `request`: the file is named, the document is
    /// turned into the bytes of its JSON, and the file is to be created
    /// first. Every document has JSON, so this always succeeds.
    pub fn put(&self, request: &Put) -> (write: Result<DirPut, Error>)
        ensures
            write is Ok,
            write->Ok_0.file_name@ == file_name_of(request.key@),
            json_encodes(write->Ok_0.contents@, request.value),
            write->Ok_0.stage == PutStage::Creating,
    {
        match encode_value(&request.value) {
            Ok(contents) => Ok(
                DirPut {
                    file_name: DirStorage::file_name(&request.key),
                    contents,
                    stage: PutStage::Creating,
                },
            ),
            Err(cause) => Err(Error::Json(cause)),
        }
    }
}

impl DirPut {
    /// How to open the file at the stage where the write stands, while
    /// that is one of the two stages that open it.
    pub fn open_mode(&self) -> (mode: OpenMode)
        requires
            !(self.stage is Writing),
        ensures
            mode == open_mode_of(self.stage),
    {
        match self.stage {
            PutStage::Creating => OpenMode { create_new: true, truncate: false },
            _ => OpenMode { create_new: false, truncate: true },
        }
    }

    /// Takes what opening the file gave, while the write is at one of the
    /// two stages that open it.
    pub fn on_open(&mut self, outcome: Result<(), Failure>) -> (step: PutStep)
        requires
            !(old(self).stage is Writing),
        ensures
            step == after_open(old(self).stage, outcome),
            final(self).file_name == old(self).file_name,
            final(self).contents == old(self).contents,
            final(self).stage == match step {
                PutStep::Continue(stage) => stage,
                PutStep::Reply(_) => old(self).stage,
            },
    {
        let next = match outcome {
            Ok(()) => match self.stage {
                PutStage::Creating => PutStage::Writing { new: true },
                _ => PutStage::Writing { new: false },
            },
            Err(failure) => match (self.stage, failure.kind) {
                (PutStage::Creating, FailureKind::AlreadyExists) => PutStage::Reopening,
                (PutStage::Reopening, FailureKind::NotFound) => PutStage::Creating,
                _ => {
                    return PutStep::Reply(Err(Error::Io(failure.cause)));
                },
            },
        };
        self.stage = next;
        PutStep::Continue(next)
    }

    /// The reply, from what writing the bytes gave.
    pub fn on_write(&self, outcome: Result<(), Failure>) -> (reply: Result<PutOutput, Error>)
        requires
            self.stage is Writing,
        ensures
            reply == after_write(self.stage->new, outcome),
    {
        let new = match self.stage {
            PutStage::Writing { new } => new,
            _ => false,
        };
        match outcome {
            Ok(()) => Ok(new),
            Err(failure) => Err(Error::Io(failure.cause)),
        }
    }
}

/// What the file of a key holds; `None` where there is no such file.
pub type FileState = Option<Seq<u8>>;

/// What opening a file in `mode` gives, and what the file holds after: a
/// file is created only where there is none, opened as it is only where
/// there is one, and emptied where the mode says so.
pub open spec fn opening(file: FileState, mode: OpenMode) -> (Result<(), FailureKind>, FileState) {
    match file {
        None => if mode.create_new {
            (Ok(()), Some(Seq::empty()))
        } else {
            (Err(FailureKind::NotFound), file)
        },
        Some(held) => if mode.create_new {
            (Err(FailureKind::AlreadyExists), file)
        } else if mode.truncate {
            (Ok(()), Some(Seq::empty()))
        } else {
            (Ok(()), file)
        },
    }
}

/// What a file that held `held` holds after `contents` was written at
/// its start in one piece.
pub open spec fn overwritten(held: Seq<u8>, contents: Seq<u8>) -> Seq<u8> {
    if contents.len() >= held.len() {
        contents
    } else {
        contents + held.skip(contents.len() as int)
    }
}

/// The reply of a write that starts at `stage` on a file that nobody else
/// touches, and what the file holds after, where every operation does
/// what it is asked and fails only as `opening` says. The file is opened
/// at most `openings` times; there is no reply where that is too few.
pub open spec fn put_run(file: FileState, stage: PutStage, contents: Seq<u8>, openings: nat) -> (
    Option<Result<PutOutput, FailureKind>>,
    FileState,
)
    decreases openings,
{
    match stage {
        PutStage::Writing { new } => match file {
            Some(held) => (Some(Ok(new)), Some(overwritten(held, contents))),
            None => (None, file),
        },
        _ => if openings == 0 {
            (None, file)
        } else {
            let (outcome, after) = opening(file, open_mode_of(stage));
            match outcome {
                Ok(()) => put_run(
                    after,
                    PutStage::Writing { new: stage == PutStage::Creating },
                    contents,
                    (openings - 1) as nat,
                ),
                Err(kind) => if stage == PutStage::Creating && kind == FailureKind::AlreadyExists {
                    put_run(after, PutStage::Reopening, contents, (openings - 1) as nat)
                } else if stage == PutStage::Reopening && kind == FailureKind::NotFound {
                    put_run(after, PutStage::Creating, contents, (openings - 1) as nat)
                } else {
                    (Some(Err(kind)), after)
                },
            }
        },
    }
}

/// The steps of `put_run` are those that `after_open` and `after_write`
/// take.
pub proof fn lemma_put_run_follows_the_stages(
    file: FileState,
    stage: PutStage,
    cause: String,
)
    requires
        !(stage is Writing),
    ensures
        ({
            let (outcome, after) = opening(file, open_mode_of(stage));
            let step = after_open(
                stage,
                match outcome {
                    Ok(()) => Ok(()),
                    Err(kind) => Err(Failure { kind, cause }),
                },
            );
            match outcome {
                Ok(()) => step == PutStep::Continue(
                    PutStage::Writing { new: stage == PutStage::Creating },
                ),
                Err(kind) => if stage == PutStage::Creating && kind
                    == FailureKind::AlreadyExists {
                    step == PutStep::Continue(PutStage::Reopening)
                } else if stage == PutStage::Reopening && kind == FailureKind::NotFound {
                    step == PutStep::Continue(PutStage::Creating)
                } else {
                    step == PutStep::Reply(Err(Error::Io(cause)))
                },
            }
        }),
        forall|new: bool| after_write(new, Ok(())) == Ok::<PutOutput, Error>(new),
{
}

/// A write leaves the document in the file, whatever the file held.
///
/// Let nobody else touch the file. A write of a key without a file
/// creates the file, leaves exactly the bytes of the document in it and
/// replies that the key was new. A write of a key with a file, be the old
/// document longer or shorter, leaves exactly the bytes of the new
/// document in it and replies that the key was not new.
pub proof fn lemma_put_leaves_the_document(file: FileState, contents: Seq<u8>)
    ensures
        put_run(file, PutStage::Creating, contents, 2) == (
            Some(Ok::<PutOutput, FailureKind>(file is None)),
            Some(contents),
        ),
{
    reveal_with_fuel(put_run, 4);
    assert(overwritten(Seq::<u8>::empty(), contents) =~= contents);
}

/// Without emptying the file on reopening, a shorter document would
/// keep the tail of the longer one behind it.
pub proof fn lemma_overwritten_keeps_the_tail(held: Seq<u8>, contents: Seq<u8>)
    requires
        contents.len() < held.len(),
    ensures
        overwritten(held, contents) != contents,
        overwritten(held, contents).len() == held.len(),
{
}

} // verus!
