//! One read task per selected file: it turns the host's asynchronous read
//! outcome into zero or one append on the shared upload store.

use vstd::prelude::*;
use vstd::utf8::{decode_utf8, valid_utf8};
use crate::store::{Upload, UploadStore, UploadView};

verus! {

/// What the host's asynchronous read delivers for one file: the file's full
/// bytes, or the report that the read itself failed (I/O, permission).
pub enum ReadOutcome {
    Bytes(Vec<u8>),
    ReadFailed,
}

impl View for ReadOutcome {
    type V = Option<Seq<u8>>;

    open spec fn view(&self) -> Option<Seq<u8>> {
        match self {
            ReadOutcome::Bytes(b) => Some(b@),
            ReadOutcome::ReadFailed => None,
        }
    }
}

/// State of one read task; it exists only for the duration of one read.
#[derive(Clone, Copy, Debug, PartialEq, Eq, Structural)]
pub enum TaskStatus {
    Pending,
    Succeeded,
    Failed,
}

/// Why a task failed. Reported to a diagnostic sink only; a failed file is
/// dropped from the results, never shown as a blank or error row.
#[derive(Clone, Copy, Debug, PartialEq, Eq, Structural)]
pub enum TaskFailure {
    /// The host's read mechanism failed before any bytes arrived.
    ReadError,
    /// The bytes arrived but are not valid UTF-8 text.
    DecodeError,
}

/// Model of one task: the name of the file it reads, and its state.
#[verifier::ext_equal]
pub ghost struct TaskView {
    pub name: Seq<char>,
    pub status: TaskStatus,
}

/// What one completed read contributes to a store holding `s`: the decoded
/// upload, appended at the end, when the read delivered bytes that are valid
/// UTF-8; nothing at all otherwise.
pub open spec fn step(s: Seq<UploadView>, name: Seq<char>, data: Option<Seq<u8>>) -> Seq<UploadView> {
    match data {
        Some(bytes) => if valid_utf8(bytes) {
            s.push(UploadView { name, content: decode_utf8(bytes) })
        } else {
            s
        },
        None => s,
    }
}

/// One unit of work per selected file. Runs exactly once: created pending,
/// completed with the host's read outcome, never retried.
pub struct FileReadTask {
    name: String,
    status: TaskStatus,
}

impl View for FileReadTask {
    type V = TaskView;

    closed spec fn view(&self) -> TaskView {
        TaskView { name: self.name@, status: self.status }
    }
}

impl FileReadTask {
    /// A pending task for the file of the given name.
    pub fn new(name: String) -> (t: Self)
        ensures
            t@ == (TaskView { name: name@, status: TaskStatus::Pending }),
    {
        FileReadTask { name, status: TaskStatus::Pending }
    }

    /// The name of the selected file the task was started for.
    pub fn name(&self) -> (r: &String)
        ensures
            r@ == self@.name,
    {
        &self.name
    }

    /// The task's current state.
    pub fn status(&self) -> (r: TaskStatus)
        ensures
            r == self@.status,
    {
        self.status
    }

    /// Completes the task with the host's read outcome. On delivered bytes
    /// that decode as UTF-8 it appends exactly one upload, pairing this
    /// task's file name with the decoded text; on a read failure or a decode
    /// failure it leaves the store untouched and returns the failure for the
    /// caller to log. The only externally visible effect is zero or one
    /// append.
    pub fn complete(&mut self, store: &mut UploadStore, outcome: ReadOutcome) -> (r: Result<(), TaskFailure>)
        requires
            old(self)@.status is Pending,
        ensures
            final(self)@.name == old(self)@.name,
            final(store)@ == step(old(store)@, old(self)@.name, outcome@),
            match outcome@ {
                Some(bytes) => if valid_utf8(bytes) {
                    r is Ok && final(self)@.status is Succeeded
                } else {
                    r == Err::<(), TaskFailure>(TaskFailure::DecodeError) && final(self)@.status is Failed
                },
                None => r == Err::<(), TaskFailure>(TaskFailure::ReadError) && final(self)@.status is Failed,
            },
    {
        match outcome {
            ReadOutcome::Bytes(bytes) => {
                match decode_text(bytes) {
                    Some(content) => {
                        self.status = TaskStatus::Succeeded;
                        let name = self.name.clone();
                        store.append(Upload { name, content });
                        Ok(())
                    },
                    None => {
                        self.status = TaskStatus::Failed;
                        Err(TaskFailure::DecodeError)
                    },
                }
            },
            ReadOutcome::ReadFailed => {
                self.status = TaskStatus::Failed;
                Err(TaskFailure::ReadError)
            },
        }
    }
}

/// Relies on String::from_utf8: returns the text decoded from `bytes`
/// exactly when `bytes` is valid UTF-8, and nothing otherwise.
#[verifier::external_body]
fn decode_text(bytes: Vec<u8>) -> (r: Option<String>)
    ensures
        match r {
            Some(s) => valid_utf8(bytes@) && s@ == decode_utf8(bytes@),
            None => !valid_utf8(bytes@),
        },
{
    String::from_utf8(bytes).ok()
}

}
