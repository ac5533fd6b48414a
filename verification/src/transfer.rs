//! The copy of one object and, in a move, the deletion that follows it.
//!
//! A [`Transfer`] hands out the request that is due and takes in how it
//! ended. Each request is meant to go through the retrying executor, see
//! [`crate::request`].

use crate::error::{Error, RequestError};
use crate::listing::{Item, ItemView};
use crate::request::RequestState;
use crate::timeout::TimeoutState;
use vstd::prelude::*;

verus! {

/// A request to copy one object.
#[derive(Debug, PartialEq, Eq)]
pub struct CopyRequest {
    /// The source, as `bucket/key`.
    pub copy_source: String,
    /// The destination bucket.
    pub bucket: String,
    /// The destination key.
    pub key: String,
}

/// What a [`CopyRequest`] holds.
pub struct CopyRequestView {
    pub copy_source: Seq<char>,
    pub bucket: Seq<char>,
    pub key: Seq<char>,
}

impl View for CopyRequest {
    type V = CopyRequestView;

    open spec fn view(&self) -> CopyRequestView {
        CopyRequestView { copy_source: self.copy_source@, bucket: self.bucket@, key: self.key@ }
    }
}

impl Clone for CopyRequest {
    fn clone(&self) -> (copy: Self)
        ensures
            copy == *self,
    {
        CopyRequest {
            copy_source: self.copy_source.clone(),
            bucket: self.bucket.clone(),
            key: self.key.clone(),
        }
    }
}

/// A request to delete one object.
#[derive(Clone, Debug, PartialEq, Eq)]
pub struct DeleteRequest {
    pub bucket: String,
    pub key: String,
}

/// What a [`DeleteRequest`] holds.
pub struct DeleteRequestView {
    pub bucket: Seq<char>,
    pub key: Seq<char>,
}

impl View for DeleteRequest {
    type V = DeleteRequestView;

    open spec fn view(&self) -> DeleteRequestView {
        DeleteRequestView { bucket: self.bucket@, key: self.key@ }
    }
}

/// One request to the store on behalf of an object. A copy comes with the
/// size of the object in bytes.
#[derive(Clone, Debug, PartialEq, Eq)]
pub enum Operation {
    Copy(CopyRequest, u64),
    Delete(DeleteRequest),
}

/// What an [`Operation`] holds.
pub enum OperationView {
    Copy(CopyRequestView, u64),
    Delete(DeleteRequestView),
}

impl OperationView {
    /// The number of bytes that counts for the timeout of the request: the
    /// size of the object for a copy, and none for a deletion.
    pub open spec fn size(self) -> u64 {
        match self {
            OperationView::Copy(_, size) => size,
            OperationView::Delete(_) => 0,
        }
    }
}

impl View for Operation {
    type V = OperationView;

    open spec fn view(&self) -> OperationView {
        match self {
            Operation::Copy(request, size) => OperationView::Copy(request@, *size),
            Operation::Delete(request) => OperationView::Delete(request@),
        }
    }
}

impl Operation {
    /// The number of bytes that counts for the timeout of the request.
    pub fn size(&self) -> (size: u64)
        ensures
            size == self@.size(),
    {
        match self {
            Operation::Copy(_, size) => *size,
            Operation::Delete(_) => 0,
        }
    }
}

/// Where the transfer of one object stands.
#[derive(Clone, Copy, Debug, PartialEq, Eq)]
pub enum Stage {
    /// The object is to be copied.
    Copy,
    /// The object was copied, and the source is to be deleted.
    Delete,
    /// All is done.
    Done,
    /// A request was given up.
    Failed,
}

/// The stage that follows `stage` once the request of that stage has ended,
/// well or not. Only the source of a move is deleted, and only after the
/// copy went well.
pub open spec fn next_stage(stage: Stage, moving: bool, ok: bool) -> Stage {
    match stage {
        Stage::Copy => if !ok {
            Stage::Failed
        } else if moving {
            Stage::Delete
        } else {
            Stage::Done
        },
        Stage::Delete => if ok {
            Stage::Done
        } else {
            Stage::Failed
        },
        Stage::Done => Stage::Done,
        Stage::Failed => Stage::Failed,
    }
}

/// The stage of a transfer whose requests ended as `results` say, one after
/// the other.
pub open spec fn stage_after(moving: bool, results: Seq<bool>) -> Stage
    decreases results.len(),
{
    if results.len() == 0 {
        Stage::Copy
    } else {
        next_stage(stage_after(moving, results.drop_last()), moving, results.last())
    }
}

/// Once a request has ended, the stage depends on the first two results
/// alone: a transfer makes two requests at most.
proof fn lemma_stage_settles(moving: bool, results: Seq<bool>)
    requires
        results.len() >= 1,
    ensures
        stage_after(moving, results) == if !results[0] {
            Stage::Failed
        } else if !moving {
            Stage::Done
        } else if results.len() == 1 {
            Stage::Delete
        } else if results[1] {
            Stage::Done
        } else {
            Stage::Failed
        },
    decreases results.len(),
{
    if results.len() == 1 {
        assert(results.drop_last().len() == 0);
    } else {
        lemma_stage_settles(moving, results.drop_last());
    }
}

/// The source of a moved object is deleted after its copy went well and at
/// no other time: the deletion is due exactly when one request has ended,
/// the copy, and ended well. After a copy that failed, no deletion is ever
/// due.
pub proof fn lemma_delete_follows_copy(moving: bool, results: Seq<bool>)
    ensures
        stage_after(moving, results) == Stage::Delete <==> moving && results.len() == 1
            && results[0],
        results.len() >= 1 && !results[0] ==> stage_after(moving, results) == Stage::Failed,
{
    if results.len() >= 1 {
        lemma_stage_settles(moving, results);
    }
}

/// The copy of one object, followed in a move by the deletion of its source.
#[derive(Debug, PartialEq, Eq)]
pub struct Transfer {
    item: Item,
    request: CopyRequest,
    src_bucket: String,
    moving: bool,
    copied: bool,
}

/// What a [`Transfer`] holds.
pub struct TransferView {
    /// The object at the source.
    pub item: ItemView,
    /// The request that copies it.
    pub request: CopyRequestView,
    /// The bucket of the source.
    pub src_bucket: Seq<char>,
    /// Whether the source is deleted after the copy.
    pub moving: bool,
    /// `Copy` or `Delete`.
    pub stage: Stage,
}

impl TransferView {
    /// The request that is due.
    pub open spec fn operation(self) -> OperationView {
        if self.stage == Stage::Delete {
            OperationView::Delete(
                DeleteRequestView { bucket: self.src_bucket, key: self.item.key },
            )
        } else {
            OperationView::Copy(self.request, self.item.size)
        }
    }
}

/// What follows the request of a transfer.
#[derive(Debug, PartialEq, Eq)]
pub enum TransferStep<E> {
    /// The transfer goes on with its next request.
    Next(Transfer),
    /// The transfer is done. `key` is the key of the source.
    Done { key: String },
    /// The transfer failed.
    Failed(Error<E>),
}

impl<E> TransferStep<E> {
    /// The stage that the transfer is at with this step.
    pub open spec fn stage(self) -> Stage {
        match self {
            TransferStep::Next(transfer) => transfer@.stage,
            TransferStep::Done { .. } => Stage::Done,
            TransferStep::Failed(_) => Stage::Failed,
        }
    }
}

/// Whether `mapping` may give the key `dest` for the key `key`.
pub open spec fn maps_to<F: Fn(&str) -> String>(
    mapping: F,
    key: Seq<char>,
    dest: Seq<char>,
) -> bool {
    exists|k: &str, d: String| k@ == key && d@ == dest && call_ensures(mapping, (k,), d)
}

/// The source of a copy as the store wants it: bucket and key with a slash
/// between them.
pub open spec fn source_path(bucket: Seq<char>, key: Seq<char>) -> Seq<char> {
    bucket + seq!['/'] + key
}

/// Joins bucket and key, the slash between them.
fn copy_source(bucket: &str, key: &str) -> (source: String)
    ensures
        source@ == source_path(bucket@, key@),
{
    proof {
        reveal_strlit("/");
        assert("/"@ =~= seq!['/']);
    }
    String::from_str(bucket).concat("/").concat(key)
}

/// The state of the executor for the first attempt at a request of a
/// transfer, copy or deletion: the request is retried as often as the
/// parameters of the run allow, `n_retries` times.
pub fn item_request(speed: &TimeoutState) -> (state: RequestState)
    ensures
        state.attempt() == 0,
        state.n_retries() == speed.config().n_retries,
{
    RequestState::new(speed.get_config().n_retries)
}

impl View for Transfer {
    type V = TransferView;

    closed spec fn view(&self) -> TransferView {
        TransferView {
            item: self.item@,
            request: self.request@,
            src_bucket: self.src_bucket@,
            moving: self.moving,
            stage: if self.copied {
                Stage::Delete
            } else {
                Stage::Copy
            },
        }
    }
}

impl Transfer {
    #[verifier::type_invariant]
    spec fn inv(self) -> bool {
        self.copied ==> self.moving
    }

    /// The transfer of `item` from `bucket` to `dest_bucket`, under the key
    /// that `mapping` gives for the item's key. In a move the source is
    /// deleted after the copy.
    pub fn new<F: Fn(&str) -> String>(
        bucket: &str,
        dest_bucket: &str,
        item: &Item,
        mapping: &F,
        moving: bool,
    ) -> (transfer: Transfer)
        requires
            forall|k: &str| k@ == item@.key ==> call_requires(*mapping, (k,)),
        ensures
            transfer@.item == item@,
            transfer@.request.copy_source == source_path(bucket@, item@.key),
            transfer@.request.bucket == dest_bucket@,
            maps_to(*mapping, item@.key, transfer@.request.key),
            transfer@.src_bucket == bucket@,
            transfer@.moving == moving,
            transfer@.stage == Stage::Copy,
    {
        let key = mapping(item.key.as_str());
        let request = CopyRequest {
            copy_source: copy_source(bucket, item.key.as_str()),
            bucket: dest_bucket.to_owned(),
            key,
        };
        Transfer { item: item.clone(), request, src_bucket: bucket.to_owned(), moving, copied: false }
    }

    /// The key of the source.
    pub fn key(&self) -> (key: &String)
        ensures
            key@ == self@.item.key,
    {
        &self.item.key
    }

    /// The request that is due: the copy, with the size of the object, or,
    /// when the copy went well in a move, the deletion of the source.
    pub fn operation(&self) -> (operation: Operation)
        ensures
            operation@ == self@.operation(),
    {
        if self.copied {
            Operation::Delete(
                DeleteRequest { bucket: self.src_bucket.clone(), key: self.item.key.clone() },
            )
        } else {
            Operation::Copy(self.request.clone(), self.item.size)
        }
    }

    /// Takes in how the request that was due ended, and says what follows.
    /// An error carries the key of the source.
    pub fn record<E>(self, result: Result<(), RequestError<E>>) -> (step: TransferStep<E>)
        ensures
            step.stage() == next_stage(self@.stage, self@.moving, result is Ok),
            step matches TransferStep::Next(next) ==> next@ == (TransferView {
                stage: Stage::Delete,
                ..self@
            }),
            step matches TransferStep::Done { key } ==> key@ == self@.item.key,
            step matches TransferStep::Failed(error) ==> result matches Err(cause) && error.key()
                == self@.item.key && match error {
                Error::CopyObject { error: e, .. } => self@.stage == Stage::Copy && e == cause,
                Error::DeleteObject { error: e, .. } => self@.stage == Stage::Delete && e == cause,
                _ => false,
            },
    {
        proof {
            use_type_invariant(&self);
        }
        match result {
            Ok(()) => {
                if self.moving && !self.copied {
                    TransferStep::Next(
                        Transfer {
                            item: self.item,
                            request: self.request,
                            src_bucket: self.src_bucket,
                            moving: true,
                            copied: true,
                        },
                    )
                } else {
                    TransferStep::Done { key: self.item.key }
                }
            },
            Err(cause) => {
                if self.copied {
                    TransferStep::Failed(Error::DeleteObject { key: self.item.key, error: cause })
                } else {
                    TransferStep::Failed(Error::CopyObject { key: self.item.key, error: cause })
                }
            },
        }
    }
}

} // verus!
