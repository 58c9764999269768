//! The parameters that requests to the gateway carry.
use vstd::prelude::*;
use crate::error::{ErrorKind, S3Error};
use crate::protocol::{Step, StepView};
use crate::service::{create_start, BucketStage, CreateBucketOp, MoveObjectOp, S3Service};

verus! {

/// Query of a listing or an upload.
#[derive(Clone, Debug)]
pub struct PrefixQuery {
    /// The folder to list or to upload into.
    pub prefix: Option<String>,
    /// Whether an upload may replace an object under the same key.
    pub replace: Option<bool>,
}

impl PrefixQuery {
    /// The prefix, empty where none was given.
    pub fn prefix_or_empty(&self) -> (r: String)
        ensures
            r@ == match self.prefix {
                Some(p) => p@,
                None => Seq::empty(),
            },
    {
        match &self.prefix {
            Some(p) => p.clone(),
            None => String::new(),
        }
    }

    /// Whether an upload may replace an object; by default it may not.
    pub fn may_replace(&self) -> (r: bool)
        ensures
            r == (self.replace == Some(true)),
    {
        match self.replace {
            Some(b) => b,
            None => false,
        }
    }
}

/// Query of an existence check.
#[derive(Clone, Debug)]
pub struct FileExistsQuery {
    pub filename: String,
}

/// Body of a move request.
#[derive(Clone, Debug)]
pub struct MoveFileRequest {
    pub source_key: String,
    pub destination_key: String,
}

impl MoveFileRequest {
    /// Starts the move this request asks for, within `bucket`.
    pub fn start(&self, bucket: &str) -> (r: (MoveObjectOp, Step))
        ensures
            r.0.bucket@ == bucket@,
            r.0.source@ == self.source_key@,
            r.0.destination@ == self.destination_key@,
            r.0.stage == crate::service::MoveStage::ProbingSource,
            r.1@ == StepView::Send(
                crate::protocol::CallView::HeadObject { bucket: bucket@, key: self.source_key@ },
            ),
    {
        S3Service::move_object(bucket, self.source_key.as_str(), self.destination_key.as_str())
    }
}

/// Body of a folder creation request.
#[derive(Clone, Debug)]
pub struct CreateFolderRequest {
    pub name: String,
}

/// Body of a bucket creation request.
#[derive(Clone, Debug)]
pub struct CreateBucketRequest {
    pub name: String,
}

impl CreateBucketRequest {
    /// Starts the creation this request asks for. An empty name is refused
    /// with its own message; any other name goes through
    /// [`S3Service::create_bucket`].
    pub fn start(&self) -> (r: (CreateBucketOp, Step))
        ensures
            r.0.bucket@ == self.name@,
            self.name@.len() == 0 ==> r.0.stage == BucketStage::Over && r.1@ == StepView::Finish(
                Err((ErrorKind::Invalid, "Bucket name cannot be empty"@)),
            ),
            self.name@.len() > 0 ==> (r.0.stage, r.1@) == create_start(self.name@),
    {
        if self.name.as_str().unicode_len() == 0 {
            let op = CreateBucketOp { bucket: self.name.clone(), stage: BucketStage::Over };
            (op, Step::Finish(Err(S3Error::Invalid(String::from_str("Bucket name cannot be empty")))))
        } else {
            S3Service::create_bucket(self.name.as_str())
        }
    }
}

} // verus!
