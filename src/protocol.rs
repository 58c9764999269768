//! The calls an operation asks the store to make, and the store's replies.
use vstd::prelude::*;
use crate::error::{BackendFault, S3Error};

verus! {

/// An object as a store listing reports it.
#[derive(Clone, Debug)]
pub struct ListedEntry {
    pub key: Option<String>,
    /// Size in bytes.
    pub size: Option<i64>,
    /// Last modification, in seconds since the Unix epoch.
    pub modified_secs: Option<i64>,
}

/// One page of a store listing.
#[derive(Clone, Debug)]
pub struct ListingPage {
    /// The common prefixes (folders) found up to the delimiter.
    pub common_prefixes: Vec<Option<String>>,
    /// The objects.
    pub contents: Vec<ListedEntry>,
}

/// A call to make on the store.
#[derive(Clone, Debug)]
pub enum Call {
    ListBuckets,
    CreateBucket { bucket: String },
    DeleteBucket { bucket: String },
    /// List the objects under `prefix`; with `grouped`, keys are grouped into
    /// common prefixes at the next `/`.
    ListObjects { bucket: String, prefix: String, grouped: bool },
    HeadObject { bucket: String, key: String },
    GetObject { bucket: String, key: String },
    PutObject { bucket: String, key: String, data: Vec<u8> },
    /// Delete all these keys in one request.
    DeleteObjects { bucket: String, keys: Vec<String> },
    CopyObject { bucket: String, source: String, destination: String },
    DeleteObject { bucket: String, key: String },
}

/// A call with its texts as character sequences.
pub enum CallView {
    ListBuckets,
    CreateBucket { bucket: Seq<char> },
    DeleteBucket { bucket: Seq<char> },
    ListObjects { bucket: Seq<char>, prefix: Seq<char>, grouped: bool },
    HeadObject { bucket: Seq<char>, key: Seq<char> },
    GetObject { bucket: Seq<char>, key: Seq<char> },
    PutObject { bucket: Seq<char>, key: Seq<char>, data: Seq<u8> },
    DeleteObjects { bucket: Seq<char>, keys: Seq<Seq<char>> },
    CopyObject { bucket: Seq<char>, source: Seq<char>, destination: Seq<char> },
    DeleteObject { bucket: Seq<char>, key: Seq<char> },
}

/// The texts of a vector of strings.
pub open spec fn texts(v: Seq<String>) -> Seq<Seq<char>> {
    v.map_values(|s: String| s@)
}

impl View for Call {
    type V = CallView;

    open spec fn view(&self) -> CallView {
        match self {
            Call::ListBuckets => CallView::ListBuckets,
            Call::CreateBucket { bucket } => CallView::CreateBucket { bucket: bucket@ },
            Call::DeleteBucket { bucket } => CallView::DeleteBucket { bucket: bucket@ },
            Call::ListObjects { bucket, prefix, grouped } => CallView::ListObjects {
                bucket: bucket@,
                prefix: prefix@,
                grouped: *grouped,
            },
            Call::HeadObject { bucket, key } => CallView::HeadObject { bucket: bucket@, key: key@ },
            Call::GetObject { bucket, key } => CallView::GetObject { bucket: bucket@, key: key@ },
            Call::PutObject { bucket, key, data } => CallView::PutObject {
                bucket: bucket@,
                key: key@,
                data: data@,
            },
            Call::DeleteObjects { bucket, keys } => CallView::DeleteObjects {
                bucket: bucket@,
                keys: texts(keys@),
            },
            Call::CopyObject { bucket, source, destination } => CallView::CopyObject {
                bucket: bucket@,
                source: source@,
                destination: destination@,
            },
            Call::DeleteObject { bucket, key } => CallView::DeleteObject { bucket: bucket@, key: key@ },
        }
    }
}

/// The store's answer to a call.
#[derive(Clone, Debug)]
pub enum Reply {
    /// The names of the buckets, in answer to `ListBuckets`.
    Buckets(Vec<Option<String>>),
    /// A page of objects, in answer to `ListObjects`.
    Listing(ListingPage),
    /// The bytes of an object, in answer to `GetObject`.
    Data(Vec<u8>),
    /// The call succeeded with nothing to report.
    Done,
    /// `DeleteObjects` was carried out; these keys could not be deleted.
    Deleted { failed: Vec<String> },
    /// The call failed.
    Failed(BackendFault),
}

/// What an operation does next.
#[derive(Debug)]
pub enum Step {
    /// Make this call and resume the operation with the reply.
    Send(Call),
    /// The operation is over, with this result.
    Finish(Result<(), S3Error>),
}

pub enum StepView {
    Send(CallView),
    Finish(Result<(), (crate::error::ErrorKind, Seq<char>)>),
}

impl View for Step {
    type V = StepView;

    open spec fn view(&self) -> StepView {
        match self {
            Step::Send(c) => StepView::Send(c@),
            Step::Finish(Ok(())) => StepView::Finish(Ok(())),
            Step::Finish(Err(e)) => StepView::Finish(Err(e@)),
        }
    }
}

} // verus!
