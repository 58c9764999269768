//! The gateway's operations. Each one that needs several store calls is a
//! state machine: it is started with its arguments, hands out a call, and is
//! resumed with the store's reply until it finishes.
use vstd::prelude::*;
use crate::bucket_name::{first_violated_rule, first_violation, rule_message};
use crate::delete::{unexpected_reply, unexpected_reply_error, DeleteObjectsOp};
use crate::error::{classified, classify, fault_kind, kind_of_fault, ErrorKind, S3Error};
use crate::listing::{build_listing, listing_of, views_of, S3Object};
use crate::protocol::{Call, CallView, Reply, Step, StepView};
use crate::text::{ends_with_char, same_text};

verus! {

/// The gateway. It holds no state of its own: the store is the one source of
/// truth, and each operation asks it what it needs.
pub struct S3Service {}

/// `name` is among the listed bucket names.
pub open spec fn bucket_listed(names: Seq<Option<String>>, name: Seq<char>) -> bool {
    exists|i: int| 0 <= i < names.len() && #[trigger] names[i] is Some && names[i]->0@ == name
}

/// The names among the listed buckets, in order.
pub open spec fn named_buckets(names: Seq<Option<String>>) -> Seq<Seq<char>>
    decreases names.len(),
{
    if names.len() == 0 {
        Seq::empty()
    } else {
        let rest = named_buckets(names.drop_last());
        match names.last() {
            Some(n) => rest.push(n@),
            None => rest,
        }
    }
}

fn listed(names: &Vec<Option<String>>, name: &str) -> (r: bool)
    ensures
        r == bucket_listed(names@, name@),
{
    let mut i: usize = 0;
    while i < names.len()
        invariant
            i <= names@.len(),
            forall|j: int| 0 <= j < i ==> !(#[trigger] names@[j] is Some && names@[j]->0@ == name@),
        decreases names@.len() - i,
    {
        match &names[i] {
            Some(n) => {
                if same_text(n.as_str(), name) {
                    return true;
                }
            },
            None => {},
        }
        i = i + 1;
    }
    false
}

/// Where a bucket creation or deletion stands.
#[derive(Clone, Copy, Debug, PartialEq, Eq, Structural)]
pub enum BucketStage {
    /// Waiting for the list of buckets.
    Listing,
    /// Waiting for the store to create or delete the bucket.
    Changing,
    /// Finished.
    Over,
}

/// How a bucket creation starts: a name that breaks a rule is refused before
/// the store is asked anything.
pub open spec fn create_start(name: Seq<char>) -> (BucketStage, StepView) {
    match first_violation(name) {
        Some(rule) => (BucketStage::Over, StepView::Finish(Err((ErrorKind::Invalid, rule_message(rule, name.len()))))),
        None => (BucketStage::Listing, StepView::Send(CallView::ListBuckets)),
    }
}

/// How a bucket creation goes on: a name already listed is refused, else the
/// store is asked to create the bucket.
pub open spec fn create_next(name: Seq<char>, stage: BucketStage, reply: Reply) -> (BucketStage, StepView) {
    match stage {
        BucketStage::Listing => match reply {
            Reply::Buckets(names) => if bucket_listed(names@, name) {
                (BucketStage::Over, StepView::Finish(Err((ErrorKind::AlreadyExists, name))))
            } else {
                (BucketStage::Changing, StepView::Send(CallView::CreateBucket { bucket: name }))
            },
            Reply::Failed(f) => (BucketStage::Over, StepView::Finish(Err(classified(f, name)))),
            _ => (BucketStage::Over, StepView::Finish(Err(unexpected_reply()))),
        },
        BucketStage::Changing => match reply {
            Reply::Done => (BucketStage::Over, StepView::Finish(Ok(()))),
            Reply::Failed(f) => (BucketStage::Over, StepView::Finish(Err(classified(f, name)))),
            _ => (BucketStage::Over, StepView::Finish(Err(unexpected_reply()))),
        },
        BucketStage::Over => (BucketStage::Over, StepView::Finish(Err(unexpected_reply()))),
    }
}

/// How a bucket deletion goes on: a name that is not listed is not found,
/// else the store is asked to delete the bucket (and refuses one that is not
/// empty).
pub open spec fn delete_bucket_next(name: Seq<char>, stage: BucketStage, reply: Reply) -> (BucketStage, StepView) {
    match stage {
        BucketStage::Listing => match reply {
            Reply::Buckets(names) => if bucket_listed(names@, name) {
                (BucketStage::Changing, StepView::Send(CallView::DeleteBucket { bucket: name }))
            } else {
                (BucketStage::Over, StepView::Finish(Err((ErrorKind::NotFound, name))))
            },
            Reply::Failed(f) => (BucketStage::Over, StepView::Finish(Err(classified(f, name)))),
            _ => (BucketStage::Over, StepView::Finish(Err(unexpected_reply()))),
        },
        BucketStage::Changing => match reply {
            Reply::Done => (BucketStage::Over, StepView::Finish(Ok(()))),
            Reply::Failed(f) => (BucketStage::Over, StepView::Finish(Err(classified(f, name)))),
            _ => (BucketStage::Over, StepView::Finish(Err(unexpected_reply()))),
        },
        BucketStage::Over => (BucketStage::Over, StepView::Finish(Err(unexpected_reply()))),
    }
}

/// A bucket creation under way.
pub struct CreateBucketOp {
    pub bucket: String,
    pub stage: BucketStage,
}

/// A bucket deletion under way.
pub struct DeleteBucketOp {
    pub bucket: String,
    pub stage: BucketStage,
}

impl CreateBucketOp {
    /// Resumes the creation with the store's reply to its last call.
    pub fn resume(&mut self, reply: Reply) -> (r: Step)
        ensures
            final(self).bucket == old(self).bucket,
            (final(self).stage, r@) == create_next(old(self).bucket@, old(self).stage, reply),
    {
        match self.stage {
            BucketStage::Listing => match reply {
                Reply::Buckets(names) => {
                    if listed(&names, self.bucket.as_str()) {
                        self.stage = BucketStage::Over;
                        Step::Finish(Err(S3Error::AlreadyExists(self.bucket.clone())))
                    } else {
                        self.stage = BucketStage::Changing;
                        Step::Send(Call::CreateBucket { bucket: self.bucket.clone() })
                    }
                },
                Reply::Failed(f) => {
                    self.stage = BucketStage::Over;
                    Step::Finish(Err(classify(&f, self.bucket.as_str())))
                },
                _ => {
                    self.stage = BucketStage::Over;
                    Step::Finish(Err(unexpected_reply_error()))
                },
            },
            BucketStage::Changing => {
                self.stage = BucketStage::Over;
                match reply {
                    Reply::Done => Step::Finish(Ok(())),
                    Reply::Failed(f) => Step::Finish(Err(classify(&f, self.bucket.as_str()))),
                    _ => Step::Finish(Err(unexpected_reply_error())),
                }
            },
            BucketStage::Over => Step::Finish(Err(unexpected_reply_error())),
        }
    }
}

impl DeleteBucketOp {
    /// Resumes the deletion with the store's reply to its last call.
    pub fn resume(&mut self, reply: Reply) -> (r: Step)
        ensures
            final(self).bucket == old(self).bucket,
            (final(self).stage, r@) == delete_bucket_next(old(self).bucket@, old(self).stage, reply),
    {
        match self.stage {
            BucketStage::Listing => match reply {
                Reply::Buckets(names) => {
                    if listed(&names, self.bucket.as_str()) {
                        self.stage = BucketStage::Changing;
                        Step::Send(Call::DeleteBucket { bucket: self.bucket.clone() })
                    } else {
                        self.stage = BucketStage::Over;
                        Step::Finish(Err(S3Error::NotFound(self.bucket.clone())))
                    }
                },
                Reply::Failed(f) => {
                    self.stage = BucketStage::Over;
                    Step::Finish(Err(classify(&f, self.bucket.as_str())))
                },
                _ => {
                    self.stage = BucketStage::Over;
                    Step::Finish(Err(unexpected_reply_error()))
                },
            },
            BucketStage::Changing => {
                self.stage = BucketStage::Over;
                match reply {
                    Reply::Done => Step::Finish(Ok(())),
                    Reply::Failed(f) => Step::Finish(Err(classify(&f, self.bucket.as_str()))),
                    _ => Step::Finish(Err(unexpected_reply_error())),
                }
            },
            BucketStage::Over => Step::Finish(Err(unexpected_reply_error())),
        }
    }
}

/// What an existence probe's reply means: the object exists, the store
/// signalled that it does not, or the probe failed.
pub open spec fn existence(reply: Reply) -> Result<bool, (ErrorKind, Seq<char>)> {
    match reply {
        Reply::Done => Ok(true),
        Reply::Failed(f) => if fault_kind(f) == ErrorKind::NotFound {
            Ok(false)
        } else {
            Err((ErrorKind::Backend, f.message@))
        },
        _ => Err(unexpected_reply()),
    }
}

pub open spec fn result_view<T>(r: Result<T, S3Error>) -> Result<T, (ErrorKind, Seq<char>)> {
    match r {
        Ok(v) => Ok(v),
        Err(e) => Err(e@),
    }
}

/// What the reply to a single call that reports nothing means for an
/// operation about `subject`.
pub open spec fn outcome(subject: Seq<char>, reply: Reply) -> Result<(), (ErrorKind, Seq<char>)> {
    match reply {
        Reply::Done => Ok(()),
        Reply::Failed(f) => Err(classified(f, subject)),
        _ => Err(unexpected_reply()),
    }
}

/// A folder's key: its name, with a `/` added unless it ends with one.
pub open spec fn folder_key_of(name: Seq<char>) -> Seq<char> {
    if name.len() > 0 && name.last() == '/' {
        name
    } else {
        name.push('/')
    }
}

impl S3Service {
    /// Checks `name` against the bucket naming rules: the message of the
    /// first rule it breaks, if any.
    pub fn validate_bucket_name(name: &str) -> (r: Result<(), String>)
        ensures
            match first_violation(name@) {
                None => r is Ok,
                Some(rule) => r is Err && r->Err_0@ == rule_message(rule, name@.len()),
            },
    {
        match first_violated_rule(name) {
            None => Ok(()),
            Some(rule) => Err(rule.message(name.unicode_len())),
        }
    }

    /// The call that lists the buckets.
    pub fn list_buckets() -> (r: Call)
        ensures
            r@ == CallView::ListBuckets,
    {
        Call::ListBuckets
    }

    /// The names of the buckets in a reply to [`list_buckets`](Self::list_buckets),
    /// in the reply's order, leaving out buckets without a name. A failed
    /// listing is classified as a fault that concerns no bucket in particular.
    pub fn bucket_names(reply: Reply) -> (r: Result<Vec<String>, S3Error>)
        ensures
            reply is Buckets ==> r is Ok && crate::protocol::texts(r->Ok_0@) == named_buckets(reply->Buckets_0@),
            reply is Failed ==> r is Err && r->Err_0@ == classified(reply->Failed_0, Seq::empty()),
            !(reply is Buckets) && !(reply is Failed) ==> r is Err && r->Err_0@ == unexpected_reply(),
    {
        match reply {
            Reply::Buckets(names) => {
                let mut r: Vec<String> = Vec::new();
                let mut i: usize = 0;
                while i < names.len()
                    invariant
                        i <= names@.len(),
                        crate::protocol::texts(r@) == named_buckets(names@.subrange(0, i as int)),
                    decreases names@.len() - i,
                {
                    let ghost before = r@;
                    proof {
                        assert(names@.subrange(0, i + 1).drop_last() =~= names@.subrange(0, i as int));
                    }
                    match &names[i] {
                        Some(n) => {
                            r.push(n.clone());
                            assert(crate::protocol::texts(r@) =~= crate::protocol::texts(before).push(n@));
                        },
                        None => {},
                    }
                    i = i + 1;
                }
                assert(names@.subrange(0, i as int) =~= names@);
                Ok(r)
            },
            Reply::Failed(f) => {
                proof {
                    reveal_strlit("");
                }
                assert(""@ =~= Seq::<char>::empty());
                Err(classify(&f, ""))
            },
            _ => Err(unexpected_reply_error()),
        }
    }

    /// Starts the creation of a bucket named `bucket_name`.
    pub fn create_bucket(bucket_name: &str) -> (r: (CreateBucketOp, Step))
        ensures
            r.0.bucket@ == bucket_name@,
            (r.0.stage, r.1@) == create_start(bucket_name@),
    {
        let op = CreateBucketOp { bucket: String::from_str(bucket_name), stage: BucketStage::Listing };
        match Self::validate_bucket_name(bucket_name) {
            Ok(()) => (op, Step::Send(Call::ListBuckets)),
            Err(m) => (
                CreateBucketOp { stage: BucketStage::Over, ..op },
                Step::Finish(Err(S3Error::Invalid(m))),
            ),
        }
    }

    /// Starts the deletion of the bucket named `bucket_name`.
    pub fn delete_bucket(bucket_name: &str) -> (r: (DeleteBucketOp, Step))
        ensures
            r.0.bucket@ == bucket_name@,
            r.0.stage == BucketStage::Listing,
            r.1@ == StepView::Send(CallView::ListBuckets),
    {
        (DeleteBucketOp { bucket: String::from_str(bucket_name), stage: BucketStage::Listing }, Step::Send(Call::ListBuckets))
    }

    /// The call that lists `bucket` under `prefix` (none: the whole bucket),
    /// grouped into folders at `/`.
    pub fn list_objects(prefix: Option<&str>, bucket: &str) -> (r: Call)
        ensures
            r@ == (CallView::ListObjects {
                bucket: bucket@,
                prefix: match prefix { Some(p) => p@, None => Seq::empty() },
                grouped: true,
            }),
    {
        let p = match prefix {
            Some(p) => String::from_str(p),
            None => String::new(),
        };
        Call::ListObjects { bucket: String::from_str(bucket), prefix: p, grouped: true }
    }

    /// The listing in a reply to [`list_objects`](Self::list_objects) under
    /// `prefix` (see [`build_listing`]).
    pub fn objects_from_reply(bucket: &str, prefix: &str, reply: &Reply) -> (r: Result<Vec<S3Object>, S3Error>)
        ensures
            reply is Listing ==> r is Ok && views_of(r->Ok_0@) == listing_of(prefix@, reply->Listing_0),
            reply is Failed ==> r is Err && r->Err_0@ == classified(reply->Failed_0, bucket@),
            !(reply is Listing) && !(reply is Failed) ==> r is Err && r->Err_0@ == unexpected_reply(),
    {
        match reply {
            Reply::Listing(page) => Ok(build_listing(prefix, page)),
            Reply::Failed(f) => Err(classify(f, bucket)),
            _ => Err(unexpected_reply_error()),
        }
    }

    /// The call that stores `data` under `key`.
    pub fn put_object(key: &str, data: Vec<u8>, bucket: &str) -> (r: Call)
        ensures
            r@ == (CallView::PutObject { bucket: bucket@, key: key@, data: data@ }),
    {
        Call::PutObject { bucket: String::from_str(bucket), key: String::from_str(key), data }
    }

    /// The call that fetches the object under `key`.
    pub fn get_object(key: &str, bucket: &str) -> (r: Call)
        ensures
            r@ == (CallView::GetObject { bucket: bucket@, key: key@ }),
    {
        Call::GetObject { bucket: String::from_str(bucket), key: String::from_str(key) }
    }

    /// The bytes in a reply to [`get_object`](Self::get_object) for `key`.
    pub fn data_from_reply(key: &str, reply: Reply) -> (r: Result<Vec<u8>, S3Error>)
        ensures
            reply is Data ==> r is Ok && r->Ok_0@ == reply->Data_0@,
            reply is Failed ==> r is Err && r->Err_0@ == classified(reply->Failed_0, key@),
            !(reply is Data) && !(reply is Failed) ==> r is Err && r->Err_0@ == unexpected_reply(),
    {
        match reply {
            Reply::Data(d) => Ok(d),
            Reply::Failed(f) => Err(classify(&f, key)),
            _ => Err(unexpected_reply_error()),
        }
    }

    /// What the reply to a call that reports nothing (a store, a folder
    /// creation) means for an operation about `subject`.
    pub fn outcome_of(subject: &str, reply: Reply) -> (r: Result<(), S3Error>)
        ensures
            result_view(r) == outcome(subject@, reply),
    {
        match reply {
            Reply::Done => Ok(()),
            Reply::Failed(f) => Err(classify(&f, subject)),
            _ => Err(unexpected_reply_error()),
        }
    }

    /// The existence probe for the object under `key`: a metadata request.
    pub fn check_object_exists(key: &str, bucket: &str) -> (r: Call)
        ensures
            r@ == (CallView::HeadObject { bucket: bucket@, key: key@ }),
    {
        Call::HeadObject { bucket: String::from_str(bucket), key: String::from_str(key) }
    }

    /// What the reply to an existence probe means.
    pub fn exists_from_reply(reply: Reply) -> (r: Result<bool, S3Error>)
        ensures
            result_view(r) == existence(reply),
    {
        match reply {
            Reply::Done => Ok(true),
            Reply::Failed(f) => {
                if kind_of_fault(&f) == ErrorKind::NotFound {
                    Ok(false)
                } else {
                    Err(S3Error::Backend(f.message))
                }
            },
            _ => Err(unexpected_reply_error()),
        }
    }

    /// The key of the folder `name`: the name with a trailing `/`.
    pub fn folder_key(name: &str) -> (r: String)
        ensures
            r@ == folder_key_of(name@),
    {
        let mut k = String::from_str(name);
        if !ends_with_char(name, '/') {
            proof {
                reveal_strlit("/");
            }
            k.append("/");
        }
        k
    }

    /// The call that creates the folder `name`: an empty object under the
    /// folder's key.
    pub fn create_folder(name: &str, bucket: &str) -> (r: Call)
        ensures
            r@ == (CallView::PutObject { bucket: bucket@, key: folder_key_of(name@), data: Seq::empty() }),
    {
        Call::PutObject { bucket: String::from_str(bucket), key: Self::folder_key(name), data: Vec::new() }
    }

    /// Starts the deletion of the object under `key`: a deletion of that one
    /// key, which takes a whole folder along where `key` ends in `/`.
    pub fn delete_object(key: &str, bucket: &str) -> (r: (DeleteObjectsOp, Step))
        ensures
            r.0.wf(),
            r.0@.bucket == bucket@,
            r.0@.inputs == seq![key@],
            r.0@.keys == seq![key@],
            r.0@.sent == 0,
            crate::delete::next_call_ok(r.0@, r.1@),
            r.1@ is Send,
    {
        let keys = vec![String::from_str(key)];
        proof {
            assert(crate::protocol::texts(keys@) =~= seq![key@]);
            let e = Seq::<Seq<char>>::empty();
            assert(seq![key@].drop_last() =~= e);
            assert(crate::delete::merged(e, seq![key@].drop_last()) == e);
            assert(!e.contains(key@));
            assert(crate::delete::merged(e, seq![key@]) =~= seq![key@]);
        }
        DeleteObjectsOp::start(bucket, &keys)
    }

    /// Starts the deletion of `objects_to_delete` from `bucket` (see
    /// [`DeleteObjectsOp`]).
    pub fn delete_objects(objects_to_delete: &Vec<String>, bucket: &str) -> (r: (DeleteObjectsOp, Step))
        ensures
            r.0.wf(),
            r.0@.bucket == bucket@,
            r.0@.inputs == crate::protocol::texts(objects_to_delete@),
            r.0@.keys == crate::delete::merged(Seq::empty(), crate::protocol::texts(objects_to_delete@)),
            r.0@.sent == 0,
            forall|i: int| 0 <= i < r.0@.expanded ==> !crate::delete::is_marker(#[trigger] r.0@.keys[i]),
            crate::delete::next_call_ok(r.0@, r.1@),
            objects_to_delete@.len() == 0 ==> r.1@ == StepView::Finish(Ok(())),
            objects_to_delete@.len() > 0 ==> r.1@ is Send,
    {
        DeleteObjectsOp::start(bucket, objects_to_delete)
    }
}

/// Where a move stands.
#[derive(Clone, Copy, Debug, PartialEq, Eq, Structural)]
pub enum MoveStage {
    /// Waiting to learn whether the source exists.
    ProbingSource,
    /// Waiting to learn whether the destination exists.
    ProbingDestination,
    /// Waiting for the copy.
    Copying,
    /// Waiting for the deletion of the source.
    Removing,
    /// Finished.
    Over,
}

/// How a move goes on. The source must exist and the destination must not;
/// only then is the object copied, and then the source deleted. A failure to
/// delete the source after the copy is reported as such: the copy stays.
pub open spec fn move_next(
    source: Seq<char>,
    destination: Seq<char>,
    bucket: Seq<char>,
    stage: MoveStage,
    reply: Reply,
) -> (MoveStage, StepView) {
    let unexpected = (MoveStage::Over, StepView::Finish(Err(unexpected_reply())));
    match stage {
        MoveStage::ProbingSource => match reply {
            Reply::Done => (
                MoveStage::ProbingDestination,
                StepView::Send(CallView::HeadObject { bucket, key: destination }),
            ),
            Reply::Failed(f) => if fault_kind(f) == ErrorKind::NotFound {
                (MoveStage::Over, StepView::Finish(Err((ErrorKind::NotFound, source))))
            } else {
                (MoveStage::Over, StepView::Finish(Err((ErrorKind::Backend, f.message@))))
            },
            _ => unexpected,
        },
        MoveStage::ProbingDestination => match reply {
            Reply::Done => (MoveStage::Over, StepView::Finish(Err((ErrorKind::AlreadyExists, destination)))),
            Reply::Failed(f) => if fault_kind(f) == ErrorKind::NotFound {
                (MoveStage::Copying, StepView::Send(CallView::CopyObject { bucket, source, destination }))
            } else {
                (MoveStage::Over, StepView::Finish(Err((ErrorKind::Backend, f.message@))))
            },
            _ => unexpected,
        },
        MoveStage::Copying => match reply {
            Reply::Done => (MoveStage::Removing, StepView::Send(CallView::DeleteObject { bucket, key: source })),
            Reply::Failed(f) => (MoveStage::Over, StepView::Finish(Err(classified(f, source)))),
            _ => unexpected,
        },
        MoveStage::Removing => match reply {
            Reply::Done => (MoveStage::Over, StepView::Finish(Ok(()))),
            Reply::Failed(f) => (MoveStage::Over, StepView::Finish(Err((ErrorKind::SourceNotRemoved, f.message@)))),
            _ => unexpected,
        },
        MoveStage::Over => unexpected,
    }
}

/// A move of an object to another key of the same bucket.
pub struct MoveObjectOp {
    pub bucket: String,
    pub source: String,
    pub destination: String,
    pub stage: MoveStage,
}

impl MoveObjectOp {
    /// Resumes the move with the store's reply to its last call.
    pub fn resume(&mut self, reply: Reply) -> (r: Step)
        ensures
            final(self).bucket == old(self).bucket,
            final(self).source == old(self).source,
            final(self).destination == old(self).destination,
            (final(self).stage, r@) == move_next(
                old(self).source@,
                old(self).destination@,
                old(self).bucket@,
                old(self).stage,
                reply,
            ),
    {
        let stage = self.stage;
        self.stage = MoveStage::Over;
        match stage {
            MoveStage::ProbingSource => match reply {
                Reply::Done => {
                    self.stage = MoveStage::ProbingDestination;
                    Step::Send(Call::HeadObject { bucket: self.bucket.clone(), key: self.destination.clone() })
                },
                Reply::Failed(f) => {
                    if kind_of_fault(&f) == ErrorKind::NotFound {
                        Step::Finish(Err(S3Error::NotFound(self.source.clone())))
                    } else {
                        Step::Finish(Err(S3Error::Backend(f.message)))
                    }
                },
                _ => Step::Finish(Err(unexpected_reply_error())),
            },
            MoveStage::ProbingDestination => match reply {
                Reply::Done => Step::Finish(Err(S3Error::AlreadyExists(self.destination.clone()))),
                Reply::Failed(f) => {
                    if kind_of_fault(&f) == ErrorKind::NotFound {
                        self.stage = MoveStage::Copying;
                        Step::Send(
                            Call::CopyObject {
                                bucket: self.bucket.clone(),
                                source: self.source.clone(),
                                destination: self.destination.clone(),
                            },
                        )
                    } else {
                        Step::Finish(Err(S3Error::Backend(f.message)))
                    }
                },
                _ => Step::Finish(Err(unexpected_reply_error())),
            },
            MoveStage::Copying => match reply {
                Reply::Done => {
                    self.stage = MoveStage::Removing;
                    Step::Send(Call::DeleteObject { bucket: self.bucket.clone(), key: self.source.clone() })
                },
                Reply::Failed(f) => Step::Finish(Err(classify(&f, self.source.as_str()))),
                _ => Step::Finish(Err(unexpected_reply_error())),
            },
            MoveStage::Removing => match reply {
                Reply::Done => Step::Finish(Ok(())),
                Reply::Failed(f) => Step::Finish(Err(S3Error::SourceNotRemoved(f.message))),
                _ => Step::Finish(Err(unexpected_reply_error())),
            },
            MoveStage::Over => Step::Finish(Err(unexpected_reply_error())),
        }
    }
}

/// A move copies nothing unless the source exists and the destination does
/// not: a copy is asked for only after the destination probe signalled "not
/// found" (which comes only after the source probe succeeded). A missing source
/// ends the move with `NotFound(source)`, an existing destination with
/// `AlreadyExists(destination)`, and a failed deletion of the source after the
/// copy with `SourceNotRemoved`, never with success.
pub proof fn lemma_move_guards_copy(
    source: Seq<char>,
    destination: Seq<char>,
    bucket: Seq<char>,
    stage: MoveStage,
    reply: Reply,
)
    ensures
        ({
            let (next, step) = move_next(source, destination, bucket, stage, reply);
            step is Send && step->Send_0 is CopyObject ==> {
                &&& stage == MoveStage::ProbingDestination
                &&& reply is Failed
                &&& fault_kind(reply->Failed_0) == ErrorKind::NotFound
            }
        }),
        ({
            let (next, step) = move_next(source, destination, bucket, stage, reply);
            step is Send && step->Send_0 is HeadObject ==> stage == MoveStage::ProbingSource && reply is Done
        }),
        stage == MoveStage::ProbingSource && reply is Failed && fault_kind(reply->Failed_0) == ErrorKind::NotFound
            ==> move_next(source, destination, bucket, stage, reply) == (
            MoveStage::Over,
            StepView::Finish(Err((ErrorKind::NotFound, source))),
        ),
        stage == MoveStage::ProbingDestination && reply is Done ==> move_next(
            source,
            destination,
            bucket,
            stage,
            reply,
        ) == (MoveStage::Over, StepView::Finish(Err((ErrorKind::AlreadyExists, destination)))),
        stage == MoveStage::Removing && reply is Failed ==> move_next(source, destination, bucket, stage, reply)
            == (MoveStage::Over, StepView::Finish(Err((ErrorKind::SourceNotRemoved, reply->Failed_0.message@)))),
{
}

/// Where an upload stands.
#[derive(Clone, Copy, Debug, PartialEq, Eq, Structural)]
pub enum UploadStage {
    /// Waiting to learn whether the key is taken.
    Probing,
    /// Waiting for the store to keep the object.
    Storing,
    /// Finished.
    Over,
}

/// How an upload that may not replace an object goes on: a key that is taken
/// is refused, else the object is stored. The probe and the store are two
/// calls: another writer may come between them.
pub open spec fn upload_next(
    bucket: Seq<char>,
    key: Seq<char>,
    data: Seq<u8>,
    stage: UploadStage,
    reply: Reply,
) -> (UploadStage, StepView) {
    let unexpected = (UploadStage::Over, StepView::Finish(Err(unexpected_reply())));
    match stage {
        UploadStage::Probing => match reply {
            Reply::Done => (UploadStage::Over, StepView::Finish(Err((ErrorKind::AlreadyExists, key)))),
            Reply::Failed(f) => if fault_kind(f) == ErrorKind::NotFound {
                (UploadStage::Storing, StepView::Send(CallView::PutObject { bucket, key, data }))
            } else {
                (UploadStage::Over, StepView::Finish(Err((ErrorKind::Backend, f.message@))))
            },
            _ => unexpected,
        },
        UploadStage::Storing => (UploadStage::Over, StepView::Finish(outcome(key, reply))),
        UploadStage::Over => unexpected,
    }
}

/// An upload of one object.
pub struct UploadOp {
    pub bucket: String,
    pub key: String,
    pub data: Vec<u8>,
    pub stage: UploadStage,
}

impl UploadOp {
    /// Resumes the upload with the store's reply to its last call.
    pub fn resume(&mut self, reply: Reply) -> (r: Step)
        ensures
            final(self).bucket == old(self).bucket,
            final(self).key == old(self).key,
            (final(self).stage, r@) == upload_next(
                old(self).bucket@,
                old(self).key@,
                old(self).data@,
                old(self).stage,
                reply,
            ),
    {
        let stage = self.stage;
        self.stage = UploadStage::Over;
        match stage {
            UploadStage::Probing => match reply {
                Reply::Done => Step::Finish(Err(S3Error::AlreadyExists(self.key.clone()))),
                Reply::Failed(f) => {
                    if kind_of_fault(&f) == ErrorKind::NotFound {
                        self.stage = UploadStage::Storing;
                        let mut data: Vec<u8> = Vec::new();
                        core::mem::swap(&mut data, &mut self.data);
                        Step::Send(Call::PutObject { bucket: self.bucket.clone(), key: self.key.clone(), data })
                    } else {
                        Step::Finish(Err(S3Error::Backend(f.message)))
                    }
                },
                _ => Step::Finish(Err(unexpected_reply_error())),
            },
            UploadStage::Storing => Step::Finish(S3Service::outcome_of(self.key.as_str(), reply)),
            UploadStage::Over => Step::Finish(Err(unexpected_reply_error())),
        }
    }
}

impl S3Service {
    /// Starts moving the object under `source_key` to `destination_key`.
    pub fn move_object(bucket: &str, source_key: &str, destination_key: &str) -> (r: (MoveObjectOp, Step))
        ensures
            r.0.bucket@ == bucket@,
            r.0.source@ == source_key@,
            r.0.destination@ == destination_key@,
            r.0.stage == MoveStage::ProbingSource,
            r.1@ == StepView::Send(CallView::HeadObject { bucket: bucket@, key: source_key@ }),
    {
        let op = MoveObjectOp {
            bucket: String::from_str(bucket),
            source: String::from_str(source_key),
            destination: String::from_str(destination_key),
            stage: MoveStage::ProbingSource,
        };
        let step = Step::Send(Call::HeadObject { bucket: String::from_str(bucket), key: String::from_str(source_key) });
        (op, step)
    }

    /// Starts uploading `data` under `key`. With `replace`, the object is
    /// stored at once; without, a key that is taken is refused.
    pub fn upload_object(bucket: &str, key: &str, data: Vec<u8>, replace: bool) -> (r: (UploadOp, Step))
        ensures
            r.0.bucket@ == bucket@,
            r.0.key@ == key@,
            replace ==> r.0.stage == UploadStage::Storing && r.1@ == StepView::Send(
                CallView::PutObject { bucket: bucket@, key: key@, data: data@ },
            ),
            !replace ==> r.0.stage == UploadStage::Probing && r.0.data@ == data@ && r.1@ == StepView::Send(
                CallView::HeadObject { bucket: bucket@, key: key@ },
            ),
    {
        if replace {
            let op = UploadOp {
                bucket: String::from_str(bucket),
                key: String::from_str(key),
                data: Vec::new(),
                stage: UploadStage::Storing,
            };
            (op, Step::Send(Self::put_object(key, data, bucket)))
        } else {
            let op = UploadOp {
                bucket: String::from_str(bucket),
                key: String::from_str(key),
                data,
                stage: UploadStage::Probing,
            };
            (op, Step::Send(Self::check_object_exists(key, bucket)))
        }
    }
}

} // verus!
