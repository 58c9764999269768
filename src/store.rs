//! A model of a store that answers each call at once and faithfully, and what
//! the gateway's operations do against it.
use vstd::prelude::*;
use crate::bucket_name::is_valid_bucket_name;
use crate::error::{fault_kind, ErrorKind};
use crate::protocol::{CallView, Reply, StepView};
use crate::service::{
    bucket_listed, create_next, create_start, delete_bucket_next, existence, BucketStage,
};

verus! {

/// The contents of a store: for each bucket, the bytes under each key.
pub struct StoreModel {
    pub buckets: Map<Seq<char>, Map<Seq<char>, Seq<u8>>>,
}

impl StoreModel {
    /// The store once a bucket named `name` exists.
    pub open spec fn with_bucket(self, name: Seq<char>) -> StoreModel {
        if self.buckets.contains_key(name) {
            self
        } else {
            StoreModel { buckets: self.buckets.insert(name, Map::empty()) }
        }
    }

    /// The store once `data` is kept under `key` in `bucket`.
    pub open spec fn with_object(self, bucket: Seq<char>, key: Seq<char>, data: Seq<u8>) -> StoreModel {
        StoreModel { buckets: self.buckets.insert(bucket, self.buckets[bucket].insert(key, data)) }
    }

    pub open spec fn holds(self, bucket: Seq<char>, key: Seq<char>) -> bool {
        self.buckets.contains_key(bucket) && self.buckets[bucket].contains_key(key)
    }

    /// `reply` answers `ListBuckets` faithfully: it names exactly the buckets.
    pub open spec fn lists_buckets(self, reply: Reply) -> bool {
        &&& reply is Buckets
        &&& forall|n: Seq<char>| #[trigger] bucket_listed(reply->Buckets_0@, n) <==> self.buckets.contains_key(n)
    }

    /// `reply` answers an existence probe faithfully: it succeeds if the object
    /// is there, and signals that it is not found otherwise.
    pub open spec fn answers_probe(self, bucket: Seq<char>, key: Seq<char>, reply: Reply) -> bool {
        if self.holds(bucket, key) {
            reply is Done
        } else {
            reply is Failed && fault_kind(reply->Failed_0) == ErrorKind::NotFound
        }
    }
}

/// Creating a bucket twice: the second creation is refused. Once the store
/// holds a bucket named `name` (created by the first call, or there before), a
/// creation of `name` that receives a faithful list of the buckets finishes
/// with `AlreadyExists(name)` and asks the store to create nothing.
pub proof fn lemma_second_create_conflicts(s: StoreModel, name: Seq<char>, listing: Reply)
    requires
        is_valid_bucket_name(name),
        s.with_bucket(name).lists_buckets(listing),
    ensures
        create_start(name) == (BucketStage::Listing, StepView::Send(CallView::ListBuckets)),
        create_next(name, BucketStage::Listing, listing) == (
            BucketStage::Over,
            StepView::Finish(Err((ErrorKind::AlreadyExists, name))),
        ),
{
    assert(s.with_bucket(name).buckets.contains_key(name));
    assert(bucket_listed(listing->Buckets_0@, name));
}

/// A first creation of a valid name that the store does not hold asks the
/// store to create it; once the store has, a second creation is refused (see
/// [`lemma_second_create_conflicts`]).
pub proof fn lemma_first_create_asks_store(s: StoreModel, name: Seq<char>, listing: Reply)
    requires
        is_valid_bucket_name(name),
        !s.buckets.contains_key(name),
        s.lists_buckets(listing),
    ensures
        create_next(name, BucketStage::Listing, listing) == (
            BucketStage::Changing,
            StepView::Send(CallView::CreateBucket { bucket: name }),
        ),
        create_next(name, BucketStage::Changing, Reply::Done) == (BucketStage::Over, StepView::Finish(Ok(()))),
        s.with_bucket(name).buckets.contains_key(name),
{
    assert(!bucket_listed(listing->Buckets_0@, name));
}

/// Deleting a bucket that a faithful list of the buckets does not name finishes
/// with `NotFound(name)` and asks the store to delete nothing.
pub proof fn lemma_delete_absent_bucket(s: StoreModel, name: Seq<char>, listing: Reply)
    requires
        !s.buckets.contains_key(name),
        s.lists_buckets(listing),
    ensures
        delete_bucket_next(name, BucketStage::Listing, listing) == (
            BucketStage::Over,
            StepView::Finish(Err((ErrorKind::NotFound, name))),
        ),
{
    assert(!bucket_listed(listing->Buckets_0@, name));
}

/// An object that was never written does not exist; once it is stored, it
/// does. For a bucket of the store that does not hold `key`, a faithful probe
/// reports `false`, and after `data` is stored under `key`, a faithful probe
/// reports `true`.
pub proof fn lemma_exists_after_put(
    s: StoreModel,
    bucket: Seq<char>,
    key: Seq<char>,
    data: Seq<u8>,
    before: Reply,
    after: Reply,
)
    requires
        s.buckets.contains_key(bucket),
        !s.buckets[bucket].contains_key(key),
        s.answers_probe(bucket, key, before),
        s.with_object(bucket, key, data).answers_probe(bucket, key, after),
    ensures
        existence(before) == Ok::<bool, (ErrorKind, Seq<char>)>(false),
        existence(after) == Ok::<bool, (ErrorKind, Seq<char>)>(true),
{
    assert(s.with_object(bucket, key, data).holds(bucket, key));
}

} // verus!
