//! Deletion of many keys at once, where a key that ends in `/` stands for a
//! folder and takes everything listed under it along.
use vstd::prelude::*;
use crate::error::{ErrorKind, S3Error};
use crate::listing::{keys_under, listed_keys};
use crate::protocol::{texts, Call, CallView, Reply, Step, StepView};
use crate::text::ends_with_char;

verus! {

/// The most keys the store accepts in one deletion request.
pub const MAX_KEYS_PER_DELETE: usize = 1000;

/// A key that ends in `/` marks a folder.
pub open spec fn is_marker(k: Seq<char>) -> bool {
    k.len() > 0 && k.last() == '/'
}

/// What a running deletion waits for.
#[derive(Clone, Copy, Debug, PartialEq, Eq, Structural)]
pub enum Awaiting {
    /// The listing of the folder marker at `expanded`.
    Listing,
    /// The outcome of deleting the keys from `sent` to `batch_end`.
    Deletion,
    /// Nothing: the deletion is over.
    Nothing,
}

/// A deletion of many keys. It first lists, one after the other, every folder
/// marker among the keys, adding what each listing reports (and, in turn, the
/// markers among those); then it deletes all the keys it has gathered, at most
/// [`MAX_KEYS_PER_DELETE`] per request.
pub struct DeleteObjectsOp {
    bucket: String,
    keys: Vec<String>,
    expanded: usize,
    sent: usize,
    batch_end: usize,
    awaiting: Awaiting,
    failed: Vec<String>,
    inputs: Ghost<Seq<Seq<char>>>,
    found: Ghost<Map<Seq<char>, Seq<Seq<char>>>>,
}

pub struct DeleteView {
    pub bucket: Seq<char>,
    /// The keys asked for.
    pub inputs: Seq<Seq<char>>,
    /// The keys gathered so far, each once, in the order they were met.
    pub keys: Seq<Seq<char>>,
    /// How many of `keys` have been looked at for folder markers.
    pub expanded: nat,
    /// How many of `keys` have been handed out for deletion.
    pub sent: nat,
    pub batch_end: nat,
    pub awaiting: Awaiting,
    /// The keys the store reported it could not delete.
    pub failed: Seq<Seq<char>>,
    /// For each folder marker listed so far, the keys its listing reported.
    pub found: Map<Seq<char>, Seq<Seq<char>>>,
}

impl View for DeleteObjectsOp {
    type V = DeleteView;

    closed spec fn view(&self) -> DeleteView {
        DeleteView {
            bucket: self.bucket@,
            inputs: self.inputs@,
            keys: texts(self.keys@),
            expanded: self.expanded as nat,
            sent: self.sent as nat,
            batch_end: self.batch_end as nat,
            awaiting: self.awaiting,
            failed: texts(self.failed@),
            found: self.found@,
        }
    }
}

/// `k` is one of the keys asked for, or was reported under a listed marker.
pub open spec fn covered(inputs: Seq<Seq<char>>, found: Map<Seq<char>, Seq<Seq<char>>>, k: Seq<char>) -> bool {
    inputs.contains(k) || exists|m: Seq<char>| found.contains_key(m) && #[trigger] found[m].contains(k)
}

/// `keys` followed by the members of `more` that it does not hold yet, each
/// once, in the order they first occur in `more`.
pub open spec fn merged(keys: Seq<Seq<char>>, more: Seq<Seq<char>>) -> Seq<Seq<char>>
    decreases more.len(),
{
    if more.len() == 0 {
        keys
    } else {
        let m = merged(keys, more.drop_last());
        if m.contains(more.last()) {
            m
        } else {
            m.push(more.last())
        }
    }
}

/// The markers among the first `n` keys.
pub open spec fn markers_before(keys: Seq<Seq<char>>, n: nat) -> Set<Seq<char>> {
    Set::new(|m: Seq<char>| is_marker(m) && keys.subrange(0, n as int).contains(m))
}

impl DeleteView {
    /// The keys handed out for deletion so far, batch after batch.
    pub open spec fn attempted(self) -> Seq<Seq<char>> {
        self.keys.subrange(0, self.sent as int)
    }

    pub open spec fn wf(self) -> bool {
        &&& self.keys.no_duplicates()
        &&& self.expanded <= self.keys.len()
        &&& self.sent <= self.batch_end <= self.keys.len()
        &&& (self.sent > 0 || self.awaiting == Awaiting::Deletion) ==> self.expanded == self.keys.len()
        &&& forall|k: Seq<char>| #[trigger] self.keys.contains(k) <==> covered(self.inputs, self.found, k)
        &&& self.found.dom() == markers_before(self.keys, self.expanded)
        &&& self.awaiting == Awaiting::Listing ==> self.expanded < self.keys.len() && is_marker(
            self.keys[self.expanded as int],
        )
        &&& self.awaiting == Awaiting::Deletion ==> self.sent < self.batch_end <= self.sent
            + MAX_KEYS_PER_DELETE
        &&& self.awaiting != Awaiting::Deletion ==> self.batch_end == self.sent
    }

    /// Every gathered key has been handed out, after every marker was listed.
    pub open spec fn complete(self) -> bool {
        self.expanded == self.keys.len() && self.sent == self.keys.len()
    }
}

/// What a deletion hands out next, as its view says.
pub open spec fn next_call_ok(v: DeleteView, s: StepView) -> bool {
    match s {
        StepView::Send(CallView::ListObjects { bucket, prefix, grouped }) => {
            &&& v.awaiting == Awaiting::Listing
            &&& bucket == v.bucket
            &&& prefix == v.keys[v.expanded as int]
            &&& !grouped
        },
        StepView::Send(CallView::DeleteObjects { bucket, keys }) => {
            &&& v.awaiting == Awaiting::Deletion
            &&& bucket == v.bucket
            &&& v.expanded == v.keys.len()
            &&& v.batch_end == if v.sent + MAX_KEYS_PER_DELETE < v.keys.len() {
                v.sent + MAX_KEYS_PER_DELETE
            } else {
                v.keys.len() as int
            }
            &&& keys == v.keys.subrange(v.sent as int, v.batch_end as int)
            &&& 1 <= keys.len() <= MAX_KEYS_PER_DELETE
        },
        StepView::Send(_) => false,
        StepView::Finish(Ok(())) => v.awaiting == Awaiting::Nothing && v.complete(),
        StepView::Finish(Err(_)) => v.awaiting == Awaiting::Nothing,
    }
}

/// The error for a reply that does not answer the call that was made.
pub open spec fn unexpected_reply() -> (ErrorKind, Seq<char>) {
    (ErrorKind::Backend, "unexpected reply from the store"@)
}

pub fn unexpected_reply_error() -> (r: S3Error)
    ensures
        r@ == unexpected_reply(),
{
    S3Error::Backend(String::from_str("unexpected reply from the store"))
}

fn contains_text(v: &Vec<String>, s: &String) -> (r: bool)
    ensures
        r == texts(v@).contains(s@),
{
    let mut i: usize = 0;
    while i < v.len()
        invariant
            i <= v@.len(),
            forall|j: int| 0 <= j < i ==> v@[j]@ != s@,
        decreases v@.len() - i,
    {
        if v[i] == *s {
            assert(texts(v@)[i as int] == s@);
            return true;
        }
        i = i + 1;
    }
    assert forall|j: int| 0 <= j < texts(v@).len() implies texts(v@)[j] != s@ by {}
    false
}

fn copy_range(v: &Vec<String>, from: usize, to: usize) -> (r: Vec<String>)
    requires
        from <= to <= v@.len(),
    ensures
        texts(r@) == texts(v@).subrange(from as int, to as int),
{
    let mut r: Vec<String> = Vec::new();
    let mut i: usize = from;
    while i < to
        invariant
            from <= i <= to <= v@.len(),
            texts(r@) == texts(v@).subrange(from as int, i as int),
        decreases to - i,
    {
        let ghost before = r@;
        r.push(v[i].clone());
        assert(r@ == before.push(v@[i as int]));
        assert(texts(r@) =~= texts(before).push(v@[i as int]@));
        assert(texts(r@) =~= texts(v@).subrange(from as int, i + 1));
        i = i + 1;
    }
    r
}

proof fn lemma_push_contains<A>(s: Seq<A>, x: A)
    ensures
        forall|k: A| #[trigger] s.push(x).contains(k) <==> (s.contains(k) || k == x),
{
    assert forall|k: A| #[trigger] s.push(x).contains(k) <==> (s.contains(k) || k == x) by {
        if s.push(x).contains(k) {
            let i = choose|i: int| 0 <= i < s.push(x).len() && s.push(x)[i] == k;
            if i < s.len() {
                assert(s[i] == k);
            }
        }
        if s.contains(k) {
            let i = choose|i: int| 0 <= i < s.len() && s[i] == k;
            assert(s.push(x)[i] == k);
        }
        if k == x {
            assert(s.push(x)[s.len() as int] == k);
        }
    }
}

proof fn lemma_push_distinct<A>(s: Seq<A>, x: A)
    requires
        s.no_duplicates(),
        !s.contains(x),
    ensures
        s.push(x).no_duplicates(),
{
    assert forall|i: int, j: int| 0 <= i < j < s.push(x).len() implies s.push(x)[i] != s.push(x)[j] by {
        if j == s.len() {
            assert(s[i] == s.push(x)[i]);
        }
    }
}

proof fn lemma_markers_step(keys: Seq<Seq<char>>, n: nat)
    requires
        n < keys.len(),
    ensures
        is_marker(keys[n as int]) ==> markers_before(keys, n + 1) == markers_before(keys, n).insert(
            keys[n as int],
        ),
        !is_marker(keys[n as int]) ==> markers_before(keys, n + 1) == markers_before(keys, n),
{
    assert(keys.subrange(0, (n + 1) as int) =~= keys.subrange(0, n as int).push(keys[n as int]));
    lemma_push_contains(keys.subrange(0, n as int), keys[n as int]);
    assert(markers_before(keys, n + 1) =~= if is_marker(keys[n as int]) {
        markers_before(keys, n).insert(keys[n as int])
    } else {
        markers_before(keys, n)
    });
}

proof fn lemma_markers_extend(keys: Seq<Seq<char>>, more: Seq<Seq<char>>, n: nat)
    requires
        n <= keys.len(),
    ensures
        markers_before(keys + more, n) == markers_before(keys, n),
{
    assert((keys + more).subrange(0, n as int) =~= keys.subrange(0, n as int));
    assert(markers_before(keys + more, n) =~= markers_before(keys, n));
}

impl DeleteObjectsOp {
    pub open spec fn wf(&self) -> bool {
        self@.wf()
    }

    /// The keys the store reported it could not delete, so far.
    pub fn failed_keys(&self) -> (r: &Vec<String>)
        ensures
            texts(r@) == self@.failed,
    {
        &self.failed
    }

    /// Starts the deletion of `keys` from `bucket`. Nothing is asked of the
    /// store when `keys` is empty.
    pub fn start(bucket: &str, keys: &Vec<String>) -> (r: (DeleteObjectsOp, Step))
        ensures
            r.0.wf(),
            r.0@.bucket == bucket@,
            r.0@.inputs == texts(keys@),
            r.0@.keys == merged(Seq::empty(), texts(keys@)),
            r.0@.sent == 0,
            r.0@.failed.len() == 0,
            forall|i: int| 0 <= i < r.0@.expanded ==> !is_marker(#[trigger] r.0@.keys[i]),
            next_call_ok(r.0@, r.1@),
            keys@.len() == 0 ==> r.1@ == StepView::Finish(Ok(())),
            keys@.len() > 0 ==> r.1@ is Send,
    {
        let mut gathered: Vec<String> = Vec::new();
        let mut i: usize = 0;
        while i < keys.len()
            invariant
                i <= keys@.len(),
                texts(gathered@).no_duplicates(),
                texts(gathered@) == merged(Seq::empty(), texts(keys@).subrange(0, i as int)),
                gathered@.len() <= i,
                forall|k: Seq<char>| #[trigger] texts(gathered@).contains(k) <==> texts(keys@).subrange(
                    0,
                    i as int,
                ).contains(k),
            decreases keys@.len() - i,
        {
            let ghost before = texts(gathered@);
            proof {
                assert(texts(keys@).subrange(0, i + 1) =~= texts(keys@).subrange(0, i as int).push(
                    keys@[i as int]@,
                ));
            }
            proof {
                lemma_push_contains(texts(keys@).subrange(0, i as int), keys@[i as int]@);
                assert(texts(keys@).subrange(0, i + 1).drop_last() =~= texts(keys@).subrange(0, i as int));
                assert(texts(keys@).subrange(0, i + 1).last() == keys@[i as int]@);
            }
            if !contains_text(&gathered, &keys[i]) {
                gathered.push(keys[i].clone());
                assert(texts(gathered@) =~= before.push(keys@[i as int]@));
                proof {
                    lemma_push_contains(before, keys@[i as int]@);
                    lemma_push_distinct(before, keys@[i as int]@);
                }
            }
            i = i + 1;
        }
        assert(texts(keys@).subrange(0, i as int) =~= texts(keys@));
        let mut op = DeleteObjectsOp {
            bucket: String::from_str(bucket),
            keys: gathered,
            expanded: 0,
            sent: 0,
            batch_end: 0,
            awaiting: Awaiting::Nothing,
            failed: Vec::new(),
            inputs: Ghost(texts(keys@)),
            found: Ghost(Map::empty()),
        };
        proof {
            assert(op@.found.dom() =~= markers_before(op@.keys, 0));
            assert(texts(op.failed@) =~= Seq::<Seq<char>>::empty());
            assert forall|k: Seq<char>| #[trigger] op@.keys.contains(k) <==> covered(
                op@.inputs,
                op@.found,
                k,
            ) by {}
        }
        let step = op.advance();
        (op, step)
    }

    /// Moves on to the next call: the listing of the next folder marker, else
    /// the next batch of keys to delete, else the end.
    fn advance(&mut self) -> (r: Step)
        requires
            old(self).wf(),
            old(self).awaiting == Awaiting::Nothing,
        ensures
            final(self).wf(),
            final(self)@.bucket == old(self)@.bucket,
            final(self)@.inputs == old(self)@.inputs,
            final(self)@.keys == old(self)@.keys,
            final(self)@.found == old(self)@.found,
            final(self)@.failed == old(self)@.failed,
            final(self)@.sent == old(self)@.sent,
            final(self)@.expanded >= old(self)@.expanded,
            forall|i: int| old(self)@.expanded <= i < final(self)@.expanded ==> !is_marker(
                #[trigger] final(self)@.keys[i],
            ),
            next_call_ok(final(self)@, r@),
            r@ is Send || r@ == StepView::Finish(Ok(())),
    {
        while self.expanded < self.keys.len() && !ends_with_char(self.keys[self.expanded].as_str(), '/')
            invariant
                self.wf(),
                self.awaiting == Awaiting::Nothing,
                self@.bucket == old(self)@.bucket,
                self@.inputs == old(self)@.inputs,
                self@.keys == old(self)@.keys,
                self@.found == old(self)@.found,
                self@.failed == old(self)@.failed,
                self@.sent == old(self)@.sent,
                self@.expanded >= old(self)@.expanded,
                forall|i: int| old(self)@.expanded <= i < self@.expanded ==> !is_marker(
                    #[trigger] self@.keys[i],
                ),
            decreases self.keys@.len() - self.expanded,
        {
            proof {
                lemma_markers_step(self@.keys, self.expanded as nat);
            }
            self.expanded = self.expanded + 1;
        }
        if self.expanded < self.keys.len() {
            self.awaiting = Awaiting::Listing;
            Step::Send(
                Call::ListObjects {
                    bucket: self.bucket.clone(),
                    prefix: self.keys[self.expanded].clone(),
                    grouped: false,
                },
            )
        } else if self.sent < self.keys.len() {
            let end = if self.keys.len() - self.sent > MAX_KEYS_PER_DELETE {
                self.sent + MAX_KEYS_PER_DELETE
            } else {
                self.keys.len()
            };
            let batch = copy_range(&self.keys, self.sent, end);
            self.batch_end = end;
            self.awaiting = Awaiting::Deletion;
            Step::Send(Call::DeleteObjects { bucket: self.bucket.clone(), keys: batch })
        } else {
            Step::Finish(Ok(()))
        }
    }

    fn fail(&mut self, e: S3Error) -> (r: Step)
        requires
            old(self).wf(),
        ensures
            final(self).wf(),
            final(self)@ == (DeleteView {
                awaiting: Awaiting::Nothing,
                batch_end: old(self)@.sent,
                ..old(self)@
            }),
            r@ == StepView::Finish(Err(e@)),
    {
        self.awaiting = Awaiting::Nothing;
        self.batch_end = self.sent;
        Step::Finish(Err(e))
    }

    /// Resumes the deletion with the store's reply to the call it handed out
    /// last. A failed listing or deletion request ends it with a `Backend`
    /// error; keys that the store reports it could not delete are noted in
    /// [`failed_keys`](Self::failed_keys) and do not stop it.
    pub fn resume(&mut self, reply: Reply) -> (r: Step)
        requires
            old(self).wf(),
        ensures
            final(self).wf(),
            final(self)@.bucket == old(self)@.bucket,
            final(self)@.inputs == old(self)@.inputs,
            next_call_ok(final(self)@, r@),
            old(self)@.keys.len() <= final(self)@.keys.len(),
            final(self)@.keys.subrange(0, old(self)@.keys.len() as int) == old(self)@.keys,
            old(self)@.awaiting == Awaiting::Listing && reply is Listing ==> {
                let m = old(self)@.keys[old(self)@.expanded as int];
                &&& final(self)@.found == old(self)@.found.insert(
                    m,
                    keys_under(m, reply->Listing_0.contents@),
                )
                &&& final(self)@.keys == merged(old(self)@.keys, keys_under(m, reply->Listing_0.contents@))
                &&& final(self)@.sent == old(self)@.sent
                &&& final(self)@.expanded > old(self)@.expanded
                &&& forall|i: int| old(self)@.expanded < i < final(self)@.expanded ==> !is_marker(
                    #[trigger] final(self)@.keys[i],
                )
            },
            old(self)@.awaiting == Awaiting::Deletion && reply is Deleted ==> {
                &&& final(self)@.keys == old(self)@.keys
                &&& final(self)@.sent == old(self)@.batch_end
                &&& final(self)@.failed == old(self)@.failed + texts(reply->failed@)
            },
            (old(self)@.awaiting == Awaiting::Listing && reply is Listing) || (old(self)@.awaiting
                == Awaiting::Deletion && reply is Deleted) ==> (r@ is Send || r@ == StepView::Finish(
                Ok(()),
            )),
            old(self)@.awaiting != Awaiting::Nothing && reply is Failed ==> r@ == StepView::Finish(
                Err((ErrorKind::Backend, reply->Failed_0.message@)),
            ),
    {
        match self.awaiting {
            Awaiting::Listing => match reply {
                Reply::Listing(page) => self.take_listing(&page),
                Reply::Failed(f) => self.fail(S3Error::Backend(f.message)),
                _ => self.fail(unexpected_reply_error()),
            },
            Awaiting::Deletion => match reply {
                Reply::Deleted { failed } => {
                    let mut j: usize = 0;
                    while j < failed.len()
                        invariant
                            self.wf(),
                            self@.awaiting == Awaiting::Deletion,
                            self@ == (DeleteView { failed: self@.failed, ..old(self)@ }),
                            j <= failed@.len(),
                            self@.failed == old(self)@.failed + texts(failed@).subrange(0, j as int),
                        decreases failed@.len() - j,
                    {
                        let ghost before = self.failed@;
                        self.failed.push(failed[j].clone());
                        assert(self.failed@ == before.push(failed@[j as int]));
                        assert(texts(self.failed@) =~= texts(before).push(failed@[j as int]@));
                        assert(self@.failed =~= old(self)@.failed + texts(failed@).subrange(0, j + 1));
                        j = j + 1;
                    }
                    assert(texts(failed@).subrange(0, j as int) =~= texts(failed@));
                    self.sent = self.batch_end;
                    self.awaiting = Awaiting::Nothing;
                    self.advance()
                },
                Reply::Failed(f) => self.fail(S3Error::Backend(f.message)),
                _ => self.fail(unexpected_reply_error()),
            },
            Awaiting::Nothing => self.fail(unexpected_reply_error()),
        }
    }

    fn take_listing(&mut self, page: &crate::protocol::ListingPage) -> (r: Step)
        requires
            old(self).wf(),
            old(self).awaiting == Awaiting::Listing,
        ensures
            final(self).wf(),
            final(self)@.bucket == old(self)@.bucket,
            final(self)@.inputs == old(self)@.inputs,
            final(self)@.failed == old(self)@.failed,
            next_call_ok(final(self)@, r@),
            old(self)@.keys.len() <= final(self)@.keys.len(),
            final(self)@.keys.subrange(0, old(self)@.keys.len() as int) == old(self)@.keys,
            final(self)@.found == old(self)@.found.insert(
                old(self)@.keys[old(self)@.expanded as int],
                keys_under(old(self)@.keys[old(self)@.expanded as int], page.contents@),
            ),
            final(self)@.keys == merged(
                old(self)@.keys,
                keys_under(old(self)@.keys[old(self)@.expanded as int], page.contents@),
            ),
            final(self)@.sent == old(self)@.sent,
            final(self)@.expanded > old(self)@.expanded,
            forall|i: int| old(self)@.expanded < i < final(self)@.expanded ==> !is_marker(
                #[trigger] final(self)@.keys[i],
            ),
            r@ is Send || r@ == StepView::Finish(Ok(())),
    {
        let ghost old_view = self@;
        let marker = self.keys[self.expanded].clone();
        let ghost m = marker@;
        let listed = listed_keys(marker.as_str(), page);
        let ghost new_keys = texts(listed@);
        let n0 = self.keys.len();
        let mut j: usize = 0;
        while j < listed.len()
            invariant
                self@ == (DeleteView { keys: self@.keys, ..old_view }),
                self.awaiting == Awaiting::Listing,
                n0 == old_view.keys.len(),
                j <= listed@.len(),
                new_keys == texts(listed@),
                self@.keys.no_duplicates(),
                n0 <= self@.keys.len(),
                self@.keys.subrange(0, n0 as int) == old_view.keys,
                self@.keys == merged(old_view.keys, new_keys.subrange(0, j as int)),
                forall|k: Seq<char>| #[trigger] self@.keys.contains(k) <==> (old_view.keys.contains(k)
                    || new_keys.subrange(0, j as int).contains(k)),
            decreases listed@.len() - j,
        {
            let ghost before = self@.keys;
            proof {
                assert(new_keys.subrange(0, j + 1) =~= new_keys.subrange(0, j as int).push(new_keys[j as int]));
            }
            proof {
                lemma_push_contains(new_keys.subrange(0, j as int), new_keys[j as int]);
                assert(new_keys.subrange(0, j + 1).drop_last() =~= new_keys.subrange(0, j as int));
                assert(new_keys.subrange(0, j + 1).last() == new_keys[j as int]);
            }
            if !contains_text(&self.keys, &listed[j]) {
                self.keys.push(listed[j].clone());
                assert(self@.keys =~= before.push(new_keys[j as int]));
                proof {
                    lemma_push_contains(before, new_keys[j as int]);
                    lemma_push_distinct(before, new_keys[j as int]);
                }
                assert(self@.keys.subrange(0, n0 as int) =~= before.subrange(0, n0 as int));
            }
            j = j + 1;
        }
        assert(new_keys.subrange(0, j as int) =~= new_keys);
        let ghost keys1 = self@.keys;
        proof {
            let more = keys1.subrange(n0 as int, keys1.len() as int);
            assert(keys1 =~= old_view.keys + more);
            lemma_markers_extend(old_view.keys, more, old_view.expanded);
            lemma_markers_step(keys1, old_view.expanded);
            assert(keys1[old_view.expanded as int] == old_view.keys[old_view.expanded as int]);
            assert(!old_view.found.contains_key(m)) by {
                if old_view.found.contains_key(m) {
                    let i = choose|i: int| 0 <= i < old_view.expanded && old_view.keys.subrange(
                        0,
                        old_view.expanded as int,
                    )[i] == m;
                    assert(old_view.keys[i] == old_view.keys[old_view.expanded as int]);
                }
            }
        }
        self.found = Ghost(self.found@.insert(m, new_keys));
        self.expanded = self.expanded + 1;
        self.awaiting = Awaiting::Nothing;
        proof {
            let f = self@.found;
            assert(f.dom() =~= markers_before(keys1, self@.expanded));
            assert forall|k: Seq<char>| #[trigger] self@.keys.contains(k) <==> covered(
                self@.inputs,
                f,
                k,
            ) by {
                if self@.keys.contains(k) {
                    if old_view.keys.contains(k) {
                        assert(covered(old_view.inputs, old_view.found, k));
                        if !old_view.inputs.contains(k) {
                            let m2 = choose|m2: Seq<char>| old_view.found.contains_key(m2)
                                && #[trigger] old_view.found[m2].contains(k);
                            assert(f.contains_key(m2) && f[m2].contains(k));
                        }
                    } else {
                        assert(f[m].contains(k));
                    }
                }
                if covered(self@.inputs, f, k) {
                    if !self@.inputs.contains(k) {
                        let m2 = choose|m2: Seq<char>| f.contains_key(m2) && #[trigger] f[m2].contains(k);
                        if m2 != m {
                            assert(old_view.found[m2].contains(k));
                            assert(covered(old_view.inputs, old_view.found, k));
                        }
                    } else {
                        assert(covered(old_view.inputs, old_view.found, k));
                    }
                }
            }
        }
        self.advance()
    }
}

/// When a deletion has handed out all it gathered (as it has when it finishes
/// successfully), the keys handed out, batch after batch, are each handed out
/// once, and they are exactly the keys asked for together with every key
/// reported under a listed folder marker; every folder marker among them has
/// been listed.
pub proof fn lemma_deletion_covers_expansions(op: DeleteObjectsOp)
    requires
        op.wf(),
        op@.complete(),
    ensures
        op@.attempted().no_duplicates(),
        forall|k: Seq<char>| #[trigger] op@.attempted().contains(k) <==> covered(op@.inputs, op@.found, k),
        forall|k: Seq<char>| #[trigger] op@.attempted().contains(k) && is_marker(k) ==> op@.found.contains_key(k),
{
    let v = op@;
    assert(v.attempted() =~= v.keys);
    assert(v.keys.subrange(0, v.expanded as int) =~= v.keys);
}

/// Deleting a folder marker leaves nothing under it. Suppose each listing the
/// deletion received reported every key that `store` holds under the listed
/// marker (the store was not written to meanwhile). Then, once the deletion has
/// handed out all it gathered, every key of `store` under a marker `m` that was
/// asked for was handed out: deleting them leaves no key under `m`, and a new
/// listing under `m` finds nothing.
pub proof fn lemma_folder_emptied(op: DeleteObjectsOp, store: Set<Seq<char>>, m: Seq<char>)
    requires
        op.wf(),
        op@.complete(),
        op@.inputs.contains(m),
        is_marker(m),
        forall|mk: Seq<char>, k: Seq<char>|
            #![trigger op@.found[mk].contains(k)]
            op@.found.contains_key(mk) && store.contains(k) && crate::text::has_prefix(k, mk) && k != mk
                ==> op@.found[mk].contains(k),
    ensures
        forall|k: Seq<char>| #[trigger] store.contains(k) && crate::text::has_prefix(k, m) ==> op@.attempted().contains(k),
        forall|k: Seq<char>| #[trigger] store.difference(op@.attempted().to_set()).contains(k) ==> !crate::text::has_prefix(k, m),
{
    let v = op@;
    lemma_deletion_covers_expansions(op);
    assert(covered(v.inputs, v.found, m));
    assert(v.attempted().contains(m));
    assert(v.found.contains_key(m));
    assert forall|k: Seq<char>| #[trigger] store.contains(k) && crate::text::has_prefix(k, m) implies v.attempted().contains(k) by {
        if k != m {
            assert(v.found[m].contains(k));
            assert(covered(v.inputs, v.found, k));
        }
    }
    assert forall|k: Seq<char>| #[trigger] store.difference(v.attempted().to_set()).contains(k) implies !crate::text::has_prefix(k, m) by {
        if crate::text::has_prefix(k, m) {
            assert(v.attempted().contains(k));
            assert(v.attempted().to_set().contains(k));
        }
    }
}

} // verus!
