//! Folder-style listings built from a page of store results.
use vstd::prelude::*;
use crate::protocol::{ListedEntry, ListingPage};
use crate::text::same_text;

verus! {

/// An entry of a listing: a folder (a common prefix, of size 0 and without a
/// time) or an object.
#[derive(Clone, Debug)]
pub struct S3Object {
    /// The key, or for a folder the whole prefix with its trailing `/`.
    pub name: String,
    /// Size in bytes.
    pub size: u64,
    /// Last modification, as an RFC 3339 timestamp.
    pub last_modified: Option<String>,
}

pub struct ObjectView {
    pub name: Seq<char>,
    pub size: u64,
    pub last_modified: Option<Seq<char>>,
}

impl View for S3Object {
    type V = ObjectView;

    open spec fn view(&self) -> ObjectView {
        ObjectView {
            name: self.name@,
            size: self.size,
            last_modified: match self.last_modified {
                Some(t) => Some(t@),
                None => None,
            },
        }
    }
}

/// The latest time that is written as a timestamp: the last second of year 9999.
pub const LATEST_TIMESTAMP_SECS: i64 = 253402300799;

/// The RFC 3339 text of a time given in seconds since the Unix epoch.
pub uninterp spec fn rfc3339_of(secs: int) -> Seq<char>;

/// Relies on chrono's `From<SystemTime> for DateTime<Utc>` and
/// `DateTime::to_rfc3339`: the result depends on `secs` alone. The bound keeps
/// the time within the range that chrono converts without panicking.
#[verifier::external_body]
fn rfc3339(secs: u64) -> (r: String)
    requires
        secs <= LATEST_TIMESTAMP_SECS,
    ensures
        r@ == rfc3339_of(secs as int),
{
    let t = std::time::UNIX_EPOCH + std::time::Duration::from_secs(secs);
    let dt: chrono::DateTime<chrono::Utc> = t.into();
    dt.to_rfc3339()
}

/// The folder entries of a listing: one for each common prefix, in order.
pub open spec fn folder_entries(prefixes: Seq<Option<String>>) -> Seq<ObjectView>
    decreases prefixes.len(),
{
    if prefixes.len() == 0 {
        Seq::empty()
    } else {
        let rest = folder_entries(prefixes.drop_last());
        match prefixes.last() {
            Some(p) => rest.push(ObjectView { name: p@, size: 0, last_modified: None }),
            None => rest,
        }
    }
}

pub open spec fn entry_key(e: ListedEntry) -> Seq<char> {
    match e.key {
        Some(k) => k@,
        None => Seq::empty(),
    }
}

/// Negative sizes, which a store should not report, count as 0.
pub open spec fn entry_size(e: ListedEntry) -> u64 {
    match e.size {
        Some(s) => if s >= 0 { s as u64 } else { 0 },
        None => 0,
    }
}

/// Times before the epoch count as the epoch; times past year 9999 are left out.
pub open spec fn entry_time(e: ListedEntry) -> Option<Seq<char>> {
    match e.modified_secs {
        Some(t) => {
            let c = if t < 0 { 0 } else { t };
            if c <= LATEST_TIMESTAMP_SECS {
                Some(rfc3339_of(c as int))
            } else {
                None
            }
        },
        None => None,
    }
}

/// The empty object that stands for the folder being listed.
pub open spec fn is_placeholder(prefix: Seq<char>, e: ListedEntry) -> bool {
    prefix.len() > 0 && entry_key(e) == prefix
}

/// The object entries of a listing under `prefix`, in order, without the
/// folder's own placeholder.
pub open spec fn file_entries(prefix: Seq<char>, contents: Seq<ListedEntry>) -> Seq<ObjectView>
    decreases contents.len(),
{
    if contents.len() == 0 {
        Seq::empty()
    } else {
        let rest = file_entries(prefix, contents.drop_last());
        let e = contents.last();
        if is_placeholder(prefix, e) {
            rest
        } else {
            rest.push(ObjectView { name: entry_key(e), size: entry_size(e), last_modified: entry_time(e) })
        }
    }
}

/// The listing of a page under `prefix`: folders first, then objects.
pub open spec fn listing_of(prefix: Seq<char>, page: ListingPage) -> Seq<ObjectView> {
    folder_entries(page.common_prefixes@) + file_entries(prefix, page.contents@)
}

pub open spec fn views_of(v: Seq<S3Object>) -> Seq<ObjectView> {
    v.map_values(|o: S3Object| o@)
}

/// The keys a listing under `prefix` reports, in order, without keyless
/// entries and without the prefix itself.
pub open spec fn keys_under(prefix: Seq<char>, contents: Seq<ListedEntry>) -> Seq<Seq<char>>
    decreases contents.len(),
{
    if contents.len() == 0 {
        Seq::empty()
    } else {
        let rest = keys_under(prefix, contents.drop_last());
        match contents.last().key {
            Some(k) => if k@ == prefix { rest } else { rest.push(k@) },
            None => rest,
        }
    }
}

fn entry_object(e: &ListedEntry) -> (r: S3Object)
    ensures
        r@ == (ObjectView { name: entry_key(*e), size: entry_size(*e), last_modified: entry_time(*e) }),
{
    let name = match &e.key {
        Some(k) => k.clone(),
        None => String::new(),
    };
    let size: u64 = match e.size {
        Some(s) => if s >= 0 { s as u64 } else { 0 },
        None => 0,
    };
    let last_modified = match e.modified_secs {
        Some(t) => {
            let c: i64 = if t < 0 { 0 } else { t };
            if c <= LATEST_TIMESTAMP_SECS {
                Some(rfc3339(c as u64))
            } else {
                None
            }
        },
        None => None,
    };
    S3Object { name, size, last_modified }
}

/// Turns a page of store results for `prefix` into the listing: a folder entry
/// for each common prefix, then an entry for each object, leaving out the
/// empty placeholder object whose key is the prefix itself.
pub fn build_listing(prefix: &str, page: &ListingPage) -> (r: Vec<S3Object>)
    ensures
        views_of(r@) == listing_of(prefix@, *page),
{
    let mut r: Vec<S3Object> = Vec::new();
    let mut i: usize = 0;
    while i < page.common_prefixes.len()
        invariant
            i <= page.common_prefixes@.len(),
            views_of(r@) == folder_entries(page.common_prefixes@.subrange(0, i as int)),
        decreases page.common_prefixes@.len() - i,
    {
        let ghost before = r@;
        proof {
            assert(page.common_prefixes@.subrange(0, i + 1).drop_last()
                =~= page.common_prefixes@.subrange(0, i as int));
        }
        match &page.common_prefixes[i] {
            Some(p) => {
                r.push(S3Object { name: p.clone(), size: 0, last_modified: None });
                assert(views_of(r@) =~= views_of(before).push(r@.last()@));
            },
            None => {},
        }
        i = i + 1;
    }
    assert(page.common_prefixes@.subrange(0, i as int) =~= page.common_prefixes@);
    let ghost folders = views_of(r@);
    let placeholder_possible = prefix.unicode_len() > 0;
    let mut j: usize = 0;
    while j < page.contents.len()
        invariant
            j <= page.contents@.len(),
            placeholder_possible == (prefix@.len() > 0),
            views_of(r@) == folders + file_entries(prefix@, page.contents@.subrange(0, j as int)),
        decreases page.contents@.len() - j,
    {
        let ghost before = r@;
        proof {
            assert(page.contents@.subrange(0, j + 1).drop_last() =~= page.contents@.subrange(0, j as int));
        }
        let e = &page.contents[j];
        let skip = placeholder_possible && match &e.key {
            Some(k) => same_text(k.as_str(), prefix),
            None => same_text("", prefix),
        };
        proof {
            reveal_strlit("");
            assert(skip == is_placeholder(prefix@, *e));
        }
        if !skip {
            r.push(entry_object(e));
            assert(views_of(r@) =~= views_of(before).push(r@.last()@));
        }
        j = j + 1;
    }
    assert(page.contents@.subrange(0, j as int) =~= page.contents@);
    r
}

/// The keys that a listing under `prefix` reports, without keyless entries and
/// without the prefix itself.
pub fn listed_keys(prefix: &str, page: &ListingPage) -> (r: Vec<String>)
    ensures
        crate::protocol::texts(r@) == keys_under(prefix@, page.contents@),
{
    let mut r: Vec<String> = Vec::new();
    let mut j: usize = 0;
    while j < page.contents.len()
        invariant
            j <= page.contents@.len(),
            crate::protocol::texts(r@) == keys_under(prefix@, page.contents@.subrange(0, j as int)),
        decreases page.contents@.len() - j,
    {
        let ghost before = r@;
        proof {
            assert(page.contents@.subrange(0, j + 1).drop_last() =~= page.contents@.subrange(0, j as int));
        }
        match &page.contents[j].key {
            Some(k) => {
                if !same_text(k.as_str(), prefix) {
                    r.push(k.clone());
                    assert(crate::protocol::texts(r@) =~= crate::protocol::texts(before).push(
                        r@.last()@,
                    ));
                }
            },
            None => {},
        }
        j = j + 1;
    }
    assert(page.contents@.subrange(0, j as int) =~= page.contents@);
    r
}

/// Some entry of `v` is named `n`.
pub open spec fn names_in(v: Seq<ObjectView>, n: Seq<char>) -> bool {
    exists|i: int| 0 <= i < v.len() && #[trigger] v[i].name == n
}

/// Some object of `contents` other than the placeholder of `prefix` has key `n`.
pub open spec fn reported_object(prefix: Seq<char>, contents: Seq<ListedEntry>, n: Seq<char>) -> bool {
    exists|j: int| 0 <= j < contents.len() && #[trigger] entry_key(contents[j]) == n && !is_placeholder(prefix, contents[j])
}

/// `k` lies directly in the folder `prefix`: it starts with the prefix and
/// holds no `/` after it.
pub open spec fn direct_child(prefix: Seq<char>, k: Seq<char>) -> bool {
    &&& crate::text::has_prefix(k, prefix)
    &&& forall|i: int| prefix.len() <= i < k.len() ==> #[trigger] k[i] != '/'
}

/// `page` answers a listing of `prefix` grouped at `/` faithfully for a bucket
/// holding the keys `objects`: its objects are exactly the keys that lie
/// directly in the folder.
pub open spec fn lists_level(objects: Set<Seq<char>>, prefix: Seq<char>, page: ListingPage) -> bool {
    &&& forall|j: int| 0 <= j < page.contents@.len() ==> {
        &&& (#[trigger] page.contents@[j]).key is Some
        &&& objects.contains(entry_key(page.contents@[j]))
        &&& direct_child(prefix, entry_key(page.contents@[j]))
    }
    &&& forall|k: Seq<char>| #[trigger] objects.contains(k) && direct_child(prefix, k) ==> exists|j: int|
        0 <= j < page.contents@.len() && #[trigger] entry_key(page.contents@[j]) == k
}

/// The object entries of a listing are named exactly after the objects of the
/// page, leaving out the placeholder of the folder.
pub proof fn lemma_file_entry_names(prefix: Seq<char>, contents: Seq<ListedEntry>)
    ensures
        forall|n: Seq<char>| #[trigger] names_in(file_entries(prefix, contents), n) <==> reported_object(prefix, contents, n),
    decreases contents.len(),
{
    if contents.len() > 0 {
        let init = contents.drop_last();
        let e = contents.last();
        lemma_file_entry_names(prefix, init);
        let fe0 = file_entries(prefix, init);
        let fe = file_entries(prefix, contents);
        let v = ObjectView { name: entry_key(e), size: entry_size(e), last_modified: entry_time(e) };
        assert(e == contents[contents.len() - 1]);
        if is_placeholder(prefix, e) {
            assert(fe == fe0);
        } else {
            assert(fe == fe0.push(v));
        }
        assert(forall|i: int| 0 <= i < fe0.len() ==> fe[i] == fe0[i]);
        assert(fe.len() > fe0.len() ==> !is_placeholder(prefix, e) && fe.len() == fe0.len() + 1 && fe[fe0.len() as int] == v);
        assert forall|n: Seq<char>| #[trigger] names_in(fe, n) <==> reported_object(prefix, contents, n) by {
            if names_in(fe, n) {
                let i = choose|i: int| 0 <= i < fe.len() && #[trigger] fe[i].name == n;
                if i < fe0.len() {
                    assert(fe[i] == fe0[i]);
                    assert(names_in(fe0, n));
                    let j = choose|j: int| 0 <= j < init.len() && #[trigger] entry_key(init[j]) == n
                        && !is_placeholder(prefix, init[j]);
                    assert(contents[j] == init[j]);
                } else {
                    assert(!is_placeholder(prefix, e));
                    assert(fe[i] == v);
                    assert(entry_key(contents[contents.len() - 1]) == n);
                }
            }
            if reported_object(prefix, contents, n) {
                let j = choose|j: int| 0 <= j < contents.len() && #[trigger] entry_key(contents[j]) == n
                    && !is_placeholder(prefix, contents[j]);
                if j < init.len() {
                    assert(init[j] == contents[j]);
                    assert(reported_object(prefix, init, n));
                    assert(names_in(fe0, n));
                    let i = choose|i: int| 0 <= i < fe0.len() && #[trigger] fe0[i].name == n;
                    assert(fe[i] == fe0[i]);
                    assert(fe[i].name == n);
                } else {
                    assert(j == contents.len() - 1);
                    assert(fe[fe0.len() as int] == v);
                    assert(fe[fe0.len() as int].name == n);
                }
            }
        }
    }
}

/// Listing a folder gives exactly the objects directly in it. When the store
/// answers faithfully for a bucket holding `objects`, the object entries of
/// the listing of `prefix` are named exactly after the keys that lie directly
/// in the folder, apart from the folder's own placeholder. So a bucket holding
/// `a/b.txt`, `a/c.txt` and `d.txt`, listed under `a/`, gives `a/b.txt` and
/// `a/c.txt` and not `d.txt`.
pub proof fn lemma_folder_listing_is_exact(objects: Set<Seq<char>>, prefix: Seq<char>, page: ListingPage)
    requires
        lists_level(objects, prefix, page),
    ensures
        forall|n: Seq<char>| #[trigger] names_in(file_entries(prefix, page.contents@), n) <==> (objects.contains(n)
            && direct_child(prefix, n) && !(prefix.len() > 0 && n == prefix)),
{
    let c = page.contents@;
    lemma_file_entry_names(prefix, c);
    assert forall|n: Seq<char>| #[trigger] names_in(file_entries(prefix, c), n) <==> (objects.contains(n)
        && direct_child(prefix, n) && !(prefix.len() > 0 && n == prefix)) by {
        if reported_object(prefix, c, n) {
            let j = choose|j: int| 0 <= j < c.len() && #[trigger] entry_key(c[j]) == n && !is_placeholder(prefix, c[j]);
            assert(objects.contains(entry_key(c[j])));
            assert(direct_child(prefix, entry_key(c[j])));
        }
        if objects.contains(n) && direct_child(prefix, n) && !(prefix.len() > 0 && n == prefix) {
            let j = choose|j: int| 0 <= j < c.len() && #[trigger] entry_key(c[j]) == n;
            assert(!is_placeholder(prefix, c[j]));
            assert(reported_object(prefix, c, n));
        }
    }
}

/// A folder's listing leaves out its own placeholder and nothing else: under a
/// non-empty prefix, no object entry is named after the prefix, and every
/// other object of the page is listed.
pub proof fn lemma_placeholder_left_out(prefix: Seq<char>, contents: Seq<ListedEntry>)
    requires
        prefix.len() > 0,
    ensures
        !names_in(file_entries(prefix, contents), prefix),
        forall|j: int| 0 <= j < contents.len() && entry_key(#[trigger] contents[j]) != prefix ==> names_in(
            file_entries(prefix, contents),
            entry_key(contents[j]),
        ),
{
    lemma_file_entry_names(prefix, contents);
    if reported_object(prefix, contents, prefix) {
        let j = choose|j: int| 0 <= j < contents.len() && #[trigger] entry_key(contents[j]) == prefix
            && !is_placeholder(prefix, contents[j]);
    }
    assert forall|j: int| 0 <= j < contents.len() && entry_key(#[trigger] contents[j]) != prefix implies names_in(
        file_entries(prefix, contents),
        entry_key(contents[j]),
    ) by {
        assert(reported_object(prefix, contents, entry_key(contents[j])));
    }
}

/// Seen from its parent, a folder is one entry: each common prefix of the page
/// is listed as a folder entry of size 0 without a time.
pub proof fn lemma_common_prefix_listed(prefixes: Seq<Option<String>>, j: int)
    requires
        0 <= j < prefixes.len(),
        prefixes[j] is Some,
    ensures
        exists|i: int| 0 <= i < folder_entries(prefixes).len() && #[trigger] folder_entries(prefixes)[i] == (ObjectView {
            name: prefixes[j]->0@,
            size: 0,
            last_modified: None,
        }),
    decreases prefixes.len(),
{
    let init = prefixes.drop_last();
    let target = ObjectView { name: prefixes[j]->0@, size: 0, last_modified: None };
    if j < init.len() {
        assert(init[j] == prefixes[j]);
        lemma_common_prefix_listed(init, j);
        let i = choose|i: int| 0 <= i < folder_entries(init).len() && #[trigger] folder_entries(init)[i] == target;
        assert(folder_entries(prefixes)[i] == folder_entries(init)[i]);
    } else {
        assert(folder_entries(prefixes)[folder_entries(init).len() as int] == target);
    }
}

} // verus!
