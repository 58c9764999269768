//! The gateway's error kinds, and how store faults are sorted into them.
use vstd::prelude::*;
use crate::text::{has_substring, same_text, str_contains};

verus! {

/// The kind of an [`S3Error`], without its text.
#[derive(Clone, Copy, Debug, PartialEq, Eq, Structural)]
pub enum ErrorKind {
    AlreadyExists,
    NotFound,
    NotEmpty,
    Invalid,
    Backend,
    SourceNotRemoved,
}

/// A failed gateway operation.
#[derive(Clone, Debug)]
pub enum S3Error {
    /// The named bucket or object already exists.
    AlreadyExists(String),
    /// The named bucket or object does not exist.
    NotFound(String),
    /// The named bucket still holds objects.
    NotEmpty(String),
    /// The request breaks a rule; the text says which.
    Invalid(String),
    /// The store failed in a way that has no kind of its own; the store's text.
    Backend(String),
    /// A move copied the object but could not delete the source; the store's text.
    SourceNotRemoved(String),
}

impl View for S3Error {
    type V = (ErrorKind, Seq<char>);

    open spec fn view(&self) -> (ErrorKind, Seq<char>) {
        match self {
            S3Error::AlreadyExists(t) => (ErrorKind::AlreadyExists, t@),
            S3Error::NotFound(t) => (ErrorKind::NotFound, t@),
            S3Error::NotEmpty(t) => (ErrorKind::NotEmpty, t@),
            S3Error::Invalid(t) => (ErrorKind::Invalid, t@),
            S3Error::Backend(t) => (ErrorKind::Backend, t@),
            S3Error::SourceNotRemoved(t) => (ErrorKind::SourceNotRemoved, t@),
        }
    }
}

/// The status code that reports an error of kind `k`.
pub open spec fn status_of(k: ErrorKind) -> u16 {
    match k {
        ErrorKind::AlreadyExists => 409,
        ErrorKind::NotFound => 404,
        ErrorKind::NotEmpty => 409,
        ErrorKind::Invalid => 400,
        ErrorKind::Backend => 500,
        ErrorKind::SourceNotRemoved => 500,
    }
}

/// The text that describes an error of kind `k` with text `t`.
pub open spec fn describe(k: ErrorKind, t: Seq<char>) -> Seq<char> {
    match k {
        ErrorKind::AlreadyExists => "'"@ + t + "' already exists"@,
        ErrorKind::NotFound => "'"@ + t + "' not found"@,
        ErrorKind::NotEmpty => "'"@ + t + "' is not empty"@,
        ErrorKind::Invalid => t,
        ErrorKind::Backend => "AWS S3 Error: "@ + t,
        ErrorKind::SourceNotRemoved => "File was copied but could not be deleted from source: "@ + t,
    }
}

impl S3Error {
    /// The error's kind.
    pub fn kind(&self) -> (r: ErrorKind)
        ensures
            r == self@.0,
    {
        match self {
            S3Error::AlreadyExists(_) => ErrorKind::AlreadyExists,
            S3Error::NotFound(_) => ErrorKind::NotFound,
            S3Error::NotEmpty(_) => ErrorKind::NotEmpty,
            S3Error::Invalid(_) => ErrorKind::Invalid,
            S3Error::Backend(_) => ErrorKind::Backend,
            S3Error::SourceNotRemoved(_) => ErrorKind::SourceNotRemoved,
        }
    }

    /// The text the error carries: a name, or a message.
    pub fn text(&self) -> (r: &str)
        ensures
            r@ == self@.1,
    {
        match self {
            S3Error::AlreadyExists(t) => t.as_str(),
            S3Error::NotFound(t) => t.as_str(),
            S3Error::NotEmpty(t) => t.as_str(),
            S3Error::Invalid(t) => t.as_str(),
            S3Error::Backend(t) => t.as_str(),
            S3Error::SourceNotRemoved(t) => t.as_str(),
        }
    }

    /// Whether the error's text contains `s`.
    pub fn contains(&self, s: &str) -> (r: bool)
        ensures
            r == has_substring(self@.1, s@),
    {
        str_contains(self.text(), s)
    }

    /// A sentence that describes the error.
    pub fn message(&self) -> (r: String)
        ensures
            r@ == describe(self@.0, self@.1),
    {
        let t = self.text();
        let (head, tail) = match self {
            S3Error::AlreadyExists(_) => ("'", "' already exists"),
            S3Error::NotFound(_) => ("'", "' not found"),
            S3Error::NotEmpty(_) => ("'", "' is not empty"),
            S3Error::Invalid(_) => ("", ""),
            S3Error::Backend(_) => ("AWS S3 Error: ", ""),
            S3Error::SourceNotRemoved(_) => ("File was copied but could not be deleted from source: ", ""),
        };
        proof {
            reveal_strlit("");
        }
        let mut r = String::from_str(head);
        r.append(t);
        r.append(tail);
        proof {
            assert(r@ =~= describe(self@.0, self@.1));
        }
        r
    }

    /// The status code that reports this error.
    pub fn status_code(&self) -> (r: u16)
        ensures
            r == status_of(self@.0),
    {
        match self.kind() {
            ErrorKind::AlreadyExists => 409,
            ErrorKind::NotFound => 404,
            ErrorKind::NotEmpty => 409,
            ErrorKind::Invalid => 400,
            ErrorKind::Backend => 500,
            ErrorKind::SourceNotRemoved => 500,
        }
    }
}

/// A failure as the store reported it.
#[derive(Clone, Debug)]
pub struct BackendFault {
    /// The store's error code, where it gave one (such as `BucketNotEmpty`).
    pub code: Option<String>,
    /// The store's text.
    pub message: String,
    /// The store signalled, by a typed error, that the bucket or key does not exist.
    pub not_found: bool,
}

pub open spec fn code_is(code: Option<String>, c: Seq<char>) -> bool {
    code is Some && code->0@ == c
}

/// The kind of error that a fault is sorted into. Typed signals come first;
/// the text is looked at only when there is none.
pub open spec fn fault_kind(f: BackendFault) -> ErrorKind {
    if f.not_found || code_is(f.code, "NoSuchBucket"@) || code_is(f.code, "NoSuchKey"@)
        || code_is(f.code, "NotFound"@) {
        ErrorKind::NotFound
    } else if code_is(f.code, "BucketAlreadyExists"@) || code_is(f.code, "BucketAlreadyOwnedByYou"@) {
        ErrorKind::AlreadyExists
    } else if code_is(f.code, "BucketNotEmpty"@) {
        ErrorKind::NotEmpty
    } else if f.code is Some {
        ErrorKind::Backend
    } else if has_substring(f.message@, "already exists"@) {
        ErrorKind::AlreadyExists
    } else if has_substring(f.message@, "not empty"@) {
        ErrorKind::NotEmpty
    } else {
        ErrorKind::Backend
    }
}

/// The error that a fault of a call about `subject` becomes: the kinds that
/// concern a bucket or object carry its name, the others the store's text.
pub open spec fn classified(f: BackendFault, subject: Seq<char>) -> (ErrorKind, Seq<char>) {
    let k = fault_kind(f);
    if k == ErrorKind::Backend {
        (k, f.message@)
    } else {
        (k, subject)
    }
}

fn code_matches(code: &Option<String>, c: &str) -> (r: bool)
    ensures
        r == code_is(*code, c@),
{
    match code {
        Some(s) => same_text(s.as_str(), c),
        None => false,
    }
}

/// The kind of error that a fault is sorted into.
pub fn kind_of_fault(fault: &BackendFault) -> (r: ErrorKind)
    ensures
        r == fault_kind(*fault),
{
    if fault.not_found || code_matches(&fault.code, "NoSuchBucket") || code_matches(&fault.code, "NoSuchKey")
        || code_matches(&fault.code, "NotFound") {
        ErrorKind::NotFound
    } else if code_matches(&fault.code, "BucketAlreadyExists") || code_matches(
        &fault.code,
        "BucketAlreadyOwnedByYou",
    ) {
        ErrorKind::AlreadyExists
    } else if code_matches(&fault.code, "BucketNotEmpty") {
        ErrorKind::NotEmpty
    } else if fault.code.is_some() {
        ErrorKind::Backend
    } else if str_contains(fault.message.as_str(), "already exists") {
        ErrorKind::AlreadyExists
    } else if str_contains(fault.message.as_str(), "not empty") {
        ErrorKind::NotEmpty
    } else {
        ErrorKind::Backend
    }
}

/// Sorts a fault of a call about `subject` into the gateway's error kinds.
pub fn classify(fault: &BackendFault, subject: &str) -> (r: S3Error)
    ensures
        r@ == classified(*fault, subject@),
{
    let name = String::from_str(subject);
    match kind_of_fault(fault) {
        ErrorKind::NotFound => S3Error::NotFound(name),
        ErrorKind::AlreadyExists => S3Error::AlreadyExists(name),
        ErrorKind::NotEmpty => S3Error::NotEmpty(name),
        _ => S3Error::Backend(fault.message.clone()),
    }
}

} // verus!
