//! The error that every request of the supervisor is answered with when it
//! is refused or fails.

use vstd::prelude::*;

verus! {

/// What kind of failure a request met.
#[derive(Clone, Copy, Debug, PartialEq, Eq, Structural)]
pub enum ErrorCode {
    AccessDenied,
    AlreadyExited,
    Conflict,
    IdentityMismatch,
    Internal,
    InvalidArgument,
    NotFound,
    NotSupported,
    PlatformError,
    StorageError,
    SupervisorUnavailable,
    Timeout,
}

/// Named facts about an error. Where one name was given twice, the later
/// value counts.
#[derive(Debug)]
pub struct Details {
    entries: Vec<(String, String)>,
}

/// What a list of entries says of each name.
pub open spec fn entries_map(entries: Seq<(String, String)>) -> Map<Seq<char>, Seq<char>>
    decreases entries.len(),
{
    if entries.len() == 0 {
        Map::empty()
    } else {
        entries_map(entries.drop_last()).insert(entries.last().0@, entries.last().1@)
    }
}

impl View for Details {
    type V = Map<Seq<char>, Seq<char>>;

    closed spec fn view(&self) -> Map<Seq<char>, Seq<char>> {
        entries_map(self.entries@)
    }
}

impl Details {
    pub fn new() -> (details: Self)
        ensures
            details@ == Map::<Seq<char>, Seq<char>>::empty(),
    {
        Details { entries: Vec::new() }
    }

    pub fn insert(&mut self, name: &str, value: &str)
        ensures
            final(self)@ == old(self)@.insert(name@, value@),
    {
        self.entries.push((name.to_owned(), value.to_owned()));
        proof {
            assert(self.entries@.drop_last() =~= old(self).entries@);
        }
    }

    /// The value that stands under a name.
    pub fn get(&self, name: &str) -> (value: Option<&str>)
        ensures
            match value {
                Some(text) => self@.dom().contains(name@) && self@[name@] == text@,
                None => !self@.dom().contains(name@),
            },
    {
        let mut left: usize = self.entries.len();
        proof {
            assert(self.entries@.subrange(0, left as int) =~= self.entries@);
        }
        while left > 0
            invariant
                left <= self.entries@.len(),
                self@.dom().contains(name@) == entries_map(
                    self.entries@.subrange(0, left as int),
                ).dom().contains(name@),
                self@.dom().contains(name@) ==> self@[name@] == entries_map(
                    self.entries@.subrange(0, left as int),
                )[name@],
            decreases left,
        {
            let ghost rest = self.entries@.subrange(0, left as int);
            left -= 1;
            proof {
                assert(rest.drop_last() =~= self.entries@.subrange(0, left as int));
                assert(rest.last() == self.entries@[left as int]);
            }
            if crate::text::same_text(self.entries[left].0.as_str(), name) {
                return Some(self.entries[left].1.as_str());
            }
        }
        proof {
            assert(self.entries@.subrange(0, 0).len() == 0);
        }
        None
    }

    /// All that was given, in its order: a later entry passes over an earlier
    /// one of the same name.
    pub fn entries(&self) -> (entries: &Vec<(String, String)>)
        ensures
            entries_map(entries@) == self@,
    {
        &self.entries
    }

    pub fn copy(&self) -> (copy: Self)
        ensures
            copy@ == self@,
    {
        let mut entries: Vec<(String, String)> = Vec::new();
        let mut i: usize = 0;
        while i < self.entries.len()
            invariant
                i <= self.entries@.len(),
                entries@.len() == i,
                forall|k: int| 0 <= k < i ==> #[trigger] entries@[k] == self.entries@[k],
            decreases self.entries@.len() - i,
        {
            entries.push((self.entries[i].0.clone(), self.entries[i].1.clone()));
            i += 1;
        }
        assert(entries@ =~= self.entries@);
        Details { entries }
    }
}

/// A refused or failed request.
#[derive(Debug)]
pub struct AppError {
    pub code: ErrorCode,
    pub message: String,
    pub retryable: bool,
    pub operation_id: Option<String>,
    pub details: Details,
}

/// What an error says.
pub struct ErrorView {
    pub code: ErrorCode,
    pub message: Seq<char>,
    pub retryable: bool,
    pub operation_id: Option<Seq<char>>,
    pub details: Map<Seq<char>, Seq<char>>,
}

/// The characters of an optional string.
pub open spec fn optional_text(value: Option<String>) -> Option<Seq<char>> {
    match value {
        Some(text) => Some(text@),
        None => None,
    }
}

impl View for AppError {
    type V = ErrorView;

    open spec fn view(&self) -> ErrorView {
        ErrorView {
            code: self.code,
            message: self.message@,
            retryable: self.retryable,
            operation_id: optional_text(self.operation_id),
            details: self.details@,
        }
    }
}

/// An error of a kind with a message, not to be retried and without details.
pub open spec fn plain_error(code: ErrorCode, message: Seq<char>) -> ErrorView {
    ErrorView {
        code,
        message,
        retryable: false,
        operation_id: None,
        details: Map::empty(),
    }
}

impl ErrorView {
    /// The same error with one more detail.
    pub open spec fn with(self, name: Seq<char>, value: Seq<char>) -> ErrorView {
        ErrorView { details: self.details.insert(name, value), ..self }
    }

    /// The same error, marked as worth another try.
    pub open spec fn retry(self) -> ErrorView {
        ErrorView { retryable: true, ..self }
    }

    /// The same error, bound to an operation.
    pub open spec fn bound_to(self, operation_id: Seq<char>) -> ErrorView {
        ErrorView { operation_id: Some(operation_id), ..self }
    }

    /// The same error, bound to an operation unless it was bound before.
    pub open spec fn of_operation(self, operation_id: Seq<char>) -> ErrorView {
        if self.operation_id is None {
            ErrorView { operation_id: Some(operation_id), ..self }
        } else {
            self
        }
    }
}

impl AppError {
    pub fn new(code: ErrorCode, message: &str) -> (error: Self)
        ensures
            error@ == plain_error(code, message@),
    {
        AppError {
            code,
            message: message.to_owned(),
            retryable: false,
            operation_id: None,
            details: Details::new(),
        }
    }

    /// The error with one more detail.
    pub fn with_detail(self, name: &str, value: &str) -> (error: Self)
        ensures
            error@ == self@.with(name@, value@),
    {
        let mut error = self;
        error.details.insert(name, value);
        error
    }

    /// The error, marked as worth another try.
    pub fn as_retryable(self) -> (error: Self)
        ensures
            error@ == self@.retry(),
    {
        let mut error = self;
        error.retryable = true;
        error
    }

    /// Binds an error to an operation, whatever it was bound to before.
    pub fn bind_operation_id(self, operation_id: &str) -> (error: Self)
        ensures
            error@ == self@.bound_to(operation_id@),
    {
        let mut error = self;
        error.operation_id = Some(operation_id.to_owned());
        error
    }

    pub fn copy(&self) -> (copy: Self)
        ensures
            copy@ == self@,
    {
        AppError {
            code: self.code,
            message: self.message.clone(),
            retryable: self.retryable,
            operation_id: crate::text::copy_optional(&self.operation_id),
            details: self.details.copy(),
        }
    }

    /// Binds an error to the operation that met it; an error that is bound
    /// already stays as it is.
    pub fn attach_operation_id(self, operation_id: &str) -> (error: Self)
        ensures
            error@ == self@.of_operation(operation_id@),
    {
        let mut error = self;
        if error.operation_id.is_none() {
            error.operation_id = Some(operation_id.to_owned());
        }
        error
    }
}

} // verus!
