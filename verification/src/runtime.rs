//! The one supervisor of a user: where it lives, the lock that it holds, the
//! token by which its peers know it, and who its peers are.

use vstd::prelude::*;
use vstd::string::*;

use crate::error::{plain_error, AppError, ErrorCode, ErrorView};
use crate::paths::{
    below, is_absolute, is_absolute_path, is_plain, is_rooted, is_same_path, join_path, lemma_below_adds_a_name,
    lemma_parent_of_below, lemma_two_names_settle_the_prefix, parent_of, parts, same_path,
    separates, separator, takes_name_directly,
};
use crate::random::random_array;
use crate::rpc::RequestEnvelope;
use crate::run::Platform;
use crate::text::{decimal, decimal_text, is_digit, join, same_text};

verus! {

/// Why a call of the operating system failed: the kind of the failure, by its
/// name, and its words.
#[derive(Debug)]
pub struct IoFailure {
    pub kind: String,
    pub words: String,
}

impl IoFailure {
    pub fn new(kind: &str, words: &str) -> (failure: Self)
        ensures
            failure.kind@ == kind@,
            failure.words@ == words@,
    {
        IoFailure { kind: kind.to_owned(), words: words.to_owned() }
    }

    pub fn is(&self, kind: &str) -> (same: bool)
        ensures
            same == (self.kind@ == kind@),
    {
        same_text(self.kind.as_str(), kind)
    }
}

/// What a failed call of the operating system is answered with.
pub open spec fn io_error(
    operation: Seq<char>,
    path: Option<Seq<char>>,
    failure: IoFailure,
) -> ErrorView {
    let code = if failure.kind@ == "PermissionDenied"@ {
        ErrorCode::AccessDenied
    } else {
        ErrorCode::PlatformError
    };
    let plain = plain_error(code, operation + " failed"@);
    let error = ErrorView {
        retryable: failure.kind@ == "Interrupted"@ || failure.kind@ == "WouldBlock"@,
        ..plain
    }.with("operation"@, operation).with("ioKind"@, failure.kind@).with("source"@, failure.words@);
    match path {
        Some(path) => error.with("path"@, path),
        None => error,
    }
}

/// What a failed call of the operating system is answered with.
pub fn io_app_error(operation: &str, path: Option<&str>, failure: IoFailure) -> (error: AppError)
    ensures
        error@ == io_error(operation@, crate::details::optional_str(path), failure),
{
    let code = if failure.is("PermissionDenied") {
        ErrorCode::AccessDenied
    } else {
        ErrorCode::PlatformError
    };
    let mut error = AppError::new(code, join(operation, " failed").as_str());
    if failure.is("Interrupted") || failure.is("WouldBlock") {
        error = error.as_retryable();
    }
    let error = error.with_detail("operation", operation).with_detail(
        "ioKind",
        failure.kind.as_str(),
    ).with_detail("source", failure.words.as_str());
    match path {
        Some(path) => error.with_detail("path", path),
        None => error,
    }
}

/// Where a user's own data lie, and on Windows in which session the user is.
#[derive(Debug)]
pub struct UserFolder {
    pub path: String,
    pub session_id: u32,
}

/// Where the supervisor of a user lives.
pub open spec fn runtime_root(platform: Platform, folder: UserFolder) -> Seq<char> {
    match platform {
        Platform::MacOs => below(
            platform,
            below(
                platform,
                below(
                    platform,
                    below(platform, folder.path@, "Library"@),
                    "Application Support"@,
                ),
                "DevProcessManager"@,
            ),
            "runtime"@,
        ),
        Platform::Windows => below(
            platform,
            below(
                platform,
                below(platform, folder.path@, "DevProcessManager"@),
                "session-"@ + decimal_text(folder.session_id as nat),
            ),
            "runtime"@,
        ),
    }
}

/// The refusal of a folder that is not given from the top.
pub open spec fn relative_folder(platform: Platform) -> Seq<char> {
    match platform {
        Platform::MacOs => "the current user's home directory is not absolute"@,
        Platform::Windows => "the Local AppData known folder is not absolute"@,
    }
}

/// Where the supervisor of a user lives.
pub fn current_user_runtime_root(
    platform: Platform,
    folder: Result<UserFolder, IoFailure>,
) -> (result: Result<String, IoFailure>)
    ensures
        match folder {
            Err(failure) => result == Err::<String, IoFailure>(failure),
            Ok(folder) => if is_absolute(platform, folder.path@) {
                result is Ok && result->Ok_0@ == runtime_root(platform, folder)
            } else {
                result is Err && result->Err_0.kind@ == "InvalidData"@ && result->Err_0.words@
                    == relative_folder(platform)
            },
        },
{
    let folder = match folder {
        Ok(folder) => folder,
        Err(failure) => return Err(failure),
    };
    if !is_absolute_path(platform, folder.path.as_str()) {
        let words = match platform {
            Platform::MacOs => "the current user's home directory is not absolute",
            Platform::Windows => "the Local AppData known folder is not absolute",
        };
        return Err(IoFailure::new("InvalidData", words));
    }
    let parent = match platform {
        Platform::MacOs => {
            let library = join_path(platform, folder.path.as_str(), "Library");
            let support = join_path(platform, library.as_str(), "Application Support");
            join_path(platform, support.as_str(), "DevProcessManager")
        },
        Platform::Windows => {
            let application = join_path(platform, folder.path.as_str(), "DevProcessManager");
            let session = join("session-", decimal(folder.session_id as u64).as_str());
            join_path(platform, application.as_str(), session.as_str())
        },
    };
    Ok(join_path(platform, parent.as_str(), "runtime"))
}

/// The paths of a supervisor: where it lives, and its lock and its token there.
#[derive(Debug)]
pub struct RuntimePaths {
    platform: Platform,
    root: String,
    lock_file: String,
    session_token_file: String,
}

/// The paths of a supervisor.
pub struct PathsView {
    pub platform: Platform,
    pub root: Seq<char>,
    pub lock_file: Seq<char>,
    pub session_token_file: Seq<char>,
}

impl View for RuntimePaths {
    type V = PathsView;

    closed spec fn view(&self) -> PathsView {
        PathsView {
            platform: self.platform,
            root: self.root@,
            lock_file: self.lock_file@,
            session_token_file: self.session_token_file@,
        }
    }
}

/// The paths below a root.
pub open spec fn paths_below(platform: Platform, root: Seq<char>) -> PathsView {
    PathsView {
        platform,
        root,
        lock_file: below(platform, root, "supervisor.lock"@),
        session_token_file: below(platform, root, "session.token"@),
    }
}

/// The lock and the token lie directly in the place where a supervisor lives,
/// and are not the same file.
pub open spec fn files_lie_in_the_root(paths: PathsView) -> bool {
    &&& parent_of(paths.platform, paths.lock_file) == Some(paths.root)
    &&& parent_of(paths.platform, paths.session_token_file) == Some(paths.root)
    &&& !is_same_path(paths.platform, paths.lock_file, paths.session_token_file)
}

proof fn lemma_digits(n: nat)
    ensures
        forall|i: int| 0 <= i < decimal_text(n).len() ==> is_digit(#[trigger] decimal_text(n)[i]),
    decreases n,
{
    if n >= 10 {
        lemma_digits(n / 10);
        let rest = decimal_text(n / 10);
        assert forall|i: int| 0 <= i < decimal_text(n).len() implies is_digit(
            #[trigger] decimal_text(n)[i],
        ) by {
            if i < rest.len() {
                assert(decimal_text(n)[i] == rest[i]);
            }
        }
    }
}

/// A name that begins with two characters that are no drive and no share, and
/// holds no separator, is plain.
proof fn lemma_is_plain(platform: Platform, name: Seq<char>)
    requires
        name.len() >= 2,
        name[1] != ':',
        forall|i: int| 0 <= i < name.len() ==> #[trigger] name[i] != '/' && name[i] != '\\',
    ensures
        is_plain(platform, name),
{
    reveal_strlit(".");
    assert(name[0] != '/' && name[0] != '\\');
    assert forall|i: int| 0 <= i < name.len() implies !separates(
        platform,
        false,
        #[trigger] name[i],
    ) by {}
}

/// The names of the supervisor's own directories and files are plain.
proof fn lemma_names_are_plain(platform: Platform, session_id: nat)
    ensures
        is_plain(platform, "DevProcessManager"@),
        is_plain(platform, "Application Support"@),
        is_plain(platform, "session-"@ + decimal_text(session_id)),
        is_plain(platform, "runtime"@),
        is_plain(platform, "supervisor.lock"@),
        is_plain(platform, "session.token"@),
        "DevProcessManager"@.len() == 17 && "DevProcessManager"@.last() == 'r',
        "Application Support"@.len() == 19 && "Application Support"@.last() == 't',
{
    reveal_strlit("DevProcessManager");
    reveal_strlit("Application Support");
    reveal_strlit("session-");
    reveal_strlit("runtime");
    reveal_strlit("supervisor.lock");
    reveal_strlit("session.token");
    let session = "session-"@ + decimal_text(session_id);
    lemma_digits(session_id);
    assert forall|i: int| 0 <= i < session.len() implies #[trigger] session[i] != '/' && session[i]
        != '\\' by {
        if i >= 8 {
            assert(session[i] == decimal_text(session_id)[i - 8]);
        }
    }
    lemma_is_plain(platform, "DevProcessManager"@);
    lemma_is_plain(platform, "Application Support"@);
    lemma_is_plain(platform, session);
    lemma_is_plain(platform, "runtime"@);
    lemma_is_plain(platform, "supervisor.lock"@);
    lemma_is_plain(platform, "session.token"@);
}

/// What holds of the paths of the supervisor of any user, wherever the user's
/// own data lie: its lock and its token lie directly in the place where it lives,
/// and are not the same file.
pub proof fn lemma_files_lie_in_the_root(platform: Platform, folder: UserFolder)
    ensures
        files_lie_in_the_root(paths_below(platform, runtime_root(platform, folder))),
{
    let session = "session-"@ + decimal_text(folder.session_id as nat);
    let lock = "supervisor.lock"@;
    let token = "session.token"@;
    let root = runtime_root(platform, folder);
    lemma_names_are_plain(platform, folder.session_id as nat);
    reveal_strlit("/");
    reveal_strlit("\\");
    reveal_strlit("supervisor.lock");
    reveal_strlit("session.token");
    let (path, first, second) = match platform {
        Platform::MacOs => (
            below(platform, folder.path@, "Library"@),
            "Application Support"@,
            "DevProcessManager"@,
        ),
        Platform::Windows => (folder.path@, "DevProcessManager"@, session),
    };
    let parent = below(platform, below(platform, path, first), second);
    assert(root == below(platform, parent, "runtime"@));
    assert(!is_rooted(platform, "runtime"@)) by {
        assert(!separates(platform, false, "runtime"@[0]));
    }
    assert(!is_rooted(platform, lock)) by {
        assert(!separates(platform, false, lock[0]));
    }
    assert(!is_rooted(platform, token)) by {
        assert(!separates(platform, false, token[0]));
    }
    lemma_two_names_settle_the_prefix(platform, path, first, second, "runtime"@);
    lemma_two_names_settle_the_prefix(
        platform,
        path,
        first,
        second,
        "runtime"@ + separator(platform) + lock,
    );
    lemma_two_names_settle_the_prefix(
        platform,
        path,
        first,
        second,
        "runtime"@ + separator(platform) + token,
    );
    let separated = parent + separator(platform);
    assert(root == parent + separator(platform) + "runtime"@);
    assert(root.last() == "runtime"@.last());
    reveal_strlit("runtime");
    assert(!separates(platform, false, "runtime"@[6]));
    assert(!takes_name_directly(platform, root));
    assert(below(platform, root, lock) =~= separated + ("runtime"@ + separator(platform) + lock));
    assert(below(platform, root, token) =~= separated + ("runtime"@ + separator(platform) + token));
    lemma_parent_of_below(platform, parent, "runtime"@, lock);
    lemma_parent_of_below(platform, parent, "runtime"@, token);
    lemma_below_adds_a_name(platform, root, lock);
    lemma_below_adds_a_name(platform, root, token);
    let names = parts(platform, root).names;
    let place = names.len() as int;
    assert(names.push(lock)[place] == lock);
    assert(names.push(token)[place] == token);
    assert(lock.len() != token.len());
}

impl RuntimePaths {
    /// The lock and the token of every supervisor lie where it lives.
    #[verifier::type_invariant]
    closed spec fn lies_well(self) -> bool {
        &&& self@ == paths_below(self@.platform, self@.root)
        &&& files_lie_in_the_root(self@)
    }

    /// The paths of the supervisor of the current user.
    pub fn for_current_user(platform: Platform, folder: Result<UserFolder, IoFailure>) -> (result:
        Result<Self, AppError>)
        ensures
            match folder {
                Err(failure) => result is Err && result->Err_0@ == io_error(
                    "resolve current-user runtime directory"@,
                    None,
                    failure,
                ),
                Ok(folder) => if is_absolute(platform, folder.path@) {
                    result is Ok && result->Ok_0@ == paths_below(
                        platform,
                        runtime_root(platform, folder),
                    )
                } else {
                    exists|failure: IoFailure|
                        failure.kind@ == "InvalidData"@ && failure.words@ == relative_folder(
                            platform,
                        ) && result is Err && result->Err_0@ == #[trigger] io_error(
                            "resolve current-user runtime directory"@,
                            None,
                            failure,
                        )
                },
            },
    {
        let ghost found = folder;
        match current_user_runtime_root(platform, folder) {
            Ok(root) => {
                proof {
                    lemma_files_lie_in_the_root(platform, found->Ok_0);
                }
                Ok(RuntimePaths::from_root(platform, root))
            },
            Err(failure) => Err(
                io_app_error("resolve current-user runtime directory", None, failure),
            ),
        }
    }

    fn from_root(platform: Platform, root: String) -> (paths: Self)
        requires
            files_lie_in_the_root(paths_below(platform, root@)),
        ensures
            paths@ == paths_below(platform, root@),
    {
        RuntimePaths {
            platform,
            lock_file: join_path(platform, root.as_str(), "supervisor.lock"),
            session_token_file: join_path(platform, root.as_str(), "session.token"),
            root,
        }
    }

    pub fn root(&self) -> (root: &str)
        ensures
            root@ == self@.root,
    {
        self.root.as_str()
    }

    pub fn lock_file(&self) -> (path: &str)
        ensures
            path@ == self@.lock_file,
            self@ == paths_below(self@.platform, self@.root),
            files_lie_in_the_root(self@),
    {
        proof {
            use_type_invariant(self);
        }
        self.lock_file.as_str()
    }

    pub fn session_token_file(&self) -> (path: &str)
        ensures
            path@ == self@.session_token_file,
            self@ == paths_below(self@.platform, self@.root),
            files_lie_in_the_root(self@),
    {
        proof {
            use_type_invariant(self);
        }
        self.session_token_file.as_str()
    }

    pub fn copy(&self) -> (copy: Self)
        ensures
            copy@ == self@,
    {
        proof {
            use_type_invariant(self);
        }
        RuntimePaths {
            platform: self.platform,
            root: self.root.clone(),
            lock_file: self.lock_file.clone(),
            session_token_file: self.session_token_file.clone(),
        }
    }

    /// Whether two supervisors have the same paths.
    pub fn same(&self, other: &RuntimePaths) -> (same: bool)
        ensures
            same == (self@.platform == other@.platform && is_same_path(
                self@.platform,
                self@.root,
                other@.root,
            ) && is_same_path(self@.platform, self@.lock_file, other@.lock_file) && is_same_path(
                self@.platform,
                self@.session_token_file,
                other@.session_token_file,
            )),
    {
        self.platform == other.platform && same_path(
            self.platform,
            self.root.as_str(),
            other.root.as_str(),
        ) && same_path(self.platform, self.lock_file.as_str(), other.lock_file.as_str())
            && same_path(
            self.platform,
            self.session_token_file.as_str(),
            other.session_token_file.as_str(),
        )
    }
}

/// What a supervisor and its peers know and nobody else does.
pub struct SessionToken([u8; 32]);

impl View for SessionToken {
    type V = Seq<u8>;

    closed spec fn view(&self) -> Seq<u8> {
        self.0@
    }
}

/// The refusal where the operating system has no random bytes for a token, for a
/// reason.
pub open spec fn token_refusal(source: Seq<char>) -> ErrorView {
    plain_error(
        ErrorCode::PlatformError,
        "failed to generate the Supervisor session token"@,
    ).with("operation"@, "generate session token"@).with("source"@, source)
}

impl SessionToken {
    pub fn as_bytes(&self) -> (bytes: &[u8; 32])
        ensures
            bytes@ == self@,
            bytes@.len() == 32,
    {
        &self.0
    }

    pub fn copy(&self) -> (copy: Self)
        ensures
            copy@ == self@,
    {
        SessionToken(self.0)
    }

    /// Whether two tokens are the same: they have the same bytes.
    pub fn same(&self, other: &SessionToken) -> (same: bool)
        ensures
            same == (self@ == other@),
    {
        crate::ipc::constant_time_eq(&self.0, &other.0)
    }

    /// The token of what the operating system drew: the bytes as they are, or
    /// the reason why there are none.
    pub fn from_drawn(drawn: Result<[u8; 32], String>) -> (result: Result<Self, AppError>)
        ensures
            match drawn {
                Ok(bytes) => result is Ok && result->Ok_0@ == bytes@,
                Err(source) => result is Err && result->Err_0@ == token_refusal(source@),
            },
    {
        match drawn {
            Ok(bytes) => Ok(SessionToken(bytes)),
            Err(source) => Err(
                AppError::new(
                    ErrorCode::PlatformError,
                    "failed to generate the Supervisor session token",
                ).with_detail("operation", "generate session token").with_detail(
                    "source",
                    source.as_str(),
                ),
            ),
        }
    }

    /// A new token; the refusal gives the reason where the operating system has
    /// no random bytes. Of the bytes nothing is said but how many they are.
    pub fn generate() -> (result: Result<Self, AppError>)
        ensures
            match result {
                Ok(token) => token@.len() == 32,
                Err(error) => exists|source: Seq<char>|
                    error@ == #[trigger] token_refusal(source),
            },
    {
        let drawn = random_array::<32>();
        assert(drawn is Ok ==> drawn->Ok_0@.len() == 32);
        SessionToken::from_drawn(drawn)
    }

    /// How a token shows itself: not at all.
    pub fn debug_text(&self) -> (text: &'static str)
        ensures
            text@ == "SessionToken([REDACTED; 32])"@,
    {
        "SessionToken([REDACTED; 32])"
    }
}

/// The refusal where another supervisor runs for the user.
pub open spec fn instance_conflict(lock_file: Seq<char>) -> ErrorView {
    plain_error(
        ErrorCode::Conflict,
        "another Supervisor instance already holds the current-user lock"@,
    ).retry().with("operation"@, "acquire instance lock"@).with("path"@, lock_file)
}

fn instance_conflict_error(lock_file: &str) -> (error: AppError)
    ensures
        error@ == instance_conflict(lock_file@),
{
    AppError::new(
        ErrorCode::Conflict,
        "another Supervisor instance already holds the current-user lock",
    ).as_retryable().with_detail("operation", "acquire instance lock").with_detail(
        "path",
        lock_file,
    )
}

/// Where the start of a supervisor stands: what is to be done next.
#[derive(Debug)]
pub enum AcquireStep {
    Prepare,
    OpenLock,
    TryLock,
    GenerateToken,
    RemoveStaleTemporary,
    OpenTemporary,
    WriteTemporary,
    FlushTemporary,
    Publish,
    /// Remove the file that was not published, and give up.
    Discard(AppError),
    Acquired,
    Fail(AppError),
}

/// What came of a step.
#[derive(Debug)]
pub enum AcquireReply {
    Done,
    /// The lock is held by another.
    WouldBlock,
    Failed(IoFailure),
    Refused(AppError),
}

/// The file in which a token is written before it is published.
pub open spec fn temporary_file(paths: PathsView) -> Seq<char> {
    paths.session_token_file + ".new"@
}

/// A step gave up for a reason.
pub open spec fn gives_up(step: AcquireStep, error: ErrorView) -> bool {
    step is Fail && step->Fail_0@ == error
}

/// A step gave up after the token file was begun.
pub open spec fn discards(step: AcquireStep, error: ErrorView) -> bool {
    step is Discard && step->Discard_0@ == error
}

/// What follows a step of the start.
pub open spec fn acquire_follows(
    paths: PathsView,
    step: AcquireStep,
    reply: AcquireReply,
    next: AcquireStep,
) -> bool {
    let temporary = Some(temporary_file(paths));
    match (step, reply) {
        (AcquireStep::Prepare, AcquireReply::Failed(failure)) => gives_up(
            next,
            io_error("prepare private Supervisor runtime directory"@, Some(paths.root), failure),
        ),
        (AcquireStep::OpenLock, AcquireReply::Failed(failure)) => gives_up(
            next,
            io_error("open Supervisor instance lock"@, Some(paths.lock_file), failure),
        ),
        (AcquireStep::TryLock, AcquireReply::WouldBlock) => gives_up(
            next,
            instance_conflict(paths.lock_file),
        ),
        (AcquireStep::TryLock, AcquireReply::Failed(failure)) => gives_up(
            next,
            io_error("lock Supervisor instance file"@, Some(paths.lock_file), failure),
        ),
        (AcquireStep::GenerateToken, AcquireReply::Refused(error)) => next == AcquireStep::Fail(
            error,
        ),
        (AcquireStep::RemoveStaleTemporary, AcquireReply::Failed(failure)) => if failure.kind@
            == "NotFound"@ {
            next is OpenTemporary
        } else {
            gives_up(
                next,
                io_error("remove stale session token temporary file"@, temporary, failure),
            )
        },
        (AcquireStep::OpenTemporary, AcquireReply::Failed(failure)) => discards(
            next,
            io_error("open session token temporary file"@, temporary, failure),
        ),
        (AcquireStep::WriteTemporary, AcquireReply::Failed(failure)) => discards(
            next,
            io_error("write session token temporary file"@, temporary, failure),
        ),
        (AcquireStep::FlushTemporary, AcquireReply::Failed(failure)) => discards(
            next,
            io_error("flush session token temporary file"@, temporary, failure),
        ),
        (AcquireStep::Publish, AcquireReply::Failed(failure)) => discards(
            next,
            io_error("publish session token file"@, Some(paths.session_token_file), failure),
        ),
        (AcquireStep::Discard(error), _) => next == AcquireStep::Fail(error),
        (AcquireStep::Prepare, AcquireReply::Done) => next is OpenLock,
        (AcquireStep::OpenLock, AcquireReply::Done) => next is TryLock,
        (AcquireStep::TryLock, AcquireReply::Done) => next is GenerateToken,
        (AcquireStep::GenerateToken, AcquireReply::Done) => next is RemoveStaleTemporary,
        (AcquireStep::RemoveStaleTemporary, AcquireReply::Done) => next is OpenTemporary,
        (AcquireStep::OpenTemporary, AcquireReply::Done) => next is WriteTemporary,
        (AcquireStep::WriteTemporary, AcquireReply::Done) => next is FlushTemporary,
        (AcquireStep::FlushTemporary, AcquireReply::Done) => next is Publish,
        (AcquireStep::Publish, AcquireReply::Done) => next is Acquired,
        _ => false,
    }
}

/// An answer is one to what was asked.
pub open spec fn acquire_answers(step: AcquireStep, reply: AcquireReply) -> bool {
    match step {
        AcquireStep::TryLock => !(reply is Refused),
        AcquireStep::GenerateToken => reply is Done || reply is Refused,
        AcquireStep::Discard(error) => true,
        AcquireStep::Acquired => false,
        AcquireStep::Fail(error) => false,
        _ => reply is Done || reply is Failed,
    }
}

/// Moves the start of a supervisor on by one step.
pub fn acquire(paths: &RuntimePaths, step: AcquireStep, reply: AcquireReply) -> (next: AcquireStep)
    requires
        acquire_answers(step, reply),
    ensures
        acquire_follows(paths@, step, reply, next),
{
    let temporary = join(paths.session_token_file.as_str(), ".new");
    let lock = paths.lock_file.as_str();
    match (step, reply) {
        (AcquireStep::Prepare, AcquireReply::Failed(failure)) => AcquireStep::Fail(
            io_app_error(
                "prepare private Supervisor runtime directory",
                Some(paths.root.as_str()),
                failure,
            ),
        ),
        (AcquireStep::OpenLock, AcquireReply::Failed(failure)) => AcquireStep::Fail(
            io_app_error("open Supervisor instance lock", Some(lock), failure),
        ),
        (AcquireStep::TryLock, AcquireReply::WouldBlock) => AcquireStep::Fail(
            instance_conflict_error(lock),
        ),
        (AcquireStep::TryLock, AcquireReply::Failed(failure)) => AcquireStep::Fail(
            io_app_error("lock Supervisor instance file", Some(lock), failure),
        ),
        (AcquireStep::GenerateToken, AcquireReply::Refused(error)) => AcquireStep::Fail(error),
        (AcquireStep::RemoveStaleTemporary, AcquireReply::Failed(failure)) => {
            if failure.is("NotFound") {
                AcquireStep::OpenTemporary
            } else {
                AcquireStep::Fail(
                    io_app_error(
                        "remove stale session token temporary file",
                        Some(temporary.as_str()),
                        failure,
                    ),
                )
            }
        },
        (AcquireStep::OpenTemporary, AcquireReply::Failed(failure)) => AcquireStep::Discard(
            io_app_error("open session token temporary file", Some(temporary.as_str()), failure),
        ),
        (AcquireStep::WriteTemporary, AcquireReply::Failed(failure)) => AcquireStep::Discard(
            io_app_error("write session token temporary file", Some(temporary.as_str()), failure),
        ),
        (AcquireStep::FlushTemporary, AcquireReply::Failed(failure)) => AcquireStep::Discard(
            io_app_error("flush session token temporary file", Some(temporary.as_str()), failure),
        ),
        (AcquireStep::Publish, AcquireReply::Failed(failure)) => AcquireStep::Discard(
            io_app_error(
                "publish session token file",
                Some(paths.session_token_file.as_str()),
                failure,
            ),
        ),
        (AcquireStep::Discard(error), _) => AcquireStep::Fail(error),
        (AcquireStep::Prepare, AcquireReply::Done) => AcquireStep::OpenLock,
        (AcquireStep::OpenLock, AcquireReply::Done) => AcquireStep::TryLock,
        (AcquireStep::TryLock, AcquireReply::Done) => AcquireStep::GenerateToken,
        (AcquireStep::GenerateToken, AcquireReply::Done) => AcquireStep::RemoveStaleTemporary,
        (AcquireStep::RemoveStaleTemporary, AcquireReply::Done) => AcquireStep::OpenTemporary,
        (AcquireStep::OpenTemporary, AcquireReply::Done) => AcquireStep::WriteTemporary,
        (AcquireStep::WriteTemporary, AcquireReply::Done) => AcquireStep::FlushTemporary,
        (AcquireStep::FlushTemporary, AcquireReply::Done) => AcquireStep::Publish,
        (AcquireStep::Publish, AcquireReply::Done) => AcquireStep::Acquired,
        _ => vstd::pervasive::unreached(),
    }
}

/// The steps that come only when the lock is held.
pub open spec fn needs_lock(step: AcquireStep) -> bool {
    match step {
        AcquireStep::Prepare | AcquireStep::OpenLock | AcquireStep::TryLock => false,
        AcquireStep::Fail(error) => false,
        _ => true,
    }
}

/// There is one supervisor: nothing of the token is touched before the lock is
/// held, and none that does not hold it starts.
pub proof fn lemma_lock_comes_first(
    paths: PathsView,
    step: AcquireStep,
    reply: AcquireReply,
    next: AcquireStep,
)
    requires
        acquire_answers(step, reply),
        acquire_follows(paths, step, reply, next),
        needs_lock(next),
    ensures
        needs_lock(step) || step is TryLock && reply is Done,
{
}

/// A token is published whole: what fails on the way removes the file that was
/// begun, and a supervisor starts only when the token is published.
pub proof fn lemma_token_is_published_whole(
    paths: PathsView,
    step: AcquireStep,
    reply: AcquireReply,
    next: AcquireStep,
)
    requires
        acquire_answers(step, reply),
        acquire_follows(paths, step, reply, next),
    ensures
        next is Acquired ==> step is Publish && reply is Done,
        (step is OpenTemporary || step is WriteTemporary || step is FlushTemporary
            || step is Publish) && reply is Failed ==> next is Discard,
{
}

/// The process of a peer, as the transport gives it.
#[derive(Debug)]
pub struct AuthenticatedPeerProcessId {
    process_id: u32,
}

impl AuthenticatedPeerProcessId {
    pub closed spec fn number(self) -> u32 {
        self.process_id
    }

    /// The process of a peer: not the supervisor itself, and not none.
    pub fn from_transport(process_id: u32, own_process_id: u32) -> (peer: Option<Self>)
        ensures
            match peer {
                Some(peer) => process_id != 0 && process_id != own_process_id && peer.number()
                    == process_id,
                None => process_id == 0 || process_id == own_process_id,
            },
    {
        if process_id != 0 && process_id != own_process_id {
            Some(AuthenticatedPeerProcessId { process_id })
        } else {
            None
        }
    }

    pub fn get(&self) -> (process_id: u32)
        ensures
            process_id == self.number(),
    {
        self.process_id
    }
}

/// What a peer sends: a request, or the wish that one be given up.
#[derive(Debug)]
pub enum ClientMessage {
    Request(RequestEnvelope),
    Cancel(String),
}

/// The kind of a message.
#[derive(Clone, Copy, Debug, PartialEq, Eq, Structural)]
pub enum ClientMessageKind {
    Request,
    Cancel,
}

/// A message with the peer that sent it.
pub struct AuthenticatedPeerMessage<'peer> {
    message: ClientMessage,
    peer_process_id: &'peer AuthenticatedPeerProcessId,
}

/// A request with the peer that sent it.
pub struct AuthenticatedPeerRequest<'message> {
    request: &'message RequestEnvelope,
    peer_process_id: &'message AuthenticatedPeerProcessId,
}

impl<'peer> AuthenticatedPeerMessage<'peer> {
    pub closed spec fn content(self) -> ClientMessage {
        self.message
    }

    pub closed spec fn sender(self) -> AuthenticatedPeerProcessId {
        *self.peer_process_id
    }

    pub fn bind(message: ClientMessage, peer_process_id: &'peer AuthenticatedPeerProcessId) -> (bound:
        Self)
        ensures
            bound.content() == message,
            bound.sender() == *peer_process_id,
    {
        AuthenticatedPeerMessage { message, peer_process_id }
    }

    pub fn kind(&self) -> (kind: ClientMessageKind)
        ensures
            kind == match self.content() {
                ClientMessage::Request(_) => ClientMessageKind::Request,
                ClientMessage::Cancel(_) => ClientMessageKind::Cancel,
            },
    {
        match &self.message {
            ClientMessage::Request(_) => ClientMessageKind::Request,
            ClientMessage::Cancel(_) => ClientMessageKind::Cancel,
        }
    }

    /// The request of the message: it stays bound to the peer that sent it.
    pub fn request(&self) -> (request: Option<AuthenticatedPeerRequest<'_>>)
        ensures
            match (request, self.content()) {
                (Some(request), ClientMessage::Request(envelope)) => request.content() == envelope
                    && request.sender() == self.sender(),
                (None, ClientMessage::Cancel(_)) => true,
                _ => false,
            },
    {
        match &self.message {
            ClientMessage::Request(request) => Some(
                AuthenticatedPeerRequest { request, peer_process_id: self.peer_process_id },
            ),
            ClientMessage::Cancel(_) => None,
        }
    }

    /// The request that the peer wants given up.
    pub fn cancel(&self) -> (target: Option<&String>)
        ensures
            match (target, self.content()) {
                (Some(target), ClientMessage::Cancel(request_id)) => *target == request_id,
                (None, ClientMessage::Request(_)) => true,
                _ => false,
            },
    {
        match &self.message {
            ClientMessage::Request(_) => None,
            ClientMessage::Cancel(target) => Some(target),
        }
    }
}

impl<'message> AuthenticatedPeerRequest<'message> {
    pub closed spec fn content(self) -> RequestEnvelope {
        *self.request
    }

    pub closed spec fn sender(self) -> AuthenticatedPeerProcessId {
        *self.peer_process_id
    }

    pub fn envelope(&self) -> (envelope: &RequestEnvelope)
        ensures
            *envelope == self.content(),
    {
        self.request
    }

    /// The process of the peer, which no request may stop.
    pub fn peer_process_id(&self) -> (process_id: u32)
        ensures
            process_id == self.sender().number(),
    {
        self.peer_process_id.get()
    }
}

} // verus!
