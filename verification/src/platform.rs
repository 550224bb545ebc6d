//! What is asked of the directories and files in which a supervisor keeps its
//! lock and its token: that they are the user's own and nobody else's.

use vstd::prelude::*;
use vstd::string::*;

use crate::paths::{below, is_same_path, join_path, parent_of, parent_path, same_path};
use crate::run::Platform;
use crate::runtime::{runtime_root, IoFailure, UserFolder};

verus! {

/// A failure with a kind and words.
pub open spec fn fails_with(failure: IoFailure, kind: Seq<char>, words: Seq<char>) -> bool {
    failure.kind@ == kind && failure.words@ == words
}

/// The buffer for the first look at the user, where the system names no size.
pub const FALLBACK_BUFFER_BYTES: usize = 16 * 1024;

/// The largest buffer for a look at the user.
pub const MAX_BUFFER_BYTES: usize = 1024 * 1024;

/// The code for a buffer that is too small.
pub const ERANGE: i32 = 34;

/// The code for a list of rights that is not there.
pub const ENOATTR: i32 = 93;

/// The size of the first buffer.
pub open spec fn first_buffer(configured: i64) -> usize {
    if configured <= 0 {
        FALLBACK_BUFFER_BYTES
    } else if configured > MAX_BUFFER_BYTES {
        MAX_BUFFER_BYTES
    } else {
        configured as usize
    }
}

pub fn home_buffer_len(configured: i64) -> (length: usize)
    ensures
        length == first_buffer(configured),
        1 <= length <= MAX_BUFFER_BYTES,
{
    if configured <= 0 {
        FALLBACK_BUFFER_BYTES
    } else if configured > MAX_BUFFER_BYTES as i64 {
        MAX_BUFFER_BYTES
    } else {
        configured as usize
    }
}

/// What a look at the user comes to.
#[derive(Debug)]
pub enum HomeStep {
    /// Look again with a larger buffer.
    Retry(usize),
    Found(String),
    Fail(IoFailure),
}

/// Takes in what a look at the user gave. A buffer that is too small is
/// doubled, up to a limit.
pub fn current_user_home(
    status: i32,
    status_failure: IoFailure,
    buffer_len: usize,
    home: Option<String>,
) -> (step: HomeStep)
    requires
        1 <= buffer_len <= MAX_BUFFER_BYTES,
    ensures
        if status == ERANGE && buffer_len < MAX_BUFFER_BYTES {
            step == HomeStep::Retry(
                if 2 * buffer_len > MAX_BUFFER_BYTES {
                    MAX_BUFFER_BYTES
                } else {
                    (2 * buffer_len) as usize
                },
            )
        } else if status != 0 {
            step == HomeStep::Fail(status_failure)
        } else {
            match home {
                None => step is Fail && fails_with(
                    step->Fail_0,
                    "NotFound"@,
                    "the current user's home directory is unavailable"@,
                ),
                Some(path) => if path@.len() > 0 && path@[0] == '/' {
                    step == HomeStep::Found(path)
                } else {
                    step is Fail && fails_with(
                        step->Fail_0,
                        "InvalidData"@,
                        "the current user's home directory is not absolute"@,
                    )
                },
            }
        },
        step is Retry ==> buffer_len < step->Retry_0 <= MAX_BUFFER_BYTES,
{
    if status == ERANGE && buffer_len < MAX_BUFFER_BYTES {
        let doubled: usize = buffer_len * 2;
        return HomeStep::Retry(
            if doubled > MAX_BUFFER_BYTES {
                MAX_BUFFER_BYTES
            } else {
                doubled
            },
        );
    }
    if status != 0 {
        return HomeStep::Fail(status_failure);
    }
    match home {
        None => HomeStep::Fail(
            IoFailure::new("NotFound", "the current user's home directory is unavailable"),
        ),
        Some(path) => {
            let absolute = path.as_str().unicode_len() > 0 && path.as_str().get_char(0) == '/';
            if absolute {
                HomeStep::Found(path)
            } else {
                HomeStep::Fail(
                    IoFailure::new(
                        "InvalidData",
                        "the current user's home directory is not absolute",
                    ),
                )
            }
        },
    }
}

/// A directory on the way to where the supervisor lives: the user's, which is
/// looked at, or the supervisor's own, which is made private.
#[derive(Debug)]
pub struct DirectoryStep {
    pub path: String,
    pub own: bool,
}

/// A directory on the way.
pub struct DirectoryView {
    pub path: Seq<char>,
    pub own: bool,
}

impl View for DirectoryStep {
    type V = DirectoryView;

    open spec fn view(&self) -> DirectoryView {
        DirectoryView { path: self.path@, own: self.own }
    }
}

/// The directories on the way from a home directory, from the top.
pub open spec fn directories(home: Seq<char>) -> Seq<DirectoryView> {
    let platform = Platform::MacOs;
    let library = below(platform, home, "Library"@);
    let support = below(platform, library, "Application Support"@);
    let application = below(platform, support, "DevProcessManager"@);
    seq![
        DirectoryView { path: home, own: false },
        DirectoryView { path: library, own: false },
        DirectoryView { path: support, own: false },
        DirectoryView { path: application, own: true },
        DirectoryView { path: below(platform, application, "runtime"@), own: true },
    ]
}

/// What each directory on the way is.
pub open spec fn steps_view(steps: Seq<DirectoryStep>) -> Seq<DirectoryView> {
    Seq::new(steps.len(), |i: int| steps[i]@)
}

/// The directories on the way to where the supervisor lives, in the order in
/// which they are made and looked at. On macOS it is one place below the home of
/// the user and no other; on Windows the two directories above are made too.
pub fn prepare_runtime_directory(platform: Platform, folder: &UserFolder, path: &str) -> (result:
    Result<Vec<DirectoryStep>, IoFailure>)
    ensures
        match platform {
            Platform::MacOs => if is_same_path(platform, path@, runtime_root(platform, *folder)) {
                result is Ok && steps_view(result->Ok_0@) == directories(folder.path@)
            } else {
                result is Err && fails_with(
                    result->Err_0,
                    "InvalidInput"@,
                    "runtime directory is outside the current user's fixed application root"@,
                )
            },
            Platform::Windows => match parent_of(platform, path@) {
                None => result is Err && fails_with(
                    result->Err_0,
                    "InvalidInput"@,
                    "runtime directory has no session parent"@,
                ),
                Some(session) => match parent_of(platform, session) {
                    None => result is Err && fails_with(
                        result->Err_0,
                        "InvalidInput"@,
                        "session directory has no application parent"@,
                    ),
                    Some(application) => result is Ok && steps_view(result->Ok_0@) == seq![
                        DirectoryView { path: application, own: true },
                        DirectoryView { path: session, own: true },
                        DirectoryView { path: path@, own: true },
                    ],
                },
            },
        },
{
    let mut steps: Vec<DirectoryStep> = Vec::new();
    match platform {
        Platform::MacOs => {
            let library = join_path(platform, folder.path.as_str(), "Library");
            let support = join_path(platform, library.as_str(), "Application Support");
            let application = join_path(platform, support.as_str(), "DevProcessManager");
            let root = join_path(platform, application.as_str(), "runtime");
            if !same_path(platform, path, root.as_str()) {
                return Err(
                    IoFailure::new(
                        "InvalidInput",
                        "runtime directory is outside the current user's fixed application root",
                    ),
                );
            }
            steps.push(DirectoryStep { path: folder.path.clone(), own: false });
            steps.push(DirectoryStep { path: library, own: false });
            steps.push(DirectoryStep { path: support, own: false });
            steps.push(DirectoryStep { path: application, own: true });
            steps.push(DirectoryStep { path: root, own: true });
            assert(steps_view(steps@) =~= directories(folder.path@));
        },
        Platform::Windows => {
            let session = match parent_path(platform, path) {
                Some(session) => session,
                None => {
                    return Err(
                        IoFailure::new("InvalidInput", "runtime directory has no session parent"),
                    );
                },
            };
            let application = match parent_path(platform, session.as_str()) {
                Some(application) => application,
                None => {
                    return Err(
                        IoFailure::new(
                            "InvalidInput",
                            "session directory has no application parent",
                        ),
                    );
                },
            };
            let ghost shown = seq![
                DirectoryView { path: application@, own: true },
                DirectoryView { path: session@, own: true },
                DirectoryView { path: path@, own: true },
            ];
            steps.push(DirectoryStep { path: application, own: true });
            steps.push(DirectoryStep { path: session, own: true });
            steps.push(DirectoryStep { path: path.to_owned(), own: true });
            assert(steps_view(steps@) =~= shown);
        },
    }
    Ok(steps)
}

/// What the operating system says of a file that is open.
#[derive(Clone, Copy, Debug, PartialEq, Eq, Structural)]
pub struct FileFacts {
    pub is_file: bool,
    pub is_directory: bool,
    pub uid: u32,
    pub mode: u32,
}

/// The owner of a file is the user.
pub fn validate_owner(facts: FileFacts, expected_uid: u32) -> (result: Result<(), IoFailure>)
    ensures
        match result {
            Ok(_) => facts.uid == expected_uid,
            Err(failure) => facts.uid != expected_uid && fails_with(
                failure,
                "PermissionDenied"@,
                "sensitive path is not owned by the current user"@,
            ),
        },
{
    if facts.uid != expected_uid {
        return Err(
            IoFailure::new("PermissionDenied", "sensitive path is not owned by the current user"),
        );
    }
    Ok(())
}

/// A file is a directory of the user.
pub fn validate_directory(facts: FileFacts, expected_uid: u32) -> (result: Result<(), IoFailure>)
    ensures
        match result {
            Ok(_) => facts.is_directory && facts.uid == expected_uid,
            Err(failure) => if !facts.is_directory {
                fails_with(
                    failure,
                    "InvalidData"@,
                    "sensitive path is not a regular directory"@,
                )
            } else {
                facts.uid != expected_uid && fails_with(
                    failure,
                    "PermissionDenied"@,
                    "sensitive path is not owned by the current user"@,
                )
            },
        },
{
    if !facts.is_directory {
        return Err(IoFailure::new("InvalidData", "sensitive path is not a regular directory"));
    }
    validate_owner(facts, expected_uid)
}

/// A directory above the supervisor's own is the user's, and nobody else can
/// write there. The rights beyond the mode are looked at only where the rest is
/// in order.
pub fn validate_parent_directory(
    facts: FileFacts,
    expected_uid: u32,
    grants_access: Result<bool, IoFailure>,
) -> (result: Result<(), IoFailure>)
    ensures
        match result {
            Ok(_) => {
                &&& facts.is_directory
                &&& facts.uid == expected_uid
                &&& facts.mode & 0o022 == 0
                &&& grants_access == Ok::<bool, IoFailure>(false)
            },
            Err(failure) => if !facts.is_directory {
                fails_with(
                    failure,
                    "InvalidData"@,
                    "sensitive path is not a regular directory"@,
                )
            } else if facts.uid != expected_uid {
                fails_with(
                    failure,
                    "PermissionDenied"@,
                    "sensitive path is not owned by the current user"@,
                )
            } else if facts.mode & 0o022 != 0 {
                fails_with(
                    failure,
                    "PermissionDenied"@,
                    "runtime parent directory is writable by group or other users"@,
                )
            } else {
                match grants_access {
                    Err(unknown) => failure == unknown,
                    Ok(granted) => granted && fails_with(
                        failure,
                        "PermissionDenied"@,
                        "runtime parent directory grants access through an extended ACL"@,
                    ),
                }
            },
        },
{
    match validate_directory(facts, expected_uid) {
        Ok(_) => {},
        Err(failure) => return Err(failure),
    }
    if facts.mode & 0o022 != 0 {
        return Err(
            IoFailure::new(
                "PermissionDenied",
                "runtime parent directory is writable by group or other users",
            ),
        );
    }
    match grants_access {
        Err(failure) => Err(failure),
        Ok(granted) => if granted {
            Err(
                IoFailure::new(
                    "PermissionDenied",
                    "runtime parent directory grants access through an extended ACL",
                ),
            )
        } else {
            Ok(())
        },
    }
}

/// A file that holds a secret is a plain file of the user.
pub fn open_private_file(facts: FileFacts, expected_uid: u32) -> (result: Result<(), IoFailure>)
    ensures
        match result {
            Ok(_) => facts.is_file && facts.uid == expected_uid,
            Err(failure) => if !facts.is_file {
                fails_with(failure, "InvalidData"@, "sensitive path is not a regular file"@)
            } else {
                facts.uid != expected_uid && fails_with(
                    failure,
                    "PermissionDenied"@,
                    "sensitive path is not owned by the current user"@,
                )
            },
        },
{
    if !facts.is_file {
        return Err(IoFailure::new("InvalidData", "sensitive path is not a regular file"));
    }
    validate_owner(facts, expected_uid)
}

/// An entry of a list of rights.
#[derive(Clone, Copy, Debug, PartialEq, Eq, Structural)]
pub enum AclEntry {
    Allow,
    Deny,
    /// The list gave an entry that is none.
    Invalid,
    Unknown,
}

/// What asking for the next entry of a list of rights gives.
#[derive(Debug)]
pub enum AclReply {
    End,
    Entry(AclEntry),
    Failed(IoFailure),
}

/// What a list of rights comes to so far.
#[derive(Debug)]
pub enum AclStep {
    Next,
    Answer(Result<bool, IoFailure>),
}

/// Looks at the next entry of a list of rights: one that allows is enough, and
/// one that denies does no harm.
pub fn inspect_acl_entries(reply: AclReply) -> (step: AclStep)
    ensures
        match reply {
            AclReply::End => step == AclStep::Answer(Ok(false)),
            AclReply::Failed(failure) => step == AclStep::Answer(Err(failure)),
            AclReply::Entry(entry) => match entry {
                AclEntry::Allow => step == AclStep::Answer(Ok(true)),
                AclEntry::Deny => step is Next,
                AclEntry::Invalid => step is Answer && step->Answer_0 is Err && fails_with(
                    step->Answer_0->Err_0,
                    "InvalidData"@,
                    "extended ACL returned an invalid entry"@,
                ),
                AclEntry::Unknown => step is Answer && step->Answer_0 is Err && fails_with(
                    step->Answer_0->Err_0,
                    "InvalidData"@,
                    "extended ACL contains an unknown entry type"@,
                ),
            },
        },
{
    match reply {
        AclReply::End => AclStep::Answer(Ok(false)),
        AclReply::Failed(failure) => AclStep::Answer(Err(failure)),
        AclReply::Entry(entry) => match entry {
            AclEntry::Allow => AclStep::Answer(Ok(true)),
            AclEntry::Deny => AclStep::Next,
            AclEntry::Invalid => AclStep::Answer(
                Err(IoFailure::new("InvalidData", "extended ACL returned an invalid entry")),
            ),
            AclEntry::Unknown => AclStep::Answer(
                Err(IoFailure::new("InvalidData", "extended ACL contains an unknown entry type")),
            ),
        },
    }
}

/// A list of rights that is not there grants nothing, and needs no clearing.
pub fn no_acl_or_error(code: Option<i32>, failure: IoFailure) -> (result: Result<bool, IoFailure>)
    ensures
        result == if code == Some(ENOATTR) {
            Ok::<bool, IoFailure>(false)
        } else {
            Err(failure)
        },
{
    match code {
        Some(code) => if code == ENOATTR {
            Ok(false)
        } else {
            Err(failure)
        },
        None => Err(failure),
    }
}

/// What came of clearing a list of rights.
pub fn clear_extended_acl(cleared: bool, code: Option<i32>, failure: IoFailure) -> (result: Result<
    (),
    IoFailure,
>)
    ensures
        result == if cleared || code == Some(ENOATTR) {
            Ok::<(), IoFailure>(())
        } else {
            Err(failure)
        },
{
    if cleared {
        return Ok(());
    }
    match no_acl_or_error(code, failure) {
        Ok(_) => Ok(()),
        Err(failure) => Err(failure),
    }
}

/// What came of making or opening a directory.
#[derive(Debug)]
pub enum DirectoryReply {
    /// Try again.
    Again,
    /// It is there.
    Done,
    /// It is not there: make it.
    Make,
    Fail(IoFailure),
}

/// What came of making a directory: one that is there is as good.
pub fn mkdir_at(failure: Option<IoFailure>) -> (reply: DirectoryReply)
    ensures
        match failure {
            None => reply is Done,
            Some(failure) => if failure.kind@ == "Interrupted"@ {
                reply is Again
            } else if failure.kind@ == "AlreadyExists"@ {
                reply is Done
            } else {
                reply == DirectoryReply::Fail(failure)
            },
        },
{
    match failure {
        None => DirectoryReply::Done,
        Some(failure) => if failure.is("Interrupted") {
            DirectoryReply::Again
        } else if failure.is("AlreadyExists") {
            DirectoryReply::Done
        } else {
            DirectoryReply::Fail(failure)
        },
    }
}

/// What came of opening a directory: one that is not there is made once.
pub fn open_or_create_directory_at(failure: Option<IoFailure>, made: bool) -> (reply: DirectoryReply)
    ensures
        match failure {
            None => reply is Done,
            Some(failure) => if failure.kind@ == "Interrupted"@ {
                reply is Again
            } else if failure.kind@ == "NotFound"@ && !made {
                reply is Make
            } else {
                reply == DirectoryReply::Fail(failure)
            },
        },
{
    match failure {
        None => DirectoryReply::Done,
        Some(failure) => if failure.is("Interrupted") {
            DirectoryReply::Again
        } else if failure.is("NotFound") && !made {
            DirectoryReply::Make
        } else {
            DirectoryReply::Fail(failure)
        },
    }
}

/// From a place on, a path holds only separators and single points between
/// them.
pub open spec fn void_from(path: Seq<u8>, from: int) -> bool {
    forall|i: int| from <= i < path.len() ==> #[trigger] is_void_at(path, i)
}

pub open spec fn is_void_at(path: Seq<u8>, i: int) -> bool {
    path[i] == 47 || path[i] == 46 && i > 0 && path[i - 1] == 47 && (i + 1 == path.len() || path[i
        + 1] == 47)
}

/// The first part of a path ends at a place.
pub open spec fn first_part_ends(path: Seq<u8>, end: int) -> bool {
    &&& 0 < end <= path.len()
    &&& forall|i: int| 0 <= i < end ==> #[trigger] path[i] != 47
    &&& end < path.len() ==> path[end] == 47
}

/// A path has one part that counts.
pub open spec fn one_component(path: Seq<u8>) -> bool {
    path.len() > 0 && if path[0] == 47 {
        void_from(path, 0)
    } else {
        exists|end: int| #[trigger] first_part_ends(path, end) && void_from(path, end)
    }
}

/// A path is one name.
pub open spec fn is_one_name(path: Seq<u8>) -> bool {
    exists|end: int|
        {
            &&& #[trigger] first_part_ends(path, end)
            &&& void_from(path, end)
            &&& path.subrange(0, end) != seq![46u8]
            &&& path.subrange(0, end) != seq![46u8, 46u8]
        }
}

fn first_part(path: &[u8]) -> (end: usize)
    ensures
        end <= path@.len(),
        path@.len() > 0 && path@[0] != 47 ==> first_part_ends(path@, end as int),
        path@.len() == 0 || path@[0] == 47 ==> end == 0,
        forall|other: int| #[trigger] first_part_ends(path@, other) ==> other == end,
{
    let mut end: usize = 0;
    while end < path.len() && path[end] != 47
        invariant
            end <= path@.len(),
            forall|i: int| 0 <= i < end ==> #[trigger] path@[i] != 47,
        decreases path@.len() - end,
    {
        end += 1;
    }
    proof {
        assert forall|other: int| #[trigger] first_part_ends(path@, other) implies other == end by {
            if other < end {
                assert(path@[other] == 47);
            }
            if end < other {
                assert(path@[end as int] != 47);
            }
        }
    }
    end
}

fn rest_is_void(path: &[u8], from: usize) -> (void: bool)
    requires
        from <= path@.len(),
    ensures
        void == void_from(path@, from as int),
{
    let mut i: usize = from;
    while i < path.len()
        invariant
            from <= i <= path@.len(),
            forall|k: int| from <= k < i ==> #[trigger] is_void_at(path@, k),
        decreases path@.len() - i,
    {
        let void = path[i] == 47 || path[i] == 46 && i > 0 && path[i - 1] == 47 && (i + 1
            == path.len() || path[i + 1] == 47);
        if !void {
            assert(!is_void_at(path@, i as int));
            return false;
        }
        i += 1;
    }
    true
}

/// Whether a path is one name below a directory, and no way out of it.
pub fn is_single_name(path: &[u8]) -> (single: bool)
    ensures
        single == is_one_name(path@),
{
    let end: usize = first_part(path);
    if end == 0 {
        return false;
    }
    let dots = end == 1 && path[0] == 46 || end == 2 && path[0] == 46 && path[1] == 46;
    proof {
        let first = path@.subrange(0, end as int);
        let one = seq![46u8];
        let two = seq![46u8, 46u8];
        assert(one.len() == 1 && one[0] == 46 && two.len() == 2 && two[0] == 46 && two[1] == 46);
        assert(first[0] == path@[0]);
        if end > 1 {
            assert(first[1] == path@[1]);
        }
        assert((first =~= one) == (end == 1 && path@[0] == 46));
        assert((first =~= two) == (end == 2 && path@[0] == 46 && path@[1] == 46));
    }
    !dots && rest_is_void(path, end)
}

/// Checks a part of a path before it is handed to the operating system.
pub fn path_component_c_string(component: &[u8]) -> (result: Result<(), IoFailure>)
    ensures
        match result {
            Ok(_) => one_component(component@) && component@ != seq![46u8] && component@
                != seq![46u8, 46u8] && !component@.contains(0u8),
            Err(failure) => if !one_component(component@) || component@ == seq![46u8] || component@
                == seq![46u8, 46u8] {
                fails_with(
                    failure,
                    "InvalidInput"@,
                    "runtime path contains an invalid directory component"@,
                )
            } else {
                component@.contains(0u8) && fails_with(
                    failure,
                    "InvalidInput"@,
                    "runtime path contains a NUL byte"@,
                )
            },
        },
{
    let end: usize = first_part(component);
    let single = component.len() > 0 && rest_is_void(component, end);
    let dots = component.len() == 1 && component[0] == 46 || component.len() == 2 && component[0]
        == 46 && component[1] == 46;
    proof {
        assert(component@ =~= seq![46u8] <==> component@.len() == 1 && component@[0] == 46);
        assert(component@ =~= seq![46u8, 46u8] <==> component@.len() == 2 && component@[0] == 46
            && component@[1] == 46);
        assert(single == one_component(component@));
    }
    if !single || dots {
        return Err(
            IoFailure::new("InvalidInput", "runtime path contains an invalid directory component"),
        );
    }
    let mut i: usize = 0;
    while i < component.len()
        invariant
            i <= component@.len(),
            one_component(component@),
            component@ != seq![46u8],
            component@ != seq![46u8, 46u8],
            forall|k: int| 0 <= k < i ==> #[trigger] component@[k] != 0,
        decreases component@.len() - i,
    {
        if component[i] == 0 {
            assert(component@[i as int] == 0);
            return Err(IoFailure::new("InvalidInput", "runtime path contains a NUL byte"));
        }
        i += 1;
    }
    Ok(())
}

/// The attribute of a file that leads elsewhere.
pub const FILE_ATTRIBUTE_REPARSE_POINT: u32 = 0x400;

/// The attribute of a directory.
pub const FILE_ATTRIBUTE_DIRECTORY: u32 = 0x10;

/// The type of a file on a disk.
pub const FILE_TYPE_DISK: u32 = 1;

/// The code for a directory that is there.
pub const ERROR_ALREADY_EXISTS: i32 = 183;

/// A file is a plain file or directory, as expected, and leads nowhere else.
pub fn validate_handle(attributes: u32, file_type: u32, expected_directory: bool) -> (result: Result<
    (),
    IoFailure,
>)
    ensures
        match result {
            Ok(_) => {
                &&& attributes & FILE_ATTRIBUTE_REPARSE_POINT == 0
                &&& (attributes & FILE_ATTRIBUTE_DIRECTORY != 0) == expected_directory
                &&& file_type == FILE_TYPE_DISK
            },
            Err(failure) => if attributes & FILE_ATTRIBUTE_REPARSE_POINT != 0 {
                fails_with(failure, "InvalidData"@, "sensitive path is a reparse point"@)
            } else {
                ((attributes & FILE_ATTRIBUTE_DIRECTORY != 0) != expected_directory || file_type
                    != FILE_TYPE_DISK) && fails_with(
                    failure,
                    "InvalidData"@,
                    if expected_directory {
                        "sensitive path is not a regular directory"@
                    } else {
                        "sensitive path is not a regular file"@
                    },
                )
            },
        },
{
    if attributes & FILE_ATTRIBUTE_REPARSE_POINT != 0 {
        return Err(IoFailure::new("InvalidData", "sensitive path is a reparse point"));
    }
    let is_directory = attributes & FILE_ATTRIBUTE_DIRECTORY != 0;
    if is_directory != expected_directory || file_type != FILE_TYPE_DISK {
        let words = if expected_directory {
            "sensitive path is not a regular directory"
        } else {
            "sensitive path is not a regular file"
        };
        return Err(IoFailure::new("InvalidData", words));
    }
    Ok(())
}

/// What came of making a private directory: one that is there is as good.
pub fn create_private_directory(made: Result<(), (Option<i32>, IoFailure)>) -> (result: Result<
    (),
    IoFailure,
>)
    ensures
        match made {
            Ok(_) => result is Ok,
            Err((code, failure)) => if code == Some(ERROR_ALREADY_EXISTS) {
                result is Ok
            } else {
                result == Err::<(), IoFailure>(failure)
            },
        },
{
    match made {
        Ok(_) => Ok(()),
        Err((code, failure)) => match code {
            Some(code) => if code == ERROR_ALREADY_EXISTS {
                Ok(())
            } else {
                Err(failure)
            },
            None => Err(failure),
        },
    }
}

/// The code of the operating system in a result of Windows, where it holds one.
pub fn windows_error(result: u32) -> (code: Option<u32>)
    ensures
        code == if result & 0xFFFF_0000 == 0x8007_0000 {
            Some(result & 0xFFFF)
        } else {
            None
        },
{
    if result & 0xFFFF_0000 == 0x8007_0000 {
        Some(result & 0xFFFF)
    } else {
        None
    }
}

/// How many words hold some bytes.
pub fn words_for(bytes: u32, word_bytes: u32) -> (words: u32)
    requires
        word_bytes > 0,
    ensures
        words * word_bytes >= bytes,
        words > 0 ==> (words - 1) * word_bytes < bytes,
{
    let whole: u32 = bytes / word_bytes;
    let rest: u32 = bytes % word_bytes;
    proof {
        vstd::arithmetic::div_mod::lemma_fundamental_div_mod(bytes as int, word_bytes as int);
        vstd::arithmetic::mul::lemma_mul_is_commutative(word_bytes as int, whole as int);
        vstd::arithmetic::mul::lemma_mul_is_distributive_add_other_way(
            word_bytes as int,
            whole as int,
            1,
        );
        vstd::arithmetic::mul::lemma_mul_is_distributive_sub_other_way(
            word_bytes as int,
            whole as int,
            1,
        );
    }
    if rest == 0 {
        whole
    } else {
        proof {
            assert(whole < u32::MAX) by (nonlinear_arith)
                requires
                    bytes == whole * word_bytes + rest,
                    rest > 0,
                    word_bytes > 0,
                    bytes <= u32::MAX,
            ;
        }
        whole + 1
    }
}

/// A path for the operating system, in UTF-16 with a zero behind it.
pub fn wide_path(units: Vec<u16>) -> (result: Result<Vec<u16>, IoFailure>)
    ensures
        if units@.contains(0u16) {
            result is Err && fails_with(
                result->Err_0,
                "InvalidInput"@,
                "path contains an interior NUL"@,
            )
        } else {
            result is Ok && result->Ok_0@ == units@.push(0u16)
        },
{
    match crate::job_object::wide_nul(units, "path") {
        Ok(path) => Ok(path),
        Err(_) => Err(IoFailure::new("InvalidInput", "path contains an interior NUL")),
    }
}

/// A name that is taken leads to one place below its directory: it holds no
/// way up, and does not start from the top.
pub proof fn lemma_one_name_stays_below(path: Seq<u8>)
    requires
        is_one_name(path),
    ensures
        path.len() > 0,
        path[0] != 47,
        one_component(path),
        path != seq![46u8],
        path != seq![46u8, 46u8],
{
    let end = choose|end: int|
        {
            &&& #[trigger] first_part_ends(path, end)
            &&& void_from(path, end)
            &&& path.subrange(0, end) != seq![46u8]
            &&& path.subrange(0, end) != seq![46u8, 46u8]
        };
    assert(path[0] != 47);
    if path == seq![46u8] || path == seq![46u8, 46u8] {
        if end < path.len() {
            assert(path[end] == 47);
        }
        assert(path.subrange(0, end) =~= path);
    }
}

} // verus!
