//! What is asked of the places where secrets are kept: they belong to the user, nobody else
//! can write there, and nothing leads elsewhere.

use vstd::prelude::*;

use crate::paths::{below, is_absolute, is_same_path, parent_of, same_path};
use crate::platform::{
    clear_extended_acl, create_private_directory, current_user_home, home_buffer_len,
    inspect_acl_entries, mkdir_at, no_acl_or_error, open_or_create_directory_at, open_private_file,
    path_component_c_string, prepare_runtime_directory, validate_directory, validate_handle,
    validate_owner, validate_parent_directory, windows_error, words_for, AclEntry, AclReply,
    AclStep, DirectoryReply, DirectoryStep, FileFacts, HomeStep,
};
use crate::run::Platform;
use crate::runtime::{runtime_root, IoFailure, UserFolder};

verus! {

/// A directory or file is used exactly where it is one and belongs to the user; a directory
/// above it only where nobody else can write to it either, by its mode or by a list of
/// rights, and where that is known.
pub proof fn lemma_only_the_users_own_is_used(
    facts: FileFacts,
    uid: u32,
    grants: Result<bool, IoFailure>,
    owner: Result<(), IoFailure>,
    directory: Result<(), IoFailure>,
    parent: Result<(), IoFailure>,
    file: Result<(), IoFailure>,
)
    requires
        call_ensures(validate_owner, (facts, uid), owner),
        call_ensures(validate_directory, (facts, uid), directory),
        call_ensures(validate_parent_directory, (facts, uid, grants), parent),
        call_ensures(open_private_file, (facts, uid), file),
    ensures
        owner is Ok <==> facts.uid == uid,
        directory is Ok <==> facts.is_directory && facts.uid == uid,
        file is Ok <==> facts.is_file && facts.uid == uid,
        parent is Ok <==> facts.is_directory && facts.uid == uid && facts.mode & 0o022 == 0 && grants
            is Ok && !grants->Ok_0,
        parent is Ok ==> directory is Ok && owner is Ok,
        owner is Err ==> owner->Err_0.kind@ == "PermissionDenied"@,
        directory is Err ==> (facts.is_directory ==> directory->Err_0.kind@
            == "PermissionDenied"@),
        parent is Err && directory is Ok && facts.mode & 0o022 == 0 && grants is Err
            ==> parent->Err_0 == grants->Err_0,
{
}

/// A list of rights grants access exactly where one of its entries does: what only denies is
/// passed over, and what is not understood ends the look.
pub proof fn lemma_one_entry_that_allows_grants_access(
    reply: AclReply,
    step: AclStep,
    code: Option<i32>,
    failure: IoFailure,
    none: Result<bool, IoFailure>,
    cleared: bool,
    clear: Result<(), IoFailure>,
)
    requires
        call_ensures(inspect_acl_entries, (reply,), step),
        call_ensures(no_acl_or_error, (code, failure), none),
        call_ensures(clear_extended_acl, (cleared, code, failure), clear),
    ensures
        step == AclStep::Answer(Ok(true)) <==> reply == AclReply::Entry(AclEntry::Allow),
        step == AclStep::Answer(Ok(false)) <==> reply is End,
        step is Next <==> reply == AclReply::Entry(AclEntry::Deny),
        reply matches AclReply::Failed(failed) ==> step == AclStep::Answer(Err(failed)),
        none is Ok <==> code is Some && code->0 == 93,
        none is Ok ==> !none->Ok_0,
        none is Err ==> none->Err_0 == failure,
        clear is Ok <==> cleared || (code is Some && code->0 == 93),
        clear is Err ==> clear->Err_0 == failure,
{
}

/// A directory is made once and taken where it is there already; an interruption is tried
/// again, and everything else is told.
pub proof fn lemma_directory_is_made_once(
    failure: Option<IoFailure>,
    made: bool,
    mkdir: DirectoryReply,
    open: DirectoryReply,
    private: Result<(), (Option<i32>, IoFailure)>,
    created: Result<(), IoFailure>,
)
    requires
        call_ensures(mkdir_at, (failure,), mkdir),
        call_ensures(open_or_create_directory_at, (failure, made), open),
        call_ensures(create_private_directory, (private,), created),
    ensures
        mkdir is Done <==> failure is None || (failure->0.kind@ == "AlreadyExists"@
            && failure->0.kind@ != "Interrupted"@),
        mkdir is Again <==> failure is Some && failure->0.kind@ == "Interrupted"@,
        !(mkdir is Make),
        open is Done <==> failure is None,
        open is Again <==> failure is Some && failure->0.kind@ == "Interrupted"@,
        open is Make ==> !made && failure is Some && failure->0.kind@ == "NotFound"@,
        made && failure is Some && failure->0.kind@ != "Interrupted"@ ==> open
            == DirectoryReply::Fail(failure->0),
        created is Ok <==> private is Ok || (private->Err_0.0 is Some && private->Err_0.0->0 == 183),
        created is Err ==> created->Err_0 == private->Err_0.1,
{
}

/// What is opened on Windows is used exactly where it is a plain file or directory on a
/// disk, as was asked for, and leads nowhere else.
pub proof fn lemma_handle_leads_nowhere_else(
    attributes: u32,
    file_type: u32,
    expected_directory: bool,
    result: Result<(), IoFailure>,
)
    requires
        call_ensures(validate_handle, (attributes, file_type, expected_directory), result),
    ensures
        result is Ok <==> attributes & 0x400 == 0 && (attributes & 0x10 != 0) == expected_directory
            && file_type == 1,
        result is Err ==> result->Err_0.kind@ == "InvalidData"@,
{
}

/// The home directory is taken where the system gives an absolute one; a buffer that is too
/// small grows, to a mebibyte at most, and everything else is told.
pub proof fn lemma_home_is_absolute(
    configured: i64,
    length: usize,
    status: i32,
    failure: IoFailure,
    buffer_len: usize,
    home: Option<String>,
    step: HomeStep,
)
    requires
        call_ensures(home_buffer_len, (configured,), length),
        1 <= buffer_len <= 1_048_576,
        call_ensures(current_user_home, (status, failure, buffer_len, home), step),
    ensures
        1 <= length <= 1_048_576,
        0 < configured <= 1_048_576 ==> length == configured,
        configured <= 0 ==> length == 16_384,
        step is Found <==> status == 0 && home is Some && home->0@.len() > 0 && home->0@[0] == '/',
        step is Found ==> Some(step->Found_0) == home,
        step is Retry <==> status == 34 && buffer_len < 1_048_576,
        step is Retry ==> step->Retry_0 > buffer_len && step->Retry_0 <= 1_048_576 && (
        step->Retry_0 == 2 * buffer_len || step->Retry_0 == 1_048_576),
        status != 0 && step is Fail ==> step->Fail_0 == failure,
{
}

/// Only the supervisor's own directory is prepared, from the outermost to itself: on macOS
/// the user's own directories above it are left as they are, and the last two are the
/// supervisor's.
pub proof fn lemma_own_directories_are_prepared(
    platform: Platform,
    folder: UserFolder,
    path: &str,
    result: Result<Vec<DirectoryStep>, IoFailure>,
)
    requires
        call_ensures(prepare_runtime_directory, (platform, &folder, path), result),
    ensures
        platform == Platform::MacOs ==> (result is Ok <==> is_same_path(
            platform,
            path@,
            runtime_root(platform, folder),
        )),
        platform == Platform::MacOs && result is Ok ==> {
            let steps = result->Ok_0@;
            &&& steps.len() == 5
            &&& steps[0].path@ == folder.path@ && !steps[0].own && !steps[1].own && !steps[2].own
            &&& steps[3].own && steps[4].own
            &&& steps[4].path@ == runtime_root(platform, folder)
            &&& steps[1].path@ == below(platform, steps[0].path@, "Library"@)
            &&& steps[4].path@ == below(platform, steps[3].path@, "runtime"@)
        },
        platform == Platform::Windows && result is Ok ==> {
            let steps = result->Ok_0@;
            &&& steps.len() == 3
            &&& steps[0].own && steps[1].own && steps[2].own
            &&& steps[2].path@ == path@
            &&& parent_of(platform, steps[2].path@) == Some(steps[1].path@)
            &&& parent_of(platform, steps[1].path@) == Some(steps[0].path@)
        },
        result is Err ==> result->Err_0.kind@ == "InvalidInput"@,
{
    if let Ok(steps) = result {
        let views = crate::platform::steps_view(steps@);
        assert(views.len() == steps@.len());
        assert forall|i: int| 0 <= i < steps@.len() implies views[i] == (#[trigger] steps@[i])@ by {}
        if platform == Platform::MacOs {
            assert(views[0] == steps@[0]@ && views[1] == steps@[1]@ && views[2] == steps@[2]@);
            assert(views[3] == steps@[3]@ && views[4] == steps@[4]@);
        } else {
            assert(views[0] == steps@[0]@ && views[1] == steps@[1]@ && views[2] == steps@[2]@);
        }
    }
}

/// A component that is handed to the system is one name: neither the directory itself nor
/// the one above it, and without a zero.
pub proof fn lemma_component_is_one_name(component: &[u8], result: Result<(), IoFailure>)
    requires
        call_ensures(path_component_c_string, (component,), result),
    ensures
        result is Ok ==> component@.len() > 0 && !component@.contains(0u8) && component@
            != seq![46u8] && component@ != seq![46u8, 46u8],
        result is Ok && component@[0] != 47 ==> forall|i: int, j: int|
            0 <= i < j < component@.len() && #[trigger] component@[i] == 47
                ==> #[trigger] component@[j] == 47 || component@[j] == 46,
        result is Err ==> result->Err_0.kind@ == "InvalidInput"@,
{
    if result is Ok && component@[0] != 47 {
        let path = component@;
        let end = choose|end: int| #[trigger]
            crate::platform::first_part_ends(path, end) && crate::platform::void_from(path, end);
        assert forall|i: int, j: int|
            0 <= i < j < path.len() && #[trigger] path[i] == 47 implies #[trigger] path[j] == 47
            || path[j] == 46 by {
            assert(i >= end);
            assert(crate::platform::is_void_at(path, j));
        }
    }
}

/// Enough words are taken for the bytes, and not one too many; an error of Windows is known
/// by its facility.
pub proof fn lemma_words_are_just_enough(
    bytes: u32,
    word_bytes: u32,
    words: u32,
    result: u32,
    code: Option<u32>,
)
    requires
        word_bytes > 0,
        call_ensures(words_for, (bytes, word_bytes), words),
        call_ensures(windows_error, (result,), code),
    ensures
        words * word_bytes >= bytes,
        words * word_bytes < bytes + word_bytes,
        code is Some ==> code->0 <= 0xffff,
        code is Some <==> result & 0xffff_0000 == 0x8007_0000,
{
    if words > 0 {
        assert((words - 1) * word_bytes + word_bytes == words * word_bytes) by (nonlinear_arith);
    } else {
        assert(words * word_bytes == 0) by (nonlinear_arith)
            requires
                words == 0,
        ;
    }
    assert(result & 0xffff <= 0xffff) by (bit_vector);
}

/// Two paths are the same exactly where they are the same text or mean the same; sameness
/// goes both ways.
pub proof fn lemma_sameness_goes_both_ways(
    platform: Platform,
    first: &str,
    second: &str,
    same: bool,
    swapped: bool,
)
    requires
        call_ensures(same_path, (platform, first, second), same),
        call_ensures(same_path, (platform, second, first), swapped),
    ensures
        same == swapped,
        first@ == second@ ==> same,
        same ==> (is_absolute(platform, first@) && platform == Platform::MacOs ==> is_absolute(
            platform,
            second@,
        )),
{
}

} // verus!
