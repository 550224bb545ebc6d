//! Names for new runs, profiles, projects and rules.

use vstd::prelude::*;

use crate::error::{plain_error, AppError, ErrorCode, ErrorView};
use crate::random::random_array;
use crate::text::{encode_lower_hex, join, lower_hex};

verus! {

/// How many names are tried for one new entity.
pub const ID_ALLOCATION_ATTEMPTS: usize = 4;

/// A name is its prefix and sixteen bytes in hexadecimal.
pub open spec fn is_generated_id(id: Seq<char>, prefix: Seq<char>) -> bool {
    exists|bytes: Seq<u8>| bytes.len() == 16 && id == prefix + #[trigger] lower_hex(bytes)
}

/// A name from sixteen bytes.
pub fn id_from_bytes(prefix: &str, bytes: &[u8; 16]) -> (id: String)
    ensures
        id@ == prefix@ + lower_hex(bytes@),
        is_generated_id(id@, prefix@),
{
    join(prefix, encode_lower_hex(bytes.as_slice()).as_str())
}

/// A new name; the message is that of the refusal where the operating system
/// gives no random bytes.
fn generate_id(prefix: &str, refusal: &str) -> (result: Result<String, AppError>)
    ensures
        match result {
            Ok(id) => is_generated_id(id@, prefix@),
            Err(error) => error@ == plain_error(ErrorCode::PlatformError, refusal@),
        },
{
    match random_array::<16>() {
        Ok(bytes) => Ok(id_from_bytes(prefix, &bytes)),
        Err(_) => Err(AppError::new(ErrorCode::PlatformError, refusal)),
    }
}

pub fn generate_run_id() -> (result: Result<String, AppError>)
    ensures
        match result {
            Ok(id) => is_generated_id(id@, "run-"@),
            Err(error) => error@ == plain_error(
                ErrorCode::PlatformError,
                "failed to generate a managed run ID"@,
            ),
        },
{
    generate_id("run-", "failed to generate a managed run ID")
}

pub fn generate_profile_id() -> (result: Result<String, AppError>)
    ensures
        match result {
            Ok(id) => is_generated_id(id@, "profile-"@),
            Err(error) => error@ == plain_error(
                ErrorCode::PlatformError,
                "failed to generate a launch profile ID"@,
            ),
        },
{
    generate_id("profile-", "failed to generate a launch profile ID")
}

/// What a new name in the catalog stands for.
#[derive(Clone, Copy, Debug, PartialEq, Eq, Structural)]
pub enum CatalogEntity {
    Project,
    ClassificationRule,
    LaunchProfile,
}

pub open spec fn id_prefix(entity: CatalogEntity) -> Seq<char> {
    match entity {
        CatalogEntity::Project => "project-"@,
        CatalogEntity::ClassificationRule => "rule-"@,
        CatalogEntity::LaunchProfile => "profile-"@,
    }
}

/// The refusal where every name that was tried is taken.
pub open spec fn exhausted_error(entity: CatalogEntity) -> ErrorView {
    plain_error(
        ErrorCode::Internal,
        match entity {
            CatalogEntity::Project => "failed to allocate a unique project ID"@,
            CatalogEntity::ClassificationRule => {
                "failed to allocate a unique classification rule ID"@
            },
            CatalogEntity::LaunchProfile => "failed to allocate a unique launch profile ID"@,
        },
    ).retry()
}

pub fn generate_catalog_id(entity: CatalogEntity) -> (result: Result<String, AppError>)
    ensures
        match result {
            Ok(id) => is_generated_id(id@, id_prefix(entity)),
            Err(error) => error@ == plain_error(
                ErrorCode::PlatformError,
                if entity == CatalogEntity::LaunchProfile {
                    "failed to generate a launch profile ID"@
                } else {
                    "failed to generate a catalog entity ID"@
                },
            ),
        },
{
    match entity {
        CatalogEntity::Project => generate_id(
            "project-",
            "failed to generate a catalog entity ID",
        ),
        CatalogEntity::ClassificationRule => generate_id(
            "rule-",
            "failed to generate a catalog entity ID",
        ),
        CatalogEntity::LaunchProfile => generate_profile_id(),
    }
}

/// What the look-up of a new name means.
#[derive(Debug)]
pub enum IdStep {
    /// The name is free.
    Use,
    /// Try another name.
    Retry,
    Fail(AppError),
}

/// A name is free where nothing is found under it, and a failed look-up ends
/// the search.
pub fn after_id_lookup(
    entity: CatalogEntity,
    attempts_left: usize,
    lookup: Result<(), AppError>,
) -> (step: IdStep)
    ensures
        match lookup {
            Ok(_) => if attempts_left > 0 {
                step is Retry
            } else {
                step is Fail && step->Fail_0@ == exhausted_error(entity)
            },
            Err(error) => if error.code == ErrorCode::NotFound {
                step is Use
            } else {
                step == IdStep::Fail(error)
            },
        },
{
    match lookup {
        Ok(_) => if attempts_left > 0 {
            IdStep::Retry
        } else {
            let message = match entity {
                CatalogEntity::Project => "failed to allocate a unique project ID",
                CatalogEntity::ClassificationRule => {
                    "failed to allocate a unique classification rule ID"
                },
                CatalogEntity::LaunchProfile => "failed to allocate a unique launch profile ID",
            };
            IdStep::Fail(AppError::new(ErrorCode::Internal, message).as_retryable())
        },
        Err(error) => if error.code == ErrorCode::NotFound {
            IdStep::Use
        } else {
            IdStep::Fail(error)
        },
    }
}

} // verus!
