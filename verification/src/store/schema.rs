//! Development databases use one current schema, without automatic migration or reset.
use crate::fault::{answers, failure, EngineError, EngineErrorModel};
use crate::json::{empty_object, text_value, Json, JsonModel, Number, NumberModel, ObjectBuilder};
use vstd::prelude::*;

verus! {

/// The schema that the store reads and writes.
pub const SCHEMA_VERSION: i64 = 2;

/// Marks a file as a database of the engine.
pub const APPLICATION_ID: i64 = 0x4d434531;

/// What opening a database leads to.
#[derive(Clone, Copy, Debug, PartialEq, Eq, Structural)]
pub enum Opening {
    /// An empty file: all tables are created.
    Initialize,
    /// A database of the current schema: nothing is created or changed.
    Use,
}

/// An integer as a value.
pub open spec fn integer_model(n: i64) -> JsonModel {
    if n >= 0 {
        JsonModel::Number(NumberModel::PosInt(n as u64))
    } else {
        JsonModel::Number(NumberModel::NegInt(n))
    }
}

fn integer_value(n: i64) -> (r: Json)
    ensures
        r@ == integer_model(n),
{
    if n >= 0 {
        Json::Number(Number::PosInt(n as u64))
    } else {
        Json::Number(Number::NegInt(n))
    }
}

/// A file without version, mark and objects.
pub open spec fn fresh(version: i64, application: i64, objects: i64) -> bool {
    version == 0 && application == 0 && objects == 0
}

/// The fault of a database that the store does not open.
pub open spec fn schema_fault(version: i64, application: i64, objects: i64) -> Option<
    EngineErrorModel,
> {
    if fresh(version, application, objects) {
        None
    } else if application != APPLICATION_ID {
        Some(failure("schema"@, "file is not an engine database"@))
    } else if version != SCHEMA_VERSION {
        Some(
            EngineErrorModel {
                details: empty_object().with("current"@, integer_model(version)).with(
                    "target"@,
                    integer_model(SCHEMA_VERSION),
                ).with("action"@, JsonModel::Text("backup_and_rebuild"@)),
                ..failure(
                    "schema"@,
                    "unsupported database schema; automatic migration is disabled during development; back up the existing database and use a new database_path to rebuild; existing data is unchanged"@,
                )
            },
        )
    } else {
        None
    }
}

/// What opening a database leads to, by its version, its mark and the number of its objects.
pub fn open(version: i64, application: i64, objects: i64) -> (r: Result<Opening, EngineError>)
    ensures
        answers(r, schema_fault(version, application, objects)),
        r is Ok ==> r->Ok_0 == (if fresh(version, application, objects) {
            Opening::Initialize
        } else {
            Opening::Use
        }),
{
    if version == 0 && application == 0 && objects == 0 {
        return Ok(Opening::Initialize);
    }
    if application != APPLICATION_ID {
        return Err(EngineError::new("schema", "file is not an engine database"));
    }
    if version != SCHEMA_VERSION {
        return Err(
            EngineError::new(
                "schema",
                "unsupported database schema; automatic migration is disabled during development; back up the existing database and use a new database_path to rebuild; existing data is unchanged",
            ).details(
                ObjectBuilder::new().with("current", integer_value(version)).with(
                    "target",
                    integer_value(SCHEMA_VERSION),
                ).with("action", text_value("backup_and_rebuild")).build(),
            ),
        );
    }
    Ok(Opening::Use)
}

/// The fault of a path that names no file.
pub open spec fn path_fault(path: Seq<char>) -> Option<EngineErrorModel> {
    if path.len() == 0 || path == ":memory:"@ {
        Some(failure("configuration"@, "explicit database file required"@))
    } else {
        None
    }
}

/// Checks that a path names a file.
pub fn check_path(path: &str) -> (r: Result<(), EngineError>)
    ensures
        answers(r, path_fault(path@)),
{
    if path.is_empty() || crate::text::same_text(path, ":memory:") {
        return Err(EngineError::new("configuration", "explicit database file required"));
    }
    Ok(())
}

/// The name of the lock file for a database file, by the checksum of its identity.
pub fn lock_name(checksum: &str) -> (r: String)
    ensures
        r@ == "mce-"@ + checksum@ + ".lock"@,
{
    crate::text::join3("mce-", checksum, ".lock")
}

/// A database is opened exactly where it is empty and unmarked, or carries the mark of the engine
/// and the version that the engine writes.
pub proof fn lemma_which_database_is_opened(version: i64, application: i64, objects: i64)
    ensures
        schema_fault(version, application, objects) is None <==> {
            ||| version == 0 && application == 0 && objects == 0
            ||| application == 0x4d434531 && version == 2
        },
        schema_fault(version, application, objects) is Some ==> schema_fault(
            version,
            application,
            objects,
        )->0.kind == "schema"@,
{
}

/// A path names a file unless it is empty or stands for memory.
pub proof fn lemma_which_path_names_a_file(path: Seq<char>)
    ensures
        path_fault(path) is None <==> path.len() > 0 && path != ":memory:"@,
        path_fault(path) is Some ==> path_fault(path)->0.kind == "configuration"@,
{
}

} // verus!
