//! What is answered to CREATE and DROP, said of what was asked for and of what the disk gave.
use vstd::prelude::*;

use crate::error::ErrorView;
use crate::sql::execution::create;
use crate::sql::execution::create::DirectoryFault;
use crate::sql::execution::drop;
use crate::sql::execution::drop::RemoveFault;
use crate::storage::column::ColumnDef;
use crate::storage::table_metadata;
use crate::storage::table_metadata::TableSettings;

verus! {

/// A database is made exactly when its directory was, or was there already and that was asked for; one that
/// is there already is refused as such, and one without permission as that.
pub proof fn lemma_database_is_made_with_its_directory(if_not_exists: bool, made: Result<(), DirectoryFault>)
    ensures
        create::database_made(if_not_exists, made) is Ok <==> made is Ok || (if_not_exists && made
            == Err::<(), DirectoryFault>(DirectoryFault::AlreadyExists)),
        !if_not_exists && made == Err::<(), DirectoryFault>(DirectoryFault::AlreadyExists)
            ==> create::database_made(if_not_exists, made)->Err_0 is DatabaseAlreadyExists,
        made == Err::<(), DirectoryFault>(DirectoryFault::PermissionDenied) ==> create::database_made(
            if_not_exists,
            made,
        )->Err_0 is PermissionDenied,
        create::database_made(if_not_exists, made) is Err && made->Err_0 != DirectoryFault::AlreadyExists
            && made->Err_0 != DirectoryFault::PermissionDenied ==> create::database_made(
            if_not_exists,
            made,
        )->Err_0 is InvalidDatabaseName,
{
}

/// Something is dropped exactly when its directory was removed, or was not there and that was asked for. What
/// is not there is refused as missing, and everything else as a fault that names the directory.
pub proof fn lemma_dropped_with_its_directory(
    outcome: Result<(), RemoveFault>,
    if_exists: bool,
    missing: ErrorView,
    what: Seq<char>,
)
    ensures
        drop::removed(outcome, if_exists, missing, what) is Ok <==> outcome is Ok || (if_exists && outcome->Err_0 is NotFound),
        !if_exists && outcome is Err && outcome->Err_0 is NotFound ==> drop::removed(
            outcome,
            if_exists,
            missing,
            what,
        )->Err_0 == missing,
        outcome is Err && outcome->Err_0 is Other ==> {
            let e = drop::removed(outcome, if_exists, missing, what)->Err_0;
            let text = outcome->Err_0->Other_0@;
            &&& e is Internal
            &&& what.is_prefix_of(e->Internal_0)
            &&& text.is_prefix_of(e->Internal_0.skip(what.len() as int))
        },
{
    if let Err(RemoveFault::Other(text, path)) = outcome {
        let rest = text@ + ". Stop database, remove "@ + path@ + " folder, and restart the database."@;
        let e = drop::removed(outcome, if_exists, missing, what)->Err_0;
        assert(e->Internal_0 =~= what + rest);
        assert(e->Internal_0.skip(what.len() as int) =~= rest);
        assert(e->Internal_0.take(what.len() as int) =~= what);
        assert(rest.take(text@.len() as int) =~= text@);
    }
}

/// The metadata of a new table are what was declared: its columns, what it is sorted by, its key and its
/// settings, with the time of the clock in milliseconds; they are made exactly where the clock gives a time
/// that fits.
pub proof fn lemma_new_metadata_hold_what_was_declared(
    columns: Seq<ColumnDef>,
    order_by: Seq<ColumnDef>,
    primary_key: Seq<ColumnDef>,
    settings: TableSettings,
    since_epoch: Option<u128>,
)
    ensures
        table_metadata::unix_time(since_epoch) is Ok <==> since_epoch is Some && since_epoch->Some_0 <= u64::MAX,
        table_metadata::unix_time(since_epoch) matches Ok(created_at) ==> {
            let m = create::new_metadata(columns, order_by, primary_key, settings, created_at);
            &&& m.created_at == since_epoch->Some_0
            &&& m.schema.columns == columns
            &&& m.schema.order_by == order_by
            &&& m.schema.primary_key == primary_key
            &&& m.settings == settings
            &&& m.version == 1
            &&& m.flags == 0
        },
        table_metadata::unix_time(since_epoch) is Err ==> table_metadata::unix_time(since_epoch)->Err_0 is
            SystemTimeWentBackword,
{
}

} // verus!
