//! What CREATE DATABASE and DROP do, said of the statements as they are written.
use vstd::prelude::*;

use crate::runtime_config::CatalogEntry;
use crate::sql;
use crate::sql::ast::{ObjectName, ObjectNamePart, ObjectType, Statement};
use crate::sql::logical_plan::create_database;
use crate::sql::logical_plan::create_table;
use crate::sql::logical_plan::drop;
use crate::sql::logical_plan::insert;
use crate::sql::logical_plan::select;
use crate::sql::sql_text;
use crate::storage::numbers::NumberReading;

verus! {

/// CREATE DATABASE is accepted exactly for one name of letters, digits and underscores; it then makes the
/// database with that name, and keeps whether it may be there already.
pub proof fn lemma_database_is_created_as_named(parts: Seq<ObjectNamePart>, if_not_exists: bool)
    ensures
        ({
            let r = create_database::create_database_plan(parts, if_not_exists);
            &&& r is Ok <==> {
                &&& parts.len() == 1
                &&& parts[0] is Identifier
                &&& parts[0]->Identifier_0.value@.len() > 0
                &&& forall|i: int|
                    0 <= i < parts[0]->Identifier_0.value@.len() ==> {
                        let c = #[trigger] parts[0]->Identifier_0.value@[i];
                        'a' <= c <= 'z' || 'A' <= c <= 'Z' || '0' <= c <= '9' || c == '_'
                    }
            }
            &&& r is Ok ==> r->Ok_0 is CreateDatabase && r->Ok_0->CreateDatabase_name@
                == parts[0]->Identifier_0.value@ && r->Ok_0->CreateDatabase_if_not_exists == if_not_exists
        }),
{
    if parts.len() == 1 && parts[0] is Identifier {
        let s = parts[0]->Identifier_0.value@;
        if sql::is_name(s) {
            assert forall|i: int| 0 <= i < s.len() implies {
                let c = #[trigger] s[i];
                'a' <= c <= 'z' || 'A' <= c <= 'Z' || '0' <= c <= '9' || c == '_'
            } by {
                assert(sql::is_name_char(s[i]));
            }
        } else if s.len() > 0 {
            let i = choose|i: int| 0 <= i < s.len() && !sql::is_name_char(#[trigger] s[i]);
            assert(!sql::is_name_char(s[i]));
        }
    }
}

/// DROP drops what it names and nothing else: a table by its database and its name, a database by its name.
/// It is accepted exactly for one table with both parts, or for one database, and keeps whether the thing
/// may be missing.
pub proof fn lemma_drop_drops_what_is_named(object_type: ObjectType, if_exists: bool, names: Seq<ObjectName>)
    ensures
        ({
            let r = drop::drop_plan(object_type, if_exists, names);
            &&& r is Ok <==> names.len() == 1 && match object_type {
                ObjectType::Table => names[0].0@.len() == 2 && names[0].0@[0] is Identifier
                    && names[0].0@[1] is Identifier,
                ObjectType::Database => names[0].0@.len() == 1 && names[0].0@[0] is Identifier,
                ObjectType::Other => false,
            }
            &&& r is Ok && object_type is Table ==> {
                &&& r->Ok_0 is DropTable
                &&& r->Ok_0->DropTable_name.database@ == names[0].0@[0]->Identifier_0.value@
                &&& r->Ok_0->DropTable_name.table@ == names[0].0@[1]->Identifier_0.value@
                &&& r->Ok_0->DropTable_if_exists == if_exists
            }
            &&& r is Ok && object_type is Database ==> {
                &&& r->Ok_0 is DropDatabase
                &&& r->Ok_0->DropDatabase_name@ == names[0].0@[0]->Identifier_0.value@
                &&& r->Ok_0->DropDatabase_if_exists == if_exists
            }
        }),
{
}

/// A request holds exactly one statement, which is planned by its kind. Text that cannot be read, no statement, several
/// of them, and statements of other kinds are refused.
pub proof fn lemma_one_statement_is_planned_by_its_kind(
    parsed: Result<Seq<Statement>, Seq<char>>,
    entries: Seq<CatalogEntry>,
    readings: Seq<NumberReading>,
)
    ensures
        ({
            let r = sql_text::statements_plan(parsed, entries, readings);
            &&& r is Ok ==> parsed is Ok && parsed->Ok_0.len() == 1
            &&& parsed is Ok && parsed->Ok_0.len() == 1 ==> match parsed->Ok_0[0] {
                Statement::CreateDatabase { db_name, if_not_exists } => r == create_database::create_database_plan(
                    db_name.0@,
                    if_not_exists,
                ),
                Statement::CreateTable(c) => r == create_table::create_table_plan(c, readings),
                Statement::Insert(i) => r == insert::insert_plan(i, entries, readings),
                Statement::Query(q) => r == select::query_plan(q, entries, readings),
                Statement::Drop { object_type, if_exists, names } => r == drop::drop_plan(
                    object_type,
                    if_exists,
                    names@,
                ),
                Statement::Other(_) => r is Err,
            }
        }),
{
}

} // verus!
