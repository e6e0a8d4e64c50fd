//! What a part of a table holds and how its files are laid out, said of the rows and the bytes.
use vstd::prelude::*;
use vstd::string::*;

use crate::engines::sorting_laws;
use crate::engines::EngineName;
use crate::error::ErrorView;
use crate::search;
use crate::sql::projection;
use crate::storage::column;
use crate::storage::column::{ColumnDef, OutputColumnView, PhysicalColumnView};
use crate::storage::frame;
use crate::storage::literal;
use crate::storage::table_metadata;
use crate::storage::table_metadata::TableMetadataView;
use crate::storage::table_part;
use crate::storage::table_part::TablePartView;
use crate::storage::value::Value;
use crate::tcp_io_parser;

verus! {

/// Granules of a size hold all rows, and one fewer would not.
pub proof fn lemma_granules_are_as_many_as_needed(rows: nat, granularity: nat)
    requires
        granularity > 0,
    ensures
        rows <= table_part::granule_count(rows, granularity) * granularity,
        rows > 0 ==> (table_part::granule_count(rows, granularity) - 1) * granularity < rows,
        rows == 0 ==> table_part::granule_count(rows, granularity) == 0,
{
    if rows > 0 {
        let q = (rows - 1) / granularity as int;
        assert(table_part::granule_count(rows, granularity) == q + 1);
        assert(q * granularity <= rows - 1 < (q + 1) * granularity) by (nonlinear_arith)
            requires
                q == (rows - 1) / granularity as int,
                granularity > 0,
                rows > 0,
        ;
    }
}

/// Whether a column is declared like one of the key.
pub open spec fn is_of_key(c: PhysicalColumnView, primary_key: Seq<ColumnDef>) -> bool {
    exists|k: int| 0 <= k < primary_key.len() && sorting_laws::is_same_column(#[trigger] primary_key[k], c.column_def)
}

/// The property of being the position of a column of the key.
pub open spec fn key_among(columns: Seq<PhysicalColumnView>, primary_key: Seq<ColumnDef>) -> spec_fn(int) -> bool {
    |i: int| is_of_key(columns[i], primary_key)
}

/// Whether columns are those of a list that belong to the key, in the order of the list.
pub open spec fn are_key_columns(
    columns: Seq<PhysicalColumnView>,
    primary_key: Seq<ColumnDef>,
    at: Seq<int>,
    keys: Seq<PhysicalColumnView>,
) -> bool {
    &&& search::are_selected(at, columns.len() as int, key_among(columns, primary_key))
    &&& keys.len() == at.len()
    &&& forall|k: int| 0 <= k < at.len() ==> #[trigger] keys[k] == columns[at[k]]
}

proof fn lemma_key_columns(columns: Seq<PhysicalColumnView>, primary_key: Seq<ColumnDef>)
    ensures
        exists|at: Seq<int>| #[trigger]
            are_key_columns(columns, primary_key, at, table_part::key_columns(columns, primary_key)),
    decreases columns.len(),
{
    let p = key_among(columns, primary_key);
    let keys = table_part::key_columns(columns, primary_key);
    if columns.len() == 0 {
        let none = Seq::<int>::empty();
        assert(are_key_columns(columns, primary_key, none, keys));
    } else {
        let rest = columns.drop_last();
        let n = rest.len() as int;
        lemma_key_columns(rest, primary_key);
        let below = table_part::key_columns(rest, primary_key);
        let at = choose|at: Seq<int>| #[trigger] are_key_columns(rest, primary_key, at, below);
        assert(search::are_selected(at, n, p)) by {
            assert forall|i: int| 0 <= i < n implies (#[trigger] at.contains(i) <==> p(i)) by {
                assert(rest[i] == columns[i]);
                assert(key_among(rest, primary_key)(i) == p(i));
            }
        }
        search::lemma_one_more_selected(at, n, p);
        let d = columns.last().column_def;
        let f = column::equal_to(d);
        search::lemma_position(primary_key, f);
        assert forall|c: ColumnDef| #[trigger] f(c) <==> sorting_laws::is_same_column(c, d) by {
            sorting_laws::lemma_equal_columns_are_declared_alike(c, d);
        }
        assert(search::position(primary_key, f) is Some <==> p(n)) by {
            match search::position(primary_key, f) {
                Some(k) => {
                    assert(f(primary_key[k]));
                    assert(sorting_laws::is_same_column(primary_key[k], columns[n].column_def));
                },
                None => {
                    assert forall|k: int| 0 <= k < primary_key.len() implies !sorting_laws::is_same_column(
                        #[trigger] primary_key[k],
                        d,
                    ) by {
                        assert(!f(primary_key[k]));
                    }
                },
            }
        }
        if p(n) {
            let more = at.push(n);
            assert forall|k: int| 0 <= k < more.len() implies #[trigger] keys[k] == columns[more[k]] by {
                if k < at.len() {
                    assert(keys[k] == below[k]);
                    assert(more[k] == at[k]);
                }
            }
            assert(are_key_columns(columns, primary_key, more, keys));
        } else {
            assert forall|k: int| 0 <= k < at.len() implies #[trigger] keys[k] == columns[at[k]] by {
                assert(keys[k] == below[k]);
            }
            assert(are_key_columns(columns, primary_key, at, keys));
        }
    }
}

/// Whether a part describes its own data: the number of its rows, its columns in their order, and for each
/// granule the values that its first row has in the columns of the key.
pub open spec fn describes_itself(part: TablePartView, primary_key: Seq<ColumnDef>, granularity: nat, at: Seq<int>) -> bool {
    let rows = part.data[0].data.len();
    &&& part.info.row_count == rows
    &&& part.info.column_defs.len() == part.data.len()
    &&& forall|c: int| 0 <= c < part.data.len() ==> #[trigger] part.info.column_defs[c] == part.data[c].column_def
    &&& search::are_selected(at, part.data.len() as int, key_among(part.data, primary_key))
    &&& at.len() > 0 ==> rows <= part.info.marks.len() * granularity && (part.info.marks.len() - 1) * granularity < rows
    &&& forall|g: int| 0 <= g < part.info.marks.len() ==> (#[trigger] part.info.marks[g]).index.len() == at.len()
    &&& forall|g: int, k: int|
        0 <= g < part.info.marks.len() && 0 <= k < at.len() ==> #[trigger] part.info.marks[g].index[k]
            == part.data[at[k]].data[g * granularity]
}

/// A part that is made has the name that was asked for, the columns that it is made of, all of one length, and
/// describes itself: see [`describes_itself`]. Under the plain engine its rows are the given rows, sorted by
/// what the table is sorted by.
pub proof fn lemma_part_holds_the_rows_sorted(
    metadata: TableMetadataView,
    columns: Seq<PhysicalColumnView>,
    name: String,
    part: TablePartView,
)
    requires
        metadata.settings.index_granularity > 0,
        columns.len() > 0,
        0 < columns[0].data.len() <= u64::MAX,
        forall|c: int| 0 <= c < columns.len() ==> (#[trigger] columns[c]).data.len() == columns[0].data.len(),
        table_part::can_be_sorted(metadata, columns),
        metadata.settings.engine == EngineName::MergeTree,
        table_part::part_owes(metadata, columns, name, Ok(part)),
    ensures
        part.info.name == name,
        part.data.len() == columns.len(),
        forall|c: int| 0 <= c < columns.len() ==> (#[trigger] part.data[c]).column_def == columns[c].column_def,
        exists|out: Seq<OutputColumnView>| #[trigger]
            sorting_laws::is_sorted_by(
                column::outputs_of(columns),
                projection::column_projections(metadata.schema.order_by),
                out,
            ) && are_data_of(part, out),
        exists|at: Seq<int>| #[trigger]
            describes_itself(
                part,
                metadata.schema.primary_key,
                metadata.settings.index_granularity as nat,
                at,
            ),
{
    let result = Ok::<TablePartView, ErrorView>(part);
    let ordered = choose|ordered: Result<Seq<OutputColumnView>, ErrorView>| #[trigger]
        table_part::ordered_part_owes(metadata, columns, name, result, ordered);
    let cols = column::outputs_of(columns);
    let order_by = projection::column_projections(metadata.schema.order_by);
    let out = ordered->Ok_0;
    sorting_laws::lemma_sorted_rows_ascend(order_by, cols, ordered);
    assert(sorting_laws::is_sorted_by(cols, order_by, out));
    let (ord, rows) = choose|ord: Seq<int>, rows: Seq<int>| #[trigger]
        sorting_laws::are_columns_for(cols, ord, order_by) && #[trigger] sorting_laws::is_sorting(
            cols,
            ord,
            cols[0].data.len(),
            rows,
        ) && sorting_laws::holds_rows(cols, rows, out);
    assert forall|c: int| 0 <= c < columns.len() implies (#[trigger] part.data[c]).column_def == columns[c].column_def
        && part.data[c].data == out[c].data && out[c].data.len() == columns[0].data.len() by {
        assert(out[c].proj == cols[c].proj);
    }
    assert(are_data_of(part, out));
    let primary_key = metadata.schema.primary_key;
    let granularity = metadata.settings.index_granularity as nat;
    let keys = table_part::key_columns(part.data, primary_key);
    lemma_key_columns(part.data, primary_key);
    let at = choose|at: Seq<int>| #[trigger] are_key_columns(part.data, primary_key, at, keys);
    let n = part.data[0].data.len();
    assert(part.data[0].data == out[0].data);
    if at.len() > 0 {
        assert(at[0] < part.data.len());
        assert(keys[0] == part.data[at[0]]);
        assert(part.data[at[0]].column_def == columns[at[0]].column_def);
        lemma_granules_are_as_many_as_needed(n, granularity);
    }
    assert forall|g: int, k: int| 0 <= g < part.info.marks.len() && 0 <= k < at.len() implies #[trigger]
        part.info.marks[g].index[k] == part.data[at[k]].data[g * granularity] by {
        assert(keys[k] == part.data[at[k]]);
    }
    assert(describes_itself(part, primary_key, granularity, at));
}

/// Whether the data of a part are those of columns.
pub open spec fn are_data_of(part: TablePartView, out: Seq<OutputColumnView>) -> bool {
    part.data.len() == out.len() && forall|c: int| 0 <= c < out.len() ==> (#[trigger] part.data[c]).data == out[c].data
}

/// A file starts with its magic bytes, holds its data behind them, and ends in the four bytes of the checksum
/// of the data, the least significant first.
pub proof fn lemma_file_is_laid_out(magic: Seq<u8>, data: Seq<u8>)
    ensures
        frame::framed(magic, data).len() == magic.len() + data.len() + 4,
        frame::framed(magic, data).take(magic.len() as int) == magic,
        frame::framed(magic, data).subrange(magic.len() as int, (magic.len() + data.len()) as int) == data,
        frame::framed(magic, data).skip((magic.len() + data.len()) as int) == vstd::bytes::spec_u32_to_le_bytes(
            frame::crc32(data),
        ),
{
    vstd::bytes::lemma_auto_spec_u32_to_from_le_bytes();
    let file = frame::framed(magic, data);
    let sum = vstd::bytes::spec_u32_to_le_bytes(frame::crc32(data));
    assert(sum.len() == 4);
    assert(file.take(magic.len() as int) =~= magic);
    assert(file.subrange(magic.len() as int, (magic.len() + data.len()) as int) =~= data);
    assert(file.skip((magic.len() + data.len()) as int) =~= sum);
}

/// Whether bytes spell a text in ASCII.
pub open spec fn spells(bytes: Seq<u8>, s: Seq<char>) -> bool {
    bytes.len() == s.len() && forall|i: int| 0 <= i < s.len() ==> #[trigger] bytes[i] as int == s[i] as int
}

/// The files of the database start with words that tell them apart.
pub proof fn lemma_magic_bytes_spell_words()
    ensures
        spells(table_metadata::metadata_magic(), "THMETA"@),
        spells(table_part::column_magic(), "THDATA"@),
        spells(table_part::info_magic(), "THINDX"@),
{
    reveal_strlit("THMETA");
    reveal_strlit("THDATA");
    reveal_strlit("THINDX");
}

/// A message starts with the size of its body in eight bytes, the least significant first, and goes on with
/// the body.
pub proof fn lemma_message_is_laid_out(body: Seq<u8>)
    requires
        body.len() <= u64::MAX,
    ensures
        tcp_io_parser::message(body).len() == 8 + body.len(),
        tcp_io_parser::message(body).take(8) == vstd::bytes::spec_u64_to_le_bytes(body.len() as u64),
        tcp_io_parser::message(body).skip(8) == body,
{
    vstd::bytes::lemma_auto_spec_u64_to_from_le_bytes();
    let size = vstd::bytes::spec_u64_to_le_bytes(body.len() as u64);
    assert(size.len() == 8);
    assert(tcp_io_parser::message(body).take(8) =~= size);
    assert(tcp_io_parser::message(body).skip(8) =~= body);
}

/// The granules of a column are runs of its values: each has the size that is asked for but the last, and the
/// value at a place of a granule is that of the row that many places behind the granule's first.
pub proof fn lemma_granules_are_runs(data: Seq<Value>, granularity: nat, g: int)
    requires
        granularity > 0,
        0 <= g < table_part::granules_of(data, granularity).len(),
    ensures
        ({
            let granule = table_part::granules_of(data, granularity)[g];
            &&& 0 < granule.len() <= granularity
            &&& g + 1 < table_part::granules_of(data, granularity).len() ==> granule.len() == granularity
            &&& forall|i: int| 0 <= i < granule.len() ==> #[trigger] granule[i] == data[g * granularity + i]
            &&& g + 1 == table_part::granules_of(data, granularity).len() ==> g * granularity + granule.len()
                == data.len()
        }),
{
    let n = data.len() as int;
    let count = table_part::granule_count(data.len(), granularity) as int;
    lemma_granules_are_as_many_as_needed(data.len(), granularity);
    assert(0 <= g * granularity <= (count - 1) * granularity) by (nonlinear_arith)
        requires
            0 <= g <= count - 1,
            granularity > 0,
    ;
    assert((g + 1) * granularity == g * granularity + granularity) by (nonlinear_arith);
    if g + 1 < count {
        assert((g + 1) * granularity <= (count - 1) * granularity) by (nonlinear_arith)
            requires
                g + 1 <= count - 1,
                granularity > 0,
        ;
    } else {
        assert(n <= (g + 1) * granularity);
    }
}

/// A part goes by the name that is asked for and, where none is, by a new UUID of version 7, which tells its time.
pub proof fn lemma_part_goes_by_the_name_asked_for(
    metadata: TableMetadataView,
    columns: Seq<PhysicalColumnView>,
    asked: Option<String>,
    chosen: String,
    part: TablePartView,
)
    requires
        table_part::is_chosen(asked, chosen),
        table_part::part_owes(metadata, columns, chosen, Ok(part)),
    ensures
        asked is Some ==> part.info.name == asked->Some_0,
        asked is None ==> {
            let parsed = literal::parsed_uuid(part.info.name@);
            parsed is Ok && (parsed->Ok_0 / 0x1000_0000_0000_0000_0000) % 16 == 7
        },
{
}

} // verus!
