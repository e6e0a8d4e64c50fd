//! Which parts are merged and what becomes of them, said of the parts themselves.
use vstd::prelude::*;

use crate::background_merge;
use crate::background_merge::{MoveStep, PartsToMergeView};
use crate::search;
use crate::startup::NamedTableView;
use crate::storage::column;
use crate::storage::column::PhysicalColumnView;
use crate::storage::part_name;
use crate::storage::table_part::TablePartInfoView;
use crate::storage::value::Value;

verus! {

/// Whether a part was made before another, by the times that their names tell: a part whose name tells no time
/// before every part whose name tells one.
pub open spec fn was_made_before(a: TablePartInfoView, b: TablePartInfoView) -> bool {
    match (part_name::part_time(a.name@), part_name::part_time(b.name@)) {
        (Some(x), Some(y)) => x.0 < y.0 || (x.0 == y.0 && x.1 < y.1),
        (None, Some(_)) => true,
        _ => false,
    }
}

/// Whether two parts of a list, at different positions, are its oldest: none was made before the first, and
/// none but that one before the second.
pub open spec fn are_two_oldest(infos: Seq<TablePartInfoView>, i: int, j: int) -> bool {
    &&& 0 <= i < infos.len()
    &&& 0 <= j < infos.len()
    &&& i != j
    &&& forall|k: int| 0 <= k < infos.len() ==> !was_made_before(#[trigger] infos[k], infos[i])
    &&& forall|k: int| 0 <= k < infos.len() && k != i ==> !was_made_before(#[trigger] infos[k], infos[j])
}

/// Whether a table is the first of a list that has more than one part.
pub open spec fn is_first_with_parts(tables: Seq<NamedTableView>, t: int) -> bool {
    &&& 0 <= t < tables.len()
    &&& tables[t].config.infos.len() > 1
    &&& forall|k: int| 0 <= k < t ==> (#[trigger] tables[k]).config.infos.len() <= 1
}

/// What is merged are the two oldest parts of the first table that has more than one; nothing is merged only
/// where no table has.
pub proof fn lemma_the_two_oldest_parts_are_merged(tables: Seq<NamedTableView>, parts: Option<PartsToMergeView>)
    requires
        background_merge::are_parts_to_merge(tables, parts),
    ensures
        match parts {
            None => forall|k: int| 0 <= k < tables.len() ==> (#[trigger] tables[k]).config.infos.len() <= 1,
            Some(p) => exists|t: int, i: int, j: int| #[trigger]
                is_first_with_parts(tables, t) && #[trigger] are_two_oldest(tables[t].config.infos, i, j)
                    && p.table_def == tables[t].table && p.table_metadata == tables[t].config.metadata
                    && p.part_1_info.name@ == tables[t].config.infos[i].name@ && p.part_2_info.name@
                    == tables[t].config.infos[j].name@ && tables[t].config.infos.contains(p.part_1_info)
                    && tables[t].config.infos.contains(p.part_2_info),
        },
{
    let f = background_merge::has_parts_to_merge();
    search::lemma_position(tables, f);
    match parts {
        None => {
            assert forall|k: int| 0 <= k < tables.len() implies (#[trigger] tables[k]).config.infos.len() <= 1 by {
                assert(!f(tables[k]));
            }
        },
        Some(p) => {
            let t = search::position(tables, f)->Some_0;
            assert(f(tables[t]));
            assert forall|k: int| 0 <= k < t implies (#[trigger] tables[k]).config.infos.len() <= 1 by {
                assert(!f(tables[k]));
            }
            let (i, j) = choose|i: int, j: int| #[trigger] background_merge::are_oldest(tables[t], p, i, j);
            let infos = tables[t].config.infos;
            let times = background_merge::times_of(infos);
            lemma_part_there(infos, i, p.part_1_info);
            lemma_part_there(infos, j, p.part_2_info);
            assert forall|k: int| 0 <= k < infos.len() implies !was_made_before(#[trigger] infos[k], infos[i]) by {
                assert(!background_merge::is_older(times[k], times[i]));
            }
            assert forall|k: int| 0 <= k < infos.len() && k != i implies !was_made_before(
                #[trigger] infos[k],
                infos[j],
            ) by {
                assert(!background_merge::is_older(times[k], times[j]));
            }
            assert(is_first_with_parts(tables, t));
            assert(are_two_oldest(infos, i, j));
        },
    }
}

proof fn lemma_part_there(infos: Seq<TablePartInfoView>, i: int, part: TablePartInfoView)
    requires
        0 <= i < infos.len(),
        background_merge::is_part_at(infos, i, part),
    ensures
        part.name@ == infos[i].name@,
        infos.contains(part),
{
    let f = background_merge::part_named(infos[i].name@);
    search::lemma_position(infos, f);
    let k = search::position(infos, f)->Some_0;
    assert(f(infos[k]));
    assert(infos[k] == part);
}

/// Whether parts are those of a list that have neither of two names, in their order.
pub open spec fn are_other_parts(
    infos: Seq<TablePartInfoView>,
    a: Seq<char>,
    b: Seq<char>,
    at: Seq<int>,
    others: Seq<TablePartInfoView>,
) -> bool {
    &&& search::are_selected(at, infos.len() as int, |i: int| infos[i].name@ != a && infos[i].name@ != b)
    &&& others.len() == at.len()
    &&& forall|k: int| 0 <= k < at.len() ==> #[trigger] others[k] == infos[at[k]]
}

proof fn lemma_others(infos: Seq<TablePartInfoView>, a: Seq<char>, b: Seq<char>)
    ensures
        exists|at: Seq<int>| #[trigger]
            are_other_parts(infos, a, b, at, background_merge::without_parts(infos, a, b)),
    decreases infos.len(),
{
    let p = |i: int| infos[i].name@ != a && infos[i].name@ != b;
    let out = background_merge::without_parts(infos, a, b);
    if infos.len() == 0 {
        let none = Seq::<int>::empty();
        assert(are_other_parts(infos, a, b, none, out));
    } else {
        let rest = infos.drop_last();
        let n = rest.len() as int;
        lemma_others(rest, a, b);
        let below = background_merge::without_parts(rest, a, b);
        let at = choose|at: Seq<int>| #[trigger] are_other_parts(rest, a, b, at, below);
        let q = |i: int| rest[i].name@ != a && rest[i].name@ != b;
        assert(search::are_selected(at, n, p)) by {
            assert forall|i: int| 0 <= i < n implies (#[trigger] at.contains(i) <==> p(i)) by {
                assert(rest[i] == infos[i]);
                assert(p(i) == q(i));
            }
        }
        search::lemma_one_more_selected(at, n, p);
        if p(n) {
            let more = at.push(n);
            assert forall|k: int| 0 <= k < more.len() implies #[trigger] out[k] == infos[more[k]] by {
                if k < at.len() {
                    assert(out[k] == below[k]);
                    assert(more[k] == at[k]);
                }
            }
            assert(are_other_parts(infos, a, b, more, out));
        } else {
            assert forall|k: int| 0 <= k < at.len() implies #[trigger] out[k] == infos[at[k]] by {
                assert(out[k] == below[k]);
            }
            assert(are_other_parts(infos, a, b, at, out));
        }
    }
}

/// The parts of a list behind others, where they are asked for.
pub open spec fn with_part(infos: Seq<TablePartInfoView>, part: TablePartInfoView, there: bool) -> Seq<TablePartInfoView> {
    if there {
        infos.push(part)
    } else {
        infos
    }
}

/// Replacing two parts changes nothing before both could be set aside. Then the table has its other parts and,
/// behind them, the new part where it could be moved, and else those of the two that could be put back.
pub proof fn lemma_parts_are_replaced_or_put_back(
    part_1: TablePartInfoView,
    part_2: TablePartInfoView,
    new: TablePartInfoView,
    infos: Seq<TablePartInfoView>,
    set_1: bool,
    set_2: bool,
    moved: bool,
    last_1: bool,
    last_2: bool,
)
    ensures
        ({
            let outcomes = if !set_1 {
                seq![false]
            } else if !set_2 {
                seq![true, false, last_1]
            } else {
                seq![true, true, moved, last_1, last_2]
            };
            let (step, after) = background_merge::run_move(
                part_1,
                part_2,
                new,
                MoveStep::SetFirstAside,
                infos,
                outcomes,
            );
            &&& step == (if set_1 && set_2 && moved {
                MoveStep::Replaced
            } else {
                MoveStep::Abandoned
            })
            &&& !(set_1 && set_2) ==> after == infos
            &&& set_1 && set_2 ==> exists|others: Seq<TablePartInfoView>, at: Seq<int>| #[trigger]
                are_other_parts(infos, part_1.name@, part_2.name@, at, others) && after == (if moved {
                    others.push(new)
                } else {
                    with_part(with_part(others, part_1, last_1), part_2, last_2)
                })
        }),
{
    reveal_with_fuel(background_merge::run_move, 7);
    let others = background_merge::without_parts(infos, part_1.name@, part_2.name@);
    lemma_others(infos, part_1.name@, part_2.name@);
    let at = choose|at: Seq<int>| #[trigger] are_other_parts(infos, part_1.name@, part_2.name@, at, others);
    assert(are_other_parts(infos, part_1.name@, part_2.name@, at, others));
    assert(others.push(new).drop_last() =~= others);
    let all = seq![true, true, moved, last_1, last_2];
    assert(all.drop_first() =~= seq![true, moved, last_1, last_2]);
    assert(all.drop_first().drop_first() =~= seq![moved, last_1, last_2]);
    assert(all.drop_first().drop_first().drop_first() =~= seq![last_1, last_2]);
    assert(all.drop_first().drop_first().drop_first().drop_first() =~= seq![last_2]);
    let some = seq![true, false, last_1];
    assert(some.drop_first() =~= seq![false, last_1]);
    assert(some.drop_first().drop_first() =~= seq![last_1]);
}

/// A column that only the second of two parts has holds, in each row of the first, its declared default, or
/// NULL where it has none, and then its own values.
pub proof fn lemma_missing_rows_hold_the_default(
    cols1: Seq<PhysicalColumnView>,
    cols2: Seq<PhysicalColumnView>,
    j: int,
) -> (p: int)
    requires
        cols1.len() > 0,
        0 <= j < cols2.len(),
        forall|i: int|
            0 <= i < cols1.len() ==> !column::column_def_eq((#[trigger] cols1[i]).column_def, cols2[j].column_def),
        forall|a: int, b: int|
            #![trigger cols2[a], cols2[b]]
            0 <= a < cols2.len() && 0 <= b < cols2.len() && a != b ==> !column::column_def_eq(
                cols2[a].column_def,
                cols2[b].column_def,
            ),
    ensures
        0 <= p < background_merge::combined(cols1, cols2, cols2.len() as int).len(),
        ({
            let c = background_merge::combined(cols1, cols2, cols2.len() as int)[p];
            let n = cols1[0].data.len();
            &&& c.column_def == cols2[j].column_def
            &&& c.data.len() == n + cols2[j].data.len()
            &&& forall|r: int|
                0 <= r < n ==> #[trigger] c.data[r] == (match c.column_def.constraints.default {
                    Some(v) => v,
                    None => Value::Null,
                })
            &&& forall|r: int| 0 <= r < cols2[j].data.len() ==> #[trigger] c.data[n + r] == cols2[j].data[r]
        }),
{
    background_merge::lemma_new_column_starts_with_defaults(cols1, cols2, j, cols2.len() as int)
}

} // verus!
