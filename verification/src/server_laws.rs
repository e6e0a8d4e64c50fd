//! How the load of the database, the ages of parts and the settings of the server are read.
use core::cmp::Ordering;

use vstd::prelude::*;

use crate::config;
use crate::config::LogLevel;
use crate::runtime_config;
use crate::sql::physical_plan;
use crate::sql::physical_plan::PhysicalView;
use crate::storage::part_name;

verus! {

/// A query adds its complexity to the load while it runs and takes it off when it has completed, as long as
/// the counter does not overflow: what two queries add is the sum of both, in whatever order they complete.
pub proof fn lemma_load_is_the_sum_of_what_runs(load: usize, a: usize, b: usize)
    requires
        load + a + b <= usize::MAX,
    ensures
        runtime_config::load_with(load, a) == load + a,
        runtime_config::load_with(runtime_config::load_with(load, a), b) == load + a + b,
        runtime_config::load_without(runtime_config::load_with(runtime_config::load_with(load, a), b), a) == load + b,
{
}

/// Reading rows is the heaviest, then writing rows, then changing what there is; what does nothing weighs
/// nothing.
pub proof fn lemma_reading_weighs_most(p: PhysicalView)
    ensures
        physical_plan::complexity(p) == 0 <==> p is Skip,
        p is Select ==> physical_plan::complexity(p) == 4,
        p is Insert ==> physical_plan::complexity(p) == 2,
        p is CreateDatabase || p is CreateTable || p is DropDatabase || p is DropTable ==> physical_plan::complexity(
            p,
        ) == 1,
{
}

/// A level of the settings logs no more than one with a smaller number from `1` to `3`, and a number beyond
/// logs all.
pub proof fn lemma_levels_are_as_documented(n: u8)
    ensures
        config::level_of(n) == LogLevel::Warn <==> n == 2,
        config::level_of(n) == LogLevel::Error <==> n == 3,
        config::level_of(n) == LogLevel::Info <==> n != 2 && n != 3,
{
}

/// Names of parts are ordered by the times that they tell: one that tells a later time is greater, whether by
/// the seconds or within one second. Two names that tell the same time are not taken for equal, and names
/// that tell no time are.
pub proof fn lemma_names_are_ordered_by_time(
    t1: Seq<char>,
    t2: Seq<char>,
    time1: Option<(u64, u32)>,
    time2: Option<(u64, u32)>,
)
    ensures
        part_name::name_order(t1, t2, time1, time2) == Ordering::Equal <==> t1 == t2 || time1 is None || time2 is None,
        t1 != t2 && time1 is Some && time2 is Some ==> {
            let (s1, n1) = time1->Some_0;
            let (s2, n2) = time2->Some_0;
            &&& s1 > s2 ==> part_name::name_order(t1, t2, time1, time2) == Ordering::Greater
            &&& s1 == s2 && n1 > n2 ==> part_name::name_order(t1, t2, time1, time2) == Ordering::Greater
            &&& s1 < s2 ==> part_name::name_order(t1, t2, time1, time2) == Ordering::Less
            &&& s1 == s2 && n1 <= n2 ==> part_name::name_order(t1, t2, time1, time2) == Ordering::Less
        },
{
}

} // verus!
