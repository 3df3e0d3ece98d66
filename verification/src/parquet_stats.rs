//! Column statistics of a Parquet file, aggregated over its row groups
//! from the statistics of each column chunk that the footer holds.
use vstd::prelude::*;
use crate::parquet::{
    PhysicalType, format_stat_bytes, lemma_stat_text_given, map_primitive_type, primitive_type_spec,
    stat_text_given, stat_text_rel,
};
use crate::parquet_tree::{LeafColumn, LeafColumnView};
use crate::schema::{FieldType, ft_view};

verus! {

// ─── Column statistics ──────────────────────────────────────────────────────

/// Statistics of one column chunk, as the footer gives them.
pub struct ChunkStat {
    pub physical: PhysicalType,
    pub null_count: u64,
    pub distinct_count: Option<u64>,
    pub min: Option<Vec<u8>>,
    pub max: Option<Vec<u8>>,
}

pub struct ChunkStatView {
    pub physical: PhysicalType,
    pub null_count: u64,
    pub distinct_count: Option<u64>,
    pub min: Option<Seq<u8>>,
    pub max: Option<Seq<u8>>,
}

impl View for ChunkStat {
    type V = ChunkStatView;

    open spec fn view(&self) -> ChunkStatView {
        ChunkStatView {
            physical: self.physical,
            null_count: self.null_count,
            distinct_count: self.distinct_count,
            min: crate::parquet_footer::opt_bytes(self.min),
            max: crate::parquet_footer::opt_bytes(self.max),
        }
    }
}

pub open spec fn chunk_view(o: Option<ChunkStat>) -> Option<ChunkStatView> {
    match o {
        Some(s) => Some(s@),
        None => None,
    }
}

/// The statistics of each column chunk of each row group.
pub open spec fn row_groups_view(rgs: Seq<Vec<Option<ChunkStat>>>) -> Seq<Seq<Option<ChunkStatView>>> {
    rgs.map_values(|g: Vec<Option<ChunkStat>>| g@.map_values(|o: Option<ChunkStat>| chunk_view(o)))
}

/// Column statistics aggregated from the Parquet footer (no data read).
#[derive(Debug)]
pub struct ColumnStats {
    pub name: String,
    pub field_type: FieldType,
    pub null_count: Option<i64>,
    pub distinct_count: Option<i64>,
    pub min_value: Option<String>,
    pub max_value: Option<String>,
}

/// The statistics of column `c` in row group `g`, where there are any.
pub open spec fn chunk_at(rgs: Seq<Seq<Option<ChunkStatView>>>, g: int, c: int) -> Option<ChunkStatView> {
    if 0 <= g < rgs.len() && 0 <= c < rgs[g].len() {
        rgs[g][c]
    } else {
        None
    }
}

/// Nulls of column `c` in the first `k` row groups, summed (wrapping).
pub open spec fn nulls_after(rgs: Seq<Seq<Option<ChunkStatView>>>, c: int, k: int) -> i64
    decreases k,
{
    if k <= 0 {
        0
    } else {
        match chunk_at(rgs, k - 1, c) {
            Some(s) => nulls_after(rgs, c, k - 1).wrapping_add(s.null_count as i64),
            None => nulls_after(rgs, c, k - 1),
        }
    }
}

pub open spec fn max_i64(a: i64, b: i64) -> i64 {
    if a >= b {
        a
    } else {
        b
    }
}

/// The largest distinct count of column `c` in the first `k` row groups
/// (a conservative estimate), `None` where none gives one.
pub open spec fn distinct_after(rgs: Seq<Seq<Option<ChunkStatView>>>, c: int, k: int) -> Option<i64>
    decreases k,
{
    if k <= 0 {
        None
    } else {
        let prev = distinct_after(rgs, c, k - 1);
        match chunk_at(rgs, k - 1, c) {
            Some(s) => match s.distinct_count {
                Some(d) => Some(
                    max_i64(
                        match prev {
                            Some(p) => p,
                            None => 0,
                        },
                        d as i64,
                    ),
                ),
                None => prev,
            },
            None => prev,
        }
    }
}

/// Whether the minimum taken from row group `e` has a text.
pub open spec fn min_text_given(rgs: Seq<Seq<Option<ChunkStatView>>>, c: int, e: Option<int>) -> bool {
    match e {
        Some(g) => match chunk_at(rgs, g, c) {
            Some(s) => match s.min {
                Some(b) => stat_text_given(b, s.physical),
                None => false,
            },
            None => false,
        },
        None => false,
    }
}

/// The row group whose minimum and maximum stand for column `c` after the
/// first `k` row groups: a row group with both replaces the one before
/// while no minimum text has been found.
pub open spec fn entry_after(rgs: Seq<Seq<Option<ChunkStatView>>>, c: int, k: int) -> Option<int>
    decreases k,
{
    if k <= 0 {
        None
    } else {
        let prev = entry_after(rgs, c, k - 1);
        match chunk_at(rgs, k - 1, c) {
            Some(s) => if !min_text_given(rgs, c, prev) && s.min is Some && s.max is Some {
                Some(k - 1)
            } else {
                prev
            },
            None => prev,
        }
    }
}

/// The minimum and maximum texts of column `c` taken from row group `e`.
pub open spec fn min_max_rel<F: Fn(u32) -> String, D: Fn(u64) -> String>(
    min: Option<String>,
    max: Option<String>,
    rgs: Seq<Seq<Option<ChunkStatView>>>,
    c: int,
    e: Option<int>,
    render_f32: F,
    render_f64: D,
) -> bool {
    match e {
        None => min is None && max is None,
        Some(g) => match chunk_at(rgs, g, c) {
            Some(s) => match (s.min, s.max) {
                (Some(lo), Some(hi)) => stat_text_rel(min, lo, s.physical, render_f32, render_f64)
                    && stat_text_rel(max, hi, s.physical, render_f32, render_f64),
                _ => false,
            },
            None => false,
        },
    }
}

/// The statistics of leaf column `c` over all row groups.
pub open spec fn column_stats_rel<F: Fn(u32) -> String, D: Fn(u64) -> String>(
    s: ColumnStats,
    leaf: LeafColumnView,
    rgs: Seq<Seq<Option<ChunkStatView>>>,
    c: int,
    render_f32: F,
    render_f64: D,
) -> bool {
    &&& s.name@ == leaf.path
    &&& ft_view(s.field_type) == primitive_type_spec(leaf.physical, leaf.logical, leaf.converted)
    &&& s.null_count == Some(nulls_after(rgs, c, rgs.len() as int))
    &&& s.distinct_count == distinct_after(rgs, c, rgs.len() as int)
    &&& min_max_rel(
        s.min_value,
        s.max_value,
        rgs,
        c,
        entry_after(rgs, c, rgs.len() as int),
        render_f32,
        render_f64,
    )
}

fn clone_opt_string(o: &Option<String>) -> (r: Option<String>)
    ensures
        r == *o,
{
    match o {
        Some(s) => Some(s.clone()),
        None => None,
    }
}

/// Per-column statistics aggregated across row groups: null counts summed,
/// the largest distinct count, and the minimum and maximum of the first row
/// group that has them (rendered by `format_stat_bytes`). Chunks beyond the
/// leaf columns are ignored.
pub fn build_column_stats<F, D>(
    leaves: &Vec<LeafColumn>,
    row_groups: &Vec<Vec<Option<ChunkStat>>>,
    render_f32: &F,
    render_f64: &D,
) -> (r: Vec<ColumnStats>) where F: Fn(u32) -> String, D: Fn(u64) -> String
    requires
        forall|x: u32| call_requires(*render_f32, (x,)),
        forall|x: u64| call_requires(*render_f64, (x,)),
    ensures
        r@.len() == leaves@.len(),
        forall|c: int|
            0 <= c < r@.len() ==> column_stats_rel(
                #[trigger] r@[c],
                leaves@[c]@,
                row_groups_view(row_groups@),
                c,
                *render_f32,
                *render_f64,
            ),
{
    let ghost rgs = row_groups_view(row_groups@);
    let n = leaves.len();
    let mut nulls: Vec<i64> = Vec::new();
    let mut distincts: Vec<Option<i64>> = Vec::new();
    let mut mins: Vec<Option<String>> = Vec::new();
    let mut maxs: Vec<Option<String>> = Vec::new();
    let mut i: usize = 0;
    while i < n
        invariant
            i <= n,
            n == leaves@.len(),
            nulls@.len() == i,
            distincts@.len() == i,
            mins@.len() == i,
            maxs@.len() == i,
            forall|c: int| 0 <= c < i ==> nulls@[c] == 0 && distincts@[c] is None && mins@[c] is None
                && maxs@[c] is None,
        decreases n - i,
    {
        nulls.push(0);
        distincts.push(None);
        mins.push(None);
        maxs.push(None);
        i += 1;
    }
    let mut g: usize = 0;
    while g < row_groups.len()
        invariant
            g <= row_groups@.len(),
            rgs == row_groups_view(row_groups@),
            rgs.len() == row_groups@.len(),
            n == leaves@.len(),
            nulls@.len() == n,
            distincts@.len() == n,
            mins@.len() == n,
            maxs@.len() == n,
            forall|x: u32| call_requires(*render_f32, (x,)),
            forall|x: u64| call_requires(*render_f64, (x,)),
            forall|c: int|
                0 <= c < n ==> {
                    &&& #[trigger] nulls@[c] == nulls_after(rgs, c, g as int)
                    &&& distincts@[c] == distinct_after(rgs, c, g as int)
                    &&& min_max_rel(
                        mins@[c],
                        maxs@[c],
                        rgs,
                        c,
                        entry_after(rgs, c, g as int),
                        *render_f32,
                        *render_f64,
                    )
                },
        decreases row_groups@.len() - g,
    {
        let rg = &row_groups[g];
        let ghost gi = g as int;
        assert(rgs[gi] == rg@.map_values(|o: Option<ChunkStat>| chunk_view(o)));
        let mut c: usize = 0;
        while c < rg.len() && c < n
            invariant
                g < row_groups@.len(),
                rgs == row_groups_view(row_groups@),
                rgs.len() == row_groups@.len(),
                gi == g as int,
                *rg == row_groups@[gi],
                rgs[gi] == rg@.map_values(|o: Option<ChunkStat>| chunk_view(o)),
                c <= n,
                n == leaves@.len(),
                nulls@.len() == n,
                distincts@.len() == n,
                mins@.len() == n,
                maxs@.len() == n,
                forall|x: u32| call_requires(*render_f32, (x,)),
                forall|x: u64| call_requires(*render_f64, (x,)),
                forall|j: int|
                    0 <= j < n ==> {
                        let k = if j < c { gi + 1 } else { gi };
                        &&& #[trigger] nulls@[j] == nulls_after(rgs, j, k)
                        &&& distincts@[j] == distinct_after(rgs, j, k)
                        &&& min_max_rel(
                            mins@[j],
                            maxs@[j],
                            rgs,
                            j,
                            entry_after(rgs, j, k),
                            *render_f32,
                            *render_f64,
                        )
                    },
            decreases n - c,
        {
            let ghost ci = c as int;
            assert(chunk_at(rgs, gi, ci) == chunk_view(rg@[ci]));
            match &rg[c] {
                None => {},
                Some(stat) => {
                    let ghost sv = stat@;
                    let prev_nulls = nulls[c];
                    nulls.set(c, prev_nulls.wrapping_add(stat.null_count as i64));
                    match stat.distinct_count {
                        Some(dc) => {
                            let p: i64 = match distincts[c] {
                                Some(p) => p,
                                None => 0,
                            };
                            let d: i64 = dc as i64;
                            distincts.set(c, Some(if p >= d { p } else { d }));
                        },
                        None => {},
                    }
                    proof {
                        lemma_min_text_given(
                            mins@[ci],
                            maxs@[ci],
                            rgs,
                            ci,
                            entry_after(rgs, ci, gi),
                            *render_f32,
                            *render_f64,
                        );
                    }
                    if mins[c].is_none() && stat.min.is_some() && stat.max.is_some() {
                        let lo = format_stat_bytes(
                            stat.min.as_ref().unwrap().as_slice(),
                            stat.physical,
                            render_f32,
                            render_f64,
                        );
                        let hi = format_stat_bytes(
                            stat.max.as_ref().unwrap().as_slice(),
                            stat.physical,
                            render_f32,
                            render_f64,
                        );
                        mins.set(c, lo);
                        maxs.set(c, hi);
                    }
                },
            }
            c += 1;
        }
        proof {
            assert forall|j: int| 0 <= j < n implies chunk_at(rgs, gi, j) is None || j < c by {
                if j >= c {
                    assert(c >= rg@.len());
                }
            }
        }
        g += 1;
    }
    let mut out: Vec<ColumnStats> = Vec::new();
    let mut k: usize = 0;
    while k < n
        invariant
            k <= n,
            n == leaves@.len(),
            g == row_groups@.len(),
            rgs.len() == row_groups@.len(),
            nulls@.len() == n,
            distincts@.len() == n,
            mins@.len() == n,
            maxs@.len() == n,
            out@.len() == k,
            forall|c: int|
                0 <= c < n ==> {
                    &&& #[trigger] nulls@[c] == nulls_after(rgs, c, g as int)
                    &&& distincts@[c] == distinct_after(rgs, c, g as int)
                    &&& min_max_rel(
                        mins@[c],
                        maxs@[c],
                        rgs,
                        c,
                        entry_after(rgs, c, g as int),
                        *render_f32,
                        *render_f64,
                    )
                },
            forall|c: int|
                0 <= c < k ==> column_stats_rel(
                    #[trigger] out@[c],
                    leaves@[c]@,
                    rgs,
                    c,
                    *render_f32,
                    *render_f64,
                ),
        decreases n - k,
    {
        let leaf = &leaves[k];
        let stats = ColumnStats {
            name: leaf.path.clone(),
            field_type: map_primitive_type(leaf.physical, leaf.logical, leaf.converted),
            null_count: Some(nulls[k]),
            distinct_count: distincts[k],
            min_value: clone_opt_string(&mins[k]),
            max_value: clone_opt_string(&maxs[k]),
        };
        proof {
            assert(nulls@[k as int] == nulls_after(rgs, k as int, g as int));
        }
        out.push(stats);
        k += 1;
    }
    out
}

proof fn lemma_min_text_given<F: Fn(u32) -> String, D: Fn(u64) -> String>(
    min: Option<String>,
    max: Option<String>,
    rgs: Seq<Seq<Option<ChunkStatView>>>,
    c: int,
    e: Option<int>,
    render_f32: F,
    render_f64: D,
)
    requires
        min_max_rel(min, max, rgs, c, e, render_f32, render_f64),
    ensures
        min is Some <==> min_text_given(rgs, c, e),
{
    match e {
        Some(g) => match chunk_at(rgs, g, c) {
            Some(s) => match (s.min, s.max) {
                (Some(lo), Some(hi)) => {
                    lemma_stat_text_given(min, lo, s.physical, render_f32, render_f64);
                },
                _ => {},
            },
            None => {},
        },
        None => {},
    }
}

} // verus!
