//! Hardware: what the detectors report, read into GPU, CPU and memory figures.
pub mod types;
pub mod nvidia;
pub mod amd;
pub mod intel;
pub mod apple;
pub mod memory;

use vstd::prelude::*;
use crate::text::{begins_with, chars_of, concat_chars, contains_seq, has_sub, lower_chars, lowercase, same_chars, slice_chars, starts_with_str, string_of, trim, trimmed};
use types::{GpuInfo, GpuView, GpuVendor, gpu_views, make_gpu};

verus! {

/// The number of GPUs in the simulation table.
pub const GPU_TABLE_LEN: usize = 38;

/// The GPUs that `--gpu` can simulate: name, VRAM in MB, bandwidth in tenths
/// of a GB/s.
pub open spec fn gpu_table_entry(i: int) -> (Seq<char>, u64, u64) {
    if i == 0 {
        ("RTX 5090"@, 32768, 17920)
    } else if i == 1 {
        ("RTX 5080"@, 16384, 9600)
    } else if i == 2 {
        ("RTX 4090"@, 24576, 10080)
    } else if i == 3 {
        ("RTX 3090"@, 24576, 9360)
    } else if i == 4 {
        ("RTX 4080"@, 16384, 7168)
    } else if i == 5 {
        ("RTX 3080"@, 12288, 7600)
    } else if i == 6 {
        ("RTX 4070"@, 12288, 5040)
    } else if i == 7 {
        ("RTX 4060"@, 8192, 2720)
    } else if i == 8 {
        ("RTX 3060"@, 12288, 3600)
    } else if i == 9 {
        ("RTX 4060 Ti"@, 16384, 2880)
    } else if i == 10 {
        ("A100 40GB"@, 40960, 15550)
    } else if i == 11 {
        ("A100 80GB"@, 81920, 20390)
    } else if i == 12 {
        ("H100"@, 81920, 33520)
    } else if i == 13 {
        ("L40S"@, 49152, 8640)
    } else if i == 14 {
        ("RX 7900 XTX"@, 24576, 9600)
    } else if i == 15 {
        ("RX 7900 XT"@, 20480, 8000)
    } else if i == 16 {
        ("RX 7900 GRE"@, 16384, 5760)
    } else if i == 17 {
        ("RX 7800 XT"@, 16384, 5760)
    } else if i == 18 {
        ("RX 7700 XT"@, 12288, 4320)
    } else if i == 19 {
        ("RX 7600 XT"@, 8192, 2880)
    } else if i == 20 {
        ("RX 7600"@, 8192, 2880)
    } else if i == 21 {
        ("RX 6950 XT"@, 16384, 5760)
    } else if i == 22 {
        ("RX 6900 XT"@, 16384, 5120)
    } else if i == 23 {
        ("RX 6800 XT"@, 16384, 5120)
    } else if i == 24 {
        ("RX 6800"@, 16384, 5120)
    } else if i == 25 {
        ("RX 6700 XT"@, 12288, 3840)
    } else if i == 26 {
        ("RX 6600 XT"@, 8192, 2880)
    } else if i == 27 {
        ("RX 6600"@, 8192, 2240)
    } else if i == 28 {
        ("MI300X"@, 196608, 53000)
    } else if i == 29 {
        ("MI250X"@, 131072, 32770)
    } else if i == 30 {
        ("MI250"@, 131072, 32770)
    } else if i == 31 {
        ("MI100"@, 32768, 10240)
    } else if i == 32 {
        ("Arc B580"@, 12288, 2720)
    } else if i == 33 {
        ("Arc B570"@, 10240, 2400)
    } else if i == 34 {
        ("Arc A770"@, 8192, 5120)
    } else if i == 35 {
        ("Arc A750"@, 8192, 5120)
    } else if i == 36 {
        ("Arc A580"@, 8192, 5120)
    } else if i == 37 {
        ("Arc A380"@, 6144, 2880)
    } else {
        (Seq::empty(), 0, 0)
    }
}

/// Entry `i` of the simulation table.
pub fn gpu_table(i: usize) -> (e: (&'static str, u64, u64))
    requires
        i < GPU_TABLE_LEN,
    ensures
        (e.0@, e.1, e.2) == gpu_table_entry(i as int),
{
    match i {
        0 => ("RTX 5090", 32768, 17920),
        1 => ("RTX 5080", 16384, 9600),
        2 => ("RTX 4090", 24576, 10080),
        3 => ("RTX 3090", 24576, 9360),
        4 => ("RTX 4080", 16384, 7168),
        5 => ("RTX 3080", 12288, 7600),
        6 => ("RTX 4070", 12288, 5040),
        7 => ("RTX 4060", 8192, 2720),
        8 => ("RTX 3060", 12288, 3600),
        9 => ("RTX 4060 Ti", 16384, 2880),
        10 => ("A100 40GB", 40960, 15550),
        11 => ("A100 80GB", 81920, 20390),
        12 => ("H100", 81920, 33520),
        13 => ("L40S", 49152, 8640),
        14 => ("RX 7900 XTX", 24576, 9600),
        15 => ("RX 7900 XT", 20480, 8000),
        16 => ("RX 7900 GRE", 16384, 5760),
        17 => ("RX 7800 XT", 16384, 5760),
        18 => ("RX 7700 XT", 12288, 4320),
        19 => ("RX 7600 XT", 8192, 2880),
        20 => ("RX 7600", 8192, 2880),
        21 => ("RX 6950 XT", 16384, 5760),
        22 => ("RX 6900 XT", 16384, 5120),
        23 => ("RX 6800 XT", 16384, 5120),
        24 => ("RX 6800", 16384, 5120),
        25 => ("RX 6700 XT", 12288, 3840),
        26 => ("RX 6600 XT", 8192, 2880),
        27 => ("RX 6600", 8192, 2240),
        28 => ("MI300X", 196608, 53000),
        29 => ("MI250X", 131072, 32770),
        30 => ("MI250", 131072, 32770),
        31 => ("MI100", 32768, 10240),
        32 => ("Arc B580", 12288, 2720),
        33 => ("Arc B570", 10240, 2400),
        34 => ("Arc A770", 8192, 5120),
        35 => ("Arc A750", 8192, 5120),
        36 => ("Arc A580", 8192, 5120),
        _ => ("Arc A380", 6144, 2880),
    }
}

/// How many GPUs a simulated name asks for, and the name to look up: a
/// lower-cased name starting with `2x` asks for two of what follows, trimmed.
pub open spec fn sim_request(l: Seq<char>) -> (u64, Seq<char>) {
    if l.len() >= 2 && l[0] == '2' && (l[1] == 'x' || l[1] == 'X') {
        (2, trim(l.skip(2)))
    } else {
        (1, l)
    }
}

/// `i` is the first table entry whose lower-cased name contains `search`.
pub open spec fn first_table_match(search: Seq<char>, i: int) -> bool {
    &&& 0 <= i < GPU_TABLE_LEN
    &&& has_sub(lowercase(gpu_table_entry(i).0), search)
    &&& forall|j: int| 0 <= j < i ==> !has_sub(lowercase(gpu_table_entry(j).0), search)
}

/// The vendor of a table entry, read from the start of its name.
pub open spec fn table_vendor(name: Seq<char>) -> GpuVendor {
    if begins_with(name, "RX "@) || begins_with(name, "MI"@) {
        GpuVendor::Amd
    } else if begins_with(name, "Arc "@) {
        GpuVendor::Intel
    } else {
        GpuVendor::Nvidia
    }
}

/// `i` is the first table entry whose lower-cased name is `search` itself.
pub open spec fn exact_table_match(search: Seq<char>, i: int) -> bool {
    &&& 0 <= i < GPU_TABLE_LEN
    &&& lowercase(gpu_table_entry(i).0) == search
    &&& forall|j: int| 0 <= j < i ==> lowercase(gpu_table_entry(j).0) != search
}

/// `count` GPUs of table entry `i` working together: their VRAM summed, the
/// bandwidth the smallest of theirs (that of one, as they are alike), named
/// `2x <name>` for a pair.
pub open spec fn table_gpu(i: int, count: u64) -> GpuView {
    let e = gpu_table_entry(i);
    GpuView {
        name: if count > 1 {
            "2x "@ + e.0
        } else {
            e.0
        },
        vram_mb: (e.1 * count) as u64,
        bandwidth_tenths: e.2,
        vendor: table_vendor(e.0),
    }
}

/// The simulated GPU for a `--gpu` name (case ignored): the table entry named
/// exactly so when there is one, else the first entry whose name contains
/// the requested name; for a `2x` request two of them.
pub open spec fn simulated_gpu(name: Seq<char>) -> Option<GpuView> {
    let (count, search) = sim_request(lowercase(name));
    if exists|i: int| exact_table_match(search, i) {
        Some(table_gpu(choose|i: int| exact_table_match(search, i), count))
    } else if exists|i: int| first_table_match(search, i) {
        Some(table_gpu(choose|i: int| first_table_match(search, i), count))
    } else {
        None
    }
}

proof fn lemma_table_bounds(i: int)
    requires
        0 <= i < GPU_TABLE_LEN,
    ensures
        gpu_table_entry(i).1 <= 196608,
        gpu_table_entry(i).2 <= 53000,
{
}

/// The GPU that `--gpu <name>` simulates, if the table knows the name.
pub fn simulate_gpu(name: &str) -> (r: Option<GpuInfo>)
    ensures
        match r {
            Some(g) => simulated_gpu(name@) == Some(g@),
            None => simulated_gpu(name@) is None,
        },
{
    let nc = chars_of(name);
    let l = lower_chars(&nc);
    let two = l.len() >= 2 && l[0] == '2' && (l[1] == 'x' || l[1] == 'X');
    let count: u64 = if two {
        2
    } else {
        1
    };
    let search: Vec<char> = if two {
        let rest = slice_chars(&l, 2, l.len());
        assert(rest@ == l@.skip(2));
        trimmed(&rest)
    } else {
        l
    };
    assert(sim_request(lowercase(name@)) == (count, search@));
    let mut exact: Option<usize> = None;
    let mut i: usize = 0;
    while i < GPU_TABLE_LEN && exact.is_none()
        invariant
            i <= GPU_TABLE_LEN,
            match exact {
                Some(k) => exact_table_match(search@, k as int),
                None => forall|j: int| 0 <= j < i ==> lowercase(gpu_table_entry(j).0) != search@,
            },
        decreases GPU_TABLE_LEN - i,
    {
        let e = gpu_table(i);
        assert(e.0@ == gpu_table_entry(i as int).0);
        let el = to_lower_name(e.0);
        if same_chars(&el, &search) {
            exact = Some(i);
        }
        i = i + 1;
    }
    let found: usize = match exact {
        Some(k) => {
            let ghost c = choose|c: int| exact_table_match(search@, c);
            assert(c == k) by {
                if c < k {
                    assert(lowercase(gpu_table_entry(c).0) != search@);
                } else if c > k {
                    assert(lowercase(gpu_table_entry(k as int).0) != search@);
                }
            }
            k
        },
        None => {
            assert(!exists|c: int| exact_table_match(search@, c));
            let mut j: usize = 0;
            let mut hit: Option<usize> = None;
            while j < GPU_TABLE_LEN && hit.is_none()
                invariant
                    j <= GPU_TABLE_LEN,
                    match hit {
                        Some(k) => first_table_match(search@, k as int),
                        None => forall|m: int|
                            0 <= m < j ==> !has_sub(lowercase(gpu_table_entry(m).0), search@),
                    },
                decreases GPU_TABLE_LEN - j,
            {
                let e = gpu_table(j);
                assert(e.0@ == gpu_table_entry(j as int).0);
                let el = to_lower_name(e.0);
                if contains_seq(&el, &search) {
                    hit = Some(j);
                }
                j = j + 1;
            }
            match hit {
                Some(k) => {
                    let ghost c = choose|c: int| first_table_match(search@, c);
                    assert(c == k) by {
                        if c < k {
                            assert(!has_sub(lowercase(gpu_table_entry(c).0), search@));
                        } else if c > k {
                            assert(!has_sub(lowercase(gpu_table_entry(k as int).0), search@));
                        }
                    }
                    k
                },
                None => {
                    assert(!exists|c: int| first_table_match(search@, c));
                    return None;
                },
            }
        },
    };
    assert(simulated_gpu(name@) == Some(table_gpu(found as int, count)));
    let e = gpu_table(found);
    proof {
        lemma_table_bounds(found as int);
    }
    assert(e.0@ == gpu_table_entry(found as int).0);
    let ec = chars_of(e.0);
    let vendor = if starts_with_str(&ec, "RX ") || starts_with_str(&ec, "MI") {
        GpuVendor::Amd
    } else if starts_with_str(&ec, "Arc ") {
        GpuVendor::Intel
    } else {
        GpuVendor::Nvidia
    };
    let shown: Vec<char> = if count > 1 {
        let head = chars_of("2x ");
        concat_chars(&head, &ec)
    } else {
        ec
    };
    Some(make_gpu(string_of(shown.as_slice()), e.1 * count, e.2, vendor))
}

fn to_lower_name(s: &str) -> (r: Vec<char>)
    ensures
        r@ == lowercase(s@),
{
    let c = chars_of(s);
    lower_chars(&c)
}

/// GPUs with the names seen first kept, later ones with a name already seen dropped.
pub open spec fn first_by_name(g: Seq<GpuView>) -> Seq<GpuView>
    decreases g.len(),
{
    if g.len() == 0 {
        Seq::empty()
    } else {
        let prev = first_by_name(g.drop_last());
        if exists|j: int| 0 <= j < g.len() - 1 && g[j].name == g.last().name {
            prev
        } else {
            prev.push(g.last())
        }
    }
}

/// Drops every GPU whose name an earlier GPU already has.
pub fn dedup_gpus_by_name(gpus: Vec<GpuInfo>) -> (r: Vec<GpuInfo>)
    ensures
        gpu_views(r@) == first_by_name(gpu_views(gpus@)),
{
    let ghost gv = gpu_views(gpus@);
    let mut out: Vec<GpuInfo> = Vec::new();
    let mut i: usize = 0;
    assert(gv.take(0) =~= Seq::<GpuView>::empty());
    assert(gpu_views(out@) =~= Seq::<GpuView>::empty());
    while i < gpus.len()
        invariant
            i <= gpus.len(),
            gv == gpu_views(gpus@),
            gpu_views(out@) == first_by_name(gv.take(i as int)),
        decreases gpus.len() - i,
    {
        let ghost t = gv.take(i + 1);
        assert(t.drop_last() == gv.take(i as int));
        let cur = chars_of(gpus[i].name.as_str());
        let mut seen = false;
        let mut j: usize = 0;
        while j < i
            invariant
                j <= i < gpus.len(),
                gv == gpu_views(gpus@),
                cur@ == gpus@[i as int].name@,
                seen == exists|k: int| 0 <= k < j && gv[k].name == cur@,
            decreases i - j,
        {
            let other = chars_of(gpus[j].name.as_str());
            assert(gv[j as int].name == other@);
            if same_chars(&other, &cur) {
                seen = true;
            }
            j = j + 1;
        }
        assert(t.last() == gv[i as int]);
        assert(forall|k: int| 0 <= k < i ==> t[k] == gv[k]);
        if !seen {
            let ghost before = gpu_views(out@);
            let c = chars_of(gpus[i].name.as_str());
            let g = make_gpu(string_of(c.as_slice()), gpus[i].vram_mb, gpus[i].bandwidth_tenths, gpus[i].vendor);
            let ghost v = g@;
            out.push(g);
            assert(gpu_views(out@) =~= before.push(v));
        }
        i = i + 1;
    }
    assert(gv.take(gpus.len() as int) == gv);
    out
}

/// Some GPU in `g` has the name `n`.
pub open spec fn has_name(g: Seq<GpuView>, n: Seq<char>) -> bool {
    exists|a: int| 0 <= a < g.len() && (#[trigger] g[a]).name == n
}

/// After dropping repeated names no two GPUs share a name, every GPU kept was
/// in the list, and every name of the list is still there.
pub proof fn lemma_first_by_name(g: Seq<GpuView>)
    ensures
        forall|a: int, b: int|
            0 <= a < first_by_name(g).len() && 0 <= b < first_by_name(g).len() && a != b
                ==> first_by_name(g)[a].name != first_by_name(g)[b].name,
        forall|a: int| 0 <= a < first_by_name(g).len() ==> g.contains(#[trigger] first_by_name(g)[a]),
        forall|i: int| 0 <= i < g.len() ==> #[trigger] has_name(first_by_name(g), g[i].name),
    decreases g.len(),
{
    if g.len() > 0 {
        let p = g.drop_last();
        lemma_first_by_name(p);
        let fp = first_by_name(p);
        let f = first_by_name(g);
        assert forall|a: int| 0 <= a < fp.len() implies g.contains(#[trigger] fp[a]) by {
            let j = choose|j: int| 0 <= j < p.len() && p[j] == fp[a];
            assert(g[j] == fp[a]);
        }
        if exists|j: int| 0 <= j < g.len() - 1 && g[j].name == g.last().name {
            assert(f == fp);
            assert forall|i: int| 0 <= i < g.len() implies #[trigger] has_name(f, g[i].name) by {
                if i < g.len() - 1 {
                    assert(p[i] == g[i]);
                    assert(has_name(fp, p[i].name));
                } else {
                    let j = choose|j: int| 0 <= j < g.len() - 1 && g[j].name == g.last().name;
                    assert(p[j] == g[j]);
                    assert(has_name(fp, p[j].name));
                }
            }
        } else {
            assert(f == fp.push(g.last()));
            assert forall|a: int| 0 <= a < fp.len() implies fp[a].name != g.last().name by {
                let j = choose|j: int| 0 <= j < p.len() && p[j] == fp[a];
                assert(g[j] == p[j]);
            }
            assert forall|a: int| 0 <= a < f.len() implies g.contains(#[trigger] f[a]) by {
                if a < fp.len() {
                    assert(f[a] == fp[a]);
                } else {
                    assert(g[g.len() - 1] == f[a]);
                }
            }
            assert forall|i: int| 0 <= i < g.len() implies #[trigger] has_name(f, g[i].name) by {
                if i < g.len() - 1 {
                    assert(p[i] == g[i]);
                    assert(has_name(fp, p[i].name));
                    let a = choose|a: int| 0 <= a < fp.len() && (#[trigger] fp[a]).name == p[i].name;
                    assert(f[a] == fp[a]);
                } else {
                    assert(f[fp.len() as int] == g[i]);
                }
            }
        }
    }
}

} // verus!
