//! Apple Silicon GPUs, from `system_profiler` and the `hw.memsize` sysctl.
use vstd::prelude::*;
use crate::text::{
    chars_of, contains_str, field_after, has_sub, lines, opt_chars, second_field, split_lines,
    string_of, trim, trimmed, trimmed_u64, u64_value, views,
};
use super::types::{GpuInfo, GpuView, GpuVendor, make_gpu};

verus! {

/// Bandwidth of Apple unified memory from its size in MB, in tenths of a GB/s.
pub open spec fn apple_bandwidth(vram_mb: u64) -> u64 {
    if vram_mb >= 65536 {
        4000
    } else if vram_mb >= 36864 {
        3000
    } else if vram_mb >= 18432 {
        2000
    } else {
        1000
    }
}

/// Estimated bandwidth of Apple Silicon memory, in tenths of a GB/s: 400 GB/s
/// from 64 GB of memory on, 300 from 36 GB, 200 from 18 GB, else 100.
pub fn estimate_apple_bandwidth(vram_mb: u64) -> (b: u64)
    ensures
        b == apple_bandwidth(vram_mb),
{
    if vram_mb >= 131072 {
        4000
    } else if vram_mb >= 65536 {
        4000
    } else if vram_mb >= 36864 {
        3000
    } else if vram_mb >= 18432 {
        2000
    } else {
        1000
    }
}

/// More unified memory never means less bandwidth, which runs from 100 to
/// 400 GB/s.
pub proof fn lemma_apple_bandwidth_monotone(v1: u64, v2: u64)
    requires
        v1 <= v2,
    ensures
        apple_bandwidth(v1) <= apple_bandwidth(v2),
        1000 <= apple_bandwidth(v1) <= 4000,
{
}

/// `i` is the first line holding `pat`.
pub open spec fn first_line_with(ls: Seq<Seq<char>>, pat: Seq<char>, i: int) -> bool {
    &&& 0 <= i < ls.len()
    &&& has_sub(ls[i], pat)
    &&& forall|j: int| 0 <= j < i ==> !has_sub(ls[j], pat)
}

/// The chipset name: the text after the colon of the first line that holds
/// `Chipset Model`, trimmed; `Apple Silicon` when there is none.
pub open spec fn apple_chipset(out: Seq<char>) -> Seq<char> {
    let ls = lines(out);
    if exists|i: int| first_line_with(ls, "Chipset Model"@, i) {
        match field_after(ls[choose|i: int| first_line_with(ls, "Chipset Model"@, i)], ':') {
            Some(n) => trim(n),
            None => "Apple Silicon"@,
        }
    } else {
        "Apple Silicon"@
    }
}

/// The GPU of an Apple Silicon machine: its unified memory (`hw.memsize` in
/// bytes, divided by 2^20) counts as VRAM; no GPU when that is zero or unreadable.
pub open spec fn apple_gpu_spec(profiler: Seq<char>, memsize: Option<Seq<char>>) -> Option<
    GpuView,
> {
    let vram = match trimmed_u64(memsize) {
        Some(b) => b / 1_048_576,
        None => 0,
    };
    if vram > 0 {
        Some(
            GpuView {
                name: apple_chipset(profiler),
                vram_mb: vram,
                bandwidth_tenths: apple_bandwidth(vram),
                vendor: GpuVendor::Apple,
            },
        )
    } else {
        None
    }
}

/// The GPU described by `system_profiler SPDisplaysDataType` output and the
/// output of `sysctl -n hw.memsize` (`None` when that was not UTF-8 text).
pub fn apple_gpu(profiler: &str, memsize: Option<&str>) -> (r: Option<GpuInfo>)
    ensures
        match r {
            Some(g) => apple_gpu_spec(profiler@, opt_chars(memsize)) == Some(g@),
            None => apple_gpu_spec(profiler@, opt_chars(memsize)) is None,
        },
{
    let vram: u64 = match u64_value(memsize) {
        Some(b) => b / 1_048_576,
        None => 0,
    };
    if vram == 0 {
        return None;
    }
    let chars = chars_of(profiler);
    let ls = split_lines(&chars);
    let ghost lv = views(ls@);
    let mut i: usize = 0;
    let mut name: Vec<char> = chars_of("Apple Silicon");
    let mut done = false;
    while i < ls.len() && !done
        invariant
            i <= ls.len(),
            lv == views(ls@),
            lv == lines(profiler@),
            !done ==> forall|j: int| 0 <= j < i ==> !has_sub(lv[j], "Chipset Model"@),
            !done ==> name@ == "Apple Silicon"@,
            done ==> name@ == apple_chipset(profiler@),
        decreases ls.len() - i,
    {
        assert(lv[i as int] == ls@[i as int]@);
        if contains_str(&ls[i], "Chipset Model") {
            assert(first_line_with(lv, "Chipset Model"@, i as int));
            let ghost k = choose|k: int| first_line_with(lv, "Chipset Model"@, k);
            assert(k == i) by {
                if k < i {
                    assert(!has_sub(lv[k], "Chipset Model"@));
                } else if k > i {
                    assert(!has_sub(lv[i as int], "Chipset Model"@));
                }
            }
            match second_field(&ls[i], ':') {
                Some(n) => {
                    name = trimmed(&n);
                },
                None => {},
            }
            done = true;
        }
        i = i + 1;
    }
    if !done {
        assert(!exists|k: int| first_line_with(lv, "Chipset Model"@, k));
    }
    let bw = estimate_apple_bandwidth(vram);
    Some(make_gpu(string_of(name.as_slice()), vram, bw, GpuVendor::Apple))
}

} // verus!
