//! NVIDIA GPUs, as `nvidia-smi` lists them.
use vstd::prelude::*;
use crate::text::{chars_of, contains_str, has_sub, lines, lowercase, parse_u64, parse_u64_chars, pieces, split_char, split_lines, string_of, to_lowercase, trim, trimmed, views};
use super::types::{GpuInfo, GpuView, GpuVendor, gpu_views, make_gpu};

verus! {

/// Bandwidth of an NVIDIA GPU from its lower-cased name, in tenths of a GB/s.
pub open spec fn nvidia_bandwidth(l: Seq<char>) -> u64 {
    if has_sub(l, "5090"@) {
        17920
    } else if has_sub(l, "4090"@) {
        10080
    } else if has_sub(l, "3090"@) {
        9360
    } else if has_sub(l, "4080"@) {
        7168
    } else if has_sub(l, "3080"@) {
        7600
    } else if has_sub(l, "5080"@) {
        9600
    } else if has_sub(l, "4070"@) {
        5040
    } else if has_sub(l, "4060"@) {
        2720
    } else if has_sub(l, "3060"@) {
        3600
    } else if has_sub(l, "a100"@) {
        20390
    } else if has_sub(l, "h100"@) {
        33520
    } else {
        5000
    }
}

/// Estimated memory bandwidth of an NVIDIA GPU, in tenths of a GB/s, from the
/// model number in its name (case is ignored); 500 GB/s when none is known.
pub fn estimate_bandwidth(name: &str) -> (b: u64)
    ensures
        b == nvidia_bandwidth(lowercase(name@)),
{
    let lower = to_lowercase(name);
    let l = chars_of(lower.as_str());
    if contains_str(&l, "5090") {
        17920
    } else if contains_str(&l, "4090") {
        10080
    } else if contains_str(&l, "3090") {
        9360
    } else if contains_str(&l, "4080") {
        7168
    } else if contains_str(&l, "3080") {
        7600
    } else if contains_str(&l, "5080") {
        9600
    } else if contains_str(&l, "4070") {
        5040
    } else if contains_str(&l, "4060") {
        2720
    } else if contains_str(&l, "3060") {
        3600
    } else if contains_str(&l, "a100") {
        20390
    } else if contains_str(&l, "h100") {
        33520
    } else {
        5000
    }
}

/// The GPU described by one line of `name, memory.total` CSV: the first field
/// trimmed is the name, the second trimmed must be the VRAM in MB.
pub open spec fn nvidia_line(l: Seq<char>) -> Option<GpuView> {
    let p = pieces(l, ',');
    if p.len() >= 2 {
        let name = trim(p[0]);
        match parse_u64(trim(p[1])) {
            Some(v) => Some(
                GpuView {
                    name,
                    vram_mb: v,
                    bandwidth_tenths: nvidia_bandwidth(lowercase(name)),
                    vendor: GpuVendor::Nvidia,
                },
            ),
            None => None,
        }
    } else {
        None
    }
}

/// The GPUs listed in `nvidia-smi --query-gpu=name,memory.total
/// --format=csv,noheader,nounits` output: one per line that parses.
pub open spec fn nvidia_gpus(out: Seq<char>) -> Seq<GpuView> {
    lines(out).filter_map(|l: Seq<char>| nvidia_line(l))
}

/// Reads one CSV line of the GPU query.
pub fn parse_nvidia_line(l: &Vec<char>) -> (r: Option<GpuInfo>)
    ensures
        match r {
            Some(g) => nvidia_line(l@) == Some(g@),
            None => nvidia_line(l@) is None,
        },
{
    let p = split_char(l, ',');
    if p.len() < 2 {
        return None;
    }
    assert(views(p@)[0] == p@[0]@);
    assert(views(p@)[1] == p@[1]@);
    let name_chars = trimmed(&p[0]);
    let vram_chars = trimmed(&p[1]);
    match parse_u64_chars(&vram_chars) {
        Some(v) => {
            let name = string_of(name_chars.as_slice());
            let bw = estimate_bandwidth(name.as_str());
            Some(make_gpu(name, v, bw, GpuVendor::Nvidia))
        },
        None => None,
    }
}

/// The GPUs in the output of the `nvidia-smi` GPU query, in the order listed.
pub fn parse_nvidia_smi(out: &str) -> (r: Vec<GpuInfo>)
    ensures
        gpu_views(r@) == nvidia_gpus(out@),
{
    let chars = chars_of(out);
    let ls = split_lines(&chars);
    let ghost lv = views(ls@);
    let mut gpus: Vec<GpuInfo> = Vec::new();
    let mut i: usize = 0;
    assert(lv.take(0) =~= Seq::<Seq<char>>::empty());
    assert(gpu_views(gpus@) =~= Seq::<GpuView>::empty());
    while i < ls.len()
        invariant
            i <= ls.len(),
            lv == views(ls@),
            lv == lines(out@),
            gpu_views(gpus@) == lv.take(i as int).filter_map(|l: Seq<char>| nvidia_line(l)),
        decreases ls.len() - i,
    {
        proof {
            lv.lemma_filter_map_take_succ(|l: Seq<char>| nvidia_line(l), i as int);
        }
        assert(lv[i as int] == ls@[i as int]@);
        let ghost before = gpu_views(gpus@);
        match parse_nvidia_line(&ls[i]) {
            Some(g) => {
                let ghost gv = g@;
                gpus.push(g);
                assert(gpu_views(gpus@) =~= before + seq![gv]);
            },
            None => {},
        }
        i = i + 1;
    }
    assert(lv.take(ls.len() as int) == lv);
    gpus
}

/// A lower-cased name that names one known NVIDIA model gets that model's bandwidth:
/// for each model, a name holding its model name and no other listed model
/// name (other than those inside its own) gets the listed bandwidth; a name
/// holding none of them gets the default. (`estimate_bandwidth` reads `nvidia_bandwidth` of the lower-cased name.)
pub proof fn lemma_nvidia_models(l: Seq<char>)
    ensures
        (has_sub(l, "5090"@) && !has_sub(l, "4090"@) && !has_sub(l, "3090"@) && !has_sub(l, "4080"@) && !has_sub(l, "3080"@) && !has_sub(l, "5080"@) && !has_sub(l, "4070"@) && !has_sub(l, "4060"@) && !has_sub(l, "3060"@) && !has_sub(l, "a100"@) && !has_sub(l, "h100"@)) ==> nvidia_bandwidth(l) == 17920,
        (has_sub(l, "4090"@) && !has_sub(l, "5090"@) && !has_sub(l, "3090"@) && !has_sub(l, "4080"@) && !has_sub(l, "3080"@) && !has_sub(l, "5080"@) && !has_sub(l, "4070"@) && !has_sub(l, "4060"@) && !has_sub(l, "3060"@) && !has_sub(l, "a100"@) && !has_sub(l, "h100"@)) ==> nvidia_bandwidth(l) == 10080,
        (has_sub(l, "3090"@) && !has_sub(l, "5090"@) && !has_sub(l, "4090"@) && !has_sub(l, "4080"@) && !has_sub(l, "3080"@) && !has_sub(l, "5080"@) && !has_sub(l, "4070"@) && !has_sub(l, "4060"@) && !has_sub(l, "3060"@) && !has_sub(l, "a100"@) && !has_sub(l, "h100"@)) ==> nvidia_bandwidth(l) == 9360,
        (has_sub(l, "4080"@) && !has_sub(l, "5090"@) && !has_sub(l, "4090"@) && !has_sub(l, "3090"@) && !has_sub(l, "3080"@) && !has_sub(l, "5080"@) && !has_sub(l, "4070"@) && !has_sub(l, "4060"@) && !has_sub(l, "3060"@) && !has_sub(l, "a100"@) && !has_sub(l, "h100"@)) ==> nvidia_bandwidth(l) == 7168,
        (has_sub(l, "3080"@) && !has_sub(l, "5090"@) && !has_sub(l, "4090"@) && !has_sub(l, "3090"@) && !has_sub(l, "4080"@) && !has_sub(l, "5080"@) && !has_sub(l, "4070"@) && !has_sub(l, "4060"@) && !has_sub(l, "3060"@) && !has_sub(l, "a100"@) && !has_sub(l, "h100"@)) ==> nvidia_bandwidth(l) == 7600,
        (has_sub(l, "5080"@) && !has_sub(l, "5090"@) && !has_sub(l, "4090"@) && !has_sub(l, "3090"@) && !has_sub(l, "4080"@) && !has_sub(l, "3080"@) && !has_sub(l, "4070"@) && !has_sub(l, "4060"@) && !has_sub(l, "3060"@) && !has_sub(l, "a100"@) && !has_sub(l, "h100"@)) ==> nvidia_bandwidth(l) == 9600,
        (has_sub(l, "4070"@) && !has_sub(l, "5090"@) && !has_sub(l, "4090"@) && !has_sub(l, "3090"@) && !has_sub(l, "4080"@) && !has_sub(l, "3080"@) && !has_sub(l, "5080"@) && !has_sub(l, "4060"@) && !has_sub(l, "3060"@) && !has_sub(l, "a100"@) && !has_sub(l, "h100"@)) ==> nvidia_bandwidth(l) == 5040,
        (has_sub(l, "4060"@) && !has_sub(l, "5090"@) && !has_sub(l, "4090"@) && !has_sub(l, "3090"@) && !has_sub(l, "4080"@) && !has_sub(l, "3080"@) && !has_sub(l, "5080"@) && !has_sub(l, "4070"@) && !has_sub(l, "3060"@) && !has_sub(l, "a100"@) && !has_sub(l, "h100"@)) ==> nvidia_bandwidth(l) == 2720,
        (has_sub(l, "3060"@) && !has_sub(l, "5090"@) && !has_sub(l, "4090"@) && !has_sub(l, "3090"@) && !has_sub(l, "4080"@) && !has_sub(l, "3080"@) && !has_sub(l, "5080"@) && !has_sub(l, "4070"@) && !has_sub(l, "4060"@) && !has_sub(l, "a100"@) && !has_sub(l, "h100"@)) ==> nvidia_bandwidth(l) == 3600,
        (has_sub(l, "a100"@) && !has_sub(l, "5090"@) && !has_sub(l, "4090"@) && !has_sub(l, "3090"@) && !has_sub(l, "4080"@) && !has_sub(l, "3080"@) && !has_sub(l, "5080"@) && !has_sub(l, "4070"@) && !has_sub(l, "4060"@) && !has_sub(l, "3060"@) && !has_sub(l, "h100"@)) ==> nvidia_bandwidth(l) == 20390,
        (has_sub(l, "h100"@) && !has_sub(l, "5090"@) && !has_sub(l, "4090"@) && !has_sub(l, "3090"@) && !has_sub(l, "4080"@) && !has_sub(l, "3080"@) && !has_sub(l, "5080"@) && !has_sub(l, "4070"@) && !has_sub(l, "4060"@) && !has_sub(l, "3060"@) && !has_sub(l, "a100"@)) ==> nvidia_bandwidth(l) == 33520,
        (!has_sub(l, "5090"@) && !has_sub(l, "4090"@) && !has_sub(l, "3090"@) && !has_sub(l, "4080"@) && !has_sub(l, "3080"@) && !has_sub(l, "5080"@) && !has_sub(l, "4070"@) && !has_sub(l, "4060"@) && !has_sub(l, "3060"@) && !has_sub(l, "a100"@) && !has_sub(l, "h100"@)) ==> nvidia_bandwidth(l) == 5000,
{
}

} // verus!
