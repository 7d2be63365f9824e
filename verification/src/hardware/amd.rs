//! AMD GPUs, from sysfs, `rocm-smi` or the Windows adapter list.
use vstd::prelude::*;
use crate::text::{
    after_last, after_last_char, chars_of, concat_chars, contains_str, field_after, has_sub,
    lines, lower_chars, lowercase, nonempty_trimmed, opt_chars, parse_u64, parse_u64_chars,
    second_field, split_lines, split_words, strip_trailing, strip_trailing_char, string_of,
    text_value, to_lowercase, trim, trimmed, trimmed_u64, u64_value, views, words,
};
use super::types::{AdapterRow, GpuInfo, GpuView, GpuVendor, gpu_views, make_gpu};

verus! {

/// Bandwidth of an AMD GPU from its lower-cased name, in tenths of a GB/s.
pub open spec fn amd_bandwidth(l: Seq<char>) -> u64 {
    if has_sub(l, "rx 7900 xtx"@) {
        9600
    } else if has_sub(l, "rx 7900 xt"@) {
        8000
    } else if has_sub(l, "rx 7900 gre"@) {
        5760
    } else if has_sub(l, "rx 7800 xt"@) {
        5760
    } else if has_sub(l, "rx 7700 xt"@) {
        4320
    } else if has_sub(l, "rx 7600 xt"@) || has_sub(l, "rx 7600"@) {
        2880
    } else if has_sub(l, "rx 6950 xt"@) {
        5760
    } else if has_sub(l, "rx 6900 xt"@) {
        5120
    } else if has_sub(l, "rx 6800 xt"@) || has_sub(l, "rx 6800"@) {
        5120
    } else if has_sub(l, "rx 6700 xt"@) {
        3840
    } else if has_sub(l, "rx 6600 xt"@) {
        2880
    } else if has_sub(l, "rx 6600"@) {
        2240
    } else if has_sub(l, "mi300x"@) || has_sub(l, "mi300a"@) {
        53000
    } else if has_sub(l, "mi250x"@) || has_sub(l, "mi250"@) {
        32770
    } else if has_sub(l, "mi210"@) {
        16380
    } else if has_sub(l, "mi100"@) {
        10240
    } else {
        4000
    }
}

/// Estimated memory bandwidth of an AMD GPU, in tenths of a GB/s, from its
/// name (case is ignored); 400 GB/s when the model is not known.
pub fn estimate_amd_bandwidth(name: &str) -> (b: u64)
    ensures
        b == amd_bandwidth(lowercase(name@)),
{
    let lower = to_lowercase(name);
    let l = chars_of(lower.as_str());
    if contains_str(&l, "rx 7900 xtx") {
        9600
    } else if contains_str(&l, "rx 7900 xt") {
        8000
    } else if contains_str(&l, "rx 7900 gre") {
        5760
    } else if contains_str(&l, "rx 7800 xt") {
        5760
    } else if contains_str(&l, "rx 7700 xt") {
        4320
    } else if contains_str(&l, "rx 7600 xt") || contains_str(&l, "rx 7600") {
        2880
    } else if contains_str(&l, "rx 6950 xt") {
        5760
    } else if contains_str(&l, "rx 6900 xt") {
        5120
    } else if contains_str(&l, "rx 6800 xt") || contains_str(&l, "rx 6800") {
        5120
    } else if contains_str(&l, "rx 6700 xt") {
        3840
    } else if contains_str(&l, "rx 6600 xt") {
        2880
    } else if contains_str(&l, "rx 6600") {
        2240
    } else if contains_str(&l, "mi300x") || contains_str(&l, "mi300a") {
        53000
    } else if contains_str(&l, "mi250x") || contains_str(&l, "mi250") {
        32770
    } else if contains_str(&l, "mi210") {
        16380
    } else if contains_str(&l, "mi100") {
        10240
    } else {
        4000
    }
}

/// Estimated bandwidth of an AMD GPU named by some chars.
fn amd_bandwidth_of(name: &Vec<char>) -> (b: u64)
    ensures
        b == amd_bandwidth(lowercase(name@)),
{
    let s = string_of(name.as_slice());
    estimate_amd_bandwidth(s.as_str())
}

/// The VRAM in MB of an AMD card: the first of the two sysfs byte counts that
/// holds a number, divided by 2^20; zero when neither does.
pub open spec fn amd_card_vram(total: Option<Seq<char>>, visible: Option<Seq<char>>) -> u64 {
    match trimmed_u64(total) {
        Some(b) => b / 1_048_576,
        None => match trimmed_u64(visible) {
            Some(b) => b / 1_048_576,
            None => 0,
        },
    }
}

/// The name of an AMD card: its market name, else its product name, else
/// `AMD GPU (<last component of the card path>)`.
pub open spec fn amd_card_name(
    card_path: Seq<char>,
    market: Option<Seq<char>>,
    product: Option<Seq<char>>,
) -> Seq<char> {
    match nonempty_trimmed(market) {
        Some(n) => n,
        None => match nonempty_trimmed(product) {
            Some(n) => n,
            None => "AMD GPU ("@ + after_last_char(card_path, '/') + ")"@,
        },
    }
}

/// The GPU of one DRM card: present when the vendor file holds AMD's PCI
/// vendor id `0x1002`.
pub open spec fn amd_card_gpu(
    card_path: Seq<char>,
    vendor: Option<Seq<char>>,
    total: Option<Seq<char>>,
    visible: Option<Seq<char>>,
    market: Option<Seq<char>>,
    product: Option<Seq<char>>,
) -> Option<GpuView> {
    match vendor {
        Some(v) => if trim(v) == "0x1002"@ {
            let name = amd_card_name(card_path, market, product);
            Some(
                GpuView {
                    name,
                    vram_mb: amd_card_vram(total, visible),
                    bandwidth_tenths: amd_bandwidth(lowercase(name)),
                    vendor: GpuVendor::Amd,
                },
            )
        } else {
            None
        },
        None => None,
    }
}

/// The GPU of one DRM card from the contents of its sysfs files (`None` for a
/// file that could not be read): `device/vendor`, `device/mem_info_vram_total`,
/// `device/mem_info_vis_vram_total`, `device/metrics/market_name` and
/// `device/product_name`.
pub fn amd_card(
    card_path: &str,
    vendor: Option<&str>,
    vram_total: Option<&str>,
    vis_vram_total: Option<&str>,
    market_name: Option<&str>,
    product_name: Option<&str>,
) -> (r: Option<GpuInfo>)
    ensures
        match r {
            Some(g) => amd_card_gpu(
                card_path@,
                opt_chars(vendor),
                opt_chars(vram_total),
                opt_chars(vis_vram_total),
                opt_chars(market_name),
                opt_chars(product_name),
            ) == Some(g@),
            None => amd_card_gpu(
                card_path@,
                opt_chars(vendor),
                opt_chars(vram_total),
                opt_chars(vis_vram_total),
                opt_chars(market_name),
                opt_chars(product_name),
            ) is None,
        },
{
    let v = match vendor {
        Some(t) => t,
        None => {
            return None;
        },
    };
    let vc = chars_of(v);
    let vt = trimmed(&vc);
    let id = chars_of("0x1002");
    if !crate::text::same_chars(&vt, &id) {
        return None;
    }
    let vram_mb: u64 = match u64_value(vram_total) {
        Some(b) => b / 1_048_576,
        None => match u64_value(vis_vram_total) {
            Some(b) => b / 1_048_576,
            None => 0,
        },
    };
    let name_chars: Vec<char> = match text_value(market_name) {
        Some(n) => n,
        None => match text_value(product_name) {
            Some(n) => n,
            None => {
                let path = chars_of(card_path);
                let seg = after_last(&path, '/');
                let head = chars_of("AMD GPU (");
                let tail = chars_of(")");
                let a = concat_chars(&head, &seg);
                concat_chars(&a, &tail)
            },
        },
    };
    let bw = amd_bandwidth_of(&name_chars);
    let name = string_of(name_chars.as_slice());
    Some(make_gpu(name, vram_mb, bw, GpuVendor::Amd))
}

/// The state while `rocm-smi` output is read: the GPUs finished so far, and
/// the name and VRAM of the one being read.
pub struct RocmState {
    pub gpus: Seq<GpuView>,
    pub name: Seq<char>,
    pub vram_mb: u64,
}

/// A VRAM figure of a `total` line, when it is one: a number from 100 to
/// 999999; from 500000 on it counts KiB, below that MB.
pub open spec fn rocm_vram_figure(word: Seq<char>) -> Option<u64> {
    match parse_u64(strip_trailing(word, ',')) {
        Some(v) => if 100 <= v < 1_000_000 {
            Some(
                if v >= 500_000 {
                    v / 1024
                } else {
                    v
                },
            )
        } else {
            None
        },
        None => None,
    }
}

/// The VRAM after the words of a `total` line: the last figure among them, or
/// `cur` when there is none.
pub open spec fn rocm_words_vram(ws: Seq<Seq<char>>, cur: u64) -> u64
    decreases ws.len(),
{
    if ws.len() == 0 {
        cur
    } else {
        match rocm_vram_figure(ws.last()) {
            Some(v) => v,
            None => rocm_words_vram(ws.drop_last(), cur),
        }
    }
}

/// The GPU being read, closed with the estimated bandwidth of its name.
pub open spec fn rocm_close(st: RocmState) -> Seq<GpuView> {
    if st.name.len() > 0 && st.vram_mb > 0 {
        st.gpus.push(
            GpuView {
                name: st.name,
                vram_mb: st.vram_mb,
                bandwidth_tenths: amd_bandwidth(lowercase(st.name)),
                vendor: GpuVendor::Amd,
            },
        )
    } else {
        st.gpus
    }
}

/// One line of `rocm-smi` output read into the state: a `product name` or
/// `gpu id` line closes the GPU being read; a `card` line with a colon names
/// it; a `total` line sets its VRAM (keywords compared in lower case).
pub open spec fn rocm_step(st: RocmState, line: Seq<char>) -> RocmState {
    let lower = lowercase(line);
    let st1 = if has_sub(lower, "product name"@) || has_sub(lower, "gpu id"@) {
        RocmState { gpus: rocm_close(st), name: Seq::empty(), vram_mb: 0 }
    } else {
        st
    };
    let st2 = if has_sub(lower, "card"@) && has_sub(line, ":"@) {
        match field_after(line, ':') {
            Some(n) => RocmState { name: trim(n), ..st1 },
            None => st1,
        }
    } else {
        st1
    };
    if has_sub(lower, "total"@) {
        RocmState { vram_mb: rocm_words_vram(words(line), st2.vram_mb), ..st2 }
    } else {
        st2
    }
}

/// The state after a sequence of lines.
pub open spec fn rocm_fold(ls: Seq<Seq<char>>) -> RocmState
    decreases ls.len(),
{
    if ls.len() == 0 {
        RocmState { gpus: Seq::empty(), name: Seq::empty(), vram_mb: 0 }
    } else {
        rocm_step(rocm_fold(ls.drop_last()), ls.last())
    }
}

/// The GPUs in `rocm-smi --showmeminfo vram --showproductname` output. The GPU
/// still being read at the end is kept with a bandwidth of zero.
pub open spec fn rocm_gpus(out: Seq<char>) -> Seq<GpuView> {
    let st = rocm_fold(lines(out));
    if st.name.len() > 0 && st.vram_mb > 0 {
        st.gpus.push(
            GpuView {
                name: st.name,
                vram_mb: st.vram_mb,
                bandwidth_tenths: 0,
                vendor: GpuVendor::Amd,
            },
        )
    } else {
        st.gpus
    }
}

/// The VRAM figure of one word of a `total` line.
fn vram_figure(word: &Vec<char>) -> (r: Option<u64>)
    ensures
        r == rocm_vram_figure(word@),
{
    let w = strip_trailing_char(word, ',');
    match parse_u64_chars(&w) {
        Some(v) => if 100 <= v && v < 1_000_000 {
            Some(
                if v >= 500_000 {
                    v / 1024
                } else {
                    v
                },
            )
        } else {
            None
        },
        None => None,
    }
}

/// The GPUs in the output of `rocm-smi --showmeminfo vram --showproductname`.
pub fn parse_rocm_smi(out: &str) -> (r: Vec<GpuInfo>)
    ensures
        gpu_views(r@) == rocm_gpus(out@),
{
    let chars = chars_of(out);
    let ls = split_lines(&chars);
    let ghost lv = views(ls@);
    let mut gpus: Vec<GpuInfo> = Vec::new();
    let mut name: Vec<char> = Vec::new();
    let mut vram: u64 = 0;
    let mut i: usize = 0;
    assert(lv.take(0) =~= Seq::<Seq<char>>::empty());
    assert(gpu_views(gpus@) =~= Seq::<GpuView>::empty());
    while i < ls.len()
        invariant
            i <= ls.len(),
            lv == views(ls@),
            lv == lines(out@),
            rocm_fold(lv.take(i as int)) == (RocmState {
                gpus: gpu_views(gpus@),
                name: name@,
                vram_mb: vram,
            }),
        decreases ls.len() - i,
    {
        let line = &ls[i];
        assert(lv[i as int] == line@);
        assert(lv.take(i + 1).drop_last() == lv.take(i as int));
        let lower = lower_chars(line);
        if contains_str(&lower, "product name") || contains_str(&lower, "gpu id") {
            if name.len() > 0 && vram > 0 {
                let ghost before = gpu_views(gpus@);
                let bw = amd_bandwidth_of(&name);
                let g = make_gpu(string_of(name.as_slice()), vram, bw, GpuVendor::Amd);
                let ghost gv = g@;
                gpus.push(g);
                assert(gpu_views(gpus@) =~= before.push(gv));
            }
            name = Vec::new();
            vram = 0;
        }
        if contains_str(&lower, "card") && contains_str(line, ":") {
            match second_field(line, ':') {
                Some(n) => {
                    name = trimmed(&n);
                },
                None => {},
            }
        }
        if contains_str(&lower, "total") {
            let ws = split_words(line);
            let ghost wv = views(ws@);
            let ghost start = vram;
            let mut k: usize = 0;
            assert(wv.take(0) =~= Seq::<Seq<char>>::empty());
            while k < ws.len()
                invariant
                    k <= ws.len(),
                    wv == views(ws@),
                    vram == rocm_words_vram(wv.take(k as int), start),
                decreases ws.len() - k,
            {
                assert(wv[k as int] == ws@[k as int]@);
                assert(wv.take(k + 1).drop_last() == wv.take(k as int));
                match vram_figure(&ws[k]) {
                    Some(v) => {
                        vram = v;
                    },
                    None => {},
                }
                k = k + 1;
            }
            assert(wv.take(ws.len() as int) == wv);
        }
        i = i + 1;
    }
    assert(lv.take(ls.len() as int) == lv);
    if name.len() > 0 && vram > 0 {
        let ghost before = gpu_views(gpus@);
        let g = make_gpu(string_of(name.as_slice()), vram, 0, GpuVendor::Amd);
        let ghost gv = g@;
        gpus.push(g);
        assert(gpu_views(gpus@) =~= before.push(gv));
    }
    gpus
}

/// The AMD GPUs of the Windows video-controller list: an absent name reads
/// `AMD GPU`, an absent adapter RAM zero; VRAM is the RAM divided by 2^20.
pub open spec fn amd_adapter(name: Option<Seq<char>>, ram: Option<u64>) -> GpuView {
    let n = match name {
        Some(t) => t,
        None => "AMD GPU"@,
    };
    GpuView {
        name: n,
        vram_mb: match ram {
            Some(b) => b / 1_048_576,
            None => 0,
        },
        bandwidth_tenths: amd_bandwidth(lowercase(n)),
        vendor: GpuVendor::Amd,
    }
}

/// The GPUs of the adapters the Windows video-controller query lists for AMD.
pub fn amd_gpus_from_adapters(rows: &Vec<AdapterRow>) -> (r: Vec<GpuInfo>)
    ensures
        r@.len() == rows@.len(),
        forall|i: int|
            0 <= i < rows@.len() ==> #[trigger] r@[i]@ == amd_adapter(
                rows@[i].name_view(),
                rows@[i].adapter_ram,
            ),
{
    let mut out: Vec<GpuInfo> = Vec::new();
    let mut i: usize = 0;
    while i < rows.len()
        invariant
            i <= rows.len(),
            out@.len() == i,
            forall|j: int|
                0 <= j < i ==> #[trigger] out@[j]@ == amd_adapter(
                    rows@[j].name_view(),
                    rows@[j].adapter_ram,
                ),
        decreases rows.len() - i,
    {
        let row = &rows[i];
        let name: Vec<char> = match &row.name {
            Some(n) => chars_of(n.as_str()),
            None => chars_of("AMD GPU"),
        };
        let vram = match row.adapter_ram {
            Some(b) => b / 1_048_576,
            None => 0,
        };
        let bw = amd_bandwidth_of(&name);
        out.push(make_gpu(string_of(name.as_slice()), vram, bw, GpuVendor::Amd));
        i = i + 1;
    }
    out
}

/// A lower-cased name that names one known AMD model gets that model's bandwidth:
/// for each model, a name holding its model name and no other listed model
/// name (other than those inside its own) gets the listed bandwidth; a name
/// holding none of them gets the default. (`estimate_amd_bandwidth` reads `amd_bandwidth` of the lower-cased name.)
pub proof fn lemma_amd_models(l: Seq<char>)
    ensures
        (has_sub(l, "rx 7900 xtx"@) && !has_sub(l, "rx 7900 gre"@) && !has_sub(l, "rx 7800 xt"@) && !has_sub(l, "rx 7700 xt"@) && !has_sub(l, "rx 7600 xt"@) && !has_sub(l, "rx 7600"@) && !has_sub(l, "rx 6950 xt"@) && !has_sub(l, "rx 6900 xt"@) && !has_sub(l, "rx 6800 xt"@) && !has_sub(l, "rx 6800"@) && !has_sub(l, "rx 6700 xt"@) && !has_sub(l, "rx 6600 xt"@) && !has_sub(l, "rx 6600"@) && !has_sub(l, "mi300x"@) && !has_sub(l, "mi300a"@) && !has_sub(l, "mi250x"@) && !has_sub(l, "mi250"@) && !has_sub(l, "mi210"@) && !has_sub(l, "mi100"@)) ==> amd_bandwidth(l) == 9600,
        (has_sub(l, "rx 7900 xt"@) && !has_sub(l, "rx 7900 xtx"@) && !has_sub(l, "rx 7900 gre"@) && !has_sub(l, "rx 7800 xt"@) && !has_sub(l, "rx 7700 xt"@) && !has_sub(l, "rx 7600 xt"@) && !has_sub(l, "rx 7600"@) && !has_sub(l, "rx 6950 xt"@) && !has_sub(l, "rx 6900 xt"@) && !has_sub(l, "rx 6800 xt"@) && !has_sub(l, "rx 6800"@) && !has_sub(l, "rx 6700 xt"@) && !has_sub(l, "rx 6600 xt"@) && !has_sub(l, "rx 6600"@) && !has_sub(l, "mi300x"@) && !has_sub(l, "mi300a"@) && !has_sub(l, "mi250x"@) && !has_sub(l, "mi250"@) && !has_sub(l, "mi210"@) && !has_sub(l, "mi100"@)) ==> amd_bandwidth(l) == 8000,
        (has_sub(l, "rx 7900 gre"@) && !has_sub(l, "rx 7900 xtx"@) && !has_sub(l, "rx 7900 xt"@) && !has_sub(l, "rx 7800 xt"@) && !has_sub(l, "rx 7700 xt"@) && !has_sub(l, "rx 7600 xt"@) && !has_sub(l, "rx 7600"@) && !has_sub(l, "rx 6950 xt"@) && !has_sub(l, "rx 6900 xt"@) && !has_sub(l, "rx 6800 xt"@) && !has_sub(l, "rx 6800"@) && !has_sub(l, "rx 6700 xt"@) && !has_sub(l, "rx 6600 xt"@) && !has_sub(l, "rx 6600"@) && !has_sub(l, "mi300x"@) && !has_sub(l, "mi300a"@) && !has_sub(l, "mi250x"@) && !has_sub(l, "mi250"@) && !has_sub(l, "mi210"@) && !has_sub(l, "mi100"@)) ==> amd_bandwidth(l) == 5760,
        (has_sub(l, "rx 7800 xt"@) && !has_sub(l, "rx 7900 xtx"@) && !has_sub(l, "rx 7900 xt"@) && !has_sub(l, "rx 7900 gre"@) && !has_sub(l, "rx 7700 xt"@) && !has_sub(l, "rx 7600 xt"@) && !has_sub(l, "rx 7600"@) && !has_sub(l, "rx 6950 xt"@) && !has_sub(l, "rx 6900 xt"@) && !has_sub(l, "rx 6800 xt"@) && !has_sub(l, "rx 6800"@) && !has_sub(l, "rx 6700 xt"@) && !has_sub(l, "rx 6600 xt"@) && !has_sub(l, "rx 6600"@) && !has_sub(l, "mi300x"@) && !has_sub(l, "mi300a"@) && !has_sub(l, "mi250x"@) && !has_sub(l, "mi250"@) && !has_sub(l, "mi210"@) && !has_sub(l, "mi100"@)) ==> amd_bandwidth(l) == 5760,
        (has_sub(l, "rx 7700 xt"@) && !has_sub(l, "rx 7900 xtx"@) && !has_sub(l, "rx 7900 xt"@) && !has_sub(l, "rx 7900 gre"@) && !has_sub(l, "rx 7800 xt"@) && !has_sub(l, "rx 7600 xt"@) && !has_sub(l, "rx 7600"@) && !has_sub(l, "rx 6950 xt"@) && !has_sub(l, "rx 6900 xt"@) && !has_sub(l, "rx 6800 xt"@) && !has_sub(l, "rx 6800"@) && !has_sub(l, "rx 6700 xt"@) && !has_sub(l, "rx 6600 xt"@) && !has_sub(l, "rx 6600"@) && !has_sub(l, "mi300x"@) && !has_sub(l, "mi300a"@) && !has_sub(l, "mi250x"@) && !has_sub(l, "mi250"@) && !has_sub(l, "mi210"@) && !has_sub(l, "mi100"@)) ==> amd_bandwidth(l) == 4320,
        (has_sub(l, "rx 7600 xt"@) && !has_sub(l, "rx 7900 xtx"@) && !has_sub(l, "rx 7900 xt"@) && !has_sub(l, "rx 7900 gre"@) && !has_sub(l, "rx 7800 xt"@) && !has_sub(l, "rx 7700 xt"@) && !has_sub(l, "rx 6950 xt"@) && !has_sub(l, "rx 6900 xt"@) && !has_sub(l, "rx 6800 xt"@) && !has_sub(l, "rx 6800"@) && !has_sub(l, "rx 6700 xt"@) && !has_sub(l, "rx 6600 xt"@) && !has_sub(l, "rx 6600"@) && !has_sub(l, "mi300x"@) && !has_sub(l, "mi300a"@) && !has_sub(l, "mi250x"@) && !has_sub(l, "mi250"@) && !has_sub(l, "mi210"@) && !has_sub(l, "mi100"@)) ==> amd_bandwidth(l) == 2880,
        (has_sub(l, "rx 7600"@) && !has_sub(l, "rx 7900 xtx"@) && !has_sub(l, "rx 7900 xt"@) && !has_sub(l, "rx 7900 gre"@) && !has_sub(l, "rx 7800 xt"@) && !has_sub(l, "rx 7700 xt"@) && !has_sub(l, "rx 7600 xt"@) && !has_sub(l, "rx 6950 xt"@) && !has_sub(l, "rx 6900 xt"@) && !has_sub(l, "rx 6800 xt"@) && !has_sub(l, "rx 6800"@) && !has_sub(l, "rx 6700 xt"@) && !has_sub(l, "rx 6600 xt"@) && !has_sub(l, "rx 6600"@) && !has_sub(l, "mi300x"@) && !has_sub(l, "mi300a"@) && !has_sub(l, "mi250x"@) && !has_sub(l, "mi250"@) && !has_sub(l, "mi210"@) && !has_sub(l, "mi100"@)) ==> amd_bandwidth(l) == 2880,
        (has_sub(l, "rx 6950 xt"@) && !has_sub(l, "rx 7900 xtx"@) && !has_sub(l, "rx 7900 xt"@) && !has_sub(l, "rx 7900 gre"@) && !has_sub(l, "rx 7800 xt"@) && !has_sub(l, "rx 7700 xt"@) && !has_sub(l, "rx 7600 xt"@) && !has_sub(l, "rx 7600"@) && !has_sub(l, "rx 6900 xt"@) && !has_sub(l, "rx 6800 xt"@) && !has_sub(l, "rx 6800"@) && !has_sub(l, "rx 6700 xt"@) && !has_sub(l, "rx 6600 xt"@) && !has_sub(l, "rx 6600"@) && !has_sub(l, "mi300x"@) && !has_sub(l, "mi300a"@) && !has_sub(l, "mi250x"@) && !has_sub(l, "mi250"@) && !has_sub(l, "mi210"@) && !has_sub(l, "mi100"@)) ==> amd_bandwidth(l) == 5760,
        (has_sub(l, "rx 6900 xt"@) && !has_sub(l, "rx 7900 xtx"@) && !has_sub(l, "rx 7900 xt"@) && !has_sub(l, "rx 7900 gre"@) && !has_sub(l, "rx 7800 xt"@) && !has_sub(l, "rx 7700 xt"@) && !has_sub(l, "rx 7600 xt"@) && !has_sub(l, "rx 7600"@) && !has_sub(l, "rx 6950 xt"@) && !has_sub(l, "rx 6800 xt"@) && !has_sub(l, "rx 6800"@) && !has_sub(l, "rx 6700 xt"@) && !has_sub(l, "rx 6600 xt"@) && !has_sub(l, "rx 6600"@) && !has_sub(l, "mi300x"@) && !has_sub(l, "mi300a"@) && !has_sub(l, "mi250x"@) && !has_sub(l, "mi250"@) && !has_sub(l, "mi210"@) && !has_sub(l, "mi100"@)) ==> amd_bandwidth(l) == 5120,
        (has_sub(l, "rx 6800 xt"@) && !has_sub(l, "rx 7900 xtx"@) && !has_sub(l, "rx 7900 xt"@) && !has_sub(l, "rx 7900 gre"@) && !has_sub(l, "rx 7800 xt"@) && !has_sub(l, "rx 7700 xt"@) && !has_sub(l, "rx 7600 xt"@) && !has_sub(l, "rx 7600"@) && !has_sub(l, "rx 6950 xt"@) && !has_sub(l, "rx 6900 xt"@) && !has_sub(l, "rx 6700 xt"@) && !has_sub(l, "rx 6600 xt"@) && !has_sub(l, "rx 6600"@) && !has_sub(l, "mi300x"@) && !has_sub(l, "mi300a"@) && !has_sub(l, "mi250x"@) && !has_sub(l, "mi250"@) && !has_sub(l, "mi210"@) && !has_sub(l, "mi100"@)) ==> amd_bandwidth(l) == 5120,
        (has_sub(l, "rx 6800"@) && !has_sub(l, "rx 7900 xtx"@) && !has_sub(l, "rx 7900 xt"@) && !has_sub(l, "rx 7900 gre"@) && !has_sub(l, "rx 7800 xt"@) && !has_sub(l, "rx 7700 xt"@) && !has_sub(l, "rx 7600 xt"@) && !has_sub(l, "rx 7600"@) && !has_sub(l, "rx 6950 xt"@) && !has_sub(l, "rx 6900 xt"@) && !has_sub(l, "rx 6800 xt"@) && !has_sub(l, "rx 6700 xt"@) && !has_sub(l, "rx 6600 xt"@) && !has_sub(l, "rx 6600"@) && !has_sub(l, "mi300x"@) && !has_sub(l, "mi300a"@) && !has_sub(l, "mi250x"@) && !has_sub(l, "mi250"@) && !has_sub(l, "mi210"@) && !has_sub(l, "mi100"@)) ==> amd_bandwidth(l) == 5120,
        (has_sub(l, "rx 6700 xt"@) && !has_sub(l, "rx 7900 xtx"@) && !has_sub(l, "rx 7900 xt"@) && !has_sub(l, "rx 7900 gre"@) && !has_sub(l, "rx 7800 xt"@) && !has_sub(l, "rx 7700 xt"@) && !has_sub(l, "rx 7600 xt"@) && !has_sub(l, "rx 7600"@) && !has_sub(l, "rx 6950 xt"@) && !has_sub(l, "rx 6900 xt"@) && !has_sub(l, "rx 6800 xt"@) && !has_sub(l, "rx 6800"@) && !has_sub(l, "rx 6600 xt"@) && !has_sub(l, "rx 6600"@) && !has_sub(l, "mi300x"@) && !has_sub(l, "mi300a"@) && !has_sub(l, "mi250x"@) && !has_sub(l, "mi250"@) && !has_sub(l, "mi210"@) && !has_sub(l, "mi100"@)) ==> amd_bandwidth(l) == 3840,
        (has_sub(l, "rx 6600 xt"@) && !has_sub(l, "rx 7900 xtx"@) && !has_sub(l, "rx 7900 xt"@) && !has_sub(l, "rx 7900 gre"@) && !has_sub(l, "rx 7800 xt"@) && !has_sub(l, "rx 7700 xt"@) && !has_sub(l, "rx 7600 xt"@) && !has_sub(l, "rx 7600"@) && !has_sub(l, "rx 6950 xt"@) && !has_sub(l, "rx 6900 xt"@) && !has_sub(l, "rx 6800 xt"@) && !has_sub(l, "rx 6800"@) && !has_sub(l, "rx 6700 xt"@) && !has_sub(l, "mi300x"@) && !has_sub(l, "mi300a"@) && !has_sub(l, "mi250x"@) && !has_sub(l, "mi250"@) && !has_sub(l, "mi210"@) && !has_sub(l, "mi100"@)) ==> amd_bandwidth(l) == 2880,
        (has_sub(l, "rx 6600"@) && !has_sub(l, "rx 7900 xtx"@) && !has_sub(l, "rx 7900 xt"@) && !has_sub(l, "rx 7900 gre"@) && !has_sub(l, "rx 7800 xt"@) && !has_sub(l, "rx 7700 xt"@) && !has_sub(l, "rx 7600 xt"@) && !has_sub(l, "rx 7600"@) && !has_sub(l, "rx 6950 xt"@) && !has_sub(l, "rx 6900 xt"@) && !has_sub(l, "rx 6800 xt"@) && !has_sub(l, "rx 6800"@) && !has_sub(l, "rx 6700 xt"@) && !has_sub(l, "rx 6600 xt"@) && !has_sub(l, "mi300x"@) && !has_sub(l, "mi300a"@) && !has_sub(l, "mi250x"@) && !has_sub(l, "mi250"@) && !has_sub(l, "mi210"@) && !has_sub(l, "mi100"@)) ==> amd_bandwidth(l) == 2240,
        (has_sub(l, "mi300x"@) && !has_sub(l, "rx 7900 xtx"@) && !has_sub(l, "rx 7900 xt"@) && !has_sub(l, "rx 7900 gre"@) && !has_sub(l, "rx 7800 xt"@) && !has_sub(l, "rx 7700 xt"@) && !has_sub(l, "rx 7600 xt"@) && !has_sub(l, "rx 7600"@) && !has_sub(l, "rx 6950 xt"@) && !has_sub(l, "rx 6900 xt"@) && !has_sub(l, "rx 6800 xt"@) && !has_sub(l, "rx 6800"@) && !has_sub(l, "rx 6700 xt"@) && !has_sub(l, "rx 6600 xt"@) && !has_sub(l, "rx 6600"@) && !has_sub(l, "mi300a"@) && !has_sub(l, "mi250x"@) && !has_sub(l, "mi250"@) && !has_sub(l, "mi210"@) && !has_sub(l, "mi100"@)) ==> amd_bandwidth(l) == 53000,
        (has_sub(l, "mi300a"@) && !has_sub(l, "rx 7900 xtx"@) && !has_sub(l, "rx 7900 xt"@) && !has_sub(l, "rx 7900 gre"@) && !has_sub(l, "rx 7800 xt"@) && !has_sub(l, "rx 7700 xt"@) && !has_sub(l, "rx 7600 xt"@) && !has_sub(l, "rx 7600"@) && !has_sub(l, "rx 6950 xt"@) && !has_sub(l, "rx 6900 xt"@) && !has_sub(l, "rx 6800 xt"@) && !has_sub(l, "rx 6800"@) && !has_sub(l, "rx 6700 xt"@) && !has_sub(l, "rx 6600 xt"@) && !has_sub(l, "rx 6600"@) && !has_sub(l, "mi300x"@) && !has_sub(l, "mi250x"@) && !has_sub(l, "mi250"@) && !has_sub(l, "mi210"@) && !has_sub(l, "mi100"@)) ==> amd_bandwidth(l) == 53000,
        (has_sub(l, "mi250x"@) && !has_sub(l, "rx 7900 xtx"@) && !has_sub(l, "rx 7900 xt"@) && !has_sub(l, "rx 7900 gre"@) && !has_sub(l, "rx 7800 xt"@) && !has_sub(l, "rx 7700 xt"@) && !has_sub(l, "rx 7600 xt"@) && !has_sub(l, "rx 7600"@) && !has_sub(l, "rx 6950 xt"@) && !has_sub(l, "rx 6900 xt"@) && !has_sub(l, "rx 6800 xt"@) && !has_sub(l, "rx 6800"@) && !has_sub(l, "rx 6700 xt"@) && !has_sub(l, "rx 6600 xt"@) && !has_sub(l, "rx 6600"@) && !has_sub(l, "mi300x"@) && !has_sub(l, "mi300a"@) && !has_sub(l, "mi210"@) && !has_sub(l, "mi100"@)) ==> amd_bandwidth(l) == 32770,
        (has_sub(l, "mi250"@) && !has_sub(l, "rx 7900 xtx"@) && !has_sub(l, "rx 7900 xt"@) && !has_sub(l, "rx 7900 gre"@) && !has_sub(l, "rx 7800 xt"@) && !has_sub(l, "rx 7700 xt"@) && !has_sub(l, "rx 7600 xt"@) && !has_sub(l, "rx 7600"@) && !has_sub(l, "rx 6950 xt"@) && !has_sub(l, "rx 6900 xt"@) && !has_sub(l, "rx 6800 xt"@) && !has_sub(l, "rx 6800"@) && !has_sub(l, "rx 6700 xt"@) && !has_sub(l, "rx 6600 xt"@) && !has_sub(l, "rx 6600"@) && !has_sub(l, "mi300x"@) && !has_sub(l, "mi300a"@) && !has_sub(l, "mi250x"@) && !has_sub(l, "mi210"@) && !has_sub(l, "mi100"@)) ==> amd_bandwidth(l) == 32770,
        (has_sub(l, "mi210"@) && !has_sub(l, "rx 7900 xtx"@) && !has_sub(l, "rx 7900 xt"@) && !has_sub(l, "rx 7900 gre"@) && !has_sub(l, "rx 7800 xt"@) && !has_sub(l, "rx 7700 xt"@) && !has_sub(l, "rx 7600 xt"@) && !has_sub(l, "rx 7600"@) && !has_sub(l, "rx 6950 xt"@) && !has_sub(l, "rx 6900 xt"@) && !has_sub(l, "rx 6800 xt"@) && !has_sub(l, "rx 6800"@) && !has_sub(l, "rx 6700 xt"@) && !has_sub(l, "rx 6600 xt"@) && !has_sub(l, "rx 6600"@) && !has_sub(l, "mi300x"@) && !has_sub(l, "mi300a"@) && !has_sub(l, "mi250x"@) && !has_sub(l, "mi250"@) && !has_sub(l, "mi100"@)) ==> amd_bandwidth(l) == 16380,
        (has_sub(l, "mi100"@) && !has_sub(l, "rx 7900 xtx"@) && !has_sub(l, "rx 7900 xt"@) && !has_sub(l, "rx 7900 gre"@) && !has_sub(l, "rx 7800 xt"@) && !has_sub(l, "rx 7700 xt"@) && !has_sub(l, "rx 7600 xt"@) && !has_sub(l, "rx 7600"@) && !has_sub(l, "rx 6950 xt"@) && !has_sub(l, "rx 6900 xt"@) && !has_sub(l, "rx 6800 xt"@) && !has_sub(l, "rx 6800"@) && !has_sub(l, "rx 6700 xt"@) && !has_sub(l, "rx 6600 xt"@) && !has_sub(l, "rx 6600"@) && !has_sub(l, "mi300x"@) && !has_sub(l, "mi300a"@) && !has_sub(l, "mi250x"@) && !has_sub(l, "mi250"@) && !has_sub(l, "mi210"@)) ==> amd_bandwidth(l) == 10240,
        (!has_sub(l, "rx 7900 xtx"@) && !has_sub(l, "rx 7900 xt"@) && !has_sub(l, "rx 7900 gre"@) && !has_sub(l, "rx 7800 xt"@) && !has_sub(l, "rx 7700 xt"@) && !has_sub(l, "rx 7600 xt"@) && !has_sub(l, "rx 7600"@) && !has_sub(l, "rx 6950 xt"@) && !has_sub(l, "rx 6900 xt"@) && !has_sub(l, "rx 6800 xt"@) && !has_sub(l, "rx 6800"@) && !has_sub(l, "rx 6700 xt"@) && !has_sub(l, "rx 6600 xt"@) && !has_sub(l, "rx 6600"@) && !has_sub(l, "mi300x"@) && !has_sub(l, "mi300a"@) && !has_sub(l, "mi250x"@) && !has_sub(l, "mi250"@) && !has_sub(l, "mi210"@) && !has_sub(l, "mi100"@)) ==> amd_bandwidth(l) == 4000,
{
}

} // verus!
