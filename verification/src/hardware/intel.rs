//! Intel GPUs, from sysfs, `xe-smi`, the Windows adapter list or `system_profiler`.
use vstd::prelude::*;
use crate::text::{
    begins_with, chars_of, concat_chars, contains_str, field_after, has_sub, lines, lower_chars,
    lowercase, nonempty_trimmed, opt_chars, parse_u64, parse_u64_chars, same_chars, same_str,
    second_field, split_lines, split_words, starts_with_str, strip_trailing, strip_trailing_char,
    string_of, text_value, to_lowercase, trim, trimmed, trimmed_u64, u64_value, views, words,
};
use super::types::{AdapterRow, GpuInfo, GpuView, GpuVendor, gpu_views, make_gpu};

verus! {

/// The name of an Intel GPU with a known PCI device id.
pub open spec fn known_intel_device(d: Seq<char>) -> Option<Seq<char>> {
    if d == "0x5690"@ || d == "0x5691"@ || d == "0x5692"@ {
        Some("Intel Arc A770"@)
    } else if d == "0x56A0"@ || d == "0x56A1"@ {
        Some("Intel Arc A750"@)
    } else if d == "0x56B0"@ || d == "0x56B1"@ {
        Some("Intel Arc A580"@)
    } else if d == "0x56C0"@ || d == "0x56C1"@ {
        Some("Intel Arc A380"@)
    } else if d == "0xE202"@ || d == "0xE20B"@ {
        Some("Intel Arc B580"@)
    } else if d == "0xE20C"@ || d == "0xE20D"@ {
        Some("Intel Arc B570"@)
    } else if d == "0x7D55"@ || d == "0x7DD5"@ {
        Some("Intel Meteor Lake iGPU"@)
    } else if d == "0xA780"@ || d == "0xA788"@ || d == "0x4680"@ || d == "0x4690"@ {
        Some("Intel UHD Graphics 770"@)
    } else if d == "0xA720"@ || d == "0xA721"@ || d == "0x46A0"@ || d == "0x46A2"@ {
        Some("Intel UHD Graphics 730"@)
    } else if d == "0x9A49"@ || d == "0x9A59"@ || d == "0x9A60"@ || d == "0x9A68"@ || d
        == "0x9A70"@ || d == "0x9A78"@ || d == "0x9A40"@ || d == "0x9A48"@ || d == "0x9C49"@
        || d == "0x9C59"@ || d == "0x9C60"@ || d == "0x9C68"@ {
        Some("Intel Iris Xe"@)
    } else {
        None
    }
}

/// The name of an Intel GPU from its PCI device id: the known name, else
/// `Intel GPU (<id>)`.
pub open spec fn intel_device_name(d: Seq<char>) -> Seq<char> {
    match known_intel_device(d) {
        Some(n) => n,
        None => "Intel GPU ("@ + d + ")"@,
    }
}

fn one_of(d: &str, a: &str, b: &str) -> (r: bool)
    ensures
        r == (d@ == a@ || d@ == b@),
{
    same_str(d, a) || same_str(d, b)
}

fn known_device(dev_id: &str) -> (r: Option<&'static str>)
    ensures
        match r {
            Some(n) => known_intel_device(dev_id@) == Some(n@),
            None => known_intel_device(dev_id@) is None,
        },
{
    if one_of(dev_id, "0x5690", "0x5691") || same_str(dev_id, "0x5692") {
        Some("Intel Arc A770")
    } else if one_of(dev_id, "0x56A0", "0x56A1") {
        Some("Intel Arc A750")
    } else if one_of(dev_id, "0x56B0", "0x56B1") {
        Some("Intel Arc A580")
    } else if one_of(dev_id, "0x56C0", "0x56C1") {
        Some("Intel Arc A380")
    } else if one_of(dev_id, "0xE202", "0xE20B") {
        Some("Intel Arc B580")
    } else if one_of(dev_id, "0xE20C", "0xE20D") {
        Some("Intel Arc B570")
    } else if one_of(dev_id, "0x7D55", "0x7DD5") {
        Some("Intel Meteor Lake iGPU")
    } else if one_of(dev_id, "0xA780", "0xA788") || one_of(dev_id, "0x4680", "0x4690") {
        Some("Intel UHD Graphics 770")
    } else if one_of(dev_id, "0xA720", "0xA721") || one_of(dev_id, "0x46A0", "0x46A2") {
        Some("Intel UHD Graphics 730")
    } else if one_of(dev_id, "0x9A49", "0x9A59") || one_of(dev_id, "0x9A60", "0x9A68")
        || one_of(dev_id, "0x9A70", "0x9A78") || one_of(dev_id, "0x9A40", "0x9A48") || one_of(
        dev_id,
        "0x9C49",
        "0x9C59",
    ) || one_of(dev_id, "0x9C60", "0x9C68") {
        Some("Intel Iris Xe")
    } else {
        None
    }
}

/// The name of an Intel GPU from its PCI device id (ids compared exactly).
pub fn intel_name_from_device_id(dev_id: &str) -> (name: String)
    ensures
        name@ == intel_device_name(dev_id@),
{
    match known_device(dev_id) {
        Some(known) => {
            let c = chars_of(known);
            string_of(c.as_slice())
        },
        None => {
            let head = chars_of("Intel GPU (");
            let id = chars_of(dev_id);
            let tail = chars_of(")");
            let a = concat_chars(&head, &id);
            let all = concat_chars(&a, &tail);
            string_of(all.as_slice())
        },
    }
}

/// VRAM assumed for an Intel GPU from its lower-cased name, in MB.
pub open spec fn intel_vram_guess(l: Seq<char>) -> u64 {
    if has_sub(l, "arc a770"@) || has_sub(l, "arc a750"@) || has_sub(l, "arc a580"@) {
        8192
    } else if has_sub(l, "arc a380"@) {
        6144
    } else if has_sub(l, "arc b580"@) {
        12288
    } else if has_sub(l, "arc b570"@) {
        10240
    } else {
        512
    }
}

/// VRAM assumed for an Intel GPU, in MB, from its name (case ignored): the
/// Arc cards' memory sizes, 512 MB of shared memory for anything else.
pub fn estimate_intel_vram(name: &str) -> (v: u64)
    ensures
        v == intel_vram_guess(lowercase(name@)),
        v >= 512,
{
    let lower = to_lowercase(name);
    let l = chars_of(lower.as_str());
    if contains_str(&l, "arc a770") {
        8192
    } else if contains_str(&l, "arc a750") {
        8192
    } else if contains_str(&l, "arc a580") {
        8192
    } else if contains_str(&l, "arc a380") {
        6144
    } else if contains_str(&l, "arc b580") {
        12288
    } else if contains_str(&l, "arc b570") {
        10240
    } else {
        512
    }
}

/// Bandwidth of an Intel GPU from its lower-cased name, in tenths of a GB/s.
pub open spec fn intel_bandwidth(l: Seq<char>) -> u64 {
    if has_sub(l, "arc a770"@) || has_sub(l, "arc a750"@) || has_sub(l, "arc a580"@) {
        5120
    } else if has_sub(l, "arc a380"@) {
        2880
    } else if has_sub(l, "arc b580"@) {
        2720
    } else if has_sub(l, "arc b570"@) {
        2400
    } else if has_sub(l, "iris xe"@) {
        680
    } else {
        500
    }
}

/// Estimated memory bandwidth of an Intel GPU, in tenths of a GB/s, from its
/// name (case ignored); integrated GPUs get 68 GB/s (Iris Xe) or 50 GB/s.
pub fn estimate_intel_bandwidth(name: &str) -> (b: u64)
    ensures
        b == intel_bandwidth(lowercase(name@)),
{
    let lower = to_lowercase(name);
    let l = chars_of(lower.as_str());
    if contains_str(&l, "arc a770") {
        5120
    } else if contains_str(&l, "arc a750") {
        5120
    } else if contains_str(&l, "arc a580") {
        5120
    } else if contains_str(&l, "arc a380") {
        2880
    } else if contains_str(&l, "arc b580") {
        2720
    } else if contains_str(&l, "arc b570") {
        2400
    } else if contains_str(&l, "iris xe") {
        680
    } else if contains_str(&l, "uhd") {
        500
    } else {
        500
    }
}

fn intel_bandwidth_of(name: &Vec<char>) -> (b: u64)
    ensures
        b == intel_bandwidth(lowercase(name@)),
{
    let s = string_of(name.as_slice());
    estimate_intel_bandwidth(s.as_str())
}

/// The VRAM of an Intel card from its `mem_info_vram_total` byte count: the
/// count divided by 2^20 when it is a positive number, else zero.
pub open spec fn intel_card_vram(total: Option<Seq<char>>) -> u64 {
    match trimmed_u64(total) {
        Some(b) => if b > 0 {
            b / 1_048_576
        } else {
            0
        },
        None => 0,
    }
}

/// The VRAM in MB of an Intel card, from the contents of its
/// `device/mem_info_vram_total` file.
pub fn read_intel_vram_mb(vram_total: Option<&str>) -> (v: u64)
    ensures
        v == intel_card_vram(opt_chars(vram_total)),
{
    match u64_value(vram_total) {
        Some(b) => if b > 0 {
            b / 1_048_576
        } else {
            0
        },
        None => 0,
    }
}

/// The name of an Intel card: its product name, else the name of its device
/// id, else `Intel GPU`.
pub open spec fn intel_card_name(product: Option<Seq<char>>, device: Option<Seq<char>>) -> Seq<
    char,
> {
    match nonempty_trimmed(product) {
        Some(n) => n,
        None => match device {
            Some(d) => intel_device_name(trim(d)),
            None => "Intel GPU"@,
        },
    }
}

/// The name of an Intel card, from the contents of its `device/product_name`
/// and `device/device` files.
pub fn read_intel_name(product_name: Option<&str>, device_id: Option<&str>) -> (name: String)
    ensures
        name@ == intel_card_name(opt_chars(product_name), opt_chars(device_id)),
{
    match text_value(product_name) {
        Some(n) => string_of(n.as_slice()),
        None => match device_id {
            Some(d) => {
                let c = chars_of(d);
                let t = trimmed(&c);
                let ts = string_of(t.as_slice());
                intel_name_from_device_id(ts.as_str())
            },
            None => {
                let c = chars_of("Intel GPU");
                string_of(c.as_slice())
            },
        },
    }
}

/// The GPU of one DRM card: present when the vendor file holds Intel's PCI
/// vendor id `0x8086`.
pub open spec fn intel_card_gpu(
    vendor: Option<Seq<char>>,
    total: Option<Seq<char>>,
    product: Option<Seq<char>>,
    device: Option<Seq<char>>,
) -> Option<GpuView> {
    match vendor {
        Some(v) => if trim(v) == "0x8086"@ {
            let name = intel_card_name(product, device);
            Some(
                GpuView {
                    name,
                    vram_mb: intel_card_vram(total),
                    bandwidth_tenths: intel_bandwidth(lowercase(name)),
                    vendor: GpuVendor::Intel,
                },
            )
        } else {
            None
        },
        None => None,
    }
}

/// The GPU of one DRM card from the contents of its sysfs files (`None` for a
/// file that could not be read): `device/vendor`, `device/mem_info_vram_total`,
/// `device/product_name` and `device/device`.
pub fn intel_card(
    vendor: Option<&str>,
    vram_total: Option<&str>,
    product_name: Option<&str>,
    device_id: Option<&str>,
) -> (r: Option<GpuInfo>)
    ensures
        match r {
            Some(g) => intel_card_gpu(
                opt_chars(vendor),
                opt_chars(vram_total),
                opt_chars(product_name),
                opt_chars(device_id),
            ) == Some(g@),
            None => intel_card_gpu(
                opt_chars(vendor),
                opt_chars(vram_total),
                opt_chars(product_name),
                opt_chars(device_id),
            ) is None,
        },
{
    let v = match vendor {
        Some(t) => t,
        None => {
            return None;
        },
    };
    let vc = chars_of(v);
    let vt = trimmed(&vc);
    let id = chars_of("0x8086");
    if !same_chars(&vt, &id) {
        return None;
    }
    let vram = read_intel_vram_mb(vram_total);
    let name = read_intel_name(product_name, device_id);
    let bw = estimate_intel_bandwidth(name.as_str());
    Some(make_gpu(name, vram, bw, GpuVendor::Intel))
}

/// A VRAM figure among the words of an `xe-smi` memory line: a number from 101
/// to 999999.
pub open spec fn xe_vram_figure(word: Seq<char>) -> Option<u64> {
    match parse_u64(strip_trailing(word, ',')) {
        Some(v) => if 100 < v < 1_000_000 {
            Some(v)
        } else {
            None
        },
        None => None,
    }
}

/// The VRAM after the words of a memory line: the last figure, or `cur`.
pub open spec fn xe_words_vram(ws: Seq<Seq<char>>, cur: u64) -> u64
    decreases ws.len(),
{
    if ws.len() == 0 {
        cur
    } else {
        match xe_vram_figure(ws.last()) {
            Some(v) => v,
            None => xe_words_vram(ws.drop_last(), cur),
        }
    }
}

/// One `xe-smi` line read into the GPUs found so far: a `gpu name` or
/// `device name` line starts a GPU unless its name is empty or contains `n/a`;
/// a `vram` or `memory` line sets the VRAM of the last GPU.
pub open spec fn xe_step(gpus: Seq<GpuView>, line: Seq<char>) -> Seq<GpuView> {
    let lower = lowercase(line);
    let g1 = if has_sub(lower, "gpu name"@) || has_sub(lower, "device name"@) {
        match field_after(line, ':') {
            Some(n) => {
                let t = trim(n);
                if t.len() > 0 && !has_sub(lowercase(t), "n/a"@) {
                    gpus.push(
                        GpuView {
                            name: t,
                            vram_mb: 0,
                            bandwidth_tenths: intel_bandwidth(lowercase(t)),
                            vendor: GpuVendor::Intel,
                        },
                    )
                } else {
                    gpus
                }
            },
            None => gpus,
        }
    } else {
        gpus
    };
    if (has_sub(lower, "vram"@) || has_sub(lower, "memory"@)) && g1.len() > 0 {
        let last = g1.last();
        g1.update(
            g1.len() - 1,
            GpuView { vram_mb: xe_words_vram(words(line), last.vram_mb), ..last },
        )
    } else {
        g1
    }
}

/// The GPUs after a sequence of `xe-smi` lines.
pub open spec fn xe_fold(ls: Seq<Seq<char>>) -> Seq<GpuView>
    decreases ls.len(),
{
    if ls.len() == 0 {
        Seq::empty()
    } else {
        xe_step(xe_fold(ls.drop_last()), ls.last())
    }
}

fn xe_figure(word: &Vec<char>) -> (r: Option<u64>)
    ensures
        r == xe_vram_figure(word@),
{
    let w = strip_trailing_char(word, ',');
    match parse_u64_chars(&w) {
        Some(v) => if 100 < v && v < 1_000_000 {
            Some(v)
        } else {
            None
        },
        None => None,
    }
}

/// The GPUs in the output of `xe-smi -d 1`.
pub fn parse_xe_smi(out: &str) -> (r: Vec<GpuInfo>)
    ensures
        gpu_views(r@) == xe_fold(lines(out@)),
{
    let chars = chars_of(out);
    let ls = split_lines(&chars);
    let ghost lv = views(ls@);
    let mut gpus: Vec<GpuInfo> = Vec::new();
    let mut i: usize = 0;
    assert(lv.take(0) =~= Seq::<Seq<char>>::empty());
    assert(gpu_views(gpus@) =~= Seq::<GpuView>::empty());
    while i < ls.len()
        invariant
            i <= ls.len(),
            lv == views(ls@),
            lv == lines(out@),
            xe_fold(lv.take(i as int)) == gpu_views(gpus@),
        decreases ls.len() - i,
    {
        let line = &ls[i];
        assert(lv[i as int] == line@);
        assert(lv.take(i + 1).drop_last() == lv.take(i as int));
        let lower = lower_chars(line);
        if contains_str(&lower, "gpu name") || contains_str(&lower, "device name") {
            match second_field(line, ':') {
                Some(n) => {
                    let t = trimmed(&n);
                    let tl = lower_chars(&t);
                    if t.len() > 0 && !contains_str(&tl, "n/a") {
                        let ghost before = gpu_views(gpus@);
                        let bw = intel_bandwidth_of(&t);
                        let g = make_gpu(string_of(t.as_slice()), 0, bw, GpuVendor::Intel);
                        let ghost gv = g@;
                        gpus.push(g);
                        assert(gpu_views(gpus@) =~= before.push(gv));
                    }
                },
                None => {},
            }
        }
        if (contains_str(&lower, "vram") || contains_str(&lower, "memory")) && gpus.len() > 0 {
            let ghost before = gpu_views(gpus@);
            let mut last = gpus.pop().unwrap();
            assert(before == gpu_views(gpus@).push(last@));
            let ws = split_words(line);
            let ghost wv = views(ws@);
            let ghost start = last.vram_mb;
            let ghost orig = last@;
            let mut k: usize = 0;
            assert(wv.take(0) =~= Seq::<Seq<char>>::empty());
            while k < ws.len()
                invariant
                    k <= ws.len(),
                    wv == views(ws@),
                    last.vram_mb == xe_words_vram(wv.take(k as int), start),
                    last@ == (GpuView { vram_mb: last.vram_mb, ..orig }),
                decreases ws.len() - k,
            {
                assert(wv[k as int] == ws@[k as int]@);
                assert(wv.take(k + 1).drop_last() == wv.take(k as int));
                match xe_figure(&ws[k]) {
                    Some(v) => {
                        last.vram_mb = v;
                    },
                    None => {},
                }
                k = k + 1;
            }
            assert(wv.take(ws.len() as int) == wv);
            let ghost lv2 = last@;
            assert(lv2 == (GpuView {
                vram_mb: xe_words_vram(words(line@), before.last().vram_mb),
                ..before.last()
            }));
            gpus.push(last);
            assert(gpu_views(gpus@) =~= before.update(before.len() - 1, lv2));
        }
        i = i + 1;
    }
    assert(lv.take(ls.len() as int) == lv);
    gpus
}


/// The name of an adapter row, `Intel GPU` when it has none.
pub open spec fn intel_adapter_name(name: Option<Seq<char>>) -> Seq<char> {
    match name {
        Some(t) => t,
        None => "Intel GPU"@,
    }
}

/// The Intel GPUs kept from the adapter rows so far, before their bandwidth is
/// estimated: a row is kept when its name names an Arc or Battlemage card or
/// it reports memory; a kept row without memory gets the VRAM assumed for the
/// name of the previously kept GPU (none: the empty name).
pub open spec fn intel_adapters_fold(rows: Seq<AdapterRow>) -> Seq<GpuView>
    decreases rows.len(),
{
    if rows.len() == 0 {
        Seq::empty()
    } else {
        let prev = intel_adapters_fold(rows.drop_last());
        let row = rows.last();
        let name = intel_adapter_name(row.name_view());
        let vram = match row.adapter_ram {
            Some(b) => b / 1_048_576,
            None => 0,
        };
        let discrete = has_sub(lowercase(name), "arc"@) || has_sub(lowercase(name), "battlemage"@);
        if discrete || vram > 0 {
            let prev_name = if prev.len() > 0 {
                prev.last().name
            } else {
                ""@
            };
            prev.push(
                GpuView {
                    name,
                    vram_mb: if vram == 0 {
                        intel_vram_guess(lowercase(prev_name))
                    } else {
                        vram
                    },
                    bandwidth_tenths: 0,
                    vendor: GpuVendor::Intel,
                },
            )
        } else {
            prev
        }
    }
}

/// A kept adapter GPU with its bandwidth estimated from its name, and the
/// VRAM assumed for that name when it still has none.
pub open spec fn intel_adapter_final(g: GpuView) -> GpuView {
    GpuView {
        vram_mb: if g.vram_mb == 0 {
            intel_vram_guess(lowercase(g.name))
        } else {
            g.vram_mb
        },
        bandwidth_tenths: intel_bandwidth(lowercase(g.name)),
        ..g
    }
}

/// The Intel GPUs of the Windows video-controller list.
pub fn intel_gpus_from_adapters(rows: &Vec<AdapterRow>) -> (r: Vec<GpuInfo>)
    ensures
        gpu_views(r@) == intel_adapters_fold(rows@).map_values(|g: GpuView| intel_adapter_final(g)),
{
    let mut kept: Vec<GpuInfo> = Vec::new();
    let mut i: usize = 0;
    assert(rows@.take(0) =~= Seq::<AdapterRow>::empty());
    assert(gpu_views(kept@) =~= Seq::<GpuView>::empty());
    while i < rows.len()
        invariant
            i <= rows.len(),
            gpu_views(kept@) == intel_adapters_fold(rows@.take(i as int)),
        decreases rows.len() - i,
    {
        assert(rows@.take(i + 1).drop_last() == rows@.take(i as int));
        let row = &rows[i];
        let name: String = match &row.name {
            Some(n) => {
                let c = chars_of(n.as_str());
                string_of(c.as_slice())
            },
            None => {
                let c = chars_of("Intel GPU");
                string_of(c.as_slice())
            },
        };
        let vram: u64 = match row.adapter_ram {
            Some(b) => b / 1_048_576,
            None => 0,
        };
        let lower = to_lowercase(name.as_str());
        let lc = chars_of(lower.as_str());
        let discrete = contains_str(&lc, "arc") || contains_str(&lc, "battlemage");
        if discrete || vram > 0 {
            let ghost before = gpu_views(kept@);
            let v = if vram == 0 {
                if kept.len() > 0 {
                    assert(before.last() == kept@[kept@.len() - 1]@);
                    estimate_intel_vram(kept[kept.len() - 1].name.as_str())
                } else {
                    estimate_intel_vram("")
                }
            } else {
                vram
            };
            let g = make_gpu(name, v, 0, GpuVendor::Intel);
            let ghost gv = g@;
            kept.push(g);
            assert(gpu_views(kept@) =~= before.push(gv));
        }
        i = i + 1;
    }
    assert(rows@.take(rows.len() as int) == rows@);
    let ghost pre = gpu_views(kept@);
    let mut out: Vec<GpuInfo> = Vec::new();
    let mut k: usize = 0;
    while k < kept.len()
        invariant
            k <= kept.len(),
            pre == gpu_views(kept@),
            gpu_views(out@) == pre.take(k as int).map_values(|g: GpuView| intel_adapter_final(g)),
        decreases kept.len() - k,
    {
        let g = &kept[k];
        assert(pre[k as int] == g@);
        let bw = estimate_intel_bandwidth(g.name.as_str());
        let v = if g.vram_mb == 0 {
            estimate_intel_vram(g.name.as_str())
        } else {
            g.vram_mb
        };
        let ghost before = gpu_views(out@);
        let c = chars_of(g.name.as_str());
        let n = make_gpu(string_of(c.as_slice()), v, bw, g.vendor);
        let ghost nv = n@;
        out.push(n);
        assert(gpu_views(out@) =~= before.push(nv));
        assert(pre.take(k + 1) =~= pre.take(k as int).push(pre[k as int]));
        assert(pre.take(k + 1).map_values(|g: GpuView| intel_adapter_final(g)) =~= pre.take(
            k as int,
        ).map_values(|g: GpuView| intel_adapter_final(g)).push(intel_adapter_final(pre[k as int])));
        k = k + 1;
    }
    assert(pre.take(kept.len() as int) == pre);
    out
}

/// The MB of a `system_profiler` VRAM value such as `1536 MB` or `8 GB`: the
/// first word is the number, a second word starting with `g` (any case) makes it
/// GB; fewer than two words give nothing. Unbounded, so an overflow shows.
pub open spec fn macos_vram(s: Seq<char>) -> Option<int> {
    let ws = words(s);
    if ws.len() >= 2 {
        match parse_u64(ws[0]) {
            Some(n) => if begins_with(lowercase(ws[1]), "g"@) {
                Some(n * 1024)
            } else {
                Some(n as int)
            },
            None => None,
        }
    } else {
        None
    }
}

/// The VRAM figure of `s`, if any, fits in `u64` MB.
pub open spec fn macos_vram_fits(s: Seq<char>) -> bool {
    match macos_vram(s) {
        Some(v) => v <= u64::MAX,
        None => true,
    }
}

/// Reads a `system_profiler` VRAM value into MB.
pub fn parse_macos_vram(s: &str) -> (r: Option<u64>)
    requires
        macos_vram_fits(s@),
    ensures
        match r {
            Some(v) => macos_vram(s@) == Some(v as int),
            None => macos_vram(s@) is None,
        },
{
    let c = chars_of(s);
    let ws = split_words(&c);
    assert(views(ws@) == words(s@));
    if ws.len() < 2 {
        return None;
    }
    assert(views(ws@)[0] == ws@[0]@);
    assert(views(ws@)[1] == ws@[1]@);
    let num = match parse_u64_chars(&ws[0]) {
        Some(n) => n,
        None => {
            return None;
        },
    };
    let unit = lower_chars(&ws[1]);
    if starts_with_str(&unit, "g") {
        Some(num * 1024)
    } else {
        Some(num)
    }
}

/// Whether the VRAM figure of a `system_profiler` value, if any, fits in `u64` MB.
pub fn macos_vram_in_range(s: &str) -> (r: bool)
    ensures
        r == macos_vram_fits(s@),
{
    let c = chars_of(s);
    let ws = split_words(&c);
    assert(views(ws@) == words(s@));
    if ws.len() < 2 {
        return true;
    }
    assert(views(ws@)[0] == ws@[0]@);
    assert(views(ws@)[1] == ws@[1]@);
    let num = match parse_u64_chars(&ws[0]) {
        Some(n) => n,
        None => {
            return true;
        },
    };
    let unit = lower_chars(&ws[1]);
    if starts_with_str(&unit, "g") {
        num <= u64::MAX / 1024
    } else {
        true
    }
}

/// Whether every VRAM value in `system_profiler` output fits in `u64` MB (the
/// condition `parse_intel_macos` asks for).
pub fn mac_vram_lines_in_range(out: &str) -> (r: bool)
    ensures
        r == mac_vram_lines_fit(out@),
{
    let chars = chars_of(out);
    let ls = split_lines(&chars);
    let ghost lv = views(ls@);
    let mut i: usize = 0;
    while i < ls.len()
        invariant
            i <= ls.len(),
            lv == views(ls@),
            lv == lines(out@),
            forall|j: int|
                0 <= j < i && has_sub(#[trigger] lv[j], "VRAM"@) ==> match field_after(lv[j], ':') {
                    Some(v) => macos_vram_fits(trim(v)),
                    None => true,
                },
        decreases ls.len() - i,
    {
        let line = &ls[i];
        assert(lv[i as int] == line@);
        if contains_str(line, "VRAM") {
            match second_field(line, ':') {
                Some(v) => {
                    let t = trimmed(&v);
                    let ts = string_of(t.as_slice());
                    if !macos_vram_in_range(ts.as_str()) {
                        assert(has_sub(lines(out@)[i as int], "VRAM"@));
                        return false;
                    }
                },
                None => {},
            }
        }
        i = i + 1;
    }
    true
}

/// The state while `system_profiler SPDisplaysDataType` output is searched for
/// an Intel GPU.
pub struct MacIntelState {
    pub found: bool,
    pub name: Seq<char>,
    pub vram_mb: u64,
}

/// One profiler line read into the state.
pub open spec fn mac_intel_step(st: MacIntelState, line: Seq<char>) -> MacIntelState {
    let lower = lowercase(line);
    let found0 = st.found || (has_sub(lower, "intel"@) && (has_sub(lower, "vendor"@) || has_sub(
        lower,
        "chipset"@,
    ) || has_sub(lower, "iriris"@) || has_sub(lower, "uhd"@) || has_sub(lower, "hd graphics"@)));
    let st1 = MacIntelState { found: found0, ..st };
    let st2 = if has_sub(line, "Chipset Model"@) {
        match field_after(line, ':') {
            Some(n) => if has_sub(lowercase(trim(n)), "intel"@) {
                MacIntelState { found: true, name: trim(n), ..st1 }
            } else {
                st1
            },
            None => st1,
        }
    } else {
        st1
    };
    if has_sub(line, "VRAM"@) {
        match field_after(line, ':') {
            Some(v) => match macos_vram(trim(v)) {
                Some(mb) => MacIntelState { vram_mb: mb as u64, ..st2 },
                None => st2,
            },
            None => st2,
        }
    } else {
        st2
    }
}

/// The state after a sequence of profiler lines.
pub open spec fn mac_intel_fold(ls: Seq<Seq<char>>) -> MacIntelState
    decreases ls.len(),
{
    if ls.len() == 0 {
        MacIntelState { found: false, name: Seq::empty(), vram_mb: 0 }
    } else {
        mac_intel_step(mac_intel_fold(ls.drop_last()), ls.last())
    }
}

/// Every VRAM value in the profiler output fits in `u64` MB.
pub open spec fn mac_vram_lines_fit(out: Seq<char>) -> bool {
    forall|i: int|
        0 <= i < lines(out).len() && has_sub(#[trigger] lines(out)[i], "VRAM"@) ==> match field_after(
            lines(out)[i],
            ':',
        ) {
            Some(v) => macos_vram_fits(trim(v)),
            None => true,
        }
}

/// The Intel GPU the profiler output shows, if any.
pub open spec fn mac_intel_gpu(out: Seq<char>) -> Option<GpuView> {
    let st = mac_intel_fold(lines(out));
    if st.found {
        Some(
            GpuView {
                name: if st.name.len() == 0 {
                    "Intel iGPU"@
                } else {
                    st.name
                },
                vram_mb: st.vram_mb,
                bandwidth_tenths: intel_bandwidth(lowercase(st.name)),
                vendor: GpuVendor::Intel,
            },
        )
    } else {
        None
    }
}

/// The Intel GPU in the output of `system_profiler SPDisplaysDataType`.
pub fn parse_intel_macos(out: &str) -> (r: Option<GpuInfo>)
    requires
        mac_vram_lines_fit(out@),
    ensures
        match r {
            Some(g) => mac_intel_gpu(out@) == Some(g@),
            None => mac_intel_gpu(out@) is None,
        },
{
    let chars = chars_of(out);
    let ls = split_lines(&chars);
    let ghost lv = views(ls@);
    let mut found = false;
    let mut name: Vec<char> = Vec::new();
    let mut vram: u64 = 0;
    let mut i: usize = 0;
    assert(lv.take(0) =~= Seq::<Seq<char>>::empty());
    while i < ls.len()
        invariant
            i <= ls.len(),
            lv == views(ls@),
            lv == lines(out@),
            mac_vram_lines_fit(out@),
            mac_intel_fold(lv.take(i as int)) == (MacIntelState {
                found,
                name: name@,
                vram_mb: vram,
            }),
        decreases ls.len() - i,
    {
        let line = &ls[i];
        assert(lv[i as int] == line@);
        assert(lv.take(i + 1).drop_last() == lv.take(i as int));
        let lower = lower_chars(line);
        if contains_str(&lower, "intel") && (contains_str(&lower, "vendor") || contains_str(
            &lower,
            "chipset",
        ) || contains_str(&lower, "iriris") || contains_str(&lower, "uhd") || contains_str(
            &lower,
            "hd graphics",
        )) {
            found = true;
        }
        if contains_str(line, "Chipset Model") {
            match second_field(line, ':') {
                Some(n) => {
                    let t = trimmed(&n);
                    let tl = lower_chars(&t);
                    if contains_str(&tl, "intel") {
                        found = true;
                        name = t;
                    }
                },
                None => {},
            }
        }
        if contains_str(line, "VRAM") {
            match second_field(line, ':') {
                Some(v) => {
                    let t = trimmed(&v);
                    let ts = string_of(t.as_slice());
                    assert(has_sub(lv[i as int], "VRAM"@));
                    match parse_macos_vram(ts.as_str()) {
                        Some(mb) => {
                            vram = mb;
                        },
                        None => {},
                    }
                },
                None => {},
            }
        }
        i = i + 1;
    }
    assert(lv.take(ls.len() as int) == lv);
    if found {
        let bw = intel_bandwidth_of(&name);
        let shown: Vec<char> = if name.len() == 0 {
            chars_of("Intel iGPU")
        } else {
            name
        };
        Some(make_gpu(string_of(shown.as_slice()), vram, bw, GpuVendor::Intel))
    } else {
        None
    }
}

/// A lower-cased name that names one known Intel model gets that model's bandwidth:
/// for each model, a name holding its model name and no other listed model
/// name (other than those inside its own) gets the listed bandwidth; a name
/// holding none of them gets the default. (`estimate_intel_bandwidth` reads `intel_bandwidth` of the lower-cased name.)
pub proof fn lemma_intel_bandwidth_models(l: Seq<char>)
    ensures
        (has_sub(l, "arc a770"@) && !has_sub(l, "arc a750"@) && !has_sub(l, "arc a580"@) && !has_sub(l, "arc a380"@) && !has_sub(l, "arc b580"@) && !has_sub(l, "arc b570"@) && !has_sub(l, "iris xe"@)) ==> intel_bandwidth(l) == 5120,
        (has_sub(l, "arc a750"@) && !has_sub(l, "arc a770"@) && !has_sub(l, "arc a580"@) && !has_sub(l, "arc a380"@) && !has_sub(l, "arc b580"@) && !has_sub(l, "arc b570"@) && !has_sub(l, "iris xe"@)) ==> intel_bandwidth(l) == 5120,
        (has_sub(l, "arc a580"@) && !has_sub(l, "arc a770"@) && !has_sub(l, "arc a750"@) && !has_sub(l, "arc a380"@) && !has_sub(l, "arc b580"@) && !has_sub(l, "arc b570"@) && !has_sub(l, "iris xe"@)) ==> intel_bandwidth(l) == 5120,
        (has_sub(l, "arc a380"@) && !has_sub(l, "arc a770"@) && !has_sub(l, "arc a750"@) && !has_sub(l, "arc a580"@) && !has_sub(l, "arc b580"@) && !has_sub(l, "arc b570"@) && !has_sub(l, "iris xe"@)) ==> intel_bandwidth(l) == 2880,
        (has_sub(l, "arc b580"@) && !has_sub(l, "arc a770"@) && !has_sub(l, "arc a750"@) && !has_sub(l, "arc a580"@) && !has_sub(l, "arc a380"@) && !has_sub(l, "arc b570"@) && !has_sub(l, "iris xe"@)) ==> intel_bandwidth(l) == 2720,
        (has_sub(l, "arc b570"@) && !has_sub(l, "arc a770"@) && !has_sub(l, "arc a750"@) && !has_sub(l, "arc a580"@) && !has_sub(l, "arc a380"@) && !has_sub(l, "arc b580"@) && !has_sub(l, "iris xe"@)) ==> intel_bandwidth(l) == 2400,
        (has_sub(l, "iris xe"@) && !has_sub(l, "arc a770"@) && !has_sub(l, "arc a750"@) && !has_sub(l, "arc a580"@) && !has_sub(l, "arc a380"@) && !has_sub(l, "arc b580"@) && !has_sub(l, "arc b570"@)) ==> intel_bandwidth(l) == 680,
        (!has_sub(l, "arc a770"@) && !has_sub(l, "arc a750"@) && !has_sub(l, "arc a580"@) && !has_sub(l, "arc a380"@) && !has_sub(l, "arc b580"@) && !has_sub(l, "arc b570"@) && !has_sub(l, "iris xe"@)) ==> intel_bandwidth(l) == 500,
{
}

/// A lower-cased name that names one known Intel model gets that model's VRAM:
/// for each model, a name holding its model name and no other listed model
/// name (other than those inside its own) gets the listed VRAM; a name
/// holding none of them gets the default. (`estimate_intel_vram` reads `intel_vram_guess` of the lower-cased name.)
pub proof fn lemma_intel_vram_models(l: Seq<char>)
    ensures
        (has_sub(l, "arc a770"@) && !has_sub(l, "arc a750"@) && !has_sub(l, "arc a580"@) && !has_sub(l, "arc a380"@) && !has_sub(l, "arc b580"@) && !has_sub(l, "arc b570"@)) ==> intel_vram_guess(l) == 8192,
        (has_sub(l, "arc a750"@) && !has_sub(l, "arc a770"@) && !has_sub(l, "arc a580"@) && !has_sub(l, "arc a380"@) && !has_sub(l, "arc b580"@) && !has_sub(l, "arc b570"@)) ==> intel_vram_guess(l) == 8192,
        (has_sub(l, "arc a580"@) && !has_sub(l, "arc a770"@) && !has_sub(l, "arc a750"@) && !has_sub(l, "arc a380"@) && !has_sub(l, "arc b580"@) && !has_sub(l, "arc b570"@)) ==> intel_vram_guess(l) == 8192,
        (has_sub(l, "arc a380"@) && !has_sub(l, "arc a770"@) && !has_sub(l, "arc a750"@) && !has_sub(l, "arc a580"@) && !has_sub(l, "arc b580"@) && !has_sub(l, "arc b570"@)) ==> intel_vram_guess(l) == 6144,
        (has_sub(l, "arc b580"@) && !has_sub(l, "arc a770"@) && !has_sub(l, "arc a750"@) && !has_sub(l, "arc a580"@) && !has_sub(l, "arc a380"@) && !has_sub(l, "arc b570"@)) ==> intel_vram_guess(l) == 12288,
        (has_sub(l, "arc b570"@) && !has_sub(l, "arc a770"@) && !has_sub(l, "arc a750"@) && !has_sub(l, "arc a580"@) && !has_sub(l, "arc a380"@) && !has_sub(l, "arc b580"@)) ==> intel_vram_guess(l) == 10240,
        (!has_sub(l, "arc a770"@) && !has_sub(l, "arc a750"@) && !has_sub(l, "arc a580"@) && !has_sub(l, "arc a380"@) && !has_sub(l, "arc b580"@) && !has_sub(l, "arc b570"@)) ==> intel_vram_guess(l) == 512,
{
}

} // verus!
