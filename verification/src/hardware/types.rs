//! The hardware a ranking is made for.
use vstd::prelude::*;

verus! {

/// Who made a GPU.
#[derive(Debug, Clone, Copy, PartialEq, Eq, Structural)]
pub enum GpuVendor {
    Nvidia,
    Amd,
    Apple,
    Intel,
    Unknown,
}

/// One GPU (or a group of identical GPUs counted together).
#[derive(Debug, Clone)]
pub struct GpuInfo {
    pub name: String,
    pub vram_mb: u64,
    /// Memory bandwidth in tenths of a GB/s (1008 GB/s: 10080).
    pub bandwidth_tenths: u64,
    pub vendor: GpuVendor,
}

/// The mathematical value of a `GpuInfo`.
pub struct GpuView {
    pub name: Seq<char>,
    pub vram_mb: u64,
    pub bandwidth_tenths: u64,
    pub vendor: GpuVendor,
}

impl View for GpuInfo {
    type V = GpuView;

    open spec fn view(&self) -> GpuView {
        GpuView {
            name: self.name@,
            vram_mb: self.vram_mb,
            bandwidth_tenths: self.bandwidth_tenths,
            vendor: self.vendor,
        }
    }
}

/// The values of a sequence of GPUs.
pub open spec fn gpu_views(g: Seq<GpuInfo>) -> Seq<GpuView> {
    g.map_values(|x: GpuInfo| x@)
}

/// The processor.
#[derive(Debug, Clone)]
pub struct CpuInfo {
    pub name: String,
    pub cores: usize,
}

/// The operating system.
#[derive(Debug, Clone, Copy, PartialEq, Eq, Structural)]
pub enum OsType {
    Linux,
    MacOS,
    Windows,
    Unknown,
}

/// Everything the ranking needs to know of a machine.
#[derive(Debug, Clone)]
pub struct HardwareInfo {
    pub gpus: Vec<GpuInfo>,
    pub cpu: CpuInfo,
    /// System memory in MB.
    pub ram_mb: u64,
    pub os: OsType,
}

/// One video controller of the Windows adapter list: its `Name` and its
/// `AdapterRAM` in bytes, each when present.
#[derive(Debug, Clone)]
pub struct AdapterRow {
    pub name: Option<String>,
    pub adapter_ram: Option<u64>,
}

impl AdapterRow {
    /// The chars of the adapter's name, when it has one.
    pub open spec fn name_view(&self) -> Option<Seq<char>> {
        match self.name {
            Some(n) => Some(n@),
            None => None,
        }
    }
}

/// Total VRAM of some GPUs, in MB.
pub open spec fn vram_total(g: Seq<GpuInfo>) -> nat
    decreases g.len(),
{
    if g.len() == 0 {
        0
    } else {
        vram_total(g.drop_last()) + g.last().vram_mb as nat
    }
}

/// The memory bandwidth of a machine's GPUs working together, in tenths of a
/// GB/s: the smallest of their bandwidths (several GPUs run at the pace of the
/// slowest); zero without a GPU.
pub open spec fn bandwidth_min(g: Seq<GpuInfo>) -> u64
    decreases g.len(),
{
    if g.len() == 0 {
        0
    } else if g.len() == 1 {
        g[0].bandwidth_tenths
    } else {
        let m = bandwidth_min(g.drop_last());
        if g.last().bandwidth_tenths < m {
            g.last().bandwidth_tenths
        } else {
            m
        }
    }
}

/// The largest bandwidth, in tenths of a GB/s, for which speeds in
/// hundredths of a token per second still fit in `u64`.
pub const MAX_BANDWIDTH_TENTHS: u64 = 900_719_925_474_099;

/// The figures a ranking takes over a machine's GPUs fit the integer types
/// they are held in: VRAM plus system memory in `u64` MB, bandwidth below
/// `MAX_BANDWIDTH_TENTHS`.
pub open spec fn sums_fit(hw: HardwareInfo) -> bool {
    &&& vram_total(hw.gpus@) + hw.ram_mb <= u64::MAX
    &&& bandwidth_min(hw.gpus@) <= MAX_BANDWIDTH_TENTHS
}

/// Total VRAM of the GPUs, in MB.
pub fn total_vram(g: &Vec<GpuInfo>) -> (t: u64)
    requires
        vram_total(g@) <= u64::MAX,
    ensures
        t == vram_total(g@),
{
    let mut t: u64 = 0;
    let mut i: usize = 0;
    while i < g.len()
        invariant
            i <= g.len(),
            vram_total(g@) <= u64::MAX,
            t == vram_total(g@.take(i as int)),
        decreases g.len() - i,
    {
        assert(g@.take(i + 1).drop_last() == g@.take(i as int));
        proof {
            lemma_vram_total_prefix(g@, i + 1);
        }
        t = t + g[i].vram_mb;
        i = i + 1;
    }
    assert(g@.take(g.len() as int) == g@);
    t
}

proof fn lemma_vram_total_prefix(g: Seq<GpuInfo>, k: int)
    requires
        0 <= k <= g.len(),
    ensures
        vram_total(g.take(k)) <= vram_total(g),
    decreases g.len() - k,
{
    if k < g.len() {
        lemma_vram_total_prefix(g, k + 1);
        assert(g.take(k + 1).drop_last() == g.take(k));
    } else {
        assert(g.take(k) == g);
    }
}

/// The bandwidth of the GPUs working together, in tenths of a GB/s (the
/// smallest of theirs; zero without a GPU).
pub fn min_bandwidth(g: &Vec<GpuInfo>) -> (b: u64)
    ensures
        b == bandwidth_min(g@),
{
    if g.len() == 0 {
        return 0;
    }
    let mut b: u64 = g[0].bandwidth_tenths;
    let mut i: usize = 1;
    assert(g@.take(1) =~= seq![g@[0]]);
    while i < g.len()
        invariant
            1 <= i <= g.len(),
            b == bandwidth_min(g@.take(i as int)),
        decreases g.len() - i,
    {
        assert(g@.take(i + 1).drop_last() == g@.take(i as int));
        if g[i].bandwidth_tenths < b {
            b = g[i].bandwidth_tenths;
        }
        i = i + 1;
    }
    assert(g@.take(g.len() as int) == g@);
    b
}

/// Whether the figures a ranking takes over a machine's GPUs fit their
/// integer types (see `sums_fit`).
pub fn sums_within(hw: &HardwareInfo) -> (r: bool)
    ensures
        r == sums_fit(*hw),
{
    let g = &hw.gpus;
    let mut v: u64 = 0;
    let mut i: usize = 0;
    while i < g.len()
        invariant
            i <= g.len(),
            g == &hw.gpus,
            v == vram_total(g@.take(i as int)),
            v <= u64::MAX - hw.ram_mb,
        decreases g.len() - i,
    {
        assert(g@.take(i + 1).drop_last() == g@.take(i as int));
        proof {
            lemma_vram_total_prefix(g@, i + 1);
        }
        if g[i].vram_mb > u64::MAX - hw.ram_mb - v {
            return false;
        }
        v = v + g[i].vram_mb;
        i = i + 1;
    }
    assert(g@.take(g.len() as int) == g@);
    min_bandwidth(g) <= MAX_BANDWIDTH_TENTHS
}

/// Builds a GPU record.
pub fn make_gpu(name: String, vram_mb: u64, bandwidth_tenths: u64, vendor: GpuVendor) -> (g:
    GpuInfo)
    ensures
        g@ == (GpuView { name: name@, vram_mb, bandwidth_tenths, vendor }),
{
    GpuInfo { name, vram_mb, bandwidth_tenths, vendor }
}

} // verus!
