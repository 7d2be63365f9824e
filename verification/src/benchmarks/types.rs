//! Benchmark entries and the evidence behind them.
use vstd::prelude::*;
use crate::text::same_str;

verus! {

/// How directly a benchmark score applies to a model, weakest first (the
/// derived order runs from `SelfReported` up to `Direct`).
#[derive(Debug, Clone, Copy, PartialEq, Eq, Structural, PartialOrd, Ord)]
pub enum Evidence {
    SelfReported,
    Interpolated,
    BaseModel,
    Variant,
    Direct,
}

/// The confidence given to a kind of evidence, in hundredths.
pub open spec fn evidence_weight(e: Evidence) -> u64 {
    match e {
        Evidence::Direct => 100,
        Evidence::Variant => 88,
        Evidence::BaseModel => 78,
        Evidence::Interpolated => 65,
        Evidence::SelfReported => 55,
    }
}

/// How strong a kind of evidence is, from 0 (self-reported) to 4 (direct).
pub open spec fn evidence_rank(e: Evidence) -> int {
    match e {
        Evidence::SelfReported => 0,
        Evidence::Interpolated => 1,
        Evidence::BaseModel => 2,
        Evidence::Variant => 3,
        Evidence::Direct => 4,
    }
}

/// Stronger evidence never carries a lower confidence, and every confidence
/// lies between 0.55 and 1.00.
pub proof fn lemma_weight_follows_evidence(a: Evidence, b: Evidence)
    requires
        evidence_rank(a) <= evidence_rank(b),
    ensures
        evidence_weight(a) <= evidence_weight(b),
        55 <= evidence_weight(a) <= 100,
{
}

/// The evidence kind named by a string; any other string is self-reported.
pub open spec fn evidence_named(s: Seq<char>) -> Evidence {
    if s == "direct"@ {
        Evidence::Direct
    } else if s == "variant"@ {
        Evidence::Variant
    } else if s == "base_model"@ {
        Evidence::BaseModel
    } else if s == "interpolated"@ {
        Evidence::Interpolated
    } else {
        Evidence::SelfReported
    }
}

impl Evidence {
    /// The confidence given to this kind of evidence, in hundredths (1.00 = direct).
    pub fn weight(&self) -> (w: u64)
        ensures
            w == evidence_weight(*self),
            55 <= w <= 100,
    {
        match self {
            Evidence::Direct => 100,
            Evidence::Variant => 88,
            Evidence::BaseModel => 78,
            Evidence::Interpolated => 65,
            Evidence::SelfReported => 55,
        }
    }

    /// The evidence kind written in snake case; unknown names count as self-reported.
    pub fn from_str(s: &str) -> (e: Evidence)
        ensures
            e == evidence_named(s@),
    {
        if same_str(s, "direct") {
            Evidence::Direct
        } else if same_str(s, "variant") {
            Evidence::Variant
        } else if same_str(s, "base_model") {
            Evidence::BaseModel
        } else if same_str(s, "interpolated") {
            Evidence::Interpolated
        } else {
            Evidence::SelfReported
        }
    }
}

/// One curated benchmark score.
#[derive(Debug, Clone)]
pub struct BenchmarkEntry {
    pub model_id: String,
    /// Score in hundredths of a point.
    pub score: i64,
    pub source: String,
    pub confidence: Evidence,
    pub date: String,
}

impl View for BenchmarkEntry {
    type V = (Seq<char>, i64, Seq<char>, Evidence);

    open spec fn view(&self) -> (Seq<char>, i64, Seq<char>, Evidence) {
        (self.model_id@, self.score, self.source@, self.confidence)
    }
}

} // verus!
