use whichllm::models::types::QuantType;

const ALL: [QuantType; 15] = [
    QuantType::Q2_K,
    QuantType::Q3_K_S,
    QuantType::Q3_K_M,
    QuantType::Q3_K_L,
    QuantType::Q4_0,
    QuantType::Q4_K_S,
    QuantType::Q4_K_M,
    QuantType::Q5_0,
    QuantType::Q5_K_S,
    QuantType::Q5_K_M,
    QuantType::Q6_K,
    QuantType::Q8_0,
    QuantType::Fp16,
    QuantType::Fp32,
    QuantType::Unknown,
];

#[test]
fn from_filename_reads_common_formats() {
    assert_eq!(QuantType::from_filename("llama-3-8b.Q4_K_M.gguf"), QuantType::Q4_K_M);
    assert_eq!(QuantType::from_filename("model-q5_k_s.gguf"), QuantType::Q5_K_S);
    assert_eq!(QuantType::from_filename("Mistral-7B-Q8_0.gguf"), QuantType::Q8_0);
    assert_eq!(QuantType::from_filename("tiny.Q2_K.gguf"), QuantType::Q2_K);
    assert_eq!(QuantType::from_filename("phi-2.Q6_K.gguf"), QuantType::Q6_K);
    assert_eq!(QuantType::from_filename("x.Q4_0.gguf"), QuantType::Q4_0);
    assert_eq!(QuantType::from_filename("x.Q5_0.gguf"), QuantType::Q5_0);
}

#[test]
fn from_filename_ignores_case() {
    // The lower-casing goes through `str::to_lowercase`: an upper-case name only
    // matches because it was lower-cased first.
    assert_eq!(QuantType::from_filename("MODEL-Q4_K_M.GGUF"), QuantType::Q4_K_M);
    assert_eq!(QuantType::from_filename("MODEL-Q3_K_L.GGUF"), QuantType::Q3_K_L);
}

#[test]
fn from_filename_float_formats() {
    assert_eq!(QuantType::from_filename("model-f16.gguf"), QuantType::Fp16);
    assert_eq!(QuantType::from_filename("model-fp16.gguf"), QuantType::Fp16);
    assert_eq!(QuantType::from_filename("model-F32.gguf"), QuantType::Fp32);
    assert_eq!(QuantType::from_filename("model-fp32.gguf"), QuantType::Fp32);
}

#[test]
fn from_filename_first_tag_in_list_wins() {
    // q2_k is looked for before q8_0.
    assert_eq!(QuantType::from_filename("a-q8_0-q2_k.gguf"), QuantType::Q2_K);
    // q3_k_l is looked for before q3_k_m.
    assert_eq!(QuantType::from_filename("a-q3_k_m-q3_k_l.gguf"), QuantType::Q3_K_L);
}

#[test]
fn from_filename_unknown() {
    assert_eq!(QuantType::from_filename("model.gguf"), QuantType::Unknown);
    assert_eq!(QuantType::from_filename(""), QuantType::Unknown);
    assert_eq!(QuantType::from_filename("iq4_xs.gguf"), QuantType::Unknown);
}

#[test]
fn display_names() {
    assert_eq!(QuantType::Q4_K_M.display_name(), "Q4_K_M");
    assert_eq!(QuantType::Q8_0.display_name(), "Q8_0");
    assert_eq!(QuantType::Fp16.display_name(), "FP16");
    assert_eq!(QuantType::Fp32.display_name(), "FP32");
    assert_eq!(QuantType::Unknown.display_name(), "???");
}

#[test]
fn display_name_reads_back_as_same_format() {
    for q in ALL {
        assert_eq!(QuantType::from_filename(q.display_name()), q);
        assert_eq!(QuantType::from_filename(&q.display_name().to_lowercase()), q);
    }
}

#[test]
fn bits_per_weight_in_hundredths() {
    assert_eq!(QuantType::Q2_K.bits_per_weight(), 256);
    assert_eq!(QuantType::Q3_K_M.bits_per_weight(), 325);
    assert_eq!(QuantType::Q4_K_M.bits_per_weight(), 450);
    assert_eq!(QuantType::Q5_K_M.bits_per_weight(), 550);
    assert_eq!(QuantType::Q6_K.bits_per_weight(), 600);
    assert_eq!(QuantType::Q8_0.bits_per_weight(), 800);
    assert_eq!(QuantType::Fp16.bits_per_weight(), 1600);
    assert_eq!(QuantType::Fp32.bits_per_weight(), 3200);
    assert_eq!(QuantType::Unknown.bits_per_weight(), 450);
}

#[test]
fn quality_penalty_table() {
    // Q2=0.6, Q3=0.75, Q4=0.88, Q5=0.95, Q8=0.98, FP=1.0
    assert_eq!(QuantType::Q2_K.quality_penalty(), 60);
    assert_eq!(QuantType::Q3_K_S.quality_penalty(), 75);
    assert_eq!(QuantType::Q3_K_L.quality_penalty(), 75);
    assert_eq!(QuantType::Q4_0.quality_penalty(), 88);
    assert_eq!(QuantType::Q4_K_M.quality_penalty(), 88);
    assert_eq!(QuantType::Q5_K_M.quality_penalty(), 95);
    assert_eq!(QuantType::Q6_K.quality_penalty(), 97);
    assert_eq!(QuantType::Q8_0.quality_penalty(), 98);
    assert_eq!(QuantType::Fp16.quality_penalty(), 100);
    assert_eq!(QuantType::Fp32.quality_penalty(), 100);
    assert_eq!(QuantType::Unknown.quality_penalty(), 85);
}

#[test]
fn more_bits_never_lower_quality() {
    for a in ALL {
        for b in ALL {
            if a != QuantType::Unknown && b != QuantType::Unknown
                && a.bits_per_weight() <= b.bits_per_weight()
            {
                assert!(a.quality_penalty() <= b.quality_penalty());
            }
        }
    }
}

#[test]
fn placeholder_names_read_back() {
    for q in ALL {
        let name = format!("model-{}.gguf", q.display_name().to_lowercase());
        assert_eq!(QuantType::from_filename(&name), q);
    }
}

#[test]
fn upper_casing_changes_nothing() {
    for f in ["llama.q4_k_m.gguf", "Mistral-f16.gguf", "x-Q5_0", "plain", "a-q3_k_s-fp32"] {
        assert_eq!(QuantType::from_filename(f), QuantType::from_filename(&f.to_ascii_uppercase()));
    }
}
