use steady_state::channel_stats_labels::{
    format_compressed_u128, format_integral_value, format_label_prefix, format_memory_bytes_u128,
    format_memory_ring_dyn, format_memory_ring_dyn_prefixed, ComputeLabelsLabels,
};

#[test]
fn test_format_memory_bytes_u128_gb_not_bb() {
    let mut out = String::new();
    format_memory_bytes_u128(50_339_519_232, &mut out);
    assert_eq!(out, "50GB");
    assert!(!out.contains("BB"));
}

#[test]
fn memory_bytes_units() {
    let cases: [(u128, &str); 6] = [
        (0, "0B"),
        (999, "999B"),
        (1_000, "1KB"),
        (2_500_000, "2MB"),
        (7_000_000_000_000, "7TB"),
        (123_456_789, "123MB"),
    ];
    for (v, want) in cases {
        let mut out = String::from("x=");
        format_memory_bytes_u128(v, &mut out);
        assert_eq!(out, format!("x={}", want));
    }
}

#[test]
fn compressed_numbers() {
    let cases: [(u128, &str); 7] = [
        (0, "0"),
        (999, "999"),
        (1_000, "1K"),
        (1_999_999, "1M"),
        (3_000_000_000, "3B"),
        (42_000_000_000_000, "42T"),
        (u128::MAX, "340282366920938463463374607T"),
    ];
    for (v, want) in cases {
        let mut out = String::new();
        format_compressed_u128(v, &mut out);
        assert_eq!(out, want);
    }
}

#[test]
fn ring_and_dynamic_memory() {
    let mut out = String::new();
    format_memory_ring_dyn(2_048, 0, &mut out);
    assert_eq!(out, "(2KB ring)");
    let mut with_dyn = String::new();
    format_memory_ring_dyn(2_048, 5_000_000, &mut with_dyn);
    assert_eq!(with_dyn, "(2KB ring + 5MB dyn)");
    let mut prefixed = String::new();
    format_memory_ring_dyn_prefixed("mem ", 512, 3_000, &mut prefixed);
    assert_eq!(prefixed, "mem 512B ring + 3KB dyn");
}

#[test]
fn label_prefix_and_integral_values() {
    let labels = ComputeLabelsLabels {
        label: "load",
        unit: "%",
        _prometheus_labels: "",
        int_only: true,
        fixed_digits: 4,
    };
    let mut metric = String::new();
    let mut label = String::new();
    format_label_prefix(labels, &mut metric, &mut label, "Avg ", "avg_load");
    assert_eq!(label, "Avg load");
    assert_eq!(metric, "");
    format_integral_value(labels, &mut label, 42);
    assert_eq!(label, "Avg load: 0042 %\n");

    let plain = ComputeLabelsLabels { int_only: false, fixed_digits: 0, ..labels };
    let mut out = String::new();
    format_integral_value(plain, &mut out, 12_345);
    assert_eq!(out, ": 12K %\n");
}
