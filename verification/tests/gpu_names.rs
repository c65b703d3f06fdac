use flux::sensor::gpu_name_is_integrated;

#[test]
fn discrete_cards_are_never_integrated() {
    for name in [
        "NVIDIA GeForce RTX 4090",
        "NVIDIA RTX A4000",
        "NVIDIA GeForce GTX 1660",
        "AMD Radeon RX 7900 XTX",
        "AMD Radeon RX 7600M XT",
        "AMD Radeon Pro W7900",
        "AMD Radeon RX Vega 64",
        "Intel(R) Arc(TM) A770 Graphics",
        "Intel Arc Graphics",
    ] {
        assert!(!gpu_name_is_integrated(name), "{name} wrongly integrated");
    }
}

#[test]
fn integrated_parts_are_detected() {
    for name in [
        "AMD Radeon(TM) Graphics",
        "AMD Radeon(TM) 780M Graphics",
        "AMD Radeon 680M",
        "AMD Radeon(TM) Vega 8 Graphics",
        "Intel(R) UHD Graphics 770",
        "Intel(R) Iris(R) Xe Graphics",
        "Intel(R) HD Graphics 630",
    ] {
        assert!(gpu_name_is_integrated(name), "{name} not detected as integrated");
    }
}
