use macmon::text::{contains, ends_with, name_le_exec, starts_with, str_eq};

#[test]
fn text_comparisons() {
    assert!(str_eq("mJ", "mJ"));
    assert!(!str_eq("mJ", "mJ "));
    assert!(starts_with("ANE0", "ANE"));
    assert!(!starts_with("AN", "ANE"));
    assert!(ends_with("DIE_0_CPU Energy", "CPU Energy"));
    assert!(!ends_with("CPU Energy 1", "CPU Energy"));
    assert!(contains("PACC0_ECPU1", "ECPU"));
    assert!(!contains("PCPU", "ECPU"));
    assert!(contains("abc", ""));
}

#[test]
fn name_order() {
    assert!(name_le_exec("Tg0a", "Tp01"));
    assert!(!name_le_exec("Tp01", "Tg0a"));
    assert!(name_le_exec("Tp", "Tp01"));
    assert!(name_le_exec("Tp01", "Tp01"));
    assert!(name_le_exec("", ""));
    assert!(name_le_exec("Z", "a"));
}
