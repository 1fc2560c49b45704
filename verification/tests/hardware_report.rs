use codestrux::hardware::{best_gpu, cpu_name, total_adapter_memory_kb, AdapterInfo, AdapterKind};

fn a(kind: AdapterKind, vram_bytes: u64) -> AdapterInfo {
    AdapterInfo { kind, vram_bytes }
}

#[test]
fn cpu_names() {
    assert_eq!(cpu_name(Some("  AMD Ryzen 7 7840HS  ")), "AMD Ryzen 7 7840HS");
    assert_eq!(cpu_name(None), "Unknown CPU");
    assert_eq!(cpu_name(Some("")), "");
}

#[test]
fn discrete_gpu_beats_integrated() {
    let v = vec![a(AdapterKind::Integrated, 16 << 30), a(AdapterKind::Discrete, 8 << 30), a(AdapterKind::Cpu, 64 << 30)];
    assert_eq!(best_gpu(&v), Some(1));
}

#[test]
fn most_memory_wins_within_a_kind() {
    let v = vec![a(AdapterKind::Discrete, 4 << 30), a(AdapterKind::Discrete, 12 << 30), a(AdapterKind::Discrete, 12 << 30)];
    assert_eq!(best_gpu(&v), Some(1));
    let w = vec![a(AdapterKind::Other, 1 << 30), a(AdapterKind::Integrated, 1)];
    assert_eq!(best_gpu(&w), Some(1));
}

#[test]
fn cpu_adapters_are_never_reported() {
    assert_eq!(best_gpu(&vec![a(AdapterKind::Cpu, 1 << 40)]), None);
    assert_eq!(best_gpu(&vec![]), None);
}

#[test]
fn adapter_memory_total() {
    assert_eq!(total_adapter_memory_kb(&vec![]), 0);
    assert_eq!(total_adapter_memory_kb(&vec![1024, 2048, 1]), 3073);
}
