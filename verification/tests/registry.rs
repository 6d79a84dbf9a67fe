use shaderbar::registry::{Detected, Value};

#[test]
fn to_u64_of_a_count_is_the_count() {
    assert_eq!(Value::U64(0).to_u64(), Some(0));
    assert_eq!(Value::U64(u64::MAX).to_u64(), Some(u64::MAX));
}

#[test]
fn to_u64_of_a_text_reads_the_number() {
    assert_eq!(Value::String("16".to_string()).to_u64(), Some(16));
    assert_eq!(Value::String("+16".to_string()).to_u64(), Some(16));
    assert_eq!(Value::String("18446744073709551615".to_string()).to_u64(), Some(u64::MAX));
}

#[test]
fn to_u64_of_a_text_that_is_no_number_is_nothing() {
    assert_eq!(Value::String("".to_string()).to_u64(), None);
    assert_eq!(Value::String("sixteen".to_string()).to_u64(), None);
    assert_eq!(Value::String("16 ".to_string()).to_u64(), None);
    assert_eq!(Value::String("-1".to_string()).to_u64(), None);
    assert_eq!(Value::String("18446744073709551616".to_string()).to_u64(), None);
    assert_eq!(Value::String("\u{661}\u{662}".to_string()).to_u64(), None);
}

#[test]
fn to_string_writes_a_count_in_decimal() {
    assert_eq!(Value::U64(0).to_string(), "0");
    assert_eq!(Value::U64(8).to_string(), "8");
    assert_eq!(Value::U64(1024).to_string(), "1024");
    assert_eq!(Value::U64(u64::MAX).to_string(), "18446744073709551615");
}

#[test]
fn to_string_gives_a_text_as_it_is() {
    assert_eq!(Value::String("/sys/x".to_string()).to_string(), "/sys/x");
    assert_eq!(Value::String("".to_string()).to_string(), "");
}

#[test]
fn text_of_a_count_reads_back_as_the_count() {
    for count in [0u64, 1, 10, 99, 12345, u64::MAX] {
        assert_eq!(Value::String(Value::U64(count).to_string()).to_u64(), Some(count));
    }
}

#[test]
fn clone_keeps_the_value() {
    assert_eq!(Value::U64(5).clone().to_u64(), Some(5));
    assert_eq!(Value::String("abc".to_string()).clone().to_string(), "abc");
}

#[test]
fn new_registry_holds_nothing() {
    let detected = Detected::new();
    assert_eq!(detected.len(), 0);
    assert!(detected.get("cpu.count").is_none());
    assert_eq!(detected.position("cpu.count"), 0);
}

#[test]
fn insert_adds_a_new_name_at_the_end() {
    let mut detected = Detected::new();
    detected.insert("cpu.count".to_string(), Value::U64(8));
    detected.insert("gpu.count".to_string(), Value::U64(1));
    assert_eq!(detected.len(), 2);
    assert_eq!(detected.key_at(0), "cpu.count");
    assert_eq!(detected.key_at(1), "gpu.count");
    assert_eq!(detected.value_at(1).to_u64(), Some(1));
    assert_eq!(detected.get("cpu.count").unwrap().to_u64(), Some(8));
    assert_eq!(detected.position("gpu.count"), 1);
    assert_eq!(detected.position("other"), 2);
}

#[test]
fn insert_replaces_what_a_name_held() {
    let mut detected = Detected::new();
    detected.insert("cpu.count".to_string(), Value::U64(0));
    detected.insert("gpu.count".to_string(), Value::U64(0));
    detected.insert("cpu.count".to_string(), Value::U64(8));
    assert_eq!(detected.len(), 2);
    assert_eq!(detected.key_at(0), "cpu.count");
    assert_eq!(detected.get("cpu.count").unwrap().to_u64(), Some(8));
    assert_eq!(detected.get("gpu.count").unwrap().to_u64(), Some(0));
    detected.insert("cpu.count".to_string(), Value::String("many".to_string()));
    assert_eq!(detected.len(), 2);
    assert_eq!(detected.get("cpu.count").unwrap().to_string(), "many");
}

#[test]
fn names_are_compared_whole() {
    let mut detected = Detected::new();
    detected.insert("cpu.temp".to_string(), Value::U64(1));
    assert!(detected.get("cpu.tem").is_none());
    assert!(detected.get("cpu.temp ").is_none());
    assert!(detected.get("CPU.TEMP").is_none());
    assert!(detected.get("").is_none());
    assert!(detected.get("cpu.temp").is_some());
}
