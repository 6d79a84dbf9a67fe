use shaderbar::detect::{
    add, add_sensor_paths, detect, detect_amdgpu, detect_battery, detect_labels,
    detect_network, dirname, keep, match_regex, watch,
};
use shaderbar::error::SensorError;
use shaderbar::registry::{Detected, Value};
use shaderbar::sensors::{NetworkInterface, Sensors};

fn lines(items: &[&str]) -> Vec<String> {
    items.iter().map(|item| item.to_string()).collect()
}

fn text(detected: &Detected, key: &str) -> Option<String> {
    detected.get(key).map(|value| value.to_string())
}

fn keys(detected: &Detected) -> Vec<String> {
    (0..detected.len()).map(|index| detected.key_at(index).clone()).collect()
}

fn labels() -> Detected {
    let mut found = Detected::new();
    add(&mut found, "/sys/class/hwmon/hwmon1/temp1_label", "Composite");
    add(&mut found, "/sys/class/hwmon/hwmon2/temp1_label", "coretemp Package id 0");
    add(&mut found, "/sys/class/hwmon/hwmon3/temp2_label", "amdgpu edge");
    add(&mut found, "/sys/class/hwmon/hwmon4/temp1_label", "CPU");
    found
}

#[test]
fn add_notes_a_text_under_a_name() {
    let mut detected = Detected::new();
    add(&mut detected, "wifi.interface", "wlan0");
    add(&mut detected, "wifi.connection", "Home");
    add(&mut detected, "wifi.interface", "wlan1");
    assert_eq!(detected.len(), 2);
    assert_eq!(text(&detected, "wifi.interface"), Some("wlan1".to_string()));
    assert_eq!(text(&detected, "wifi.connection"), Some("Home".to_string()));
}

#[test]
fn keep_keeps_the_marked_entries_in_order() {
    let found = labels();
    let kept = keep(&found, &vec![false, true, false, true]);
    assert_eq!(
        keys(&kept),
        vec!["/sys/class/hwmon/hwmon2/temp1_label", "/sys/class/hwmon/hwmon4/temp1_label"]
    );
    assert_eq!(text(&kept, "/sys/class/hwmon/hwmon4/temp1_label"), Some("CPU".to_string()));
    assert_eq!(keep(&found, &vec![true, true, true, true]).len(), 4);
    assert_eq!(keep(&found, &vec![]).len(), 0);
    assert_eq!(keys(&keep(&found, &vec![true])), vec!["/sys/class/hwmon/hwmon1/temp1_label"]);
    assert_eq!(keep(&found, &vec![false, false, false, false, true]).len(), 0);
}

#[test]
fn match_regex_keeps_the_labels_that_match() {
    let found = labels();
    let processors = match_regex("coretemp|k10temp|cpu|CPU", &found).unwrap();
    assert_eq!(
        keys(&processors),
        vec!["/sys/class/hwmon/hwmon2/temp1_label", "/sys/class/hwmon/hwmon4/temp1_label"]
    );
    let graphics = match_regex("amdgpu|nouveau|nvidia|intel|GPU", &found).unwrap();
    assert_eq!(keys(&graphics), vec!["/sys/class/hwmon/hwmon3/temp2_label"]);
    assert_eq!(text(&graphics, "/sys/class/hwmon/hwmon3/temp2_label"), Some("amdgpu edge".to_string()));
}

#[test]
fn match_regex_searches_the_value_not_the_name() {
    let mut found = Detected::new();
    add(&mut found, "cpu", "nothing");
    add(&mut found, "other", "a cpu here");
    found.insert("count".to_string(), Value::U64(42));
    assert_eq!(keys(&match_regex("cpu", &found).unwrap()), vec!["other"]);
    assert_eq!(keys(&match_regex("^4[0-9]$", &found).unwrap()), vec!["count"]);
    assert_eq!(match_regex("^$", &found).unwrap().len(), 0);
    assert_eq!(match_regex("", &found).unwrap().len(), 3);
}

#[test]
fn match_regex_refuses_a_bad_pattern() {
    assert_eq!(match_regex("foo(bar", &labels()).err(), Some(SensorError::BadPattern));
    assert_eq!(match_regex("[", &Detected::new()).err(), Some(SensorError::BadPattern));
    assert!(match_regex("(ok)", &Detected::new()).is_ok());
}

#[test]
fn detect_network_notes_connected_devices() {
    let table = lines(&[
        "DEVICE  TYPE      STATE         CONNECTION",
        "enp3s0  ethernet  connected     Wired connection 1",
        "wlan0   wifi      connected     Home",
        "wwan0   gsm       connected     Mobile",
        "wlan1   wifi      disconnected  --",
        "lo      loopback  unmanaged     --",
        "br0     bridge    connected     Bridge",
    ]);
    let detected = detect_network(Detected::new(), &table);
    assert_eq!(
        keys(&detected),
        vec![
            "ethernet.interface",
            "ethernet.connection",
            "wifi.interface",
            "wifi.connection",
            "gsm.interface",
            "gsm.connection",
        ]
    );
    assert_eq!(text(&detected, "ethernet.interface"), Some("enp3s0".to_string()));
    assert_eq!(text(&detected, "ethernet.connection"), Some("Wired".to_string()));
    assert_eq!(text(&detected, "wifi.interface"), Some("wlan0".to_string()));
    assert_eq!(text(&detected, "wifi.connection"), Some("Home".to_string()));
    assert_eq!(text(&detected, "gsm.interface"), Some("wwan0".to_string()));
    assert_eq!(text(&detected, "gsm.connection"), Some("Mobile".to_string()));
}

#[test]
fn detect_network_lets_the_last_device_of_a_kind_decide() {
    let table = lines(&["eth0 ethernet connected A", "eth1 ethernet connected B"]);
    let detected = detect_network(Detected::new(), &table);
    assert_eq!(detected.len(), 2);
    assert_eq!(text(&detected, "ethernet.interface"), Some("eth1".to_string()));
    assert_eq!(text(&detected, "ethernet.connection"), Some("B".to_string()));
}

#[test]
fn detect_network_passes_over_short_and_unconnected_lines() {
    let mut start = Detected::new();
    add(&mut start, "cpu.count", "8");
    let table = lines(&[
        "",
        "wlan0 wifi",
        "wlan0 wifi connected",
        "wlan0 wifi connecting Home",
        "wlan0 wifi Connected Home",
        "wlan0 WIFI connected Home",
    ]);
    let detected = detect_network(start, &table);
    assert_eq!(keys(&detected), vec!["cpu.count"]);
    assert_eq!(detect_network(Detected::new(), &lines(&[])).len(), 0);
}

#[test]
fn detect_battery_takes_the_first_capacity_file() {
    let listing = lines(&[
        " /sys/class/power_supply/BAT0/capacity ",
        "/sys/class/power_supply/BAT1/capacity",
    ]);
    let detected = detect_battery(Detected::new(), &listing);
    assert_eq!(keys(&detected), vec!["battery.capacity", "battery.status"]);
    assert_eq!(
        text(&detected, "battery.capacity"),
        Some("/sys/class/power_supply/BAT0/capacity".to_string())
    );
    assert_eq!(
        text(&detected, "battery.status"),
        Some("/sys/class/power_supply/BAT0/status".to_string())
    );
}

#[test]
fn detect_battery_without_a_battery_notes_nothing() {
    assert_eq!(detect_battery(Detected::new(), &lines(&[])).len(), 0);
}

#[test]
fn add_sensor_paths_derives_the_reading_and_the_fan() {
    let mut detected = Detected::new();
    let mut found = Detected::new();
    add(&mut found, "/sys/class/hwmon/hwmon2/temp1_label", "coretemp");
    add_sensor_paths(&mut detected, &found, "cpu.temp", "cpu.fan");
    assert_eq!(text(&detected, "cpu.temp"), Some("/sys/class/hwmon/hwmon2/temp1_input".to_string()));
    assert_eq!(text(&detected, "cpu.fan"), Some("/sys/class/hwmon/hwmon2/fan1_input".to_string()));
    add(&mut found, "/sys/class/hwmon/hwmon4/temp3_label", "CPU");
    add_sensor_paths(&mut detected, &found, "cpu.temp", "cpu.fan");
    assert_eq!(text(&detected, "cpu.temp"), Some("/sys/class/hwmon/hwmon4/temp3_input".to_string()));
    assert_eq!(text(&detected, "cpu.fan"), Some("/sys/class/hwmon/hwmon4/fan3_input".to_string()));
    assert_eq!(detected.len(), 2);
}

#[test]
fn detect_labels_sorts_the_sensors_by_their_label() {
    let detected = detect_labels(Detected::new(), &labels()).unwrap();
    assert_eq!(keys(&detected), vec!["cpu.temp", "cpu.fan", "gpu.temp", "gpu.fan"]);
    assert_eq!(text(&detected, "cpu.temp"), Some("/sys/class/hwmon/hwmon4/temp1_input".to_string()));
    assert_eq!(text(&detected, "cpu.fan"), Some("/sys/class/hwmon/hwmon4/fan1_input".to_string()));
    assert_eq!(text(&detected, "gpu.temp"), Some("/sys/class/hwmon/hwmon3/temp2_input".to_string()));
    assert_eq!(text(&detected, "gpu.fan"), Some("/sys/class/hwmon/hwmon3/fan2_input".to_string()));
}

#[test]
fn detect_labels_without_labels_notes_nothing() {
    let mut start = Detected::new();
    add(&mut start, "cpu.count", "8");
    let detected = detect_labels(start, &Detected::new()).unwrap();
    assert_eq!(keys(&detected), vec!["cpu.count"]);
}

#[test]
fn detect_amdgpu_numbers_the_graphics_processors() {
    let mut start = Detected::new();
    start.insert("gpu.count".to_string(), Value::U64(0));
    let found = vec![
        (
            " /sys/devices/pci0000:00/0000:03:00.0/gpu_busy_percent\n".to_string(),
            "ID_MODEL_FROM_DATABASE=Navi 23 [Radeon RX 6600]".to_string(),
        ),
        ("/sys/devices/pci0000:00/0000:04:00.0/gpu_busy_percent".to_string(), "short".to_string()),
    ];
    let detected = detect_amdgpu(start, &found).unwrap();
    assert_eq!(
        keys(&detected),
        vec!["gpu.count", "gpu[0].usage", "gpu[0].model", "gpu[1].usage", "gpu[1].model"]
    );
    assert_eq!(detected.get("gpu.count").unwrap().to_u64(), Some(2));
    assert_eq!(
        text(&detected, "gpu[0].usage"),
        Some("/sys/devices/pci0000:00/0000:03:00.0/gpu_busy_percent".to_string())
    );
    assert_eq!(text(&detected, "gpu[0].model"), Some("Navi 23 [Radeon RX 6600]".to_string()));
    assert_eq!(text(&detected, "gpu[1].model"), Some("".to_string()));
}

#[test]
fn detect_amdgpu_goes_on_from_the_count_it_finds() {
    let mut start = Detected::new();
    add(&mut start, "gpu.count", "10");
    let found = vec![("/a".to_string(), "ID_MODEL_FROM_DATABASE=".to_string())];
    let detected = detect_amdgpu(start, &found).unwrap();
    assert_eq!(keys(&detected), vec!["gpu.count", "gpu[10].usage", "gpu[10].model"]);
    assert_eq!(detected.get("gpu.count").unwrap().to_u64(), Some(11));
    assert_eq!(text(&detected, "gpu.count"), Some("11".to_string()));
    assert_eq!(text(&detected, "gpu[10].model"), Some("".to_string()));
}

#[test]
fn detect_amdgpu_without_processors_keeps_the_count() {
    let mut start = Detected::new();
    start.insert("gpu.count".to_string(), Value::U64(3));
    let detected = detect_amdgpu(start, &vec![]).unwrap();
    assert_eq!(keys(&detected), vec!["gpu.count"]);
    assert_eq!(detected.get("gpu.count").unwrap().to_u64(), Some(3));
}

#[test]
fn detect_amdgpu_wants_a_count_to_go_on_from() {
    assert_eq!(detect_amdgpu(Detected::new(), &vec![]).err(), Some(SensorError::MissingField));
    let mut start = Detected::new();
    add(&mut start, "gpu.count", "some");
    assert_eq!(detect_amdgpu(start, &vec![]).err(), Some(SensorError::NotANumber));
    let mut start = Detected::new();
    start.insert("gpu.count".to_string(), Value::U64(u64::MAX));
    let found = vec![("/a".to_string(), "b".to_string())];
    assert_eq!(detect_amdgpu(start, &found).err(), Some(SensorError::Overflow));
    let mut start = Detected::new();
    start.insert("gpu.count".to_string(), Value::U64(u64::MAX));
    assert!(detect_amdgpu(start, &vec![]).is_ok());
}

#[test]
fn watch_lists_an_interface_once() {
    let mut allowed: Vec<(String, NetworkInterface)> = Vec::new();
    watch(
        &mut allowed,
        "eth0".to_string(),
        NetworkInterface { type_: "ethernet".to_string(), icon: String::new() },
    );
    watch(
        &mut allowed,
        "wlan0".to_string(),
        NetworkInterface { type_: "wifi".to_string(), icon: String::new() },
    );
    watch(
        &mut allowed,
        "eth0".to_string(),
        NetworkInterface { type_: "wifi".to_string(), icon: "x".to_string() },
    );
    assert_eq!(allowed.len(), 2);
    assert_eq!(allowed[0].0, "eth0");
    assert_eq!(allowed[0].1.type_, "wifi");
    assert_eq!(allowed[0].1.icon, "x");
    assert_eq!(allowed[1].0, "wlan0");
    assert_eq!(allowed[1].1.type_, "wifi");
}

#[test]
fn detect_takes_what_was_found_into_the_snapshot() {
    let mut found = Detected::new();
    found.insert("cpu.count".to_string(), Value::U64(8));
    found.insert("gpu.count".to_string(), Value::U64(2));
    add(&mut found, "cpu.temp", "/hwmon2/temp1_input");
    add(&mut found, "cpu.fan", "/hwmon2/fan1_input");
    add(&mut found, "gpu.temp", "/hwmon3/temp1_input");
    add(&mut found, "gpu.fan", "/hwmon3/fan1_input");
    add(&mut found, "gpu[0].usage", "/pci/gpu_busy_percent");
    add(&mut found, "gpu[0].model", "Navi");
    add(&mut found, "ethernet.interface", "enp3s0");
    add(&mut found, "ethernet.connection", "Wired");
    add(&mut found, "wifi.interface", "wlan0");
    add(&mut found, "battery.capacity", "/BAT0/capacity");
    add(&mut found, "battery.status", "/BAT0/status");
    let mut sensors = Sensors::new();
    assert_eq!(detect(&mut sensors, &found), Ok(()));
    assert_eq!(sensors.cpu_temp_path, "/hwmon2/temp1_input");
    assert_eq!(sensors.cpu_fan_path, "/hwmon2/fan1_input");
    assert_eq!(sensors.gpu_temp_path, "/hwmon3/temp1_input");
    assert_eq!(sensors.gpu_fan_path, "/hwmon3/fan1_input");
    assert_eq!(sensors.gpu_load_path, "/pci/gpu_busy_percent");
    assert_eq!(sensors.gpu_load, vec![0, 0]);
    assert_eq!(sensors.bat_capacity_path, "/BAT0/capacity");
    assert_eq!(sensors.bat_status_path, "/BAT0/status");
    assert_eq!(sensors.net_allowed.len(), 2);
    assert_eq!(sensors.net_allowed[0].0, "enp3s0");
    assert_eq!(sensors.net_allowed[0].1.type_, "ethernet");
    assert_eq!(sensors.net_allowed[0].1.icon, "");
    assert_eq!(sensors.net_allowed[1].0, "wlan0");
    assert_eq!(sensors.net_allowed[1].1.type_, "wifi");
    assert_eq!(sensors.cpu_count, 0);
    assert_eq!(sensors.mem, vec![0, 0, 0, 0]);
}

#[test]
fn detect_keeps_what_was_not_found() {
    let mut sensors = Sensors::new();
    sensors.cpu_temp_path = "/old/temp".to_string();
    sensors.gpu_load_path = "/old/gpu".to_string();
    sensors.gpu_load = vec![7];
    let mut found = Detected::new();
    add(&mut found, "cpu.fan", "/new/fan");
    found.insert("gpu.temp".to_string(), Value::U64(5));
    assert_eq!(detect(&mut sensors, &found), Ok(()));
    assert_eq!(sensors.cpu_temp_path, "/old/temp");
    assert_eq!(sensors.cpu_fan_path, "/new/fan");
    assert_eq!(sensors.gpu_temp_path, "5");
    assert_eq!(sensors.gpu_load_path, "/old/gpu");
    assert_eq!(sensors.gpu_load, vec![7]);
    assert!(sensors.net_allowed.is_empty());
}

#[test]
fn detect_lets_the_wireless_interface_win_a_shared_name() {
    let mut found = Detected::new();
    add(&mut found, "wifi.interface", "net0");
    add(&mut found, "ethernet.interface", "net0");
    let mut sensors = Sensors::new();
    assert_eq!(detect(&mut sensors, &found), Ok(()));
    assert_eq!(sensors.net_allowed.len(), 1);
    assert_eq!(sensors.net_allowed[0].1.type_, "wifi");
}

#[test]
fn detect_wants_a_count_beside_a_graphics_processor() {
    let mut sensors = Sensors::new();
    sensors.cpu_temp_path = "/old".to_string();
    let mut found = Detected::new();
    add(&mut found, "cpu.temp", "/new");
    add(&mut found, "gpu[0].usage", "/gpu");
    assert_eq!(detect(&mut sensors, &found), Err(SensorError::MissingField));
    add(&mut found, "gpu.count", "two");
    assert_eq!(detect(&mut sensors, &found), Err(SensorError::NotANumber));
    assert_eq!(sensors.cpu_temp_path, "/old");
    assert_eq!(sensors.gpu_load_path, "");
    found.insert("gpu.count".to_string(), Value::U64(300));
    assert_eq!(detect(&mut sensors, &found), Ok(()));
    assert_eq!(sensors.gpu_load, vec![0u8; 300]);
    assert_eq!(sensors.gpu_load_path, "/gpu");
    assert_eq!(sensors.cpu_temp_path, "/new");
}

#[test]
fn dirname_is_the_path_without_its_last_component() {
    assert_eq!(
        dirname("/sys/devices/pci0000:00/0000:03:00.0/gpu_busy_percent"),
        Some("/sys/devices/pci0000:00/0000:03:00.0".to_string())
    );
    assert_eq!(dirname("/a/b/"), Some("/a".to_string()));
    assert_eq!(dirname("/a//b"), Some("/a".to_string()));
    assert_eq!(dirname("/a"), Some("/".to_string()));
    assert_eq!(dirname("a/b"), Some("a".to_string()));
    assert_eq!(dirname("a"), Some("".to_string()));
    assert_eq!(dirname("/caf\u{e9}/x"), Some("/caf\u{e9}".to_string()));
}

#[test]
fn dirname_of_a_root_or_of_nothing_is_nothing() {
    assert_eq!(dirname("/"), None);
    assert_eq!(dirname(""), None);
}

#[test]
fn names_stay_distinct_through_discovery() {
    let mut start = Detected::new();
    start.insert("gpu.count".to_string(), Value::U64(0));
    let found = vec![("/a".to_string(), "x".to_string()), ("/b".to_string(), "y".to_string())];
    let mut detected = detect_amdgpu(start, &found).unwrap();
    detected = detect_network(
        detected,
        &lines(&["eth0 ethernet connected A", "eth1 ethernet connected B"]),
    );
    detected = detect_battery(detected, &lines(&["/BAT0/capacity", "/BAT1/capacity"]));
    detected = detect_labels(detected, &labels()).unwrap();
    detected = detect_labels(detected, &labels()).unwrap();
    let names = keys(&detected);
    for (index, name) in names.iter().enumerate() {
        assert!(!names[..index].contains(name));
    }
    assert_eq!(names.len(), 13);
}
