//! Discovery: from what the system's tools print to the names under which the
//! snapshot finds its sensors.

use crate::error::SensorError;
use crate::paths::{parent_of, path_parent};
use crate::pattern::{regex_compiles, regex_is_match, regex_search};
use crate::registry::{
    distinct_keys, find, find_from, kept, lemma_kept_distinct, lemma_upserted, lookup, upserted,
    Detected, Entries, Value, ValueView,
};
use crate::sensors::{
    interfaces, NetworkInterface, NetworkInterfaceView, Sensors, SensorsView,
};
use crate::strings::{
    decimal_chars, format_u64, replace, replaced, split_words, str_eq, texts, trim, trimmed,
    words,
};
use vstd::prelude::*;
use vstd::string::StrSliceExecFns;
use vstd::string::StringExecFns;

verus! {

/// Characters that stand before the model's name in what the device database
/// prints.
pub const MODEL_PREFIX: usize = 23;

/// For each entry of `list`, whether `pattern` matches its value as text.
pub open spec fn matches_of(list: Entries, pattern: Seq<char>) -> Seq<bool> {
    Seq::new(list.len(), |i: int| regex_is_match(pattern, list[i].1.text()))
}

/// The entries of `labels` whose mark in `marks` is set, in order.
pub fn keep(labels: &Detected, marks: &Vec<bool>) -> (result: Detected)
    ensures
        result@ == kept(labels@, marks@),
        distinct_keys(labels@) ==> distinct_keys(result@),
{
    proof {
        lemma_kept_distinct(labels@, marks@, Seq::empty());
    }
    let mut result: Detected = Detected::new();
    let mut i: usize = 0;
    assert(labels@.take(0) =~= Entries::empty());
    while i < labels.len()
        invariant
            i <= labels@.len(),
            result@ == kept(labels@.take(i as int), marks@),
        decreases labels@.len() - i,
    {
        proof {
            let next = labels@.take(i + 1);
            assert(next.drop_last() =~= labels@.take(i as int));
            assert(next.last() == labels@[i as int]);
        }
        if i < marks.len() && marks[i] {
            result.push(labels.key_at(i).clone(), labels.value_at(i).clone());
        }
        i += 1;
    }
    assert(labels@.take(i as int) =~= labels@);
    result
}

/// The entries of `labels` whose value, as text, the regular expression
/// `regex` matches somewhere. A pattern that does not compile is refused.
pub fn match_regex(regex: &str, labels: &Detected) -> (result: Result<Detected, SensorError>)
    ensures
        match result {
            Ok(found) => regex_compiles(regex@) && found@ == kept(
                labels@,
                matches_of(labels@, regex@),
            ) && (distinct_keys(labels@) ==> distinct_keys(found@)),
            Err(error) => !regex_compiles(regex@) && error == SensorError::BadPattern,
        },
{
    if regex_search(regex, "").is_none() {
        return Err(SensorError::BadPattern);
    }
    let mut marks: Vec<bool> = Vec::new();
    let mut i: usize = 0;
    while i < labels.len()
        invariant
            i <= labels@.len(),
            regex_compiles(regex@),
            marks@ == matches_of(labels@, regex@).take(i as int),
        decreases labels@.len() - i,
    {
        let text: String = labels.value_at(i).to_string();
        let mark: bool = match regex_search(regex, text.as_str()) {
            Some(found) => found,
            None => false,
        };
        marks.push(mark);
        i += 1;
        assert(marks@ =~= matches_of(labels@, regex@).take(i as int));
    }
    assert(marks@ =~= matches_of(labels@, regex@));
    Ok(keep(labels, &marks))
}

/// Puts the text `value` under `key`.
pub fn add(detected: &mut Detected, key: &str, value: &str)
    ensures
        final(detected)@ == upserted(old(detected)@, key@, ValueView::String(value@)),
        distinct_keys(old(detected)@) ==> distinct_keys(final(detected)@),
{
    detected.insert(String::from_str(key), Value::String(String::from_str(value)));
}

/// `list` with the text `value` under `key`.
pub open spec fn with_text(list: Entries, key: Seq<char>, value: Seq<char>) -> Entries {
    upserted(list, key, ValueView::String(value))
}

/// `list` after a line of the network manager's device table. A line of four
/// words or more whose third word is `connected` names a device in its first
/// word, its kind in the second and its connection in the fourth; of the
/// kinds `wifi`, `ethernet` and `gsm` device and connection are noted.
pub open spec fn with_device(list: Entries, line: Seq<char>) -> Entries {
    let parts = words(line);
    if parts.len() < 4 || parts[2] != "connected"@ {
        list
    } else if parts[1] == "wifi"@ {
        with_text(with_text(list, "wifi.interface"@, parts[0]), "wifi.connection"@, parts[3])
    } else if parts[1] == "ethernet"@ {
        with_text(
            with_text(list, "ethernet.interface"@, parts[0]),
            "ethernet.connection"@,
            parts[3],
        )
    } else if parts[1] == "gsm"@ {
        with_text(with_text(list, "gsm.interface"@, parts[0]), "gsm.connection"@, parts[3])
    } else {
        list
    }
}

/// `list` after the lines `lines` of the device table, taken in order.
pub open spec fn with_devices(list: Entries, lines: Seq<Seq<char>>) -> Entries
    decreases lines.len(),
{
    if lines.len() == 0 {
        list
    } else {
        with_device(with_devices(list, lines.drop_last()), lines.last())
    }
}

/// `list` after the listing `lines` of battery capacity files: the first
/// line, without the whitespace around it, is the path of the capacity, and
/// the path of the status is that path with `/status` for `/capacity`.
pub open spec fn with_battery(list: Entries, lines: Seq<Seq<char>>) -> Entries {
    if lines.len() == 0 {
        list
    } else {
        with_text(
            with_text(list, "battery.capacity"@, trimmed(lines[0])),
            "battery.status"@,
            replaced(trimmed(lines[0]), "/capacity"@, "/status"@),
        )
    }
}

/// The path of the reading that belongs to the label at `label`.
pub open spec fn input_path(label: Seq<char>) -> Seq<char> {
    replaced(label, "_label"@, ""@) + "_input"@
}

/// The path of the fan reading beside the temperature reading at `path`.
pub open spec fn fan_path(path: Seq<char>) -> Seq<char> {
    replaced(path, "temp"@, "fan"@)
}

/// `list` after the labels `labels`, taken in order: each notes the path of
/// its temperature under `temp_key` and that of its fan under `fan_key`, so
/// that the last label decides.
pub open spec fn with_sensor_paths(
    list: Entries,
    labels: Entries,
    temp_key: Seq<char>,
    fan_key: Seq<char>,
) -> Entries
    decreases labels.len(),
{
    if labels.len() == 0 {
        list
    } else {
        with_text(
            with_text(
                with_sensor_paths(list, labels.drop_last(), temp_key, fan_key),
                temp_key,
                input_path(labels.last().0),
            ),
            fan_key,
            fan_path(input_path(labels.last().0)),
        )
    }
}

/// The name under which the graphics processor `index` notes its `what`.
pub open spec fn gpu_key(index: nat, what: Seq<char>) -> Seq<char> {
    "gpu["@ + decimal_chars(index) + "]."@ + what
}

/// The model's name in what the device database printed.
pub open spec fn model_name(printed: Seq<char>) -> Seq<char> {
    if printed.len() >= MODEL_PREFIX {
        printed.subrange(MODEL_PREFIX as int, printed.len() as int)
    } else {
        Seq::empty()
    }
}

/// `list` after the graphics processors `found`, each a path of its load and
/// what the device database printed of it; the first of them gets the number
/// `first`.
pub open spec fn with_gpus(
    list: Entries,
    found: Seq<(Seq<char>, Seq<char>)>,
    first: nat,
) -> Entries
    decreases found.len(),
{
    if found.len() == 0 {
        list
    } else {
        let index = (first + found.len() - 1) as nat;
        with_text(
            with_text(
                with_gpus(list, found.drop_last(), first),
                gpu_key(index, "usage"@),
                trimmed(found.last().0),
            ),
            gpu_key(index, "model"@),
            model_name(found.last().1),
        )
    }
}

/// The pairs of texts that the pairs of strings of `found` hold.
pub open spec fn text_pairs(found: Seq<(String, String)>) -> Seq<(Seq<char>, Seq<char>)> {
    Seq::new(found.len(), |i: int| (found[i].0@, found[i].1@))
}

/// Notes the connected devices that the network manager's device table
/// `lines` lists.
pub fn detect_network(detected: Detected, lines: &Vec<String>) -> (result: Detected)
    ensures
        result@ == with_devices(detected@, texts(lines@)),
        distinct_keys(detected@) ==> distinct_keys(result@),
{
    let mut detected: Detected = detected;
    let ghost start = detected@;
    let mut i: usize = 0;
    assert(texts(lines@).take(0) =~= Seq::<Seq<char>>::empty());
    while i < lines.len()
        invariant
            i <= lines@.len(),
            detected@ == with_devices(start, texts(lines@).take(i as int)),
            distinct_keys(start) ==> distinct_keys(detected@),
        decreases lines@.len() - i,
    {
        proof {
            let next = texts(lines@).take(i + 1);
            assert(next.drop_last() =~= texts(lines@).take(i as int));
            assert(next.last() == lines@[i as int]@);
        }
        let parts: Vec<String> = split_words(lines[i].as_str());
        if parts.len() >= 4 && str_eq(parts[2].as_str(), "connected") {
            let kind: &str = parts[1].as_str();
            if str_eq(kind, "wifi") {
                self::add(&mut detected, "wifi.interface", parts[0].as_str());
                self::add(&mut detected, "wifi.connection", parts[3].as_str());
            } else if str_eq(kind, "ethernet") {
                self::add(&mut detected, "ethernet.interface", parts[0].as_str());
                self::add(&mut detected, "ethernet.connection", parts[3].as_str());
            } else if str_eq(kind, "gsm") {
                self::add(&mut detected, "gsm.interface", parts[0].as_str());
                self::add(&mut detected, "gsm.connection", parts[3].as_str());
            }
        }
        i += 1;
    }
    assert(texts(lines@).take(i as int) =~= texts(lines@));
    detected
}

/// Notes where the battery's capacity and status are read, from the listing
/// `lines` of capacity files.
pub fn detect_battery(map: Detected, lines: &Vec<String>) -> (result: Detected)
    ensures
        result@ == with_battery(map@, texts(lines@)),
        distinct_keys(map@) ==> distinct_keys(result@),
{
    let mut map: Detected = map;
    if lines.len() > 0 {
        let path: String = trim(lines[0].as_str());
        let status: String = replace(path.as_str(), "/capacity", "/status");
        self::add(&mut map, "battery.capacity", path.as_str());
        self::add(&mut map, "battery.status", status.as_str());
    }
    map
}

/// Notes, for each of `labels`, the paths of the temperature and of the fan
/// that belong to it.
pub fn add_sensor_paths(detected: &mut Detected, labels: &Detected, temp_key: &str, fan_key: &str)
    ensures
        final(detected)@ == with_sensor_paths(old(detected)@, labels@, temp_key@, fan_key@),
        distinct_keys(old(detected)@) ==> distinct_keys(final(detected)@),
{
    let mut i: usize = 0;
    assert(labels@.take(0) =~= Entries::empty());
    while i < labels.len()
        invariant
            i <= labels@.len(),
            detected@ == with_sensor_paths(
                old(detected)@,
                labels@.take(i as int),
                temp_key@,
                fan_key@,
            ),
            distinct_keys(old(detected)@) ==> distinct_keys(detected@),
        decreases labels@.len() - i,
    {
        proof {
            let next = labels@.take(i + 1);
            assert(next.drop_last() =~= labels@.take(i as int));
            assert(next.last() == labels@[i as int]);
        }
        let mut temp: String = replace(labels.key_at(i).as_str(), "_label", "");
        temp.append("_input");
        let fan: String = replace(temp.as_str(), "temp", "fan");
        self::add(detected, temp_key, temp.as_str());
        self::add(detected, fan_key, fan.as_str());
        i += 1;
    }
    assert(labels@.take(i as int) =~= labels@);
}

/// The directory that `path` lies in, if it lies in one.
pub fn dirname(path: &str) -> (parent: Option<String>)
    ensures
        match parent {
            Some(text) => path_parent(path@) == Some(text@),
            None => path_parent(path@) is None,
        },
{
    parent_of(path)
}

/// The name under which the graphics processor `index` notes its `what`.
fn gpu_key_of(index: u64, what: &str) -> (key: String)
    ensures
        key@ == gpu_key(index as nat, what@),
{
    let mut key: String = String::from_str("gpu[");
    key.append(format_u64(index).as_str());
    key.append("].");
    key.append(what);
    key
}

/// The model's name in what the device database printed.
fn model_name_of(printed: &str) -> (name: String)
    ensures
        name@ == model_name(printed@),
{
    let length: usize = printed.unicode_len();
    if length >= MODEL_PREFIX {
        String::from_str(printed.substring_char(MODEL_PREFIX, length))
    } else {
        String::new()
    }
}

/// The pattern that the label of a processor's temperature sensor matches.
pub open spec fn cpu_pattern() -> Seq<char> {
    "coretemp|k10temp|cpu|CPU"@
}

/// The pattern that the label of a graphics processor's temperature sensor
/// matches.
pub open spec fn gpu_pattern() -> Seq<char> {
    "amdgpu|nouveau|nvidia|intel|GPU"@
}

/// `list` after the sensor labels `labels`: those that the processor's
/// pattern matches note the processor's temperature and fan, then those that
/// the graphics processor's pattern matches note the graphics processor's.
pub open spec fn with_labels(
    list: Entries,
    labels: Entries,
) -> Entries {
    with_sensor_paths(
        with_sensor_paths(
            list,
            kept(labels, matches_of(labels, cpu_pattern())),
            "cpu.temp"@,
            "cpu.fan"@,
        ),
        kept(labels, matches_of(labels, gpu_pattern())),
        "gpu.temp"@,
        "gpu.fan"@,
    )
}

/// Notes where the temperatures and fans of the processor and of the
/// graphics processor are read, from the sensor labels `labels`: each a path
/// of a label file with what the file holds.
pub fn detect_labels(detected: Detected, labels: &Detected) -> (result: Result<
    Detected,
    SensorError,
>)
    ensures
        match result {
            Ok(found) => regex_compiles(cpu_pattern()) && regex_compiles(gpu_pattern())
                && found@ == with_labels(detected@, labels@) && (distinct_keys(detected@)
                ==> distinct_keys(found@)),
            Err(error) => error == SensorError::BadPattern && !(regex_compiles(cpu_pattern())
                && regex_compiles(gpu_pattern())),
        },
{
    let mut detected: Detected = detected;
    let processors: Detected = match match_regex("coretemp|k10temp|cpu|CPU", labels) {
        Ok(found) => found,
        Err(error) => {
            return Err(error);
        },
    };
    let graphics: Detected = match match_regex("amdgpu|nouveau|nvidia|intel|GPU", labels) {
        Ok(found) => found,
        Err(error) => {
            return Err(error);
        },
    };
    add_sensor_paths(&mut detected, &processors, "cpu.temp", "cpu.fan");
    add_sensor_paths(&mut detected, &graphics, "gpu.temp", "gpu.fan");
    Ok(detected)
}

/// The number of graphics processors that `list` counts, or why it counts
/// none: the count is missing, or it is no number.
pub open spec fn gpu_count(list: Entries) -> Result<u64, SensorError> {
    match lookup(list, "gpu.count"@) {
        None => Err(SensorError::MissingField),
        Some(value) => match value.number() {
            None => Err(SensorError::NotANumber),
            Some(count) => Ok(count),
        },
    }
}

/// The number of graphics processors that `detected` counts.
fn gpu_count_of(detected: &Detected) -> (result: Result<u64, SensorError>)
    ensures
        result == gpu_count(detected@),
{
    match detected.get("gpu.count") {
        None => Err(SensorError::MissingField),
        Some(value) => match value.to_u64() {
            None => Err(SensorError::NotANumber),
            Some(count) => Ok(count),
        },
    }
}

/// What noting the graphics processors `found` gives: the registry with each
/// of them under the next free number and the new count, or why not. The
/// count must be there, be a number, and stay within 64 bits.
pub open spec fn gpus_outcome(
    list: Entries,
    found: Seq<(Seq<char>, Seq<char>)>,
) -> Result<Entries, SensorError> {
    match gpu_count(list) {
        Err(error) => Err(error),
        Ok(count) => if count + found.len() > u64::MAX {
            Err(SensorError::Overflow)
        } else {
            Ok(
                upserted(
                    with_gpus(list, found, count as nat),
                    "gpu.count"@,
                    ValueView::U64((count + found.len()) as u64),
                ),
            )
        },
    }
}

/// Notes the graphics processors `found`, each a path of its load and what
/// the device database printed of it, and counts them.
pub fn detect_amdgpu(detected: Detected, found: &Vec<(String, String)>) -> (result: Result<
    Detected,
    SensorError,
>)
    ensures
        match result {
            Ok(after) => gpus_outcome(detected@, text_pairs(found@)) == Ok::<
                Entries,
                SensorError,
            >(after@) && (distinct_keys(detected@) ==> distinct_keys(after@)),
            Err(error) => gpus_outcome(detected@, text_pairs(found@)) == Err::<
                Entries,
                SensorError,
            >(error),
        },
{
    let mut detected: Detected = detected;
    let ghost start = detected@;
    let first: u64 = match gpu_count_of(&detected) {
        Ok(count) => count,
        Err(error) => {
            return Err(error);
        },
    };
    if found.len() as u64 > u64::MAX - first {
        return Err(SensorError::Overflow);
    }
    let mut i: usize = 0;
    assert(text_pairs(found@).take(0) =~= Seq::<(Seq<char>, Seq<char>)>::empty());
    while i < found.len()
        invariant
            i <= found@.len(),
            first + found@.len() <= u64::MAX,
            detected@ == with_gpus(start, text_pairs(found@).take(i as int), first as nat),
            distinct_keys(start) ==> distinct_keys(detected@),
        decreases found@.len() - i,
    {
        proof {
            let next = text_pairs(found@).take(i + 1);
            assert(next.drop_last() =~= text_pairs(found@).take(i as int));
            assert(next.last() == (found@[i as int].0@, found@[i as int].1@));
        }
        let index: u64 = first + i as u64;
        let path: String = trim(found[i].0.as_str());
        let model: String = model_name_of(found[i].1.as_str());
        self::add(&mut detected, gpu_key_of(index, "usage").as_str(), path.as_str());
        self::add(&mut detected, gpu_key_of(index, "model").as_str(), model.as_str());
        i += 1;
    }
    assert(text_pairs(found@).take(i as int) =~= text_pairs(found@));
    detected.insert(String::from_str("gpu.count"), Value::U64(first + found.len() as u64));
    Ok(detected)
}

/// `old` or, where `list` holds something under `key`, that as text.
pub open spec fn path_after(old: Seq<char>, list: Entries, key: Seq<char>) -> Seq<char> {
    match lookup(list, key) {
        Some(value) => value.text(),
        None => old,
    }
}

/// `allowed` or, where `list` holds an interface under `key`, `allowed` with
/// that interface watched as one of kind `kind`.
pub open spec fn allowed_after(
    allowed: Seq<(Seq<char>, NetworkInterfaceView)>,
    list: Entries,
    key: Seq<char>,
    kind: Seq<char>,
) -> Seq<(Seq<char>, NetworkInterfaceView)> {
    match lookup(list, key) {
        Some(value) => upserted(
            allowed,
            value.text(),
            NetworkInterfaceView { type_: kind, icon: Seq::empty() },
        ),
        None => allowed,
    }
}

/// How taking in what was found ends: where a graphics processor's load was
/// found, the count of graphics processors must be there, be a number and
/// be no more than a vector can hold.
pub open spec fn detect_outcome(list: Entries) -> Result<(), SensorError> {
    if lookup(list, "gpu[0].usage"@) is None {
        Ok(())
    } else {
        match gpu_count(list) {
            Err(error) => Err(error),
            Ok(count) => if count > usize::MAX {
                Err(SensorError::TooManyRows)
            } else {
                Ok(())
            },
        }
    }
}

/// The snapshot after it took in what was found: the paths that were found
/// replace those it had, a graphics processor that was found gets its path
/// and a zero load for each one counted, and the wired and the wireless
/// interface that were found are watched.
pub open spec fn after_detect(sensors: SensorsView, list: Entries) -> SensorsView {
    SensorsView {
        cpu_temp_path: path_after(sensors.cpu_temp_path, list, "cpu.temp"@),
        gpu_temp_path: path_after(sensors.gpu_temp_path, list, "gpu.temp"@),
        cpu_fan_path: path_after(sensors.cpu_fan_path, list, "cpu.fan"@),
        gpu_fan_path: path_after(sensors.gpu_fan_path, list, "gpu.fan"@),
        gpu_load_path: path_after(sensors.gpu_load_path, list, "gpu[0].usage"@),
        gpu_load: if lookup(list, "gpu[0].usage"@) is Some {
            Seq::new(gpu_count(list)->Ok_0 as nat, |i: int| 0u8)
        } else {
            sensors.gpu_load
        },
        net_allowed: allowed_after(
            allowed_after(sensors.net_allowed, list, "ethernet.interface"@, "ethernet"@),
            list,
            "wifi.interface"@,
            "wifi"@,
        ),
        bat_capacity_path: path_after(sensors.bat_capacity_path, list, "battery.capacity"@),
        bat_status_path: path_after(sensors.bat_status_path, list, "battery.status"@),
        ..sensors
    }
}

/// Taking in what was found keeps a well-formed snapshot well formed, and
/// touches neither a row nor a gauge.
pub proof fn lemma_detect_keeps_rows(sensors: SensorsView, list: Entries)
    ensures
        sensors.wf() ==> after_detect(sensors, list).wf(),
        after_detect(sensors, list).row_table() == sensors.row_table(),
        after_detect(sensors, list).cpu_load == sensors.cpu_load,
        after_detect(sensors, list).net_rx == sensors.net_rx,
        after_detect(sensors, list).net_tx == sensors.net_tx,
        after_detect(sensors, list).mem == sensors.mem,
{
}

/// The index of the entry of `allowed` with the name `name`, or the number
/// of entries where there is none.
fn allowed_position(allowed: &Vec<(String, NetworkInterface)>, name: &str) -> (index: usize)
    ensures
        index == find(interfaces(allowed@), name@),
{
    let mut i: usize = 0;
    while i < allowed.len()
        invariant
            i <= allowed@.len(),
            find(interfaces(allowed@), name@) == find_from(interfaces(allowed@), name@, i as int),
        decreases allowed@.len() - i,
    {
        if str_eq(allowed[i].0.as_str(), name) {
            return i;
        }
        i += 1;
    }
    i
}

/// Watches the interface `name`: in the place of the entry with that name, or
/// at the end where the name is new.
pub fn watch(
    allowed: &mut Vec<(String, NetworkInterface)>,
    name: String,
    interface: NetworkInterface,
)
    ensures
        interfaces(final(allowed)@) == upserted(interfaces(old(allowed)@), name@, interface@),
        distinct_keys(interfaces(old(allowed)@)) ==> distinct_keys(
            interfaces(final(allowed)@),
        ),
{
    proof {
        if distinct_keys(interfaces(allowed@)) {
            lemma_upserted(interfaces(allowed@), name@, interface@, name@);
        }
    }
    let index: usize = allowed_position(allowed, name.as_str());
    let ghost before = interfaces(allowed@);
    if index < allowed.len() {
        allowed[index] = (name, interface);
    } else {
        allowed.push((name, interface));
    }
    assert(interfaces(allowed@) =~= upserted(before, name@, interface@));
}

/// The path under `key`, if one was found.
fn found_path(detected: &Detected, key: &str) -> (path: Option<String>)
    ensures
        match path {
            Some(text) => lookup(detected@, key@) is Some && text@ == lookup(
                detected@,
                key@,
            )->0.text(),
            None => lookup(detected@, key@) is None,
        },
{
    match detected.get(key) {
        Some(value) => Some(value.to_string()),
        None => None,
    }
}

/// Takes what was found into the snapshot. What is refused changes nothing.
pub fn detect(sensors: &mut Sensors, detected: &Detected) -> (result: Result<(), SensorError>)
    ensures
        result == detect_outcome(detected@),
        result is Ok ==> final(sensors)@ == after_detect(old(sensors)@, detected@),
        result is Err ==> final(sensors)@ == old(sensors)@,
        distinct_keys(old(sensors)@.net_allowed) ==> distinct_keys(final(sensors)@.net_allowed),
{
    let gpu_path: Option<String> = found_path(detected, "gpu[0].usage");
    let mut gpus: usize = 0;
    if gpu_path.is_some() {
        match gpu_count_of(detected) {
            Err(error) => {
                return Err(error);
            },
            Ok(count) => {
                if count > usize::MAX as u64 {
                    return Err(SensorError::TooManyRows);
                }
                gpus = count as usize;
            },
        }
    }
    if let Some(path) = found_path(detected, "cpu.temp") {
        sensors.cpu_temp_path = path;
    }
    if let Some(path) = found_path(detected, "gpu.temp") {
        sensors.gpu_temp_path = path;
    }
    if let Some(path) = found_path(detected, "cpu.fan") {
        sensors.cpu_fan_path = path;
    }
    if let Some(path) = found_path(detected, "gpu.fan") {
        sensors.gpu_fan_path = path;
    }
    if let Some(path) = gpu_path {
        let mut load: Vec<u8> = Vec::new();
        while load.len() < gpus
            invariant
                load@.len() <= gpus,
                forall|k: int| 0 <= k < load@.len() ==> load@[k] == 0u8,
            decreases gpus - load@.len(),
        {
            load.push(0u8);
        }
        assert(load@ =~= Seq::new(gpus as nat, |i: int| 0u8));
        sensors.gpu_load_path = path;
        sensors.gpu_load = load;
    }
    if let Some(name) = found_path(detected, "ethernet.interface") {
        watch(
            &mut sensors.net_allowed,
            name,
            NetworkInterface { type_: String::from_str("ethernet"), icon: String::new() },
        );
    }
    if let Some(name) = found_path(detected, "wifi.interface") {
        watch(
            &mut sensors.net_allowed,
            name,
            NetworkInterface { type_: String::from_str("wifi"), icon: String::new() },
        );
    }
    if let Some(path) = found_path(detected, "battery.capacity") {
        sensors.bat_capacity_path = path;
    }
    if let Some(path) = found_path(detected, "battery.status") {
        sensors.bat_status_path = path;
    }
    Ok(())
}

} // verus!
