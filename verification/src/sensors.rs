//! The sensor snapshot: the latest usage byte of every metric, and what is
//! needed to compute the next one.

use crate::counters::{
    mem_info, net_samples, cpu_samples, parse_cpu, parse_memory, parse_network, CpuTimes, MemInfo,
    NetCounters,
};
use crate::error::SensorError;
use crate::normalize::{
    cpu_usage, cpu_usage_of, delta, larger, lemma_cpu_usage_bounded, lemma_net_usage_bounded,
    net_usage, net_usage_of, running_max_of, scale, scaled, Throughput, BATTERY_RANGE, FAN_RANGE,
    FULL_SCALE, TEMPERATURE_RANGE,
};
use crate::rows::{Metric, RowTable, EXTRA_ROWS};
use crate::text::{bytes_eq, views};
use vstd::prelude::*;
use vstd::slice::slice_to_vec;
use vstd::utf8::encode_utf8;

verus! {

/// The most rows of one kind that the snapshot counts; beyond it the count
/// stays at this number, which alone is more than the history table holds.
pub const MAX_ROWS: usize = 255;

/// What is known of a network interface that is watched.
#[derive(Debug, Clone)]
pub struct NetworkInterface {
    /// The kind of link, such as `ethernet` or `wifi`.
    pub type_: String,
    /// The icon shown for it.
    pub icon: String,
}

/// A watched interface as plain values.
pub struct NetworkInterfaceView {
    pub type_: Seq<char>,
    pub icon: Seq<char>,
}

impl View for NetworkInterface {
    type V = NetworkInterfaceView;

    open spec fn view(&self) -> NetworkInterfaceView {
        NetworkInterfaceView { type_: self.type_@, icon: self.icon@ }
    }
}

/// Where the temperatures are read.
#[derive(Debug, Clone)]
pub struct Temperature {
    /// Path of the processor's temperature.
    pub cpu: String,
    /// Path of the graphics processor's temperature.
    pub gpu: String,
}

/// Where the fan speeds are read.
#[derive(Debug, Clone)]
pub struct Fans {
    /// Path of the processor's fan speed.
    pub cpu: String,
    /// Path of the graphics processor's fan speed.
    pub gpu: String,
}

/// The raw readings of one slow cycle. A reading that could not be had is
/// `None`, and the gauge it feeds keeps its value.
#[derive(Debug, Clone)]
pub struct LowFreqReadings {
    /// Speed of the processor's fan.
    pub cpu_fan: Option<u64>,
    /// Speed of the graphics processor's fan.
    pub gpu_fan: Option<u64>,
    /// Temperature of the processor.
    pub cpu_temp: Option<u64>,
    /// Temperature of the graphics processor.
    pub gpu_temp: Option<u64>,
    /// Charge of the battery in percent.
    pub battery_percentage: Option<u64>,
    /// State of the battery, as the system words it.
    pub battery_status: Option<String>,
    /// Load of the graphics processor in percent.
    pub gpu_load: Option<u64>,
}

/// The three tables of a fast cycle.
#[derive(Clone, Copy, Debug, PartialEq, Eq, Structural)]
pub enum Table {
    /// The processor table.
    Cpu,
    /// The network table.
    Net,
    /// The memory table.
    Mem,
}

/// How the three parts of a fast cycle ended.
#[derive(Clone, Copy, Debug)]
pub struct ReadOutcome {
    /// The processor table.
    pub cpu: Result<(), SensorError>,
    /// The network table.
    pub net: Result<(), SensorError>,
    /// The memory table.
    pub mem: Result<(), SensorError>,
}

/// The live state of the sampling subsystem.
#[derive(Debug, Clone)]
pub struct Sensors {
    /// Hour of the day at the last fast cycle.
    pub hour: u8,
    /// Minute of the hour at the last fast cycle.
    pub minute: u8,
    /// Second of the minute at the last fast cycle.
    pub second: u8,
    /// Where it is read whether mains power is connected.
    pub bat_ac_connected_path: String,
    /// Whether mains power is connected.
    pub bat_ac_connected: u8,
    /// Where the battery's charge is read.
    pub bat_capacity_path: String,
    /// Where the battery's state is read.
    pub bat_status_path: String,
    /// One while the battery charges, else zero.
    pub bat_status: u8,
    /// The battery's charge.
    pub bat: u8,
    /// Processor rows.
    pub cpu_count: u8,
    /// Where the speed of the processor's fan is read.
    pub cpu_fan_path: String,
    /// Speed of the processor's fan.
    pub cpu_fan: u8,
    /// Idle time of each core at its last reading.
    pub cpu_last_idle: Vec<u64>,
    /// Total time of each core at its last reading.
    pub cpu_last_total: Vec<u64>,
    /// Usage of each core.
    pub cpu_load: Vec<u8>,
    /// Where the processor's temperature is read.
    pub cpu_temp_path: String,
    /// Temperature of the processor.
    pub cpu_temp: u8,
    /// Load of each graphics processor.
    pub gpu_load: Vec<u8>,
    /// Where the load of the first graphics processor is read.
    pub gpu_load_path: String,
    /// Where the speed of the graphics processor's fan is read.
    pub gpu_fan_path: String,
    /// Speed of the graphics processor's fan.
    pub gpu_fan: u8,
    /// Where the graphics processor's temperature is read.
    pub gpu_temp_path: String,
    /// Temperature of the graphics processor.
    pub gpu_temp: u8,
    /// Shares of all memory: used, buffers, cached, free.
    pub mem: Vec<u8>,
    /// The interfaces that are watched, by name. Of two entries with one name
    /// the first counts.
    pub net_allowed: Vec<(String, NetworkInterface)>,
    /// Interface rows.
    pub net_count: u8,
    /// Receive counter of each interface at its last reading.
    pub net_last_rx: Vec<u64>,
    /// Transmit counter of each interface at its last reading.
    pub net_last_tx: Vec<u64>,
    /// Largest receive throughput of each interface so far.
    pub net_max_rx: Vec<u64>,
    /// Largest transmit throughput of each interface so far.
    pub net_max_tx: Vec<u64>,
    /// Receive usage of each interface.
    pub net_rx: Vec<u8>,
    /// Transmit usage of each interface.
    pub net_tx: Vec<u8>,
}

/// The snapshot as plain values.
pub struct SensorsView {
    pub hour: u8,
    pub minute: u8,
    pub second: u8,
    pub bat_ac_connected_path: Seq<char>,
    pub bat_ac_connected: u8,
    pub bat_capacity_path: Seq<char>,
    pub bat_status_path: Seq<char>,
    pub bat_status: u8,
    pub bat: u8,
    pub cpu_count: u8,
    pub cpu_fan_path: Seq<char>,
    pub cpu_fan: u8,
    pub cpu_last_idle: Seq<u64>,
    pub cpu_last_total: Seq<u64>,
    pub cpu_load: Seq<u8>,
    pub cpu_temp_path: Seq<char>,
    pub cpu_temp: u8,
    pub gpu_load: Seq<u8>,
    pub gpu_load_path: Seq<char>,
    pub gpu_fan_path: Seq<char>,
    pub gpu_fan: u8,
    pub gpu_temp_path: Seq<char>,
    pub gpu_temp: u8,
    pub mem: Seq<u8>,
    pub net_allowed: Seq<(Seq<char>, NetworkInterfaceView)>,
    pub net_count: u8,
    pub net_last_rx: Seq<u64>,
    pub net_last_tx: Seq<u64>,
    pub net_max_rx: Seq<u64>,
    pub net_max_tx: Seq<u64>,
    pub net_rx: Seq<u8>,
    pub net_tx: Seq<u8>,
}

impl View for Sensors {
    type V = SensorsView;

    open spec fn view(&self) -> SensorsView {
        SensorsView {
            hour: self.hour,
            minute: self.minute,
            second: self.second,
            bat_ac_connected_path: self.bat_ac_connected_path@,
            bat_ac_connected: self.bat_ac_connected,
            bat_capacity_path: self.bat_capacity_path@,
            bat_status_path: self.bat_status_path@,
            bat_status: self.bat_status,
            bat: self.bat,
            cpu_count: self.cpu_count,
            cpu_fan_path: self.cpu_fan_path@,
            cpu_fan: self.cpu_fan,
            cpu_last_idle: self.cpu_last_idle@,
            cpu_last_total: self.cpu_last_total@,
            cpu_load: self.cpu_load@,
            cpu_temp_path: self.cpu_temp_path@,
            cpu_temp: self.cpu_temp,
            gpu_load: self.gpu_load@,
            gpu_load_path: self.gpu_load_path@,
            gpu_fan_path: self.gpu_fan_path@,
            gpu_fan: self.gpu_fan,
            gpu_temp_path: self.gpu_temp_path@,
            gpu_temp: self.gpu_temp,
            mem: self.mem@,
            net_allowed: interfaces(self.net_allowed@),
            net_count: self.net_count,
            net_last_rx: self.net_last_rx@,
            net_last_tx: self.net_last_tx@,
            net_max_rx: self.net_max_rx@,
            net_max_tx: self.net_max_tx@,
            net_rx: self.net_rx@,
            net_tx: self.net_tx@,
        }
    }
}

/// The value of row `row` where `rows` has such a row, else zero: a row that
/// is new starts from a zero baseline.
pub open spec fn baseline(rows: Seq<u64>, row: int) -> u64 {
    if 0 <= row < rows.len() {
        rows[row]
    } else {
        0
    }
}

/// The byte of row `row` where `rows` has such a row, else zero.
pub open spec fn byte_at(rows: Seq<u8>, row: int) -> u8 {
    if 0 <= row < rows.len() {
        rows[row]
    } else {
        0
    }
}

/// `rows` with `fresh` laid over its front and grown to `count` rows with
/// `fill`. No row is ever dropped: a row that `fresh` does not reach keeps its
/// value.
pub open spec fn overlaid<T>(rows: Seq<T>, fresh: Seq<T>, count: int, fill: T) -> Seq<T> {
    Seq::new(
        larger(larger(rows.len() as int, count), fresh.len() as int) as nat,
        |i: int|
            if i < fresh.len() {
                fresh[i]
            } else if i < rows.len() {
                rows[i]
            } else {
                fill
            },
    )
}

/// The total time of each core in `samples`.
pub open spec fn totals(samples: Seq<CpuTimes>) -> Seq<u64> {
    Seq::new(samples.len(), |i: int| samples[i].total)
}

/// The idle time of each core in `samples`.
pub open spec fn idles(samples: Seq<CpuTimes>) -> Seq<u64> {
    Seq::new(samples.len(), |i: int| samples[i].idle)
}

/// The receive counter of each interface in `samples`.
pub open spec fn received(samples: Seq<NetCounters>) -> Seq<u64> {
    Seq::new(samples.len(), |i: int| samples[i].rx)
}

/// The transmit counter of each interface in `samples`.
pub open spec fn transmitted(samples: Seq<NetCounters>) -> Seq<u64> {
    Seq::new(samples.len(), |i: int| samples[i].tx)
}

/// The usage byte of each counter in `current` against the baseline and the
/// running maximum of its row.
pub open spec fn throughputs(current: Seq<u64>, last: Seq<u64>, max: Seq<u64>) -> Seq<u8> {
    Seq::new(
        current.len(),
        |i: int|
            net_usage_of(
                current[i] as int,
                baseline(last, i) as int,
                baseline(max, i) as int,
            ) as u8,
    )
}

/// The running maximum of each row after the counters `current`.
pub open spec fn maxima(current: Seq<u64>, last: Seq<u64>, max: Seq<u64>) -> Seq<u64> {
    Seq::new(
        current.len(),
        |i: int|
            running_max_of(
                current[i] as int,
                baseline(last, i) as int,
                baseline(max, i) as int,
            ) as u64,
    )
}

/// The usage of memory that is neither free, nor in buffers, nor cached; zero
/// where the three exceed the total.
pub open spec fn used_memory(info: MemInfo) -> int {
    let used = info.total - info.free - info.buffers - info.cached;
    if used < 0 {
        0
    } else {
        used
    }
}

/// The four memory bytes: used, buffers, cached and free, each as a share of
/// all memory.
pub open spec fn mem_fractions(info: MemInfo) -> Seq<u8> {
    seq![
        scaled(used_memory(info), info.total as int) as u8,
        scaled(info.buffers as int, info.total as int) as u8,
        scaled(info.cached as int, info.total as int) as u8,
        scaled(info.free as int, info.total as int) as u8,
    ]
}

/// A fixed-range gauge after a reading: the reading scaled, or the old value
/// where there was no reading.
pub open spec fn gauge_after(old: u8, reading: Option<u64>, range: u64) -> u8 {
    match reading {
        Some(raw) => scaled(raw as int, range as int) as u8,
        None => old,
    }
}

/// A percentage as a byte; what exceeds a byte saturates.
pub open spec fn saturated(raw: u64) -> u8 {
    if raw > FULL_SCALE {
        FULL_SCALE
    } else {
        raw as u8
    }
}

/// The watched interfaces as plain values: name and what is known of it.
pub open spec fn interfaces(allowed: Seq<(String, NetworkInterface)>) -> Seq<
    (Seq<char>, NetworkInterfaceView),
> {
    Seq::new(allowed.len(), |i: int| (allowed[i].0@, allowed[i].1@))
}

/// `rows` as the snapshot counts it: the number itself up to 255, and 255 for
/// every larger number.
pub open spec fn counted(rows: int) -> u8 {
    if rows > MAX_ROWS {
        MAX_ROWS as u8
    } else if rows < 0 {
        0
    } else {
        rows as u8
    }
}

/// The names of the watched interfaces, as the bytes that the network table
/// writes them with.
pub open spec fn allowed_names(allowed: Seq<(Seq<char>, NetworkInterfaceView)>) -> Seq<Seq<u8>> {
    Seq::new(allowed.len(), |i: int| encode_utf8(allowed[i].0))
}

impl SensorsView {
    /// Whether the snapshot is well formed: every processor vector has one
    /// entry per processor row, every interface vector one per interface
    /// row, the two counts count the rows, and there are four memory bytes.
    pub open spec fn wf(self) -> bool {
        &&& self.cpu_count == counted(self.cpu_load.len() as int)
        &&& self.cpu_last_total.len() == self.cpu_load.len()
        &&& self.cpu_last_idle.len() == self.cpu_load.len()
        &&& self.net_count == counted(self.net_rx.len() as int)
        &&& self.net_tx.len() == self.net_rx.len()
        &&& self.net_last_rx.len() == self.net_rx.len()
        &&& self.net_last_tx.len() == self.net_rx.len()
        &&& self.net_max_rx.len() == self.net_rx.len()
        &&& self.net_max_tx.len() == self.net_rx.len()
        &&& self.mem.len() == 4
    }

    /// The assignment of history rows that the snapshot's cardinalities fix.
    pub open spec fn row_table(self) -> RowTable {
        RowTable { cpus: self.cpu_count, nets: self.net_count }
    }

    /// Whether a graphics processor is watched and has reported its load.
    pub open spec fn has_gpu(self) -> bool {
        self.gpu_load_path.len() > 0 && self.gpu_load.len() > 0
    }

    /// Whether `metric` has a byte to show: each has but the load of a
    /// graphics processor that is not there.
    pub open spec fn shows(self, metric: Metric) -> bool {
        metric != Metric::GpuLoad || self.has_gpu()
    }

    /// The latest usage byte of `metric`; of an interface, the usage of what
    /// it receives.
    pub open spec fn value_of(self, metric: Metric) -> u8 {
        match metric {
            Metric::Cpu(core) => byte_at(self.cpu_load, core as int),
            Metric::GpuLoad => byte_at(self.gpu_load, 0),
            Metric::CpuTemp => self.cpu_temp,
            Metric::GpuTemp => self.gpu_temp,
            Metric::CpuFan => self.cpu_fan,
            Metric::GpuFan => self.gpu_fan,
            Metric::Net(interface) => byte_at(self.net_rx, interface as int),
        }
    }

    /// Processor rows after a reading of `samples` cores.
    pub open spec fn cpu_rows(self, samples: Seq<CpuTimes>) -> int {
        larger(self.cpu_load.len() as int, samples.len() as int)
    }

    /// The usage of each core in `samples` against the baseline that the
    /// snapshot holds for its row.
    pub open spec fn cpu_usages(self, samples: Seq<CpuTimes>) -> Seq<u8> {
        Seq::new(
            samples.len(),
            |i: int|
                cpu_usage_of(
                    samples[i].total as int,
                    samples[i].idle as int,
                    baseline(self.cpu_last_total, i) as int,
                    baseline(self.cpu_last_idle, i) as int,
                ) as u8,
        )
    }

    /// The snapshot after the cores reported `samples`: row `i` gets the usage
    /// of core `i` and its counters as the new baseline; rows beyond the
    /// cores that reported keep what they had.
    pub open spec fn after_cpu(self, samples: Seq<CpuTimes>) -> SensorsView {
        let rows = self.cpu_rows(samples);
        SensorsView {
            cpu_count: counted(rows),
            cpu_load: overlaid(self.cpu_load, self.cpu_usages(samples), rows, 0),
            cpu_last_total: overlaid(self.cpu_last_total, totals(samples), rows, 0),
            cpu_last_idle: overlaid(self.cpu_last_idle, idles(samples), rows, 0),
            ..self
        }
    }

    /// Interface rows after a reading of `samples` interfaces.
    pub open spec fn net_rows(self, samples: Seq<NetCounters>) -> int {
        larger(self.net_rx.len() as int, samples.len() as int)
    }

    /// The snapshot after the watched interfaces reported `samples`: row `i`
    /// gets the usage of both directions of interface `i`, its counters as the
    /// new baseline and its running maxima, which never fall; rows beyond the
    /// interfaces that reported keep what they had.
    pub open spec fn after_network(self, samples: Seq<NetCounters>) -> SensorsView {
        let rows = self.net_rows(samples);
        let rx = received(samples);
        let tx = transmitted(samples);
        SensorsView {
            net_count: counted(rows),
            net_rx: overlaid(
                self.net_rx,
                throughputs(rx, self.net_last_rx, self.net_max_rx),
                rows,
                0,
            ),
            net_tx: overlaid(
                self.net_tx,
                throughputs(tx, self.net_last_tx, self.net_max_tx),
                rows,
                0,
            ),
            net_last_rx: overlaid(self.net_last_rx, rx, rows, 0),
            net_last_tx: overlaid(self.net_last_tx, tx, rows, 0),
            net_max_rx: overlaid(
                self.net_max_rx,
                maxima(rx, self.net_last_rx, self.net_max_rx),
                rows,
                0,
            ),
            net_max_tx: overlaid(
                self.net_max_tx,
                maxima(tx, self.net_last_tx, self.net_max_tx),
                rows,
                0,
            ),
            ..self
        }
    }

    /// The snapshot after the memory totals `info`.
    pub open spec fn after_memory(self, info: MemInfo) -> SensorsView {
        SensorsView { mem: mem_fractions(info), ..self }
    }

    /// The snapshot at the time `hour:minute:second`.
    pub open spec fn at_time(self, hour: u8, minute: u8, second: u8) -> SensorsView {
        SensorsView { hour, minute, second, ..self }
    }

    /// The snapshot after a slow cycle with the readings `readings`: each
    /// gauge follows its reading, and keeps its value where there is none.
    pub open spec fn after_lowfreq(self, readings: LowFreqReadings) -> SensorsView {
        SensorsView {
            gpu_load: match readings.gpu_load {
                Some(raw) => seq![saturated(raw)],
                None => self.gpu_load,
            },
            cpu_temp: gauge_after(self.cpu_temp, readings.cpu_temp, TEMPERATURE_RANGE),
            gpu_temp: gauge_after(self.gpu_temp, readings.gpu_temp, TEMPERATURE_RANGE),
            cpu_fan: gauge_after(self.cpu_fan, readings.cpu_fan, FAN_RANGE),
            gpu_fan: gauge_after(self.gpu_fan, readings.gpu_fan, FAN_RANGE),
            bat: gauge_after(self.bat, readings.battery_percentage, BATTERY_RANGE),
            bat_status: match readings.battery_status {
                Some(status) => if status@ == "Charging"@ {
                    1u8
                } else {
                    0u8
                },
                None => self.bat_status,
            },
            ..self
        }
    }
}

impl SensorsView {
    /// The snapshot before anything was read: every byte zero, every path
    /// empty, no rows, four memory bytes and no interface watched.
    pub open spec fn initial() -> SensorsView {
        SensorsView {
            hour: 0,
            minute: 0,
            second: 0,
            bat_ac_connected_path: Seq::empty(),
            bat_ac_connected: 0,
            bat_capacity_path: Seq::empty(),
            bat_status_path: Seq::empty(),
            bat_status: 0,
            bat: 0,
            cpu_count: 0,
            cpu_fan_path: Seq::empty(),
            cpu_fan: 0,
            cpu_last_idle: Seq::empty(),
            cpu_last_total: Seq::empty(),
            cpu_load: Seq::empty(),
            cpu_temp_path: Seq::empty(),
            cpu_temp: 0,
            gpu_load: Seq::empty(),
            gpu_load_path: Seq::empty(),
            gpu_fan_path: Seq::empty(),
            gpu_fan: 0,
            gpu_temp_path: Seq::empty(),
            gpu_temp: 0,
            mem: seq![0u8, 0u8, 0u8, 0u8],
            net_allowed: Seq::empty(),
            net_count: 0,
            net_last_rx: Seq::empty(),
            net_last_tx: Seq::empty(),
            net_max_rx: Seq::empty(),
            net_max_tx: Seq::empty(),
            net_rx: Seq::empty(),
            net_tx: Seq::empty(),
        }
    }

    /// How a reading of the processor table `text` ends: well, or with the
    /// table's own error.
    pub open spec fn cpu_outcome(self, text: Seq<u8>) -> Result<(), SensorError> {
        match cpu_samples(text) {
            Err(error) => Err(error),
            Ok(_) => Ok(()),
        }
    }

    /// The snapshot after a reading of the processor table `text`; a reading
    /// that fails changes nothing.
    pub open spec fn after_cpu_text(self, text: Seq<u8>) -> SensorsView {
        match cpu_samples(text) {
            Err(_) => self,
            Ok(samples) => self.after_cpu(samples),
        }
    }

    /// How a reading of the network table `text` ends.
    pub open spec fn net_outcome(self, text: Seq<u8>) -> Result<(), SensorError> {
        match net_samples(text, allowed_names(self.net_allowed)) {
            Err(error) => Err(error),
            Ok(_) => Ok(()),
        }
    }

    /// The snapshot after a reading of the network table `text`; a reading
    /// that fails changes nothing.
    pub open spec fn after_net_text(self, text: Seq<u8>) -> SensorsView {
        match net_samples(text, allowed_names(self.net_allowed)) {
            Err(_) => self,
            Ok(samples) => self.after_network(samples),
        }
    }

    /// How a reading of the memory table `text` ends.
    pub open spec fn mem_outcome(self, text: Seq<u8>) -> Result<(), SensorError> {
        match mem_info(text) {
            Err(error) => Err(error),
            Ok(_) => Ok(()),
        }
    }

    /// The snapshot after a reading of the memory table `text`; a reading that
    /// fails changes nothing.
    pub open spec fn after_mem_text(self, text: Seq<u8>) -> SensorsView {
        match mem_info(text) {
            Err(_) => self,
            Ok(info) => self.after_memory(info),
        }
    }

    /// How taking in the table `table` ends, where `text` is what was read of
    /// it, if it could be read.
    pub open spec fn table_outcome(self, table: Table, text: Option<Seq<u8>>) -> Result<
        (),
        SensorError,
    > {
        match text {
            None => Err(SensorError::Unreadable),
            Some(bytes) => match table {
                Table::Cpu => self.cpu_outcome(bytes),
                Table::Net => self.net_outcome(bytes),
                Table::Mem => self.mem_outcome(bytes),
            },
        }
    }

    /// The snapshot after the table `table` was taken in; a table that could
    /// not be read changes nothing.
    pub open spec fn after_table(self, table: Table, text: Option<Seq<u8>>) -> SensorsView {
        match text {
            None => self,
            Some(bytes) => match table {
                Table::Cpu => self.after_cpu_text(bytes),
                Table::Net => self.after_net_text(bytes),
                Table::Mem => self.after_mem_text(bytes),
            },
        }
    }
}

/// The bytes of a table that was read.
pub open spec fn table_bytes(contents: Option<String>) -> Option<Seq<u8>> {
    match contents {
        Some(text) => Some(encode_utf8(text@)),
        None => None,
    }
}

/// Every step keeps a well-formed snapshot well formed, and the snapshot
/// before anything was read is well formed.
pub proof fn lemma_steps_keep_wf(
    before: SensorsView,
    cores: Seq<CpuTimes>,
    links: Seq<NetCounters>,
    info: MemInfo,
    readings: LowFreqReadings,
    hour: u8,
    minute: u8,
    second: u8,
)
    requires
        before.wf(),
    ensures
        SensorsView::initial().wf(),
        before.after_cpu(cores).wf(),
        before.after_network(links).wf(),
        before.after_memory(info).wf(),
        before.after_lowfreq(readings).wf(),
        before.at_time(hour, minute, second).wf(),
{
}

/// Where the two counts fit the history table they are the true numbers of
/// rows: a count that stopped at 255 never fits.
pub proof fn lemma_counts_that_fit_are_exact(cpu_rows: int, net_rows: int)
    requires
        0 <= cpu_rows,
        0 <= net_rows,
    ensures
        counted(cpu_rows) <= cpu_rows,
        counted(net_rows) <= net_rows,
        (RowTable { cpus: counted(cpu_rows), nets: counted(net_rows) }).fits() ==> (RowTable {
            cpus: counted(cpu_rows),
            nets: counted(net_rows),
        }).rows() == cpu_rows + EXTRA_ROWS + net_rows,
{
}

/// After a reading, the row of every core that reported holds the core's
/// usage against the row's old baseline, and the core's counters as the new
/// baseline. Where neither counter went backwards the usage is zero if no
/// time passed or the idle time grew by more than the total, and else the
/// busy share of the elapsed time, a byte without anything cut off.
pub proof fn lemma_cpu_row_after_reading(before: SensorsView, samples: Seq<CpuTimes>, row: int)
    requires
        0 <= row < samples.len(),
    ensures
        ({
            let after = before.after_cpu(samples);
            let total = samples[row].total as int;
            let idle = samples[row].idle as int;
            let last_total = baseline(before.cpu_last_total, row) as int;
            let last_idle = baseline(before.cpu_last_idle, row) as int;
            let elapsed = total - last_total;
            let rested = idle - last_idle;
            &&& after.cpu_load[row] as int == cpu_usage_of(total, idle, last_total, last_idle)
            &&& after.cpu_last_total[row] == total
            &&& after.cpu_last_idle[row] == idle
            &&& elapsed < 0 || rested < 0 ==> after.cpu_load[row] == 0
            &&& elapsed >= 0 && rested >= 0 ==> {
                &&& elapsed == 0 ==> after.cpu_load[row] == 0
                &&& rested > elapsed ==> after.cpu_load[row] == 0
                &&& 0 < elapsed && rested <= elapsed ==> after.cpu_load[row] as int == 255 * (
                elapsed - rested) / elapsed
            }
        }),
{
    let total = samples[row].total as int;
    let idle = samples[row].idle as int;
    let last_total = baseline(before.cpu_last_total, row) as int;
    let last_idle = baseline(before.cpu_last_idle, row) as int;
    if total >= last_total && idle >= last_idle {
        lemma_cpu_usage_bounded(total, idle, last_total, last_idle);
    }
}

/// After a reading, the row of every interface that reported holds, for each
/// direction, the counter as the new baseline, the larger of the old maximum
/// and the bytes moved as the running maximum, and the bytes moved as a share
/// of that maximum as the usage: zero for a zero maximum, and 255 exactly
/// when the bytes moved are more than none and equal the maximum.
pub proof fn lemma_net_row_after_reading(before: SensorsView, samples: Seq<NetCounters>, row: int)
    requires
        0 <= row < samples.len(),
    ensures
        ({
            let after = before.after_network(samples);
            let rx = samples[row].rx as int;
            let last_rx = baseline(before.net_last_rx, row) as int;
            let max_rx = baseline(before.net_max_rx, row) as int;
            let moved = delta(rx, last_rx);
            &&& after.net_last_rx[row] == rx
            &&& after.net_max_rx[row] as int == larger(max_rx, moved)
            &&& after.net_max_rx[row] >= max_rx
            &&& after.net_max_rx[row] == 0 ==> after.net_rx[row] == 0
            &&& after.net_max_rx[row] > 0 ==> after.net_rx[row] as int == 255 * moved
                / (after.net_max_rx[row] as int)
            &&& after.net_rx[row] == 255 <==> moved > 0 && moved == after.net_max_rx[row]
        }),
        ({
            let after = before.after_network(samples);
            let tx = samples[row].tx as int;
            let last_tx = baseline(before.net_last_tx, row) as int;
            let max_tx = baseline(before.net_max_tx, row) as int;
            let moved = delta(tx, last_tx);
            &&& after.net_last_tx[row] == tx
            &&& after.net_max_tx[row] as int == larger(max_tx, moved)
            &&& after.net_max_tx[row] >= max_tx
            &&& after.net_max_tx[row] == 0 ==> after.net_tx[row] == 0
            &&& after.net_max_tx[row] > 0 ==> after.net_tx[row] as int == 255 * moved
                / (after.net_max_tx[row] as int)
            &&& after.net_tx[row] == 255 <==> moved > 0 && moved == after.net_max_tx[row]
        }),
{
    lemma_net_usage_bounded(
        samples[row].rx as int,
        baseline(before.net_last_rx, row) as int,
        baseline(before.net_max_rx, row) as int,
    );
    lemma_net_usage_bounded(
        samples[row].tx as int,
        baseline(before.net_last_tx, row) as int,
        baseline(before.net_max_tx, row) as int,
    );
}

/// Processor rows are never dropped: a reading leaves at least the rows that
/// were there, and a row beyond the cores that reported keeps its usage and
/// its baseline.
pub proof fn lemma_cpu_rows_persist(before: SensorsView, samples: Seq<CpuTimes>, row: int)
    requires
        0 <= row,
    ensures
        before.after_cpu(samples).cpu_load.len() >= before.cpu_load.len(),
        before.after_cpu(samples).cpu_last_total.len() >= before.cpu_last_total.len(),
        before.after_cpu(samples).cpu_last_idle.len() >= before.cpu_last_idle.len(),
        before.after_cpu(samples).cpu_load.len() >= samples.len(),
        samples.len() <= row < before.cpu_load.len() ==> before.after_cpu(samples).cpu_load[row]
            == before.cpu_load[row],
        samples.len() <= row < before.cpu_last_total.len() ==> before.after_cpu(
            samples,
        ).cpu_last_total[row] == before.cpu_last_total[row],
        samples.len() <= row < before.cpu_last_idle.len() ==> before.after_cpu(
            samples,
        ).cpu_last_idle[row] == before.cpu_last_idle[row],
{
}

/// Interface rows are never dropped, and the running maximum of a row never
/// falls: after a reading it is at least what it was.
pub proof fn lemma_running_max_never_falls(before: SensorsView, samples: Seq<NetCounters>, row: int)
    requires
        0 <= row,
    ensures
        before.after_network(samples).net_max_rx.len() >= before.net_max_rx.len(),
        before.after_network(samples).net_max_tx.len() >= before.net_max_tx.len(),
        before.after_network(samples).net_rx.len() >= before.net_rx.len(),
        before.after_network(samples).net_tx.len() >= before.net_tx.len(),
        row < before.net_max_rx.len() ==> before.after_network(samples).net_max_rx[row]
            >= before.net_max_rx[row],
        row < before.net_max_tx.len() ==> before.after_network(samples).net_max_tx[row]
            >= before.net_max_tx[row],
{
}

/// `rows` with `fresh` laid over its front and grown to `count` rows.
pub fn overlay<T: Copy>(rows: &Vec<T>, fresh: &Vec<T>, count: usize, fill: T) -> (result: Vec<T>)
    ensures
        result@ == overlaid(rows@, fresh@, count as int, fill),
{
    let mut length: usize = rows.len();
    if length < count {
        length = count;
    }
    if length < fresh.len() {
        length = fresh.len();
    }
    let mut result: Vec<T> = Vec::new();
    let mut i: usize = 0;
    while i < length
        invariant
            i <= length,
            length == larger(larger(rows@.len() as int, count as int), fresh@.len() as int),
            result@.len() == i,
            forall|k: int|
                0 <= k < i ==> result@[k] == overlaid(rows@, fresh@, count as int, fill)[k],
        decreases length - i,
    {
        let item: T = if i < fresh.len() {
            fresh[i]
        } else if i < rows.len() {
            rows[i]
        } else {
            fill
        };
        result.push(item);
        i += 1;
    }
    assert(result@ =~= overlaid(rows@, fresh@, count as int, fill));
    result
}

/// `rows` as the snapshot counts it.
fn count_of(rows: usize) -> (count: u8)
    ensures
        count == counted(rows as int),
{
    if rows > MAX_ROWS {
        MAX_ROWS as u8
    } else {
        rows as u8
    }
}

/// The value of row `row` where `rows` has such a row, else zero.
fn baseline_of(rows: &Vec<u64>, row: usize) -> (value: u64)
    ensures
        value == baseline(rows@, row as int),
{
    if row < rows.len() {
        rows[row]
    } else {
        0
    }
}

/// The byte of row `row` where `rows` has such a row, else zero.
fn byte_of(rows: &Vec<u8>, row: usize) -> (value: u8)
    ensures
        value == byte_at(rows@, row as int),
{
    if row < rows.len() {
        rows[row]
    } else {
        0
    }
}

/// The four memory bytes of the memory totals `info`.
pub fn memory_bytes(info: MemInfo) -> (bytes: Vec<u8>)
    ensures
        bytes@ == mem_fractions(info),
{
    let mut used: u64 = info.total;
    used = if used < info.free {
        0
    } else {
        used - info.free
    };
    used = if used < info.buffers {
        0
    } else {
        used - info.buffers
    };
    used = if used < info.cached {
        0
    } else {
        used - info.cached
    };
    let bytes: Vec<u8> = vec![
        scale(used, info.total),
        scale(info.buffers, info.total),
        scale(info.cached, info.total),
        scale(info.free, info.total),
    ];
    assert(bytes@ =~= mem_fractions(info));
    bytes
}

/// Usage bytes and new running maxima of one direction of every interface
/// that reported.
fn direction(current: &Vec<u64>, last: &Vec<u64>, max: &Vec<u64>) -> (result: (Vec<u8>, Vec<u64>))
    ensures
        result.0@ == throughputs(current@, last@, max@),
        result.1@ == maxima(current@, last@, max@),
{
    let mut usages: Vec<u8> = Vec::new();
    let mut peaks: Vec<u64> = Vec::new();
    let mut i: usize = 0;
    while i < current.len()
        invariant
            i <= current@.len(),
            usages@ == throughputs(current@, last@, max@).take(i as int),
            peaks@ == maxima(current@, last@, max@).take(i as int),
        decreases current@.len() - i,
    {
        let sample: Throughput = net_usage(current[i], baseline_of(last, i), baseline_of(max, i));
        usages.push(sample.usage);
        peaks.push(sample.max);
        i += 1;
        proof {
            assert(usages@ =~= throughputs(current@, last@, max@).take(i as int));
            assert(peaks@ =~= maxima(current@, last@, max@).take(i as int));
        }
    }
    proof {
        assert(usages@ =~= throughputs(current@, last@, max@));
        assert(peaks@ =~= maxima(current@, last@, max@));
    }
    (usages, peaks)
}

/// The receive and the transmit counters of the interfaces that reported.
fn counters_of(samples: &Vec<NetCounters>) -> (result: (Vec<u64>, Vec<u64>))
    ensures
        result.0@ == received(samples@),
        result.1@ == transmitted(samples@),
{
    let mut rx: Vec<u64> = Vec::new();
    let mut tx: Vec<u64> = Vec::new();
    let mut i: usize = 0;
    while i < samples.len()
        invariant
            i <= samples@.len(),
            rx@ == received(samples@).take(i as int),
            tx@ == transmitted(samples@).take(i as int),
        decreases samples@.len() - i,
    {
        rx.push(samples[i].rx);
        tx.push(samples[i].tx);
        i += 1;
        proof {
            assert(rx@ =~= received(samples@).take(i as int));
            assert(tx@ =~= transmitted(samples@).take(i as int));
        }
    }
    proof {
        assert(rx@ =~= received(samples@));
        assert(tx@ =~= transmitted(samples@));
    }
    (rx, tx)
}

/// A percentage as a byte.
fn saturate(raw: u64) -> (byte: u8)
    ensures
        byte == saturated(raw),
{
    if raw > FULL_SCALE as u64 {
        FULL_SCALE
    } else {
        raw as u8
    }
}

/// Whether the battery's state `status` says that it is charging.
fn is_charging(status: &String) -> (charging: bool)
    ensures
        charging == (status@ == "Charging"@),
{
    let same: bool = bytes_eq(status.as_str().as_bytes(), "Charging".as_bytes());
    proof {
        vstd::utf8::encode_utf8_decode_utf8(status@);
        vstd::utf8::encode_utf8_decode_utf8("Charging"@);
    }
    same
}

impl Sensors {
    /// A snapshot before anything was read.
    pub fn new() -> (sensors: Sensors)
        ensures
            sensors@ == SensorsView::initial(),
    {
        let mem: Vec<u8> = vec![0u8, 0u8, 0u8, 0u8];
        let net_allowed: Vec<(String, NetworkInterface)> = Vec::new();
        assert(mem@ =~= seq![0u8, 0u8, 0u8, 0u8]);
        assert(interfaces(net_allowed@) =~= Seq::empty());
        Sensors {
            hour: 0,
            minute: 0,
            second: 0,
            bat_ac_connected_path: String::new(),
            bat_ac_connected: 0,
            bat_capacity_path: String::new(),
            bat_status_path: String::new(),
            bat_status: 0,
            bat: 0,
            cpu_count: 0,
            cpu_fan_path: String::new(),
            cpu_fan: 0,
            cpu_last_idle: Vec::new(),
            cpu_last_total: Vec::new(),
            cpu_load: Vec::new(),
            cpu_temp_path: String::new(),
            cpu_temp: 0,
            gpu_load: Vec::new(),
            gpu_load_path: String::new(),
            gpu_fan_path: String::new(),
            gpu_fan: 0,
            gpu_temp_path: String::new(),
            gpu_temp: 0,
            mem,
            net_allowed,
            net_count: 0,
            net_last_rx: Vec::new(),
            net_last_tx: Vec::new(),
            net_max_rx: Vec::new(),
            net_max_tx: Vec::new(),
            net_rx: Vec::new(),
            net_tx: Vec::new(),
        }
    }

    /// A snapshot before anything was read that watches `allowed` and
    /// reads temperatures and fan speeds where `temperature` and `fans` say.
    pub fn with_paths(
        allowed: Vec<(String, NetworkInterface)>,
        temperature: Temperature,
        fans: Fans,
    ) -> (sensors: Sensors)
        ensures
            sensors@ == (SensorsView {
                net_allowed: interfaces(allowed@),
                cpu_temp_path: temperature.cpu@,
                gpu_temp_path: temperature.gpu@,
                cpu_fan_path: fans.cpu@,
                gpu_fan_path: fans.gpu@,
                ..SensorsView::initial()
            }),
    {
        let mut sensors: Sensors = Sensors::new();
        sensors.net_allowed = allowed;
        sensors.cpu_temp_path = temperature.cpu;
        sensors.gpu_temp_path = temperature.gpu;
        sensors.cpu_fan_path = fans.cpu;
        sensors.gpu_fan_path = fans.gpu;
        sensors
    }

    /// Takes in the cumulative times of the processor cores, first core
    /// first.
    pub fn update_cpu(&mut self, samples: &Vec<CpuTimes>)
        ensures
            final(self)@ == old(self)@.after_cpu(samples@),
    {
        let rows: usize = if self.cpu_load.len() < samples.len() {
            samples.len()
        } else {
            self.cpu_load.len()
        };
        let mut usages: Vec<u8> = Vec::new();
        let mut total_times: Vec<u64> = Vec::new();
        let mut idle_times: Vec<u64> = Vec::new();
        let mut i: usize = 0;
        while i < samples.len()
            invariant
                i <= samples@.len(),
                usages@ == self@.cpu_usages(samples@).take(i as int),
                total_times@ == totals(samples@).take(i as int),
                idle_times@ == idles(samples@).take(i as int),
            decreases samples@.len() - i,
        {
            let times: CpuTimes = samples[i];
            let usage: u8 = cpu_usage(
                times.total,
                times.idle,
                baseline_of(&self.cpu_last_total, i),
                baseline_of(&self.cpu_last_idle, i),
            );
            usages.push(usage);
            total_times.push(times.total);
            idle_times.push(times.idle);
            i += 1;
            proof {
                assert(usages@ =~= self@.cpu_usages(samples@).take(i as int));
                assert(total_times@ =~= totals(samples@).take(i as int));
                assert(idle_times@ =~= idles(samples@).take(i as int));
            }
        }
        proof {
            assert(usages@ =~= self@.cpu_usages(samples@));
            assert(total_times@ =~= totals(samples@));
            assert(idle_times@ =~= idles(samples@));
        }
        let load: Vec<u8> = overlay(&self.cpu_load, &usages, rows, 0);
        let last_total: Vec<u64> = overlay(&self.cpu_last_total, &total_times, rows, 0);
        let last_idle: Vec<u64> = overlay(&self.cpu_last_idle, &idle_times, rows, 0);
        self.cpu_load = load;
        self.cpu_last_total = last_total;
        self.cpu_last_idle = last_idle;
        self.cpu_count = count_of(rows);
    }

    /// Takes in the memory totals.
    pub fn update_memory(&mut self, info: MemInfo)
        ensures
            final(self)@ == old(self)@.after_memory(info),
    {
        self.mem = memory_bytes(info);
    }

    /// Sets the time of day.
    pub fn set_time(&mut self, hour: u8, minute: u8, second: u8)
        ensures
            final(self)@ == old(self)@.at_time(hour, minute, second),
    {
        self.hour = hour;
        self.minute = minute;
        self.second = second;
    }

    /// Reads the processor table `contents`. A table that cannot be read is
    /// refused and leaves the snapshot as it was.
    pub fn read_cpu(&mut self, contents: String) -> (result: Result<(), SensorError>)
        ensures
            result == old(self)@.cpu_outcome(encode_utf8(contents@)),
            final(self)@ == old(self)@.after_cpu_text(encode_utf8(contents@)),
    {
        match parse_cpu(contents.as_str().as_bytes()) {
            Err(error) => Err(error),
            Ok(samples) => {
                self.update_cpu(&samples);
                Ok(())
            },
        }
    }

    /// Reads the memory table `contents`. A table that cannot be read is
    /// refused and leaves the snapshot as it was.
    pub fn read_memory(&mut self, contents: String) -> (result: Result<(), SensorError>)
        ensures
            result == old(self)@.mem_outcome(encode_utf8(contents@)),
            final(self)@ == old(self)@.after_mem_text(encode_utf8(contents@)),
    {
        match parse_memory(contents.as_str().as_bytes()) {
            Err(error) => Err(error),
            Ok(info) => {
                self.update_memory(info);
                Ok(())
            },
        }
    }

    /// The names of the watched interfaces as bytes.
    fn watched_names(&self) -> (names: Vec<Vec<u8>>)
        ensures
            views(names@) == allowed_names(self@.net_allowed),
    {
        let mut names: Vec<Vec<u8>> = Vec::new();
        let mut i: usize = 0;
        while i < self.net_allowed.len()
            invariant
                i <= self.net_allowed@.len(),
                views(names@) == allowed_names(self@.net_allowed).take(i as int),
            decreases self.net_allowed@.len() - i,
        {
            let name: Vec<u8> = slice_to_vec(self.net_allowed[i].0.as_str().as_bytes());
            let ghost before = views(names@);
            names.push(name);
            proof {
                assert(name@ == encode_utf8(self.net_allowed@[i as int].0@));
                assert(name@ == allowed_names(self@.net_allowed)[i as int]);
                assert(views(names@) =~= before.push(name@));
                assert(before.push(name@) =~= allowed_names(self@.net_allowed).take(i + 1));
            }
            i += 1;
        }
        proof {
            assert(views(names@) =~= allowed_names(self@.net_allowed));
        }
        names
    }

    /// Takes in the cumulative traffic of the watched interfaces, in the
    /// order in which they were listed.
    pub fn update_network(&mut self, samples: &Vec<NetCounters>)
        ensures
            final(self)@ == old(self)@.after_network(samples@),
    {
        let rows: usize = if self.net_rx.len() < samples.len() {
            samples.len()
        } else {
            self.net_rx.len()
        };
        let (rx, tx) = counters_of(samples);
        let (rx_usages, rx_peaks) = direction(&rx, &self.net_last_rx, &self.net_max_rx);
        let (tx_usages, tx_peaks) = direction(&tx, &self.net_last_tx, &self.net_max_tx);
        let net_rx: Vec<u8> = overlay(&self.net_rx, &rx_usages, rows, 0);
        let net_tx: Vec<u8> = overlay(&self.net_tx, &tx_usages, rows, 0);
        let net_last_rx: Vec<u64> = overlay(&self.net_last_rx, &rx, rows, 0);
        let net_last_tx: Vec<u64> = overlay(&self.net_last_tx, &tx, rows, 0);
        let net_max_rx: Vec<u64> = overlay(&self.net_max_rx, &rx_peaks, rows, 0);
        let net_max_tx: Vec<u64> = overlay(&self.net_max_tx, &tx_peaks, rows, 0);
        self.net_rx = net_rx;
        self.net_tx = net_tx;
        self.net_last_rx = net_last_rx;
        self.net_last_tx = net_last_tx;
        self.net_max_rx = net_max_rx;
        self.net_max_tx = net_max_tx;
        self.net_count = count_of(rows);
    }

    /// Reads the network table `contents`. A table that cannot be read is
    /// refused and leaves the snapshot as it was.
    pub fn read_network(&mut self, contents: String) -> (result: Result<(), SensorError>)
        ensures
            result == old(self)@.net_outcome(encode_utf8(contents@)),
            final(self)@ == old(self)@.after_net_text(encode_utf8(contents@)),
    {
        let names: Vec<Vec<u8>> = self.watched_names();
        match parse_network(contents.as_str().as_bytes(), &names) {
            Err(error) => Err(error),
            Ok(samples) => {
                self.update_network(&samples);
                Ok(())
            },
        }
    }

    /// Takes in the readings of a slow cycle: fan speeds, temperatures, the
    /// battery and the load of the graphics processor.
    pub fn read_lowfreq(&mut self, readings: LowFreqReadings)
        ensures
            final(self)@ == old(self)@.after_lowfreq(readings),
    {
        if let Some(raw) = readings.gpu_load {
            let load: Vec<u8> = vec![saturate(raw)];
            assert(load@ =~= seq![saturated(raw)]);
            self.gpu_load = load;
        }
        if let Some(raw) = readings.cpu_temp {
            self.cpu_temp = scale(raw, TEMPERATURE_RANGE);
        }
        if let Some(raw) = readings.gpu_temp {
            self.gpu_temp = scale(raw, TEMPERATURE_RANGE);
        }
        if let Some(raw) = readings.cpu_fan {
            self.cpu_fan = scale(raw, FAN_RANGE);
        }
        if let Some(raw) = readings.gpu_fan {
            self.gpu_fan = scale(raw, FAN_RANGE);
        }
        if let Some(raw) = readings.battery_percentage {
            self.bat = scale(raw, BATTERY_RANGE);
        }
        if let Some(status) = &readings.battery_status {
            self.bat_status = if is_charging(status) {
                1
            } else {
                0
            };
        }
    }

    /// One fast cycle: sets the time of day, then takes in the processor, the
    /// network and the memory table, each on its own. A table that could not
    /// be read, or that is refused, leaves its part of the snapshot as it was
    /// and does not stop the others.
    pub fn read(
        &mut self,
        cpu_load: Option<String>,
        net_load: Option<String>,
        mem_load: Option<String>,
        hour: u8,
        minute: u8,
        second: u8,
    ) -> (outcome: ReadOutcome)
        ensures
            ({
                let timed = old(self)@.at_time(hour, minute, second);
                let with_cpu = timed.after_table(Table::Cpu, table_bytes(cpu_load));
                let with_net = with_cpu.after_table(Table::Net, table_bytes(net_load));
                &&& outcome.cpu == timed.table_outcome(Table::Cpu, table_bytes(cpu_load))
                &&& outcome.net == with_cpu.table_outcome(Table::Net, table_bytes(net_load))
                &&& outcome.mem == with_net.table_outcome(Table::Mem, table_bytes(mem_load))
                &&& final(self)@ == with_net.after_table(Table::Mem, table_bytes(mem_load))
            }),
    {
        self.set_time(hour, minute, second);
        let cpu: Result<(), SensorError> = match cpu_load {
            Some(contents) => self.read_cpu(contents),
            None => Err(SensorError::Unreadable),
        };
        let net: Result<(), SensorError> = match net_load {
            Some(contents) => self.read_network(contents),
            None => Err(SensorError::Unreadable),
        };
        let mem: Result<(), SensorError> = match mem_load {
            Some(contents) => self.read_memory(contents),
            None => Err(SensorError::Unreadable),
        };
        ReadOutcome { cpu, net, mem }
    }

    /// The assignment of history rows that the snapshot's cardinalities fix.
    pub fn row_table(&self) -> (table: RowTable)
        ensures
            table == self@.row_table(),
    {
        RowTable { cpus: self.cpu_count, nets: self.net_count }
    }

    /// Whether `metric` has a byte to show.
    pub fn shows(&self, metric: Metric) -> (shown: bool)
        ensures
            shown == self@.shows(metric),
    {
        match metric {
            Metric::GpuLoad => !self.gpu_load_path.as_str().is_empty() && self.gpu_load.len() > 0,
            _ => true,
        }
    }

    /// The latest usage byte of `metric`.
    pub fn value(&self, metric: Metric) -> (byte: u8)
        ensures
            byte == self@.value_of(metric),
    {
        match metric {
            Metric::Cpu(core) => byte_of(&self.cpu_load, core),
            Metric::GpuLoad => byte_of(&self.gpu_load, 0),
            Metric::CpuTemp => self.cpu_temp,
            Metric::GpuTemp => self.gpu_temp,
            Metric::CpuFan => self.cpu_fan,
            Metric::GpuFan => self.gpu_fan,
            Metric::Net(interface) => byte_of(&self.net_rx, interface),
        }
    }
}

} // verus!
