//! The block of values that the shader reads: gauges, row metadata and the
//! packed history table.

use crate::error::SensorError;
use crate::history::{
    column_of, in_table, lemma_read_after_write, lemma_write_keeps_others, sample, write_sample,
    HISTORY_SIZE, LOAD_WORDS, ROW_CAPACITY,
};
use crate::packing::{packed, u32e3};
use crate::rows::{Metric, RowTable};
use crate::sensors::{byte_at, Sensors, SensorsView};
use vstd::prelude::*;

verus! {

/// Opaque red.
pub const RED: u32 = 0xff00_0000;

/// Opaque orange.
pub const ORANGE: u32 = 0xff64_0000;

/// Opaque yellow.
pub const YELLOW: u32 = 0xffff_0000;

/// Green.
pub const GREEN: u32 = 0x00ff_0000;

/// Blue.
pub const BLUE: u32 = 0x0000_ff00;

/// Width of the bar in pixels before the first frame was drawn.
pub const DEFAULT_WIDTH: u32 = 1920;

/// Gauges that are drawn.
pub const GAUGE_COUNT: u32 = 5;

/// Battery bytes up to this one are shown in red.
pub const BATTERY_LOW: u8 = 10;

/// Battery bytes above the low ones and up to this one are shown in orange.
pub const BATTERY_FAIR: u8 = 20;

/// Battery bytes above the fair ones and up to this one are shown in yellow.
pub const BATTERY_GOOD: u8 = 30;

/// What the shader reads, field by field in the order of its uniform block.
#[derive(Clone, Copy, Debug)]
pub struct SensorValues {
    /// Width of the bar in pixels.
    pub width: u32,
    /// Gauges that are drawn.
    pub gauge_count: u32,
    /// Value of each gauge.
    pub gauge_value: [u32; 6],
    /// Colour of each gauge.
    pub gauge_color: [u32; 6],
    /// The column that was written last.
    pub load_ptr: u32,
    /// History rows that are drawn.
    pub load_count: u32,
    /// Colour of each history row.
    pub load_color: [u32; 24],
    /// The packed history table.
    pub load: [u32; 2048],
}

/// The colour of the battery gauge at charge byte `bat`.
pub open spec fn battery_color(bat: u8) -> u32 {
    if bat <= BATTERY_LOW {
        RED
    } else if bat <= BATTERY_FAIR {
        ORANGE
    } else if bat <= BATTERY_GOOD {
        YELLOW
    } else {
        GREEN
    }
}

/// The colour of the charging gauge: green while charging, else red.
pub open spec fn status_color(bat_status: u8) -> u32 {
    if bat_status == 1 {
        GREEN
    } else {
        RED
    }
}

/// The six gauge values of a snapshot: battery, full scale, processor
/// temperature and fan, graphics temperature and fan.
pub open spec fn gauge_values(sensors: SensorsView) -> Seq<u32> {
    seq![
        sensors.bat as u32,
        255u32,
        sensors.cpu_temp as u32,
        sensors.cpu_fan as u32,
        sensors.gpu_temp as u32,
        sensors.gpu_fan as u32,
    ]
}

/// The gauge colours after a snapshot: the first two follow the battery, the
/// others stay.
pub open spec fn gauge_colors(colors: Seq<u32>, sensors: SensorsView) -> Seq<u32> {
    colors.update(0, battery_color(sensors.bat)).update(1, status_color(sensors.bat_status))
}

/// Whether the table `after` is the table `before` with the byte of every
/// metric that `sensors` shows written into column `column` of the metric's
/// row, and no other sample touched.
pub open spec fn column_written(
    before: Seq<u32>,
    after: Seq<u32>,
    sensors: SensorsView,
    column: int,
) -> bool {
    &&& after.len() == before.len()
    &&& forall|row: int, other: int|
        #![trigger sample(after, row, other)]
        in_table(row, other) ==> sample(after, row, other) == (if other == column && row
            < sensors.row_table().rows() && sensors.shows(sensors.row_table().metric_at(row)) {
            sensors.value_of(sensors.row_table().metric_at(row))
        } else {
            sample(before, row, other)
        })
}

/// Whether `after` is `before` with the gauges set from `sensors` and nothing
/// else changed.
pub open spec fn gauges_set(
    before: SensorValues,
    after: SensorValues,
    sensors: SensorsView,
) -> bool {
    &&& after.gauge_value@ == gauge_values(sensors)
    &&& after.gauge_color@ == gauge_colors(before.gauge_color@, sensors)
    &&& after == (SensorValues {
        gauge_value: after.gauge_value,
        gauge_color: after.gauge_color,
        ..before
    })
}

/// Whether `after` is `before` with the snapshot `sensors` taken in at frame
/// `frame`: the frame's column written in every row in use and noted as the
/// last one written, the gauges set, and the width, the counts and the row
/// colours as they were.
pub open spec fn frame_taken(
    before: SensorValues,
    after: SensorValues,
    sensors: SensorsView,
    frame: u64,
) -> bool {
    &&& after.load_ptr == column_of(frame)
    &&& column_written(before.load@, after.load@, sensors, column_of(frame))
    &&& after.gauge_value@ == gauge_values(sensors)
    &&& after.gauge_color@ == gauge_colors(before.gauge_color@, sensors)
    &&& after.width == before.width
    &&& after.gauge_count == before.gauge_count
    &&& after.load_count == before.load_count
    &&& after.load_color == before.load_color
}

/// What a frame that was taken in leaves in the table, row by row: in the
/// frame's column, which is less than 256, each core's row holds the core's
/// usage, the five rows after the cores hold the graphics load (if there is a
/// graphics processor), the two temperatures and the two fans, and each
/// interface's row holds what the interface receives. No other column
/// changes, and no row beyond those in use.
pub proof fn lemma_rows_of_a_frame(
    before: SensorValues,
    after: SensorValues,
    sensors: SensorsView,
    frame: u64,
    row: int,
    column: int,
)
    requires
        frame_taken(before, after, sensors, frame),
        sensors.row_table().fits(),
        in_table(row, column),
    ensures
        after.load_ptr == frame % 256,
        after.load_ptr < HISTORY_SIZE,
        ({
            let cores = sensors.cpu_count as int;
            let links = sensors.net_count as int;
            let now = sample(after.load@, row, column);
            let was = sample(before.load@, row, column);
            &&& column != column_of(frame) ==> now == was
            &&& row >= cores + 5 + links ==> now == was
            &&& column == column_of(frame) ==> {
                &&& row < cores ==> now == byte_at(sensors.cpu_load, row)
                &&& row == cores && sensors.has_gpu() ==> now == sensors.gpu_load[0]
                &&& row == cores && !sensors.has_gpu() ==> now == was
                &&& row == cores + 1 ==> now == sensors.cpu_temp
                &&& row == cores + 2 ==> now == sensors.gpu_temp
                &&& row == cores + 3 ==> now == sensors.cpu_fan
                &&& row == cores + 4 ==> now == sensors.gpu_fan
                &&& cores + 5 <= row < cores + 5 + links ==> now == byte_at(
                    sensors.net_rx,
                    row - cores - 5,
                )
            }
        }),
{
}

/// The values before the first sample: an empty history, gauges at zero, the
/// default colours, and as many rows to draw as `sensors` counts cores, and
/// two more.
pub fn initialize_uniforms(sensors: &Sensors) -> (values: SensorValues)
    ensures
        values.width == DEFAULT_WIDTH,
        values.gauge_count == GAUGE_COUNT,
        values.gauge_value@ == Seq::new(6, |i: int| 0u32),
        values.gauge_color@ == seq![RED, RED, BLUE, YELLOW, ORANGE, YELLOW],
        values.load_ptr == 0,
        values.load_count == sensors.cpu_count + 2,
        values.load_color@ == Seq::new(24, |i: int| packed(1, 1, 1, 0)),
        values.load@ == Seq::new(LOAD_WORDS as nat, |i: int| 0u32),
{
    let values: SensorValues = SensorValues {
        width: DEFAULT_WIDTH,
        gauge_count: GAUGE_COUNT,
        gauge_value: [0u32; 6],
        gauge_color: [RED, RED, BLUE, YELLOW, ORANGE, YELLOW],
        load_ptr: 0,
        load_count: sensors.cpu_count as u32 + 2,
        load_color: [u32e3(1, 1, 1); 24],
        load: [0u32; 2048],
    };
    proof {
        assert(values.gauge_value@ =~= Seq::new(6, |i: int| 0u32));
        assert(values.gauge_color@ =~= seq![RED, RED, BLUE, YELLOW, ORANGE, YELLOW]);
        assert(values.load_color@ =~= Seq::new(24, |i: int| packed(1, 1, 1, 0)));
        assert(values.load@ =~= Seq::new(LOAD_WORDS as nat, |i: int| 0u32));
    }
    values
}

/// The colour of the battery gauge at charge byte `bat`.
fn battery_color_of(bat: u8) -> (color: u32)
    ensures
        color == battery_color(bat),
{
    if bat <= BATTERY_LOW {
        RED
    } else if bat <= BATTERY_FAIR {
        ORANGE
    } else if bat <= BATTERY_GOOD {
        YELLOW
    } else {
        GREEN
    }
}

/// Sets the gauges from the snapshot and leaves the history alone.
pub fn update_gauges(values: &mut SensorValues, sensors: &Sensors)
    ensures
        gauges_set(*old(values), *final(values), sensors@),
{
    values.gauge_value[0] = sensors.bat as u32;
    values.gauge_value[1] = 255;
    values.gauge_color[0] = battery_color_of(sensors.bat);
    values.gauge_color[1] = if sensors.bat_status == 1 {
        GREEN
    } else {
        RED
    };
    values.gauge_value[2] = sensors.cpu_temp as u32;
    values.gauge_value[3] = sensors.cpu_fan as u32;
    values.gauge_value[4] = sensors.gpu_temp as u32;
    values.gauge_value[5] = sensors.gpu_fan as u32;
    proof {
        assert(values.gauge_value@ =~= gauge_values(sensors@));
        assert(values.gauge_color@ =~= gauge_colors(old(values).gauge_color@, sensors@));
    }
}

/// Whether the table `after` is the table `before` with the byte of `metric`
/// written at `(row, column)`, if `sensors` shows one and the cell is one of
/// the table, and no other sample touched.
pub open spec fn metric_written(
    before: Seq<u32>,
    after: Seq<u32>,
    sensors: SensorsView,
    metric: Metric,
    row: int,
    column: int,
) -> bool {
    &&& after.len() == before.len()
    &&& forall|other_row: int, other: int|
        #![trigger sample(after, other_row, other)]
        in_table(other_row, other) ==> sample(after, other_row, other) == (if other_row == row
            && other == column && sensors.shows(metric) {
            sensors.value_of(metric)
        } else {
            sample(before, other_row, other)
        })
}

/// Writes the byte of `metric`, if the snapshot shows one, into column
/// `column` of row `row`. A cell outside the table is not written.
pub fn write_metric(
    load: &mut [u32; 2048],
    sensors: &Sensors,
    metric: Metric,
    row: usize,
    column: usize,
)
    ensures
        metric_written(old(load)@, final(load)@, sensors@, metric, row as int, column as int),
{
    if row < ROW_CAPACITY && column < HISTORY_SIZE && sensors.shows(metric) {
        let byte: u8 = sensors.value(metric);
        let ghost before = load@;
        let _ = write_sample(load, row, column, byte);
        proof {
            assert forall|other_row: int, other: int| in_table(other_row, other) implies sample(
                load@,
                other_row,
                other,
            ) == (if other_row == row && other == column {
                byte
            } else {
                sample(before, other_row, other)
            }) by {
                if other_row == row && other == column {
                    lemma_read_after_write(before, row as int, column as int, byte);
                } else {
                    lemma_write_keeps_others(
                        before,
                        row as int,
                        column as int,
                        byte,
                        other_row,
                        other,
                    );
                }
            }
        }
    }
}

/// Takes the snapshot into the values of the frame `frame`: the byte of
/// every metric goes into the frame's column of the metric's row, the gauges
/// follow the snapshot, and the column is noted as the one written last.
/// A snapshot with more rows than the table holds is refused and nothing is
/// written.
pub fn update_uniforms(values: &mut SensorValues, sensors: &Sensors, frame: u64) -> (result:
    Result<(), SensorError>)
    ensures
        !sensors@.row_table().fits() ==> result == Err::<(), SensorError>(
            SensorError::TooManyRows,
        ) && *final(values) == *old(values),
        sensors@.row_table().fits() ==> result == Ok::<(), SensorError>(()) && frame_taken(
            *old(values),
            *final(values),
            sensors@,
            frame,
        ),
{
    let table: RowTable = sensors.row_table();
    let rows: usize = table.count();
    if rows > ROW_CAPACITY {
        return Err(SensorError::TooManyRows);
    }
    let column: usize = (frame % (HISTORY_SIZE as u64)) as usize;
    values.load_ptr = column as u32;
    let mut row: usize = 0;
    while row < rows
        invariant
            row <= rows <= ROW_CAPACITY,
            rows == table.rows(),
            table == sensors@.row_table(),
            column == column_of(frame),
            values.load@.len() == old(values).load@.len(),
            forall|other_row: int, other: int|
                #![trigger sample(values.load@, other_row, other)]
                in_table(other_row, other) ==> sample(values.load@, other_row, other) == (
                if other == column && other_row < row && sensors@.shows(
                    table.metric_at(other_row),
                ) {
                    sensors@.value_of(table.metric_at(other_row))
                } else {
                    sample(old(values).load@, other_row, other)
                }),
            *values == (SensorValues {
                load: values.load,
                load_ptr: column as u32,
                ..*old(values)
            }),
        decreases rows - row,
    {
        if let Some(metric) = table.metric(row) {
            write_metric(&mut values.load, sensors, metric, row, column);
        }
        row += 1;
    }
    update_gauges(values, sensors);
    Ok(())
}

} // verus!
