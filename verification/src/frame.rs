//! The frame synchroniser: the shader's values together with the frame
//! pointer that says which column the next samples go to.

use crate::error::SensorError;
use crate::history::{advanced, column_of, lemma_column_advances, HISTORY_SIZE, LOAD_WORDS};
use crate::packing::packed;
use crate::rows::{Metric, RowTable};
use crate::sensors::{Sensors, SensorsView};
use crate::uniform::{
    frame_taken, gauges_set, initialize_uniforms, metric_written, update_gauges, update_uniforms,
    write_metric, SensorValues, BLUE, DEFAULT_WIDTH, GAUGE_COUNT, ORANGE, RED, YELLOW,
};
use vstd::prelude::*;

verus! {

/// The values that the renderer uploads and the pointer of the frame they
/// stand at.
#[derive(Clone, Copy, Debug)]
pub struct HistoryBuffer {
    /// What the shader reads.
    pub values: SensorValues,
    /// The number of fast cycles so far; each writes the column that is this
    /// number modulo the length of a row.
    pub frame_pointer: u64,
}

/// Whether `after` is `before` after a slow cycle on the snapshot `sensors`:
/// the gauges set, the load of the graphics processor written into the
/// current column of its row, and the frame pointer where it was.
pub open spec fn slow_cycle_done(
    before: HistoryBuffer,
    after: HistoryBuffer,
    sensors: SensorsView,
) -> bool {
    &&& after.frame_pointer == before.frame_pointer
    &&& metric_written(
        before.values.load@,
        after.values.load@,
        sensors,
        Metric::GpuLoad,
        sensors.row_table().row_of(Metric::GpuLoad),
        column_of(before.frame_pointer),
    )
    &&& gauges_set(
        SensorValues { load: after.values.load, ..before.values },
        after.values,
        sensors,
    )
}

impl HistoryBuffer {
    /// The buffer before the first cycle.
    pub fn new(sensors: &Sensors) -> (buffer: HistoryBuffer)
        ensures
            buffer.frame_pointer == 0,
            buffer.values.width == DEFAULT_WIDTH,
            buffer.values.gauge_count == GAUGE_COUNT,
            buffer.values.gauge_value@ == Seq::new(6, |i: int| 0u32),
            buffer.values.gauge_color@ == seq![RED, RED, BLUE, YELLOW, ORANGE, YELLOW],
            buffer.values.load_ptr == 0,
            buffer.values.load_count == sensors.cpu_count + 2,
            buffer.values.load_color@ == Seq::new(24, |i: int| packed(1, 1, 1, 0)),
            buffer.values.load@ == Seq::new(LOAD_WORDS as nat, |i: int| 0u32),
    {
        HistoryBuffer { values: initialize_uniforms(sensors), frame_pointer: 0 }
    }

    /// The column that the current frame writes.
    pub fn column(&self) -> (column: usize)
        ensures
            column == column_of(self.frame_pointer),
            column < HISTORY_SIZE,
    {
        (self.frame_pointer % (HISTORY_SIZE as u64)) as usize
    }

    /// One fast cycle: moves the frame pointer on by one and takes the
    /// snapshot into the new frame's column. A snapshot with more rows than
    /// the table holds is refused, and neither pointer nor values change.
    pub fn fast_cycle(&mut self, sensors: &Sensors) -> (result: Result<(), SensorError>)
        ensures
            !sensors@.row_table().fits() ==> result == Err::<(), SensorError>(
                SensorError::TooManyRows,
            ) && *final(self) == *old(self),
            sensors@.row_table().fits() ==> {
                &&& result == Ok::<(), SensorError>(())
                &&& final(self).frame_pointer == advanced(old(self).frame_pointer, 1)
                &&& column_of(final(self).frame_pointer) == (column_of(old(self).frame_pointer)
                    + 1) % (HISTORY_SIZE as int)
                &&& frame_taken(
                    old(self).values,
                    final(self).values,
                    sensors@,
                    final(self).frame_pointer,
                )
            },
    {
        let next: u64 = if self.frame_pointer == u64::MAX {
            0
        } else {
            self.frame_pointer + 1
        };
        proof {
            lemma_column_advances(self.frame_pointer, 1);
        }
        match update_uniforms(&mut self.values, sensors, next) {
            Err(error) => Err(error),
            Ok(()) => {
                self.frame_pointer = next;
                Ok(())
            },
        }
    }

    /// One slow cycle: sets the gauges and writes the load of the graphics
    /// processor, if there is one, into the current column of its row. The
    /// frame pointer stays. A snapshot with more rows than the table holds is
    /// refused and nothing changes.
    pub fn slow_cycle(&mut self, sensors: &Sensors) -> (result: Result<(), SensorError>)
        ensures
            !sensors@.row_table().fits() ==> result == Err::<(), SensorError>(
                SensorError::TooManyRows,
            ) && *final(self) == *old(self),
            sensors@.row_table().fits() ==> result == Ok::<(), SensorError>(())
                && slow_cycle_done(*old(self), *final(self), sensors@),
    {
        let table: RowTable = sensors.row_table();
        match RowTable::new(table.cpus, table.nets) {
            Err(error) => Err(error),
            Ok(_) => {
                let column: usize = self.column();
                write_metric(
                    &mut self.values.load,
                    sensors,
                    Metric::GpuLoad,
                    table.cpus as usize,
                    column,
                );
                update_gauges(&mut self.values, sensors);
                Ok(())
            },
        }
    }
}

} // verus!
