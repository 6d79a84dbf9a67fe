//! The metric row table: which row of the history table belongs to which
//! metric.
//!
//! Rows are handed out in a fixed order: one per processor core, then the
//! five rows of the graphics processor's load, the two temperatures and the
//! two fans, then one per watched network interface. The row of an interface
//! shows what the interface receives; what it transmits is kept in the
//! snapshot and has no history.

use crate::error::SensorError;
use crate::history::ROW_CAPACITY;
use vstd::prelude::*;

verus! {

/// Rows between those of the cores and those of the interfaces.
pub const EXTRA_ROWS: usize = 5;

/// A metric with a history of its own.
#[derive(Clone, Copy, Debug, PartialEq, Eq, Structural)]
pub enum Metric {
    /// Usage of the processor core with this index.
    Cpu(usize),
    /// Load of the graphics processor.
    GpuLoad,
    /// Temperature of the processor.
    CpuTemp,
    /// Temperature of the graphics processor.
    GpuTemp,
    /// Speed of the processor's fan.
    CpuFan,
    /// Speed of the graphics processor's fan.
    GpuFan,
    /// Receive throughput of the watched interface with this index.
    Net(usize),
}

/// The cardinalities that fix the assignment of rows.
#[derive(Clone, Copy, Debug, PartialEq, Eq, Structural)]
pub struct RowTable {
    /// Processor cores.
    pub cpus: u8,
    /// Watched network interfaces.
    pub nets: u8,
}

impl RowTable {
    /// The number of rows in use.
    pub open spec fn rows(self) -> int {
        self.cpus + EXTRA_ROWS + self.nets
    }

    /// Whether all rows in use have room in the history table.
    pub open spec fn fits(self) -> bool {
        self.rows() <= ROW_CAPACITY
    }

    /// Whether `metric` is one of this table.
    pub open spec fn tracks(self, metric: Metric) -> bool {
        match metric {
            Metric::Cpu(core) => core < self.cpus,
            Metric::Net(interface) => interface < self.nets,
            _ => true,
        }
    }

    /// The row of `metric`.
    pub open spec fn row_of(self, metric: Metric) -> int {
        match metric {
            Metric::Cpu(core) => core as int,
            Metric::GpuLoad => self.cpus as int,
            Metric::CpuTemp => self.cpus + 1,
            Metric::GpuTemp => self.cpus + 2,
            Metric::CpuFan => self.cpus + 3,
            Metric::GpuFan => self.cpus + 4,
            Metric::Net(interface) => self.cpus + EXTRA_ROWS + interface,
        }
    }

    /// The metric of row `row`.
    pub open spec fn metric_at(self, row: int) -> Metric {
        let extra = row - self.cpus;
        if row < self.cpus {
            Metric::Cpu(row as usize)
        } else if extra == 0 {
            Metric::GpuLoad
        } else if extra == 1 {
            Metric::CpuTemp
        } else if extra == 2 {
            Metric::GpuTemp
        } else if extra == 3 {
            Metric::CpuFan
        } else if extra == 4 {
            Metric::GpuFan
        } else {
            Metric::Net((extra - EXTRA_ROWS) as usize)
        }
    }

    /// Every metric of the table has a row in use, and that row is its own:
    /// looking the row up gives the metric back.
    pub proof fn lemma_row_of_metric(self, metric: Metric)
        requires
            self.tracks(metric),
        ensures
            0 <= self.row_of(metric) < self.rows(),
            self.metric_at(self.row_of(metric)) == metric,
    {
    }

    /// Every row in use belongs to a metric of the table, and to that one
    /// only.
    pub proof fn lemma_metric_of_row(self, row: int)
        requires
            0 <= row < self.rows(),
        ensures
            self.tracks(self.metric_at(row)),
            self.row_of(self.metric_at(row)) == row,
    {
    }

    /// Two different metrics never share a row.
    pub proof fn lemma_rows_do_not_alias(self, first: Metric, second: Metric)
        requires
            self.tracks(first),
            self.tracks(second),
            first != second,
        ensures
            self.row_of(first) != self.row_of(second),
    {
        self.lemma_row_of_metric(first);
        self.lemma_row_of_metric(second);
    }

    /// A table for `cpus` cores and `nets` interfaces, if the history table
    /// has room for all their rows.
    pub fn new(cpus: u8, nets: u8) -> (result: Result<RowTable, SensorError>)
        ensures
            (RowTable { cpus, nets }).fits() ==> result == Ok::<RowTable, SensorError>(
                RowTable { cpus, nets },
            ),
            !(RowTable { cpus, nets }).fits() ==> result == Err::<RowTable, SensorError>(
                SensorError::TooManyRows,
            ),
    {
        let table: RowTable = RowTable { cpus, nets };
        if table.count() > ROW_CAPACITY {
            Err(SensorError::TooManyRows)
        } else {
            Ok(table)
        }
    }

    /// The number of rows in use.
    pub fn count(&self) -> (rows: usize)
        ensures
            rows == self.rows(),
    {
        self.cpus as usize + EXTRA_ROWS + self.nets as usize
    }

    /// The row of `metric`, if it is one of this table.
    pub fn row(&self, metric: Metric) -> (row: Option<usize>)
        ensures
            self.tracks(metric) ==> row == Some(self.row_of(metric) as usize),
            !self.tracks(metric) ==> row is None,
    {
        let cpus: usize = self.cpus as usize;
        let nets: usize = self.nets as usize;
        match metric {
            Metric::Cpu(core) => if core < cpus {
                Some(core)
            } else {
                None
            },
            Metric::GpuLoad => Some(cpus),
            Metric::CpuTemp => Some(cpus + 1),
            Metric::GpuTemp => Some(cpus + 2),
            Metric::CpuFan => Some(cpus + 3),
            Metric::GpuFan => Some(cpus + 4),
            Metric::Net(interface) => if interface < nets {
                Some(cpus + EXTRA_ROWS + interface)
            } else {
                None
            },
        }
    }

    /// The metric of row `row`, if that row is in use.
    pub fn metric(&self, row: usize) -> (metric: Option<Metric>)
        ensures
            row < self.rows() ==> metric == Some(self.metric_at(row as int)),
            row >= self.rows() ==> metric is None,
    {
        let cpus: usize = self.cpus as usize;
        if row >= self.count() {
            None
        } else if row < cpus {
            Some(Metric::Cpu(row))
        } else if row == cpus {
            Some(Metric::GpuLoad)
        } else if row == cpus + 1 {
            Some(Metric::CpuTemp)
        } else if row == cpus + 2 {
            Some(Metric::GpuTemp)
        } else if row == cpus + 3 {
            Some(Metric::CpuFan)
        } else if row == cpus + 4 {
            Some(Metric::GpuFan)
        } else {
            Some(Metric::Net(row - cpus - EXTRA_ROWS))
        }
    }
}

} // verus!
