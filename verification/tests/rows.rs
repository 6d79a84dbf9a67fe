use shaderbar::error::SensorError;
use shaderbar::rows::{Metric, RowTable, EXTRA_ROWS};

#[test]
fn rows_are_handed_out_in_a_fixed_order() {
    let table = RowTable { cpus: 4, nets: 2 };
    assert_eq!(table.count(), 11);
    assert_eq!(table.row(Metric::Cpu(0)), Some(0));
    assert_eq!(table.row(Metric::Cpu(3)), Some(3));
    assert_eq!(table.row(Metric::GpuLoad), Some(4));
    assert_eq!(table.row(Metric::CpuTemp), Some(5));
    assert_eq!(table.row(Metric::GpuTemp), Some(6));
    assert_eq!(table.row(Metric::CpuFan), Some(7));
    assert_eq!(table.row(Metric::GpuFan), Some(8));
    assert_eq!(table.row(Metric::Net(0)), Some(9));
    assert_eq!(table.row(Metric::Net(1)), Some(10));
}

#[test]
fn each_interface_has_one_row() {
    for nets in 0..20u8 {
        let table = RowTable { cpus: 3, nets };
        assert_eq!(table.count(), 3 + EXTRA_ROWS + nets as usize);
    }
}

#[test]
fn metrics_outside_the_table_have_no_row() {
    let table = RowTable { cpus: 4, nets: 2 };
    assert_eq!(table.row(Metric::Cpu(4)), None);
    assert_eq!(table.row(Metric::Net(2)), None);
    assert_eq!(table.row(Metric::Cpu(usize::MAX)), None);
    assert_eq!(table.row(Metric::Net(usize::MAX)), None);
}

#[test]
fn rows_outside_the_table_have_no_metric() {
    let table = RowTable { cpus: 4, nets: 2 };
    assert_eq!(table.metric(10), Some(Metric::Net(1)));
    assert_eq!(table.metric(11), None);
    assert_eq!(table.metric(usize::MAX), None);
    assert_eq!((RowTable { cpus: 0, nets: 0 }).metric(5), None);
    assert_eq!((RowTable { cpus: 0, nets: 0 }).metric(0), Some(Metric::GpuLoad));
}

#[test]
fn row_and_metric_undo_each_other() {
    for cpus in [0u8, 1, 4, 27] {
        for nets in [0u8, 1, 3] {
            let table = RowTable { cpus, nets };
            assert_eq!(table.count(), cpus as usize + EXTRA_ROWS + nets as usize);
            let mut seen: Vec<Metric> = Vec::new();
            for row in 0..table.count() {
                let metric = table.metric(row).unwrap();
                assert_eq!(table.row(metric), Some(row));
                assert!(!seen.contains(&metric));
                seen.push(metric);
            }
        }
    }
}

#[test]
fn table_must_fit_the_history() {
    assert_eq!(RowTable::new(27, 0), Ok(RowTable { cpus: 27, nets: 0 }));
    assert_eq!(RowTable::new(28, 0), Err(SensorError::TooManyRows));
    assert_eq!(RowTable::new(26, 1), Ok(RowTable { cpus: 26, nets: 1 }));
    assert_eq!(RowTable::new(27, 1), Err(SensorError::TooManyRows));
    assert_eq!(RowTable::new(0, 27), Ok(RowTable { cpus: 0, nets: 27 }));
    assert_eq!(RowTable::new(0, 28), Err(SensorError::TooManyRows));
    assert_eq!(RowTable::new(255, 255), Err(SensorError::TooManyRows));
    assert_eq!(RowTable::new(0, 0), Ok(RowTable { cpus: 0, nets: 0 }));
}

#[test]
fn many_cores_with_two_interfaces_fit() {
    assert_eq!(RowTable::new(24, 2), Ok(RowTable { cpus: 24, nets: 2 }));
    assert_eq!(RowTable::new(16, 6), Ok(RowTable { cpus: 16, nets: 6 }));
    assert_eq!(RowTable::new(16, 11), Ok(RowTable { cpus: 16, nets: 11 }));
    assert_eq!(RowTable::new(16, 12), Err(SensorError::TooManyRows));
}
