use shaderbar::error::SensorError;
use shaderbar::frame::HistoryBuffer;
use shaderbar::history::{read_sample, HISTORY_SIZE};
use shaderbar::sensors::Sensors;
use shaderbar::uniform::{BLUE, GREEN, ORANGE, RED, YELLOW};

fn one_core(load: u8) -> Sensors {
    let mut sensors = Sensors::new();
    sensors.cpu_load = vec![load];
    sensors.cpu_count = 1;
    sensors
}

#[test]
fn new_buffer_stands_at_frame_zero() {
    let buffer = HistoryBuffer::new(&one_core(0));
    assert_eq!(buffer.frame_pointer, 0);
    assert_eq!(buffer.column(), 0);
    assert_eq!(buffer.values.load_ptr, 0);
    assert_eq!(buffer.values.load_count, 3);
    assert_eq!(buffer.values.width, 1920);
    assert_eq!(buffer.values.gauge_color, [RED, RED, BLUE, YELLOW, ORANGE, YELLOW]);
    assert!(buffer.values.load.iter().all(|word| *word == 0));
}

#[test]
fn fast_cycle_moves_the_pointer_and_writes_its_column() {
    let mut buffer = HistoryBuffer::new(&one_core(0));
    assert_eq!(buffer.fast_cycle(&one_core(10)), Ok(()));
    assert_eq!(buffer.frame_pointer, 1);
    assert_eq!(buffer.values.load_ptr, 1);
    assert_eq!(read_sample(&buffer.values.load, 0, 1), Ok(10));
    assert_eq!(buffer.fast_cycle(&one_core(20)), Ok(()));
    assert_eq!(buffer.frame_pointer, 2);
    assert_eq!(buffer.column(), 2);
    assert_eq!(read_sample(&buffer.values.load, 0, 1), Ok(10));
    assert_eq!(read_sample(&buffer.values.load, 0, 2), Ok(20));
    assert_eq!(read_sample(&buffer.values.load, 0, 0), Ok(0));
}

#[test]
fn column_takes_every_value_once_before_it_repeats() {
    let mut buffer = HistoryBuffer::new(&one_core(0));
    let mut seen = [false; 256];
    for _ in 0..HISTORY_SIZE {
        assert_eq!(buffer.fast_cycle(&one_core(1)), Ok(()));
        let column = buffer.column();
        assert!(column < HISTORY_SIZE);
        assert!(!seen[column]);
        seen[column] = true;
    }
    assert!(seen.iter().all(|hit| *hit));
    assert_eq!(buffer.fast_cycle(&one_core(1)), Ok(()));
    assert_eq!(buffer.column(), 1);
}

#[test]
fn oldest_sample_is_overwritten_after_a_full_turn() {
    let mut buffer = HistoryBuffer::new(&one_core(0));
    assert_eq!(buffer.fast_cycle(&one_core(200)), Ok(()));
    let first_column = buffer.column();
    for cycle in 0..(HISTORY_SIZE - 1) {
        assert_eq!(buffer.fast_cycle(&one_core((cycle % 100) as u8)), Ok(()));
        assert_eq!(read_sample(&buffer.values.load, 0, first_column), Ok(200));
    }
    assert_eq!(buffer.fast_cycle(&one_core(123)), Ok(()));
    assert_eq!(buffer.column(), first_column);
    assert_eq!(read_sample(&buffer.values.load, 0, first_column), Ok(123));
    assert_eq!(buffer.frame_pointer, 257);
}

#[test]
fn pointer_wraps_without_a_jump_of_the_column() {
    let mut buffer = HistoryBuffer::new(&one_core(0));
    buffer.frame_pointer = u64::MAX - 1;
    assert_eq!(buffer.column(), 254);
    assert_eq!(buffer.fast_cycle(&one_core(5)), Ok(()));
    assert_eq!(buffer.frame_pointer, u64::MAX);
    assert_eq!(buffer.column(), 255);
    assert_eq!(buffer.fast_cycle(&one_core(6)), Ok(()));
    assert_eq!(buffer.frame_pointer, 0);
    assert_eq!(buffer.column(), 0);
    assert_eq!(read_sample(&buffer.values.load, 0, 255), Ok(5));
    assert_eq!(read_sample(&buffer.values.load, 0, 0), Ok(6));
}

#[test]
fn fast_cycle_refuses_more_rows_than_the_table_holds() {
    let mut buffer = HistoryBuffer::new(&one_core(0));
    let mut sensors = one_core(9);
    sensors.cpu_count = 28;
    assert_eq!(buffer.fast_cycle(&sensors), Err(SensorError::TooManyRows));
    assert_eq!(buffer.frame_pointer, 0);
    assert_eq!(buffer.values.load_ptr, 0);
    assert!(buffer.values.load.iter().all(|word| *word == 0));
    sensors.cpu_count = 27;
    assert_eq!(buffer.fast_cycle(&sensors), Ok(()));
    assert_eq!(buffer.frame_pointer, 1);
}

#[test]
fn slow_cycle_sets_the_gauges_and_the_graphics_row() {
    let mut buffer = HistoryBuffer::new(&one_core(0));
    assert_eq!(buffer.fast_cycle(&one_core(10)), Ok(()));
    let mut sensors = one_core(99);
    sensors.gpu_load = vec![42];
    sensors.gpu_load_path = "/gpu".to_string();
    sensors.bat = 15;
    sensors.bat_status = 1;
    sensors.cpu_temp = 1;
    sensors.cpu_fan = 2;
    sensors.gpu_temp = 3;
    sensors.gpu_fan = 4;
    assert_eq!(buffer.slow_cycle(&sensors), Ok(()));
    assert_eq!(buffer.frame_pointer, 1);
    assert_eq!(buffer.values.load_ptr, 1);
    assert_eq!(read_sample(&buffer.values.load, 1, 1), Ok(42));
    assert_eq!(read_sample(&buffer.values.load, 0, 1), Ok(10));
    assert_eq!(read_sample(&buffer.values.load, 2, 1), Ok(0));
    assert_eq!(buffer.values.gauge_value, [15, 255, 1, 2, 3, 4]);
    assert_eq!(buffer.values.gauge_color, [ORANGE, GREEN, BLUE, YELLOW, ORANGE, YELLOW]);
}

#[test]
fn slow_cycle_without_a_graphics_processor_leaves_the_history() {
    let mut buffer = HistoryBuffer::new(&one_core(0));
    let mut sensors = one_core(99);
    sensors.gpu_load = vec![42];
    sensors.bat = 200;
    assert_eq!(buffer.slow_cycle(&sensors), Ok(()));
    assert!(buffer.values.load.iter().all(|word| *word == 0));
    assert_eq!(buffer.values.gauge_value[0], 200);
    assert_eq!(buffer.values.gauge_color[0], GREEN);
    assert_eq!(buffer.values.gauge_color[1], RED);
}

#[test]
fn slow_cycle_refuses_more_rows_than_the_table_holds() {
    let mut buffer = HistoryBuffer::new(&one_core(0));
    let mut sensors = one_core(99);
    sensors.cpu_count = 200;
    sensors.bat = 200;
    sensors.gpu_load = vec![42];
    sensors.gpu_load_path = "/gpu".to_string();
    assert_eq!(buffer.slow_cycle(&sensors), Err(SensorError::TooManyRows));
    assert_eq!(buffer.values.gauge_value, [0u32; 6]);
    assert!(buffer.values.load.iter().all(|word| *word == 0));
}
