use shaderbar::error::SensorError;
use shaderbar::history::read_sample;
use shaderbar::rows::Metric;
use shaderbar::sensors::Sensors;
use shaderbar::uniform::{
    initialize_uniforms, update_gauges, update_uniforms, write_metric, BLUE, GREEN, ORANGE, RED,
    YELLOW,
};

fn busy() -> Sensors {
    let mut sensors = Sensors::new();
    sensors.cpu_load = vec![11, 22];
    sensors.cpu_count = 2;
    sensors.gpu_load = vec![33];
    sensors.gpu_load_path = "/sys/gpu_busy_percent".to_string();
    sensors.cpu_temp = 44;
    sensors.gpu_temp = 55;
    sensors.cpu_fan = 66;
    sensors.gpu_fan = 77;
    sensors.net_rx = vec![88];
    sensors.net_tx = vec![99];
    sensors.net_count = 1;
    sensors.bat = 120;
    sensors.bat_status = 1;
    sensors
}

#[test]
fn colours_are_packed_top_lane_first() {
    assert_eq!(RED, 0xff00_0000);
    assert_eq!(ORANGE, (255 << 24) | (100 << 16));
    assert_eq!(YELLOW, (255 << 24) | (255 << 16));
    assert_eq!(GREEN, 255 << 16);
    assert_eq!(BLUE, 255 << 8);
}

#[test]
fn initial_values_are_empty() {
    let mut sensors = Sensors::new();
    sensors.cpu_count = 4;
    let values = initialize_uniforms(&sensors);
    assert_eq!(values.width, 1920);
    assert_eq!(values.gauge_count, 5);
    assert_eq!(values.gauge_value, [0u32; 6]);
    assert_eq!(values.gauge_color, [RED, RED, BLUE, YELLOW, ORANGE, YELLOW]);
    assert_eq!(values.load_ptr, 0);
    assert_eq!(values.load_count, 6);
    assert_eq!(values.load_color, [0x0101_0100u32; 24]);
    assert!(values.load.iter().all(|word| *word == 0));
    assert_eq!(initialize_uniforms(&Sensors::new()).load_count, 2);
}

#[test]
fn update_writes_every_row_into_the_column_of_the_frame() {
    let sensors = busy();
    let mut values = initialize_uniforms(&sensors);
    assert_eq!(update_uniforms(&mut values, &sensors, 256 + 9), Ok(()));
    assert_eq!(values.load_ptr, 9);
    let expected: [u8; 8] = [11, 22, 33, 44, 55, 66, 77, 88];
    for (row, byte) in expected.iter().enumerate() {
        assert_eq!(read_sample(&values.load, row, 9), Ok(*byte));
    }
    for row in 0..32 {
        for column in 0..256 {
            if column != 9 || row >= 8 {
                assert_eq!(read_sample(&values.load, row, column), Ok(0));
            }
        }
    }
    assert_eq!(values.width, 1920);
    assert_eq!(values.gauge_count, 5);
    assert_eq!(values.load_count, 4);
    assert_eq!(values.load_color, [0x0101_0100u32; 24]);
}

#[test]
fn update_keeps_the_other_columns() {
    let sensors = busy();
    let mut values = initialize_uniforms(&sensors);
    assert_eq!(update_uniforms(&mut values, &sensors, 0), Ok(()));
    let mut later = busy();
    later.cpu_load = vec![1, 2];
    assert_eq!(update_uniforms(&mut values, &later, 1), Ok(()));
    assert_eq!(read_sample(&values.load, 0, 0), Ok(11));
    assert_eq!(read_sample(&values.load, 1, 0), Ok(22));
    assert_eq!(read_sample(&values.load, 0, 1), Ok(1));
    assert_eq!(read_sample(&values.load, 1, 1), Ok(2));
    assert_eq!(values.load[0], 0x0b01_0000);
    assert_eq!(values.load[64], 0x1602_0000);
    assert_eq!(values.load_ptr, 1);
}

#[test]
fn update_passes_over_a_graphics_processor_that_is_not_there() {
    let mut sensors = busy();
    sensors.gpu_load_path = String::new();
    let mut values = initialize_uniforms(&sensors);
    values.load = [0x0707_0707u32; 2048];
    assert_eq!(update_uniforms(&mut values, &sensors, 3), Ok(()));
    assert_eq!(read_sample(&values.load, 2, 3), Ok(7));
    assert_eq!(read_sample(&values.load, 1, 3), Ok(22));
    assert_eq!(read_sample(&values.load, 3, 3), Ok(44));
}

#[test]
fn update_sets_the_gauges() {
    let sensors = busy();
    let mut values = initialize_uniforms(&sensors);
    assert_eq!(update_uniforms(&mut values, &sensors, 0), Ok(()));
    assert_eq!(values.gauge_value, [120, 255, 44, 66, 55, 77]);
    assert_eq!(values.gauge_color, [GREEN, GREEN, BLUE, YELLOW, ORANGE, YELLOW]);
}

#[test]
fn update_refuses_more_rows_than_the_table_holds() {
    let mut sensors = busy();
    sensors.cpu_count = 27;
    let mut values = initialize_uniforms(&sensors);
    values.load_ptr = 5;
    assert_eq!(update_uniforms(&mut values, &sensors, 77), Err(SensorError::TooManyRows));
    assert_eq!(values.load_ptr, 5);
    assert!(values.load.iter().all(|word| *word == 0));
    assert_eq!(values.gauge_value, [0u32; 6]);
    sensors.cpu_count = 26;
    assert_eq!(update_uniforms(&mut values, &sensors, 77), Ok(()));
    assert_eq!(values.load_ptr, 77);
    assert_eq!(read_sample(&values.load, 31, 77), Ok(88));
    assert_eq!(read_sample(&values.load, 30, 77), Ok(77));
    assert_eq!(read_sample(&values.load, 26, 77), Ok(33));
    assert_eq!(read_sample(&values.load, 2, 77), Ok(0));
}

#[test]
fn battery_colour_follows_the_charge() {
    let mut sensors = Sensors::new();
    let mut values = initialize_uniforms(&sensors);
    for (bat, color) in [
        (0u8, RED),
        (10, RED),
        (11, ORANGE),
        (20, ORANGE),
        (21, YELLOW),
        (30, YELLOW),
        (31, GREEN),
        (255, GREEN),
    ] {
        sensors.bat = bat;
        update_gauges(&mut values, &sensors);
        assert_eq!(values.gauge_color[0], color);
        assert_eq!(values.gauge_value[0], bat as u32);
    }
}

#[test]
fn status_colour_is_green_only_while_charging() {
    let mut sensors = Sensors::new();
    let mut values = initialize_uniforms(&sensors);
    for (status, color) in [(0u8, RED), (1, GREEN), (2, RED), (255, RED)] {
        sensors.bat_status = status;
        update_gauges(&mut values, &sensors);
        assert_eq!(values.gauge_color[1], color);
        assert_eq!(values.gauge_value[1], 255);
    }
}

#[test]
fn gauges_leave_the_history_alone() {
    let sensors = busy();
    let mut values = initialize_uniforms(&sensors);
    values.load = [0x0102_0304u32; 2048];
    values.load_ptr = 17;
    values.width = 800;
    update_gauges(&mut values, &sensors);
    assert!(values.load.iter().all(|word| *word == 0x0102_0304));
    assert_eq!(values.load_ptr, 17);
    assert_eq!(values.width, 800);
    assert_eq!(values.gauge_color[2..], [BLUE, YELLOW, ORANGE, YELLOW]);
}

#[test]
fn write_metric_writes_one_cell() {
    let sensors = busy();
    let mut load = [0u32; 2048];
    write_metric(&mut load, &sensors, Metric::CpuFan, 5, 6);
    assert_eq!(read_sample(&load, 5, 6), Ok(66));
    assert_eq!(load[5 * 64 + 1], 0x0000_4200);
    assert_eq!(load.iter().filter(|word| **word != 0).count(), 1);
}

#[test]
fn write_metric_writes_nothing_outside_the_table() {
    let sensors = busy();
    let mut load = [0u32; 2048];
    write_metric(&mut load, &sensors, Metric::CpuFan, 32, 0);
    write_metric(&mut load, &sensors, Metric::CpuFan, 0, 256);
    assert!(load.iter().all(|word| *word == 0));
}

#[test]
fn update_writes_one_byte_into_a_word_and_keeps_its_other_lanes() {
    let mut sensors = Sensors::new();
    sensors.cpu_load = vec![0xab];
    sensors.cpu_count = 1;
    let mut values = initialize_uniforms(&sensors);
    values.load[1] = 0x1122_3344;
    assert_eq!(update_uniforms(&mut values, &sensors, 5), Ok(()));
    assert_eq!(values.load[1], 0x11ab_3344);
    assert_eq!(values.load_ptr, 5);
    for (index, word) in values.load.iter().enumerate() {
        if index != 1 {
            assert_eq!(*word, 0);
        }
    }
}

#[test]
fn update_takes_many_cores_with_two_interfaces() {
    let mut sensors = Sensors::new();
    sensors.cpu_load = vec![9; 24];
    sensors.cpu_count = 24;
    sensors.net_rx = vec![70, 80];
    sensors.net_tx = vec![1, 2];
    sensors.net_count = 2;
    sensors.bat = 5;
    let mut values = initialize_uniforms(&sensors);
    assert_eq!(update_uniforms(&mut values, &sensors, 300), Ok(()));
    assert_eq!(values.load_ptr, 44);
    assert_eq!(read_sample(&values.load, 23, 44), Ok(9));
    assert_eq!(read_sample(&values.load, 29, 44), Ok(70));
    assert_eq!(read_sample(&values.load, 30, 44), Ok(80));
    assert_eq!(read_sample(&values.load, 31, 44), Ok(0));
    assert_eq!(values.gauge_value[0], 5);
    assert_eq!(values.gauge_color[0], RED);
}
