use timepix3::config::Settings;
use timepix3::spim::{append_to_index_array, build_spim_data, Output, SPIM_PIXELS, VIDEO_TIME};
use timepix3::tdc::{NonPeriodicTdcRef, PeriodicTdcRef, TdcType};

fn pixel(raw_x: u8, spidr: u16, toa: u16, ftoa: u8) -> [u8; 8] {
    let mut d = [0u8; 8];
    d[0] = (spidr & 0xff) as u8;
    d[1] = (spidr >> 8) as u8;
    d[2] = ftoa & 15;
    d[3] = ((toa & 3) as u8) << 6;
    d[4] = ((toa >> 2) & 0xff) as u8;
    d[5] = ((toa >> 10) & 15) as u8 | ((raw_x & 1) << 6);
    d[6] = ((raw_x >> 1) & 7) << 5;
    d[7] = ((raw_x >> 4) & 15) | (11 << 4);
    d
}

fn tdc(kind: u8, coarse: u64, counter: u16) -> [u8; 8] {
    let mut d = [0u8; 8];
    d[1] = ((coarse & 127) as u8) << 1;
    d[2] = ((coarse >> 7) & 0xff) as u8;
    d[3] = ((coarse >> 15) & 0xff) as u8;
    d[4] = ((coarse >> 23) & 0xff) as u8;
    d[5] = ((coarse >> 31) & 15) as u8 | (((counter & 15) as u8) << 4);
    d[6] = ((counter >> 4) & 0xff) as u8;
    d[7] = (6 << 4) | (kind & 15);
    d
}

fn scan_settings(x: usize, y: usize, overscan: usize) -> Settings {
    Settings {
        bin: true,
        bytedepth: 1,
        cumul: false,
        is_spim: true,
        xspim_size: x,
        yspim_size: y,
        spimoverscany: overscan,
        time_delay: 0,
        time_width: 0,
    }
}

fn line_clock(period: u64, low_time: u64) -> PeriodicTdcRef {
    PeriodicTdcRef {
        tdctype: 15,
        counter: 0,
        counter_offset: 0,
        last_hard_counter: 0,
        counter_overflow: 0,
        begin_time: 0,
        ticks_to_frame: None,
        begin_frame: 0,
        period,
        high_time: period - low_time,
        low_time,
        time: 0,
    }
}

#[test]
fn batch_indices_follow_the_scan() {
    let set = scan_settings(4, 2, 1);
    let clock = line_clock(1000, 800);
    let mut out: Output<(usize, u64)> = Output::new();
    assert!(!out.check());
    out.upt((5, 2500));
    out.upt((7, 1900));
    out.upt((1, 1100));
    assert!(out.check());
    assert_eq!(out.build_output(&set, &clock), vec![0, 0, 8, 7, 0, 0, 16, 5]);
}

#[test]
fn overscan_folds_rows() {
    let set = scan_settings(4, 2, 2);
    let clock = line_clock(1000, 800);
    let mut out: Output<(usize, u64)> = Output::new();
    out.upt((0, 3000));
    out.upt((0, 4000));
    let index_a = ((3 / 2) % 2 * 4) * SPIM_PIXELS;
    let index_b = ((4 / 2) % 2 * 4) * SPIM_PIXELS;
    let mut expected = Vec::new();
    append_to_index_array(&mut expected, index_a);
    append_to_index_array(&mut expected, index_b);
    assert_eq!(out.build_output(&set, &clock), expected);
    assert_eq!(index_a, 4100);
    assert_eq!(index_b, 0);
}

#[test]
fn hits_are_stamped_from_the_frame_start() {
    let set = scan_settings(4, 2, 1);
    let mut clock = line_clock(1000, 800);
    let mut reference = NonPeriodicTdcRef::new(TdcType::TdcTwoRisingEdge);
    let mut last_ci = 0usize;
    let data: Vec<u8> = [pixel(10, 1, 0, 15), pixel(3, 0, 1, 15)].concat();
    let out = build_spim_data(&data, &mut last_ci, &set, &mut clock, &mut reference).unwrap();
    let mut expected: Output<(usize, u64)> = Output::new();
    expected.upt((245, 819_200_000 - VIDEO_TIME));
    let wanted = expected.build_output(&set, &clock);
    assert_eq!(out.build_output(&set, &clock), wanted);
}

#[test]
fn early_hits_give_no_batch() {
    let set = scan_settings(4, 2, 1);
    let mut clock = line_clock(1000, 800);
    let mut reference = NonPeriodicTdcRef::new(TdcType::TdcTwoRisingEdge);
    let mut last_ci = 0usize;
    let data = pixel(3, 0, 1, 15);
    assert!(build_spim_data(&data, &mut last_ci, &set, &mut clock, &mut reference).is_none());
    let odd = [1u8, 2, 3];
    assert!(build_spim_data(&odd, &mut last_ci, &set, &mut clock, &mut reference).is_none());
}

#[test]
fn line_edges_start_new_scan_frames() {
    let set = scan_settings(4, 1, 1);
    let mut clock = line_clock(1000, 800);
    let mut reference = NonPeriodicTdcRef::new(TdcType::TdcTwoRisingEdge);
    let mut last_ci = 0usize;
    let data: Vec<u8> = [tdc(15, 100, 1), tdc(15, 200, 2)].concat();
    assert!(build_spim_data(&data, &mut last_ci, &set, &mut clock, &mut reference).is_none());
    assert_eq!(clock.counter, 2);
    assert_eq!(clock.begin_frame, 200 * 6250);
}

#[test]
fn reference_edges_are_marked_in_the_last_column() {
    let set = scan_settings(4, 2, 1);
    let mut clock = line_clock(1000, 800);
    let mut reference = NonPeriodicTdcRef::new(TdcType::TdcTwoRisingEdge);
    let mut last_ci = 0usize;
    let data = tdc(14, 10_000, 0);
    let out = build_spim_data(&data, &mut last_ci, &set, &mut clock, &mut reference).unwrap();
    assert_eq!(reference.counter, 1);
    let mut expected: Output<(usize, u64)> = Output::new();
    expected.upt((SPIM_PIXELS - 1, 10_000 * 6250 - VIDEO_TIME));
    assert_eq!(out.build_output(&set, &clock), expected.build_output(&set, &clock));
}

#[test]
fn zero_columns_and_large_overscan() {
    let set = scan_settings(0, 2, 100_000);
    let clock = line_clock(1000, 800);
    let mut out: Output<(usize, u64)> = Output::new();
    out.upt((9, 250_000_000));
    let row = (250_000 / 100_000) % 2;
    assert_eq!(row, 0);
    assert_eq!(out.build_output(&set, &clock), vec![0, 0, 0, 9]);
}
