use timepix3::config::Settings;
use timepix3::spectrum::{build_data, create_header, tr_check_if_in, Live, SpecKind};
use timepix3::tdc::{NonPeriodicTdcRef, PeriodicTdcRef, TdcSearch, TdcType, SYNC_EDGES};

fn pixel(raw_x: u8, y: u8) -> [u8; 8] {
    let mut d = [0u8; 8];
    d[5] = ((y & 3) << 4) | ((raw_x & 1) << 6) | (((y >> 2) & 1) << 7);
    d[6] = ((y >> 3) & 31) | (((raw_x >> 1) & 7) << 5);
    d[7] = ((raw_x >> 4) & 15) | (11 << 4);
    d
}

fn tdc(kind: u8, coarse: u64, counter: u16) -> [u8; 8] {
    let mut d = [0u8; 8];
    d[1] = ((coarse & 127) as u8) << 1;
    d[2] = ((coarse >> 7) & 0xff) as u8;
    d[3] = ((coarse >> 15) & 0xff) as u8;
    d[4] = ((coarse >> 23) & 0xff) as u8;
    d[5] = ((coarse >> 31) & 15) as u8 | (((counter & 15) as u8) << 4);
    d[6] = ((counter >> 4) & 0xff) as u8;
    d[7] = (6 << 4) | (kind & 15);
    d
}

fn marker(chip: u8) -> [u8; 8] {
    [84, 80, 88, 51, chip, 0, 0, 0]
}

fn stream(records: &[[u8; 8]]) -> Vec<u8> {
    records.iter().flat_map(|r| r.iter().copied()).collect()
}

fn settings(bin: bool, bytedepth: usize, cumul: bool) -> Settings {
    Settings {
        bin,
        bytedepth,
        cumul,
        is_spim: false,
        xspim_size: 1,
        yspim_size: 1,
        spimoverscany: 1,
        time_delay: 0,
        time_width: 0,
    }
}

/// A frame clock on line one, synchronised on counters 10, 11, 12: the next edge, counter 13,
/// brings its counter to 3.
fn frame_clock(ticks: Option<u64>) -> PeriodicTdcRef {
    let data = stream(&[
        tdc(15, 100, 10),
        tdc(10, 140, 10),
        tdc(15, 200, 11),
        tdc(10, 240, 11),
        tdc(15, 300, 12),
    ]);
    let mut search = TdcSearch::new(&TdcType::TdcOneRisingEdge, SYNC_EDGES);
    search.search_specific_tdc(&data);
    PeriodicTdcRef::new(&search, ticks).unwrap()
}

#[test]
fn live_buffer_layout() {
    let full = Live::new(&settings(false, 2, false));
    assert_eq!(full.len, 1024 * 256 * 2);
    assert_eq!(full.data.len(), full.len + 1);
    assert_eq!(full.data[full.len], 10);
    let binned = Live::new(&settings(true, 4, false));
    assert_eq!(binned.build_output().len(), 4 * 1024 + 1);
    assert!(!binned.is_ready());
}

#[test]
fn one_chunk_end_to_end() {
    let set = settings(false, 1, false);
    let mut live = Live::new(&set);
    let mut frame = frame_clock(Some(3));
    let mut reference = NonPeriodicTdcRef::new(TdcType::TdcTwoRisingEdge);
    let mut last_ci = 0usize;
    let data = stream(&[marker(2), pixel(10, 5), tdc(15, 400, 13)]);
    assert_eq!(data.len(), 24);
    let ready = build_data(&data, &mut live, &mut last_ci, &set, &mut frame, &mut reference);
    assert!(!ready);
    assert!(!live.is_ready());
    assert_eq!(last_ci, 2);
    let index = 757 + 1024 * 5;
    assert_eq!(live.data[index], 1);
    let total: usize = live.data[..live.len].iter().map(|&b| b as usize).sum();
    assert_eq!(total, 1);
    assert_eq!(frame.counter, 3);
    assert_eq!(frame.time, 400 * 6250);
    assert_eq!(reference.counter, 0);
}

#[test]
fn ready_signal_once_at_the_frame_edge() {
    let n: u16 = 3;
    let set = settings(true, 1, false);
    let mut live = Live::new(&set);
    let mut frame = frame_clock(Some(n as u64));
    let start = frame.begin_frame;
    let mut reference = NonPeriodicTdcRef::new(TdcType::TdcTwoRisingEdge);
    let mut last_ci = 0usize;
    let mut signals = 0;
    for hc in 13..(10 + 2 * n + 1) {
        let chunk = tdc(15, 1000 + hc as u64, hc);
        if build_data(&chunk, &mut live, &mut last_ci, &set, &mut frame, &mut reference) {
            signals += 1;
            assert_eq!(hc, 10 + 2 * n);
        } else {
            assert_eq!(frame.begin_frame, start);
        }
    }
    assert_eq!(signals, 1);
    assert!(live.is_ready());
    assert_eq!(frame.begin_frame, (1000 + 16) * 6250);
}

#[test]
fn frame_without_divisor_is_ready_at_every_edge() {
    let set = settings(true, 1, false);
    let mut live = Live::new(&set);
    let mut frame = frame_clock(None);
    let mut reference = NonPeriodicTdcRef::new(TdcType::TdcTwoRisingEdge);
    let mut last_ci = 0usize;
    let chunk = tdc(15, 900, 13);
    assert!(build_data(&chunk, &mut live, &mut last_ci, &set, &mut frame, &mut reference));
}

#[test]
fn reference_without_period_marks_last_column() {
    let set = settings(true, 2, false);
    let mut live = Live::new(&set);
    let mut frame = frame_clock(None);
    let mut reference = NonPeriodicTdcRef::new(TdcType::TdcTwoRisingEdge);
    let mut last_ci = 0usize;
    let data = stream(&[tdc(14, 50, 0), tdc(14, 60, 1)]);
    assert!(!build_data(&data, &mut live, &mut last_ci, &set, &mut frame, &mut reference));
    assert_eq!(reference.counter, 2);
    assert_eq!(reference.time, 60 * 6250);
    assert_eq!(live.data[2 * 1023], 0);
    assert_eq!(live.data[2 * 1023 + 1], 2);
}

#[test]
fn periodic_reference_leaves_no_mark() {
    let set = settings(true, 1, false);
    let mut live = Live::new(&set);
    let mut frame = frame_clock(None);
    let mut reference = frame_clock(None);
    reference.tdctype = 14;
    let mut last_ci = 0usize;
    let data = tdc(14, 5000, 13);
    build_data(&data, &mut live, &mut last_ci, &set, &mut frame, &mut reference);
    assert_eq!(reference.counter, 3);
    assert_eq!(live.data[1023], 0);
}

#[test]
fn partial_chunk_is_dropped() {
    let set = settings(true, 1, false);
    let mut live = Live::new(&set);
    let mut frame = frame_clock(None);
    let mut reference = NonPeriodicTdcRef::new(TdcType::TdcTwoRisingEdge);
    let mut last_ci = 0usize;
    let mut data = stream(&[marker(3), pixel(1, 0)]);
    data.push(0);
    assert!(!build_data(&data, &mut live, &mut last_ci, &set, &mut frame, &mut reference));
    assert_eq!(last_ci, 0);
    assert!(live.data[..live.len].iter().all(|&b| b == 0));
}

#[test]
fn reset_clears_unless_cumulative() {
    let set = settings(true, 1, false);
    let mut live = Live::new(&set);
    live.add_electron_hit(3, &timepix3::packet::Packet { chip_index: 0, data: &pixel(0, 0) }, &set);
    live.is_ready = true;
    live.reset_or_else(&set);
    assert!(!live.is_ready());
    assert_eq!(live.data[3], 0);
    assert_eq!(live.data[live.len], 10);
    let keep = settings(true, 1, true);
    let mut cumulative = Live::new(&keep);
    cumulative.add_electron_hit(3, &timepix3::packet::Packet { chip_index: 0, data: &pixel(0, 0) }, &keep);
    cumulative.is_ready = true;
    cumulative.reset_or_else(&keep);
    assert!(!cumulative.is_ready());
    assert_eq!(cumulative.data[3], 1);
}

#[test]
fn header_lists_the_frame() {
    let set = settings(false, 2, false);
    let clock = NonPeriodicTdcRef { tdctype: 15, counter: 7, time: 3_000_000_000_000 };
    let header = String::from_utf8(create_header(&set, &clock)).unwrap();
    assert_eq!(
        header,
        "{\"timeAtFrame\":1.5000000000000,\"frameNumber\":7,\"dataSize\":524288,\"bitDepth\":16,\"width\":1024,\"height\":256}\n"
    );
    let binned = settings(true, 1, false);
    let early = NonPeriodicTdcRef { tdctype: 15, counter: 0, time: 41 };
    let header = String::from_utf8(create_header(&binned, &early)).unwrap();
    assert_eq!(
        header,
        "{\"timeAtFrame\":0.0000000000205,\"frameNumber\":0,\"dataSize\":1024,\"bitDepth\":8,\"width\":1024,\"height\":1}\n"
    );
}

#[test]
fn window_check_after_edge() {
    let mut set = settings(true, 1, false);
    set.time_delay = 10;
    set.time_width = 30;
    assert!(!tr_check_if_in(1000, 1050, 100, &set));
    set.time_width = 50;
    assert!(tr_check_if_in(1000, 1050, 100, &set));
    set.time_width = 20;
    assert!(tr_check_if_in(1000, 980, 100, &set));
    assert!(!tr_check_if_in(1000, 990, 100, &set));
    set.time_delay = 0;
    set.time_width = 200;
    assert!(tr_check_if_in(5, 10, 100, &set));
}

#[test]
fn empty_chunk_changes_nothing() {
    let set = settings(false, 4, false);
    let mut live = Live::new(&set);
    let mut frame = frame_clock(Some(2));
    let before = frame.counter;
    let mut reference = NonPeriodicTdcRef::new(TdcType::TdcTwoRisingEdge);
    let mut last_ci = 1usize;
    assert!(!build_data(&[], &mut live, &mut last_ci, &set, &mut frame, &mut reference));
    assert_eq!(last_ci, 1);
    assert_eq!(frame.counter, before);
    assert_eq!(live.data.len(), 4 * 1024 * 256 + 1);
}
