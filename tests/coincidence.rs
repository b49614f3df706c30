use timepix3::coincidence::{collect_references, first_match, search_coincidence, CoincidenceParams};
use timepix3::packet::TdcType;

fn pixel(raw_x: u8, toa: u16) -> [u8; 8] {
    let mut d = [0u8; 8];
    d[2] = 15;
    d[3] = ((toa & 3) as u8) << 6;
    d[4] = ((toa >> 2) & 0xff) as u8;
    d[5] = ((toa >> 10) & 15) as u8 | ((raw_x & 1) << 6);
    d[6] = ((raw_x >> 1) & 7) << 5;
    d[7] = ((raw_x >> 4) & 15) | (11 << 4);
    d
}

fn tdc(kind: u8, coarse: u64) -> [u8; 8] {
    let mut d = [0u8; 8];
    d[1] = ((coarse & 127) as u8) << 1;
    d[2] = ((coarse >> 7) & 0xff) as u8;
    d[3] = ((coarse >> 15) & 0xff) as u8;
    d[4] = ((coarse >> 23) & 0xff) as u8;
    d[5] = ((coarse >> 31) & 15) as u8;
    d[7] = (6 << 4) | (kind & 15);
    d
}

fn params(min_len: usize, trim_after: usize, keep_before: usize) -> CoincidenceParams {
    CoincidenceParams {
        reference: TdcType::TdcTwoRisingEdge,
        time_width: 2000,
        time_delay: 0,
        min_len,
        trim_after,
        keep_before,
    }
}

#[test]
fn first_reference_within_the_width() {
    let refs = [20_000i64, 40_000, 60_000];
    assert_eq!(first_match(&refs, 41_000, 2000), Some((1, 40_000)));
    assert_eq!(first_match(&refs, 50_000, 2000), None);
    assert_eq!(first_match(&refs, 42_000, 2000), None);
    assert_eq!(first_match(&[], 0, 2000), None);
    assert_eq!(first_match(&[5, 6], 5, 2), Some((0, 5)));
}

#[test]
fn references_are_edge_times_less_the_delay() {
    let data: Vec<u8> = [tdc(14, 100), tdc(15, 150), tdc(14, 200)].concat();
    let mut p = params(100, 20, 5);
    assert_eq!(collect_references(&data, &p), vec![625_000, 1_250_000]);
    p.time_delay = 1_000_000;
    assert_eq!(collect_references(&data, &p), vec![-375_000, 250_000]);
}

#[test]
fn hits_near_an_edge_are_listed() {
    let data: Vec<u8> = [tdc(14, 100), tdc(14, 200), pixel(10, 25), pixel(12, 30)].concat();
    let mut ele = vec![0usize; 1024];
    let mut cele = vec![0usize; 1024];
    let mut list = Vec::new();
    search_coincidence(&data, &mut ele, &mut cele, &mut list, &params(100, 20, 5));
    assert_eq!(ele[245], 1);
    assert_eq!(ele[243], 1);
    assert_eq!(cele[245], 1);
    assert_eq!(cele[243], 0);
    assert_eq!(list, vec![(245, 0, 0)]);
}

#[test]
fn reference_list_is_trimmed_after_a_late_match() {
    let mut records: Vec<[u8; 8]> = (0..30u64).map(|i| tdc(14, 100 * (i + 1))).collect();
    records.push(pixel(1, 50));
    records.push(pixel(1, 75));
    let data: Vec<u8> = records.concat();
    let mut ele = vec![0usize; 1024];
    let mut cele = vec![0usize; 1024];
    let mut list = Vec::new();
    search_coincidence(&data, &mut ele, &mut cele, &mut list, &params(2, 2, 1));
    assert_eq!(ele[254], 2);
    assert_eq!(cele[254], 2);
    assert_eq!(list, vec![(254, 0, 0), (254, 0, 0)]);
}

#[test]
fn without_trimming_late_edges_are_out_of_reach() {
    let mut records: Vec<[u8; 8]> = (0..30u64).map(|i| tdc(14, 100 * (i + 1))).collect();
    records.push(pixel(1, 50));
    records.push(pixel(1, 75));
    let data: Vec<u8> = records.concat();
    let mut ele = vec![0usize; 1024];
    let mut cele = vec![0usize; 1024];
    let mut list = Vec::new();
    search_coincidence(&data, &mut ele, &mut cele, &mut list, &params(2, 5, 1));
    assert_eq!(cele[254], 1);
    assert_eq!(list.len(), 1);
}
