use timepix3::packet::{Packet, TdcType};

fn pixel(raw_x: u8, y: u8, spidr: u16, toa: u16, ftoa: u8, tot: u16) -> [u8; 8] {
    let mut d = [0u8; 8];
    d[0] = (spidr & 0xff) as u8;
    d[1] = (spidr >> 8) as u8;
    d[2] = (ftoa & 15) | (((tot & 15) as u8) << 4);
    d[3] = ((tot >> 4) & 63) as u8 | (((toa & 3) as u8) << 6);
    d[4] = ((toa >> 2) & 0xff) as u8;
    d[5] = ((toa >> 10) & 15) as u8 | ((y & 3) << 4) | ((raw_x & 1) << 6) | (((y >> 2) & 1) << 7);
    d[6] = ((y >> 3) & 31) | (((raw_x >> 1) & 7) << 5);
    d[7] = ((raw_x >> 4) & 15) | (11 << 4);
    d
}

fn tdc(kind: u8, coarse: u64, fine: u8, counter: u16) -> [u8; 8] {
    let mut d = [0u8; 8];
    d[0] = (fine & 7) << 5;
    d[1] = ((fine >> 3) & 1) | (((coarse & 127) as u8) << 1);
    d[2] = ((coarse >> 7) & 0xff) as u8;
    d[3] = ((coarse >> 15) & 0xff) as u8;
    d[4] = ((coarse >> 23) & 0xff) as u8;
    d[5] = ((coarse >> 31) & 15) as u8 | (((counter & 15) as u8) << 4);
    d[6] = ((counter >> 4) & 0xff) as u8;
    d[7] = (6 << 4) | (kind & 15);
    d
}

#[test]
fn pixel_fields_decode() {
    let d = pixel(10, 5, 2, 100, 3, 600);
    let p = Packet { chip_index: 0, data: &d };
    assert_eq!(p.id(), 11);
    assert_eq!(p.y(), 5);
    assert_eq!(p.spidr(), 2);
    assert_eq!(p.toa(), 100);
    assert_eq!(p.ftoa(), 3);
    assert_eq!(p.tot(), 600);
    assert_eq!(p.ctoa(), 16 * 100 + 12);
    assert_eq!(p.x_unmod(), 245);
}

#[test]
fn electron_time_is_exact() {
    let d = pixel(10, 5, 2, 100, 3, 0);
    let p = Packet { chip_index: 0, data: &d };
    assert_eq!(p.electron_time(), 1_643_437_500);
    assert_eq!(Packet::calc_elec_time(2, 100, 3), 1_643_437_500);
}

#[test]
fn chip_remapping_places_each_chip_in_its_band() {
    let d = pixel(10, 0, 0, 0, 0, 0);
    let xs: Vec<usize> = (0u8..4).map(|c| Packet { chip_index: c, data: &d }.x()).collect();
    assert_eq!(xs, vec![245, 1013, 757, 501]);
    let bands = [0usize, 768, 512, 256];
    for c in 0..4 {
        assert!(bands[c] <= xs[c] && xs[c] < bands[c] + 256);
    }
    for a in 0..4 {
        for b in 0..4 {
            if a != b {
                assert_ne!(xs[a], xs[b]);
            }
        }
    }
    assert_eq!(Packet { chip_index: 7, data: &d }.x(), 10);
}

#[test]
fn chip_bands_do_not_touch() {
    let lo = pixel(0, 0, 0, 0, 0, 0);
    let hi = pixel(255, 0, 0, 0, 0, 0);
    assert_eq!(Packet { chip_index: 0, data: &lo }.x(), 255);
    assert_eq!(Packet { chip_index: 3, data: &hi }.x(), 256);
    assert_eq!(Packet { chip_index: 1, data: &hi }.x(), 768);
    assert_eq!(Packet { chip_index: 1, data: &lo }.x(), 1023);
}

#[test]
fn decoding_twice_gives_the_same_values() {
    let d = pixel(77, 200, 4321, 9000, 9, 17);
    let copy = d;
    let p = Packet { chip_index: 2, data: &d };
    let q = Packet { chip_index: 2, data: &copy };
    assert_eq!((p.x(), p.y(), p.electron_time()), (q.x(), q.y(), q.electron_time()));
}

#[test]
fn tdc_fields_decode() {
    let d = tdc(14, 0x4_2345_6789, 9, 0xABC);
    let p = Packet { chip_index: 0, data: &d };
    assert_eq!(p.id(), 6);
    assert_eq!(p.tdc_type(), 14);
    assert_eq!(p.tdc_coarse(), 0x4_2345_6789);
    assert_eq!(p.tdc_fine(), 9);
    assert_eq!(p.tdc_counter(), 0xABC);
    assert_eq!(p.tdc_time_norm(), 0x4_2345_6789 * 6250 + 9 * 520);
    assert_eq!(Packet::tdc_time(1000, 5), 6_252_600);
}

#[test]
fn tdc_kind_queries() {
    let d = tdc(10, 0, 0, 0);
    let p = Packet { chip_index: 0, data: &d };
    assert_eq!(p.tdc_type_as_enum(), Ok(TdcType::TdcOneFallingEdge));
    assert_eq!(p.is_tdc_type_onefal(), Ok(true));
    assert_eq!(p.is_tdc_type_oneris(), Ok(false));
    assert_eq!(p.is_tdc_type_tworis(), Ok(false));
    assert_eq!(p.is_tdc_type_twofal(), Ok(false));
    let bad = tdc(3, 0, 0, 0);
    let q = Packet { chip_index: 0, data: &bad };
    assert_eq!(q.tdc_type_as_enum(), Err("Bad TDC receival"));
    assert_eq!(q.is_tdc_type_oneris(), Err("Bad TDC receival"));
    assert_eq!(q.is_tdc_type_onefal(), Err("Bad TDC receival"));
    assert_eq!(q.is_tdc_type_tworis(), Err("Bad TDC receival"));
    assert_eq!(q.is_tdc_type_twofal(), Err("Bad TDC receival"));
}

#[test]
fn tdc_type_codes_and_names() {
    assert_eq!(TdcType::TdcOneRisingEdge.associate_value(), 15);
    assert_eq!(TdcType::TdcOneFallingEdge.associate_value(), 10);
    assert_eq!(TdcType::TdcTwoRisingEdge.associate_value(), 14);
    assert_eq!(TdcType::TdcTwoFallingEdge.associate_value(), 11);
    assert_eq!(TdcType::TdcTwoFallingEdge.associate_string(), "Two_Falling");
    assert_eq!(TdcType::TdcOneRisingEdge.associate_string(), "One_Rising");
}

#[test]
fn one_byte_bin_wraps_after_256_counts() {
    let mut data = vec![7u8, 42, 9];
    let mut wrapped = 0;
    for _ in 0..256 {
        if Packet::append_to_array(&mut data, 1, 1) {
            wrapped += 1;
        }
    }
    assert_eq!(data, vec![7, 42, 9]);
    assert_eq!(wrapped, 1);
}

#[test]
fn two_byte_bin_returns_to_zero_after_65536_counts() {
    let mut data = vec![0xAAu8, 0, 0, 0xBB, 0xCC];
    for _ in 0..65536 {
        Packet::append_to_array(&mut data, 1, 2);
    }
    assert_eq!(data, vec![0xAA, 0, 0, 0xBB, 0xCC]);
}

#[test]
fn bins_are_big_endian_with_carry() {
    let mut data = vec![0u8, 0, 0xFF, 0xFF, 1];
    assert!(!Packet::append_to_array(&mut data, 0, 4));
    assert_eq!(data, vec![0, 1, 0, 0, 1]);
    let mut two = vec![0u8, 0xFF];
    assert!(Packet::append_to_array(&mut two, 0, 2));
    assert_eq!(two, vec![1, 0]);
    let mut full = vec![0xFFu8, 0xFF, 0xFF, 0xFF, 5];
    Packet::append_to_array(&mut full, 0, 4);
    assert_eq!(full, vec![0, 0, 0, 0, 5]);
}

#[test]
fn index_bytes_are_big_endian() {
    let mut out = vec![9u8];
    Packet::append_to_index_array(&mut out, 0x0102_0304);
    assert_eq!(out, vec![9, 1, 2, 3, 4]);
}
