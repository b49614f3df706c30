//! Decoding of the 8-byte records of the detector stream.
use vstd::prelude::*;
use crate::config::Time;
use vstd::arithmetic::div_mod::{lemma_add_mod_noop, lemma_mod_self_0, lemma_small_mod};

verus! {

/// The four TDC edge kinds, as used by the histogram server.
#[derive(Clone, Copy, Debug, PartialEq, Eq, Structural)]
pub enum TdcType {
    TdcOneRisingEdge,
    TdcOneFallingEdge,
    TdcTwoRisingEdge,
    TdcTwoFallingEdge,
}

/// The 4-bit code that the hardware writes for each edge kind.
pub open spec fn tdc_code(t: TdcType) -> u8 {
    match t {
        TdcType::TdcOneRisingEdge => 15,
        TdcType::TdcOneFallingEdge => 10,
        TdcType::TdcTwoRisingEdge => 14,
        TdcType::TdcTwoFallingEdge => 11,
    }
}

/// The edge kind that a 4-bit code stands for, if any.
pub open spec fn tdc_of_code(v: int) -> Option<TdcType> {
    if v == 15 {
        Some(TdcType::TdcOneRisingEdge)
    } else if v == 10 {
        Some(TdcType::TdcOneFallingEdge)
    } else if v == 14 {
        Some(TdcType::TdcTwoRisingEdge)
    } else if v == 11 {
        Some(TdcType::TdcTwoFallingEdge)
    } else {
        None
    }
}

impl TdcType {
    pub fn associate_value(&self) -> (r: u8)
        ensures
            r == tdc_code(*self),
    {
        match *self {
            TdcType::TdcOneRisingEdge => 15,
            TdcType::TdcOneFallingEdge => 10,
            TdcType::TdcTwoRisingEdge => 14,
            TdcType::TdcTwoFallingEdge => 11,
        }
    }

    pub fn associate_string(&self) -> (r: &'static str)
        ensures
            *self == TdcType::TdcOneRisingEdge ==> r@ == "One_Rising"@,
            *self == TdcType::TdcOneFallingEdge ==> r@ == "One_Falling"@,
            *self == TdcType::TdcTwoRisingEdge ==> r@ == "Two_Rising"@,
            *self == TdcType::TdcTwoFallingEdge ==> r@ == "Two_Falling"@,
    {
        match *self {
            TdcType::TdcOneRisingEdge => "One_Rising",
            TdcType::TdcOneFallingEdge => "One_Falling",
            TdcType::TdcTwoRisingEdge => "Two_Rising",
            TdcType::TdcTwoFallingEdge => "Two_Falling",
        }
    }
}

/// The first four bytes of a chip marker record: "TPX3".
pub open spec fn is_chip_marker(r: Seq<u8>) -> bool {
    r.len() >= 5 && r[0] == 84 && r[1] == 80 && r[2] == 88 && r[3] == 51
}

/// The `k`-th 8-byte record of `data`.
pub open spec fn record(data: Seq<u8>, k: int) -> Seq<u8> {
    data.subrange(8 * k, 8 * k + 8)
}

/// Column within its chip, as the hardware encodes it (0..=255).
pub open spec fn raw_x(d: Seq<u8>) -> int {
    (d[5] as int / 64) % 2 + 2 * (d[6] as int / 32) + 16 * (d[7] as int % 16)
}

/// First column of the band that a chip occupies in the shared plane.
pub open spec fn chip_band_start(chip: u8) -> int {
    if chip == 0 {
        0
    } else if chip == 3 {
        256
    } else if chip == 2 {
        512
    } else {
        768
    }
}

/// Column in the shared plane: each of chips 0..=3 is mirrored into its own band of 256 columns;
/// any other chip index keeps the raw column.
pub open spec fn remap_x(chip: u8, raw: int) -> int {
    if chip <= 3 {
        chip_band_start(chip) + 255 - raw
    } else {
        raw
    }
}

pub open spec fn spec_x(chip: u8, d: Seq<u8>) -> int {
    remap_x(chip, raw_x(d))
}

pub open spec fn spec_y(d: Seq<u8>) -> int {
    4 * (d[5] as int / 128) + 8 * (d[6] as int % 32) + (d[5] as int / 16) % 4
}

pub open spec fn spec_id(d: Seq<u8>) -> int {
    d[7] as int / 16
}

pub open spec fn spec_spidr(d: Seq<u8>) -> int {
    d[0] as int + 256 * d[1] as int
}

pub open spec fn spec_ftoa(d: Seq<u8>) -> int {
    d[2] as int % 16
}

pub open spec fn spec_tot(d: Seq<u8>) -> int {
    d[2] as int / 16 + 16 * (d[3] as int % 64)
}

pub open spec fn spec_toa(d: Seq<u8>) -> int {
    d[3] as int / 64 + 4 * d[4] as int + 1024 * (d[5] as int % 16)
}

/// Combined time of arrival in steps of 1.5625 ns: the 14-bit ToA refined by the inverted FToA.
pub open spec fn combine_toa(toa: int, ftoa: int) -> int {
    16 * toa + (15 - ftoa)
}

pub open spec fn spec_ctoa(d: Seq<u8>) -> int {
    combine_toa(spec_toa(d), spec_ftoa(d))
}

/// Arrival time: spidr * 409.6 us + ctoa * 1.5625 ns, in half-picoseconds.
pub open spec fn elec_time_of(spidr: int, ctoa: int) -> int {
    spidr * 819_200_000 + ctoa * 3125
}

pub open spec fn spec_electron_time(d: Seq<u8>) -> int {
    elec_time_of(spec_spidr(d), spec_ctoa(d))
}

pub open spec fn spec_tdc_coarse(d: Seq<u8>) -> int {
    d[1] as int / 2 + 128 * d[2] as int + 32768 * d[3] as int + 8388608 * d[4] as int
        + 2147483648 * (d[5] as int % 16)
}

pub open spec fn spec_tdc_fine(d: Seq<u8>) -> int {
    d[0] as int / 32 + 8 * (d[1] as int % 2)
}

pub open spec fn spec_tdc_counter(d: Seq<u8>) -> int {
    d[5] as int / 16 + 16 * d[6] as int
}

pub open spec fn spec_tdc_type(d: Seq<u8>) -> int {
    d[7] as int % 16
}

/// TDC time: coarse * 3.125 ns + fine * 260 ps, in half-picoseconds.
pub open spec fn tdc_time_of(coarse: int, fine: int) -> int {
    coarse * 6250 + fine * 520
}

pub open spec fn spec_tdc_time(d: Seq<u8>) -> int {
    tdc_time_of(spec_tdc_coarse(d), spec_tdc_fine(d))
}

/// Value of the big-endian bin of `w` bytes that starts at `start`.
pub open spec fn bin_value(s: Seq<u8>, start: int, w: nat) -> int
    decreases w,
{
    if w == 0 {
        0
    } else {
        bin_value(s, start, (w - 1) as nat) * 256 + s[start + w - 1] as int
    }
}

/// Number of distinct values of a bin of `w` bytes.
pub open spec fn bin_modulus(w: nat) -> int
    decreases w,
{
    if w == 0 {
        1
    } else {
        256 * bin_modulus((w - 1) as nat)
    }
}

/// `new` is `old` with the bin at `start` counted up by one modulo its width, and every other
/// byte as it was.
pub open spec fn bin_incremented(old: Seq<u8>, new: Seq<u8>, start: int, w: nat) -> bool {
    &&& new.len() == old.len()
    &&& forall|j: int| 0 <= j < old.len() && !(start <= j < start + w) ==> new[j] == old[j]
    &&& bin_value(new, start, w) == (bin_value(old, start, w) + 1) % bin_modulus(w)
}

/// The four bytes, most significant first, of the low 32 bits of `v`.
pub open spec fn be_bytes32(v: int) -> Seq<u8> {
    seq![
        ((v / 0x100_0000) % 256) as u8,
        ((v / 0x1_0000) % 256) as u8,
        ((v / 0x100) % 256) as u8,
        (v % 256) as u8,
    ]
}

/// The bytes of the bin changed by a ripple carry: the least significant byte counted up, and
/// each more significant byte counted up exactly when the byte below it wrapped to zero.
spec fn ripple(o: Seq<u8>, n: Seq<u8>, start: int, w: nat) -> bool
    decreases w,
{
    if w == 0 {
        true
    } else {
        let p = start + w - 1;
        &&& n[p] as int == (o[p] as int + 1) % 256
        &&& if n[p] == 0 {
            ripple(o, n, start, (w - 1) as nat)
        } else {
            forall|i: int| start <= i < p ==> n[i] == o[i]
        }
    }
}

proof fn lemma_bin_value_same(s: Seq<u8>, t: Seq<u8>, start: int, w: nat)
    requires
        forall|i: int| start <= i < start + w ==> s[i] == t[i],
    ensures
        bin_value(s, start, w) == bin_value(t, start, w),
    decreases w,
{
    if w > 0 {
        lemma_bin_value_same(s, t, start, (w - 1) as nat);
    }
}

proof fn lemma_ripple_value(o: Seq<u8>, n: Seq<u8>, start: int, w: nat)
    requires
        0 <= start,
        start + w <= o.len(),
        start + w <= n.len(),
        ripple(o, n, start, w),
    ensures
        bin_value(n, start, w) == (bin_value(o, start, w) + 1) % bin_modulus(w),
    decreases w,
{
    if w > 0 {
        let w1 = (w - 1) as nat;
        let p = start + w1;
        let m1 = bin_modulus(w1);
        let a = bin_value(o, start, w1);
        lemma_bin_value_bounds(o, start, w1);
        lemma_bin_value_bounds(n, start, w1);
        if n[p] == 0 {
            lemma_ripple_value(o, n, start, w1);
            assert(o[p] == 255);
            if a + 1 < m1 {
                lemma_small_mod((a + 1) as nat, m1 as nat);
                lemma_small_mod(((a + 1) * 256) as nat, (256 * m1) as nat);
            } else {
                assert(a + 1 == m1);
                lemma_mod_self_0(m1);
                lemma_mod_self_0(256 * m1);
            }
        } else {
            lemma_bin_value_same(o, n, start, w1);
            assert(o[p] < 255);
            lemma_small_mod((a * 256 + o[p] + 1) as nat, (256 * m1) as nat);
        }
    }
}

/// `s` with the bin of `w` bytes at `start` set to `v`, most significant byte first.
pub open spec fn write_bin(s: Seq<u8>, start: int, w: nat, v: int) -> Seq<u8>
    decreases w,
{
    if w == 0 {
        s
    } else {
        write_bin(s.update(start + w - 1, (v % 256) as u8), start, (w - 1) as nat, v / 256)
    }
}

/// `s` with the bin of `w` bytes at `start` counted up by one, modulo its width.
pub open spec fn bin_after_increment(s: Seq<u8>, start: int, w: nat) -> Seq<u8> {
    write_bin(s, start, w, (bin_value(s, start, w) + 1) % bin_modulus(w))
}

proof fn lemma_write_bin(s: Seq<u8>, start: int, w: nat, v: int)
    requires
        0 <= start,
        start + w <= s.len(),
        0 <= v < bin_modulus(w),
    ensures
        write_bin(s, start, w, v).len() == s.len(),
        forall|j: int|
            0 <= j < s.len() && !(start <= j < start + w) ==> write_bin(s, start, w, v)[j]
                == s[j],
        bin_value(write_bin(s, start, w, v), start, w) == v,
    decreases w,
{
    if w > 0 {
        let w1 = (w - 1) as nat;
        let s1 = s.update(start + w1, (v % 256) as u8);
        let m1 = bin_modulus(w1);
        assert(0 <= v / 256 < m1) by (nonlinear_arith)
            requires
                0 <= v < 256 * m1,
        ;
        lemma_write_bin(s1, start, w1, v / 256);
        let r = write_bin(s1, start, w1, v / 256);
        assert(r[start + w1] == s1[start + w1]);
        assert forall|j: int| 0 <= j < s.len() && !(start <= j < start + w) implies r[j]
            == s[j] by {
            assert(r[j] == s1[j]);
        }
    }
}

/// The relational and the functional description of one count agree.
proof fn lemma_incremented_is_write(o: Seq<u8>, n: Seq<u8>, start: int, w: nat)
    requires
        0 <= start,
        start + w <= o.len(),
        bin_incremented(o, n, start, w),
    ensures
        n == bin_after_increment(o, start, w),
{
    let m = bin_modulus(w);
    let v = (bin_value(o, start, w) + 1) % m;
    lemma_bin_value_bounds(o, start, w);
    lemma_write_bin(o, start, w, v);
    let t = write_bin(o, start, w, v);
    lemma_bin_value_injective(n, t, start, w);
    assert(n =~= t);
}

pub proof fn lemma_bin_value_bounds(s: Seq<u8>, start: int, w: nat)
    requires
        0 <= start,
        start + w <= s.len(),
    ensures
        0 <= bin_value(s, start, w) < bin_modulus(w),
    decreases w,
{
    if w > 0 {
        lemma_bin_value_bounds(s, start, (w - 1) as nat);
    }
}

/// Two bins of the same value hold the same bytes.
pub proof fn lemma_bin_value_injective(s: Seq<u8>, t: Seq<u8>, start: int, w: nat)
    requires
        0 <= start,
        start + w <= s.len(),
        start + w <= t.len(),
        bin_value(s, start, w) == bin_value(t, start, w),
    ensures
        forall|i: int| start <= i < start + w ==> s[i] == t[i],
    decreases w,
{
    if w > 0 {
        let w1 = (w - 1) as nat;
        let a = bin_value(s, start, w1);
        let c = bin_value(t, start, w1);
        let b = s[start + w1] as int;
        let d = t[start + w1] as int;
        lemma_bin_value_bounds(s, start, w1);
        lemma_bin_value_bounds(t, start, w1);
        assert(a * 256 + b == c * 256 + d);
        assert(a == c && b == d) by (nonlinear_arith)
            requires
                a * 256 + b == c * 256 + d,
                0 <= b < 256,
                0 <= d < 256,
                0 <= a,
                0 <= c,
        ;
        lemma_bin_value_injective(s, t, start, w1);
    }
}

proof fn lemma_bin_steps(states: Seq<Seq<u8>>, start: int, w: nat, k: nat)
    requires
        states.len() == bin_modulus(w) + 1,
        0 <= start,
        start + w <= states[0].len(),
        forall|i: int|
            0 <= i < bin_modulus(w) ==> #[trigger] bin_incremented(
                states[i],
                states[i + 1],
                start,
                w,
            ),
        k <= bin_modulus(w),
    ensures
        states[k as int].len() == states[0].len(),
        forall|j: int|
            0 <= j < states[0].len() && !(start <= j < start + w) ==> states[k as int][j]
                == states[0][j],
        bin_value(states[k as int], start, w) == (bin_value(states[0], start, w) + k)
            % bin_modulus(w),
    decreases k,
{
    let m = bin_modulus(w);
    lemma_bin_value_bounds(states[0], start, w);
    if k == 0 {
        lemma_small_mod(bin_value(states[0], start, w) as nat, m as nat);
    } else {
        let k1 = (k - 1) as nat;
        lemma_bin_steps(states, start, w, k1);
        assert(bin_incremented(states[k1 as int], states[k1 + 1int], start, w));
        let v0 = bin_value(states[0], start, w);
        let a = (v0 + k1) % m;
        lemma_add_mod_noop(v0 + k1, 1, m);
        lemma_add_mod_noop(a, 1, m);
        lemma_small_mod(a as nat, m as nat);
    }
}

/// Counting a bin up once per value it can hold brings the whole buffer back to where it was.
pub proof fn lemma_bin_full_cycle(states: Seq<Seq<u8>>, start: int, w: nat)
    requires
        states.len() == bin_modulus(w) + 1,
        0 <= start,
        start + w <= states[0].len(),
        forall|i: int|
            0 <= i < bin_modulus(w) ==> #[trigger] bin_incremented(
                states[i],
                states[i + 1],
                start,
                w,
            ),
    ensures
        states[bin_modulus(w)] == states[0],
{
    let m = bin_modulus(w);
    lemma_bin_value_bounds(states[0], start, w);
    lemma_bin_steps(states, start, w, m as nat);
    let v0 = bin_value(states[0], start, w);
    assert((v0 + m) % m == v0) by {
        lemma_add_mod_noop(v0, m, m);
        lemma_small_mod(v0 as nat, m as nat);
    }
    lemma_bin_value_injective(states[m], states[0], start, w);
    assert(states[m] =~= states[0]);
}

/// Decoding is a function of the record bytes and the chip index alone: the same bytes read
/// for the same chip give the same position and arrival time.
pub proof fn lemma_decode_deterministic(p: Packet, q: Packet)
    requires
        p.wf(),
        p.data@ == q.data@,
        p.chip_index == q.chip_index,
    ensures
        spec_x(p.chip_index, p.data@) == spec_x(q.chip_index, q.data@),
        spec_y(p.data@) == spec_y(q.data@),
        spec_electron_time(p.data@) == spec_electron_time(q.data@),
{
}

/// Each of chips 0..=3 maps every raw column into its own band of 256 columns, so the four
/// chips never share a column, and for one raw column the four chips give four columns.
pub proof fn lemma_chip_bands(raw: int, other: int)
    requires
        0 <= raw <= 255,
        0 <= other <= 255,
    ensures
        forall|c: u8|
            c <= 3 ==> chip_band_start(c) <= #[trigger] remap_x(c, raw) < chip_band_start(c)
                + 256,
        forall|c: u8, d: u8|
            c <= 3 && d <= 3 && c != d ==> #[trigger] remap_x(c, raw) != #[trigger] remap_x(
                d,
                other,
            ),
{
}

/// One event record of the stream together with the chip it came from.
pub struct Packet<'a> {
    pub chip_index: u8,
    pub data: &'a [u8],
}

impl Packet<'_> {
    /// The record is exactly eight bytes long.
    pub open spec fn wf(&self) -> bool {
        self.data@.len() == 8
    }

    pub fn x(&self) -> (r: usize)
        requires
            self.wf(),
        ensures
            r == spec_x(self.chip_index, self.data@),
            r < 1024,
    {
        let temp = self.raw_column();
        match self.chip_index {
            0 => 255 - temp,
            1 => 256 * 4 - 1 - temp,
            2 => 256 * 3 - 1 - temp,
            3 => 256 * 2 - 1 - temp,
            _ => temp,
        }
    }

    fn raw_column(&self) -> (r: usize)
        requires
            self.wf(),
        ensures
            r == raw_x(self.data@),
            r <= 255,
    {
        let d5 = self.data[5];
        let d6 = self.data[6];
        let d7 = self.data[7];
        let t: u8 = ((d6 & 224) >> 4 | (d7 & 15) << 4) | (((d5 & 112) >> 4) >> 2);
        assert(t as int == (d5 as int / 64) % 2 + 2 * (d6 as int / 32) + 16 * (d7 as int % 16))
            by (bit_vector)
            requires
                t == ((d6 & 224) >> 4 | (d7 & 15) << 4) | (((d5 & 112) >> 4) >> 2),
        ;
        t as usize
    }

    /// Mirrored column within the chip.
    pub fn x_unmod(&self) -> (r: usize)
        requires
            self.wf(),
        ensures
            r == 255 - raw_x(self.data@),
    {
        255 - self.raw_column()
    }

    pub fn y(&self) -> (r: usize)
        requires
            self.wf(),
        ensures
            r == spec_y(self.data@),
            r < 256,
    {
        let d5 = self.data[5];
        let d6 = self.data[6];
        let t: u8 = (((d5 & 128) >> 5) | ((d6 & 31) << 3)) | (((d5 & 112) >> 4) & 3);
        assert(t as int == 4 * (d5 as int / 128) + 8 * (d6 as int % 32) + (d5 as int / 16) % 4)
            by (bit_vector)
            requires
                t == (((d5 & 128) >> 5) | ((d6 & 31) << 3)) | (((d5 & 112) >> 4) & 3),
        ;
        t as usize
    }

    /// Record kind: 11 for a pixel hit, 6 for a TDC edge.
    pub fn id(&self) -> (r: u8)
        requires
            self.wf(),
        ensures
            r == spec_id(self.data@),
    {
        let d7 = self.data[7];
        assert((d7 & 240) >> 4 == d7 / 16) by (bit_vector);
        (d7 & 240) >> 4
    }

    pub fn spidr(&self) -> (r: u16)
        requires
            self.wf(),
        ensures
            r == spec_spidr(self.data@),
    {
        let d0 = self.data[0];
        let d1 = self.data[1];
        let r: u16 = (d0 as u16) | (d1 as u16) << 8;
        assert(r as int == d0 as int + 256 * d1 as int) by (bit_vector)
            requires
                r == (d0 as u16) | (d1 as u16) << 8,
        ;
        r
    }

    pub fn ftoa(&self) -> (r: u8)
        requires
            self.wf(),
        ensures
            r == spec_ftoa(self.data@),
    {
        let d2 = self.data[2];
        assert(d2 & 15 == d2 % 16) by (bit_vector);
        d2 & 15
    }

    pub fn tot(&self) -> (r: u16)
        requires
            self.wf(),
        ensures
            r == spec_tot(self.data@),
    {
        let d2 = self.data[2];
        let d3 = self.data[3];
        let r: u16 = ((d2 & 240) as u16) >> 4 | ((d3 & 63) as u16) << 4;
        assert(r as int == d2 as int / 16 + 16 * (d3 as int % 64)) by (bit_vector)
            requires
                r == ((d2 & 240) as u16) >> 4 | ((d3 & 63) as u16) << 4,
        ;
        r
    }

    pub fn toa(&self) -> (r: u16)
        requires
            self.wf(),
        ensures
            r == spec_toa(self.data@),
    {
        let d3 = self.data[3];
        let d4 = self.data[4];
        let d5 = self.data[5];
        let r: u16 = ((d3 & 192) as u16) >> 6 | (d4 as u16) << 2 | ((d5 & 15) as u16) << 10;
        assert(r as int == d3 as int / 64 + 4 * d4 as int + 1024 * (d5 as int % 16))
            by (bit_vector)
            requires
                r == ((d3 & 192) as u16) >> 6 | (d4 as u16) << 2 | ((d5 & 15) as u16) << 10,
        ;
        r
    }

    pub fn ctoa(&self) -> (r: u32)
        requires
            self.wf(),
        ensures
            r == spec_ctoa(self.data@),
            r < 262144,
    {
        let toa = self.toa() as u32;
        let ftoa = self.ftoa() as u32;
        let r: u32 = (toa << 4) | (!ftoa & 15);
        assert(r as int == 16 * toa as int + (15 - ftoa as int)) by (bit_vector)
            requires
                r == (toa << 4) | (!ftoa & 15),
                toa < 65536,
                ftoa < 16,
        ;
        r
    }

    /// Arrival time of a pixel hit.
    pub fn electron_time(&self) -> (r: Time)
        requires
            self.wf(),
        ensures
            r == spec_electron_time(self.data@),
            r < 0x4000_0000_0000,
    {
        Self::calc_elec_time(self.spidr(), self.toa(), self.ftoa())
    }

    /// Arrival time from its three counters; `ftoa` is a 4-bit field.
    pub fn calc_elec_time(spidr: u16, toa: u16, ftoa: u8) -> (r: Time)
        requires
            ftoa < 16,
        ensures
            r == elec_time_of(spidr as int, combine_toa(toa as int, ftoa as int)),
            toa < 16384 ==> r < 0x4000_0000_0000,
    {
        let ctoa = (toa as u64) * 16 + (15 - ftoa as u64);
        (spidr as u64) * 819_200_000 + ctoa * 3125
    }

    pub fn tdc_coarse(&self) -> (r: u64)
        requires
            self.wf(),
        ensures
            r == spec_tdc_coarse(self.data@),
            r < 0x8_0000_0000,
    {
        let d1 = self.data[1];
        let d2 = self.data[2];
        let d3 = self.data[3];
        let d4 = self.data[4];
        let d5 = self.data[5];
        let r: u64 = ((d1 & 254) as u64) >> 1 | (d2 as u64) << 7 | (d3 as u64) << 15
            | (d4 as u64) << 23 | ((d5 & 15) as u64) << 31;
        assert(r as int == d1 as int / 2 + 128 * d2 as int + 32768 * d3 as int + 8388608
            * d4 as int + 2147483648 * (d5 as int % 16)) by (bit_vector)
            requires
                r == ((d1 & 254) as u64) >> 1 | (d2 as u64) << 7 | (d3 as u64) << 15 | (
                d4 as u64) << 23 | ((d5 & 15) as u64) << 31,
        ;
        r
    }

    pub fn tdc_fine(&self) -> (r: u8)
        requires
            self.wf(),
        ensures
            r == spec_tdc_fine(self.data@),
            r < 16,
    {
        let d0 = self.data[0];
        let d1 = self.data[1];
        let r: u8 = (d0 & 224) >> 5 | (d1 & 1) << 3;
        assert(r as int == d0 as int / 32 + 8 * (d1 as int % 2)) by (bit_vector)
            requires
                r == (d0 & 224) >> 5 | (d1 & 1) << 3,
        ;
        r
    }

    /// The 12-bit hardware counter of TDC edges.
    pub fn tdc_counter(&self) -> (r: u16)
        requires
            self.wf(),
        ensures
            r == spec_tdc_counter(self.data@),
            r < 4096,
    {
        let d5 = self.data[5];
        let d6 = self.data[6];
        let r: u16 = ((d5 & 240) as u16) >> 4 | (d6 as u16) << 4;
        assert(r as int == d5 as int / 16 + 16 * d6 as int) by (bit_vector)
            requires
                r == ((d5 & 240) as u16) >> 4 | (d6 as u16) << 4,
        ;
        r
    }

    pub fn tdc_type(&self) -> (r: u8)
        requires
            self.wf(),
        ensures
            r == spec_tdc_type(self.data@),
    {
        let d7 = self.data[7];
        assert(d7 & 15 == d7 % 16) by (bit_vector);
        d7 & 15
    }

    pub fn tdc_type_as_enum(&self) -> (r: Result<TdcType, &'static str>)
        requires
            self.wf(),
        ensures
            match tdc_of_code(spec_tdc_type(self.data@)) {
                Some(t) => r == Ok::<TdcType, &str>(t),
                None => r == Err::<TdcType, &str>("Bad TDC receival"),
            },
    {
        match self.tdc_type() {
            15 => Ok(TdcType::TdcOneRisingEdge),
            10 => Ok(TdcType::TdcOneFallingEdge),
            14 => Ok(TdcType::TdcTwoRisingEdge),
            11 => Ok(TdcType::TdcTwoFallingEdge),
            _ => Err("Bad TDC receival"),
        }
    }

    pub fn is_tdc_type_oneris(&self) -> (r: Result<bool, &'static str>)
        requires
            self.wf(),
        ensures
            Self::is_kind(r, spec_tdc_type(self.data@), TdcType::TdcOneRisingEdge),
    {
        match self.tdc_type() {
            15 => Ok(true),
            10 | 14 | 11 => Ok(false),
            _ => Err("Bad TDC receival"),
        }
    }

    pub fn is_tdc_type_onefal(&self) -> (r: Result<bool, &'static str>)
        requires
            self.wf(),
        ensures
            Self::is_kind(r, spec_tdc_type(self.data@), TdcType::TdcOneFallingEdge),
    {
        match self.tdc_type() {
            10 => Ok(true),
            15 | 14 | 11 => Ok(false),
            _ => Err("Bad TDC receival"),
        }
    }

    pub fn is_tdc_type_tworis(&self) -> (r: Result<bool, &'static str>)
        requires
            self.wf(),
        ensures
            Self::is_kind(r, spec_tdc_type(self.data@), TdcType::TdcTwoRisingEdge),
    {
        match self.tdc_type() {
            14 => Ok(true),
            10 | 15 | 11 => Ok(false),
            _ => Err("Bad TDC receival"),
        }
    }

    pub fn is_tdc_type_twofal(&self) -> (r: Result<bool, &'static str>)
        requires
            self.wf(),
        ensures
            Self::is_kind(r, spec_tdc_type(self.data@), TdcType::TdcTwoFallingEdge),
    {
        match self.tdc_type() {
            11 => Ok(true),
            10 | 14 | 15 => Ok(false),
            _ => Err("Bad TDC receival"),
        }
    }

    /// `r` answers whether the code `v` is the edge kind `t`, and is the error "Bad TDC
    /// receival" for a code that is no edge kind.
    pub open spec fn is_kind(r: Result<bool, &str>, v: int, t: TdcType) -> bool {
        match tdc_of_code(v) {
            Some(k) => r == Ok::<bool, &str>(k == t),
            None => r == Err::<bool, &str>("Bad TDC receival"),
        }
    }

    /// Time of a TDC edge.
    pub fn tdc_time_norm(&self) -> (r: Time)
        requires
            self.wf(),
        ensures
            r == spec_tdc_time(self.data@),
            r < 0x1_0000_0000_0000,
    {
        Self::tdc_time(self.tdc_coarse(), self.tdc_fine())
    }

    /// TDC time from its counters; `coarse` is a 35-bit field and `fine` a 4-bit one.
    pub fn tdc_time(coarse: u64, fine: u8) -> (r: Time)
        requires
            coarse < 0x8_0000_0000,
            fine < 16,
        ensures
            r == tdc_time_of(coarse as int, fine as int),
            r < 0x1_0000_0000_0000,
    {
        coarse * 6250 + (fine as u64) * 520
    }
    /// Counts one event into bin `index` of a histogram of big-endian bins of `bytedepth` bytes.
    /// A carry out of the most significant byte is dropped, so the bin wraps to zero.
    /// Returns whether the least significant byte wrapped, for bins of one or two bytes.
    #[verifier::rlimit(50)]
    pub fn append_to_array(data: &mut [u8], index: usize, bytedepth: usize) -> (r: bool)
        requires
            bytedepth == 1 || bytedepth == 2 || bytedepth == 4,
            (index + 1) * bytedepth <= old(data)@.len(),
        ensures
            bin_incremented(old(data)@, final(data)@, index * bytedepth, bytedepth as nat),
            final(data)@ == bin_after_increment(old(data)@, index * bytedepth, bytedepth as nat),
            r == (bytedepth != 4 && final(data)@[index * bytedepth + bytedepth - 1] == 0),
    {
        proof {
            reveal_with_fuel(ripple, 5);
        }
        assert(index * bytedepth + bytedepth == (index + 1) * bytedepth) by (nonlinear_arith);
        let index = index * bytedepth;
        let ghost o = data@;
        let r = if bytedepth == 4 {
            data[index + 3] = data[index + 3].wrapping_add(1);
            if data[index + 3] == 0 {
                data[index + 2] = data[index + 2].wrapping_add(1);
                if data[index + 2] == 0 {
                    data[index + 1] = data[index + 1].wrapping_add(1);
                    if data[index + 1] == 0 {
                        data[index] = data[index].wrapping_add(1);
                    }
                }
            }
            false
        } else if bytedepth == 2 {
            data[index + 1] = data[index + 1].wrapping_add(1);
            if data[index + 1] == 0 {
                data[index] = data[index].wrapping_add(1);
                true
            } else {
                false
            }
        } else {
            data[index] = data[index].wrapping_add(1);
            data[index] == 0
        };
        proof {
            assert(ripple(o, data@, index as int, bytedepth as nat));
            lemma_ripple_value(o, data@, index as int, bytedepth as nat);
            lemma_incremented_is_write(o, data@, index as int, bytedepth as nat);
        }
        r
    }

    /// Appends the low 32 bits of `index` as four big-endian bytes.
    pub fn append_to_index_array(data: &mut Vec<u8>, index: usize)
        ensures
            final(data)@ == old(data)@ + be_bytes32(index as int),
    {
        let b0 = ((index & 4_278_190_080) >> 24) as u8;
        let b1 = ((index & 16_711_680) >> 16) as u8;
        let b2 = ((index & 65_280) >> 8) as u8;
        let b3 = (index & 255) as u8;
        assert(b0 == ((index as int / 0x100_0000) % 256) as u8 && b1 == ((index as int / 0x1_0000)
            % 256) as u8 && b2 == ((index as int / 0x100) % 256) as u8 && b3 == (index as int
            % 256) as u8) by (bit_vector)
            requires
                b0 == ((index & 4_278_190_080) >> 24) as u8,
                b1 == ((index & 16_711_680) >> 16) as u8,
                b2 == ((index & 65_280) >> 8) as u8,
                b3 == (index & 255) as u8,
        ;
        data.push(b0);
        data.push(b1);
        data.push(b2);
        data.push(b3);
        assert(data@ =~= old(data)@ + be_bytes32(index as int));
    }
}

} // verus!
