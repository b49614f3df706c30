//! Live accumulation of full frames: pixel hits go into a histogram of saturating bins, the
//! frame clock decides when a frame is ready, and each ready frame gets a text header.
use vstd::prelude::*;
use crate::config::{CAM_HEIGHT, CAM_WIDTH, Settings, Time, UNITS_PER_SECOND};
use crate::packet::{
    Packet, bin_after_increment, is_chip_marker, record, spec_id, spec_tdc_counter,
    spec_tdc_time, spec_tdc_type, spec_x, spec_y,
};
use crate::tdc::{OVERFLOW_LIMIT, PeriodicTdcRef, TdcControl};
use vstd::slice::slice_subrange;
use vstd::string::StringSliceAdditionalSpecFns;

verus! {

/// What an accumulation buffer holds: its bytes and whether a frame is ready.
pub struct AccModel {
    pub bytes: Seq<u8>,
    pub ready: bool,
}

/// Byte that ends every frame payload.
pub const FRAME_END: u8 = 10;

/// Bin that records the edges of a reference without period: the last column.
pub const TDC_MARK_INDEX: usize = 1023;

/// A histogram frame of zeros followed by the end byte.
pub open spec fn blank_frame(settings: Settings) -> Seq<u8> {
    Seq::new(settings.frame_bytes() as nat, |i: int| 0u8).push(FRAME_END)
}

/// The buffer with one more count in bin `index`.
pub open spec fn hit_model(m: AccModel, index: int, settings: Settings) -> AccModel {
    AccModel {
        bytes: bin_after_increment(m.bytes, index * settings.bytedepth, settings.bytedepth as nat),
        ready: m.ready,
    }
}

/// The buffer after a frame edge; it becomes ready when the frame rule fired.
pub open spec fn frame_model(m: AccModel, fired: bool) -> AccModel {
    AccModel { bytes: m.bytes, ready: m.ready || fired }
}

/// The buffer after its frame was sent: cleared unless frames accumulate.
pub open spec fn reset_model(m: AccModel, settings: Settings) -> AccModel {
    AccModel {
        bytes: if settings.cumul {
            m.bytes
        } else {
            blank_frame(settings)
        },
        ready: false,
    }
}

/// An accumulation buffer of the frame pipeline.
pub trait SpecKind: Sized {
    spec fn model(&self) -> AccModel;

    /// The buffer is laid out for these settings.
    spec fn fits(&self, settings: Settings) -> bool;

    fn add_electron_hit(&mut self, index: usize, pack: &Packet, settings: &Settings)
        requires
            old(self).fits(*settings),
            index < settings.lines() * CAM_WIDTH,
        ensures
            final(self).fits(*settings),
            final(self).model() == hit_model(old(self).model(), index as int, *settings),
    ;

    fn add_tdc_hit<T: TdcControl>(&mut self, pack: &Packet, settings: &Settings, ref_tdc: &mut T)
        requires
            old(self).fits(*settings),
            pack.wf(),
            old(ref_tdc).tdc_wf(),
            old(ref_tdc).headroom() > 0,
        ensures
            final(self).fits(*settings),
            *final(ref_tdc) == old(ref_tdc).upt_spec(
                spec_tdc_time(pack.data@) as Time,
                spec_tdc_counter(pack.data@) as u16,
            ),
            final(ref_tdc).tdc_wf(),
            final(ref_tdc).headroom() + 1 >= old(ref_tdc).headroom(),
            final(ref_tdc).spec_id() == old(ref_tdc).spec_id(),
            final(ref_tdc).spec_period() == old(ref_tdc).spec_period(),
            final(self).model() == if old(ref_tdc).spec_period() is None {
                hit_model(old(self).model(), TDC_MARK_INDEX as int, *settings)
            } else {
                old(self).model()
            },
    ;

    fn upt_frame(&mut self, pack: &Packet, frame_tdc: &mut PeriodicTdcRef)
        requires
            pack.wf(),
            old(frame_tdc).wf(),
            old(frame_tdc).counter_overflow < OVERFLOW_LIMIT,
        ensures
            forall|s: Settings| old(self).fits(s) ==> final(self).fits(s),
            *final(frame_tdc) == old(frame_tdc).upt_spec(
                spec_tdc_time(pack.data@) as Time,
                spec_tdc_counter(pack.data@) as u16,
            ),
            final(frame_tdc).wf(),
            final(self).model() == frame_model(
                old(self).model(),
                final(frame_tdc).spec_frame_boundary(),
            ),
    ;

    fn is_ready(&self) -> (r: bool)
        ensures
            r == self.model().ready,
    ;

    fn build_output(&self) -> (r: &[u8])
        ensures
            r@ == self.model().bytes,
    ;

    fn reset_or_else(&mut self, settings: &Settings)
        requires
            old(self).fits(*settings),
        ensures
            final(self).fits(*settings),
            final(self).model() == reset_model(old(self).model(), *settings),
    ;

    fn new(settings: &Settings) -> (r: Self)
        requires
            settings.depth_ok(),
        ensures
            r.fits(*settings),
            r.model() == (AccModel { bytes: blank_frame(*settings), ready: false }),
    ;
}

/// A full-frame histogram: `len` bytes of bins followed by the end byte.
pub struct Live {
    pub data: Vec<u8>,
    pub len: usize,
    pub is_ready: bool,
}

impl SpecKind for Live {
    open spec fn model(&self) -> AccModel {
        AccModel { bytes: self.data@, ready: self.is_ready }
    }

    open spec fn fits(&self, settings: Settings) -> bool {
        &&& settings.depth_ok()
        &&& self.len == settings.frame_bytes()
        &&& self.data@.len() == self.len + 1
    }

    fn add_electron_hit(&mut self, index: usize, _pack: &Packet, settings: &Settings) {
        assert((index + 1) * settings.bytedepth <= settings.frame_bytes()) by (nonlinear_arith)
            requires
                index < settings.lines() * CAM_WIDTH,
                settings.frame_bytes() == settings.lines() * settings.bytedepth * CAM_WIDTH,
                settings.bytedepth >= 1,
        ;
        append_to_array(self.data.as_mut_slice(), index, settings.bytedepth);
    }

    fn add_tdc_hit<T: TdcControl>(&mut self, pack: &Packet, settings: &Settings, ref_tdc: &mut T) {
        ref_tdc.upt(pack.tdc_time_norm(), pack.tdc_counter());
        if ref_tdc.period().is_none() {
            assert((TDC_MARK_INDEX + 1) * settings.bytedepth <= settings.frame_bytes())
                by (nonlinear_arith)
                requires
                    settings.lines() >= 1,
                    settings.frame_bytes() == settings.lines() * settings.bytedepth * CAM_WIDTH,
                    settings.bytedepth >= 1,
            ;
            append_to_array(self.data.as_mut_slice(), TDC_MARK_INDEX, settings.bytedepth);
        }
    }

    fn upt_frame(&mut self, pack: &Packet, frame_tdc: &mut PeriodicTdcRef) {
        frame_tdc.upt(pack.tdc_time_norm(), pack.tdc_counter());
        if frame_tdc.at_frame_boundary() {
            self.is_ready = true;
        }
    }

    fn is_ready(&self) -> (r: bool) {
        self.is_ready
    }

    fn build_output(&self) -> (r: &[u8]) {
        self.data.as_slice()
    }

    fn reset_or_else(&mut self, settings: &Settings) {
        self.is_ready = false;
        if !settings.cumul {
            let mut i: usize = 0;
            while i < self.data.len()
                invariant
                    self.data@.len() == self.len + 1,
                    self.len == settings.frame_bytes(),
                    !self.is_ready,
                    i <= self.data@.len(),
                    forall|j: int| 0 <= j < i ==> self.data@[j] == 0,
                decreases self.data@.len() - i,
            {
                self.data.set(i, 0);
                i += 1;
            }
            self.data.set(self.len, FRAME_END);
            assert(self.data@ =~= blank_frame(*settings));
        }
    }

    fn new(settings: &Settings) -> (r: Self) {
        let lines: usize = if settings.bin {
            1
        } else {
            CAM_HEIGHT
        };
        let len: usize = lines * settings.bytedepth * CAM_WIDTH;
        let mut temp_vec: Vec<u8> = Vec::new();
        let mut i: usize = 0;
        while i < len
            invariant
                i <= len,
                temp_vec@ =~= Seq::new(i as nat, |j: int| 0u8),
            decreases len - i,
        {
            temp_vec.push(0);
            i += 1;
        }
        temp_vec.push(FRAME_END);
        assert(temp_vec@ =~= blank_frame(*settings));
        Live { data: temp_vec, len, is_ready: false }
    }
}

/// Counts one event into a bin of the histogram, with the carry rule of
/// `Packet::append_to_array`.
pub fn append_to_array(data: &mut [u8], index: usize, bytedepth: usize)
    requires
        bytedepth == 1 || bytedepth == 2 || bytedepth == 4,
        (index + 1) * bytedepth <= old(data)@.len(),
    ensures
        final(data)@ == bin_after_increment(old(data)@, index * bytedepth, bytedepth as nat),
        final(data)@.len() == old(data)@.len(),
{
    Packet::append_to_array(data, index, bytedepth);
}

/// Histogram bin of a pixel hit: its column when binned, else its position row by row.
pub open spec fn array_pos(chip: u8, rec: Seq<u8>, settings: Settings) -> int {
    if settings.bin {
        spec_x(chip, rec)
    } else {
        spec_x(chip, rec) + CAM_WIDTH * spec_y(rec)
    }
}

/// State of the frame pipeline between records.
pub struct PipeState<T> {
    pub acc: AccModel,
    pub last_ci: usize,
    pub frame: PeriodicTdcRef,
    pub reference: T,
    pub ready: bool,
}

/// Effect of one 8-byte record on the frame pipeline.
pub open spec fn pipeline_step<T: TdcControl>(
    s: PipeState<T>,
    settings: Settings,
    rec: Seq<u8>,
) -> PipeState<T> {
    if is_chip_marker(rec) {
        PipeState {
            acc: s.acc,
            last_ci: rec[4] as usize,
            frame: s.frame,
            reference: s.reference,
            ready: s.ready,
        }
    } else if spec_id(rec) == 11 {
        PipeState {
            acc: hit_model(s.acc, array_pos(s.last_ci as u8, rec, settings), settings),
            last_ci: s.last_ci,
            frame: s.frame,
            reference: s.reference,
            ready: s.ready,
        }
    } else if spec_id(rec) == 6 && spec_tdc_type(rec) == s.frame.tdctype {
        let f = s.frame.upt_spec(spec_tdc_time(rec) as Time, spec_tdc_counter(rec) as u16);
        PipeState {
            acc: frame_model(s.acc, f.spec_frame_boundary()),
            last_ci: s.last_ci,
            frame: f,
            reference: s.reference,
            ready: s.ready || f.spec_frame_boundary(),
        }
    } else if spec_id(rec) == 6 && spec_tdc_type(rec) == s.reference.spec_id() {
        PipeState {
            acc: if s.reference.spec_period() is None {
                hit_model(s.acc, TDC_MARK_INDEX as int, settings)
            } else {
                s.acc
            },
            last_ci: s.last_ci,
            frame: s.frame,
            reference: s.reference.upt_spec(
                spec_tdc_time(rec) as Time,
                spec_tdc_counter(rec) as u16,
            ),
            ready: s.ready,
        }
    } else {
        s
    }
}

/// Effect of the first `n` records of `data` on the frame pipeline.
pub open spec fn pipeline_fold<T: TdcControl>(
    s: PipeState<T>,
    settings: Settings,
    data: Seq<u8>,
    n: nat,
) -> PipeState<T>
    decreases n,
{
    if n == 0 {
        s
    } else {
        pipeline_step(
            pipeline_fold(s, settings, data, (n - 1) as nat),
            settings,
            record(data, n - 1),
        )
    }
}

/// A chip marker for chip 2, then a pixel hit, then a frame edge on which the frame rule does
/// not fire: the hit is counted once, in its bin as remapped for chip 2; the frame clock takes
/// the edge once; the other reference is untouched; no frame is ready.
pub proof fn lemma_marker_hit_edge<T: TdcControl>(
    s: PipeState<T>,
    settings: Settings,
    data: Seq<u8>,
)
    requires
        data.len() == 24,
        is_chip_marker(record(data, 0)),
        data[4] == 2,
        !is_chip_marker(record(data, 1)),
        spec_id(record(data, 1)) == 11,
        !is_chip_marker(record(data, 2)),
        spec_id(record(data, 2)) == 6,
        spec_tdc_type(record(data, 2)) == s.frame.tdctype,
        !s.ready,
        !s.frame.upt_spec(
            spec_tdc_time(record(data, 2)) as Time,
            spec_tdc_counter(record(data, 2)) as u16,
        ).spec_frame_boundary(),
    ensures
        ({
            let r = pipeline_fold(s, settings, data, 3);
            let edge = record(data, 2);
            &&& r.last_ci == 2
            &&& r.acc == hit_model(s.acc, array_pos(2, record(data, 1), settings), settings)
            &&& r.frame == s.frame.upt_spec(
                spec_tdc_time(edge) as Time,
                spec_tdc_counter(edge) as u16,
            )
            &&& r.reference == s.reference
            &&& !r.ready
        }),
{
    reveal_with_fuel(pipeline_fold, 4);
    assert(record(data, 0)[4] == data[4]);
}

/// Runs one chunk of the stream through the frame pipeline, record by record, and tells
/// whether the frame rule fired on the way. A chunk whose length is not a multiple of 8 is
/// dropped whole.
pub fn build_data<T: TdcControl, K: SpecKind>(
    data: &[u8],
    final_data: &mut K,
    last_ci: &mut usize,
    settings: &Settings,
    frame_tdc: &mut PeriodicTdcRef,
    ref_tdc: &mut T,
) -> (r: bool)
    requires
        old(final_data).fits(*settings),
        old(frame_tdc).wf(),
        old(frame_tdc).counter_overflow + data@.len() / 8 <= OVERFLOW_LIMIT,
        old(ref_tdc).tdc_wf(),
        old(ref_tdc).headroom() >= data@.len() / 8,
    ensures
        final(final_data).fits(*settings),
        final(frame_tdc).wf(),
        final(ref_tdc).tdc_wf(),
        data@.len() % 8 != 0 ==> !r && final(final_data).model() == old(final_data).model()
            && *final(last_ci) == *old(last_ci) && *final(frame_tdc) == *old(frame_tdc)
            && *final(ref_tdc) == *old(ref_tdc),
        data@.len() % 8 == 0 ==> {
            let s = pipeline_fold(
                PipeState {
                    acc: old(final_data).model(),
                    last_ci: *old(last_ci),
                    frame: *old(frame_tdc),
                    reference: *old(ref_tdc),
                    ready: false,
                },
                *settings,
                data@,
                (data@.len() / 8) as nat,
            );
            &&& final(final_data).model() == s.acc
            &&& *final(last_ci) == s.last_ci
            &&& *final(frame_tdc) == s.frame
            &&& *final(ref_tdc) == s.reference
            &&& r == s.ready
        },
{
    let len = data.len();
    if len % 8 != 0 {
        return false;
    }
    let ghost start = PipeState {
        acc: final_data.model(),
        last_ci: *last_ci,
        frame: *frame_tdc,
        reference: *ref_tdc,
        ready: false,
    };
    let n = len / 8;
    let mut has = false;
    let mut k: usize = 0;
    while k < n
        invariant
            len == data@.len(),
            n == len / 8,
            k <= n,
            final_data.fits(*settings),
            frame_tdc.wf(),
            frame_tdc.counter_overflow + (n - k) <= OVERFLOW_LIMIT,
            ref_tdc.tdc_wf(),
            ref_tdc.headroom() >= n - k,
            ({
                let s = pipeline_fold(start, *settings, data@, k as nat);
                &&& final_data.model() == s.acc
                &&& *last_ci == s.last_ci
                &&& *frame_tdc == s.frame
                &&& *ref_tdc == s.reference
                &&& has == s.ready
            }),
        decreases n - k,
    {
        assert(8 * k + 8 <= len) by (nonlinear_arith)
            requires
                k < n,
                n == len / 8,
        ;
        let x = slice_subrange(data, 8 * k, 8 * k + 8);
        if x[0] == 84 && x[1] == 80 && x[2] == 88 && x[3] == 51 {
            *last_ci = x[4] as usize;
        } else {
            let packet = Packet { chip_index: #[verifier::truncate] (*last_ci as u8), data: x };
            let id = packet.id();
            if id == 11 {
                let index = if settings.bin {
                    packet.x()
                } else {
                    packet.x() + CAM_WIDTH * packet.y()
                };
                final_data.add_electron_hit(index, &packet, settings);
            } else if id == 6 && packet.tdc_type() == frame_tdc.id() {
                final_data.upt_frame(&packet, frame_tdc);
                if frame_tdc.at_frame_boundary() {
                    has = true;
                }
            } else if id == 6 && packet.tdc_type() == ref_tdc.id() {
                final_data.add_tdc_hit(&packet, settings, ref_tdc);
            }
        }
        k += 1;
    }
    has
}

/// Whether a hit at `ele_time` falls in the window `(delay, delay + width)` after the edge at
/// `tdc`, the edge first moved back by whole periods to lie before the hit.
pub open spec fn in_window(ele_time: int, tdc: int, period: int, delay: int, width: int) -> bool {
    let eff_tdc = if tdc > ele_time {
        tdc - ((tdc - ele_time) / period + 1) * period
    } else {
        tdc
    };
    ele_time > eff_tdc + delay && ele_time < eff_tdc + delay + width
}

pub fn tr_check_if_in(ele_time: Time, tdc: Time, period: Time, settings: &Settings) -> (r: bool)
    requires
        period > 0,
    ensures
        r == in_window(
            ele_time as int,
            tdc as int,
            period as int,
            settings.time_delay as int,
            settings.time_width as int,
        ),
{
    let ele = ele_time as i128;
    let t = tdc as i128;
    let p = period as i128;
    let eff_tdc: i128 = if t > ele {
        let xper = (t - ele) / p + 1;
        let ghost d: int = (t - ele) as int;
        let ghost pp: int = p as int;
        assert((d / pp + 1) * pp <= d + pp) by (nonlinear_arith)
            requires
                0 < d,
                0 < pp,
        ;
        t - xper * p
    } else {
        t
    };
    let delay = settings.time_delay as i128;
    let width = settings.time_width as i128;
    ele > eff_tdc + delay && ele < eff_tdc + delay + width
}

/// Decimal digits of `n`, most significant first.
pub open spec fn decimal(n: nat) -> Seq<u8>
    decreases n,
{
    if n < 10 {
        seq![(48 + n) as u8]
    } else {
        decimal(n / 10).push((48 + n % 10) as u8)
    }
}

/// The last `w` decimal digits of `n`, with leading zeros.
pub open spec fn padded(n: nat, w: nat) -> Seq<u8>
    decreases w,
{
    if w == 0 {
        Seq::empty()
    } else {
        padded(n / 10, (w - 1) as nat).push((48 + n % 10) as u8)
    }
}

/// A time in seconds: whole seconds, a point, and thirteen decimals, which is exact for the
/// half-picosecond unit.
pub open spec fn seconds_text(t: nat) -> Seq<u8> {
    decimal(t / (UNITS_PER_SECOND as nat)) + seq![46u8] + padded(
        (t % (UNITS_PER_SECOND as nat)) * 5,
        13,
    )
}

/// The header line sent before each frame.
pub open spec fn header_text(settings: Settings, time: Time, counter: u64) -> Seq<u8> {
    "{\"timeAtFrame\":".spec_bytes() + seconds_text(time as nat) + ",\"frameNumber\":".spec_bytes()
        + decimal(counter as nat) + ",\"dataSize\":".spec_bytes() + decimal(
        (settings.bytedepth * CAM_WIDTH * settings.lines()) as nat,
    ) + ",\"bitDepth\":".spec_bytes() + decimal((settings.bytedepth * 8) as nat)
        + ",\"width\":".spec_bytes() + decimal(CAM_WIDTH as nat) + ",\"height\":".spec_bytes()
        + decimal(settings.lines() as nat) + "}\n".spec_bytes()
}

fn push_decimal(out: &mut Vec<u8>, n: u64)
    ensures
        final(out)@ == old(out)@ + decimal(n as nat),
    decreases n,
{
    if n >= 10 {
        push_decimal(out, n / 10);
    }
    out.push((48 + n % 10) as u8);
    assert(out@ =~= old(out)@ + decimal(n as nat));
}

fn push_padded(out: &mut Vec<u8>, n: u64, w: u64)
    ensures
        final(out)@ == old(out)@ + padded(n as nat, w as nat),
    decreases w,
{
    if w > 0 {
        push_padded(out, n / 10, w - 1);
        out.push((48 + n % 10) as u8);
        assert(out@ =~= old(out)@ + padded(n as nat, w as nat));
    } else {
        assert(out@ =~= old(out)@ + padded(n as nat, w as nat));
    }
}

fn push_literal(out: &mut Vec<u8>, s: &str)
    ensures
        final(out)@ == old(out)@ + s.spec_bytes(),
{
    let b = s.as_bytes();
    let mut i: usize = 0;
    while i < b.len()
        invariant
            b@ == s.spec_bytes(),
            i <= b@.len(),
            out@ == old(out)@ + b@.take(i as int),
        decreases b@.len() - i,
    {
        out.push(b[i]);
        i += 1;
        assert(out@ =~= old(out)@ + b@.take(i as int));
    }
    assert(b@.take(i as int) =~= b@);
}

/// The header of a frame: its time in seconds, its number, the payload size in bytes, the bits
/// per bin, and the frame's width and height.
pub fn create_header<T: TdcControl>(set: &Settings, tdc: &T) -> (r: Vec<u8>)
    requires
        set.depth_ok(),
    ensures
        r@ == header_text(*set, tdc.spec_time(), tdc.spec_counter()),
{
    let lines: usize = if set.bin {
        1
    } else {
        CAM_HEIGHT
    };
    let time = tdc.time();
    let mut msg: Vec<u8> = Vec::new();
    push_literal(&mut msg, "{\"timeAtFrame\":");
    push_decimal(&mut msg, time / UNITS_PER_SECOND);
    msg.push(46);
    push_padded(&mut msg, (time % UNITS_PER_SECOND) * 5, 13);
    push_literal(&mut msg, ",\"frameNumber\":");
    push_decimal(&mut msg, tdc.counter());
    push_literal(&mut msg, ",\"dataSize\":");
    push_decimal(&mut msg, (set.bytedepth * CAM_WIDTH * lines) as u64);
    push_literal(&mut msg, ",\"bitDepth\":");
    push_decimal(&mut msg, (set.bytedepth * 8) as u64);
    push_literal(&mut msg, ",\"width\":");
    push_decimal(&mut msg, CAM_WIDTH as u64);
    push_literal(&mut msg, ",\"height\":");
    push_decimal(&mut msg, lines as u64);
    push_literal(&mut msg, "}\n");
    assert(msg@ =~= header_text(*set, tdc.spec_time(), tdc.spec_counter()));
    msg
}

} // verus!
