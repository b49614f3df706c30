//! Spectral imaging: hits are stamped with their time inside the current scan frame, and each
//! batch is turned into a list of 4-byte scan indices.
use vstd::prelude::*;
use crate::config::{Settings, Time, UNITS_PER_NS};
use crate::packet::{
    Packet, be_bytes32, is_chip_marker, record, spec_electron_time, spec_id, spec_tdc_counter,
    spec_tdc_time, spec_tdc_type, spec_x,
};
use crate::tdc::{OVERFLOW_LIMIT, PeriodicTdcRef, TdcControl};
use vstd::slice::slice_subrange;

verus! {

/// Delay of the scan signal behind the detector clock.
pub const VIDEO_TIME: Time = 5000 * UNITS_PER_NS;

/// Columns of one scan position in the index space: the 1024 detector columns and one more
/// for the marks of a reference without period.
pub const SPIM_PIXELS: usize = 1025;

/// A batch of events stamped with their time since the start of the scan frame.
pub struct Output<T> {
    data: Vec<T>,
}

impl<T> View for Output<T> {
    type V = Seq<T>;

    closed spec fn view(&self) -> Seq<T> {
        self.data@
    }
}

impl<T> Output<T> {
    /// An empty batch.
    pub fn new() -> (r: Self)
        ensures
            r@ == Seq::<T>::empty(),
    {
        Output { data: Vec::new() }
    }

    pub fn upt(&mut self, new_data: T)
        ensures
            final(self)@ == old(self)@.push(new_data),
    {
        self.data.push(new_data);
    }

    /// Whether the batch holds any event.
    pub fn check(&self) -> (r: bool)
        ensures
            r == (self@.len() > 0),
    {
        self.data.len() > 0
    }
}

/// Scan index of an event at column `x`, `dt` after the start of the frame, or none when it
/// falls in the flyback part of a line.
pub open spec fn spim_index(x: int, dt: int, set: Settings, period: int, low_time: int) -> Option<
    int,
> {
    if dt % period < low_time {
        let r = dt / period;
        let rin = dt % period;
        Some(((r / set.spimoverscany as int) % set.yspim_size as int * set.xspim_size as int + (
        set.xspim_size as int * rin / low_time)) * SPIM_PIXELS + x)
    } else {
        None
    }
}

/// The bytes of a batch: four big-endian bytes of the low 32 bits of each index, in order.
pub open spec fn spim_bytes(
    items: Seq<(usize, Time)>,
    set: Settings,
    period: int,
    low_time: int,
) -> Seq<u8>
    decreases items.len(),
{
    if items.len() == 0 {
        Seq::empty()
    } else {
        let rest = spim_bytes(items.drop_last(), set, period, low_time);
        match spim_index(items.last().0 as int, items.last().1 as int, set, period, low_time) {
            Some(i) => rest + be_bytes32(i % 0x1_0000_0000),
            None => rest,
        }
    }
}

impl Output<(usize, Time)> {
    /// The scan indices of the batch, as `spim_bytes` lays them out.
    pub fn build_output(self, set: &Settings, spim_tdc: &PeriodicTdcRef) -> (r: Vec<u8>)
        requires
            set.scan_ok(),
            spim_tdc.period > 0,
        ensures
            r@ == spim_bytes(self@, *set, spim_tdc.period as int, spim_tdc.low_time as int),
    {
        let mut my_vec: Vec<u8> = Vec::new();
        let period = spim_tdc.period;
        let low = spim_tdc.low_time;
        let xs = set.xspim_size as u128;
        let ys = set.yspim_size as u128;
        let ov = set.spimoverscany as u128;
        let mut i: usize = 0;
        while i < self.data.len()
            invariant
                i <= self.data@.len(),
                set.scan_ok(),
                period == spim_tdc.period,
                low == spim_tdc.low_time,
                period > 0,
                xs == set.xspim_size,
                ys == set.yspim_size,
                ov == set.spimoverscany,
                my_vec@ == spim_bytes(self.data@.take(i as int), *set, period as int, low as int),
            decreases self.data@.len() - i,
        {
            proof {
                assert(self.data@.take(i + 1).drop_last() =~= self.data@.take(i as int));
            }
            let (x, dt) = self.data[i];
            if dt % period < low {
                let r = (dt / period) as u128;
                let rin = (dt % period) as u128;
                let row = (r / ov) % ys;
                assert(xs * rin < 0x1_0000_0000_0000_0000_0000) by (nonlinear_arith)
                    requires
                        xs <= 65535,
                        rin < 0x1_0000_0000_0000_0000,
                ;
                let col = xs * rin / (low as u128);
                let ghost (gx, gr, gl, gc) = (xs as int, rin as int, low as int, col as int);
                assert(gc <= gx) by (nonlinear_arith)
                    requires
                        gc == gx * gr / gl,
                        0 <= gr < gl,
                        0 <= gx,
                ;
                assert(row * xs + col <= 0x1_0000_0000 * 0x1_0000) by (nonlinear_arith)
                    requires
                        row < ys,
                        ys <= 65535,
                        xs <= 65535,
                        col <= xs,
                ;
                let index = (row * xs + col) * (SPIM_PIXELS as u128) + (x as u128);
                let low32 = (index % 0x1_0000_0000) as usize;
                append_to_index_array(&mut my_vec, low32);
            }
            i += 1;
        }
        proof {
            assert(self.data@.take(i as int) =~= self.data@);
        }
        my_vec
    }
}

/// Appends the low 32 bits of a scan index as four big-endian bytes.
pub fn append_to_index_array(data: &mut Vec<u8>, index: usize)
    ensures
        final(data)@ == old(data)@ + be_bytes32(index as int),
{
    Packet::append_to_index_array(data, index);
}

/// State of the scan pipeline between records.
pub struct SpimState<T> {
    pub items: Seq<(usize, Time)>,
    pub last_ci: usize,
    pub line: PeriodicTdcRef,
    pub reference: T,
}

/// Time since the start of the frame of an event at `t`, if the event comes after that start
/// once the scan delay is taken off.
pub open spec fn frame_offset(t: int, begin_frame: int) -> Option<Time> {
    if t - VIDEO_TIME > begin_frame {
        Some((t - VIDEO_TIME - begin_frame) as Time)
    } else {
        None
    }
}

/// The line clock after one of its edges: besides its own frame rule, a new scan frame starts
/// each `yspim_size * spimoverscany` lines.
pub open spec fn line_after_edge(l: PeriodicTdcRef, set: Settings, rec: Seq<u8>) -> PeriodicTdcRef {
    let u = l.upt_spec(spec_tdc_time(rec) as Time, spec_tdc_counter(rec) as u16);
    if (u.counter as int / 2) % (set.yspim_size * set.spimoverscany) as int == 0 {
        PeriodicTdcRef { begin_frame: u.time, ..u }
    } else {
        u
    }
}

/// Effect of one 8-byte record on the scan pipeline.
pub open spec fn spim_step<T: TdcControl>(
    s: SpimState<T>,
    set: Settings,
    rec: Seq<u8>,
) -> SpimState<T> {
    if is_chip_marker(rec) {
        SpimState { last_ci: rec[4] as usize, ..s }
    } else if spec_id(rec) == 11 {
        match frame_offset(spec_electron_time(rec), s.line.begin_frame as int) {
            Some(dt) => SpimState {
                items: s.items.push((spec_x(s.last_ci as u8, rec) as usize, dt)),
                ..s
            },
            None => s,
        }
    } else if spec_id(rec) == 6 && spec_tdc_type(rec) == s.line.tdctype {
        SpimState { line: line_after_edge(s.line, set, rec), ..s }
    } else if spec_id(rec) == 6 && spec_tdc_type(rec) == s.reference.spec_id() {
        let reference = s.reference.upt_spec(
            spec_tdc_time(rec) as Time,
            spec_tdc_counter(rec) as u16,
        );
        match frame_offset(spec_tdc_time(rec), s.line.begin_frame as int) {
            Some(dt) => if s.reference.spec_period() is None {
                SpimState {
                    items: s.items.push(((SPIM_PIXELS - 1) as usize, dt)),
                    reference,
                    ..s
                }
            } else {
                SpimState { reference, ..s }
            },
            None => SpimState { reference, ..s },
        }
    } else {
        s
    }
}

/// Effect of the first `n` records of `data` on the scan pipeline.
pub open spec fn spim_fold<T: TdcControl>(
    s: SpimState<T>,
    set: Settings,
    data: Seq<u8>,
    n: nat,
) -> SpimState<T>
    decreases n,
{
    if n == 0 {
        s
    } else {
        spim_step(
            spim_fold(s, set, data, (n - 1) as nat),
            set,
            record(data, n - 1),
        )
    }
}

/// Runs one chunk of the stream through the scan pipeline and returns the events it stamped,
/// if any. A chunk whose length is not a multiple of 8 is dropped whole.
pub fn build_spim_data<T: TdcControl>(
    data: &[u8],
    last_ci: &mut usize,
    settings: &Settings,
    line_tdc: &mut PeriodicTdcRef,
    ref_tdc: &mut T,
) -> (r: Option<Output<(usize, Time)>>)
    requires
        settings.scan_ok(),
        old(line_tdc).wf(),
        old(line_tdc).counter_overflow + data@.len() / 8 <= OVERFLOW_LIMIT,
        old(ref_tdc).tdc_wf(),
        old(ref_tdc).headroom() >= data@.len() / 8,
    ensures
        final(line_tdc).wf(),
        final(ref_tdc).tdc_wf(),
        data@.len() % 8 != 0 ==> r is None && *final(last_ci) == *old(last_ci)
            && *final(line_tdc) == *old(line_tdc) && *final(ref_tdc) == *old(ref_tdc),
        data@.len() % 8 == 0 ==> {
            let s = spim_fold(
                SpimState {
                    items: Seq::empty(),
                    last_ci: *old(last_ci),
                    line: *old(line_tdc),
                    reference: *old(ref_tdc),
                },
                *settings,
                data@,
                (data@.len() / 8) as nat,
            );
            &&& *final(last_ci) == s.last_ci
            &&& *final(line_tdc) == s.line
            &&& *final(ref_tdc) == s.reference
            &&& if s.items.len() == 0 {
                r is None
            } else {
                r is Some && r->Some_0@ == s.items
            }
        },
{
    let len = data.len();
    if len % 8 != 0 {
        return None;
    }
    let ghost start = SpimState {
        items: Seq::<(usize, Time)>::empty(),
        last_ci: *last_ci,
        line: *line_tdc,
        reference: *ref_tdc,
    };
    assert(0 < settings.yspim_size * settings.spimoverscany <= 65535 * 0x1_0000_0000_0000_0000)
        by (nonlinear_arith)
        requires
            settings.scan_ok(),
            settings.spimoverscany <= usize::MAX,
            usize::MAX < 0x1_0000_0000_0000_0000,
    ;
    let lines_per_frame = (settings.yspim_size as u128) * (settings.spimoverscany as u128);
    let mut list: Output<(usize, Time)> = Output::new();
    let n = len / 8;
    let mut k: usize = 0;
    while k < n
        invariant
            len == data@.len(),
            n == len / 8,
            k <= n,
            settings.scan_ok(),
            lines_per_frame == settings.yspim_size * settings.spimoverscany,
            lines_per_frame > 0,
            line_tdc.wf(),
            line_tdc.counter_overflow + (n - k) <= OVERFLOW_LIMIT,
            ref_tdc.tdc_wf(),
            ref_tdc.headroom() >= n - k,
            ({
                let s = spim_fold(start, *settings, data@, k as nat);
                &&& list@ == s.items
                &&& *last_ci == s.last_ci
                &&& *line_tdc == s.line
                &&& *ref_tdc == s.reference
            }),
        decreases n - k,
    {
        assert(8 * k + 8 <= len) by (nonlinear_arith)
            requires
                k < n,
                n == len / 8,
        ;
        let x = slice_subrange(data, 8 * k, 8 * k + 8);
        if x[0] == 84 && x[1] == 80 && x[2] == 88 && x[3] == 51 {
            *last_ci = x[4] as usize;
        } else {
            let packet = Packet { chip_index: #[verifier::truncate] (*last_ci as u8), data: x };
            let id = packet.id();
            if id == 11 {
                let ele_time = packet.electron_time();
                if ele_time > VIDEO_TIME && ele_time - VIDEO_TIME > line_tdc.begin_frame {
                    list.upt((packet.x(), ele_time - VIDEO_TIME - line_tdc.begin_frame));
                }
            } else if id == 6 && packet.tdc_type() == line_tdc.id() {
                line_tdc.upt(packet.tdc_time_norm(), packet.tdc_counter());
                if ((line_tdc.counter / 2) as u128) % lines_per_frame == 0 {
                    line_tdc.begin_frame = line_tdc.time();
                }
            } else if id == 6 && packet.tdc_type() == ref_tdc.id() {
                let tdc_time = packet.tdc_time_norm();
                let no_period = ref_tdc.period().is_none();
                ref_tdc.upt(tdc_time, packet.tdc_counter());
                if no_period && tdc_time > VIDEO_TIME && tdc_time - VIDEO_TIME
                    > line_tdc.begin_frame {
                    list.upt((SPIM_PIXELS - 1, tdc_time - VIDEO_TIME - line_tdc.begin_frame));
                }
            }
        }
        k += 1;
    }
    if list.check() {
        Some(list)
    } else {
        None
    }
}

} // verus!
