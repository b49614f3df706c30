//! Time correlation of pixel hits with the edges of a TDC, over a recorded stream.
use vstd::prelude::*;
use crate::config::Time;
use crate::packet::{
    Packet, TdcType, is_chip_marker, record, spec_electron_time, spec_id, spec_tdc_time,
    spec_tdc_type, spec_x, spec_y, tdc_code,
};
use vstd::slice::slice_subrange;

verus! {

/// Tuning of the coincidence search.
pub struct CoincidenceParams {
    /// Edge kind whose times are the references.
    pub reference: TdcType,
    /// A hit matches a reference closer than this.
    pub time_width: Time,
    /// Subtracted from every reference time.
    pub time_delay: Time,
    /// Only the first `2 * min_len` references are searched, and the list is only trimmed
    /// while more than `min_len` references follow the match.
    pub min_len: usize,
    /// The list is trimmed after a match past this position...
    pub trim_after: usize,
    /// ...keeping this many references before the match.
    pub keep_before: usize,
}

impl CoincidenceParams {
    pub open spec fn wf(&self) -> bool {
        &&& self.keep_before <= self.trim_after
        &&& self.time_delay < 0x4000_0000_0000_0000
        &&& self.time_width < 0x4000_0000_0000_0000
        &&& 2 * self.min_len <= usize::MAX
    }
}

/// Whether `t` lies closer than `width` to `value`.
pub open spec fn within(t: int, value: int, width: int) -> bool {
    -width < t - value < width
}

/// Position of the first reference from `from` on that lies within `width` of `value`.
pub open spec fn first_within(refs: Seq<i64>, value: int, width: int, from: int) -> Option<int>
    decreases refs.len() - from,
{
    if from < 0 || from >= refs.len() {
        None
    } else if within(refs[from] as int, value, width) {
        Some(from)
    } else {
        first_within(refs, value, width, from + 1)
    }
}

/// The first reference within `width` of `value`, with its position.
pub fn first_match(refs: &[i64], value: i64, width: i64) -> (r: Option<(usize, i64)>)
    requires
        width >= 0,
    ensures
        match first_within(refs@, value as int, width as int, 0) {
            Some(i) => r == Some((i as usize, refs@[i])),
            None => r is None,
        },
        r is Some ==> first_within(refs@, value as int, width as int, 0) == Some(
            r->Some_0.0 as int,
        ),
        match r {
            Some((i, t)) => i < refs@.len() && t == refs@[i as int] && within(
                t as int,
                value as int,
                width as int,
            ) && forall|j: int|
                0 <= j < i ==> !within(#[trigger] refs@[j] as int, value as int, width as int),
            None => forall|j: int|
                0 <= j < refs@.len() ==> !within(
                    #[trigger] refs@[j] as int,
                    value as int,
                    width as int,
                ),
        },
{
    let mut i: usize = 0;
    while i < refs.len()
        invariant
            i <= refs@.len(),
            first_within(refs@, value as int, width as int, 0) == first_within(
                refs@,
                value as int,
                width as int,
                i as int,
            ),
            forall|j: int|
                0 <= j < i ==> !within(#[trigger] refs@[j] as int, value as int, width as int),
        decreases refs@.len() - i,
    {
        let d = refs[i] as i128 - value as i128;
        if -(width as i128) < d && d < width as i128 {
            return Some((i, refs[i]));
        }
        i += 1;
    }
    None
}

/// A reference time: the edge time less the delay.
pub open spec fn reference_time(rec: Seq<u8>, delay: int) -> i64 {
    (spec_tdc_time(rec) - delay) as i64
}

/// The reference times found in the first `n` records of `buffer`.
pub open spec fn references(buffer: Seq<u8>, p: CoincidenceParams, n: nat) -> Seq<i64>
    decreases n,
{
    if n == 0 {
        Seq::empty()
    } else {
        let rest = references(buffer, p, (n - 1) as nat);
        let rec = record(buffer, n - 1);
        if !is_chip_marker(rec) && spec_id(rec) == 6 && spec_tdc_type(rec) == tdc_code(
            p.reference,
        ) {
            rest.push(reference_time(rec, p.time_delay as int))
        } else {
            rest
        }
    }
}

/// Collects the reference times of a recorded stream.
pub fn collect_references(buffer: &[u8], params: &CoincidenceParams) -> (r: Vec<i64>)
    requires
        params.wf(),
    ensures
        r@ == references(buffer@, *params, (buffer@.len() / 8) as nat),
        forall|i: int|
            0 <= i < r@.len() ==> -0x4000_0000_0000_0000 <= #[trigger] r@[i] < 0x1_0000_0000_0000,
{
    let len = buffer.len();
    let n = len / 8;
    let code = params.reference.associate_value();
    let mut out: Vec<i64> = Vec::new();
    let mut k: usize = 0;
    while k < n
        invariant
            len == buffer@.len(),
            n == len / 8,
            k <= n,
            params.wf(),
            code == tdc_code(params.reference),
            out@ == references(buffer@, *params, k as nat),
            forall|i: int|
                0 <= i < out@.len() ==> -0x4000_0000_0000_0000 <= #[trigger] out@[i]
                    < 0x1_0000_0000_0000,
        decreases n - k,
    {
        assert(8 * k + 8 <= len) by (nonlinear_arith)
            requires
                k < n,
                n == len / 8,
        ;
        let x = slice_subrange(buffer, 8 * k, 8 * k + 8);
        if !(x[0] == 84 && x[1] == 80 && x[2] == 88 && x[3] == 51) {
            let packet = Packet { chip_index: 0, data: x };
            if packet.id() == 6 && packet.tdc_type() == code {
                out.push(packet.tdc_time_norm() as i64 - params.time_delay as i64);
            }
        }
        k += 1;
    }
    out
}

/// What the coincidence search has built so far.
pub struct CoinState {
    pub ele: Seq<usize>,
    pub cele: Seq<usize>,
    pub timelist: Seq<(usize, usize, i64)>,
    pub refs: Seq<i64>,
    pub ci: u8,
}

/// The reference list after a match at `index`: once the match lies past `trim_after` with
/// more than `min_len` references after it, only `keep_before` references before it stay.
pub open spec fn trimmed(refs: Seq<i64>, index: int, p: CoincidenceParams) -> Seq<i64> {
    if index > p.trim_after && refs.len() > index + p.min_len {
        refs.subrange(index - p.keep_before, refs.len() as int)
    } else {
        refs
    }
}

/// Effect of one record on the search: every pixel hit is counted in `ele`; one that matches
/// a reference among the first `2 * min_len` is also counted in `cele` and listed with its
/// position and its time after the reference.
pub open spec fn coin_step(s: CoinState, p: CoincidenceParams, rec: Seq<u8>) -> CoinState {
    if is_chip_marker(rec) {
        CoinState { ci: rec[4], ..s }
    } else if spec_id(rec) == 11 {
        let x = spec_x(s.ci, rec);
        let ele = s.ele.update(x, (s.ele[x] + 1) as usize);
        let t = spec_electron_time(rec);
        let window = if s.refs.len() < 2 * p.min_len {
            s.refs
        } else {
            s.refs.take(2 * p.min_len)
        };
        match first_within(window, t, p.time_width as int, 0) {
            None => CoinState { ele, ..s },
            Some(i) => CoinState {
                ele,
                cele: s.cele.update(x, (s.cele[x] + 1) as usize),
                timelist: s.timelist.push(
                    (x as usize, spec_y(rec) as usize, (t - window[i]) as i64),
                ),
                refs: trimmed(s.refs, i, p),
                ci: s.ci,
            },
        }
    } else {
        s
    }
}

/// Effect of the first `n` records of `buffer` on the search.
pub open spec fn coin_fold(s: CoinState, p: CoincidenceParams, buffer: Seq<u8>, n: nat) -> CoinState
    decreases n,
{
    if n == 0 {
        s
    } else {
        coin_step(
            coin_fold(s, p, buffer, (n - 1) as nat),
            p,
            record(buffer, n - 1),
        )
    }
}

/// Correlates the pixel hits of a recorded stream with its reference edges. `ele_vec` counts
/// every hit per column, `cele_vec` the hits that matched, and `timelist` gets one entry per
/// match. Chip markers are read anew in each of the two passes.
pub fn search_coincidence(
    buffer: &[u8],
    ele_vec: &mut [usize],
    cele_vec: &mut [usize],
    timelist: &mut Vec<(usize, usize, i64)>,
    params: &CoincidenceParams,
)
    requires
        params.wf(),
        old(ele_vec)@.len() >= 1024,
        old(cele_vec)@.len() >= 1024,
        forall|i: int|
            0 <= i < old(ele_vec)@.len() ==> old(ele_vec)@[i] + buffer@.len() / 8 <= usize::MAX,
        forall|i: int|
            0 <= i < old(cele_vec)@.len() ==> old(cele_vec)@[i] + buffer@.len() / 8
                <= usize::MAX,
    ensures
        ({
            let s = coin_fold(
                CoinState {
                    ele: old(ele_vec)@,
                    cele: old(cele_vec)@,
                    timelist: old(timelist)@,
                    refs: references(buffer@, *params, (buffer@.len() / 8) as nat),
                    ci: 0,
                },
                *params,
                buffer@,
                (buffer@.len() / 8) as nat,
            );
            &&& final(ele_vec)@ == s.ele
            &&& final(cele_vec)@ == s.cele
            &&& final(timelist)@ == s.timelist
        }),
{
    let mut tdc_vec = collect_references(buffer, params);
    let ghost start = CoinState {
        ele: ele_vec@,
        cele: cele_vec@,
        timelist: timelist@,
        refs: tdc_vec@,
        ci: 0,
    };
    let len = buffer.len();
    let n = len / 8;
    let window_max = 2 * params.min_len;
    let mut ci: u8 = 0;
    let mut k: usize = 0;
    while k < n
        invariant
            len == buffer@.len(),
            n == len / 8,
            k <= n,
            params.wf(),
            window_max == 2 * params.min_len,
            ele_vec@.len() == old(ele_vec)@.len(),
            cele_vec@.len() == old(cele_vec)@.len(),
            ele_vec@.len() >= 1024,
            cele_vec@.len() >= 1024,
            forall|i: int| 0 <= i < ele_vec@.len() ==> ele_vec@[i] + (n - k) <= usize::MAX,
            forall|i: int| 0 <= i < cele_vec@.len() ==> cele_vec@[i] + (n - k) <= usize::MAX,
            forall|i: int|
                0 <= i < tdc_vec@.len() ==> -0x4000_0000_0000_0000 <= #[trigger] tdc_vec@[i]
                    < 0x1_0000_0000_0000,
            ({
                let s = coin_fold(start, *params, buffer@, k as nat);
                &&& ele_vec@ == s.ele
                &&& cele_vec@ == s.cele
                &&& timelist@ == s.timelist
                &&& tdc_vec@ == s.refs
                &&& ci == s.ci
            }),
        decreases n - k,
    {
        assert(8 * k + 8 <= len) by (nonlinear_arith)
            requires
                k < n,
                n == len / 8,
        ;
        let x = slice_subrange(buffer, 8 * k, 8 * k + 8);
        let ghost s0 = coin_fold(start, *params, buffer@, k as nat);
        assert(x@ == buffer@.subrange(8 * k, 8 * k + 8));
        assert(coin_fold(start, *params, buffer@, (k + 1) as nat) == coin_step(s0, *params, x@));
        if x[0] == 84 && x[1] == 80 && x[2] == 88 && x[3] == 51 {
            ci = x[4];
        } else {
            let packet = Packet { chip_index: ci, data: x };
            if packet.id() == 11 {
                let px = packet.x();
                ele_vec[px] = ele_vec[px] + 1;
                let ele_time = packet.electron_time();
                let veclen = if tdc_vec.len() < window_max {
                    tdc_vec.len()
                } else {
                    window_max
                };
                let window = slice_subrange(tdc_vec.as_slice(), 0, veclen);
                assert(window@ =~= if tdc_vec@.len() < 2 * params.min_len {
                    tdc_vec@
                } else {
                    tdc_vec@.take(2 * params.min_len)
                });
                if let Some((index, pht)) = first_match(
                    window,
                    ele_time as i64,
                    params.time_width as i64,
                ) {
                    cele_vec[px] = cele_vec[px] + 1;
                    timelist.push((px, packet.y(), ele_time as i64 - pht));
                    if index > params.trim_after && tdc_vec.len() - index > params.min_len {
                        tdc_vec = tdc_vec.split_off(index - params.keep_before);
                    }
                    assert(tdc_vec@ == trimmed(s0.refs, index as int, *params));
                    assert(timelist@ == s0.timelist.push(
                        (px, spec_y(x@) as usize, (ele_time - window@[index as int]) as i64),
                    ));
                    assert(cele_vec@ == s0.cele.update(
                        px as int,
                        (s0.cele[px as int] + 1) as usize,
                    ));
                    assert(ele_vec@ == s0.ele.update(px as int, (s0.ele[px as int] + 1) as usize));
                    assert(first_within(window@, ele_time as int, params.time_width as int, 0)
                        == Some(index as int));
                } else {
                    assert(ele_vec@ == s0.ele.update(px as int, (s0.ele[px as int] + 1) as usize));
                    assert(first_within(window@, ele_time as int, params.time_width as int, 0)
                        is None);
                }
            }
        }
        k += 1;
    }
}

} // verus!
