//! TDC edges as a time base: synchronisation on the first edges of the stream, and the
//! references that follow the edge counter afterwards.
use vstd::prelude::*;
use crate::config::Time;
use vstd::slice::slice_subrange;
use crate::packet::{
    Packet, is_chip_marker, record, spec_id, spec_tdc_counter, spec_tdc_time, spec_tdc_type,
};

verus! {

/// Number of target edges that synchronisation waits for.
pub const SYNC_EDGES: usize = 3;

/// Milliseconds that synchronisation waits for its edges before it gives up.
pub const SYNC_TIMEOUT_MS: u64 = 10_000;

/// Largest number of wraps of the 12-bit hardware counter that a reference can follow.
pub const OVERFLOW_LIMIT: u64 = 0x100_0000_0000;

/// Why a time reference could not be set up.
#[derive(Clone, Copy, Debug, PartialEq, Eq, Structural)]
pub enum Tp3ErrorKind {
    TdcNoReceived,
    TdcNotAscendingOrder,
    TdcBadPeriod,
    TdcBadHighTime,
}

/// The four TDC edge kinds, and no TDC at all.
#[derive(Clone, Copy, Debug, PartialEq, Eq, Structural)]
pub enum TdcType {
    TdcOneRisingEdge,
    TdcOneFallingEdge,
    TdcTwoRisingEdge,
    TdcTwoFallingEdge,
    NoTdc,
}

/// The 4-bit code of each edge kind; 0 for no TDC.
pub open spec fn tdc_value(t: TdcType) -> u8 {
    match t {
        TdcType::TdcOneRisingEdge => 15,
        TdcType::TdcOneFallingEdge => 10,
        TdcType::TdcTwoRisingEdge => 14,
        TdcType::TdcTwoFallingEdge => 11,
        TdcType::NoTdc => 0,
    }
}

/// The edge kind of a 4-bit code, if it is one.
pub open spec fn tdc_from_value(v: int) -> Option<TdcType> {
    if v == 15 {
        Some(TdcType::TdcOneRisingEdge)
    } else if v == 10 {
        Some(TdcType::TdcOneFallingEdge)
    } else if v == 14 {
        Some(TdcType::TdcTwoRisingEdge)
    } else if v == 11 {
        Some(TdcType::TdcTwoFallingEdge)
    } else {
        None
    }
}

/// Whether the code `v` is an edge of the input line of `t`.
pub open spec fn same_inputline(t: TdcType, v: int) -> bool {
    match t {
        TdcType::TdcOneRisingEdge | TdcType::TdcOneFallingEdge => v == 15 || v == 10,
        TdcType::TdcTwoRisingEdge | TdcType::TdcTwoFallingEdge => v == 14 || v == 11,
        TdcType::NoTdc => false,
    }
}

/// The falling edge of the input line of `t`.
pub open spec fn falling_of(t: TdcType) -> TdcType {
    match t {
        TdcType::TdcOneRisingEdge | TdcType::TdcOneFallingEdge => TdcType::TdcOneFallingEdge,
        TdcType::TdcTwoRisingEdge | TdcType::TdcTwoFallingEdge => TdcType::TdcTwoFallingEdge,
        TdcType::NoTdc => TdcType::NoTdc,
    }
}

/// The rising edge of the input line of `t`.
pub open spec fn rising_of(t: TdcType) -> TdcType {
    match t {
        TdcType::TdcOneRisingEdge | TdcType::TdcOneFallingEdge => TdcType::TdcOneRisingEdge,
        TdcType::TdcTwoRisingEdge | TdcType::TdcTwoFallingEdge => TdcType::TdcTwoRisingEdge,
        TdcType::NoTdc => TdcType::NoTdc,
    }
}

impl TdcType {
    pub fn associate_value(&self) -> (r: u8)
        ensures
            r == tdc_value(*self),
    {
        match *self {
            TdcType::TdcOneRisingEdge => 15,
            TdcType::TdcOneFallingEdge => 10,
            TdcType::TdcTwoRisingEdge => 14,
            TdcType::TdcTwoFallingEdge => 11,
            TdcType::NoTdc => 0,
        }
    }

    pub fn associate_str(&self) -> (r: String)
        ensures
            *self == TdcType::TdcOneRisingEdge ==> r@ == "Tdc 01 Rising Edge"@,
            *self == TdcType::TdcOneFallingEdge ==> r@ == "Tdc 01 Falling Edge"@,
            *self == TdcType::TdcTwoRisingEdge ==> r@ == "Tdc 02 Rising Edge"@,
            *self == TdcType::TdcTwoFallingEdge ==> r@ == "Tdc 02 Falling Edge"@,
            *self == TdcType::NoTdc ==> r@ == "Tdc Disabled"@,
    {
        match *self {
            TdcType::TdcOneRisingEdge => "Tdc 01 Rising Edge".to_owned(),
            TdcType::TdcOneFallingEdge => "Tdc 01 Falling Edge".to_owned(),
            TdcType::TdcTwoRisingEdge => "Tdc 02 Rising Edge".to_owned(),
            TdcType::TdcTwoFallingEdge => "Tdc 02 Falling Edge".to_owned(),
            TdcType::NoTdc => "Tdc Disabled".to_owned(),
        }
    }

    /// Whether a 4-bit TDC code is an edge of the same input line as `self`.
    pub fn is_same_inputline(&self, check: u8) -> (r: bool)
        ensures
            r == same_inputline(*self, check as int),
    {
        match *self {
            TdcType::TdcOneRisingEdge | TdcType::TdcOneFallingEdge => check == 15 || check == 10,
            TdcType::TdcTwoRisingEdge | TdcType::TdcTwoFallingEdge => check == 14 || check == 11,
            TdcType::NoTdc => false,
        }
    }

    pub fn associate_value_to_enum(value: u8) -> (r: Option<TdcType>)
        ensures
            r == tdc_from_value(value as int),
    {
        match value {
            15 => Some(TdcType::TdcOneRisingEdge),
            10 => Some(TdcType::TdcOneFallingEdge),
            14 => Some(TdcType::TdcTwoRisingEdge),
            11 => Some(TdcType::TdcTwoFallingEdge),
            _ => None,
        }
    }

    fn falling(&self) -> (r: TdcType)
        ensures
            r == falling_of(*self),
    {
        match *self {
            TdcType::TdcOneRisingEdge | TdcType::TdcOneFallingEdge => TdcType::TdcOneFallingEdge,
            TdcType::TdcTwoRisingEdge | TdcType::TdcTwoFallingEdge => TdcType::TdcTwoFallingEdge,
            TdcType::NoTdc => TdcType::NoTdc,
        }
    }

    fn rising(&self) -> (r: TdcType)
        ensures
            r == rising_of(*self),
    {
        match *self {
            TdcType::TdcOneRisingEdge | TdcType::TdcOneFallingEdge => TdcType::TdcOneRisingEdge,
            TdcType::TdcTwoRisingEdge | TdcType::TdcTwoFallingEdge => TdcType::TdcTwoRisingEdge,
            TdcType::NoTdc => TdcType::NoTdc,
        }
    }
}

/// Times of the entries of kind `which`, in the order they were seen.
pub open spec fn times_of(entries: Seq<(Time, TdcType)>, which: TdcType) -> Seq<Time>
    decreases entries.len(),
{
    if entries.len() == 0 {
        Seq::empty()
    } else {
        let rest = times_of(entries.drop_last(), which);
        if entries.last().1 == which {
            rest.push(entries.last().0)
        } else {
            rest
        }
    }
}

/// Each time is later than the one before it.
pub open spec fn strictly_ascending(ts: Seq<Time>) -> bool {
    forall|i: int| 0 <= i < ts.len() - 1 ==> #[trigger] ts[i] < ts[i + 1]
}

/// What synchronisation has gathered so far.
pub struct SearchView {
    /// Every edge of the chosen input line, with its time.
    pub entries: Seq<(Time, TdcType)>,
    /// Hardware counter of the first edge of the chosen kind.
    pub initial_counter: Option<u64>,
    /// Hardware counter of the latest edge of the chosen kind.
    pub last_counter: u16,
}

/// The first counter seen is kept exactly when an edge of the chosen kind has been seen.
pub open spec fn search_consistent(v: SearchView, chosen: TdcType) -> bool {
    &&& v.initial_counter.is_some() == (times_of(v.entries, chosen).len() > 0)
    &&& v.initial_counter.is_some() ==> v.initial_counter.unwrap() < 4096
    &&& v.last_counter < 4096
}

/// Records one TDC edge of the chosen line.
pub open spec fn add_spec(v: SearchView, chosen: TdcType, rec: Seq<u8>) -> SearchView {
    match tdc_from_value(spec_tdc_type(rec)) {
        None => v,
        Some(t) => {
            let counter = spec_tdc_counter(rec);
            SearchView {
                entries: v.entries.push((spec_tdc_time(rec) as Time, t)),
                initial_counter: if t == chosen && v.initial_counter.is_none() {
                    Some(counter as u64)
                } else {
                    v.initial_counter
                },
                last_counter: if t == chosen {
                    counter as u16
                } else {
                    v.last_counter
                },
            }
        },
    }
}

/// Effect of one 8-byte record on the search: chip markers and anything but a TDC edge of
/// the chosen input line leave it alone.
pub open spec fn search_step(v: SearchView, chosen: TdcType, rec: Seq<u8>) -> SearchView {
    if !is_chip_marker(rec) && spec_id(rec) == 6 && same_inputline(chosen, spec_tdc_type(rec)) {
        add_spec(v, chosen, rec)
    } else {
        v
    }
}

/// Effect of the first `n` records of `data` on the search.
pub open spec fn search_fold(v: SearchView, chosen: TdcType, data: Seq<u8>, n: nat) -> SearchView
    decreases n,
{
    if n == 0 {
        v
    } else {
        search_step(search_fold(v, chosen, data, (n - 1) as nat), chosen, record(data, n - 1))
    }
}

/// Outcome of the completeness and order check.
pub open spec fn check_spec(v: SearchView, chosen: TdcType, how_many: usize) -> Result<
    bool,
    Tp3ErrorKind,
> {
    let ts = times_of(v.entries, chosen);
    if ts.len() >= how_many {
        if strictly_ascending(ts) {
            Ok(true)
        } else {
            Err(Tp3ErrorKind::TdcNotAscendingOrder)
        }
    } else {
        Ok(false)
    }
}

/// High time of the line: from the latest rising edge to the latest falling edge after it.
pub open spec fn high_time_spec(v: SearchView, chosen: TdcType) -> Result<Time, Tp3ErrorKind> {
    let fal = times_of(v.entries, falling_of(chosen));
    let ris = times_of(v.entries, rising_of(chosen));
    if fal.len() == 0 || ris.len() == 0 {
        Err(Tp3ErrorKind::TdcBadHighTime)
    } else if fal.last() > ris.last() {
        Ok((fal.last() - ris.last()) as Time)
    } else if ris.len() < 2 || fal.last() < ris[ris.len() - 2] {
        Err(Tp3ErrorKind::TdcBadHighTime)
    } else {
        Ok((fal.last() - ris[ris.len() - 2]) as Time)
    }
}

/// Period: the time between the last two edges of the chosen kind.
pub open spec fn period_spec(ts: Seq<Time>) -> Result<Time, Tp3ErrorKind> {
    let last = ts[ts.len() - 1];
    let before = ts[ts.len() - 2];
    if last > before {
        Ok((last - before) as Time)
    } else {
        Err(Tp3ErrorKind::TdcBadPeriod)
    }
}

/// Collects the edges of one input line from the start of the stream.
pub struct TdcSearch {
    data: Vec<(Time, TdcType)>,
    how_many: usize,
    tdc_choosen: TdcType,
    initial_counter: Option<u64>,
    last_counter: u16,
}

impl View for TdcSearch {
    type V = SearchView;

    closed spec fn view(&self) -> SearchView {
        SearchView {
            entries: self.data@,
            initial_counter: self.initial_counter,
            last_counter: self.last_counter,
        }
    }
}

impl TdcSearch {
    /// Number of edges of the chosen kind that the search waits for.
    pub closed spec fn spec_how_many(&self) -> usize {
        self.how_many
    }

    /// The edge kind that the search is for.
    pub closed spec fn chosen(&self) -> TdcType {
        self.tdc_choosen
    }

    /// Times of the edges of the chosen kind seen so far.
    pub open spec fn chosen_times(&self) -> Seq<Time> {
        times_of(self@.entries, self.chosen())
    }

    pub open spec fn wf(&self) -> bool {
        search_consistent(self@, self.chosen())
    }

    pub fn new(tdc_choosen: &TdcType, how_many: usize) -> (r: Self)
        ensures
            r@.entries == Seq::<(Time, TdcType)>::empty(),
            r@.initial_counter.is_none(),
            r@.last_counter == 0,
            r.chosen() == *tdc_choosen,
            r.spec_how_many() == how_many,
            r.wf(),
    {
        TdcSearch {
            data: Vec::new(),
            how_many,
            tdc_choosen: *tdc_choosen,
            initial_counter: None,
            last_counter: 0,
        }
    }

    fn add_tdc(&mut self, packet: &Packet)
        requires
            packet.wf(),
            old(self).wf(),
        ensures
            final(self)@ == add_spec(old(self)@, old(self).chosen(), packet.data@),
            final(self).chosen() == old(self).chosen(),
            final(self).spec_how_many() == old(self).spec_how_many(),
            final(self).wf(),
    {
        if let Some(tdc) = TdcType::associate_value_to_enum(packet.tdc_type()) {
            let time = packet.tdc_time_norm();
            self.data.push((time, tdc));
            if packet.tdc_type() == self.tdc_choosen.associate_value() {
                let counter = packet.tdc_counter();
                self.last_counter = counter;
                self.initial_counter = match self.initial_counter {
                    None => Some(counter as u64),
                    Some(val) => Some(val),
                };
            }
            proof {
                let old_v = old(self)@;
                assert(self@.entries.drop_last() =~= old_v.entries);
                assert((tdc == self.tdc_choosen) == (tdc_value(tdc) == tdc_value(
                    self.tdc_choosen,
                )));
            }
        }
    }

    fn count_chosen(&self) -> (r: usize)
        ensures
            r == self.chosen_times().len(),
    {
        let mut counter: usize = 0;
        let mut i: usize = 0;
        while i < self.data.len()
            invariant
                i <= self.data@.len(),
                counter == times_of(self.data@.take(i as int), self.tdc_choosen).len(),
                counter <= i,
            decreases self.data@.len() - i,
        {
            proof {
                assert(self.data@.take(i + 1).drop_last() =~= self.data@.take(i as int));
            }
            if self.data[i].1 == self.tdc_choosen {
                counter += 1;
            }
            i += 1;
        }
        proof {
            assert(self.data@.take(i as int) =~= self.data@);
        }
        counter
    }

    /// Whether enough edges of the chosen kind have come, and an error if their times are not
    /// strictly ascending.
    pub fn check_tdc(&self) -> (r: Result<bool, Tp3ErrorKind>)
        ensures
            r == check_spec(self@, self.chosen(), self.spec_how_many()),
    {
        let counter = self.count_chosen();
        if counter >= self.how_many {
            match self.check_ascending_order() {
                Ok(()) => Ok(true),
                Err(e) => Err(e),
            }
        } else {
            Ok(false)
        }
    }

    /// Times of the entries of kind `which`.
    pub fn get_timelist(&self, which: &TdcType) -> (r: Vec<Time>)
        ensures
            r@ == times_of(self@.entries, *which),
    {
        let mut out: Vec<Time> = Vec::new();
        let mut i: usize = 0;
        while i < self.data.len()
            invariant
                i <= self.data@.len(),
                out@ == times_of(self.data@.take(i as int), *which),
            decreases self.data@.len() - i,
        {
            proof {
                assert(self.data@.take(i + 1).drop_last() =~= self.data@.take(i as int));
            }
            if self.data[i].1 == *which {
                out.push(self.data[i].0);
            }
            i += 1;
        }
        proof {
            assert(self.data@.take(i as int) =~= self.data@);
        }
        out
    }

    /// Times of the edges of the chosen kind.
    pub fn get_auto_timelist(&self) -> (r: Vec<Time>)
        ensures
            r@ == self.chosen_times(),
    {
        self.get_timelist(&self.tdc_choosen)
    }

    /// An error unless the times of the chosen kind are strictly ascending.
    pub fn check_ascending_order(&self) -> (r: Result<(), Tp3ErrorKind>)
        ensures
            r == (if strictly_ascending(self.chosen_times()) {
                Ok(())
            } else {
                Err(Tp3ErrorKind::TdcNotAscendingOrder)
            }),
    {
        let time_list = self.get_auto_timelist();
        let len = time_list.len();
        let mut i: usize = 0;
        while i + 1 < len
            invariant
                len == time_list@.len(),
                i == 0 || i < len,
                time_list@ == self.chosen_times(),
                forall|j: int| 0 <= j < i ==> #[trigger] time_list@[j] < time_list@[j + 1],
            decreases time_list@.len() - i,
        {
            if time_list[i] >= time_list[i + 1] {
                return Err(Tp3ErrorKind::TdcNotAscendingOrder);
            }
            i += 1;
        }
        Ok(())
    }

    /// Time from the latest rising edge of the line to the latest falling edge after it.
    pub fn find_high_time(&self) -> (r: Result<Time, Tp3ErrorKind>)
        ensures
            r == high_time_spec(self@, self.chosen()),
    {
        let fal_tdc_type = self.tdc_choosen.falling();
        let ris_tdc_type = self.tdc_choosen.rising();
        let mut fal = self.get_timelist(&fal_tdc_type);
        let mut ris = self.get_timelist(&ris_tdc_type);
        let last_fal = match fal.pop() {
            Some(val) => val,
            None => return Err(Tp3ErrorKind::TdcBadHighTime),
        };
        let last_ris = match ris.pop() {
            Some(val) => val,
            None => return Err(Tp3ErrorKind::TdcBadHighTime),
        };
        if last_fal > last_ris {
            Ok(last_fal - last_ris)
        } else {
            let new_ris = match ris.pop() {
                Some(val) => val,
                None => return Err(Tp3ErrorKind::TdcBadHighTime),
            };
            if last_fal >= new_ris {
                Ok(last_fal - new_ris)
            } else {
                Err(Tp3ErrorKind::TdcBadHighTime)
            }
        }
    }

    /// Time between the last two edges of the chosen kind.
    pub fn find_period(&self) -> (r: Result<Time, Tp3ErrorKind>)
        requires
            self.chosen_times().len() >= 2,
        ensures
            r == period_spec(self.chosen_times()),
    {
        let mut tdc_time = self.get_auto_timelist();
        let last = tdc_time.pop().unwrap();
        let before_last = tdc_time.pop().unwrap();
        if last > before_last {
            Ok(last - before_last)
        } else {
            Err(Tp3ErrorKind::TdcBadPeriod)
        }
    }

    /// Number of edges of the chosen kind.
    pub fn get_counter(&self) -> (r: Result<u64, Tp3ErrorKind>)
        ensures
            r == Ok::<u64, Tp3ErrorKind>(self.chosen_times().len() as u64),
    {
        Ok(self.count_chosen() as u64)
    }

    /// Hardware counter of the first edge of the chosen kind.
    pub fn get_counter_offset(&self) -> (r: u64)
        requires
            self@.initial_counter.is_some(),
        ensures
            r == self@.initial_counter.unwrap(),
    {
        self.initial_counter.unwrap()
    }

    /// Hardware counter of the latest edge of the chosen kind.
    pub fn get_last_hardware_counter(&self) -> (r: u16)
        ensures
            r == self@.last_counter,
    {
        self.last_counter
    }

    /// Time of the latest edge of the chosen kind.
    pub fn get_lasttime(&self) -> (r: Time)
        requires
            self.chosen_times().len() > 0,
        ensures
            r == self.chosen_times().last(),
    {
        let mut ts = self.get_auto_timelist();
        ts.pop().unwrap()
    }

    /// Time of the first edge of the chosen kind.
    pub fn get_begintime(&self) -> (r: Time)
        requires
            self.chosen_times().len() > 0,
        ensures
            r == self.chosen_times()[0],
    {
        let ts = self.get_auto_timelist();
        ts[0]
    }

    /// Feeds a chunk of the stream to the search, record by record; a trailing partial record
    /// is ignored.
    pub fn search_specific_tdc(&mut self, data: &[u8])
        requires
            old(self).wf(),
        ensures
            final(self)@ == search_fold(
                old(self)@,
                old(self).chosen(),
                data@,
                (data@.len() / 8) as nat,
            ),
            final(self).chosen() == old(self).chosen(),
            final(self).spec_how_many() == old(self).spec_how_many(),
            final(self).wf(),
    {
        let len = data.len();
        let n = len / 8;
        let mut k: usize = 0;
        while k < n
            invariant
                len == data@.len(),
                n == data@.len() / 8,
                k <= n,
                self.wf(),
                self.chosen() == old(self).chosen(),
                self.spec_how_many() == old(self).spec_how_many(),
                self@ == search_fold(old(self)@, old(self).chosen(), data@, k as nat),
            decreases n - k,
        {
            assert(8 * k + 8 <= data@.len()) by (nonlinear_arith)
                requires
                    k < n,
                    n == len / 8,
                    len == data@.len(),
            ;
            let rec = slice_subrange(data, 8 * k, 8 * k + 8);
            assert(rec@ == record(data@, k as int));
            let is_marker = rec[0] == 84 && rec[1] == 80 && rec[2] == 88 && rec[3] == 51;
            if !is_marker {
                let packet = Packet { chip_index: 0, data: rec };
                if packet.id() == 6 && self.tdc_choosen.is_same_inputline(packet.tdc_type()) {
                    self.add_tdc(&packet);
                }
            }
            k += 1;
        }
    }
}

/// Feeds one chunk to a running synchronisation. `elapsed_ms` is the time since it began,
/// measured before the chunk was read: past the timeout it fails with `TdcNoReceived` and the
/// chunk is not used. Otherwise it reports whether enough edges have come.
pub fn sync_step(search: &mut TdcSearch, chunk: &[u8], elapsed_ms: u64) -> (r: Result<
    bool,
    Tp3ErrorKind,
>)
    requires
        old(search).wf(),
    ensures
        elapsed_ms > SYNC_TIMEOUT_MS ==> r == Err::<bool, Tp3ErrorKind>(Tp3ErrorKind::TdcNoReceived)
            && *final(search) == *old(search),
        elapsed_ms <= SYNC_TIMEOUT_MS ==> final(search)@ == search_fold(
            old(search)@,
            old(search).chosen(),
            chunk@,
            (chunk@.len() / 8) as nat,
        ) && r == check_spec(final(search)@, old(search).chosen(), old(search).spec_how_many()),
        final(search).chosen() == old(search).chosen(),
        final(search).spec_how_many() == old(search).spec_how_many(),
        final(search).wf(),
{
    if elapsed_ms > SYNC_TIMEOUT_MS {
        return Err(Tp3ErrorKind::TdcNoReceived);
    }
    search.search_specific_tdc(chunk);
    search.check_tdc()
}

/// Once enough edges were asked for, an edge time that does not come after the one before it
/// makes the check fail with `TdcNotAscendingOrder`.
pub proof fn lemma_out_of_order_rejected(v: SearchView, chosen: TdcType, how_many: usize, i: int)
    requires
        times_of(v.entries, chosen).len() >= how_many,
        0 <= i < times_of(v.entries, chosen).len() - 1,
        times_of(v.entries, chosen)[i] >= times_of(v.entries, chosen)[i + 1],
    ensures
        check_spec(v, chosen, how_many) == Err::<bool, Tp3ErrorKind>(
            Tp3ErrorKind::TdcNotAscendingOrder,
        ),
{
}

/// Period of the chosen edge kind, once enough strictly ascending edges have come.
pub open spec fn sync_period_spec(v: SearchView, chosen: TdcType, how_many: usize) -> Result<
    Time,
    Tp3ErrorKind,
> {
    match check_spec(v, chosen, how_many) {
        Err(e) => Err(e),
        Ok(done) => if !done {
            Err(Tp3ErrorKind::TdcNoReceived)
        } else if times_of(v.entries, chosen).len() < 2 {
            Err(Tp3ErrorKind::TdcBadPeriod)
        } else {
            period_spec(times_of(v.entries, chosen))
        },
    }
}

/// Period and high time of a periodic line, with the high time no longer than the period.
pub open spec fn periodic_sync_spec(v: SearchView, chosen: TdcType, how_many: usize) -> Result<
    (Time, Time),
    Tp3ErrorKind,
> {
    match check_spec(v, chosen, how_many) {
        Err(e) => Err(e),
        Ok(done) => if !done {
            Err(Tp3ErrorKind::TdcNoReceived)
        } else if times_of(v.entries, chosen).len() < 2 {
            Err(Tp3ErrorKind::TdcBadPeriod)
        } else {
            match high_time_spec(v, chosen) {
                Err(e) => Err(e),
                Ok(h) => match period_spec(times_of(v.entries, chosen)) {
                    Err(e) => Err(e),
                    Ok(p) => if h > p {
                        Err(Tp3ErrorKind::TdcBadHighTime)
                    } else {
                        Ok((p, h))
                    },
                },
            }
        },
    }
}

/// With fewer edges of the chosen kind than asked for, synchronisation is still pending, and
/// setting up either periodic reference from it fails with `TdcNoReceived`.
pub proof fn lemma_too_few_edges_pending(v: SearchView, chosen: TdcType, how_many: usize)
    requires
        times_of(v.entries, chosen).len() < how_many,
    ensures
        check_spec(v, chosen, how_many) == Ok::<bool, Tp3ErrorKind>(false),
        sync_period_spec(v, chosen, how_many) == Err::<Time, Tp3ErrorKind>(
            Tp3ErrorKind::TdcNoReceived,
        ),
        periodic_sync_spec(v, chosen, how_many) == Err::<(Time, Time), Tp3ErrorKind>(
            Tp3ErrorKind::TdcNoReceived,
        ),
{
}

/// Wraps of the hardware counter at the end of synchronisation: one if the latest counter is
/// below the first.
pub open spec fn initial_overflow(v: SearchView) -> u64 {
    if (v.last_counter as u64) < v.initial_counter.unwrap() {
        1
    } else {
        0
    }
}

/// The common interface of the time references.
pub trait TdcControl: Sized {
    spec fn spec_id(&self) -> u8;

    spec fn spec_counter(&self) -> u64;

    spec fn spec_time(&self) -> Time;

    spec fn spec_period(&self) -> Option<Time>;

    /// The reference's own invariant.
    spec fn tdc_wf(&self) -> bool;

    /// How many more updates the reference can take.
    spec fn headroom(&self) -> nat;

    /// The reference after an edge at `time` with hardware counter `hard_counter`.
    spec fn upt_spec(&self, time: Time, hard_counter: u16) -> Self;

    /// The 4-bit code of the edge kind that the reference follows.
    fn id(&self) -> (r: u8)
        ensures
            r == self.spec_id(),
    ;

    /// Takes a new edge of the reference's kind.
    fn upt(&mut self, time: Time, hard_counter: u16)
        requires
            old(self).tdc_wf(),
            old(self).headroom() > 0,
            hard_counter < 4096,
        ensures
            *final(self) == old(self).upt_spec(time, hard_counter),
            final(self).tdc_wf(),
            final(self).headroom() + 1 >= old(self).headroom(),
            final(self).spec_id() == old(self).spec_id(),
            final(self).spec_period() == old(self).spec_period(),
            final(self).spec_time() == time,
    ;

    /// Whether the reference can take `n` more updates.
    fn room_for(&self, n: usize) -> (r: bool)
        ensures
            r == (self.headroom() >= n),
    ;

    fn counter(&self) -> (r: u64)
        ensures
            r == self.spec_counter(),
    ;

    fn time(&self) -> (r: Time)
        ensures
            r == self.spec_time(),
    ;

    /// The period, for the periodic kinds.
    fn period(&self) -> (r: Option<Time>)
        ensures
            r == self.spec_period(),
    ;
}

/// Logical counter for a hardware counter and a number of wraps.
pub open spec fn logical_counter(hard_counter: int, overflow: int, offset: int) -> int {
    hard_counter + overflow * 4096 - offset
}

/// A periodic line clock: it follows the wraps of the 12-bit hardware counter and, given
/// `ticks_to_frame`, marks the start of each frame.
#[derive(Clone, Copy, Debug)]
pub struct PeriodicTdcRef {
    pub tdctype: u8,
    pub counter: u64,
    pub counter_offset: u64,
    pub last_hard_counter: u16,
    pub counter_overflow: u64,
    pub begin_time: Time,
    pub ticks_to_frame: Option<u64>,
    pub begin_frame: Time,
    pub period: Time,
    pub high_time: Time,
    pub low_time: Time,
    pub time: Time,
}

impl PeriodicTdcRef {
    pub open spec fn wf(&self) -> bool {
        &&& self.counter_offset < 4096
        &&& self.last_hard_counter < 4096
        &&& self.counter_overflow <= OVERFLOW_LIMIT
        &&& logical_counter(
            self.last_hard_counter as int,
            self.counter_overflow as int,
            self.counter_offset as int,
        ) >= 0
        &&& self.spec_counter() <= logical_counter(
            self.last_hard_counter as int,
            self.counter_overflow as int,
            self.counter_offset as int,
        )
        &&& self.ticks_to_frame != Some(0u64)
    }

    /// Whether the frame rule fires at the current counter: always without `ticks_to_frame`,
    /// and with it whenever half the counter is a multiple of it.
    pub open spec fn spec_frame_boundary(&self) -> bool {
        match self.ticks_to_frame {
            None => true,
            Some(n) => (self.spec_counter() as int / 2) % (n as int) == 0,
        }
    }

    /// Sets the reference up from a finished synchronisation on a periodic line. The counter
    /// starts at zero, the hardware counter of the first edge seen becomes the offset, and the
    /// first frame begins at that edge. Wraps of the hardware counter are followed from the
    /// latest edge of synchronisation on.
    pub fn new(search: &TdcSearch, ticks_to_frame: Option<u64>) -> (r: Result<
        Self,
        Tp3ErrorKind,
    >)
        requires
            search.wf(),
            ticks_to_frame != Some(0u64),
        ensures
            match periodic_sync_spec(search@, search.chosen(), search.spec_how_many()) {
                Err(e) => r == Err::<Self, Tp3ErrorKind>(e),
                Ok((p, h)) => r is Ok && {
                    let t = r->Ok_0;
                    let ts = search.chosen_times();
                    &&& t.wf()
                    &&& t.spec_id() == tdc_value(search.chosen())
                    &&& t.period == p
                    &&& t.high_time == h
                    &&& t.low_time == p - h
                    &&& t.ticks_to_frame == ticks_to_frame
                    &&& t.counter == 0
                    &&& t.begin_frame == ts[0]
                    &&& t.begin_time == ts[0]
                    &&& t.spec_time() == ts.last()
                    &&& t.counter_offset == search@.initial_counter.unwrap()
                    &&& t.last_hard_counter == search@.last_counter
                    &&& t.counter_overflow == initial_overflow(search@)
                },
            },
    {
        match search.check_tdc() {
            Err(e) => return Err(e),
            Ok(done) => if !done {
                return Err(Tp3ErrorKind::TdcNoReceived);
            },
        }
        if search.count_chosen() < 2 {
            return Err(Tp3ErrorKind::TdcBadPeriod);
        }
        let counter_offset = search.get_counter_offset();
        let last_hard_counter = search.get_last_hardware_counter();
        let begin_time = search.get_begintime();
        let last_time = search.get_lasttime();
        let high_time = match search.find_high_time() {
            Ok(h) => h,
            Err(e) => return Err(e),
        };
        let period = match search.find_period() {
            Ok(p) => p,
            Err(e) => return Err(e),
        };
        if high_time > period {
            return Err(Tp3ErrorKind::TdcBadHighTime);
        }
        let low_time = period - high_time;
        let counter_overflow: u64 = if (last_hard_counter as u64) < counter_offset {
            1
        } else {
            0
        };
        let counter: u64 = 0;
        Ok(PeriodicTdcRef {
            tdctype: search.tdc_choosen.associate_value(),
            counter,
            counter_offset,
            last_hard_counter,
            counter_overflow,
            begin_time,
            ticks_to_frame,
            begin_frame: begin_time,
            period,
            high_time,
            low_time,
            time: last_time,
        })
    }

    /// Whether the frame rule fires at the current counter.
    pub fn at_frame_boundary(&self) -> (r: bool)
        requires
            self.wf(),
        ensures
            r == self.spec_frame_boundary(),
    {
        match self.ticks_to_frame {
            None => true,
            Some(n) => (self.counter / 2) % n == 0,
        }
    }

    /// Number of whole frames since the first edge; 0 without `ticks_to_frame`.
    pub fn frame(&self) -> (r: u64)
        requires
            self.wf(),
        ensures
            r == match self.ticks_to_frame {
                Some(n) => (self.spec_counter() as int / 2) / (n as int),
                None => 0,
            },
    {
        if let Some(spimy) = self.ticks_to_frame {
            (self.counter / 2) / spimy
        } else {
            0
        }
    }

    /// Time per scan column: the low time spread over `xspim` columns.
    pub fn pixel_time(&self, xspim: usize) -> (r: Time)
        requires
            xspim > 0,
        ensures
            r == self.low_time / (xspim as Time),
    {
        self.low_time / (xspim as Time)
    }

    /// Time of the current edge extrapolated from the first one: one period per two counts.
    pub fn estimate_time(&self) -> (r: Time)
        requires
            (self.spec_counter() / 2) * self.period + self.begin_time <= u64::MAX,
        ensures
            r == (self.spec_counter() / 2) * self.period + self.begin_time,
    {
        assert((self.counter / 2) * self.period <= u64::MAX) by (nonlinear_arith)
            requires
                (self.counter / 2) * self.period + self.begin_time <= u64::MAX,
        ;
        (self.counter / 2) * self.period + self.begin_time
    }
}

impl TdcControl for PeriodicTdcRef {
    open spec fn spec_id(&self) -> u8 {
        self.tdctype
    }

    open spec fn spec_counter(&self) -> u64 {
        self.counter
    }

    open spec fn spec_time(&self) -> Time {
        self.time
    }

    open spec fn spec_period(&self) -> Option<Time> {
        Some(self.period)
    }

    open spec fn tdc_wf(&self) -> bool {
        self.wf()
    }

    open spec fn headroom(&self) -> nat {
        if self.counter_overflow <= OVERFLOW_LIMIT {
            (OVERFLOW_LIMIT - self.counter_overflow) as nat
        } else {
            0
        }
    }

    open spec fn upt_spec(&self, time: Time, hard_counter: u16) -> Self {
        let overflow = if hard_counter < self.last_hard_counter {
            self.counter_overflow + 1
        } else {
            self.counter_overflow as int
        };
        let counter = logical_counter(hard_counter as int, overflow, self.counter_offset as int);
        PeriodicTdcRef {
            tdctype: self.tdctype,
            counter: counter as u64,
            counter_offset: self.counter_offset,
            last_hard_counter: hard_counter,
            counter_overflow: overflow as u64,
            begin_time: self.begin_time,
            ticks_to_frame: self.ticks_to_frame,
            begin_frame: match self.ticks_to_frame {
                Some(n) => if (counter / 2) % (n as int) == 0 {
                    time
                } else {
                    self.begin_frame
                },
                None => self.begin_frame,
            },
            period: self.period,
            high_time: self.high_time,
            low_time: self.low_time,
            time,
        }
    }

    fn id(&self) -> (r: u8) {
        self.tdctype
    }

    fn upt(&mut self, time: Time, hard_counter: u16) {
        if hard_counter < self.last_hard_counter {
            self.counter_overflow += 1;
        }
        self.last_hard_counter = hard_counter;
        self.time = time;
        self.counter = self.last_hard_counter as u64 + self.counter_overflow * 4096
            - self.counter_offset;
        if let Some(spimy) = self.ticks_to_frame {
            if (self.counter / 2) % spimy == 0 {
                self.begin_frame = time;
            }
        }
    }

    fn room_for(&self, n: usize) -> (r: bool) {
        n == 0 || (self.counter_overflow <= OVERFLOW_LIMIT && OVERFLOW_LIMIT - self.counter_overflow
            >= n as u64)
    }

    fn counter(&self) -> (r: u64) {
        self.counter
    }

    fn time(&self) -> (r: Time) {
        self.time
    }

    fn period(&self) -> (r: Option<Time>) {
        Some(self.period)
    }
}

/// Number of times the hardware counter went down over the first `k` values of `hcs`,
/// starting after the value `prev`.
pub open spec fn wraps(prev: u16, hcs: Seq<u16>, k: nat) -> nat
    decreases k,
{
    if k == 0 {
        0
    } else {
        let before = if k == 1 {
            prev
        } else {
            hcs[k - 2]
        };
        wraps(prev, hcs, (k - 1) as nat) + if hcs[k - 1] < before {
            1nat
        } else {
            0nat
        }
    }
}

/// The reference after edges with hardware counters `hcs[0..k]`, all at time `t`.
pub open spec fn upt_all(r: PeriodicTdcRef, hcs: Seq<u16>, t: Time, k: nat) -> PeriodicTdcRef
    decreases k,
{
    if k == 0 {
        r
    } else {
        upt_all(r, hcs, t, (k - 1) as nat).upt_spec(t, hcs[k - 1])
    }
}

/// One update keeps the invariant, counts one wrap exactly when the hardware counter went
/// down, and never lowers the logical counter.
pub proof fn lemma_upt_counter(r: PeriodicTdcRef, time: Time, hard_counter: u16)
    requires
        r.wf(),
        r.counter_overflow < OVERFLOW_LIMIT,
        hard_counter < 4096,
    ensures
        ({
            let n = r.upt_spec(time, hard_counter);
            &&& n.wf()
            &&& n.counter_offset == r.counter_offset
            &&& n.last_hard_counter == hard_counter
            &&& n.counter_overflow == r.counter_overflow + if hard_counter
                < r.last_hard_counter {
                1int
            } else {
                0int
            }
            &&& n.counter == logical_counter(
                hard_counter as int,
                n.counter_overflow as int,
                r.counter_offset as int,
            )
            &&& n.counter >= r.counter
        }),
{
}

/// Over a whole run of hardware counters, however often it wraps, the logical counter is the
/// raw counter plus 4096 per wrap seen minus the offset, and it never goes down.
pub proof fn lemma_counter_run(r: PeriodicTdcRef, hcs: Seq<u16>, t: Time)
    requires
        r.wf(),
        r.counter_overflow + hcs.len() <= OVERFLOW_LIMIT,
        forall|i: int| 0 <= i < hcs.len() ==> hcs[i] < 4096,
    ensures
        forall|k: nat|
            0 < k <= hcs.len() ==> {
                let s = #[trigger] upt_all(r, hcs, t, k);
                &&& s.wf()
                &&& s.counter_overflow == r.counter_overflow + wraps(
                    r.last_hard_counter,
                    hcs,
                    k,
                )
                &&& s.counter == logical_counter(
                    hcs[k - 1] as int,
                    s.counter_overflow as int,
                    r.counter_offset as int,
                )
            },
        forall|k: nat|
            k < hcs.len() ==> #[trigger] upt_all(r, hcs, t, k).counter <= upt_all(
                r,
                hcs,
                t,
                k + 1,
            ).counter,
{
    assert forall|k: nat| k <= hcs.len() implies {
        let s = #[trigger] upt_all(r, hcs, t, k);
        &&& s.wf()
        &&& s.counter_offset == r.counter_offset
        &&& s.counter_overflow == r.counter_overflow + wraps(r.last_hard_counter, hcs, k)
        &&& s.last_hard_counter == if k == 0 {
            r.last_hard_counter
        } else {
            hcs[k - 1]
        }
    } by {
        lemma_counter_run_prefix(r, hcs, t, k);
    }
    assert forall|k: nat| 0 < k <= hcs.len() implies #[trigger] upt_all(r, hcs, t, k).counter
        == logical_counter(
        hcs[k - 1] as int,
        upt_all(r, hcs, t, k).counter_overflow as int,
        r.counter_offset as int,
    ) by {
        lemma_counter_run_prefix(r, hcs, t, (k - 1) as nat);
        lemma_upt_counter(upt_all(r, hcs, t, (k - 1) as nat), t, hcs[k - 1]);
    }
    assert forall|k: nat| k < hcs.len() implies #[trigger] upt_all(r, hcs, t, k).counter
        <= upt_all(r, hcs, t, k + 1).counter by {
        lemma_counter_run_prefix(r, hcs, t, k);
        lemma_upt_counter(upt_all(r, hcs, t, k), t, hcs[k as int]);
    }
}

proof fn lemma_counter_run_prefix(r: PeriodicTdcRef, hcs: Seq<u16>, t: Time, k: nat)
    requires
        r.wf(),
        r.counter_overflow + hcs.len() <= OVERFLOW_LIMIT,
        forall|i: int| 0 <= i < hcs.len() ==> hcs[i] < 4096,
        k <= hcs.len(),
    ensures
        ({
            let s = upt_all(r, hcs, t, k);
            &&& s.wf()
            &&& s.counter_offset == r.counter_offset
            &&& s.counter_overflow == r.counter_overflow + wraps(r.last_hard_counter, hcs, k)
            &&& s.last_hard_counter == if k == 0 {
                r.last_hard_counter
            } else {
                hcs[k - 1]
            }
            &&& wraps(r.last_hard_counter, hcs, k) <= k
        }),
    decreases k,
{
    if k > 0 {
        let k1 = (k - 1) as nat;
        lemma_counter_run_prefix(r, hcs, t, k1);
        lemma_upt_counter(upt_all(r, hcs, t, k1), t, hcs[k - 1]);
    }
}

/// A one-shot reference: synchronised like the periodic one, but it marks a single instant
/// and never moves `begin_frame`.
#[derive(Clone, Copy, Debug)]
pub struct SingleTriggerPeriodicTdcRef {
    pub tdctype: u8,
    pub counter: u64,
    pub counter_offset: u64,
    pub last_hard_counter: u16,
    pub counter_overflow: u64,
    pub begin_frame: Time,
    pub period: Time,
    pub time: Time,
}

impl SingleTriggerPeriodicTdcRef {
    pub open spec fn wf(&self) -> bool {
        &&& self.counter_offset < 4096
        &&& self.last_hard_counter < 4096
        &&& self.counter_overflow <= OVERFLOW_LIMIT
        &&& logical_counter(
            self.last_hard_counter as int,
            self.counter_overflow as int,
            self.counter_offset as int,
        ) >= 0
    }

    /// Sets the reference up from a finished synchronisation. The counter starts at the
    /// number of edges of the chosen kind that synchronisation saw.
    pub fn new(search: &TdcSearch) -> (r: Result<Self, Tp3ErrorKind>)
        requires
            search.wf(),
        ensures
            match sync_period_spec(search@, search.chosen(), search.spec_how_many()) {
                Err(e) => r == Err::<Self, Tp3ErrorKind>(e),
                Ok(p) => r is Ok && {
                    let t = r->Ok_0;
                    let ts = search.chosen_times();
                    &&& t.wf()
                    &&& t.tdctype == tdc_value(search.chosen())
                    &&& t.period == p
                    &&& t.counter == ts.len()
                    &&& t.begin_frame == ts[0]
                    &&& t.time == ts.last()
                    &&& t.counter_offset == search@.initial_counter.unwrap()
                    &&& t.last_hard_counter == search@.last_counter
                    &&& t.counter_overflow == initial_overflow(search@)
                },
            },
    {
        match search.check_tdc() {
            Err(e) => return Err(e),
            Ok(done) => if !done {
                return Err(Tp3ErrorKind::TdcNoReceived);
            },
        }
        if search.count_chosen() < 2 {
            return Err(Tp3ErrorKind::TdcBadPeriod);
        }
        let counter_offset = search.get_counter_offset();
        let last_hard_counter = search.get_last_hardware_counter();
        let begin_time = search.get_begintime();
        let last_time = search.get_lasttime();
        let period = match search.find_period() {
            Ok(p) => p,
            Err(e) => return Err(e),
        };
        let counter_overflow: u64 = if (last_hard_counter as u64) < counter_offset {
            1
        } else {
            0
        };
        let counter = search.count_chosen() as u64;
        Ok(SingleTriggerPeriodicTdcRef {
            tdctype: search.tdc_choosen.associate_value(),
            counter,
            counter_offset,
            last_hard_counter,
            counter_overflow,
            begin_frame: begin_time,
            period,
            time: last_time,
        })
    }
}

impl TdcControl for SingleTriggerPeriodicTdcRef {
    open spec fn spec_id(&self) -> u8 {
        self.tdctype
    }

    open spec fn spec_counter(&self) -> u64 {
        self.counter
    }

    open spec fn spec_time(&self) -> Time {
        self.time
    }

    open spec fn spec_period(&self) -> Option<Time> {
        Some(self.period)
    }

    open spec fn tdc_wf(&self) -> bool {
        self.wf()
    }

    open spec fn headroom(&self) -> nat {
        if self.counter_overflow <= OVERFLOW_LIMIT {
            (OVERFLOW_LIMIT - self.counter_overflow) as nat
        } else {
            0
        }
    }

    open spec fn upt_spec(&self, time: Time, hard_counter: u16) -> Self {
        let overflow = if hard_counter < self.last_hard_counter {
            self.counter_overflow + 1
        } else {
            self.counter_overflow as int
        };
        SingleTriggerPeriodicTdcRef {
            tdctype: self.tdctype,
            counter: logical_counter(
                hard_counter as int,
                overflow,
                self.counter_offset as int,
            ) as u64,
            counter_offset: self.counter_offset,
            last_hard_counter: hard_counter,
            counter_overflow: overflow as u64,
            begin_frame: self.begin_frame,
            period: self.period,
            time,
        }
    }

    fn id(&self) -> (r: u8) {
        self.tdctype
    }

    fn upt(&mut self, time: Time, hard_counter: u16) {
        if hard_counter < self.last_hard_counter {
            self.counter_overflow += 1;
        }
        self.last_hard_counter = hard_counter;
        self.time = time;
        self.counter = self.last_hard_counter as u64 + self.counter_overflow * 4096
            - self.counter_offset;
    }

    fn room_for(&self, n: usize) -> (r: bool) {
        n == 0 || (self.counter_overflow <= OVERFLOW_LIMIT && OVERFLOW_LIMIT - self.counter_overflow
            >= n as u64)
    }

    fn counter(&self) -> (r: u64) {
        self.counter
    }

    fn time(&self) -> (r: Time) {
        self.time
    }

    fn period(&self) -> (r: Option<Time>) {
        Some(self.period)
    }
}

/// A reference without period: it counts its edges and keeps the latest time.
#[derive(Clone, Copy, Debug)]
pub struct NonPeriodicTdcRef {
    pub tdctype: u8,
    pub counter: u64,
    pub time: Time,
}

impl NonPeriodicTdcRef {
    /// A reference for `tdc_type`, with no edge seen yet.
    pub fn new(tdc_type: TdcType) -> (r: Self)
        ensures
            r.tdctype == tdc_value(tdc_type),
            r.counter == 0,
            r.time == 0,
    {
        NonPeriodicTdcRef { tdctype: tdc_type.associate_value(), counter: 0, time: 0 }
    }
}

impl TdcControl for NonPeriodicTdcRef {
    open spec fn spec_id(&self) -> u8 {
        self.tdctype
    }

    open spec fn spec_counter(&self) -> u64 {
        self.counter
    }

    open spec fn spec_time(&self) -> Time {
        self.time
    }

    open spec fn spec_period(&self) -> Option<Time> {
        None
    }

    open spec fn tdc_wf(&self) -> bool {
        true
    }

    open spec fn headroom(&self) -> nat {
        (u64::MAX - self.counter) as nat
    }

    open spec fn upt_spec(&self, time: Time, hard_counter: u16) -> Self {
        NonPeriodicTdcRef { tdctype: self.tdctype, counter: (self.counter + 1) as u64, time }
    }

    fn id(&self) -> (r: u8) {
        self.tdctype
    }

    fn upt(&mut self, time: Time, hard_counter: u16) {
        self.time = time;
        self.counter += 1;
    }

    fn room_for(&self, n: usize) -> (r: bool) {
        u64::MAX - self.counter >= n as u64
    }

    fn counter(&self) -> (r: u64) {
        self.counter
    }

    fn time(&self) -> (r: Time) {
        self.time
    }

    fn period(&self) -> (r: Option<Time>) {
        None
    }
}

} // verus!
