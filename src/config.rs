//! Acquisition settings, detector geometry and the time unit shared by the library.
use vstd::prelude::*;

verus! {

/// A point in time or a duration, counted in half-picoseconds.
///
/// Every time field that the detector reports is an exact whole number of this unit:
/// a pixel's fine time step is 1.5625 ns, a TDC coarse step 3.125 ns, a TDC fine step 260 ps.
pub type Time = u64;

/// Number of `Time` units in one nanosecond.
pub const UNITS_PER_NS: u64 = 2000;

/// Number of `Time` units in one second.
pub const UNITS_PER_SECOND: u64 = 2_000_000_000_000;

/// Width of the detector plane in pixels: four chips of 256 columns side by side.
pub const CAM_WIDTH: usize = 1024;

/// Height of the detector plane in pixels.
pub const CAM_HEIGHT: usize = 256;

/// Which acquisition program the server runs.
pub enum RunningMode {
    DebugStem7482,
    Tp3,
}

/// The raw configuration record sent by the client: one byte per option.
pub struct Config {
    pub data: [u8; 16],
}

impl Config {
    /// Whether every option byte holds an accepted value.
    pub open spec fn valid(&self) -> bool {
        &&& self.data@[0] <= 1
        &&& self.data@[1] <= 2
        &&& self.data@[2] <= 1
        &&& self.data@[3] <= 1
    }

    /// Tells whether the record can be read; the other getters may only be used if it can.
    pub fn is_valid(&self) -> (r: bool)
        ensures
            r == self.valid(),
    {
        self.data[0] <= 1 && self.data[1] <= 2 && self.data[2] <= 1 && self.data[3] <= 1
    }

    /// Collapse the 2-D frame to one line.
    pub fn bin(&self) -> (r: bool)
        requires
            self.data@[0] <= 1,
        ensures
            r == (self.data@[0] == 1),
    {
        self.data[0] == 1
    }

    /// Bytes per histogram bin: 1, 2 or 4.
    pub fn bytedepth(&self) -> (r: usize)
        requires
            self.data@[1] <= 2,
        ensures
            self.data@[1] == 0 ==> r == 1,
            self.data@[1] == 1 ==> r == 2,
            self.data@[1] == 2 ==> r == 4,
    {
        match self.data[1] {
            0 => 1,
            1 => 2,
            _ => 4,
        }
    }

    /// Keep accumulating across frames instead of starting each frame from zero.
    pub fn cumul(&self) -> (r: bool)
        requires
            self.data@[2] <= 1,
        ensures
            r == (self.data@[2] == 1),
    {
        self.data[2] == 1
    }

    /// Build a spectral image instead of a histogram.
    pub fn is_spim(&self) -> (r: bool)
        requires
            self.data@[3] <= 1,
        ensures
            r == (self.data@[3] == 1),
    {
        self.data[3] == 1
    }

    /// Number of scan columns, a big-endian 16-bit field.
    pub fn xspim_size(&self) -> (r: usize)
        ensures
            r == self.data@[4] as int * 256 + self.data@[5] as int,
    {
        (self.data[4] as usize) * 256 + (self.data[5] as usize)
    }

    /// Number of scan rows, a big-endian 16-bit field.
    pub fn yspim_size(&self) -> (r: usize)
        ensures
            r == self.data@[6] as int * 256 + self.data@[7] as int,
    {
        (self.data[6] as usize) * 256 + (self.data[7] as usize)
    }
}

/// The settings that the accumulation stages read.
pub struct Settings {
    pub bin: bool,
    pub bytedepth: usize,
    pub cumul: bool,
    pub is_spim: bool,
    pub xspim_size: usize,
    pub yspim_size: usize,
    pub spimoverscany: usize,
    pub time_delay: Time,
    pub time_width: Time,
}

impl Settings {
    /// A bin is 1, 2 or 4 bytes wide.
    pub open spec fn depth_ok(&self) -> bool {
        self.bytedepth == 1 || self.bytedepth == 2 || self.bytedepth == 4
    }

    /// The scan sizes fit the 16 bits that the configuration record gives them, and the two
    /// that divide, the row count and the overscan, are not zero.
    pub open spec fn scan_ok(&self) -> bool {
        &&& self.xspim_size <= 65535
        &&& 0 < self.yspim_size <= 65535
        &&& 0 < self.spimoverscany
    }

    /// Number of lines in the histogram: one when binned, the full height otherwise.
    pub open spec fn lines(&self) -> int {
        if self.bin { 1 } else { CAM_HEIGHT as int }
    }

    /// Number of bytes of histogram payload for one frame.
    pub open spec fn frame_bytes(&self) -> int {
        self.lines() * self.bytedepth * CAM_WIDTH
    }
}

} // verus!
