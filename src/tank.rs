use vstd::prelude::*;

verus! {

/// Inner dimensions of a box-shaped tank, in millimeters.
pub struct LinearDimensions {
    pub height: u32,
    pub length: u32,
    pub width: u32,
}

impl LinearDimensions {
    /// The volume in microliters (cubic millimeters).
    pub fn volume(&self) -> (r: u128)
        ensures
            r == self.height * self.length * self.width,
    {
        let h: u128 = self.height as u128;
        let l: u128 = self.length as u128;
        assert(h * l <= u32::MAX * u32::MAX) by (nonlinear_arith)
            requires
                h <= u32::MAX,
                l <= u32::MAX,
        {
        }
        let hl: u128 = h * l;
        assert(hl * self.width <= u32::MAX * u32::MAX * u32::MAX) by (nonlinear_arith)
            requires
                hl == self.height * self.length,
                self.height <= u32::MAX,
                self.length <= u32::MAX,
                self.width <= u32::MAX,
        {
        }
        hl * self.width as u128
    }
}

/// How a tank's volume is given.
pub enum TankVolume {
    /// A literal volume in milliliters.
    Volume(u64),
    /// Box dimensions.
    Linear(LinearDimensions),
}

/// A tank: its volume and whether the volume is used without the usable-water correction.
pub struct Tank {
    pub volume: TankVolume,
    pub absolute: bool,
}

/// Share of the nominal volume that holds water, in percent, unless the tank is absolute.
pub const REAL_VOLUME_PERCENT: u128 = 85;

impl Tank {
    /// The nominal volume in microliters.
    pub open spec fn microliters(&self) -> int {
        match self.volume {
            TankVolume::Volume(ml) => ml * 1000,
            TankVolume::Linear(d) => d.height * d.length * d.width,
        }
    }

    /// The usable volume in whole liters: 85% of the nominal volume, or all of it when absolute, rounded down.
    pub open spec fn spec_effective_volume(&self) -> int {
        let pct: int = if self.absolute { 100 } else { REAL_VOLUME_PERCENT as int };
        self.microliters() * pct / 100_000_000
    }

    /// The nominal volume in whole liters, rounded down.
    pub open spec fn spec_metric_volume(&self) -> int {
        self.microliters() / 1_000_000
    }

    /// A tank of `milliliters` nominal volume.
    pub fn new_volume(milliliters: u64, absolute: bool) -> (r: Tank)
        ensures
            r.microliters() == milliliters * 1000,
            r.absolute == absolute,
    {
        Tank { volume: TankVolume::Volume(milliliters), absolute }
    }

    /// A box-shaped tank with these inner dimensions in millimeters.
    pub fn new_linear(height: u32, length: u32, width: u32, absolute: bool) -> (r: Tank)
        ensures
            r.microliters() == height * length * width,
            r.absolute == absolute,
    {
        Tank { volume: TankVolume::Linear(LinearDimensions { height, length, width }), absolute }
    }

    fn microliters_exec(&self) -> (r: u128)
        ensures
            r == self.microliters(),
            r <= u32::MAX * u32::MAX * u32::MAX,
    {
        match &self.volume {
            TankVolume::Volume(ml) => *ml as u128 * 1000,
            TankVolume::Linear(d) => {
                proof {
                    assert(d.height * d.length * d.width <= u32::MAX * u32::MAX * u32::MAX) by (nonlinear_arith)
                        requires
                            d.height <= u32::MAX,
                            d.length <= u32::MAX,
                            d.width <= u32::MAX,
                    {
                    }
                }
                d.volume()
            },
        }
    }

    /// The usable volume in liters.
    pub fn effective_volume(&self) -> (r: u128)
        ensures
            r == self.spec_effective_volume(),
    {
        let pct: u128 = if self.absolute { 100 } else { REAL_VOLUME_PERCENT };
        let v = self.microliters_exec();
        assert(v * pct <= u32::MAX * u32::MAX * u32::MAX * 100) by (nonlinear_arith)
            requires
                v <= u32::MAX * u32::MAX * u32::MAX,
                pct <= 100,
        {
        }
        v * pct / 100_000_000
    }

    /// The nominal volume in liters.
    pub fn metric_volume(&self) -> (r: u128)
        ensures
            r == self.spec_metric_volume(),
    {
        self.microliters_exec() / 1_000_000
    }
}

} // verus!
