//! The virtual address map.
use vstd::prelude::*;

verus! {

/// Base address of the window backed by DRAM.
pub const DRAM_BASE: u32 = 0x8000_0000;

/// A named window of the address space.
#[derive(Debug, Clone, Copy, PartialEq, Eq)]
pub struct MemRegion {
    pub base: u32,
    pub size: u32,
}

/// The regions of the address map.
#[derive(Debug, Clone, Copy, PartialEq, Eq)]
pub enum RegionName {
    LowMem,
    Pm,
    FwCfg,
    Rtc,
    PciePio,
    PcieEcam,
    BiosRom,
    Uart,
    Liointc,
    PcieMmio,
    HighMem,
}

/// The fixed address map. Only `HighMem`, the DRAM window, is backed; its
/// declared size is zero because the actual size is that of the DRAM store.
#[non_exhaustive]
pub struct MemMap;

impl MemMap {
    pub open spec fn region_spec(name: RegionName) -> MemRegion {
        match name {
            RegionName::LowMem => MemRegion { base: 0x0000_0000, size: 0x1000_0000 },
            RegionName::Pm => MemRegion { base: 0x1008_0000, size: 0x0000_0100 },
            RegionName::FwCfg => MemRegion { base: 0x1008_0100, size: 0x0000_0100 },
            RegionName::Rtc => MemRegion { base: 0x1008_1000, size: 0x0000_1000 },
            RegionName::PciePio => MemRegion { base: 0x1800_0000, size: 0x0008_0000 },
            RegionName::PcieEcam => MemRegion { base: 0x1a00_0000, size: 0x0200_0000 },
            RegionName::BiosRom => MemRegion { base: 0x1fc0_0000, size: 0x0020_0000 },
            RegionName::Uart => MemRegion { base: 0x1fe0_01e0, size: 0x0000_0008 },
            RegionName::Liointc => MemRegion { base: 0x3ff0_1400, size: 0x0000_0064 },
            RegionName::PcieMmio => MemRegion { base: 0x4000_0000, size: 0x4000_0000 },
            RegionName::HighMem => MemRegion { base: DRAM_BASE, size: 0x0000_0000 },
        }
    }

    /// The base and declared size of a region.
    pub fn region(name: RegionName) -> (r: MemRegion)
        ensures
            r == Self::region_spec(name),
    {
        match name {
            RegionName::LowMem => MemRegion { base: 0x0000_0000, size: 0x1000_0000 },
            RegionName::Pm => MemRegion { base: 0x1008_0000, size: 0x0000_0100 },
            RegionName::FwCfg => MemRegion { base: 0x1008_0100, size: 0x0000_0100 },
            RegionName::Rtc => MemRegion { base: 0x1008_1000, size: 0x0000_1000 },
            RegionName::PciePio => MemRegion { base: 0x1800_0000, size: 0x0008_0000 },
            RegionName::PcieEcam => MemRegion { base: 0x1a00_0000, size: 0x0200_0000 },
            RegionName::BiosRom => MemRegion { base: 0x1fc0_0000, size: 0x0020_0000 },
            RegionName::Uart => MemRegion { base: 0x1fe0_01e0, size: 0x0000_0008 },
            RegionName::Liointc => MemRegion { base: 0x3ff0_1400, size: 0x0000_0064 },
            RegionName::PcieMmio => MemRegion { base: 0x4000_0000, size: 0x4000_0000 },
            RegionName::HighMem => MemRegion { base: DRAM_BASE, size: 0x0000_0000 },
        }
    }
}

} // verus!
