//! The in-memory record types: a sample list is an ordered sequence of
//! samples, each carrying a dimension / chunk-coordinate key and one of
//! three per-mod data variants.

use vstd::prelude::*;

verus! {

/// Mathematical model of the Immersive-specific portion of a sample.
pub struct ImmersiveSampleDataV {
    pub mineral: Seq<char>,
    pub liquid: Seq<char>,
    pub timestamp: u64,
}

/// Mathematical model of the per-mod data of a sample.
pub enum SampleDataV {
    Immersive(ImmersiveSampleDataV),
    TerraFirmaCraft(Seq<char>),
    Geolosys(Seq<char>),
}

/// Mathematical model of a sample.
pub struct SampleV {
    pub dimension: i32,
    pub x: i32,
    pub z: i32,
    pub data: SampleDataV,
}

/// Immersive-specific sample data.
#[derive(Debug, Hash, Eq, Ord, PartialEq, PartialOrd)]
pub struct ImmersiveSampleData {
    /// The name of the mineral.
    pub mineral: String,

    /// The name of the liquid deposit.
    pub liquid: String,

    /// The time when the sample was taken.
    pub timestamp: u64,
}

/// Per-mod data about a sample.
#[derive(Debug, Hash, Eq, Ord, PartialEq, PartialOrd)]
pub enum SampleData {
    /// Data for an Immersive sample.
    Immersive(ImmersiveSampleData),

    /// The ore name for a TerraFirmaCraft sample.
    TerraFirmaCraft(String),

    /// The ore name for a Geolosys sample.
    Geolosys(String),
}

/// A single sample.
#[derive(Debug, Hash, Eq, Ord, PartialEq, PartialOrd)]
pub struct Sample {
    /// The dimension ID containing the deposit.
    pub dimension: i32,

    /// The chunk X coordinate.
    pub x: i32,

    /// The chunk Z coordinate.
    pub z: i32,

    /// The per-mod data about the sample.
    pub data: SampleData,
}

impl View for ImmersiveSampleData {
    type V = ImmersiveSampleDataV;

    open spec fn view(&self) -> ImmersiveSampleDataV {
        ImmersiveSampleDataV {
            mineral: self.mineral@,
            liquid: self.liquid@,
            timestamp: self.timestamp,
        }
    }
}

impl DeepView for ImmersiveSampleData {
    type V = ImmersiveSampleDataV;

    open spec fn deep_view(&self) -> ImmersiveSampleDataV {
        self.view()
    }
}

impl View for SampleData {
    type V = SampleDataV;

    open spec fn view(&self) -> SampleDataV {
        match self {
            SampleData::Immersive(d) => SampleDataV::Immersive(d.view()),
            SampleData::TerraFirmaCraft(ore) => SampleDataV::TerraFirmaCraft(ore.view()),
            SampleData::Geolosys(ore) => SampleDataV::Geolosys(ore.view()),
        }
    }
}

impl DeepView for SampleData {
    type V = SampleDataV;

    open spec fn deep_view(&self) -> SampleDataV {
        self.view()
    }
}

impl View for Sample {
    type V = SampleV;

    open spec fn view(&self) -> SampleV {
        SampleV { dimension: self.dimension, x: self.x, z: self.z, data: self.data.view() }
    }
}

impl DeepView for Sample {
    type V = SampleV;

    open spec fn deep_view(&self) -> SampleV {
        self.view()
    }
}

impl Clone for ImmersiveSampleData {
    /// Clones the data; the copy models the same value.
    fn clone(&self) -> (res: Self)
        ensures
            res@ == self@,
    {
        ImmersiveSampleData {
            mineral: self.mineral.clone(),
            liquid: self.liquid.clone(),
            timestamp: self.timestamp,
        }
    }
}

impl Clone for SampleData {
    /// Clones the data; the copy models the same value.
    fn clone(&self) -> (res: Self)
        ensures
            res@ == self@,
    {
        match self {
            SampleData::Immersive(d) => SampleData::Immersive(d.clone()),
            SampleData::TerraFirmaCraft(ore) => SampleData::TerraFirmaCraft(ore.clone()),
            SampleData::Geolosys(ore) => SampleData::Geolosys(ore.clone()),
        }
    }
}

impl Clone for Sample {
    /// Clones the sample; the copy models the same value.
    fn clone(&self) -> (res: Self)
        ensures
            res@ == self@,
    {
        Sample { dimension: self.dimension, x: self.x, z: self.z, data: self.data.clone() }
    }
}

} // verus!
