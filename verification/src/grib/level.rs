//! The canonical vocabulary of GRIB vertical levels, normalized across decoders and editions.

use crate::ieee::{finite, is_finite};
use crate::text::{chars_of, decimal, owned, push_decimal, same_text, text_of};
use vstd::prelude::*;

verus! {

/// Code Table 4.5 surface type 255 means "missing": the field carries no vertical level.
pub const MISSING_SURFACE: u8 = 255u8;

/// A canonical GRIB vertical level type, normalized across both decoders and both editions.
///
/// `snake_case` because `level_type` is read bare in a template (`level_type ==
/// "height_above_ground"`). GRIB2 Code Table 4.5 surface types and ecCodes' `typeOfLevel` strings
/// both map onto this shared set.
#[derive(Debug, Clone, Copy, PartialEq, Eq, Structural)]
pub enum LevelType {
    /// Ground or water surface.
    Surface,
    /// Mean sea level.
    MeanSeaLevel,
    /// A specified height above the ground (m).
    HeightAboveGround,
    /// A specified altitude above mean sea level (m).
    AltitudeAboveMeanSea,
    /// An isobaric (constant-pressure) surface; canonical unit hPa.
    Isobaric,
    /// A depth below the land surface (m).
    DepthBelowLand,
    /// A sigma (terrain-following) level.
    Sigma,
    /// A model hybrid level.
    Hybrid,
    /// The tropopause.
    Tropopause,
    /// The level of maximum wind.
    MaxWind,
    /// The cloud base level.
    CloudBase,
    /// The cloud top level.
    CloudTop,
    /// The 0 degree Celsius isotherm.
    IsothermZero,
    /// The entire atmosphere considered as a single layer.
    EntireAtmosphere,
    /// The nominal top of the atmosphere.
    TopOfAtmosphere,
    /// A potential vorticity surface.
    PotentialVorticity,
}

/// The canonical `snake_case` token of a level type.
pub open spec fn level_token(level_type: LevelType) -> Seq<char> {
    match level_type {
        LevelType::Surface => "surface"@,
        LevelType::MeanSeaLevel => "mean_sea_level"@,
        LevelType::HeightAboveGround => "height_above_ground"@,
        LevelType::AltitudeAboveMeanSea => "altitude_above_mean_sea"@,
        LevelType::Isobaric => "isobaric"@,
        LevelType::DepthBelowLand => "depth_below_land"@,
        LevelType::Sigma => "sigma"@,
        LevelType::Hybrid => "hybrid"@,
        LevelType::Tropopause => "tropopause"@,
        LevelType::MaxWind => "max_wind"@,
        LevelType::CloudBase => "cloud_base"@,
        LevelType::CloudTop => "cloud_top"@,
        LevelType::IsothermZero => "isotherm_zero"@,
        LevelType::EntireAtmosphere => "entire_atmosphere"@,
        LevelType::TopOfAtmosphere => "top_of_atmosphere"@,
        LevelType::PotentialVorticity => "potential_vorticity"@,
    }
}

/// The level type a GRIB2 Code Table 4.5 surface type names, or none outside the curated set.
pub open spec fn grib2_level_type(surface_type: u8) -> Option<LevelType> {
    if surface_type == 1 {
        Some(LevelType::Surface)
    } else if surface_type == 2 {
        Some(LevelType::CloudBase)
    } else if surface_type == 3 {
        Some(LevelType::CloudTop)
    } else if surface_type == 4 {
        Some(LevelType::IsothermZero)
    } else if surface_type == 6 {
        Some(LevelType::MaxWind)
    } else if surface_type == 7 {
        Some(LevelType::Tropopause)
    } else if surface_type == 8 {
        Some(LevelType::TopOfAtmosphere)
    } else if surface_type == 10 {
        Some(LevelType::EntireAtmosphere)
    } else if surface_type == 100 {
        Some(LevelType::Isobaric)
    } else if surface_type == 101 {
        Some(LevelType::MeanSeaLevel)
    } else if surface_type == 102 {
        Some(LevelType::AltitudeAboveMeanSea)
    } else if surface_type == 103 {
        Some(LevelType::HeightAboveGround)
    } else if surface_type == 104 {
        Some(LevelType::Sigma)
    } else if surface_type == 105 {
        Some(LevelType::Hybrid)
    } else if surface_type == 106 {
        Some(LevelType::DepthBelowLand)
    } else if surface_type == 109 {
        Some(LevelType::PotentialVorticity)
    } else {
        None
    }
}

/// The level type an ecCodes `typeOfLevel` token names, or none outside the curated set.
pub open spec fn eccodes_level_type(token: Seq<char>) -> Option<LevelType> {
    if token == "surface"@ {
        Some(LevelType::Surface)
    } else if token == "cloudBase"@ {
        Some(LevelType::CloudBase)
    } else if token == "cloudTop"@ {
        Some(LevelType::CloudTop)
    } else if token == "isothermZero"@ {
        Some(LevelType::IsothermZero)
    } else if token == "maxWind"@ {
        Some(LevelType::MaxWind)
    } else if token == "tropopause"@ {
        Some(LevelType::Tropopause)
    } else if token == "nominalTop"@ {
        Some(LevelType::TopOfAtmosphere)
    } else if token == "entireAtmosphere"@ || token == "atmosphere"@ || token == "atmosphereSingleLayer"@ {
        Some(LevelType::EntireAtmosphere)
    } else if token == "isobaricInhPa"@ || token == "isobaricInPa"@ {
        Some(LevelType::Isobaric)
    } else if token == "meanSea"@ {
        Some(LevelType::MeanSeaLevel)
    } else if token == "heightAboveSea"@ {
        Some(LevelType::AltitudeAboveMeanSea)
    } else if token == "heightAboveGround"@ || token == "heightAboveGroundLayer"@ {
        Some(LevelType::HeightAboveGround)
    } else if token == "sigma"@ || token == "sigmaLayer"@ {
        Some(LevelType::Sigma)
    } else if token == "hybrid"@ || token == "hybridLayer"@ {
        Some(LevelType::Hybrid)
    } else if token == "depthBelowLand"@ || token == "depthBelowLandLayer"@ {
        Some(LevelType::DepthBelowLand)
    } else if token == "potentialVorticity"@ {
        Some(LevelType::PotentialVorticity)
    } else {
        None
    }
}

/// Whether a level type carries a meaningful numeric level value.
pub open spec fn level_has_value(level_type: LevelType) -> bool {
    match level_type {
        LevelType::HeightAboveGround
        | LevelType::AltitudeAboveMeanSea
        | LevelType::Isobaric
        | LevelType::DepthBelowLand
        | LevelType::Sigma
        | LevelType::Hybrid
        | LevelType::PotentialVorticity => true,
        _ => false,
    }
}

impl LevelType {
    /// Recognizes a level type from a GRIB2 Code Table 4.5 surface type. Returns `None` for a
    /// surface type outside the curated set (including 255, "missing").
    pub fn from_grib2(surface_type: u8) -> (level_type: Option<LevelType>)
        ensures
            level_type == grib2_level_type(surface_type),
    {
        match surface_type {
            1 => Some(LevelType::Surface),
            2 => Some(LevelType::CloudBase),
            3 => Some(LevelType::CloudTop),
            4 => Some(LevelType::IsothermZero),
            6 => Some(LevelType::MaxWind),
            7 => Some(LevelType::Tropopause),
            8 => Some(LevelType::TopOfAtmosphere),
            10 => Some(LevelType::EntireAtmosphere),
            100 => Some(LevelType::Isobaric),
            101 => Some(LevelType::MeanSeaLevel),
            102 => Some(LevelType::AltitudeAboveMeanSea),
            103 => Some(LevelType::HeightAboveGround),
            104 => Some(LevelType::Sigma),
            105 => Some(LevelType::Hybrid),
            106 => Some(LevelType::DepthBelowLand),
            109 => Some(LevelType::PotentialVorticity),
            _ => None,
        }
    }

    /// Recognizes a level type from an ecCodes `typeOfLevel` string (both editions). Returns `None`
    /// for a token outside the curated set.
    pub fn from_eccodes(type_of_level: &str) -> (level_type: Option<LevelType>)
        ensures
            level_type == eccodes_level_type(type_of_level@),
    {
        if same_text(type_of_level, "surface") {
            Some(LevelType::Surface)
        } else if same_text(type_of_level, "cloudBase") {
            Some(LevelType::CloudBase)
        } else if same_text(type_of_level, "cloudTop") {
            Some(LevelType::CloudTop)
        } else if same_text(type_of_level, "isothermZero") {
            Some(LevelType::IsothermZero)
        } else if same_text(type_of_level, "maxWind") {
            Some(LevelType::MaxWind)
        } else if same_text(type_of_level, "tropopause") {
            Some(LevelType::Tropopause)
        } else if same_text(type_of_level, "nominalTop") {
            Some(LevelType::TopOfAtmosphere)
        } else if same_text(type_of_level, "entireAtmosphere") || same_text(type_of_level, "atmosphere") || same_text(type_of_level, "atmosphereSingleLayer") {
            Some(LevelType::EntireAtmosphere)
        } else if same_text(type_of_level, "isobaricInhPa") || same_text(type_of_level, "isobaricInPa") {
            Some(LevelType::Isobaric)
        } else if same_text(type_of_level, "meanSea") {
            Some(LevelType::MeanSeaLevel)
        } else if same_text(type_of_level, "heightAboveSea") {
            Some(LevelType::AltitudeAboveMeanSea)
        } else if same_text(type_of_level, "heightAboveGround") || same_text(type_of_level, "heightAboveGroundLayer") {
            Some(LevelType::HeightAboveGround)
        } else if same_text(type_of_level, "sigma") || same_text(type_of_level, "sigmaLayer") {
            Some(LevelType::Sigma)
        } else if same_text(type_of_level, "hybrid") || same_text(type_of_level, "hybridLayer") {
            Some(LevelType::Hybrid)
        } else if same_text(type_of_level, "depthBelowLand") || same_text(type_of_level, "depthBelowLandLayer") {
            Some(LevelType::DepthBelowLand)
        } else if same_text(type_of_level, "potentialVorticity") {
            Some(LevelType::PotentialVorticity)
        } else {
            None
        }
    }

    /// Whether this level type carries a meaningful numeric level value. Surface-like types
    /// (surface, mean sea level, tropopause, cloud base/top, ...) name a single position with no
    /// scalar, so the record omits the numeric `level` for them and keeps only `level_type`.
    pub fn has_value(self) -> (has: bool)
        ensures
            has == level_has_value(self),
    {
        match self {
            LevelType::HeightAboveGround
            | LevelType::AltitudeAboveMeanSea
            | LevelType::Isobaric
            | LevelType::DepthBelowLand
            | LevelType::Sigma
            | LevelType::Hybrid
            | LevelType::PotentialVorticity => true,
            _ => false,
        }
    }

    /// The canonical `snake_case` token for this level type.
    pub fn key(self) -> (key: &'static str)
        ensures
            key@ == level_token(self),
    {
        match self {
            LevelType::Surface => "surface",
            LevelType::MeanSeaLevel => "mean_sea_level",
            LevelType::HeightAboveGround => "height_above_ground",
            LevelType::AltitudeAboveMeanSea => "altitude_above_mean_sea",
            LevelType::Isobaric => "isobaric",
            LevelType::DepthBelowLand => "depth_below_land",
            LevelType::Sigma => "sigma",
            LevelType::Hybrid => "hybrid",
            LevelType::Tropopause => "tropopause",
            LevelType::MaxWind => "max_wind",
            LevelType::CloudBase => "cloud_base",
            LevelType::CloudTop => "cloud_top",
            LevelType::IsothermZero => "isotherm_zero",
            LevelType::EntireAtmosphere => "entire_atmosphere",
            LevelType::TopOfAtmosphere => "top_of_atmosphere",
            LevelType::PotentialVorticity => "potential_vorticity",
        }
    }
}
/// GRIB2 surface types and ecCodes `typeOfLevel` tokens map onto the same set of level types:
/// each canonical level is reached from both, so a level reads the same whichever decoder read it.
pub proof fn lemma_level_sources_agree(level_type: LevelType)
    ensures
        exists|surface_type: u8| #[trigger] grib2_level_type(surface_type) == Some(level_type),
        exists|token: Seq<char>| #[trigger] eccodes_level_type(token) == Some(level_type),
{
    reveal_strlit("surface");
    reveal_strlit("cloudBase");
    reveal_strlit("cloudTop");
    reveal_strlit("isothermZero");
    reveal_strlit("maxWind");
    reveal_strlit("tropopause");
    reveal_strlit("nominalTop");
    reveal_strlit("entireAtmosphere");
    reveal_strlit("atmosphere");
    reveal_strlit("atmosphereSingleLayer");
    reveal_strlit("isobaricInhPa");
    reveal_strlit("isobaricInPa");
    reveal_strlit("meanSea");
    reveal_strlit("heightAboveSea");
    reveal_strlit("heightAboveGround");
    reveal_strlit("heightAboveGroundLayer");
    reveal_strlit("sigma");
    reveal_strlit("sigmaLayer");
    reveal_strlit("hybrid");
    reveal_strlit("hybridLayer");
    reveal_strlit("depthBelowLand");
    reveal_strlit("depthBelowLandLayer");
    reveal_strlit("potentialVorticity");
    match level_type {
        LevelType::Surface => {
            assert(grib2_level_type(1) == Some(LevelType::Surface));
            assert(eccodes_level_type("surface"@) == Some(LevelType::Surface));
        },
        LevelType::CloudBase => {
            assert(grib2_level_type(2) == Some(LevelType::CloudBase));
            assert("cloudBase"@.len() != "surface"@.len());
            assert("cloudBase"@ != "surface"@);
            assert(eccodes_level_type("cloudBase"@) == Some(LevelType::CloudBase));
        },
        LevelType::CloudTop => {
            assert(grib2_level_type(3) == Some(LevelType::CloudTop));
            assert("cloudTop"@.len() != "surface"@.len());
            assert("cloudTop"@ != "surface"@);
            assert("cloudTop"@.len() != "cloudBase"@.len());
            assert("cloudTop"@ != "cloudBase"@);
            assert(eccodes_level_type("cloudTop"@) == Some(LevelType::CloudTop));
        },
        LevelType::IsothermZero => {
            assert(grib2_level_type(4) == Some(LevelType::IsothermZero));
            assert("isothermZero"@.len() != "surface"@.len());
            assert("isothermZero"@ != "surface"@);
            assert("isothermZero"@.len() != "cloudBase"@.len());
            assert("isothermZero"@ != "cloudBase"@);
            assert("isothermZero"@.len() != "cloudTop"@.len());
            assert("isothermZero"@ != "cloudTop"@);
            assert(eccodes_level_type("isothermZero"@) == Some(LevelType::IsothermZero));
        },
        LevelType::MaxWind => {
            assert(grib2_level_type(6) == Some(LevelType::MaxWind));
            assert("maxWind"@[0] != "surface"@[0]);
            assert("maxWind"@ != "surface"@);
            assert("maxWind"@.len() != "cloudBase"@.len());
            assert("maxWind"@ != "cloudBase"@);
            assert("maxWind"@.len() != "cloudTop"@.len());
            assert("maxWind"@ != "cloudTop"@);
            assert("maxWind"@.len() != "isothermZero"@.len());
            assert("maxWind"@ != "isothermZero"@);
            assert(eccodes_level_type("maxWind"@) == Some(LevelType::MaxWind));
        },
        LevelType::Tropopause => {
            assert(grib2_level_type(7) == Some(LevelType::Tropopause));
            assert("tropopause"@.len() != "surface"@.len());
            assert("tropopause"@ != "surface"@);
            assert("tropopause"@.len() != "cloudBase"@.len());
            assert("tropopause"@ != "cloudBase"@);
            assert("tropopause"@.len() != "cloudTop"@.len());
            assert("tropopause"@ != "cloudTop"@);
            assert("tropopause"@.len() != "isothermZero"@.len());
            assert("tropopause"@ != "isothermZero"@);
            assert("tropopause"@.len() != "maxWind"@.len());
            assert("tropopause"@ != "maxWind"@);
            assert(eccodes_level_type("tropopause"@) == Some(LevelType::Tropopause));
        },
        LevelType::TopOfAtmosphere => {
            assert(grib2_level_type(8) == Some(LevelType::TopOfAtmosphere));
            assert("nominalTop"@.len() != "surface"@.len());
            assert("nominalTop"@ != "surface"@);
            assert("nominalTop"@.len() != "cloudBase"@.len());
            assert("nominalTop"@ != "cloudBase"@);
            assert("nominalTop"@.len() != "cloudTop"@.len());
            assert("nominalTop"@ != "cloudTop"@);
            assert("nominalTop"@.len() != "isothermZero"@.len());
            assert("nominalTop"@ != "isothermZero"@);
            assert("nominalTop"@.len() != "maxWind"@.len());
            assert("nominalTop"@ != "maxWind"@);
            assert("nominalTop"@[0] != "tropopause"@[0]);
            assert("nominalTop"@ != "tropopause"@);
            assert(eccodes_level_type("nominalTop"@) == Some(LevelType::TopOfAtmosphere));
        },
        LevelType::EntireAtmosphere => {
            assert(grib2_level_type(10) == Some(LevelType::EntireAtmosphere));
            assert("entireAtmosphere"@.len() != "surface"@.len());
            assert("entireAtmosphere"@ != "surface"@);
            assert("entireAtmosphere"@.len() != "cloudBase"@.len());
            assert("entireAtmosphere"@ != "cloudBase"@);
            assert("entireAtmosphere"@.len() != "cloudTop"@.len());
            assert("entireAtmosphere"@ != "cloudTop"@);
            assert("entireAtmosphere"@.len() != "isothermZero"@.len());
            assert("entireAtmosphere"@ != "isothermZero"@);
            assert("entireAtmosphere"@.len() != "maxWind"@.len());
            assert("entireAtmosphere"@ != "maxWind"@);
            assert("entireAtmosphere"@.len() != "tropopause"@.len());
            assert("entireAtmosphere"@ != "tropopause"@);
            assert("entireAtmosphere"@.len() != "nominalTop"@.len());
            assert("entireAtmosphere"@ != "nominalTop"@);
            assert(eccodes_level_type("entireAtmosphere"@) == Some(LevelType::EntireAtmosphere));
        },
        LevelType::Isobaric => {
            assert(grib2_level_type(100) == Some(LevelType::Isobaric));
            assert("isobaricInhPa"@.len() != "surface"@.len());
            assert("isobaricInhPa"@ != "surface"@);
            assert("isobaricInhPa"@.len() != "cloudBase"@.len());
            assert("isobaricInhPa"@ != "cloudBase"@);
            assert("isobaricInhPa"@.len() != "cloudTop"@.len());
            assert("isobaricInhPa"@ != "cloudTop"@);
            assert("isobaricInhPa"@.len() != "isothermZero"@.len());
            assert("isobaricInhPa"@ != "isothermZero"@);
            assert("isobaricInhPa"@.len() != "maxWind"@.len());
            assert("isobaricInhPa"@ != "maxWind"@);
            assert("isobaricInhPa"@.len() != "tropopause"@.len());
            assert("isobaricInhPa"@ != "tropopause"@);
            assert("isobaricInhPa"@.len() != "nominalTop"@.len());
            assert("isobaricInhPa"@ != "nominalTop"@);
            assert("isobaricInhPa"@.len() != "entireAtmosphere"@.len());
            assert("isobaricInhPa"@ != "entireAtmosphere"@);
            assert("isobaricInhPa"@.len() != "atmosphere"@.len());
            assert("isobaricInhPa"@ != "atmosphere"@);
            assert("isobaricInhPa"@.len() != "atmosphereSingleLayer"@.len());
            assert("isobaricInhPa"@ != "atmosphereSingleLayer"@);
            assert(eccodes_level_type("isobaricInhPa"@) == Some(LevelType::Isobaric));
        },
        LevelType::MeanSeaLevel => {
            assert(grib2_level_type(101) == Some(LevelType::MeanSeaLevel));
            assert("meanSea"@[0] != "surface"@[0]);
            assert("meanSea"@ != "surface"@);
            assert("meanSea"@.len() != "cloudBase"@.len());
            assert("meanSea"@ != "cloudBase"@);
            assert("meanSea"@.len() != "cloudTop"@.len());
            assert("meanSea"@ != "cloudTop"@);
            assert("meanSea"@.len() != "isothermZero"@.len());
            assert("meanSea"@ != "isothermZero"@);
            assert("meanSea"@[1] != "maxWind"@[1]);
            assert("meanSea"@ != "maxWind"@);
            assert("meanSea"@.len() != "tropopause"@.len());
            assert("meanSea"@ != "tropopause"@);
            assert("meanSea"@.len() != "nominalTop"@.len());
            assert("meanSea"@ != "nominalTop"@);
            assert("meanSea"@.len() != "entireAtmosphere"@.len());
            assert("meanSea"@ != "entireAtmosphere"@);
            assert("meanSea"@.len() != "atmosphere"@.len());
            assert("meanSea"@ != "atmosphere"@);
            assert("meanSea"@.len() != "atmosphereSingleLayer"@.len());
            assert("meanSea"@ != "atmosphereSingleLayer"@);
            assert("meanSea"@.len() != "isobaricInhPa"@.len());
            assert("meanSea"@ != "isobaricInhPa"@);
            assert("meanSea"@.len() != "isobaricInPa"@.len());
            assert("meanSea"@ != "isobaricInPa"@);
            assert(eccodes_level_type("meanSea"@) == Some(LevelType::MeanSeaLevel));
        },
        LevelType::AltitudeAboveMeanSea => {
            assert(grib2_level_type(102) == Some(LevelType::AltitudeAboveMeanSea));
            assert("heightAboveSea"@.len() != "surface"@.len());
            assert("heightAboveSea"@ != "surface"@);
            assert("heightAboveSea"@.len() != "cloudBase"@.len());
            assert("heightAboveSea"@ != "cloudBase"@);
            assert("heightAboveSea"@.len() != "cloudTop"@.len());
            assert("heightAboveSea"@ != "cloudTop"@);
            assert("heightAboveSea"@.len() != "isothermZero"@.len());
            assert("heightAboveSea"@ != "isothermZero"@);
            assert("heightAboveSea"@.len() != "maxWind"@.len());
            assert("heightAboveSea"@ != "maxWind"@);
            assert("heightAboveSea"@.len() != "tropopause"@.len());
            assert("heightAboveSea"@ != "tropopause"@);
            assert("heightAboveSea"@.len() != "nominalTop"@.len());
            assert("heightAboveSea"@ != "nominalTop"@);
            assert("heightAboveSea"@.len() != "entireAtmosphere"@.len());
            assert("heightAboveSea"@ != "entireAtmosphere"@);
            assert("heightAboveSea"@.len() != "atmosphere"@.len());
            assert("heightAboveSea"@ != "atmosphere"@);
            assert("heightAboveSea"@.len() != "atmosphereSingleLayer"@.len());
            assert("heightAboveSea"@ != "atmosphereSingleLayer"@);
            assert("heightAboveSea"@.len() != "isobaricInhPa"@.len());
            assert("heightAboveSea"@ != "isobaricInhPa"@);
            assert("heightAboveSea"@.len() != "isobaricInPa"@.len());
            assert("heightAboveSea"@ != "isobaricInPa"@);
            assert("heightAboveSea"@.len() != "meanSea"@.len());
            assert("heightAboveSea"@ != "meanSea"@);
            assert(eccodes_level_type("heightAboveSea"@) == Some(LevelType::AltitudeAboveMeanSea));
        },
        LevelType::HeightAboveGround => {
            assert(grib2_level_type(103) == Some(LevelType::HeightAboveGround));
            assert("heightAboveGround"@.len() != "surface"@.len());
            assert("heightAboveGround"@ != "surface"@);
            assert("heightAboveGround"@.len() != "cloudBase"@.len());
            assert("heightAboveGround"@ != "cloudBase"@);
            assert("heightAboveGround"@.len() != "cloudTop"@.len());
            assert("heightAboveGround"@ != "cloudTop"@);
            assert("heightAboveGround"@.len() != "isothermZero"@.len());
            assert("heightAboveGround"@ != "isothermZero"@);
            assert("heightAboveGround"@.len() != "maxWind"@.len());
            assert("heightAboveGround"@ != "maxWind"@);
            assert("heightAboveGround"@.len() != "tropopause"@.len());
            assert("heightAboveGround"@ != "tropopause"@);
            assert("heightAboveGround"@.len() != "nominalTop"@.len());
            assert("heightAboveGround"@ != "nominalTop"@);
            assert("heightAboveGround"@.len() != "entireAtmosphere"@.len());
            assert("heightAboveGround"@ != "entireAtmosphere"@);
            assert("heightAboveGround"@.len() != "atmosphere"@.len());
            assert("heightAboveGround"@ != "atmosphere"@);
            assert("heightAboveGround"@.len() != "atmosphereSingleLayer"@.len());
            assert("heightAboveGround"@ != "atmosphereSingleLayer"@);
            assert("heightAboveGround"@.len() != "isobaricInhPa"@.len());
            assert("heightAboveGround"@ != "isobaricInhPa"@);
            assert("heightAboveGround"@.len() != "isobaricInPa"@.len());
            assert("heightAboveGround"@ != "isobaricInPa"@);
            assert("heightAboveGround"@.len() != "meanSea"@.len());
            assert("heightAboveGround"@ != "meanSea"@);
            assert("heightAboveGround"@.len() != "heightAboveSea"@.len());
            assert("heightAboveGround"@ != "heightAboveSea"@);
            assert(eccodes_level_type("heightAboveGround"@) == Some(LevelType::HeightAboveGround));
        },
        LevelType::Sigma => {
            assert(grib2_level_type(104) == Some(LevelType::Sigma));
            assert("sigma"@.len() != "surface"@.len());
            assert("sigma"@ != "surface"@);
            assert("sigma"@.len() != "cloudBase"@.len());
            assert("sigma"@ != "cloudBase"@);
            assert("sigma"@.len() != "cloudTop"@.len());
            assert("sigma"@ != "cloudTop"@);
            assert("sigma"@.len() != "isothermZero"@.len());
            assert("sigma"@ != "isothermZero"@);
            assert("sigma"@.len() != "maxWind"@.len());
            assert("sigma"@ != "maxWind"@);
            assert("sigma"@.len() != "tropopause"@.len());
            assert("sigma"@ != "tropopause"@);
            assert("sigma"@.len() != "nominalTop"@.len());
            assert("sigma"@ != "nominalTop"@);
            assert("sigma"@.len() != "entireAtmosphere"@.len());
            assert("sigma"@ != "entireAtmosphere"@);
            assert("sigma"@.len() != "atmosphere"@.len());
            assert("sigma"@ != "atmosphere"@);
            assert("sigma"@.len() != "atmosphereSingleLayer"@.len());
            assert("sigma"@ != "atmosphereSingleLayer"@);
            assert("sigma"@.len() != "isobaricInhPa"@.len());
            assert("sigma"@ != "isobaricInhPa"@);
            assert("sigma"@.len() != "isobaricInPa"@.len());
            assert("sigma"@ != "isobaricInPa"@);
            assert("sigma"@.len() != "meanSea"@.len());
            assert("sigma"@ != "meanSea"@);
            assert("sigma"@.len() != "heightAboveSea"@.len());
            assert("sigma"@ != "heightAboveSea"@);
            assert("sigma"@.len() != "heightAboveGround"@.len());
            assert("sigma"@ != "heightAboveGround"@);
            assert("sigma"@.len() != "heightAboveGroundLayer"@.len());
            assert("sigma"@ != "heightAboveGroundLayer"@);
            assert(eccodes_level_type("sigma"@) == Some(LevelType::Sigma));
        },
        LevelType::Hybrid => {
            assert(grib2_level_type(105) == Some(LevelType::Hybrid));
            assert("hybrid"@.len() != "surface"@.len());
            assert("hybrid"@ != "surface"@);
            assert("hybrid"@.len() != "cloudBase"@.len());
            assert("hybrid"@ != "cloudBase"@);
            assert("hybrid"@.len() != "cloudTop"@.len());
            assert("hybrid"@ != "cloudTop"@);
            assert("hybrid"@.len() != "isothermZero"@.len());
            assert("hybrid"@ != "isothermZero"@);
            assert("hybrid"@.len() != "maxWind"@.len());
            assert("hybrid"@ != "maxWind"@);
            assert("hybrid"@.len() != "tropopause"@.len());
            assert("hybrid"@ != "tropopause"@);
            assert("hybrid"@.len() != "nominalTop"@.len());
            assert("hybrid"@ != "nominalTop"@);
            assert("hybrid"@.len() != "entireAtmosphere"@.len());
            assert("hybrid"@ != "entireAtmosphere"@);
            assert("hybrid"@.len() != "atmosphere"@.len());
            assert("hybrid"@ != "atmosphere"@);
            assert("hybrid"@.len() != "atmosphereSingleLayer"@.len());
            assert("hybrid"@ != "atmosphereSingleLayer"@);
            assert("hybrid"@.len() != "isobaricInhPa"@.len());
            assert("hybrid"@ != "isobaricInhPa"@);
            assert("hybrid"@.len() != "isobaricInPa"@.len());
            assert("hybrid"@ != "isobaricInPa"@);
            assert("hybrid"@.len() != "meanSea"@.len());
            assert("hybrid"@ != "meanSea"@);
            assert("hybrid"@.len() != "heightAboveSea"@.len());
            assert("hybrid"@ != "heightAboveSea"@);
            assert("hybrid"@.len() != "heightAboveGround"@.len());
            assert("hybrid"@ != "heightAboveGround"@);
            assert("hybrid"@.len() != "heightAboveGroundLayer"@.len());
            assert("hybrid"@ != "heightAboveGroundLayer"@);
            assert("hybrid"@.len() != "sigma"@.len());
            assert("hybrid"@ != "sigma"@);
            assert("hybrid"@.len() != "sigmaLayer"@.len());
            assert("hybrid"@ != "sigmaLayer"@);
            assert(eccodes_level_type("hybrid"@) == Some(LevelType::Hybrid));
        },
        LevelType::DepthBelowLand => {
            assert(grib2_level_type(106) == Some(LevelType::DepthBelowLand));
            assert("depthBelowLand"@.len() != "surface"@.len());
            assert("depthBelowLand"@ != "surface"@);
            assert("depthBelowLand"@.len() != "cloudBase"@.len());
            assert("depthBelowLand"@ != "cloudBase"@);
            assert("depthBelowLand"@.len() != "cloudTop"@.len());
            assert("depthBelowLand"@ != "cloudTop"@);
            assert("depthBelowLand"@.len() != "isothermZero"@.len());
            assert("depthBelowLand"@ != "isothermZero"@);
            assert("depthBelowLand"@.len() != "maxWind"@.len());
            assert("depthBelowLand"@ != "maxWind"@);
            assert("depthBelowLand"@.len() != "tropopause"@.len());
            assert("depthBelowLand"@ != "tropopause"@);
            assert("depthBelowLand"@.len() != "nominalTop"@.len());
            assert("depthBelowLand"@ != "nominalTop"@);
            assert("depthBelowLand"@.len() != "entireAtmosphere"@.len());
            assert("depthBelowLand"@ != "entireAtmosphere"@);
            assert("depthBelowLand"@.len() != "atmosphere"@.len());
            assert("depthBelowLand"@ != "atmosphere"@);
            assert("depthBelowLand"@.len() != "atmosphereSingleLayer"@.len());
            assert("depthBelowLand"@ != "atmosphereSingleLayer"@);
            assert("depthBelowLand"@.len() != "isobaricInhPa"@.len());
            assert("depthBelowLand"@ != "isobaricInhPa"@);
            assert("depthBelowLand"@.len() != "isobaricInPa"@.len());
            assert("depthBelowLand"@ != "isobaricInPa"@);
            assert("depthBelowLand"@.len() != "meanSea"@.len());
            assert("depthBelowLand"@ != "meanSea"@);
            assert("depthBelowLand"@[0] != "heightAboveSea"@[0]);
            assert("depthBelowLand"@ != "heightAboveSea"@);
            assert("depthBelowLand"@.len() != "heightAboveGround"@.len());
            assert("depthBelowLand"@ != "heightAboveGround"@);
            assert("depthBelowLand"@.len() != "heightAboveGroundLayer"@.len());
            assert("depthBelowLand"@ != "heightAboveGroundLayer"@);
            assert("depthBelowLand"@.len() != "sigma"@.len());
            assert("depthBelowLand"@ != "sigma"@);
            assert("depthBelowLand"@.len() != "sigmaLayer"@.len());
            assert("depthBelowLand"@ != "sigmaLayer"@);
            assert("depthBelowLand"@.len() != "hybrid"@.len());
            assert("depthBelowLand"@ != "hybrid"@);
            assert("depthBelowLand"@.len() != "hybridLayer"@.len());
            assert("depthBelowLand"@ != "hybridLayer"@);
            assert(eccodes_level_type("depthBelowLand"@) == Some(LevelType::DepthBelowLand));
        },
        LevelType::PotentialVorticity => {
            assert(grib2_level_type(109) == Some(LevelType::PotentialVorticity));
            assert("potentialVorticity"@.len() != "surface"@.len());
            assert("potentialVorticity"@ != "surface"@);
            assert("potentialVorticity"@.len() != "cloudBase"@.len());
            assert("potentialVorticity"@ != "cloudBase"@);
            assert("potentialVorticity"@.len() != "cloudTop"@.len());
            assert("potentialVorticity"@ != "cloudTop"@);
            assert("potentialVorticity"@.len() != "isothermZero"@.len());
            assert("potentialVorticity"@ != "isothermZero"@);
            assert("potentialVorticity"@.len() != "maxWind"@.len());
            assert("potentialVorticity"@ != "maxWind"@);
            assert("potentialVorticity"@.len() != "tropopause"@.len());
            assert("potentialVorticity"@ != "tropopause"@);
            assert("potentialVorticity"@.len() != "nominalTop"@.len());
            assert("potentialVorticity"@ != "nominalTop"@);
            assert("potentialVorticity"@.len() != "entireAtmosphere"@.len());
            assert("potentialVorticity"@ != "entireAtmosphere"@);
            assert("potentialVorticity"@.len() != "atmosphere"@.len());
            assert("potentialVorticity"@ != "atmosphere"@);
            assert("potentialVorticity"@.len() != "atmosphereSingleLayer"@.len());
            assert("potentialVorticity"@ != "atmosphereSingleLayer"@);
            assert("potentialVorticity"@.len() != "isobaricInhPa"@.len());
            assert("potentialVorticity"@ != "isobaricInhPa"@);
            assert("potentialVorticity"@.len() != "isobaricInPa"@.len());
            assert("potentialVorticity"@ != "isobaricInPa"@);
            assert("potentialVorticity"@.len() != "meanSea"@.len());
            assert("potentialVorticity"@ != "meanSea"@);
            assert("potentialVorticity"@.len() != "heightAboveSea"@.len());
            assert("potentialVorticity"@ != "heightAboveSea"@);
            assert("potentialVorticity"@.len() != "heightAboveGround"@.len());
            assert("potentialVorticity"@ != "heightAboveGround"@);
            assert("potentialVorticity"@.len() != "heightAboveGroundLayer"@.len());
            assert("potentialVorticity"@ != "heightAboveGroundLayer"@);
            assert("potentialVorticity"@.len() != "sigma"@.len());
            assert("potentialVorticity"@ != "sigma"@);
            assert("potentialVorticity"@.len() != "sigmaLayer"@.len());
            assert("potentialVorticity"@ != "sigmaLayer"@);
            assert("potentialVorticity"@.len() != "hybrid"@.len());
            assert("potentialVorticity"@ != "hybrid"@);
            assert("potentialVorticity"@.len() != "hybridLayer"@.len());
            assert("potentialVorticity"@ != "hybridLayer"@);
            assert("potentialVorticity"@.len() != "depthBelowLand"@.len());
            assert("potentialVorticity"@ != "depthBelowLand"@);
            assert("potentialVorticity"@.len() != "depthBelowLandLayer"@.len());
            assert("potentialVorticity"@ != "depthBelowLandLayer"@);
            assert(eccodes_level_type("potentialVorticity"@) == Some(LevelType::PotentialVorticity));
        },
    }
}

/// A value kept only when it is finite, so a masked or missing value becomes an absent level
/// rather than a NaN that would poison grouping and record emission.
pub open spec fn finite_value(bits: u64) -> Option<u64> {
    if is_finite(bits) {
        Some(bits)
    } else {
        None
    }
}

/// Whether an ecCodes integer level fits the `i32` range it is widened through.
pub open spec fn widens(level: i64) -> bool {
    i32::MIN <= level <= i32::MAX
}

/// The level a GRIB2 surface type and its decoded value normalize to: the token, then the bits of
/// the value in the type's canonical unit. `hectopascals` holds the bits of the value divided by
/// one hundred, the unit an isobaric level is kept in.
pub open spec fn grib2_level(surface_type: u8, value: u64, hectopascals: u64) -> Option<(Seq<char>, Option<u64>)> {
    if surface_type == MISSING_SURFACE {
        None
    } else {
        match grib2_level_type(surface_type) {
            Some(level_type) => if level_has_value(level_type) {
                Some(
                    (
                        level_token(level_type),
                        finite_value(
                            if level_type == LevelType::Isobaric {
                                hectopascals
                            } else {
                                value
                            },
                        ),
                    ),
                )
            } else {
                Some((level_token(level_type), None))
            },
            None => Some((seq!['s', 'f', 'c'] + decimal(surface_type as nat), finite_value(value))),
        }
    }
}

/// The level an ecCodes `typeOfLevel` token and integer level normalize to. `widened` holds the
/// bits of the level as an `f64`, `hectopascals` the bits of that divided by one hundred; both
/// matter only for a level that widens through `i32`.
pub open spec fn eccodes_level(token: Seq<char>, level: Option<i64>, widened: u64, hectopascals: u64) -> (
    Seq<char>,
    Option<u64>,
) {
    match eccodes_level_type(token) {
        Some(level_type) => if level_has_value(level_type) {
            (
                level_token(level_type),
                match level {
                    Some(raw) => if widens(raw) {
                        finite_value(
                            if level_type == LevelType::Isobaric && token == "isobaricInPa"@ {
                                hectopascals
                            } else {
                                widened
                            },
                        )
                    } else {
                        None
                    },
                    None => None,
                },
            )
        } else {
            (level_token(level_type), None)
        },
        None => (
            token,
            match level {
                Some(raw) => if widens(raw) {
                    Some(widened)
                } else {
                    None
                },
                None => None,
            },
        ),
    }
}

/// A normalized GRIB vertical level: a bare-templatable type token and, when the type has one, the
/// bits of a numeric value in that type's canonical unit.
///
/// The canonical unit is fixed per type so the numeric `level` matches across decoders: isobaric
/// levels are hPa, heights and depths are metres. A level type outside the curated set keeps a
/// stable fallback token (`sfc{surface_type}` for a GRIB2 surface type, the raw `typeOfLevel`
/// string for ecCodes), so distinct levels stay distinct for grouping.
#[derive(Debug, Clone)]
pub struct GribLevel {
    type_token: String,
    value: Option<u64>,
}

impl View for GribLevel {
    type V = (Seq<char>, Option<u64>);

    closed spec fn view(&self) -> (Seq<char>, Option<u64>) {
        (self.type_token@, self.value)
    }
}

impl GribLevel {
    /// Assembles a level from an already-resolved token and value.
    pub fn new(type_token: String, value: Option<u64>) -> (level: GribLevel)
        ensures
            level@ == (type_token@, value),
    {
        GribLevel { type_token, value }
    }

    /// Normalizes a GRIB2 level from a Code Table 4.5 surface type and its decoded value.
    ///
    /// Returns `None` for surface type 255 ("missing"), which carries no level. An isobaric surface
    /// is reported in pascals and kept in hectopascals: `hectopascals` holds the bits of `value`
    /// divided by one hundred.
    pub fn from_grib2(surface_type: u8, value: u64, hectopascals: u64) -> (level: Option<GribLevel>)
        ensures
            match level {
                Some(level) => grib2_level(surface_type, value, hectopascals) == Some(level@),
                None => grib2_level(surface_type, value, hectopascals) is None,
            },
    {
        if surface_type == MISSING_SURFACE {
            return None;
        }
        match LevelType::from_grib2(surface_type) {
            Some(level_type) => if level_type.has_value() {
                let chosen = if level_type == LevelType::Isobaric {
                    hectopascals
                } else {
                    value
                };
                let kept = if finite(chosen) {
                    Some(chosen)
                } else {
                    None
                };
                Some(GribLevel::new(owned(level_type.key()), kept))
            } else {
                Some(GribLevel::new(owned(level_type.key()), None))
            },
            None => {
                let mut chars: Vec<char> = Vec::new();
                chars.push('s');
                chars.push('f');
                chars.push('c');
                push_decimal(&mut chars, surface_type as u64);
                let kept = if finite(value) {
                    Some(value)
                } else {
                    None
                };
                Some(GribLevel::new(text_of(&chars), kept))
            },
        }
    }

    /// Normalizes an ecCodes level (both editions) from a `typeOfLevel` string and integer level.
    ///
    /// ecCodes reports the value in the unit its token names, so `isobaricInPa` is kept in
    /// hectopascals while `isobaricInhPa` already is; heights and depths are metres as reported. The
    /// level widens through `i32`: `widened` holds the bits of it as an `f64` and `hectopascals` the
    /// bits of that divided by one hundred, and a level outside the `i32` range drops to an absent
    /// value.
    pub fn from_eccodes(type_of_level: &str, level: Option<i64>, widened: u64, hectopascals: u64) -> (result: GribLevel)
        ensures
            result@ == eccodes_level(type_of_level@, level, widened, hectopascals),
    {
        let fits = match level {
            Some(raw) => i32::MIN as i64 <= raw && raw <= i32::MAX as i64,
            None => false,
        };
        match LevelType::from_eccodes(type_of_level) {
            Some(level_type) => if level_type.has_value() {
                let kept = if fits {
                    let chosen = if level_type == LevelType::Isobaric && same_text(
                        type_of_level,
                        "isobaricInPa",
                    ) {
                        hectopascals
                    } else {
                        widened
                    };
                    if finite(chosen) {
                        Some(chosen)
                    } else {
                        None
                    }
                } else {
                    None
                };
                GribLevel::new(owned(level_type.key()), kept)
            } else {
                GribLevel::new(owned(level_type.key()), None)
            },
            None => {
                let kept = if fits {
                    Some(widened)
                } else {
                    None
                };
                GribLevel::new(owned(type_of_level), kept)
            },
        }
    }

    /// The bare-templatable level type token, emitted as the record's `level_type`.
    pub fn type_token(&self) -> (token: &str)
        ensures
            token@ == self@.0,
    {
        self.type_token.as_str()
    }

    /// The bits of the numeric level value in the type's canonical unit, when the type carries one.
    pub fn value(&self) -> (value: Option<u64>)
        ensures
            value == self@.1,
    {
        self.value
    }

    /// A projection for grouping: the value's raw bits keep grouping float-safe, so two fields at
    /// the same level land in the same slice.
    pub fn group_key(&self) -> (key: LevelGroupKey)
        ensures
            key@ == self@,
    {
        LevelGroupKey { type_token: self.type_token.clone(), value_bits: self.value }
    }
}

/// The float-safe grouping identity of a [`GribLevel`], used inside a grid-slice key.
#[derive(Debug, Clone)]
pub struct LevelGroupKey {
    type_token: String,
    value_bits: Option<u64>,
}

impl View for LevelGroupKey {
    type V = (Seq<char>, Option<u64>);

    closed spec fn view(&self) -> (Seq<char>, Option<u64>) {
        (self.type_token@, self.value_bits)
    }
}

impl LevelGroupKey {
    /// Whether two keys name the same level: the same token and the same value bits.
    pub fn same_as(&self, other: &LevelGroupKey) -> (same: bool)
        ensures
            same == (self@ == other@),
    {
        let tokens = self.type_token == other.type_token;
        tokens && self.value_bits == other.value_bits
    }
}

/// The three ways a pressure level arrives agree: a GRIB2 isobaric surface (type 100, reported in
/// pascals), an ecCodes `isobaricInPa` level and an ecCodes `isobaricInhPa` level all become the
/// `isobaric` level holding the same value in hectopascals, given that value's bits (for the
/// pascal sources, the reported value divided by one hundred; for `isobaricInhPa`, the reported
/// value itself) and a reported integer level within `i32`.
pub proof fn lemma_isobaric_sources_agree(
    hectopascals: u64,
    pascals: u64,
    level_in_pa: i64,
    widened_pa: u64,
    level_in_hpa: i64,
    divided_hpa: u64,
)
    requires
        widens(level_in_pa),
        widens(level_in_hpa),
    ensures
        grib2_level(100, pascals, hectopascals) == Some(("isobaric"@, finite_value(hectopascals))),
        eccodes_level("isobaricInPa"@, Some(level_in_pa), widened_pa, hectopascals) == (
            "isobaric"@,
            finite_value(hectopascals),
        ),
        eccodes_level("isobaricInhPa"@, Some(level_in_hpa), hectopascals, divided_hpa) == (
            "isobaric"@,
            finite_value(hectopascals),
        ),
{
    reveal_strlit("surface");
    reveal_strlit("cloudBase");
    reveal_strlit("cloudTop");
    reveal_strlit("isothermZero");
    reveal_strlit("maxWind");
    reveal_strlit("tropopause");
    reveal_strlit("nominalTop");
    reveal_strlit("entireAtmosphere");
    reveal_strlit("atmosphere");
    reveal_strlit("atmosphereSingleLayer");
    reveal_strlit("isobaricInhPa");
    reveal_strlit("isobaricInPa");
    // No two tokens agree in length and in their characters at positions 0, 4 and 8.
    assert("surface"@.len() == 7 && "surface"@[0] == 's' && "surface"@[4] == 'a');
    assert("cloudBase"@.len() == 9 && "cloudBase"@[0] == 'c' && "cloudBase"@[4] == 'd' && "cloudBase"@[8] == 'e');
    assert("cloudTop"@.len() == 8 && "cloudTop"@[0] == 'c' && "cloudTop"@[4] == 'd');
    assert("isothermZero"@.len() == 12 && "isothermZero"@[0] == 'i' && "isothermZero"@[4] == 'h' && "isothermZero"@[8] == 'Z');
    assert("maxWind"@.len() == 7 && "maxWind"@[0] == 'm' && "maxWind"@[4] == 'i');
    assert("tropopause"@.len() == 10 && "tropopause"@[0] == 't' && "tropopause"@[4] == 'o' && "tropopause"@[8] == 's');
    assert("nominalTop"@.len() == 10 && "nominalTop"@[0] == 'n' && "nominalTop"@[4] == 'n' && "nominalTop"@[8] == 'o');
    assert("entireAtmosphere"@.len() == 16 && "entireAtmosphere"@[0] == 'e' && "entireAtmosphere"@[4] == 'r' && "entireAtmosphere"@[8] == 'm');
    assert("atmosphere"@.len() == 10 && "atmosphere"@[0] == 'a' && "atmosphere"@[4] == 's' && "atmosphere"@[8] == 'r');
    assert("atmosphereSingleLayer"@.len() == 21 && "atmosphereSingleLayer"@[0] == 'a' && "atmosphereSingleLayer"@[4] == 's' && "atmosphereSingleLayer"@[8] == 'r');
    assert("isobaricInhPa"@.len() == 13 && "isobaricInhPa"@[0] == 'i' && "isobaricInhPa"@[4] == 'a' && "isobaricInhPa"@[8] == 'I');
    assert("isobaricInPa"@.len() == 12 && "isobaricInPa"@[0] == 'i' && "isobaricInPa"@[4] == 'a' && "isobaricInPa"@[8] == 'I');
    assert(eccodes_level_type("isobaricInPa"@) == Some(LevelType::Isobaric));
    assert(eccodes_level_type("isobaricInhPa"@) == Some(LevelType::Isobaric));
}

} // verus!
