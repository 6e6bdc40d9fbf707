//! The canonical vocabulary of GRIB parameters and the column keys they are stored under.

use crate::text::{decimal, owned, push_decimal, push_signed_decimal, signed_decimal, text_of};
use vstd::prelude::*;

verus! {

/// A canonical GRIB parameter: a short, space-free, level-independent name shared by both decoders
/// and both editions, so one mapping works regardless of which decoder read the file.
///
/// The key is `snake_case` because it is read bare in a template (`{{ wind_u }}`): a kebab name
/// parses as subtraction and a spaced one forces bracket access. A parameter outside the curated set
/// has no canonical name and falls back to a synthetic code key instead (`d{disc}c{cat}n{num}` for
/// GRIB2, `g1t{table}c{centre}p{indicator}` for GRIB1), which stays stable and distinct.
#[derive(Debug, Clone, Copy, PartialEq, Eq, Structural)]
pub enum GribParameter {
    /// Air temperature (K).
    Temperature,
    /// Potential temperature (K).
    PotentialTemperature,
    /// Maximum temperature (K).
    MaxTemperature,
    /// Minimum temperature (K).
    MinTemperature,
    /// Dew point temperature (K).
    Dewpoint,
    /// Specific humidity (kg/kg).
    SpecificHumidity,
    /// Relative humidity (%).
    Humidity,
    /// Precipitable water (kg/m2).
    PrecipitableWater,
    /// Precipitation rate (kg/m2/s).
    PrecipitationRate,
    /// Total precipitation (kg/m2).
    Precip,
    /// Snow depth (m).
    SnowDepth,
    /// Water equivalent of accumulated snow depth (kg/m2).
    SnowWaterEquivalent,
    /// Wind direction, the compass bearing the wind blows from (degrees true).
    WindDir,
    /// Wind speed, the wind vector's magnitude (m/s).
    WindSpeed,
    /// Eastward (u) component of the wind (m/s).
    WindU,
    /// Northward (v) component of the wind (m/s).
    WindV,
    /// Vertical velocity in pressure coordinates (Pa/s).
    VerticalVelocity,
    /// Wind speed of a gust (m/s).
    Gust,
    /// Pressure (Pa).
    Pressure,
    /// Pressure reduced to mean sea level (Pa).
    PressureMsl,
    /// Pressure tendency (Pa/s).
    PressureTendency,
    /// Geopotential (m2/s2).
    Geopotential,
    /// Geopotential height (gpm).
    GeopotentialHeight,
    /// Total cloud cover (%).
    CloudCover,
    /// Low cloud cover (%).
    LowCloudCover,
    /// Medium cloud cover (%).
    MediumCloudCover,
    /// High cloud cover (%).
    HighCloudCover,
    /// Convective available potential energy (J/kg).
    Cape,
    /// Convective inhibition (J/kg).
    Cin,
    /// Visibility (m).
    Visibility,
}

/// The canonical `snake_case` key of a parameter.
pub open spec fn parameter_token(parameter: GribParameter) -> Seq<char> {
    match parameter {
        GribParameter::Temperature => "temperature"@,
        GribParameter::PotentialTemperature => "potential_temperature"@,
        GribParameter::MaxTemperature => "max_temperature"@,
        GribParameter::MinTemperature => "min_temperature"@,
        GribParameter::Dewpoint => "dewpoint"@,
        GribParameter::SpecificHumidity => "specific_humidity"@,
        GribParameter::Humidity => "humidity"@,
        GribParameter::PrecipitableWater => "precipitable_water"@,
        GribParameter::PrecipitationRate => "precipitation_rate"@,
        GribParameter::Precip => "precip"@,
        GribParameter::SnowDepth => "snow_depth"@,
        GribParameter::SnowWaterEquivalent => "snow_water_equivalent"@,
        GribParameter::WindDir => "wind_dir"@,
        GribParameter::WindSpeed => "wind_speed"@,
        GribParameter::WindU => "wind_u"@,
        GribParameter::WindV => "wind_v"@,
        GribParameter::VerticalVelocity => "vertical_velocity"@,
        GribParameter::Gust => "gust"@,
        GribParameter::Pressure => "pressure"@,
        GribParameter::PressureMsl => "pressure_msl"@,
        GribParameter::PressureTendency => "pressure_tendency"@,
        GribParameter::Geopotential => "geopotential"@,
        GribParameter::GeopotentialHeight => "geopotential_height"@,
        GribParameter::CloudCover => "cloud_cover"@,
        GribParameter::LowCloudCover => "low_cloud_cover"@,
        GribParameter::MediumCloudCover => "medium_cloud_cover"@,
        GribParameter::HighCloudCover => "high_cloud_cover"@,
        GribParameter::Cape => "cape"@,
        GribParameter::Cin => "cin"@,
        GribParameter::Visibility => "visibility"@,
    }
}

/// The parameter a GRIB2 `(discipline, parameterCategory, parameterNumber)` triple names, per WMO
/// Code Table 4.2 for discipline 0 (meteorological products), or none outside the curated set.
pub open spec fn grib2_parameter(discipline: u8, category: u8, number: u8) -> Option<GribParameter> {
    if discipline == 0 && category == 0 && number == 0 {
        Some(GribParameter::Temperature)
    } else if discipline == 0 && category == 0 && number == 2 {
        Some(GribParameter::PotentialTemperature)
    } else if discipline == 0 && category == 0 && number == 4 {
        Some(GribParameter::MaxTemperature)
    } else if discipline == 0 && category == 0 && number == 5 {
        Some(GribParameter::MinTemperature)
    } else if discipline == 0 && category == 0 && number == 6 {
        Some(GribParameter::Dewpoint)
    } else if discipline == 0 && category == 1 && number == 0 {
        Some(GribParameter::SpecificHumidity)
    } else if discipline == 0 && category == 1 && number == 1 {
        Some(GribParameter::Humidity)
    } else if discipline == 0 && category == 1 && number == 3 {
        Some(GribParameter::PrecipitableWater)
    } else if discipline == 0 && category == 1 && number == 7 {
        Some(GribParameter::PrecipitationRate)
    } else if discipline == 0 && category == 1 && number == 8 {
        Some(GribParameter::Precip)
    } else if discipline == 0 && category == 1 && number == 11 {
        Some(GribParameter::SnowDepth)
    } else if discipline == 0 && category == 1 && number == 13 {
        Some(GribParameter::SnowWaterEquivalent)
    } else if discipline == 0 && category == 2 && number == 0 {
        Some(GribParameter::WindDir)
    } else if discipline == 0 && category == 2 && number == 1 {
        Some(GribParameter::WindSpeed)
    } else if discipline == 0 && category == 2 && number == 2 {
        Some(GribParameter::WindU)
    } else if discipline == 0 && category == 2 && number == 3 {
        Some(GribParameter::WindV)
    } else if discipline == 0 && category == 2 && number == 8 {
        Some(GribParameter::VerticalVelocity)
    } else if discipline == 0 && category == 2 && number == 22 {
        Some(GribParameter::Gust)
    } else if discipline == 0 && category == 3 && number == 0 {
        Some(GribParameter::Pressure)
    } else if discipline == 0 && category == 3 && number == 1 {
        Some(GribParameter::PressureMsl)
    } else if discipline == 0 && category == 3 && number == 2 {
        Some(GribParameter::PressureTendency)
    } else if discipline == 0 && category == 3 && number == 4 {
        Some(GribParameter::Geopotential)
    } else if discipline == 0 && category == 3 && number == 5 {
        Some(GribParameter::GeopotentialHeight)
    } else if discipline == 0 && category == 6 && number == 1 {
        Some(GribParameter::CloudCover)
    } else if discipline == 0 && category == 6 && number == 3 {
        Some(GribParameter::LowCloudCover)
    } else if discipline == 0 && category == 6 && number == 4 {
        Some(GribParameter::MediumCloudCover)
    } else if discipline == 0 && category == 6 && number == 5 {
        Some(GribParameter::HighCloudCover)
    } else if discipline == 0 && category == 7 && number == 6 {
        Some(GribParameter::Cape)
    } else if discipline == 0 && category == 7 && number == 7 {
        Some(GribParameter::Cin)
    } else if discipline == 0 && category == 19 && number == 0 {
        Some(GribParameter::Visibility)
    } else {
        None
    }
}

/// The parameter a GRIB1 `indicatorOfParameter` names, per WMO Code Table 2, or none outside the
/// curated set.
pub open spec fn grib1_parameter(indicator: i64) -> Option<GribParameter> {
    if indicator == 1 {
        Some(GribParameter::Pressure)
    } else if indicator == 2 {
        Some(GribParameter::PressureMsl)
    } else if indicator == 3 {
        Some(GribParameter::PressureTendency)
    } else if indicator == 6 {
        Some(GribParameter::Geopotential)
    } else if indicator == 7 {
        Some(GribParameter::GeopotentialHeight)
    } else if indicator == 11 {
        Some(GribParameter::Temperature)
    } else if indicator == 13 {
        Some(GribParameter::PotentialTemperature)
    } else if indicator == 15 {
        Some(GribParameter::MaxTemperature)
    } else if indicator == 16 {
        Some(GribParameter::MinTemperature)
    } else if indicator == 17 {
        Some(GribParameter::Dewpoint)
    } else if indicator == 20 {
        Some(GribParameter::Visibility)
    } else if indicator == 31 {
        Some(GribParameter::WindDir)
    } else if indicator == 32 {
        Some(GribParameter::WindSpeed)
    } else if indicator == 33 {
        Some(GribParameter::WindU)
    } else if indicator == 34 {
        Some(GribParameter::WindV)
    } else if indicator == 39 {
        Some(GribParameter::VerticalVelocity)
    } else if indicator == 51 {
        Some(GribParameter::SpecificHumidity)
    } else if indicator == 52 {
        Some(GribParameter::Humidity)
    } else if indicator == 54 {
        Some(GribParameter::PrecipitableWater)
    } else if indicator == 59 {
        Some(GribParameter::PrecipitationRate)
    } else if indicator == 61 {
        Some(GribParameter::Precip)
    } else if indicator == 65 {
        Some(GribParameter::SnowWaterEquivalent)
    } else if indicator == 66 {
        Some(GribParameter::SnowDepth)
    } else if indicator == 71 {
        Some(GribParameter::CloudCover)
    } else if indicator == 73 {
        Some(GribParameter::LowCloudCover)
    } else if indicator == 74 {
        Some(GribParameter::MediumCloudCover)
    } else if indicator == 75 {
        Some(GribParameter::HighCloudCover)
    } else if indicator == 156 {
        Some(GribParameter::Cin)
    } else if indicator == 157 {
        Some(GribParameter::Cape)
    } else if indicator == 180 {
        Some(GribParameter::Gust)
    } else {
        None
    }
}

impl GribParameter {
    /// Recognizes a parameter from its GRIB2 `(discipline, parameterCategory, parameterNumber)`
    /// triple.
    ///
    /// This is the level-independent identity carried natively on a GRIB2 message, so both decoders
    /// resolve GRIB2 through this one function and agree cell for cell.
    pub fn from_grib2(discipline: u8, category: u8, number: u8) -> (parameter: Option<GribParameter>)
        ensures
            parameter == grib2_parameter(discipline, category, number),
    {
        if discipline != 0 {
            return None;
        }
        match (category, number) {
            (0, 0) => Some(GribParameter::Temperature),
            (0, 2) => Some(GribParameter::PotentialTemperature),
            (0, 4) => Some(GribParameter::MaxTemperature),
            (0, 5) => Some(GribParameter::MinTemperature),
            (0, 6) => Some(GribParameter::Dewpoint),
            (1, 0) => Some(GribParameter::SpecificHumidity),
            (1, 1) => Some(GribParameter::Humidity),
            (1, 3) => Some(GribParameter::PrecipitableWater),
            (1, 7) => Some(GribParameter::PrecipitationRate),
            (1, 8) => Some(GribParameter::Precip),
            (1, 11) => Some(GribParameter::SnowDepth),
            (1, 13) => Some(GribParameter::SnowWaterEquivalent),
            (2, 0) => Some(GribParameter::WindDir),
            (2, 1) => Some(GribParameter::WindSpeed),
            (2, 2) => Some(GribParameter::WindU),
            (2, 3) => Some(GribParameter::WindV),
            (2, 8) => Some(GribParameter::VerticalVelocity),
            (2, 22) => Some(GribParameter::Gust),
            (3, 0) => Some(GribParameter::Pressure),
            (3, 1) => Some(GribParameter::PressureMsl),
            (3, 2) => Some(GribParameter::PressureTendency),
            (3, 4) => Some(GribParameter::Geopotential),
            (3, 5) => Some(GribParameter::GeopotentialHeight),
            (6, 1) => Some(GribParameter::CloudCover),
            (6, 3) => Some(GribParameter::LowCloudCover),
            (6, 4) => Some(GribParameter::MediumCloudCover),
            (6, 5) => Some(GribParameter::HighCloudCover),
            (7, 6) => Some(GribParameter::Cape),
            (7, 7) => Some(GribParameter::Cin),
            (19, 0) => Some(GribParameter::Visibility),
            _ => None,
        }
    }

    /// Recognizes a parameter from its GRIB1 `indicatorOfParameter`.
    ///
    /// These are the standard Table 2 numbers, so a GRIB1 file and a GRIB2 file naming the same
    /// physical quantity resolve to the same parameter.
    pub fn from_grib1(indicator_of_parameter: i64) -> (parameter: Option<GribParameter>)
        ensures
            parameter == grib1_parameter(indicator_of_parameter),
    {
        match indicator_of_parameter {
            1 => Some(GribParameter::Pressure),
            2 => Some(GribParameter::PressureMsl),
            3 => Some(GribParameter::PressureTendency),
            6 => Some(GribParameter::Geopotential),
            7 => Some(GribParameter::GeopotentialHeight),
            11 => Some(GribParameter::Temperature),
            13 => Some(GribParameter::PotentialTemperature),
            15 => Some(GribParameter::MaxTemperature),
            16 => Some(GribParameter::MinTemperature),
            17 => Some(GribParameter::Dewpoint),
            20 => Some(GribParameter::Visibility),
            31 => Some(GribParameter::WindDir),
            32 => Some(GribParameter::WindSpeed),
            33 => Some(GribParameter::WindU),
            34 => Some(GribParameter::WindV),
            39 => Some(GribParameter::VerticalVelocity),
            51 => Some(GribParameter::SpecificHumidity),
            52 => Some(GribParameter::Humidity),
            54 => Some(GribParameter::PrecipitableWater),
            59 => Some(GribParameter::PrecipitationRate),
            61 => Some(GribParameter::Precip),
            65 => Some(GribParameter::SnowWaterEquivalent),
            66 => Some(GribParameter::SnowDepth),
            71 => Some(GribParameter::CloudCover),
            73 => Some(GribParameter::LowCloudCover),
            74 => Some(GribParameter::MediumCloudCover),
            75 => Some(GribParameter::HighCloudCover),
            156 => Some(GribParameter::Cin),
            157 => Some(GribParameter::Cape),
            180 => Some(GribParameter::Gust),
            _ => None,
        }
    }

    /// The canonical `snake_case` column key for this parameter.
    pub fn key(self) -> (key: &'static str)
        ensures
            key@ == parameter_token(self),
    {
        match self {
            GribParameter::Temperature => "temperature",
            GribParameter::PotentialTemperature => "potential_temperature",
            GribParameter::MaxTemperature => "max_temperature",
            GribParameter::MinTemperature => "min_temperature",
            GribParameter::Dewpoint => "dewpoint",
            GribParameter::SpecificHumidity => "specific_humidity",
            GribParameter::Humidity => "humidity",
            GribParameter::PrecipitableWater => "precipitable_water",
            GribParameter::PrecipitationRate => "precipitation_rate",
            GribParameter::Precip => "precip",
            GribParameter::SnowDepth => "snow_depth",
            GribParameter::SnowWaterEquivalent => "snow_water_equivalent",
            GribParameter::WindDir => "wind_dir",
            GribParameter::WindSpeed => "wind_speed",
            GribParameter::WindU => "wind_u",
            GribParameter::WindV => "wind_v",
            GribParameter::VerticalVelocity => "vertical_velocity",
            GribParameter::Gust => "gust",
            GribParameter::Pressure => "pressure",
            GribParameter::PressureMsl => "pressure_msl",
            GribParameter::PressureTendency => "pressure_tendency",
            GribParameter::Geopotential => "geopotential",
            GribParameter::GeopotentialHeight => "geopotential_height",
            GribParameter::CloudCover => "cloud_cover",
            GribParameter::LowCloudCover => "low_cloud_cover",
            GribParameter::MediumCloudCover => "medium_cloud_cover",
            GribParameter::HighCloudCover => "high_cloud_cover",
            GribParameter::Cape => "cape",
            GribParameter::Cin => "cin",
            GribParameter::Visibility => "visibility",
        }
    }
}

/// The key under which a GRIB parameter's value is stored in a location record.
///
/// A newtype rather than a bare string so a parameter column key cannot be confused with an
/// unrelated string (a level token, a timestamp) as it flows through the pivot. It holds either a
/// canonical parameter key or, for a parameter outside the curated vocabulary, a synthetic code key.
#[derive(Debug, Clone)]
pub struct ParameterName(String);

impl View for ParameterName {
    type V = Seq<char>;

    closed spec fn view(&self) -> Seq<char> {
        self.0@
    }
}

impl ParameterName {
    /// A parameter name holding the given text.
    pub fn from(value: &str) -> (name: ParameterName)
        ensures
            name@ == value@,
    {
        ParameterName(owned(value))
    }

    /// Returns the parameter name as a string slice, for use as a record column key.
    pub fn as_str(&self) -> (text: &str)
        ensures
            text@ == self@,
    {
        self.0.as_str()
    }
}

/// The column key of a GRIB2 parameter: its canonical key, or `d{discipline}c{category}n{number}`.
pub open spec fn grib2_key(discipline: u8, category: u8, number: u8) -> Seq<char> {
    match grib2_parameter(discipline, category, number) {
        Some(parameter) => parameter_token(parameter),
        None => seq!['d'] + decimal(discipline as nat) + seq!['c'] + decimal(category as nat) + seq![
            'n',
        ] + decimal(number as nat),
    }
}

/// The column key of a GRIB1 parameter: its canonical key, or
/// `g1t{table2_version}c{centre}p{indicator}`.
pub open spec fn grib1_key(table2_version: i64, centre: i64, indicator: i64) -> Seq<char> {
    match grib1_parameter(indicator) {
        Some(parameter) => parameter_token(parameter),
        None => seq!['g', '1', 't'] + signed_decimal(table2_version as int) + seq!['c'] + signed_decimal(
            centre as int,
        ) + seq!['p'] + signed_decimal(indicator as int),
    }
}

/// Resolves the canonical column key for a GRIB2 parameter from its `(discipline, category,
/// number)` triple.
///
/// Both decoders feed this same function for GRIB2, so a file decoded either way yields the same
/// key, including the identical synthetic key for a parameter outside the curated vocabulary.
pub fn parameter_key_grib2(discipline: u8, category: u8, number: u8) -> (name: ParameterName)
    ensures
        name@ == grib2_key(discipline, category, number),
{
    match GribParameter::from_grib2(discipline, category, number) {
        Some(parameter) => ParameterName::from(parameter.key()),
        None => {
            let mut chars: Vec<char> = Vec::new();
            chars.push('d');
            push_decimal(&mut chars, discipline as u64);
            chars.push('c');
            push_decimal(&mut chars, category as u64);
            chars.push('n');
            push_decimal(&mut chars, number as u64);
            assert(chars@ =~= grib2_key(discipline, category, number));
            ParameterName(text_of(&chars))
        },
    }
}

/// The column a GRIB2 submessage contributes: the key of the parameter its product definition
/// names, or none when the product definition carries no parameter category or number.
pub fn submessage_parameter(discipline: u8, category: Option<u8>, number: Option<u8>) -> (name: Option<ParameterName>)
    ensures
        match (category, number) {
            (Some(c), Some(n)) => name matches Some(key) && key@ == grib2_key(discipline, c, n),
            _ => name is None,
        },
{
    match (category, number) {
        (Some(category), Some(number)) => Some(parameter_key_grib2(discipline, category, number)),
        _ => None,
    }
}

/// Resolves the canonical column key for a GRIB1 parameter from its identity.
///
/// The `indicator` drives the canonical lookup; `table2_version` and `centre` complete the
/// synthetic key used when the indicator is outside the curated vocabulary, so a centre-local
/// parameter stays stable and distinct.
pub fn parameter_key_grib1(table2_version: i64, centre: i64, indicator: i64) -> (name: ParameterName)
    ensures
        name@ == grib1_key(table2_version, centre, indicator),
{
    match GribParameter::from_grib1(indicator) {
        Some(parameter) => ParameterName::from(parameter.key()),
        None => {
            let mut chars: Vec<char> = Vec::new();
            chars.push('g');
            chars.push('1');
            chars.push('t');
            push_signed_decimal(&mut chars, table2_version);
            chars.push('c');
            push_signed_decimal(&mut chars, centre);
            chars.push('p');
            push_signed_decimal(&mut chars, indicator);
            assert(chars@ =~= grib1_key(table2_version, centre, indicator));
            ParameterName(text_of(&chars))
        },
    }
}

/// Every canonical parameter is named both by a GRIB2 triple and by a GRIB1 indicator, and a
/// GRIB2 file and a GRIB1 file naming the same quantity resolve to the same key, so one mapping
/// works on either.
pub proof fn lemma_editions_agree(parameter: GribParameter)
    ensures
        exists|discipline: u8, category: u8, number: u8|
            #[trigger] grib2_parameter(discipline, category, number) == Some(parameter),
        exists|indicator: i64| #[trigger] grib1_parameter(indicator) == Some(parameter),
        forall|discipline: u8, category: u8, number: u8, table2_version: i64, centre: i64, indicator: i64|
            #![trigger grib2_key(discipline, category, number), grib1_key(table2_version, centre, indicator)]
            grib2_parameter(discipline, category, number) == Some(parameter) && grib1_parameter(indicator)
                == Some(parameter) ==> grib2_key(discipline, category, number) == grib1_key(
                table2_version,
                centre,
                indicator,
            ),
{
    match parameter {
        GribParameter::Temperature => {
            assert(grib2_parameter(0, 0, 0) == Some(GribParameter::Temperature));
            assert(grib1_parameter(11) == Some(GribParameter::Temperature));
        },
        GribParameter::PotentialTemperature => {
            assert(grib2_parameter(0, 0, 2) == Some(GribParameter::PotentialTemperature));
            assert(grib1_parameter(13) == Some(GribParameter::PotentialTemperature));
        },
        GribParameter::MaxTemperature => {
            assert(grib2_parameter(0, 0, 4) == Some(GribParameter::MaxTemperature));
            assert(grib1_parameter(15) == Some(GribParameter::MaxTemperature));
        },
        GribParameter::MinTemperature => {
            assert(grib2_parameter(0, 0, 5) == Some(GribParameter::MinTemperature));
            assert(grib1_parameter(16) == Some(GribParameter::MinTemperature));
        },
        GribParameter::Dewpoint => {
            assert(grib2_parameter(0, 0, 6) == Some(GribParameter::Dewpoint));
            assert(grib1_parameter(17) == Some(GribParameter::Dewpoint));
        },
        GribParameter::SpecificHumidity => {
            assert(grib2_parameter(0, 1, 0) == Some(GribParameter::SpecificHumidity));
            assert(grib1_parameter(51) == Some(GribParameter::SpecificHumidity));
        },
        GribParameter::Humidity => {
            assert(grib2_parameter(0, 1, 1) == Some(GribParameter::Humidity));
            assert(grib1_parameter(52) == Some(GribParameter::Humidity));
        },
        GribParameter::PrecipitableWater => {
            assert(grib2_parameter(0, 1, 3) == Some(GribParameter::PrecipitableWater));
            assert(grib1_parameter(54) == Some(GribParameter::PrecipitableWater));
        },
        GribParameter::PrecipitationRate => {
            assert(grib2_parameter(0, 1, 7) == Some(GribParameter::PrecipitationRate));
            assert(grib1_parameter(59) == Some(GribParameter::PrecipitationRate));
        },
        GribParameter::Precip => {
            assert(grib2_parameter(0, 1, 8) == Some(GribParameter::Precip));
            assert(grib1_parameter(61) == Some(GribParameter::Precip));
        },
        GribParameter::SnowDepth => {
            assert(grib2_parameter(0, 1, 11) == Some(GribParameter::SnowDepth));
            assert(grib1_parameter(66) == Some(GribParameter::SnowDepth));
        },
        GribParameter::SnowWaterEquivalent => {
            assert(grib2_parameter(0, 1, 13) == Some(GribParameter::SnowWaterEquivalent));
            assert(grib1_parameter(65) == Some(GribParameter::SnowWaterEquivalent));
        },
        GribParameter::WindDir => {
            assert(grib2_parameter(0, 2, 0) == Some(GribParameter::WindDir));
            assert(grib1_parameter(31) == Some(GribParameter::WindDir));
        },
        GribParameter::WindSpeed => {
            assert(grib2_parameter(0, 2, 1) == Some(GribParameter::WindSpeed));
            assert(grib1_parameter(32) == Some(GribParameter::WindSpeed));
        },
        GribParameter::WindU => {
            assert(grib2_parameter(0, 2, 2) == Some(GribParameter::WindU));
            assert(grib1_parameter(33) == Some(GribParameter::WindU));
        },
        GribParameter::WindV => {
            assert(grib2_parameter(0, 2, 3) == Some(GribParameter::WindV));
            assert(grib1_parameter(34) == Some(GribParameter::WindV));
        },
        GribParameter::VerticalVelocity => {
            assert(grib2_parameter(0, 2, 8) == Some(GribParameter::VerticalVelocity));
            assert(grib1_parameter(39) == Some(GribParameter::VerticalVelocity));
        },
        GribParameter::Gust => {
            assert(grib2_parameter(0, 2, 22) == Some(GribParameter::Gust));
            assert(grib1_parameter(180) == Some(GribParameter::Gust));
        },
        GribParameter::Pressure => {
            assert(grib2_parameter(0, 3, 0) == Some(GribParameter::Pressure));
            assert(grib1_parameter(1) == Some(GribParameter::Pressure));
        },
        GribParameter::PressureMsl => {
            assert(grib2_parameter(0, 3, 1) == Some(GribParameter::PressureMsl));
            assert(grib1_parameter(2) == Some(GribParameter::PressureMsl));
        },
        GribParameter::PressureTendency => {
            assert(grib2_parameter(0, 3, 2) == Some(GribParameter::PressureTendency));
            assert(grib1_parameter(3) == Some(GribParameter::PressureTendency));
        },
        GribParameter::Geopotential => {
            assert(grib2_parameter(0, 3, 4) == Some(GribParameter::Geopotential));
            assert(grib1_parameter(6) == Some(GribParameter::Geopotential));
        },
        GribParameter::GeopotentialHeight => {
            assert(grib2_parameter(0, 3, 5) == Some(GribParameter::GeopotentialHeight));
            assert(grib1_parameter(7) == Some(GribParameter::GeopotentialHeight));
        },
        GribParameter::CloudCover => {
            assert(grib2_parameter(0, 6, 1) == Some(GribParameter::CloudCover));
            assert(grib1_parameter(71) == Some(GribParameter::CloudCover));
        },
        GribParameter::LowCloudCover => {
            assert(grib2_parameter(0, 6, 3) == Some(GribParameter::LowCloudCover));
            assert(grib1_parameter(73) == Some(GribParameter::LowCloudCover));
        },
        GribParameter::MediumCloudCover => {
            assert(grib2_parameter(0, 6, 4) == Some(GribParameter::MediumCloudCover));
            assert(grib1_parameter(74) == Some(GribParameter::MediumCloudCover));
        },
        GribParameter::HighCloudCover => {
            assert(grib2_parameter(0, 6, 5) == Some(GribParameter::HighCloudCover));
            assert(grib1_parameter(75) == Some(GribParameter::HighCloudCover));
        },
        GribParameter::Cape => {
            assert(grib2_parameter(0, 7, 6) == Some(GribParameter::Cape));
            assert(grib1_parameter(157) == Some(GribParameter::Cape));
        },
        GribParameter::Cin => {
            assert(grib2_parameter(0, 7, 7) == Some(GribParameter::Cin));
            assert(grib1_parameter(156) == Some(GribParameter::Cin));
        },
        GribParameter::Visibility => {
            assert(grib2_parameter(0, 19, 0) == Some(GribParameter::Visibility));
            assert(grib1_parameter(20) == Some(GribParameter::Visibility));
        },
    }
}

/// A parameter outside the curated vocabulary keeps a key of its own edition: a GRIB2 synthetic
/// key starts with `d`, a GRIB1 one with `g`, so the two never collide.
pub proof fn lemma_synthetic_keys_are_distinct(
    discipline: u8,
    category: u8,
    number: u8,
    table2_version: i64,
    centre: i64,
    indicator: i64,
)
    requires
        grib2_parameter(discipline, category, number) is None,
        grib1_parameter(indicator) is None,
    ensures
        grib2_key(discipline, category, number) != grib1_key(table2_version, centre, indicator),
        grib2_key(discipline, category, number)[0] == 'd',
        grib1_key(table2_version, centre, indicator)[0] == 'g',
{
    let two = grib2_key(discipline, category, number);
    let one = grib1_key(table2_version, centre, indicator);
    assert(two[0] == 'd');
    assert(one[0] == 'g');
}

} // verus!
