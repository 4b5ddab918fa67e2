//! The radio-side records of a ChirpStack device event.
use vstd::prelude::*;

verus! {

/// Where a gateway's location came from.
#[derive(Debug, Clone, Copy, PartialEq, Eq, Structural)]
#[allow(non_camel_case_types)]
pub enum LocationSource {
    /// Unknown.
    UNKNOWN,
    /// GPS.
    GPS,
    /// Manually configured.
    CONFIG,
    /// Geo resolver (TDOA).
    GEO_RESOLVER_TDOA,
    /// Geo resolver (RSSI).
    GEO_RESOLVER_RSSI,
    /// Geo resolver (GNSS).
    GEO_RESOLVER_GNSS,
    /// Geo resolver (WIFI).
    GEO_RESOLVER_WIFI,
}

impl LocationSource {
    /// The number ChirpStack assigns to this source.
    pub open spec fn spec_code(self) -> u8 {
        match self {
            LocationSource::UNKNOWN => 0,
            LocationSource::GPS => 1,
            LocationSource::CONFIG => 2,
            LocationSource::GEO_RESOLVER_TDOA => 3,
            LocationSource::GEO_RESOLVER_RSSI => 4,
            LocationSource::GEO_RESOLVER_GNSS => 5,
            LocationSource::GEO_RESOLVER_WIFI => 6,
        }
    }

    /// The number ChirpStack assigns to this source.
    pub fn code(&self) -> (n: u8)
        ensures
            n == self.spec_code(),
    {
        match self {
            LocationSource::UNKNOWN => 0,
            LocationSource::GPS => 1,
            LocationSource::CONFIG => 2,
            LocationSource::GEO_RESOLVER_TDOA => 3,
            LocationSource::GEO_RESOLVER_RSSI => 4,
            LocationSource::GEO_RESOLVER_GNSS => 5,
            LocationSource::GEO_RESOLVER_WIFI => 6,
        }
    }

    /// The source with number `n`, if there is one.
    pub fn from_code(n: u8) -> (source: Option<LocationSource>)
        ensures
            source is Some <==> n <= 6,
            source matches Some(s) ==> s.spec_code() == n,
    {
        match n {
            0 => Some(LocationSource::UNKNOWN),
            1 => Some(LocationSource::GPS),
            2 => Some(LocationSource::CONFIG),
            3 => Some(LocationSource::GEO_RESOLVER_TDOA),
            4 => Some(LocationSource::GEO_RESOLVER_RSSI),
            5 => Some(LocationSource::GEO_RESOLVER_GNSS),
            6 => Some(LocationSource::GEO_RESOLVER_WIFI),
            _ => None,
        }
    }
}

/// The CRC state of a received frame.
#[derive(Debug, Clone, Copy, PartialEq, Eq, Structural)]
#[allow(non_camel_case_types)]
pub enum CRCStatus {
    /// No CRC.
    NO_CRC,
    /// Bad CRC.
    BAD_CRC,
    /// CRC OK.
    CRC_OK,
}

impl CRCStatus {
    /// The number ChirpStack assigns to this status.
    pub open spec fn spec_code(self) -> u8 {
        match self {
            CRCStatus::NO_CRC => 0,
            CRCStatus::BAD_CRC => 1,
            CRCStatus::CRC_OK => 2,
        }
    }

    /// The number ChirpStack assigns to this status.
    pub fn code(&self) -> (n: u8)
        ensures
            n == self.spec_code(),
    {
        match self {
            CRCStatus::NO_CRC => 0,
            CRCStatus::BAD_CRC => 1,
            CRCStatus::CRC_OK => 2,
        }
    }

    /// The status with number `n`, if there is one.
    pub fn from_code(n: u8) -> (status: Option<CRCStatus>)
        ensures
            status is Some <==> n <= 2,
            status matches Some(s) ==> s.spec_code() == n,
    {
        match n {
            0 => Some(CRCStatus::NO_CRC),
            1 => Some(CRCStatus::BAD_CRC),
            2 => Some(CRCStatus::CRC_OK),
            _ => None,
        }
    }
}

/// The forward error correction rate of a transmission.
#[derive(Debug, Clone, Copy, PartialEq, Eq, Structural)]
#[allow(non_camel_case_types)]
pub enum CodeRate {
    CR_UNDEFINED,
    /// LoRa.
    CR_4_5,
    CR_4_6,
    CR_4_7,
    CR_4_8,
    /// LR-FHSS.
    CR_3_8,
    CR_2_6,
    CR_1_4,
    CR_1_6,
    CR_5_6,
    /// LoRa 2.4 GHz.
    CR_LI_4_5,
    CR_LI_4_6,
    CR_LI_4_8,
}

impl CodeRate {
    /// The number ChirpStack assigns to this rate.
    pub open spec fn spec_code(self) -> u8 {
        match self {
            CodeRate::CR_UNDEFINED => 0,
            CodeRate::CR_4_5 => 1,
            CodeRate::CR_4_6 => 2,
            CodeRate::CR_4_7 => 3,
            CodeRate::CR_4_8 => 4,
            CodeRate::CR_3_8 => 5,
            CodeRate::CR_2_6 => 6,
            CodeRate::CR_1_4 => 7,
            CodeRate::CR_1_6 => 8,
            CodeRate::CR_5_6 => 9,
            CodeRate::CR_LI_4_5 => 10,
            CodeRate::CR_LI_4_6 => 11,
            CodeRate::CR_LI_4_8 => 12,
        }
    }

    /// The number ChirpStack assigns to this rate.
    pub fn code(&self) -> (n: u8)
        ensures
            n == self.spec_code(),
    {
        match self {
            CodeRate::CR_UNDEFINED => 0,
            CodeRate::CR_4_5 => 1,
            CodeRate::CR_4_6 => 2,
            CodeRate::CR_4_7 => 3,
            CodeRate::CR_4_8 => 4,
            CodeRate::CR_3_8 => 5,
            CodeRate::CR_2_6 => 6,
            CodeRate::CR_1_4 => 7,
            CodeRate::CR_1_6 => 8,
            CodeRate::CR_5_6 => 9,
            CodeRate::CR_LI_4_5 => 10,
            CodeRate::CR_LI_4_6 => 11,
            CodeRate::CR_LI_4_8 => 12,
        }
    }

    /// The rate with number `n`, if there is one.
    pub fn from_code(n: u8) -> (rate: Option<CodeRate>)
        ensures
            rate is Some <==> n <= 12,
            rate matches Some(r) ==> r.spec_code() == n,
    {
        match n {
            0 => Some(CodeRate::CR_UNDEFINED),
            1 => Some(CodeRate::CR_4_5),
            2 => Some(CodeRate::CR_4_6),
            3 => Some(CodeRate::CR_4_7),
            4 => Some(CodeRate::CR_4_8),
            5 => Some(CodeRate::CR_3_8),
            6 => Some(CodeRate::CR_2_6),
            7 => Some(CodeRate::CR_1_4),
            8 => Some(CodeRate::CR_1_6),
            9 => Some(CodeRate::CR_5_6),
            10 => Some(CodeRate::CR_LI_4_5),
            11 => Some(CodeRate::CR_LI_4_6),
            12 => Some(CodeRate::CR_LI_4_8),
            _ => None,
        }
    }
}

/// LoRa modulation parameters.
#[allow(non_snake_case)]
#[derive(Debug, Clone)]
pub struct LoraModulationInfo {
    pub bandwidth: u32,
    pub spreadingFactor: u32,
    pub codeRateLegacy: Option<String>,
    pub polarizationInversion: Option<bool>,
    pub codeRate: CodeRate,
}

/// FSK modulation parameters.
#[allow(non_snake_case)]
#[derive(Debug, Clone, Copy, PartialEq, Eq, Structural)]
pub struct FskModulationInfo {
    pub frequencyDeviation: u32,
    pub datarate: u32,
}

/// LR-FHSS modulation parameters.
#[allow(non_snake_case)]
#[derive(Debug, Clone)]
pub struct LrFhssModulationInfo {
    pub operatingChannelWidth: u32,
    pub codeRateLegacy: String,
    pub codeRate: CodeRate,
    pub gridSteps: u32,
}

/// How a frame was modulated.
#[derive(Debug, Clone)]
#[allow(non_camel_case_types)]
pub enum Modulation {
    lora(LoraModulationInfo),
    fsk(FskModulationInfo),
    lr_fhss(LrFhssModulationInfo),
}

impl Modulation {
    /// The code rate of the modulation; FSK has none.
    pub open spec fn spec_code_rate(self) -> Option<CodeRate> {
        match self {
            Modulation::lora(info) => Some(info.codeRate),
            Modulation::fsk(_) => None,
            Modulation::lr_fhss(info) => Some(info.codeRate),
        }
    }

    /// The code rate of the modulation; FSK has none.
    pub fn code_rate(&self) -> (rate: Option<CodeRate>)
        ensures
            rate == self.spec_code_rate(),
    {
        match self {
            Modulation::lora(info) => Some(info.codeRate),
            Modulation::fsk(_) => None,
            Modulation::lr_fhss(info) => Some(info.codeRate),
        }
    }
}

/// The transmission parameters of an uplink.
#[derive(Debug, Clone)]
pub struct TXInfo {
    pub frequency: u32,
    pub modulation: Modulation,
}

/// How a relay received a frame.
#[allow(non_snake_case)]
#[derive(Debug, Clone)]
pub struct RelayRxInfo {
    pub devEui: String,
    pub frequency: u32,
    pub dr: u32,
    pub snr: i32,
    pub rssi: i32,
    pub worChannel: u32,
}

} // verus!
