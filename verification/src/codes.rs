//! Command, region, antenna-option and status codes of the reader protocol.
//!
//! Each enum carries its protocol value through a single spec table
//! (`code`/`value`); the executable conversions are proved against it.

use vstd::prelude::*;

verus! {

/// Command codes defined by the Silion protocol documentation.
#[derive(Debug, Clone, Copy, PartialEq, Eq, Structural)]
pub enum CommandCode {
    /// `0x01`
    WriteFlash,
    /// `0x02`
    ReadFlash,
    /// `0x03`
    GetVersion,
    /// `0x04`
    BootFirmware,
    /// `0x06`
    SetBaudRate,
    /// `0x08`
    VerifyFirmware,
    /// `0x09`
    BootBootloader,
    /// `0x0C`
    GetRunPhase,
    /// `0x10`
    GetSerialNumber,
    /// `0x21`
    SingleTagInventory,
    /// `0x22`
    SynchronousInventory,
    /// `0x23`
    WriteTagEpc,
    /// `0x24`
    WriteTagData,
    /// `0x25`
    LockTag,
    /// `0x26`
    KillTag,
    /// `0x28`
    ReadTagData,
    /// `0x29`
    GetTagBuffer,
    /// `0x61`
    GetAntennaPorts,
    /// `0x63`
    GetCurrentTagProtocol,
    /// `0x65`
    GetFrequencyHopping,
    /// `0x66`
    GetGpi,
    /// `0x67`
    GetCurrentRegion,
    /// `0x6A`
    GetReaderConfiguration,
    /// `0x6B`
    GetProtocolConfiguration,
    /// `0x71`
    GetAvailableRegions,
    /// `0x72`
    GetCurrentTemperature,
    /// `0x91`
    SetAntennaPorts,
    /// `0x93`
    SetCurrentTagProtocol,
    /// `0x95`
    SetFrequencyHopping,
    /// `0x96`
    SetGpo,
    /// `0x97`
    SetCurrentRegion,
    /// `0x9A`
    SetReaderConfiguration,
    /// `0x9B`
    SetProtocolConfiguration,
    /// `0xAA`
    AsynchronousInventory,
}

impl CommandCode {
    /// The protocol byte of each command.
    pub open spec fn code(self) -> u8 {
        match self {
            CommandCode::WriteFlash => 0x01,
            CommandCode::ReadFlash => 0x02,
            CommandCode::GetVersion => 0x03,
            CommandCode::BootFirmware => 0x04,
            CommandCode::SetBaudRate => 0x06,
            CommandCode::VerifyFirmware => 0x08,
            CommandCode::BootBootloader => 0x09,
            CommandCode::GetRunPhase => 0x0C,
            CommandCode::GetSerialNumber => 0x10,
            CommandCode::SingleTagInventory => 0x21,
            CommandCode::SynchronousInventory => 0x22,
            CommandCode::WriteTagEpc => 0x23,
            CommandCode::WriteTagData => 0x24,
            CommandCode::LockTag => 0x25,
            CommandCode::KillTag => 0x26,
            CommandCode::ReadTagData => 0x28,
            CommandCode::GetTagBuffer => 0x29,
            CommandCode::GetAntennaPorts => 0x61,
            CommandCode::GetCurrentTagProtocol => 0x63,
            CommandCode::GetFrequencyHopping => 0x65,
            CommandCode::GetGpi => 0x66,
            CommandCode::GetCurrentRegion => 0x67,
            CommandCode::GetReaderConfiguration => 0x6A,
            CommandCode::GetProtocolConfiguration => 0x6B,
            CommandCode::GetAvailableRegions => 0x71,
            CommandCode::GetCurrentTemperature => 0x72,
            CommandCode::SetAntennaPorts => 0x91,
            CommandCode::SetCurrentTagProtocol => 0x93,
            CommandCode::SetFrequencyHopping => 0x95,
            CommandCode::SetGpo => 0x96,
            CommandCode::SetCurrentRegion => 0x97,
            CommandCode::SetReaderConfiguration => 0x9A,
            CommandCode::SetProtocolConfiguration => 0x9B,
            CommandCode::AsynchronousInventory => 0xAA,
        }
    }

    /// Return the raw 8-bit command code.
    pub fn as_u8(self) -> (r: u8)
        ensures
            r == self.code(),
    {
        match self {
            CommandCode::WriteFlash => 0x01,
            CommandCode::ReadFlash => 0x02,
            CommandCode::GetVersion => 0x03,
            CommandCode::BootFirmware => 0x04,
            CommandCode::SetBaudRate => 0x06,
            CommandCode::VerifyFirmware => 0x08,
            CommandCode::BootBootloader => 0x09,
            CommandCode::GetRunPhase => 0x0C,
            CommandCode::GetSerialNumber => 0x10,
            CommandCode::SingleTagInventory => 0x21,
            CommandCode::SynchronousInventory => 0x22,
            CommandCode::WriteTagEpc => 0x23,
            CommandCode::WriteTagData => 0x24,
            CommandCode::LockTag => 0x25,
            CommandCode::KillTag => 0x26,
            CommandCode::ReadTagData => 0x28,
            CommandCode::GetTagBuffer => 0x29,
            CommandCode::GetAntennaPorts => 0x61,
            CommandCode::GetCurrentTagProtocol => 0x63,
            CommandCode::GetFrequencyHopping => 0x65,
            CommandCode::GetGpi => 0x66,
            CommandCode::GetCurrentRegion => 0x67,
            CommandCode::GetReaderConfiguration => 0x6A,
            CommandCode::GetProtocolConfiguration => 0x6B,
            CommandCode::GetAvailableRegions => 0x71,
            CommandCode::GetCurrentTemperature => 0x72,
            CommandCode::SetAntennaPorts => 0x91,
            CommandCode::SetCurrentTagProtocol => 0x93,
            CommandCode::SetFrequencyHopping => 0x95,
            CommandCode::SetGpo => 0x96,
            CommandCode::SetCurrentRegion => 0x97,
            CommandCode::SetReaderConfiguration => 0x9A,
            CommandCode::SetProtocolConfiguration => 0x9B,
            CommandCode::AsynchronousInventory => 0xAA,
        }
    }
}

/// Region code values documented for Set/Get Current Region commands.
#[derive(Debug, Clone, Copy, PartialEq, Eq, Structural)]
pub enum RegionCode {
    /// North America (902-928 MHz), code `0x01`.
    NorthAmerica,
    /// China 1 (920-925 MHz), code `0x06`.
    China1,
    /// Europe (865-867 MHz), code `0x08`.
    Europe,
    /// China 2 (840-845 MHz), code `0x0A`.
    China2,
    /// Full Frequency Band (840-960 MHz), code `0xFF`.
    FullFrequencyBand,
}

impl RegionCode {
    /// The protocol byte of each region.
    pub open spec fn code(self) -> u8 {
        match self {
            RegionCode::NorthAmerica => 0x01,
            RegionCode::China1 => 0x06,
            RegionCode::Europe => 0x08,
            RegionCode::China2 => 0x0A,
            RegionCode::FullFrequencyBand => 0xFF,
        }
    }

    /// The region whose code is `raw`, if there is one.
    pub open spec fn decode(raw: u8) -> Option<RegionCode> {
        if exists|c: RegionCode| c.code() == raw {
            Some(choose|c: RegionCode| c.code() == raw)
        } else {
            None
        }
    }

    /// Convert a raw 8-bit region code to the documented enum if known.
    pub fn from_u8(raw: u8) -> (r: Option<RegionCode>)
        ensures
            r == RegionCode::decode(raw),
    {
        proof {
            lemma_region_code_injective();
        }
        let r = match raw {
            0x01 => Some(RegionCode::NorthAmerica),
            0x06 => Some(RegionCode::China1),
            0x08 => Some(RegionCode::Europe),
            0x0A => Some(RegionCode::China2),
            0xFF => Some(RegionCode::FullFrequencyBand),
            _ => None,
        };
        proof {
            if let Some(c) = r {
                assert(c.code() == raw);
            }
        }
        r
    }

    /// Return the raw region code byte.
    pub fn as_u8(self) -> (r: u8)
        ensures
            r == self.code(),
    {
        match self {
            RegionCode::NorthAmerica => 0x01,
            RegionCode::China1 => 0x06,
            RegionCode::Europe => 0x08,
            RegionCode::China2 => 0x0A,
            RegionCode::FullFrequencyBand => 0xFF,
        }
    }

    /// The human-readable region name.
    pub open spec fn spec_display_name(self) -> &'static str {
        match self {
            RegionCode::NorthAmerica => "North America",
            RegionCode::China1 => "China 1",
            RegionCode::Europe => "Europe",
            RegionCode::China2 => "China 2",
            RegionCode::FullFrequencyBand => "Full Frequency Band",
        }
    }

    /// Return the human-readable region name (the text the region displays as).
    pub fn display_name(self) -> (r: &'static str)
        ensures
            r == self.spec_display_name(),
    {
        match self {
            RegionCode::NorthAmerica => "North America",
            RegionCode::China1 => "China 1",
            RegionCode::Europe => "Europe",
            RegionCode::China2 => "China 2",
            RegionCode::FullFrequencyBand => "Full Frequency Band",
        }
    }
}

/// Distinct regions have distinct codes.
pub proof fn lemma_region_code_injective()
    ensures
        forall|a: RegionCode, b: RegionCode| a.code() == b.code() ==> a == b,
{
}

/// Decoding the code of a region gives the region back, and a decoded
/// region always carries the decoded byte as its code.
pub proof fn lemma_region_code_round_trip(c: RegionCode, raw: u8)
    ensures
        RegionCode::decode(c.code()) == Some(c),
        RegionCode::decode(raw) == Some(c) ==> c.code() == raw,
{
    lemma_region_code_injective();
}

/// Option values documented for Get Antenna Ports (`0x61`).
#[derive(Debug, Clone, Copy, PartialEq, Eq, Structural)]
pub enum AntennaPortsOption {
    /// `0x00`: get the single TX/RX pair used for tag access operations.
    AccessPair,
    /// `0x02`: get the TX/RX pairs used for inventory operations.
    InventoryPairs,
    /// `0x03`: get read/write power settings for each logical antenna.
    Power,
    /// `0x04`: get read/write power plus settling time for each logical antenna.
    PowerAndSettling,
    /// `0x05`: get antenna connection state bytes.
    ConnectionStates,
}

impl AntennaPortsOption {
    /// The protocol byte of each option.
    pub open spec fn code(self) -> u8 {
        match self {
            AntennaPortsOption::AccessPair => 0x00,
            AntennaPortsOption::InventoryPairs => 0x02,
            AntennaPortsOption::Power => 0x03,
            AntennaPortsOption::PowerAndSettling => 0x04,
            AntennaPortsOption::ConnectionStates => 0x05,
        }
    }

    /// The option whose code is `raw`, if there is one.
    pub open spec fn decode(raw: u8) -> Option<AntennaPortsOption> {
        if exists|c: AntennaPortsOption| c.code() == raw {
            Some(choose|c: AntennaPortsOption| c.code() == raw)
        } else {
            None
        }
    }

    /// Convert a raw 8-bit option code to the documented enum if known.
    pub fn from_u8(raw: u8) -> (r: Option<AntennaPortsOption>)
        ensures
            r == AntennaPortsOption::decode(raw),
    {
        proof {
            lemma_antenna_option_injective();
        }
        let r = match raw {
            0x00 => Some(AntennaPortsOption::AccessPair),
            0x02 => Some(AntennaPortsOption::InventoryPairs),
            0x03 => Some(AntennaPortsOption::Power),
            0x04 => Some(AntennaPortsOption::PowerAndSettling),
            0x05 => Some(AntennaPortsOption::ConnectionStates),
            _ => None,
        };
        proof {
            if let Some(c) = r {
                assert(c.code() == raw);
            }
        }
        r
    }

    /// Return the raw antenna ports option byte.
    pub fn as_u8(self) -> (r: u8)
        ensures
            r == self.code(),
    {
        match self {
            AntennaPortsOption::AccessPair => 0x00,
            AntennaPortsOption::InventoryPairs => 0x02,
            AntennaPortsOption::Power => 0x03,
            AntennaPortsOption::PowerAndSettling => 0x04,
            AntennaPortsOption::ConnectionStates => 0x05,
        }
    }
}

/// Distinct antenna options have distinct codes.
pub proof fn lemma_antenna_option_injective()
    ensures
        forall|a: AntennaPortsOption, b: AntennaPortsOption| a.code() == b.code() ==> a == b,
{
}

/// Decoding the code of an antenna option gives the option back, and a
/// decoded option always carries the decoded byte as its code.
pub proof fn lemma_antenna_option_round_trip(c: AntennaPortsOption, raw: u8)
    ensures
        AntennaPortsOption::decode(c.code()) == Some(c),
        AntennaPortsOption::decode(raw) == Some(c) ==> c.code() == raw,
{
    lemma_antenna_option_injective();
}

/// Reader status code values from the documentation.
#[derive(Debug, Clone, Copy, PartialEq, Eq, Structural)]
pub enum StatusCode {
    /// `0x0000`
    Success,
    /// `0x0100`
    DataLengthMismatch,
    /// `0x0101`
    UnavailableCommand,
    /// `0x0105`
    UnavailableParameter,
    /// `0x010A`
    UnavailableBaudRate,
    /// `0x010B`
    UnavailableRegion,
    /// `0x0200`
    AppFirmwareCrcError,
    /// `0x0302`
    FlashWriteFailed,
    /// `0x0400`
    NoTagFound,
    /// `0x0402`
    ProtocolUnavailable,
    /// `0x040A`
    GeneralTagError,
    /// `0x040B`
    ReadLengthOutOfLimit,
    /// `0x040C`
    UnavailableKillPassword,
    /// `0x0420`
    Gen2ProtocolError,
    /// `0x0423`
    MemoryOverrunBadPc,
    /// `0x0424`
    MemoryLocked,
    /// `0x042B`
    InsufficientPower,
    /// `0x042F`
    NonSpecificError,
    /// `0x0430`
    UnknownTagError,
    /// `0x0500`
    UnavailableFrequency,
    /// `0x0504`
    TemperatureOverrun,
    /// `0x0505`
    HighReturnLoss,
    /// `0x7F00`
    UnknownSeriousError,
    /// `0xFF01`
    InitTimerFlashGpioError,
    /// `0xFF02`
    OemInitFailed,
    /// `0xFF03`
    CommandInterfaceInitFailed,
    /// `0xFF04`
    MacRegisterRwInitFailed,
    /// `0xFF05`
    MacRegisterInitFailed,
    /// `0xFF06`
    R2000Arm7InterfaceInitFailed,
    /// `0xFF07`
    R2000Arm7DetectFailed1,
    /// `0xFF08`
    R2000Arm7DetectFailed2,
    /// `0xFF09`
    GpioConfigError,
    /// `0xFF0A`
    R2000RegisterInitFailed,
    /// `0xFF0B`
    EpcProtocolInitFailed,
    /// `0xFF0C`
    OemMacMappingInitFailed,
    /// `0xFF0D`
    SerialInitFailed,
    /// `0xFF0E`
    AppMainHandlerInterfaceError,
}

impl StatusCode {
    /// The protocol value of each status.
    pub open spec fn value(self) -> u16 {
        match self {
            StatusCode::Success => 0x0000,
            StatusCode::DataLengthMismatch => 0x0100,
            StatusCode::UnavailableCommand => 0x0101,
            StatusCode::UnavailableParameter => 0x0105,
            StatusCode::UnavailableBaudRate => 0x010A,
            StatusCode::UnavailableRegion => 0x010B,
            StatusCode::AppFirmwareCrcError => 0x0200,
            StatusCode::FlashWriteFailed => 0x0302,
            StatusCode::NoTagFound => 0x0400,
            StatusCode::ProtocolUnavailable => 0x0402,
            StatusCode::GeneralTagError => 0x040A,
            StatusCode::ReadLengthOutOfLimit => 0x040B,
            StatusCode::UnavailableKillPassword => 0x040C,
            StatusCode::Gen2ProtocolError => 0x0420,
            StatusCode::MemoryOverrunBadPc => 0x0423,
            StatusCode::MemoryLocked => 0x0424,
            StatusCode::InsufficientPower => 0x042B,
            StatusCode::NonSpecificError => 0x042F,
            StatusCode::UnknownTagError => 0x0430,
            StatusCode::UnavailableFrequency => 0x0500,
            StatusCode::TemperatureOverrun => 0x0504,
            StatusCode::HighReturnLoss => 0x0505,
            StatusCode::UnknownSeriousError => 0x7F00,
            StatusCode::InitTimerFlashGpioError => 0xFF01,
            StatusCode::OemInitFailed => 0xFF02,
            StatusCode::CommandInterfaceInitFailed => 0xFF03,
            StatusCode::MacRegisterRwInitFailed => 0xFF04,
            StatusCode::MacRegisterInitFailed => 0xFF05,
            StatusCode::R2000Arm7InterfaceInitFailed => 0xFF06,
            StatusCode::R2000Arm7DetectFailed1 => 0xFF07,
            StatusCode::R2000Arm7DetectFailed2 => 0xFF08,
            StatusCode::GpioConfigError => 0xFF09,
            StatusCode::R2000RegisterInitFailed => 0xFF0A,
            StatusCode::EpcProtocolInitFailed => 0xFF0B,
            StatusCode::OemMacMappingInitFailed => 0xFF0C,
            StatusCode::SerialInitFailed => 0xFF0D,
            StatusCode::AppMainHandlerInterfaceError => 0xFF0E,
        }
    }

    /// The status whose value is `raw`, if there is one.
    pub open spec fn decode(raw: u16) -> Option<StatusCode> {
        if exists|c: StatusCode| c.value() == raw {
            Some(choose|c: StatusCode| c.value() == raw)
        } else {
            None
        }
    }

    /// Convert raw 16-bit status to enum if known.
    pub fn from_u16(raw: u16) -> (r: Option<StatusCode>)
        ensures
            r == StatusCode::decode(raw),
    {
        proof {
            lemma_status_code_injective();
        }
        let r = match raw {
            0x0000 => Some(StatusCode::Success),
            0x0100 => Some(StatusCode::DataLengthMismatch),
            0x0101 => Some(StatusCode::UnavailableCommand),
            0x0105 => Some(StatusCode::UnavailableParameter),
            0x010A => Some(StatusCode::UnavailableBaudRate),
            0x010B => Some(StatusCode::UnavailableRegion),
            0x0200 => Some(StatusCode::AppFirmwareCrcError),
            0x0302 => Some(StatusCode::FlashWriteFailed),
            0x0400 => Some(StatusCode::NoTagFound),
            0x0402 => Some(StatusCode::ProtocolUnavailable),
            0x040A => Some(StatusCode::GeneralTagError),
            0x040B => Some(StatusCode::ReadLengthOutOfLimit),
            0x040C => Some(StatusCode::UnavailableKillPassword),
            0x0420 => Some(StatusCode::Gen2ProtocolError),
            0x0423 => Some(StatusCode::MemoryOverrunBadPc),
            0x0424 => Some(StatusCode::MemoryLocked),
            0x042B => Some(StatusCode::InsufficientPower),
            0x042F => Some(StatusCode::NonSpecificError),
            0x0430 => Some(StatusCode::UnknownTagError),
            0x0500 => Some(StatusCode::UnavailableFrequency),
            0x0504 => Some(StatusCode::TemperatureOverrun),
            0x0505 => Some(StatusCode::HighReturnLoss),
            0x7F00 => Some(StatusCode::UnknownSeriousError),
            0xFF01 => Some(StatusCode::InitTimerFlashGpioError),
            0xFF02 => Some(StatusCode::OemInitFailed),
            0xFF03 => Some(StatusCode::CommandInterfaceInitFailed),
            0xFF04 => Some(StatusCode::MacRegisterRwInitFailed),
            0xFF05 => Some(StatusCode::MacRegisterInitFailed),
            0xFF06 => Some(StatusCode::R2000Arm7InterfaceInitFailed),
            0xFF07 => Some(StatusCode::R2000Arm7DetectFailed1),
            0xFF08 => Some(StatusCode::R2000Arm7DetectFailed2),
            0xFF09 => Some(StatusCode::GpioConfigError),
            0xFF0A => Some(StatusCode::R2000RegisterInitFailed),
            0xFF0B => Some(StatusCode::EpcProtocolInitFailed),
            0xFF0C => Some(StatusCode::OemMacMappingInitFailed),
            0xFF0D => Some(StatusCode::SerialInitFailed),
            0xFF0E => Some(StatusCode::AppMainHandlerInterfaceError),
            _ => None,
        };
        proof {
            if let Some(c) = r {
                assert(c.value() == raw);
            }
        }
        r
    }

    /// Return the raw 16-bit status value.
    pub fn as_u16(self) -> (r: u16)
        ensures
            r == self.value(),
    {
        match self {
            StatusCode::Success => 0x0000,
            StatusCode::DataLengthMismatch => 0x0100,
            StatusCode::UnavailableCommand => 0x0101,
            StatusCode::UnavailableParameter => 0x0105,
            StatusCode::UnavailableBaudRate => 0x010A,
            StatusCode::UnavailableRegion => 0x010B,
            StatusCode::AppFirmwareCrcError => 0x0200,
            StatusCode::FlashWriteFailed => 0x0302,
            StatusCode::NoTagFound => 0x0400,
            StatusCode::ProtocolUnavailable => 0x0402,
            StatusCode::GeneralTagError => 0x040A,
            StatusCode::ReadLengthOutOfLimit => 0x040B,
            StatusCode::UnavailableKillPassword => 0x040C,
            StatusCode::Gen2ProtocolError => 0x0420,
            StatusCode::MemoryOverrunBadPc => 0x0423,
            StatusCode::MemoryLocked => 0x0424,
            StatusCode::InsufficientPower => 0x042B,
            StatusCode::NonSpecificError => 0x042F,
            StatusCode::UnknownTagError => 0x0430,
            StatusCode::UnavailableFrequency => 0x0500,
            StatusCode::TemperatureOverrun => 0x0504,
            StatusCode::HighReturnLoss => 0x0505,
            StatusCode::UnknownSeriousError => 0x7F00,
            StatusCode::InitTimerFlashGpioError => 0xFF01,
            StatusCode::OemInitFailed => 0xFF02,
            StatusCode::CommandInterfaceInitFailed => 0xFF03,
            StatusCode::MacRegisterRwInitFailed => 0xFF04,
            StatusCode::MacRegisterInitFailed => 0xFF05,
            StatusCode::R2000Arm7InterfaceInitFailed => 0xFF06,
            StatusCode::R2000Arm7DetectFailed1 => 0xFF07,
            StatusCode::R2000Arm7DetectFailed2 => 0xFF08,
            StatusCode::GpioConfigError => 0xFF09,
            StatusCode::R2000RegisterInitFailed => 0xFF0A,
            StatusCode::EpcProtocolInitFailed => 0xFF0B,
            StatusCode::OemMacMappingInitFailed => 0xFF0C,
            StatusCode::SerialInitFailed => 0xFF0D,
            StatusCode::AppMainHandlerInterfaceError => 0xFF0E,
        }
    }
}

/// Distinct statuses have distinct values.
pub proof fn lemma_status_code_injective()
    ensures
        forall|a: StatusCode, b: StatusCode| a.value() == b.value() ==> a == b,
{
}

/// Decoding the value of a status gives the status back, and a decoded
/// status always carries the decoded value.
pub proof fn lemma_status_code_round_trip(c: StatusCode, raw: u16)
    ensures
        StatusCode::decode(c.value()) == Some(c),
        StatusCode::decode(raw) == Some(c) ==> c.value() == raw,
{
    lemma_status_code_injective();
}


impl From<RegionCode> for u8 {
    fn from(value: RegionCode) -> (r: u8) {
        value.as_u8()
    }
}

impl vstd::std_specs::convert::FromSpecImpl<RegionCode> for u8 {
    open spec fn obeys_from_spec() -> bool {
        true
    }

    open spec fn from_spec(v: RegionCode) -> u8 {
        v.code()
    }
}

impl From<AntennaPortsOption> for u8 {
    fn from(value: AntennaPortsOption) -> (r: u8) {
        value.as_u8()
    }
}

impl vstd::std_specs::convert::FromSpecImpl<AntennaPortsOption> for u8 {
    open spec fn obeys_from_spec() -> bool {
        true
    }

    open spec fn from_spec(v: AntennaPortsOption) -> u8 {
        v.code()
    }
}

} // verus!
