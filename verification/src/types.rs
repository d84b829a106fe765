//! Data model of the AT protocol: regions, modes, commands, responses,
//! configuration records and the error taxonomy.

use vstd::prelude::*;

verus! {

/// Capacity of the receive buffer in bytes.
pub const RECV_BUFFER_LEN: usize = 256;

/// Capacity of the text buffer a command is rendered into, in bytes.
pub const CMD_BUFFER_LEN: usize = 256;

/// Port number of an uplink or downlink message.
pub type Port = u8;

/// Device EUI used for OTAA.
pub type DevEui = [u8; 8];

/// Application EUI used for OTAA.
pub type AppEui = [u8; 8];

/// Application key used for OTAA.
pub type AppKey = [u8; 16];

/// Device address used for ABP.
pub type DevAddr = [u8; 4];

/// Network session key used for ABP.
pub type NwksKey = [u8; 16];

/// Application session key used for ABP.
pub type AppsKey = [u8; 16];

/// Supported LoRaWAN region plans.
#[derive(Clone, Copy, Debug, PartialEq, Eq, Structural)]
pub enum LoraRegion {
    EU868,
    US915,
    AU915,
    KR920,
    AS923,
    IN865,
}

impl LoraRegion {
    /// The numeric code under which the module announces this region in its
    /// initialization banner.
    pub open spec fn code_spec(self) -> nat {
        match self {
            LoraRegion::EU868 => 0,
            LoraRegion::US915 => 1,
            LoraRegion::AU915 => 2,
            LoraRegion::KR920 => 3,
            LoraRegion::AS923 => 4,
            LoraRegion::IN865 => 5,
        }
    }

    /// The region a numeric banner code stands for, if any.
    pub open spec fn from_code_spec(code: nat) -> Option<LoraRegion> {
        if code == 0 {
            Some(LoraRegion::EU868)
        } else if code == 1 {
            Some(LoraRegion::US915)
        } else if code == 2 {
            Some(LoraRegion::AU915)
        } else if code == 3 {
            Some(LoraRegion::KR920)
        } else if code == 4 {
            Some(LoraRegion::AS923)
        } else if code == 5 {
            Some(LoraRegion::IN865)
        } else {
            None
        }
    }

    /// Numeric banner code of this region.
    pub fn code(self) -> (r: u8)
        ensures
            r as nat == self.code_spec(),
    {
        match self {
            LoraRegion::EU868 => 0,
            LoraRegion::US915 => 1,
            LoraRegion::AU915 => 2,
            LoraRegion::KR920 => 3,
            LoraRegion::AS923 => 4,
            LoraRegion::IN865 => 5,
        }
    }

    /// Look a region up by its numeric banner code.
    pub fn from_code(code: u32) -> (r: Option<LoraRegion>)
        ensures
            r == LoraRegion::from_code_spec(code as nat),
    {
        if code == 0 {
            Some(LoraRegion::EU868)
        } else if code == 1 {
            Some(LoraRegion::US915)
        } else if code == 2 {
            Some(LoraRegion::AU915)
        } else if code == 3 {
            Some(LoraRegion::KR920)
        } else if code == 4 {
            Some(LoraRegion::AS923)
        } else if code == 5 {
            Some(LoraRegion::IN865)
        } else {
            None
        }
    }
}

/// Operating mode of the radio: LoRaWAN or point-to-point.
#[derive(Clone, Copy, Debug, PartialEq, Eq, Structural)]
pub enum LoraMode {
    WAN,
    P2P,
}

/// How a network is joined: over-the-air activation or activation by
/// personalization.
#[derive(Clone, Copy, Debug, PartialEq, Eq, Structural)]
pub enum ConnectMode {
    OTAA,
    ABP,
}

/// Whether an uplink asks for a network-level acknowledgement.
#[derive(Clone, Copy, Debug, PartialEq, Eq, Structural)]
pub enum QoS {
    Unconfirmed,
    Confirmed,
}

/// Asynchronous event notification codes the module may report.
#[derive(Clone, Copy, Debug, PartialEq, Eq, Structural)]
pub enum EventCode {
    RecvData,
    TxConfirmed,
    TxUnconfirmed,
    JoinedSuccess,
    JoinedFailed,
    TxTimeout,
    Rx2Timeout,
}

impl EventCode {
    /// The event an event-notification code stands for, if any.
    pub open spec fn from_code_spec(code: nat) -> Option<EventCode> {
        if code == 0 {
            Some(EventCode::RecvData)
        } else if code == 1 {
            Some(EventCode::TxConfirmed)
        } else if code == 2 {
            Some(EventCode::TxUnconfirmed)
        } else if code == 3 {
            Some(EventCode::JoinedSuccess)
        } else if code == 4 {
            Some(EventCode::JoinedFailed)
        } else if code == 5 {
            Some(EventCode::TxTimeout)
        } else if code == 6 {
            Some(EventCode::Rx2Timeout)
        } else {
            None
        }
    }

    /// Look an event up by its numeric notification code.
    pub fn from_code(code: u32) -> (r: Option<EventCode>)
        ensures
            r == EventCode::from_code_spec(code as nat),
    {
        if code == 0 {
            Some(EventCode::RecvData)
        } else if code == 1 {
            Some(EventCode::TxConfirmed)
        } else if code == 2 {
            Some(EventCode::TxUnconfirmed)
        } else if code == 3 {
            Some(EventCode::JoinedSuccess)
        } else if code == 4 {
            Some(EventCode::JoinedFailed)
        } else if code == 5 {
            Some(EventCode::TxTimeout)
        } else if code == 6 {
            Some(EventCode::Rx2Timeout)
        } else {
            None
        }
    }
}

/// Errors an operation of the driver can end in.
#[derive(Clone, Copy, Debug, PartialEq, Eq, Structural)]
pub enum LoraError {
    /// The first decoded response after reset was not the initialization
    /// banner.
    NotInitialized,
    /// The transport failed while receiving, or the receive buffer
    /// overflowed.
    RecvError,
    /// The transport failed while sending.
    SendError,
    /// A response did not match the expected acknowledgement or event.
    OtherError,
    /// The receive buffer is full.
    BufferFull,
    /// A rendered command would not fit the command buffer.
    EncodeError,
}

/// The applied (or requested) configuration: region and mode, each unset
/// until first configured or discovered.
#[derive(Clone, Copy, Debug, PartialEq, Eq)]
pub struct LoraConfig {
    /// The region plan, if known.
    pub region: Option<LoraRegion>,
    /// The operating mode, if known.
    pub lora_mode: Option<LoraMode>,
}

impl LoraConfig {
    /// An empty configuration with neither field set.
    pub fn new() -> (r: LoraConfig)
        ensures
            r == (LoraConfig { region: None, lora_mode: None }),
    {
        LoraConfig { region: None, lora_mode: None }
    }

    /// This configuration with the region set to `region`.
    pub fn region(self, region: LoraRegion) -> (r: LoraConfig)
        ensures
            r == (LoraConfig { region: Some(region), ..self }),
    {
        LoraConfig { region: Some(region), ..self }
    }

    /// This configuration with the mode set to `lora_mode`.
    pub fn lora_mode(self, lora_mode: LoraMode) -> (r: LoraConfig)
        ensures
            r == (LoraConfig { lora_mode: Some(lora_mode), ..self }),
    {
        LoraConfig { lora_mode: Some(lora_mode), ..self }
    }
}

/// Credentials for joining a network.
#[derive(Clone, Copy, Debug)]
pub enum JoinMode {
    OTAA { dev_eui: DevEui, app_eui: AppEui, app_key: AppKey },
    ABP { nwks_key: NwksKey, apps_key: AppsKey, dev_addr: DevAddr },
}

/// A binary parameter of a `set_config` command.
#[derive(Clone, Copy, Debug)]
pub enum ConfigOption {
    DevEui(DevEui),
    AppEui(AppEui),
    AppKey(AppKey),
    DevAddr(DevAddr),
    AppsKey(AppsKey),
    NwksKey(NwksKey),
}

/// An outbound request to the module.
#[derive(Clone, Debug)]
pub enum Command {
    SetBand(LoraRegion),
    SetMode(LoraMode),
    SetConfig(ConfigOption),
    Join(ConnectMode),
    Send(QoS, Port, Vec<u8>),
}

/// Mathematical model of a [`Command`]: the payload of `Send` is a byte
/// sequence.
pub ghost enum CommandModel {
    SetBand(LoraRegion),
    SetMode(LoraMode),
    SetConfig(ConfigOption),
    Join(ConnectMode),
    Send(QoS, u8, Seq<u8>),
}

impl View for Command {
    type V = CommandModel;

    open spec fn view(&self) -> CommandModel {
        match self {
            Command::SetBand(r) => CommandModel::SetBand(*r),
            Command::SetMode(m) => CommandModel::SetMode(*m),
            Command::SetConfig(o) => CommandModel::SetConfig(*o),
            Command::Join(c) => CommandModel::Join(*c),
            Command::Send(q, p, d) => CommandModel::Send(*q, *p, d@),
        }
    }
}

/// An inbound result decoded from the module.
#[derive(Clone, Debug, PartialEq, Eq)]
pub enum Response {
    /// No complete response is buffered yet: a buffering signal, not an
    /// error.
    NoResponse,
    /// The acknowledgement token.
    Ack,
    /// The module's error token, with its numeric code.
    Error(i16),
    /// The initialization banner, carrying the active region.
    Initialized(LoraRegion),
    /// An event notification: event code, port, declared payload length,
    /// payload bytes.
    Recv(EventCode, Port, usize, Vec<u8>),
}

/// Mathematical model of a [`Response`]: the payload of `Recv` is a byte
/// sequence.
pub ghost enum ResponseModel {
    NoResponse,
    Ack,
    Error(int),
    Initialized(LoraRegion),
    Recv(EventCode, u8, nat, Seq<u8>),
}

impl View for Response {
    type V = ResponseModel;

    open spec fn view(&self) -> ResponseModel {
        match self {
            Response::NoResponse => ResponseModel::NoResponse,
            Response::Ack => ResponseModel::Ack,
            Response::Error(c) => ResponseModel::Error(*c as int),
            Response::Initialized(r) => ResponseModel::Initialized(*r),
            Response::Recv(e, p, n, d) => ResponseModel::Recv(*e, *p, *n as nat, d@),
        }
    }
}

} // verus!
