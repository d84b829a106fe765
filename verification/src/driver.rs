//! The driver state machine.
//!
//! The driver owns the receive buffer and the last-applied configuration
//! and sequences the four operations (initialize, configure, join, send)
//! as strictly serialized command/response cycles: at most one command is
//! in flight, and each operation advances only when the host hands the
//! next decoded response back in. The host loop performs the returned
//! [`Step`] actions: it transmits wire bytes, keeps reading for one more
//! response, or surfaces the finished result.

use vstd::prelude::*;

use crate::buffer::Buffer;
use crate::encoder::encoded_spec;
use crate::parser::parse_spec;
use crate::parser::ParseModel;
use crate::types::AppEui;
use crate::types::AppsKey;
use crate::types::AppKey;
use crate::types::Command;
use crate::types::CommandModel;
use crate::types::ConfigOption;
use crate::types::ConnectMode;
use crate::types::DevAddr;
use crate::types::DevEui;
use crate::types::EventCode;
use crate::types::JoinMode;
use crate::types::LoraConfig;
use crate::types::LoraError;
use crate::types::LoraMode;
use crate::types::LoraRegion;
use crate::types::NwksKey;
use crate::types::Port;
use crate::types::QoS;
use crate::types::Response;
use crate::types::ResponseModel;
use crate::types::CMD_BUFFER_LEN;
use crate::types::RECV_BUFFER_LEN;
use crate::wire::push_bytes;
use crate::wire::CRLF;

verus! {

/// The exact bytes a command occupies on the wire: its rendering followed
/// by the line terminator.
pub open spec fn wire_of(c: CommandModel) -> Seq<u8> {
    encoded_spec(c) + CRLF@
}

/// The event code that confirms an uplink of the given class.
pub open spec fn expected_event(q: QoS) -> EventCode {
    match q {
        QoS::Unconfirmed => EventCode::TxUnconfirmed,
        QoS::Confirmed => EventCode::TxConfirmed,
    }
}

/// The `i`-th configuration command of a join, in the fixed order the
/// module requires.
pub open spec fn join_option(mode: JoinMode, i: int) -> ConfigOption {
    match mode {
        JoinMode::OTAA { dev_eui, app_eui, app_key } => if i == 0 {
            ConfigOption::DevEui(dev_eui)
        } else if i == 1 {
            ConfigOption::AppEui(app_eui)
        } else {
            ConfigOption::AppKey(app_key)
        },
        JoinMode::ABP { nwks_key, apps_key, dev_addr } => if i == 0 {
            ConfigOption::DevAddr(dev_addr)
        } else if i == 1 {
            ConfigOption::AppsKey(apps_key)
        } else {
            ConfigOption::NwksKey(nwks_key)
        },
    }
}

/// The connect mode a join mode asks for.
pub open spec fn connect_of(mode: JoinMode) -> ConnectMode {
    match mode {
        JoinMode::OTAA { .. } => ConnectMode::OTAA,
        JoinMode::ABP { .. } => ConnectMode::ABP,
    }
}

/// Where the driver stands inside its current operation.
#[derive(Clone, Copy, Debug)]
pub enum OpState {
    /// No operation in flight.
    Idle,
    /// Waiting for the initialization banner after a reset.
    Initializing,
    /// A band command is out; `mode` still waits its turn.
    ConfiguringRegion { region: LoraRegion, mode: Option<LoraMode> },
    /// A mode command is out.
    ConfiguringMode { mode: LoraMode },
    /// The `idx`-th join configuration command is out.
    JoiningConfig { mode: JoinMode, idx: u8 },
    /// The join command itself is out.
    JoiningJoin { connect: ConnectMode },
    /// Waiting for the asynchronous join event.
    JoiningEvent,
    /// A send command is out.
    SendingCommand { qos: QoS },
    /// Waiting for the asynchronous transmission event.
    SendingEvent { qos: QoS },
}

/// What the host loop must do next.
#[derive(Debug)]
pub enum Step {
    /// Write these bytes to the transport, then read until a response
    /// decodes and hand it back in.
    Transmit(Vec<u8>),
    /// Read until one more response decodes and hand it back in.
    Await,
    /// The operation finished successfully.
    Done,
    /// The operation failed with this error.
    Failed(LoraError),
}

/// Mathematical model of a [`Step`].
pub ghost enum StepModel {
    Transmit(Seq<u8>),
    Await,
    Done,
    Failed(LoraError),
}

impl View for Step {
    type V = StepModel;

    open spec fn view(&self) -> StepModel {
        match self {
            Step::Transmit(v) => StepModel::Transmit(v@),
            Step::Await => StepModel::Await,
            Step::Done => StepModel::Done,
            Step::Failed(e) => StepModel::Failed(*e),
        }
    }
}

/// Mathematical model of the driver: buffered bytes, applied
/// configuration, operation state.
pub ghost struct DriverModel {
    pub buffer: Seq<u8>,
    pub config: LoraConfig,
    pub op: OpState,
}

/// The transition the driver makes when a decoded response arrives while
/// the operation `d.op` is in flight.
pub open spec fn handle_spec(d: DriverModel, r: ResponseModel) -> (DriverModel, StepModel) {
    match d.op {
        OpState::Idle => (d, StepModel::Failed(LoraError::OtherError)),
        OpState::Initializing => match r {
            ResponseModel::Initialized(region) => (
                DriverModel {
                    config: LoraConfig { region: Some(region), ..d.config },
                    op: OpState::Idle,
                    ..d
                },
                StepModel::Done,
            ),
            _ => (
                DriverModel { op: OpState::Idle, ..d },
                StepModel::Failed(LoraError::NotInitialized),
            ),
        },
        OpState::ConfiguringRegion { region, mode } => match r {
            ResponseModel::Ack => {
                let c1 = LoraConfig { region: Some(region), ..d.config };
                match mode {
                    Some(m) => if c1.lora_mode != Some(m) {
                        (
                            DriverModel { config: c1, op: OpState::ConfiguringMode { mode: m }, ..d },
                            StepModel::Transmit(wire_of(CommandModel::SetMode(m))),
                        )
                    } else {
                        (DriverModel { config: c1, op: OpState::Idle, ..d }, StepModel::Done)
                    },
                    None => (DriverModel { config: c1, op: OpState::Idle, ..d }, StepModel::Done),
                }
            },
            _ => (
                DriverModel { op: OpState::Idle, ..d },
                StepModel::Failed(LoraError::OtherError),
            ),
        },
        OpState::ConfiguringMode { mode } => match r {
            ResponseModel::Ack => (
                DriverModel {
                    config: LoraConfig { lora_mode: Some(mode), ..d.config },
                    op: OpState::Idle,
                    ..d
                },
                StepModel::Done,
            ),
            _ => (
                DriverModel { op: OpState::Idle, ..d },
                StepModel::Failed(LoraError::OtherError),
            ),
        },
        OpState::JoiningConfig { mode, idx } => match r {
            ResponseModel::Ack => if idx < 2 {
                (
                    DriverModel {
                        op: OpState::JoiningConfig { mode, idx: (idx + 1) as u8 },
                        ..d
                    },
                    StepModel::Transmit(
                        wire_of(CommandModel::SetConfig(join_option(mode, idx + 1))),
                    ),
                )
            } else {
                (
                    DriverModel { op: OpState::JoiningJoin { connect: connect_of(mode) }, ..d },
                    StepModel::Transmit(wire_of(CommandModel::Join(connect_of(mode)))),
                )
            },
            _ => (
                DriverModel { op: OpState::Idle, ..d },
                StepModel::Failed(LoraError::OtherError),
            ),
        },
        OpState::JoiningJoin { connect } => match r {
            ResponseModel::Ack => (DriverModel { op: OpState::JoiningEvent, ..d }, StepModel::Await),
            _ => (
                DriverModel { op: OpState::Idle, ..d },
                StepModel::Failed(LoraError::OtherError),
            ),
        },
        OpState::JoiningEvent => match r {
            ResponseModel::Recv(EventCode::JoinedSuccess, _, _, _) => (
                DriverModel { op: OpState::Idle, ..d },
                StepModel::Done,
            ),
            _ => (
                DriverModel { op: OpState::Idle, ..d },
                StepModel::Failed(LoraError::OtherError),
            ),
        },
        OpState::SendingCommand { qos } => match r {
            ResponseModel::Ack => (
                DriverModel { op: OpState::SendingEvent { qos }, ..d },
                StepModel::Await,
            ),
            _ => (
                DriverModel { op: OpState::Idle, ..d },
                StepModel::Failed(LoraError::OtherError),
            ),
        },
        OpState::SendingEvent { qos } => match r {
            ResponseModel::Recv(c, p, _, _) => if c == expected_event(qos) && p == 0 {
                (DriverModel { op: OpState::Idle, ..d }, StepModel::Done)
            } else {
                (
                    DriverModel { op: OpState::Idle, ..d },
                    StepModel::Failed(LoraError::OtherError),
                )
            },
            _ => (
                DriverModel { op: OpState::Idle, ..d },
                StepModel::Failed(LoraError::OtherError),
            ),
        },
    }
}

/// The transition made when a configure operation starts: the mode step
/// alone, for when no band command is needed.
pub open spec fn start_mode_spec(d: DriverModel, cfg: LoraConfig) -> (DriverModel, StepModel) {
    match cfg.lora_mode {
        Some(m) => if d.config.lora_mode != Some(m) {
            (
                DriverModel { op: OpState::ConfiguringMode { mode: m }, ..d },
                StepModel::Transmit(wire_of(CommandModel::SetMode(m))),
            )
        } else {
            (d, StepModel::Done)
        },
        None => (d, StepModel::Done),
    }
}

/// The transition made when a configure operation starts: a command goes
/// out only for a field that is present and differs from the applied
/// value.
pub open spec fn start_configure_spec(d: DriverModel, cfg: LoraConfig) -> (DriverModel, StepModel) {
    match cfg.region {
        Some(region) => if d.config.region != Some(region) {
            (
                DriverModel {
                    op: OpState::ConfiguringRegion { region, mode: cfg.lora_mode },
                    ..d
                },
                StepModel::Transmit(wire_of(CommandModel::SetBand(region))),
            )
        } else {
            start_mode_spec(d, cfg)
        },
        None => start_mode_spec(d, cfg),
    }
}

/// The transition made when a join starts: the first configuration
/// command goes out.
pub open spec fn start_join_spec(d: DriverModel, mode: JoinMode) -> (DriverModel, StepModel) {
    (
        DriverModel { op: OpState::JoiningConfig { mode, idx: 0 }, ..d },
        StepModel::Transmit(wire_of(CommandModel::SetConfig(join_option(mode, 0)))),
    )
}

/// The transition made when a send starts: the send command goes out, or
/// the operation fails at once when the rendered command cannot fit the
/// command buffer.
pub open spec fn start_send_spec(d: DriverModel, qos: QoS, port: u8, data: Seq<u8>) -> (
    DriverModel,
    StepModel,
) {
    let c = CommandModel::Send(qos, port, data);
    if encoded_spec(c).len() <= CMD_BUFFER_LEN {
        (
            DriverModel { op: OpState::SendingCommand { qos }, ..d },
            StepModel::Transmit(wire_of(c)),
        )
    } else {
        (d, StepModel::Failed(LoraError::EncodeError))
    }
}

/// The driver: receive buffer, applied configuration, operation state.
pub struct Rak811Driver {
    parse_buffer: Buffer,
    config: LoraConfig,
    op: OpState,
}

impl View for Rak811Driver {
    type V = DriverModel;

    closed spec fn view(&self) -> DriverModel {
        DriverModel { buffer: self.parse_buffer@, config: self.config, op: self.op }
    }
}

/// Render the wire bytes of `cmd`: its encoding plus the terminator.
fn render_wire(cmd: &Command) -> (r: Result<Vec<u8>, LoraError>)
    ensures
        encoded_spec(cmd@).len() <= CMD_BUFFER_LEN ==> (r matches Ok(v) && v@ == wire_of(cmd@)),
        encoded_spec(cmd@).len() > CMD_BUFFER_LEN ==> (r matches Err(e) && e
            == LoraError::EncodeError),
{
    let mut out = Command::buffer();
    match cmd.encode(&mut out) {
        Ok(()) => {
            push_bytes(&mut out, &CRLF);
            Ok(out)
        },
        Err(e) => Err(e),
    }
}

/// Render a command that is known to fit the command buffer.
fn render_wire_small(cmd: &Command) -> (r: Vec<u8>)
    requires
        !(cmd@ matches CommandModel::Send(_, _, _)),
    ensures
        r@ == wire_of(cmd@),
{
    proof {
        crate::encoder::lemma_encoded_len_non_send(cmd@);
    }
    match render_wire(cmd) {
        Ok(v) => v,
        Err(_) => {
            proof {
                assert(false);
            }
            Vec::new()
        },
    }
}

/// Whether an optional mode equals the given mode.
fn mode_is(a: Option<LoraMode>, b: LoraMode) -> (r: bool)
    ensures
        r == (a == Some(b)),
{
    match a {
        Some(x) => x == b,
        None => false,
    }
}

/// Whether an optional region equals the given region.
fn region_is(a: Option<LoraRegion>, b: LoraRegion) -> (r: bool)
    ensures
        r == (a == Some(b)),
{
    match a {
        Some(x) => x == b,
        None => false,
    }
}

/// A mismatched response terminates the operation with `OtherError`.
pub fn log_unexpected(r: Response) -> (res: Result<(), LoraError>)
    ensures
        res matches Err(e) && e == LoraError::OtherError,
{
    match r {
        _ => Err(LoraError::OtherError),
    }
}

impl Rak811Driver {
    /// A fresh driver with an empty buffer, no applied configuration and
    /// no operation in flight.
    pub fn new() -> (d: Rak811Driver)
        ensures
            d@.buffer == Seq::<u8>::empty(),
            d@.config == (LoraConfig { region: None, lora_mode: None }),
            d@.op is Idle,
    {
        Rak811Driver { parse_buffer: Buffer::new(), config: LoraConfig::new(), op: OpState::Idle }
    }

    /// The configuration applied so far.
    pub fn current_config(&self) -> (r: LoraConfig)
        ensures
            r == self@.config,
    {
        self.config
    }

    /// Begin an initialize operation: the host must pulse the reset line,
    /// then read; the first decoded response must be the banner.
    pub fn start_initialize(&mut self)
        ensures
            final(self)@ == (DriverModel { op: OpState::Initializing, ..old(self)@ }),
    {
        self.op = OpState::Initializing;
    }

    /// Feed one transport byte into the receive buffer.
    pub fn process_byte(&mut self, b: u8) -> (r: Result<(), LoraError>)
        ensures
            final(self)@.config == old(self)@.config && final(self)@.op == old(self)@.op,
            old(self)@.buffer.len() < RECV_BUFFER_LEN ==> (r matches Ok(())
                && final(self)@.buffer == old(self)@.buffer.push(b)),
            old(self)@.buffer.len() >= RECV_BUFFER_LEN ==> (r matches Err(e) && e
                == LoraError::RecvError && final(self)@.buffer == old(self)@.buffer),
    {
        match self.parse_buffer.write(b) {
            Ok(()) => Ok(()),
            Err(_) => Err(LoraError::RecvError),
        }
    }

    /// Attempt to decode one buffered response. `None` stands both for
    /// "nothing complete yet" and for a malformed unit discarded as
    /// noise; the reading loop keeps going either way.
    pub fn try_parse(&mut self) -> (r: Option<Response>)
        ensures
            final(self)@.config == old(self)@.config && final(self)@.op == old(self)@.op,
            parse_spec(old(self)@.buffer) matches ParseModel::Incomplete ==> (r is None
                && final(self)@.buffer == old(self)@.buffer),
            parse_spec(old(self)@.buffer) matches ParseModel::Decoded(m, n) ==> (r
                matches Some(resp) && resp@ == m
                && final(self)@.buffer == old(self)@.buffer.skip(n)),
            parse_spec(old(self)@.buffer) matches ParseModel::Failed(n) ==> (r is None
                && final(self)@.buffer == old(self)@.buffer.skip(n)),
    {
        proof {
            crate::parser::lemma_decoded_not_noresp(old(self)@.buffer);
        }
        match self.parse_buffer.parse() {
            Ok(resp) => match resp {
                Response::NoResponse => None,
                other => Some(other),
            },
            Err(_) => None,
        }
    }

    /// Begin a configure operation. A command goes out only for a field
    /// that is present in `config` and differs from the applied value;
    /// equal or absent fields are left untouched.
    pub fn start_configure(&mut self, config: &LoraConfig) -> (s: Step)
        ensures
            ({
                let (d2, sm) = start_configure_spec(old(self)@, *config);
                final(self)@ == d2 && s@ == sm
            }),
    {
        if let Some(region) = config.region {
            if !region_is(self.config.region, region) {
                let wire = render_wire_small(&Command::SetBand(region));
                self.op = OpState::ConfiguringRegion { region, mode: config.lora_mode };
                return Step::Transmit(wire);
            }
        }
        if let Some(m) = config.lora_mode {
            if !mode_is(self.config.lora_mode, m) {
                let wire = render_wire_small(&Command::SetMode(m));
                self.op = OpState::ConfiguringMode { mode: m };
                return Step::Transmit(wire);
            }
        }
        Step::Done
    }

    /// Begin a join operation: the first of the three fixed-order
    /// configuration commands goes out.
    pub fn start_join(&mut self, mode: JoinMode) -> (s: Step)
        ensures
            ({
                let (d2, sm) = start_join_spec(old(self)@, mode);
                final(self)@ == d2 && s@ == sm
            }),
    {
        let opt = match mode {
            JoinMode::OTAA { dev_eui, app_eui: _, app_key: _ } => ConfigOption::DevEui(dev_eui),
            JoinMode::ABP { nwks_key: _, apps_key: _, dev_addr } => ConfigOption::DevAddr(dev_addr),
        };
        let wire = render_wire_small(&Command::SetConfig(opt));
        self.op = OpState::JoiningConfig { mode, idx: 0 };
        Step::Transmit(wire)
    }

    /// Begin a send operation: the send command goes out, or the
    /// operation fails at once when the rendered command cannot fit the
    /// command buffer.
    pub fn start_send(&mut self, qos: QoS, port: Port, data: Vec<u8>) -> (s: Step)
        ensures
            ({
                let (d2, sm) = start_send_spec(old(self)@, qos, port, data@);
                final(self)@ == d2 && s@ == sm
            }),
    {
        let cmd = Command::Send(qos, port, data);
        match render_wire(&cmd) {
            Ok(wire) => {
                self.op = OpState::SendingCommand { qos };
                Step::Transmit(wire)
            },
            Err(e) => Step::Failed(e),
        }
    }

    /// Advance the operation in flight with one decoded response.
    pub fn handle_response(&mut self, r: Response) -> (s: Step)
        ensures
            ({
                let (d2, sm) = handle_spec(old(self)@, r@);
                final(self)@ == d2 && s@ == sm
            }),
    {
        let op = self.op;
        match op {
            OpState::Idle => Step::Failed(LoraError::OtherError),
            OpState::Initializing => {
                self.op = OpState::Idle;
                match r {
                    Response::Initialized(region) => {
                        self.config.region = Some(region);
                        Step::Done
                    },
                    _ => Step::Failed(LoraError::NotInitialized),
                }
            },
            OpState::ConfiguringRegion { region, mode } => {
                self.op = OpState::Idle;
                match r {
                    Response::Ack => {
                        self.config.region = Some(region);
                        match mode {
                            Some(m) => {
                                if !mode_is(self.config.lora_mode, m) {
                                    let wire = render_wire_small(&Command::SetMode(m));
                                    self.op = OpState::ConfiguringMode { mode: m };
                                    Step::Transmit(wire)
                                } else {
                                    Step::Done
                                }
                            },
                            None => Step::Done,
                        }
                    },
                    _ => Step::Failed(LoraError::OtherError),
                }
            },
            OpState::ConfiguringMode { mode } => {
                self.op = OpState::Idle;
                match r {
                    Response::Ack => {
                        self.config.lora_mode = Some(mode);
                        Step::Done
                    },
                    _ => Step::Failed(LoraError::OtherError),
                }
            },
            OpState::JoiningConfig { mode, idx } => match r {
                Response::Ack => {
                    if idx < 2 {
                        let next = idx + 1;
                        let opt = match mode {
                            JoinMode::OTAA { dev_eui: _, app_eui, app_key } => {
                                if next == 1 {
                                    ConfigOption::AppEui(app_eui)
                                } else {
                                    ConfigOption::AppKey(app_key)
                                }
                            },
                            JoinMode::ABP { nwks_key, apps_key, dev_addr: _ } => {
                                if next == 1 {
                                    ConfigOption::AppsKey(apps_key)
                                } else {
                                    ConfigOption::NwksKey(nwks_key)
                                }
                            },
                        };
                        let wire = render_wire_small(&Command::SetConfig(opt));
                        self.op = OpState::JoiningConfig { mode, idx: next };
                        Step::Transmit(wire)
                    } else {
                        let connect = match mode {
                            JoinMode::OTAA { .. } => ConnectMode::OTAA,
                            JoinMode::ABP { .. } => ConnectMode::ABP,
                        };
                        let wire = render_wire_small(&Command::Join(connect));
                        self.op = OpState::JoiningJoin { connect };
                        Step::Transmit(wire)
                    }
                },
                _ => {
                    self.op = OpState::Idle;
                    match log_unexpected(r) {
                        Err(e) => Step::Failed(e),
                        Ok(_) => {
                            proof {
                                assert(false);
                            }
                            Step::Done
                        },
                    }
                },
            },
            OpState::JoiningJoin { connect: _ } => match r {
                Response::Ack => {
                    self.op = OpState::JoiningEvent;
                    Step::Await
                },
                _ => {
                    self.op = OpState::Idle;
                    match log_unexpected(r) {
                        Err(e) => Step::Failed(e),
                        Ok(_) => {
                            proof {
                                assert(false);
                            }
                            Step::Done
                        },
                    }
                },
            },
            OpState::JoiningEvent => {
                self.op = OpState::Idle;
                match r {
                    Response::Recv(EventCode::JoinedSuccess, _, _, _) => Step::Done,
                    _ => match log_unexpected(r) {
                        Err(e) => Step::Failed(e),
                        Ok(_) => {
                            proof {
                                assert(false);
                            }
                            Step::Done
                        },
                    },
                }
            },
            OpState::SendingCommand { qos } => match r {
                Response::Ack => {
                    self.op = OpState::SendingEvent { qos };
                    Step::Await
                },
                _ => {
                    self.op = OpState::Idle;
                    match log_unexpected(r) {
                        Err(e) => Step::Failed(e),
                        Ok(_) => {
                            proof {
                                assert(false);
                            }
                            Step::Done
                        },
                    }
                },
            },
            OpState::SendingEvent { qos } => {
                self.op = OpState::Idle;
                let confirmed = match &r {
                    Response::Recv(c, p, _, _) => {
                        let expected = match qos {
                            QoS::Unconfirmed => EventCode::TxUnconfirmed,
                            QoS::Confirmed => EventCode::TxConfirmed,
                        };
                        *c == expected && *p == 0
                    },
                    _ => false,
                };
                if confirmed {
                    Step::Done
                } else {
                    match log_unexpected(r) {
                        Err(e) => Step::Failed(e),
                        Ok(_) => {
                            proof {
                                assert(false);
                            }
                            Step::Done
                        },
                    }
                }
            },
        }
    }
}


/// Outcome of running an operation against a sequence of decoded
/// responses: the final driver, every transmission made, and the last
/// step.
pub ghost struct RunModel {
    pub d: DriverModel,
    pub sent: Seq<Seq<u8>>,
    pub last: StepModel,
}

/// The wire transmissions one step causes.
pub open spec fn step_sent(s: StepModel) -> Seq<Seq<u8>> {
    match s {
        StepModel::Transmit(b) => seq![b],
        _ => Seq::empty(),
    }
}

/// Feed decoded responses in one at a time until the operation finishes
/// or the responses run out, collecting every transmission on the way.
pub open spec fn run_spec(d: DriverModel, step: StepModel, rs: Seq<ResponseModel>) -> RunModel
    decreases rs.len(),
{
    if rs.len() == 0 || !(step is Transmit || step is Await) {
        RunModel { d, sent: Seq::empty(), last: step }
    } else {
        let (d1, s1) = handle_spec(d, rs[0]);
        let rec = run_spec(d1, s1, rs.skip(1));
        RunModel { d: rec.d, sent: step_sent(s1) + rec.sent, last: rec.last }
    }
}

/// A configuration with the requested fields written over the applied
/// ones; absent fields keep their applied value.
pub open spec fn merged_config(c: LoraConfig, cfg: LoraConfig) -> LoraConfig {
    LoraConfig {
        region: if cfg.region is Some {
            cfg.region
        } else {
            c.region
        },
        lora_mode: if cfg.lora_mode is Some {
            cfg.lora_mode
        } else {
            c.lora_mode
        },
    }
}

/// A configure run that is acknowledged throughout finishes successfully
/// and leaves exactly the requested fields applied.
pub proof fn lemma_configure_applies(d: DriverModel, cfg: LoraConfig, rs: Seq<ResponseModel>)
    requires
        d.op is Idle,
        rs.len() == 2,
        rs[0] is Ack,
        rs[1] is Ack,
    ensures
        ({
            let (d0, s0) = start_configure_spec(d, cfg);
            let r = run_spec(d0, s0, rs);
            &&& r.last is Done
            &&& r.d.config == merged_config(d.config, cfg)
            &&& r.d.op is Idle
            &&& r.d.buffer == d.buffer
        }),
{
    let (d0, s0) = start_configure_spec(d, cfg);
    let rs1 = rs.skip(1);
    assert(rs1.len() == 1 && rs1[0] == rs[1]);
    let rs2 = rs1.skip(1);
    assert(rs2.len() == 0);
    if s0 is Transmit {
        let (d1, s1) = handle_spec(d0, rs[0]);
        let r1 = run_spec(d1, s1, rs1);
        assert(run_spec(d0, s0, rs) == RunModel {
            d: r1.d,
            sent: step_sent(s1) + r1.sent,
            last: r1.last,
        });
        if s1 is Transmit {
            let (d2, s2) = handle_spec(d1, rs1[0]);
            let r2 = run_spec(d2, s2, rs2);
            assert(r1 == RunModel { d: r2.d, sent: step_sent(s2) + r2.sent, last: r2.last });
        }
    }
}

/// Configure is idempotent: after a configure run acknowledged
/// throughout, starting the same configure again issues no wire command
/// and finishes at once.
pub proof fn lemma_configure_idempotent(d: DriverModel, cfg: LoraConfig, rs: Seq<ResponseModel>)
    requires
        d.op is Idle,
        rs.len() == 2,
        rs[0] is Ack,
        rs[1] is Ack,
    ensures
        ({
            let (d0, s0) = start_configure_spec(d, cfg);
            let r = run_spec(d0, s0, rs);
            start_configure_spec(r.d, cfg) == (r.d, StepModel::Done)
        }),
{
    lemma_configure_applies(d, cfg, rs);
}

/// An OTAA join issues exactly the three configuration commands in the
/// fixed order (device EUI, application EUI, application key) and then
/// one join command, and succeeds if and only if all four are
/// acknowledged and the one further event is a join success.
pub proof fn lemma_join_otaa(
    d: DriverModel,
    dev_eui: DevEui,
    app_eui: AppEui,
    app_key: AppKey,
    rs: Seq<ResponseModel>,
)
    requires
        d.op is Idle,
        rs.len() == 5,
    ensures
        ({
            let mode = JoinMode::OTAA { dev_eui, app_eui, app_key };
            let (d0, s0) = start_join_spec(d, mode);
            let r = run_spec(d0, s0, rs);
            let sent = step_sent(s0) + r.sent;
            &&& (r.last is Done <==> (rs[0] is Ack && rs[1] is Ack && rs[2] is Ack && rs[3] is Ack
                && rs[4] matches ResponseModel::Recv(EventCode::JoinedSuccess, _, _, _)))
            &&& (r.last is Done ==> sent =~= seq![
                wire_of(CommandModel::SetConfig(ConfigOption::DevEui(dev_eui))),
                wire_of(CommandModel::SetConfig(ConfigOption::AppEui(app_eui))),
                wire_of(CommandModel::SetConfig(ConfigOption::AppKey(app_key))),
                wire_of(CommandModel::Join(ConnectMode::OTAA)),
            ])
        }),
{
    let mode = JoinMode::OTAA { dev_eui, app_eui, app_key };
    let (d0, s0) = start_join_spec(d, mode);
    let rs1 = rs.skip(1);
    let rs2 = rs1.skip(1);
    let rs3 = rs2.skip(1);
    let rs4 = rs3.skip(1);
    let rs5 = rs4.skip(1);
    assert(rs1.len() == 4 && rs1[0] == rs[1]);
    assert(rs2.len() == 3 && rs2[0] == rs[2]);
    assert(rs3.len() == 2 && rs3[0] == rs[3]);
    assert(rs4.len() == 1 && rs4[0] == rs[4]);
    assert(rs5.len() == 0);
    let (d1, s1) = handle_spec(d0, rs[0]);
    let r1 = run_spec(d1, s1, rs1);
    assert(run_spec(d0, s0, rs) == RunModel {
        d: r1.d,
        sent: step_sent(s1) + r1.sent,
        last: r1.last,
    });
    if rs[0] is Ack {
        let (d2, s2) = handle_spec(d1, rs1[0]);
        let r2 = run_spec(d2, s2, rs2);
        assert(r1 == RunModel { d: r2.d, sent: step_sent(s2) + r2.sent, last: r2.last });
        if rs[1] is Ack {
            let (d3, s3) = handle_spec(d2, rs2[0]);
            let r3 = run_spec(d3, s3, rs3);
            assert(r2 == RunModel { d: r3.d, sent: step_sent(s3) + r3.sent, last: r3.last });
            if rs[2] is Ack {
                let (d4, s4) = handle_spec(d3, rs3[0]);
                let r4 = run_spec(d4, s4, rs4);
                assert(r3 == RunModel { d: r4.d, sent: step_sent(s4) + r4.sent, last: r4.last });
                if rs[3] is Ack {
                    let (d5, s5) = handle_spec(d4, rs4[0]);
                    let r5 = run_spec(d5, s5, rs5);
                    assert(r4 == RunModel {
                        d: r5.d,
                        sent: step_sent(s5) + r5.sent,
                        last: r5.last,
                    });
                    assert(r5 == RunModel { d: d5, sent: Seq::empty(), last: s5 });
                }
            }
        }
    }
}

/// An ABP join issues exactly the three configuration commands in the
/// fixed order (device address, application session key, network session
/// key) and then one join command, and succeeds if and only if all four
/// are acknowledged and the one further event is a join success.
pub proof fn lemma_join_abp(
    d: DriverModel,
    nwks_key: NwksKey,
    apps_key: AppsKey,
    dev_addr: DevAddr,
    rs: Seq<ResponseModel>,
)
    requires
        d.op is Idle,
        rs.len() == 5,
    ensures
        ({
            let mode = JoinMode::ABP { nwks_key, apps_key, dev_addr };
            let (d0, s0) = start_join_spec(d, mode);
            let r = run_spec(d0, s0, rs);
            let sent = step_sent(s0) + r.sent;
            &&& (r.last is Done <==> (rs[0] is Ack && rs[1] is Ack && rs[2] is Ack && rs[3] is Ack
                && rs[4] matches ResponseModel::Recv(EventCode::JoinedSuccess, _, _, _)))
            &&& (r.last is Done ==> sent =~= seq![
                wire_of(CommandModel::SetConfig(ConfigOption::DevAddr(dev_addr))),
                wire_of(CommandModel::SetConfig(ConfigOption::AppsKey(apps_key))),
                wire_of(CommandModel::SetConfig(ConfigOption::NwksKey(nwks_key))),
                wire_of(CommandModel::Join(ConnectMode::ABP)),
            ])
        }),
{
    let mode = JoinMode::ABP { nwks_key, apps_key, dev_addr };
    let (d0, s0) = start_join_spec(d, mode);
    let rs1 = rs.skip(1);
    let rs2 = rs1.skip(1);
    let rs3 = rs2.skip(1);
    let rs4 = rs3.skip(1);
    let rs5 = rs4.skip(1);
    assert(rs1.len() == 4 && rs1[0] == rs[1]);
    assert(rs2.len() == 3 && rs2[0] == rs[2]);
    assert(rs3.len() == 2 && rs3[0] == rs[3]);
    assert(rs4.len() == 1 && rs4[0] == rs[4]);
    assert(rs5.len() == 0);
    let (d1, s1) = handle_spec(d0, rs[0]);
    let r1 = run_spec(d1, s1, rs1);
    assert(run_spec(d0, s0, rs) == RunModel {
        d: r1.d,
        sent: step_sent(s1) + r1.sent,
        last: r1.last,
    });
    if rs[0] is Ack {
        let (d2, s2) = handle_spec(d1, rs1[0]);
        let r2 = run_spec(d2, s2, rs2);
        assert(r1 == RunModel { d: r2.d, sent: step_sent(s2) + r2.sent, last: r2.last });
        if rs[1] is Ack {
            let (d3, s3) = handle_spec(d2, rs2[0]);
            let r3 = run_spec(d3, s3, rs3);
            assert(r2 == RunModel { d: r3.d, sent: step_sent(s3) + r3.sent, last: r3.last });
            if rs[2] is Ack {
                let (d4, s4) = handle_spec(d3, rs3[0]);
                let r4 = run_spec(d4, s4, rs4);
                assert(r3 == RunModel { d: r4.d, sent: step_sent(s4) + r4.sent, last: r4.last });
                if rs[3] is Ack {
                    let (d5, s5) = handle_spec(d4, rs4[0]);
                    let r5 = run_spec(d5, s5, rs5);
                    assert(r4 == RunModel {
                        d: r5.d,
                        sent: step_sent(s5) + r5.sent,
                        last: r5.last,
                    });
                    assert(r5 == RunModel { d: d5, sent: Seq::empty(), last: s5 });
                }
            }
        }
    }
}

/// A send issues exactly one send command, and succeeds if and only if
/// the command is acknowledged and the one further event confirms the
/// requested class on port zero.
pub proof fn lemma_send_outcome(
    d: DriverModel,
    qos: QoS,
    port: u8,
    data: Seq<u8>,
    rs: Seq<ResponseModel>,
)
    requires
        d.op is Idle,
        rs.len() == 2,
        encoded_spec(CommandModel::Send(qos, port, data)).len() <= CMD_BUFFER_LEN,
    ensures
        ({
            let (d0, s0) = start_send_spec(d, qos, port, data);
            let r = run_spec(d0, s0, rs);
            &&& s0 == StepModel::Transmit(wire_of(CommandModel::Send(qos, port, data)))
            &&& (r.last is Done <==> (rs[0] is Ack && (rs[1] matches ResponseModel::Recv(c, p, _, _)
                && c == expected_event(qos) && p == 0)))
            &&& step_sent(s0) + r.sent =~= seq![wire_of(CommandModel::Send(qos, port, data))]
        }),
{
    let (d0, s0) = start_send_spec(d, qos, port, data);
    let rs1 = rs.skip(1);
    let rs2 = rs1.skip(1);
    assert(rs1.len() == 1 && rs1[0] == rs[1]);
    assert(rs2.len() == 0);
    let (d1, s1) = handle_spec(d0, rs[0]);
    let r1 = run_spec(d1, s1, rs1);
    assert(run_spec(d0, s0, rs) == RunModel {
        d: r1.d,
        sent: step_sent(s1) + r1.sent,
        last: r1.last,
    });
    if rs[0] is Ack {
        let (d2, s2) = handle_spec(d1, rs1[0]);
        let r2 = run_spec(d2, s2, rs2);
        assert(r1 == RunModel { d: r2.d, sent: step_sent(s2) + r2.sent, last: r2.last });
        assert(r2 == RunModel { d: d2, sent: Seq::empty(), last: s2 });
    }
}

} // verus!
