//! Rendering of [`Command`] values into the textual wire format.
//!
//! Each command maps to a fixed opcode followed by its parameters; binary
//! parameters are rendered as uppercase hex. The encoder renders into a
//! bounded text buffer and fails with [`LoraError::EncodeError`] if the
//! rendered command would not fit; it does not append the line terminator.

use vstd::prelude::*;

use crate::hex::hex_of;
use crate::hex::push_hex_arr;
use crate::hex::push_hex_vec;
use crate::types::Command;
use crate::types::CommandModel;
use crate::types::ConfigOption;
use crate::types::ConnectMode;
use crate::types::LoraError;
use crate::types::LoraMode;
use crate::types::LoraRegion;
use crate::types::QoS;
use crate::types::CMD_BUFFER_LEN;
use crate::wire::dec_of;
use crate::wire::push_bytes;
use crate::wire::COLON;
use crate::wire::COMMA;
use crate::wire::TOK_ABP;
use crate::wire::TOK_APPS_KEY;
use crate::wire::TOK_APP_EUI;
use crate::wire::TOK_APP_KEY;
use crate::wire::TOK_AS923;
use crate::wire::TOK_AT_BAND;
use crate::wire::TOK_AT_JOIN;
use crate::wire::TOK_AT_MODE;
use crate::wire::TOK_AT_SEND;
use crate::wire::TOK_AT_SET_CONFIG;
use crate::wire::TOK_AU915;
use crate::wire::TOK_DEV_ADDR;
use crate::wire::TOK_DEV_EUI;
use crate::wire::TOK_EU868;
use crate::wire::TOK_IN865;
use crate::wire::TOK_KR920;
use crate::wire::TOK_NWKS_KEY;
use crate::wire::TOK_OTAA;
use crate::wire::TOK_US915;

verus! {

/// The wire name of a region, as used by the band command.
pub open spec fn region_tok(r: LoraRegion) -> Seq<u8> {
    match r {
        LoraRegion::EU868 => TOK_EU868@,
        LoraRegion::US915 => TOK_US915@,
        LoraRegion::AU915 => TOK_AU915@,
        LoraRegion::KR920 => TOK_KR920@,
        LoraRegion::AS923 => TOK_AS923@,
        LoraRegion::IN865 => TOK_IN865@,
    }
}

/// The wire digit of an operating mode.
pub open spec fn mode_tok(m: LoraMode) -> Seq<u8> {
    match m {
        LoraMode::WAN => seq![48u8],
        LoraMode::P2P => seq![49u8],
    }
}

/// The wire name of a connect mode.
pub open spec fn connect_tok(c: ConnectMode) -> Seq<u8> {
    match c {
        ConnectMode::OTAA => TOK_OTAA@,
        ConnectMode::ABP => TOK_ABP@,
    }
}

/// The wire digit of a quality-of-service class.
pub open spec fn qos_tok(q: QoS) -> Seq<u8> {
    match q {
        QoS::Unconfirmed => seq![48u8],
        QoS::Confirmed => seq![49u8],
    }
}

/// The wire key of a configuration option.
pub open spec fn config_key_tok(o: ConfigOption) -> Seq<u8> {
    match o {
        ConfigOption::DevEui(_) => TOK_DEV_EUI@,
        ConfigOption::AppEui(_) => TOK_APP_EUI@,
        ConfigOption::AppKey(_) => TOK_APP_KEY@,
        ConfigOption::DevAddr(_) => TOK_DEV_ADDR@,
        ConfigOption::AppsKey(_) => TOK_APPS_KEY@,
        ConfigOption::NwksKey(_) => TOK_NWKS_KEY@,
    }
}

/// The binary value of a configuration option.
pub open spec fn config_val(o: ConfigOption) -> Seq<u8> {
    match o {
        ConfigOption::DevEui(v) => v@,
        ConfigOption::AppEui(v) => v@,
        ConfigOption::AppKey(v) => v@,
        ConfigOption::DevAddr(v) => v@,
        ConfigOption::AppsKey(v) => v@,
        ConfigOption::NwksKey(v) => v@,
    }
}

/// The exact wire bytes of a command, not yet terminated.
pub open spec fn encoded_spec(c: CommandModel) -> Seq<u8> {
    match c {
        CommandModel::SetBand(r) => TOK_AT_BAND@ + region_tok(r),
        CommandModel::SetMode(m) => TOK_AT_MODE@ + mode_tok(m),
        CommandModel::SetConfig(o) => TOK_AT_SET_CONFIG@ + config_key_tok(o) + seq![COLON]
            + hex_of(config_val(o)),
        CommandModel::Join(cm) => TOK_AT_JOIN@ + connect_tok(cm),
        CommandModel::Send(q, p, d) => TOK_AT_SEND@ + qos_tok(q) + seq![COMMA] + dec_of(p as int)
            + seq![COMMA] + hex_of(d),
    }
}

/// Every command but a send renders to at most 63 bytes, so it always
/// fits the command buffer.
pub proof fn lemma_encoded_len_non_send(c: CommandModel)
    requires
        !(c matches CommandModel::Send(_, _, _)),
    ensures
        encoded_spec(c).len() <= 63,
{
    match c {
        CommandModel::SetBand(r) => {
        },
        CommandModel::SetMode(m) => {
        },
        CommandModel::SetConfig(o) => {
            crate::hex::lemma_hex_len(config_val(o));
        },
        CommandModel::Join(cm) => {
        },
        CommandModel::Send(q, p, d) => {
        },
    }
}

/// Append the decimal rendering of a port number.
pub fn push_dec_u8(out: &mut Vec<u8>, p: u8)
    ensures
        final(out)@ == old(out)@ + dec_of(p as int),
{
    if p < 10 {
        out.push(48 + p);
        proof {
            assert(dec_of(p as int) == seq![(48 + p as int) as u8]);
            assert(final(out)@ =~= old(out)@ + dec_of(p as int));
        }
    } else if p < 100 {
        out.push(48 + p / 10);
        out.push(48 + p % 10);
        proof {
            let n = p as int;
            assert(dec_of(n) == dec_of(n / 10) + seq![(48 + n % 10) as u8]);
            assert(n / 10 < 10);
            assert(dec_of(n / 10) == seq![(48 + n / 10) as u8]);
            assert(48 + p / 10 == (48 + n / 10) as u8);
            assert(48 + p % 10 == (48 + n % 10) as u8);
            assert(final(out)@ =~= old(out)@ + dec_of(p as int));
        }
    } else {
        let q = p / 10;
        out.push(48 + q / 10);
        out.push(48 + q % 10);
        out.push(48 + p % 10);
        proof {
            let n = p as int;
            let m = q as int;
            assert(m == n / 10);
            assert(10 <= m < 26);
            assert(dec_of(n) == dec_of(m) + seq![(48 + n % 10) as u8]);
            assert(dec_of(m) == dec_of(m / 10) + seq![(48 + m % 10) as u8]);
            assert(m / 10 < 10);
            assert(dec_of(m / 10) == seq![(48 + m / 10) as u8]);
            assert(48 + q / 10 == (48 + m / 10) as u8);
            assert(48 + q % 10 == (48 + m % 10) as u8);
            assert(48 + p % 10 == (48 + n % 10) as u8);
            assert(final(out)@ =~= old(out)@ + dec_of(p as int));
        }
    }
}

/// Append the exact wire bytes of `cmd`, with no capacity bound.
fn render(cmd: &Command, out: &mut Vec<u8>)
    ensures
        final(out)@ == old(out)@ + encoded_spec(cmd@),
{
    match cmd {
        Command::SetBand(r) => {
            push_bytes(out, &TOK_AT_BAND);
            match r {
                LoraRegion::EU868 => push_bytes(out, &TOK_EU868),
                LoraRegion::US915 => push_bytes(out, &TOK_US915),
                LoraRegion::AU915 => push_bytes(out, &TOK_AU915),
                LoraRegion::KR920 => push_bytes(out, &TOK_KR920),
                LoraRegion::AS923 => push_bytes(out, &TOK_AS923),
                LoraRegion::IN865 => push_bytes(out, &TOK_IN865),
            }
            proof {
                assert(final(out)@ =~= old(out)@ + encoded_spec(cmd@));
            }
        },
        Command::SetMode(m) => {
            push_bytes(out, &TOK_AT_MODE);
            match m {
                LoraMode::WAN => out.push(48),
                LoraMode::P2P => out.push(49),
            }
            proof {
                assert(final(out)@ =~= old(out)@ + encoded_spec(cmd@));
            }
        },
        Command::SetConfig(o) => {
            push_bytes(out, &TOK_AT_SET_CONFIG);
            match o {
                ConfigOption::DevEui(v) => {
                    push_bytes(out, &TOK_DEV_EUI);
                    out.push(COLON);
                    push_hex_arr(out, v);
                },
                ConfigOption::AppEui(v) => {
                    push_bytes(out, &TOK_APP_EUI);
                    out.push(COLON);
                    push_hex_arr(out, v);
                },
                ConfigOption::AppKey(v) => {
                    push_bytes(out, &TOK_APP_KEY);
                    out.push(COLON);
                    push_hex_arr(out, v);
                },
                ConfigOption::DevAddr(v) => {
                    push_bytes(out, &TOK_DEV_ADDR);
                    out.push(COLON);
                    push_hex_arr(out, v);
                },
                ConfigOption::AppsKey(v) => {
                    push_bytes(out, &TOK_APPS_KEY);
                    out.push(COLON);
                    push_hex_arr(out, v);
                },
                ConfigOption::NwksKey(v) => {
                    push_bytes(out, &TOK_NWKS_KEY);
                    out.push(COLON);
                    push_hex_arr(out, v);
                },
            }
            proof {
                assert(final(out)@ =~= old(out)@ + encoded_spec(cmd@));
            }
        },
        Command::Join(cm) => {
            push_bytes(out, &TOK_AT_JOIN);
            match cm {
                ConnectMode::OTAA => push_bytes(out, &TOK_OTAA),
                ConnectMode::ABP => push_bytes(out, &TOK_ABP),
            }
            proof {
                assert(final(out)@ =~= old(out)@ + encoded_spec(cmd@));
            }
        },
        Command::Send(q, p, d) => {
            push_bytes(out, &TOK_AT_SEND);
            match q {
                QoS::Unconfirmed => out.push(48),
                QoS::Confirmed => out.push(49),
            }
            out.push(COMMA);
            push_dec_u8(out, *p);
            out.push(COMMA);
            push_hex_vec(out, d);
            proof {
                assert(final(out)@ =~= old(out)@ + encoded_spec(cmd@));
            }
        },
    }
}

impl Command {
    /// A fresh, empty render buffer for a command.
    pub fn buffer() -> (r: Vec<u8>)
        ensures
            r@ == Seq::<u8>::empty(),
    {
        Vec::new()
    }

    /// Render this command into `out`, failing without touching `out` if
    /// the rendered text would push `out` past the command buffer
    /// capacity.
    pub fn encode(&self, out: &mut Vec<u8>) -> (r: Result<(), LoraError>)
        ensures
            old(out)@.len() + encoded_spec(self@).len() <= CMD_BUFFER_LEN ==> (r
                matches Ok(()) && final(out)@ == old(out)@ + encoded_spec(self@)),
            old(out)@.len() + encoded_spec(self@).len() > CMD_BUFFER_LEN ==> (r
                matches Err(LoraError::EncodeError) && final(out)@ == old(out)@),
    {
        let mut text: Vec<u8> = Vec::new();
        render(self, &mut text);
        if out.len() > CMD_BUFFER_LEN || text.len() > CMD_BUFFER_LEN - out.len() {
            return Err(LoraError::EncodeError);
        }
        let n = text.len();
        let mut i: usize = 0;
        while i < n
            invariant
                i <= n == text@.len(),
                out@ == old(out)@ + text@.take(i as int),
            decreases n - i,
        {
            out.push(text[i]);
            proof {
                assert(text@.take(i + 1) =~= text@.take(i as int) + seq![text@[i as int]]);
            }
            i = i + 1;
        }
        proof {
            assert(text@.take(n as int) =~= text@);
        }
        Ok(())
    }
}

} // verus!
