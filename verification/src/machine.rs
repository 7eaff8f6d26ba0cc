//! The polling state machine: folds classified events into the status
//! record and decides which outbound command, if any, follows each event.

use crate::at::{ConnectionModel, ConnectionType, GSMConnectionInfo, LTEConnectionInfo, ModemState,
    ModemStateModel, CMEError, COPSMode};
use crate::classify::{Event, EventModel};
use vstd::prelude::*;

verus! {

/// An outbound command of the polling cycle.
#[derive(Clone, Copy, PartialEq, Eq, Structural, Debug)]
pub enum Command {
    At,
    CopsQuery,
    PlmnQuery,
    HcsqQuery,
}

/// The exact bytes written to the transport for a command, terminator
/// included.
pub open spec fn command_text(c: Command) -> Seq<char> {
    match c {
        Command::At => "AT\r\n"@,
        Command::CopsQuery => "AT+COPS?\r\n"@,
        Command::PlmnQuery => "AT^PLMN?\r\n"@,
        Command::HcsqQuery => "AT^HCSQ?\r\n"@,
    }
}

/// How long the driver settles before writing a command, in milliseconds.
/// Only the operator query after the initial acknowledgment needs a pause.
pub open spec fn command_delay_ms(c: Command) -> int {
    match c {
        Command::CopsQuery => 1000,
        _ => 0,
    }
}

impl Command {
    pub fn to_line(&self) -> (r: &'static str)
        ensures
            r@ == command_text(*self),
    {
        match self {
            Command::At => "AT\r\n",
            Command::CopsQuery => "AT+COPS?\r\n",
            Command::PlmnQuery => "AT^PLMN?\r\n",
            Command::HcsqQuery => "AT^HCSQ?\r\n",
        }
    }

    pub fn delay_before_ms(&self) -> (r: u64)
        ensures
            r == command_delay_ms(*self),
    {
        match self {
            Command::CopsQuery => 1000,
            _ => 0,
        }
    }
}

/// The command that opens the polling cycle.
pub fn initial_command() -> (c: Command)
    ensures
        c == Command::At,
{
    Command::At
}

/// The record after one event: operator fields from an operator report,
/// country and network codes from a PLMN report, the error code from an
/// error report, the legacy RSSI sample from a simple report, and the whole
/// connection replaced by a quality report. Everything else is kept.
pub open spec fn apply_spec(m: ModemStateModel, e: EventModel) -> ModemStateModel {
    match e {
        EventModel::Acknowledged => m,
        EventModel::PlmnReport { mcc, mnc } => ModemStateModel {
            mcc: Some(mcc),
            mnc: Some(mnc),
            ..m
        },
        EventModel::ErrorReport { code } => ModemStateModel { cme_error: Some(code), ..m },
        EventModel::OperatorReport { mode, name } => ModemStateModel {
            operator_mode: Some(mode),
            operator_name: Some(name),
            ..m
        },
        EventModel::SimpleRssi { value } => ModemStateModel { rssi: Some(value), ..m },
        EventModel::LteQuality { rssi, rsrp, sinr, rsrq } => ModemStateModel {
            connection_type: Some(ConnectionModel::LTE { rssi, rsrp, rsrq, sinr }),
            ..m
        },
        EventModel::GsmQuality { rssi } => ModemStateModel {
            connection_type: Some(ConnectionModel::GSM { rssi }),
            ..m
        },
        EventModel::Unrecognized => m,
    }
}

/// The command that follows an event: the acknowledgment of `AT` asks for
/// the operator, an operator report asks for the PLMN codes, a PLMN report
/// asks for connection quality; every other event asks for nothing.
pub open spec fn command_for(e: EventModel) -> Option<Command> {
    match e {
        EventModel::Acknowledged => Some(Command::CopsQuery),
        EventModel::OperatorReport { mode, name } => Some(Command::PlmnQuery),
        EventModel::PlmnReport { mcc, mnc } => Some(Command::HcsqQuery),
        _ => None,
    }
}

/// Folds one classified event into the record and returns the command to
/// send next, if the cycle asks for one.
pub fn apply_event(state: &mut ModemState, e: &Event) -> (cmd: Option<Command>)
    ensures
        final(state)@ == apply_spec(old(state)@, e@),
        cmd == command_for(e@),
        old(state).wf() && e.wf() ==> final(state).wf(),
{
    match e {
        Event::Acknowledged => Some(Command::CopsQuery),
        Event::PlmnReport { mcc, mnc } => {
            state.mcc = Some(*mcc);
            state.mnc = Some(*mnc);
            Some(Command::HcsqQuery)
        },
        Event::ErrorReport { code } => {
            state.cme_error = Some(CMEError::new(*code));
            None
        },
        Event::OperatorReport { mode, name } => {
            state.operator_mode = Some(COPSMode::new(*mode));
            state.operator_name = Some(name.clone());
            Some(Command::PlmnQuery)
        },
        Event::SimpleRssi { value } => {
            state.rssi = Some(*value);
            None
        },
        Event::LteQuality(l) => {
            state.connection_type = Some(ConnectionType::LTE(*l));
            None
        },
        Event::GsmQuality(g) => {
            state.connection_type = Some(ConnectionType::GSM(*g));
            None
        },
        Event::Unrecognized => None,
    }
}

/// Once learned, a field is never unset again: whatever event arrives, a
/// field that was set stays set. The connection report is the one field
/// that is replaced whole rather than merged.
pub proof fn lemma_fields_never_cleared(m: ModemStateModel, e: EventModel)
    ensures
        m.mcc is Some ==> apply_spec(m, e).mcc is Some,
        m.mnc is Some ==> apply_spec(m, e).mnc is Some,
        m.operator_name is Some ==> apply_spec(m, e).operator_name is Some,
        m.rssi is Some ==> apply_spec(m, e).rssi is Some,
        m.cme_error is Some ==> apply_spec(m, e).cme_error is Some,
        m.operator_mode is Some ==> apply_spec(m, e).operator_mode is Some,
        m.connection_type is Some ==> apply_spec(m, e).connection_type is Some,
{
}

} // verus!
