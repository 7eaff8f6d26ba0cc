//! The status record and the field decoders: the accumulated modem state and
//! the pure functions that turn raw field codes into human-readable text.

use crate::text::{i64_to_string, int_chars};
use vstd::prelude::*;

verus! {

/// Operator-selection mode as reported by `+COPS`.
#[derive(Clone, Copy)]
pub struct COPSMode(i64);

/// Modem-reported error code from `+CME ERROR`.
#[derive(Clone, Copy)]
pub struct CMEError(i64);

impl View for COPSMode {
    type V = int;

    closed spec fn view(&self) -> int {
        self.0 as int
    }
}

impl View for CMEError {
    type V = int;

    closed spec fn view(&self) -> int {
        self.0 as int
    }
}

/// Description of an operator-selection mode code.
pub open spec fn cops_mode_desc(code: int) -> Seq<char> {
    if code == 0 {
        "automatic"@
    } else if code == 1 {
        "manual"@
    } else if code == 2 {
        "deregister from network"@
    } else {
        "unknown"@
    }
}

impl COPSMode {
    pub fn new(code: i64) -> (m: COPSMode)
        ensures
            m@ == code as int,
    {
        COPSMode(code)
    }

    pub fn to_str(&self) -> (r: &'static str)
        ensures
            r@ == cops_mode_desc(self@),
    {
        match self.0 {
            0 => "automatic",
            1 => "manual",
            2 => "deregister from network",
            _ => "unknown",
        }
    }
}

/// Description of a modem error code: the fixed phone/SIM/network/parameter
/// table, with a catch-all for unmapped codes.
pub open spec fn cme_error_desc(code: int) -> Seq<char> {
    if code == 0 {
        "phone failure"@
    } else if code == 1 {
        "no connection to phone"@
    } else if code == 2 {
        "phone adaptor link reserved"@
    } else if code == 3 {
        "operation not allowed"@
    } else if code == 4 {
        "operation not supported"@
    } else if code == 5 {
        "PH-SIM PIN required"@
    } else if code == 6 {
        "PH-FSIM PIN required"@
    } else if code == 7 {
        "PH-FSIM PUK required"@
    } else if code == 10 {
        "SIM not inserted"@
    } else if code == 11 {
        "SIM PIN required"@
    } else if code == 12 {
        "SIM PUK required"@
    } else if code == 13 {
        "SIM failure"@
    } else if code == 14 {
        "SIM busy"@
    } else if code == 15 {
        "SIM wrong"@
    } else if code == 30 {
        "no network service"@
    } else if code == 31 {
        "network timeout"@
    } else if code == 32 {
        "network not allowed - emergency calls only"@
    } else if code == 50 {
        "Incorrect parameters"@
    } else {
        "(unknown error)"@
    }
}

impl CMEError {
    pub fn new(code: i64) -> (e: CMEError)
        ensures
            e@ == code as int,
    {
        CMEError(code)
    }

    pub fn to_str(&self) -> (r: &'static str)
        ensures
            r@ == cme_error_desc(self@),
    {
        match self.0 {
            0 => "phone failure",
            1 => "no connection to phone",
            2 => "phone adaptor link reserved",
            3 => "operation not allowed",
            4 => "operation not supported",
            5 => "PH-SIM PIN required",
            6 => "PH-FSIM PIN required",
            7 => "PH-FSIM PUK required",
            10 => "SIM not inserted",
            11 => "SIM PIN required",
            12 => "SIM PUK required",
            13 => "SIM failure",
            14 => "SIM busy",
            15 => "SIM wrong",
            30 => "no network service",
            31 => "network timeout",
            32 => "network not allowed - emergency calls only",
            50 => "Incorrect parameters",
            _ => "(unknown error)",
        }
    }
}

/// LTE connection-quality sample, raw field codes as reported by `^HCSQ`.
#[derive(Clone, Copy)]
pub struct LTEConnectionInfo {
    pub rssi: i64,
    pub rsrp: i64,
    pub rsrq: i64,
    pub sinr: i64,
}

/// GSM connection-quality sample, raw RSSI as reported by `^HCSQ`.
#[derive(Clone, Copy)]
pub struct GSMConnectionInfo {
    pub rssi: i64,
}

/// The connection-quality report last received, tagged by radio technology.
#[derive(Clone, Copy)]
pub enum ConnectionType {
    GSM(GSMConnectionInfo),
    LTE(LTEConnectionInfo),
}

/// Mathematical model of a connection-quality report.
pub enum ConnectionModel {
    GSM { rssi: int },
    LTE { rssi: int, rsrp: int, rsrq: int, sinr: int },
}

impl View for ConnectionType {
    type V = ConnectionModel;

    open spec fn view(&self) -> ConnectionModel {
        match self {
            ConnectionType::GSM(g) => ConnectionModel::GSM { rssi: g.rssi as int },
            ConnectionType::LTE(l) => ConnectionModel::LTE {
                rssi: l.rssi as int,
                rsrp: l.rsrp as int,
                rsrq: l.rsrq as int,
                sinr: l.sinr as int,
            },
        }
    }
}

/// The accumulated modem status: every field starts unset and is only ever
/// overwritten, never cleared; `connection_type` is replaced whole on each
/// new quality report.
#[derive(Clone)]
pub struct ModemState {
    pub mcc: Option<i64>,
    pub mnc: Option<i64>,
    pub operator_name: Option<String>,
    pub rssi: Option<i64>,
    pub cme_error: Option<CMEError>,
    pub operator_mode: Option<COPSMode>,
    pub connection_type: Option<ConnectionType>,
}

/// Mathematical model of a status record.
pub struct ModemStateModel {
    pub mcc: Option<int>,
    pub mnc: Option<int>,
    pub operator_name: Option<Seq<char>>,
    pub rssi: Option<int>,
    pub cme_error: Option<int>,
    pub operator_mode: Option<int>,
    pub connection_type: Option<ConnectionModel>,
}

impl View for ModemState {
    type V = ModemStateModel;

    open spec fn view(&self) -> ModemStateModel {
        ModemStateModel {
            mcc: match self.mcc {
                Some(v) => Some(v as int),
                None => None,
            },
            mnc: match self.mnc {
                Some(v) => Some(v as int),
                None => None,
            },
            operator_name: match self.operator_name {
                Some(ref s) => Some(s@),
                None => None,
            },
            rssi: match self.rssi {
                Some(v) => Some(v as int),
                None => None,
            },
            cme_error: match self.cme_error {
                Some(ref e) => Some(e@),
                None => None,
            },
            operator_mode: match self.operator_mode {
                Some(ref m) => Some(m@),
                None => None,
            },
            connection_type: match self.connection_type {
                Some(ref c) => Some(c@),
                None => None,
            },
        }
    }
}

/// The model of a record with every field unset.
pub open spec fn empty_state() -> ModemStateModel {
    ModemStateModel {
        mcc: None,
        mnc: None,
        operator_name: None,
        rssi: None,
        cme_error: None,
        operator_mode: None,
        connection_type: None,
    }
}

/// Text for a raw LTE RSSI sample: `255` is the unknown sentinel, any other
/// sample is `raw - 120` dBm.
pub open spec fn lte_rssi_desc(raw: int) -> Seq<char> {
    if raw == 255 {
        "unknown"@
    } else {
        int_chars(raw - 120) + " dBm"@
    }
}

/// Text for a raw LTE RSRP sample: `255` is the unknown sentinel, any other
/// sample is `raw - 140` dBm.
pub open spec fn lte_rsrp_desc(raw: int) -> Seq<char> {
    if raw == 255 {
        "unknown"@
    } else {
        int_chars(raw - 140) + " dBm"@
    }
}

/// Text for one LTE quality sample, in the reporting order
/// rssi, rsrq, rsrp, sinr.
pub open spec fn lte_conn_desc(rssi: int, rsrp: int, rsrq: int, sinr: int) -> Seq<char> {
    "rssi="@ + lte_rssi_desc(rssi) + ", rsrq="@ + int_chars(rsrq) + ", rsrp="@ + lte_rsrp_desc(
        rsrp,
    ) + ", sinr="@ + int_chars(sinr)
}

/// Text for one GSM quality sample.
pub open spec fn gsm_conn_desc(rssi: int) -> Seq<char> {
    "rssi="@ + int_chars(rssi)
}

impl LTEConnectionInfo {
    /// Raw samples are nonnegative codes; only those can be rendered.
    pub open spec fn wf(&self) -> bool {
        self.rssi >= 0 && self.rsrp >= 0 && self.rsrq >= 0 && self.sinr >= 0
    }

    pub fn rssi_dbm(&self) -> (r: String)
        requires
            self.rssi >= 0,
        ensures
            r@ == lte_rssi_desc(self.rssi as int),
    {
        if self.rssi == 255 {
            String::from_str("unknown")
        } else {
            let mut s = i64_to_string(-120 + self.rssi);
            s.append(" dBm");
            s
        }
    }

    /// The dBm conversion reads the RSRP sample itself; it does not borrow
    /// the RSSI sample's value.
    pub fn rsrp_dbm(&self) -> (r: String)
        requires
            self.rsrp >= 0,
        ensures
            r@ == lte_rsrp_desc(self.rsrp as int),
    {
        if self.rsrp == 255 {
            String::from_str("unknown")
        } else {
            let mut s = i64_to_string(-140 + self.rsrp);
            s.append(" dBm");
            s
        }
    }

    /// Full text of the sample, for embedding into a status line.
    pub fn describe(&self) -> (r: String)
        requires
            self.wf(),
        ensures
            r@ == lte_conn_desc(self.rssi as int, self.rsrp as int, self.rsrq as int,
                self.sinr as int),
    {
        let mut s = String::from_str("rssi=");
        let rssi = self.rssi_dbm();
        s.append(rssi.as_str());
        s.append(", rsrq=");
        let rsrq = i64_to_string(self.rsrq);
        s.append(rsrq.as_str());
        s.append(", rsrp=");
        let rsrp = self.rsrp_dbm();
        s.append(rsrp.as_str());
        s.append(", sinr=");
        let sinr = i64_to_string(self.sinr);
        s.append(sinr.as_str());
        proof {
            assert(s@ =~= lte_conn_desc(self.rssi as int, self.rsrp as int, self.rsrq as int,
                self.sinr as int));
        }
        s
    }
}

impl GSMConnectionInfo {
    pub open spec fn wf(&self) -> bool {
        self.rssi >= 0
    }

    /// Full text of the sample, for embedding into a status line.
    pub fn describe(&self) -> (r: String)
        requires
            self.wf(),
        ensures
            r@ == gsm_conn_desc(self.rssi as int),
    {
        let mut s = String::from_str("rssi=");
        let rssi = i64_to_string(self.rssi);
        s.append(rssi.as_str());
        s
    }
}

impl ConnectionType {
    pub open spec fn wf(&self) -> bool {
        match self {
            ConnectionType::GSM(g) => g.wf(),
            ConnectionType::LTE(l) => l.wf(),
        }
    }
}

/// The integer shown for an unset country or network code.
pub open spec fn opt_or_zero(v: Option<int>) -> int {
    match v {
        Some(x) => x,
        None => 0,
    }
}

/// Text shown for the connection field of a status line.
pub open spec fn conn_part_desc(c: Option<ConnectionModel>) -> Seq<char> {
    match c {
        Some(ConnectionModel::LTE { rssi, rsrp, rsrq, sinr }) => "LTE ("@ + lte_conn_desc(
            rssi,
            rsrp,
            rsrq,
            sinr,
        ) + ")"@,
        Some(ConnectionModel::GSM { rssi }) => "GSM ("@ + gsm_conn_desc(rssi) + ")"@,
        None => "Unknown"@,
    }
}

/// The full human-readable status line for a record.
pub open spec fn state_desc(m: ModemStateModel) -> Seq<char> {
    "operator="@ + (match m.operator_name {
        Some(n) => n,
        None => "?"@,
    }) + " ("@ + int_chars(opt_or_zero(m.mcc)) + ", "@ + int_chars(opt_or_zero(m.mnc)) + ") mode="@
        + (match m.operator_mode {
        Some(c) => cops_mode_desc(c),
        None => "unknown"@,
    }) + " conn="@ + conn_part_desc(m.connection_type) + " err="@ + (match m.cme_error {
        Some(c) => cme_error_desc(c),
        None => "no error"@,
    })
}

impl ModemState {
    pub fn new() -> (s: ModemState)
        ensures
            s@ == empty_state(),
    {
        ModemState {
            mcc: None,
            mnc: None,
            operator_name: None,
            rssi: None,
            cme_error: None,
            operator_mode: None,
            connection_type: None,
        }
    }

    /// Every numeric field that has been learned from the device is a
    /// nonnegative code; the parser only produces such values.
    pub open spec fn wf(&self) -> bool {
        &&& match self.mcc {
            Some(v) => v >= 0,
            None => true,
        }
        &&& match self.mnc {
            Some(v) => v >= 0,
            None => true,
        }
        &&& match self.rssi {
            Some(v) => v >= 0,
            None => true,
        }
        &&& match self.connection_type {
            Some(ref c) => c.wf(),
            None => true,
        }
    }

    /// The full human-readable status line, exactly `state_desc` of the
    /// record's model.
    #[verifier::rlimit(60)]
    pub fn describe(&self) -> (r: String)
        requires
            self.wf(),
        ensures
            r@ == state_desc(self@),
    {
        let mut s = String::from_str("operator=");
        match &self.operator_name {
            Some(n) => s.append(n.as_str()),
            None => s.append("?"),
        }
        s.append(" (");
        let mcc = i64_to_string(match self.mcc {
            Some(v) => v,
            None => 0,
        });
        s.append(mcc.as_str());
        s.append(", ");
        let mnc = i64_to_string(match self.mnc {
            Some(v) => v,
            None => 0,
        });
        s.append(mnc.as_str());
        s.append(") mode=");
        match &self.operator_mode {
            Some(m) => s.append(m.to_str()),
            None => s.append("unknown"),
        }
        s.append(" conn=");
        match &self.connection_type {
            Some(ConnectionType::LTE(l)) => {
                s.append("LTE (");
                let d = l.describe();
                s.append(d.as_str());
                s.append(")");
            },
            Some(ConnectionType::GSM(g)) => {
                s.append("GSM (");
                let d = g.describe();
                s.append(d.as_str());
                s.append(")");
            },
            None => s.append("Unknown"),
        }
        s.append(" err=");
        match &self.cme_error {
            Some(e) => s.append(e.to_str()),
            None => s.append("no error"),
        }
        proof {
            assert(s@ =~= state_desc(self@));
        }
        s
    }
}

/// Rendering a record reads it and nothing else: two records with the same
/// model render to the same text, so rendering and re-rendering a published
/// snapshot can never change what is shown.
pub proof fn lemma_describe_deterministic(a: ModemState, b: ModemState)
    requires
        a@ == b@,
    ensures
        state_desc(a@) == state_desc(b@),
{
}

} // verus!
