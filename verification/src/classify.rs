//! The line classifier: given one complete line with the terminator already
//! stripped, decide which of the fixed response shapes it matches and extract
//! the typed fields.
//!
//! The grammar (anchored, whole line):
//! - `OK`
//! - `^PLMN: <mcc>,<mnc>`
//! - `+CME ERROR: <code>`
//! - `+COPS: <mode>,<format>,"<name>",<act>` with name chars `[A-Za-z0-9 ]`
//! - `^RSSI:<value>`
//! - `^HCSQ:"LTE",<rssi>,<rsrp>,<sinr>,<rsrq>`
//! - `^HCSQ:"GSM",<rssi>`
//!
//! Every integer field is a nonempty digit run. A line whose shape matches
//! but whose digit run exceeds `i64::MAX` is treated as unrecognized rather
//! than stopping the poll cycle.

use crate::at::{GSMConnectionInfo, LTEConnectionInfo};
use crate::text::ascii_to_string;
use vstd::prelude::*;

verus! {

pub const COMMA: u8 = 0x2c;

pub const QUOTE: u8 = 0x22;

/// An ASCII decimal digit.
pub open spec fn is_digit(b: u8) -> bool {
    0x30 <= b <= 0x39
}

pub open spec fn all_digits(s: Seq<u8>) -> bool {
    forall|i: int| 0 <= i < s.len() ==> is_digit(#[trigger] s[i])
}

/// Value of a digit run read as a decimal number.
pub open spec fn digits_val(s: Seq<u8>) -> int
    decreases s.len(),
{
    if s.len() == 0 {
        0
    } else {
        digits_val(s.drop_last()) * 10 + (s.last() - 0x30)
    }
}

/// A nonempty digit run whose value fits the field type.
pub open spec fn is_int_field(s: Seq<u8>) -> bool {
    s.len() > 0 && all_digits(s) && digits_val(s) <= i64::MAX
}

pub proof fn lemma_digits_val_nonneg(s: Seq<u8>)
    requires
        all_digits(s),
    ensures
        digits_val(s) >= 0,
    decreases s.len(),
{
    if s.len() > 0 {
        assert(all_digits(s.drop_last()));
        lemma_digits_val_nonneg(s.drop_last());
    }
}

/// A digit run's value only grows as more digits are appended.
pub proof fn lemma_digits_val_prefix_le(s: Seq<u8>, k: int)
    requires
        all_digits(s),
        0 <= k <= s.len(),
    ensures
        digits_val(s.subrange(0, k)) <= digits_val(s),
    decreases s.len() - k,
{
    if k < s.len() {
        let t = s.subrange(0, k + 1);
        assert(all_digits(t));
        assert(t.drop_last() =~= s.subrange(0, k));
        lemma_digits_val_nonneg(t.drop_last());
        assert(digits_val(s.subrange(0, k)) <= digits_val(t));
        lemma_digits_val_prefix_le(s, k + 1);
        assert(s.subrange(0, k + 1) =~= s.subrange(0, k + 1));
    } else {
        assert(s.subrange(0, k) =~= s);
    }
}

/// The first position at or after `p` holding byte `b`.
pub open spec fn find_from(s: Seq<u8>, p: int, b: u8) -> Option<int>
    decreases s.len() - p,
{
    if p < 0 || p >= s.len() {
        None
    } else if s[p] == b {
        Some(p)
    } else {
        find_from(s, p + 1, b)
    }
}

/// A character admitted inside a quoted operator name.
pub open spec fn is_name_char(b: u8) -> bool {
    (0x41 <= b <= 0x5a) || (0x61 <= b <= 0x7a) || (0x30 <= b <= 0x39) || b == 0x20
}

pub open spec fn all_name_chars(s: Seq<u8>) -> bool {
    forall|i: int| 0 <= i < s.len() ==> is_name_char(#[trigger] s[i])
}

/// The characters spelled by a run of ASCII bytes.
pub open spec fn chars_of(s: Seq<u8>) -> Seq<char> {
    s.map_values(|b: u8| b as char)
}

/// The bytes of `"OK"`.
pub open spec fn is_ok_line(s: Seq<u8>) -> bool {
    s.len() == 2 && s[0] == 0x4f && s[1] == 0x4b
}

/// The bytes of `"^PLMN: "`.
pub open spec fn has_plmn_prefix(s: Seq<u8>) -> bool {
    s.len() >= 7 && s[0] == 0x5e && s[1] == 0x50 && s[2] == 0x4c && s[3] == 0x4d && s[4] == 0x4e
        && s[5] == 0x3a && s[6] == 0x20
}

/// The bytes of `"+CME ERROR: "`.
pub open spec fn has_cme_prefix(s: Seq<u8>) -> bool {
    s.len() >= 12 && s[0] == 0x2b && s[1] == 0x43 && s[2] == 0x4d && s[3] == 0x45 && s[4] == 0x20
        && s[5] == 0x45 && s[6] == 0x52 && s[7] == 0x52 && s[8] == 0x4f && s[9] == 0x52 && s[10]
        == 0x3a && s[11] == 0x20
}

/// The bytes of `"+COPS: "`.
pub open spec fn has_cops_prefix(s: Seq<u8>) -> bool {
    s.len() >= 7 && s[0] == 0x2b && s[1] == 0x43 && s[2] == 0x4f && s[3] == 0x50 && s[4] == 0x53
        && s[5] == 0x3a && s[6] == 0x20
}

/// The bytes of `"^RSSI:"`.
pub open spec fn has_rssi_prefix(s: Seq<u8>) -> bool {
    s.len() >= 6 && s[0] == 0x5e && s[1] == 0x52 && s[2] == 0x53 && s[3] == 0x53 && s[4] == 0x49
        && s[5] == 0x3a
}

/// The bytes of `"^HCSQ:\"LTE\","`.
pub open spec fn has_hcsq_lte_prefix(s: Seq<u8>) -> bool {
    s.len() >= 12 && s[0] == 0x5e && s[1] == 0x48 && s[2] == 0x43 && s[3] == 0x53 && s[4] == 0x51
        && s[5] == 0x3a && s[6] == 0x22 && s[7] == 0x4c && s[8] == 0x54 && s[9] == 0x45 && s[10]
        == 0x22 && s[11] == 0x2c
}

/// The bytes of `"^HCSQ:\"GSM\","`.
pub open spec fn has_hcsq_gsm_prefix(s: Seq<u8>) -> bool {
    s.len() >= 12 && s[0] == 0x5e && s[1] == 0x48 && s[2] == 0x43 && s[3] == 0x53 && s[4] == 0x51
        && s[5] == 0x3a && s[6] == 0x22 && s[7] == 0x47 && s[8] == 0x53 && s[9] == 0x4d && s[10]
        == 0x22 && s[11] == 0x2c
}

/// Fields of a `^PLMN: <mcc>,<mnc>` line, when the tail after the prefix has
/// exactly that shape.
pub open spec fn plmn_fields(s: Seq<u8>) -> Option<(int, int)> {
    match find_from(s, 7, COMMA) {
        Some(j) => {
            let f1 = s.subrange(7, j);
            let f2 = s.subrange(j + 1, s.len() as int);
            if is_int_field(f1) && is_int_field(f2) {
                Some((digits_val(f1), digits_val(f2)))
            } else {
                None
            }
        },
        None => None,
    }
}

/// Code of a `+CME ERROR: <code>` line.
pub open spec fn cme_field(s: Seq<u8>) -> Option<int> {
    let f = s.subrange(12, s.len() as int);
    if is_int_field(f) {
        Some(digits_val(f))
    } else {
        None
    }
}

/// Fields of a `+COPS: <mode>,<format>,"<name>",<act>` line:
/// (mode, format, name bytes, access technology).
pub open spec fn cops_fields(s: Seq<u8>) -> Option<(int, int, Seq<u8>, int)> {
    match find_from(s, 7, COMMA) {
        Some(j1) => match find_from(s, j1 + 1, COMMA) {
            Some(j2) => {
                if j2 + 1 < s.len() && s[j2 + 1] == QUOTE {
                    match find_from(s, j2 + 2, QUOTE) {
                        Some(q) => {
                            if q + 1 < s.len() && s[q + 1] == COMMA {
                                let mode = s.subrange(7, j1);
                                let fmt = s.subrange(j1 + 1, j2);
                                let name = s.subrange(j2 + 2, q);
                                let act = s.subrange(q + 2, s.len() as int);
                                if is_int_field(mode) && is_int_field(fmt) && name.len() > 0
                                    && all_name_chars(name) && is_int_field(act) {
                                    Some((digits_val(mode), digits_val(fmt), name, digits_val(act)))
                                } else {
                                    None
                                }
                            } else {
                                None
                            }
                        },
                        None => None,
                    }
                } else {
                    None
                }
            },
            None => None,
        },
        None => None,
    }
}

/// Value of a `^RSSI:<value>` line.
pub open spec fn rssi_field(s: Seq<u8>) -> Option<int> {
    let f = s.subrange(6, s.len() as int);
    if is_int_field(f) {
        Some(digits_val(f))
    } else {
        None
    }
}

/// Fields of a `^HCSQ:"LTE",<rssi>,<rsrp>,<sinr>,<rsrq>` line, in wire order.
pub open spec fn hcsq_lte_fields(s: Seq<u8>) -> Option<(int, int, int, int)> {
    match find_from(s, 12, COMMA) {
        Some(j1) => match find_from(s, j1 + 1, COMMA) {
            Some(j2) => match find_from(s, j2 + 1, COMMA) {
                Some(j3) => {
                    let f1 = s.subrange(12, j1);
                    let f2 = s.subrange(j1 + 1, j2);
                    let f3 = s.subrange(j2 + 1, j3);
                    let f4 = s.subrange(j3 + 1, s.len() as int);
                    if is_int_field(f1) && is_int_field(f2) && is_int_field(f3) && is_int_field(
                        f4,
                    ) {
                        Some((digits_val(f1), digits_val(f2), digits_val(f3), digits_val(f4)))
                    } else {
                        None
                    }
                },
                None => None,
            },
            None => None,
        },
        None => None,
    }
}

/// Value of a `^HCSQ:"GSM",<rssi>` line.
pub open spec fn hcsq_gsm_field(s: Seq<u8>) -> Option<int> {
    let f = s.subrange(12, s.len() as int);
    if is_int_field(f) {
        Some(digits_val(f))
    } else {
        None
    }
}

/// Mathematical model of a classified line.
pub enum EventModel {
    Acknowledged,
    PlmnReport { mcc: int, mnc: int },
    ErrorReport { code: int },
    OperatorReport { mode: int, name: Seq<char> },
    SimpleRssi { value: int },
    LteQuality { rssi: int, rsrp: int, sinr: int, rsrq: int },
    GsmQuality { rssi: int },
    Unrecognized,
}

/// The classification of one terminator-stripped line. The shapes are keyed
/// by mutually exclusive literal prefixes, so trying them in this fixed
/// order matches each line against the whole grammar.
pub open spec fn classify_spec(s: Seq<u8>) -> EventModel {
    if is_ok_line(s) {
        EventModel::Acknowledged
    } else if has_plmn_prefix(s) {
        match plmn_fields(s) {
            Some((mcc, mnc)) => EventModel::PlmnReport { mcc, mnc },
            None => EventModel::Unrecognized,
        }
    } else if has_cme_prefix(s) {
        match cme_field(s) {
            Some(code) => EventModel::ErrorReport { code },
            None => EventModel::Unrecognized,
        }
    } else if has_cops_prefix(s) {
        match cops_fields(s) {
            Some((mode, _format, name, _act)) => EventModel::OperatorReport {
                mode,
                name: chars_of(name),
            },
            None => EventModel::Unrecognized,
        }
    } else if has_rssi_prefix(s) {
        match rssi_field(s) {
            Some(value) => EventModel::SimpleRssi { value },
            None => EventModel::Unrecognized,
        }
    } else if has_hcsq_lte_prefix(s) {
        match hcsq_lte_fields(s) {
            Some((rssi, rsrp, sinr, rsrq)) => EventModel::LteQuality { rssi, rsrp, sinr, rsrq },
            None => EventModel::Unrecognized,
        }
    } else if has_hcsq_gsm_prefix(s) {
        match hcsq_gsm_field(s) {
            Some(rssi) => EventModel::GsmQuality { rssi },
            None => EventModel::Unrecognized,
        }
    } else {
        EventModel::Unrecognized
    }
}

/// A classified line, with its extracted fields.
pub enum Event {
    Acknowledged,
    PlmnReport { mcc: i64, mnc: i64 },
    ErrorReport { code: i64 },
    OperatorReport { mode: i64, name: String },
    SimpleRssi { value: i64 },
    LteQuality(LTEConnectionInfo),
    GsmQuality(GSMConnectionInfo),
    Unrecognized,
}

impl View for Event {
    type V = EventModel;

    open spec fn view(&self) -> EventModel {
        match self {
            Event::Acknowledged => EventModel::Acknowledged,
            Event::PlmnReport { mcc, mnc } => EventModel::PlmnReport {
                mcc: *mcc as int,
                mnc: *mnc as int,
            },
            Event::ErrorReport { code } => EventModel::ErrorReport { code: *code as int },
            Event::OperatorReport { mode, name } => EventModel::OperatorReport {
                mode: *mode as int,
                name: name@,
            },
            Event::SimpleRssi { value } => EventModel::SimpleRssi { value: *value as int },
            Event::LteQuality(l) => EventModel::LteQuality {
                rssi: l.rssi as int,
                rsrp: l.rsrp as int,
                sinr: l.sinr as int,
                rsrq: l.rsrq as int,
            },
            Event::GsmQuality(g) => EventModel::GsmQuality { rssi: g.rssi as int },
            Event::Unrecognized => EventModel::Unrecognized,
        }
    }
}

/// Parses the digit run `s[from..to]`; `None` when the range is empty, holds
/// a non-digit, or spells a value over `i64::MAX`.
pub fn parse_int(s: &[u8], from: usize, to: usize) -> (r: Option<i64>)
    requires
        from <= to <= s@.len(),
    ensures
        ({
            let f = s@.subrange(from as int, to as int);
            match r {
                Some(v) => is_int_field(f) && v == digits_val(f) && v >= 0,
                None => !is_int_field(f),
            }
        }),
{
    let ghost f = s@.subrange(from as int, to as int);
    if from == to {
        return None;
    }
    let mut acc: i64 = 0;
    let mut i: usize = from;
    while i < to
        invariant
            from <= i <= to <= s@.len(),
            all_digits(s@.subrange(from as int, i as int)),
            0 <= acc,
            acc == digits_val(s@.subrange(from as int, i as int)),
        decreases to - i,
    {
        let ghost pre = s@.subrange(from as int, i as int);
        let b = s[i];
        if b < 0x30 || b > 0x39 {
            proof {
                assert(s@.subrange(from as int, to as int)[i - from] == b);
            }
            return None;
        }
        let d = (b - 0x30) as i64;
        proof {
            assert(s@.subrange(from as int, i + 1 as int).drop_last() =~= pre);
            assert(all_digits(s@.subrange(from as int, i + 1 as int)));
            assert(digits_val(s@.subrange(from as int, i + 1 as int)) == acc * 10 + d);
        }
        if acc > (i64::MAX - d) / 10 {
            proof {
                assert(acc * 10 + d > i64::MAX);
                let g = s@.subrange(from as int, to as int);
                if all_digits(g) {
                    lemma_digits_val_prefix_le(g, i + 1 - from);
                    assert(g.subrange(0, i + 1 - from) =~= s@.subrange(from as int, i + 1 as int));
                    assert(digits_val(g) > i64::MAX);
                }
            }
            return None;
        }
        proof {
            assert(acc * 10 + d <= i64::MAX);
        }
        acc = acc * 10 + d;
        i = i + 1;
    }
    proof {
        assert(s@.subrange(from as int, i as int) =~= f);
    }
    Some(acc)
}

/// Finds the first occurrence of `b` at or after `from`.
pub fn find_from_exec(s: &[u8], from: usize, b: u8) -> (r: Option<usize>)
    requires
        from <= s@.len(),
    ensures
        match r {
            Some(i) => from <= i < s@.len() && find_from(s@, from as int, b) == Some(i as int),
            None => find_from(s@, from as int, b) is None,
        },
{
    let mut i = from;
    while i < s.len()
        invariant
            from <= i <= s@.len(),
            find_from(s@, from as int, b) == find_from(s@, i as int, b),
        decreases s@.len() - i,
    {
        if s[i] == b {
            return Some(i);
        }
        i = i + 1;
    }
    None
}

/// Copies `s[from..to]` into an owned vector.
pub fn sub_vec(s: &[u8], from: usize, to: usize) -> (v: Vec<u8>)
    requires
        from <= to <= s@.len(),
    ensures
        v@ == s@.subrange(from as int, to as int),
{
    let mut v: Vec<u8> = Vec::new();
    let mut i = from;
    while i < to
        invariant
            from <= i <= to <= s@.len(),
            v@ == s@.subrange(from as int, i as int),
        decreases to - i,
    {
        v.push(s[i]);
        i = i + 1;
        proof {
            assert(v@ =~= s@.subrange(from as int, i as int));
        }
    }
    v
}

/// Checks that `s[from..to]` is a nonempty run of operator-name characters.
fn check_name(s: &[u8], from: usize, to: usize) -> (r: bool)
    requires
        from <= to <= s@.len(),
    ensures
        r == (to - from > 0 && all_name_chars(s@.subrange(from as int, to as int))),
{
    if from == to {
        return false;
    }
    let mut i = from;
    while i < to
        invariant
            from <= i <= to <= s@.len(),
            all_name_chars(s@.subrange(from as int, i as int)),
        decreases to - i,
    {
        let ghost pre = s@.subrange(from as int, i as int);
        let b = s[i];
        let ok = (0x41 <= b && b <= 0x5a) || (0x61 <= b && b <= 0x7a) || (0x30 <= b && b <= 0x39)
            || b == 0x20;
        if !ok {
            proof {
                assert(s@.subrange(from as int, to as int)[i - from] == b);
            }
            return false;
        }
        i = i + 1;
        proof {
            assert(s@.subrange(from as int, i as int) =~= pre.push(b));
        }
    }
    proof {
        assert(s@.subrange(from as int, i as int) =~= s@.subrange(from as int, to as int));
    }
    true
}

fn is_ok_exec(s: &[u8]) -> (r: bool)
    ensures
        r == is_ok_line(s@),
{
    s.len() == 2 && s[0] == 0x4f && s[1] == 0x4b
}

fn plmn_prefix_exec(s: &[u8]) -> (r: bool)
    ensures
        r == has_plmn_prefix(s@),
{
    // "^PLMN: "
    s.len() >= 7 && s[0] == 0x5e && s[1] == 0x50 && s[2] == 0x4c && s[3] == 0x4d && s[4] == 0x4e
        && s[5] == 0x3a && s[6] == 0x20
}

fn cme_prefix_exec(s: &[u8]) -> (r: bool)
    ensures
        r == has_cme_prefix(s@),
{
    // "+CME ERROR: "
    s.len() >= 12 && s[0] == 0x2b && s[1] == 0x43 && s[2] == 0x4d && s[3] == 0x45 && s[4] == 0x20
        && s[5] == 0x45 && s[6] == 0x52 && s[7] == 0x52 && s[8] == 0x4f && s[9] == 0x52 && s[10]
        == 0x3a && s[11] == 0x20
}

fn cops_prefix_exec(s: &[u8]) -> (r: bool)
    ensures
        r == has_cops_prefix(s@),
{
    // "+COPS: "
    s.len() >= 7 && s[0] == 0x2b && s[1] == 0x43 && s[2] == 0x4f && s[3] == 0x50 && s[4] == 0x53
        && s[5] == 0x3a && s[6] == 0x20
}

fn rssi_prefix_exec(s: &[u8]) -> (r: bool)
    ensures
        r == has_rssi_prefix(s@),
{
    // "^RSSI:"
    s.len() >= 6 && s[0] == 0x5e && s[1] == 0x52 && s[2] == 0x53 && s[3] == 0x53 && s[4] == 0x49
        && s[5] == 0x3a
}

fn hcsq_lte_prefix_exec(s: &[u8]) -> (r: bool)
    ensures
        r == has_hcsq_lte_prefix(s@),
{
    // "^HCSQ:\"LTE\","
    s.len() >= 12 && s[0] == 0x5e && s[1] == 0x48 && s[2] == 0x43 && s[3] == 0x53 && s[4] == 0x51
        && s[5] == 0x3a && s[6] == 0x22 && s[7] == 0x4c && s[8] == 0x54 && s[9] == 0x45 && s[10]
        == 0x22 && s[11] == 0x2c
}

fn hcsq_gsm_prefix_exec(s: &[u8]) -> (r: bool)
    ensures
        r == has_hcsq_gsm_prefix(s@),
{
    // "^HCSQ:\"GSM\","
    s.len() >= 12 && s[0] == 0x5e && s[1] == 0x48 && s[2] == 0x43 && s[3] == 0x53 && s[4] == 0x51
        && s[5] == 0x3a && s[6] == 0x22 && s[7] == 0x47 && s[8] == 0x53 && s[9] == 0x4d && s[10]
        == 0x22 && s[11] == 0x2c
}

fn classify_plmn(line: &[u8]) -> (e: Event)
    requires
        has_plmn_prefix(line@),
    ensures
        e@ == match plmn_fields(line@) {
            Some((mcc, mnc)) => EventModel::PlmnReport { mcc, mnc },
            None => EventModel::Unrecognized,
        },
        e.wf(),
{
    let n = line.len();
    match find_from_exec(line, 7, COMMA) {
        Some(j) => {
            match parse_int(line, 7, j) {
                Some(mcc) => match parse_int(line, j + 1, n) {
                    Some(mnc) => Event::PlmnReport { mcc, mnc },
                    None => Event::Unrecognized,
                },
                None => Event::Unrecognized,
            }
        },
        None => Event::Unrecognized,
    }
}

fn classify_cme(line: &[u8]) -> (e: Event)
    requires
        has_cme_prefix(line@),
    ensures
        e@ == match cme_field(line@) {
            Some(code) => EventModel::ErrorReport { code },
            None => EventModel::Unrecognized,
        },
        e.wf(),
{
    match parse_int(line, 12, line.len()) {
        Some(code) => Event::ErrorReport { code },
        None => Event::Unrecognized,
    }
}

fn classify_cops(line: &[u8]) -> (e: Event)
    requires
        has_cops_prefix(line@),
    ensures
        e@ == match cops_fields(line@) {
            Some((mode, _format, name, _act)) => EventModel::OperatorReport {
                mode,
                name: chars_of(name),
            },
            None => EventModel::Unrecognized,
        },
        e.wf(),
{
    let n = line.len();
    let j1 = match find_from_exec(line, 7, COMMA) {
        Some(j) => j,
        None => {
            return Event::Unrecognized;
        },
    };
    let j2 = match find_from_exec(line, j1 + 1, COMMA) {
        Some(j) => j,
        None => {
            return Event::Unrecognized;
        },
    };
    if !(j2 + 1 < n && line[j2 + 1] == QUOTE) {
        return Event::Unrecognized;
    }
    let q = match find_from_exec(line, j2 + 2, QUOTE) {
        Some(j) => j,
        None => {
            return Event::Unrecognized;
        },
    };
    if !(q + 1 < n && line[q + 1] == COMMA) {
        return Event::Unrecognized;
    }
    let mode = match parse_int(line, 7, j1) {
        Some(v) => v,
        None => {
            return Event::Unrecognized;
        },
    };
    let _format = match parse_int(line, j1 + 1, j2) {
        Some(v) => v,
        None => {
            return Event::Unrecognized;
        },
    };
    if !check_name(line, j2 + 2, q) {
        return Event::Unrecognized;
    }
    let _act = match parse_int(line, q + 2, n) {
        Some(v) => v,
        None => {
            return Event::Unrecognized;
        },
    };
    let name_vec = sub_vec(line, j2 + 2, q);
    proof {
        assert(forall|i: int|
            0 <= i < name_vec@.len() ==> is_name_char(#[trigger] name_vec@[i]));
    }
    let name = ascii_to_string(&name_vec);
    Event::OperatorReport { mode, name }
}

fn classify_rssi(line: &[u8]) -> (e: Event)
    requires
        has_rssi_prefix(line@),
    ensures
        e@ == match rssi_field(line@) {
            Some(value) => EventModel::SimpleRssi { value },
            None => EventModel::Unrecognized,
        },
        e.wf(),
{
    match parse_int(line, 6, line.len()) {
        Some(value) => Event::SimpleRssi { value },
        None => Event::Unrecognized,
    }
}

fn classify_hcsq_lte(line: &[u8]) -> (e: Event)
    requires
        has_hcsq_lte_prefix(line@),
    ensures
        e@ == match hcsq_lte_fields(line@) {
            Some((rssi, rsrp, sinr, rsrq)) => EventModel::LteQuality { rssi, rsrp, sinr, rsrq },
            None => EventModel::Unrecognized,
        },
        e.wf(),
{
    let n = line.len();
    let j1 = match find_from_exec(line, 12, COMMA) {
        Some(j) => j,
        None => {
            return Event::Unrecognized;
        },
    };
    let j2 = match find_from_exec(line, j1 + 1, COMMA) {
        Some(j) => j,
        None => {
            return Event::Unrecognized;
        },
    };
    let j3 = match find_from_exec(line, j2 + 1, COMMA) {
        Some(j) => j,
        None => {
            return Event::Unrecognized;
        },
    };
    let rssi = match parse_int(line, 12, j1) {
        Some(v) => v,
        None => {
            return Event::Unrecognized;
        },
    };
    let rsrp = match parse_int(line, j1 + 1, j2) {
        Some(v) => v,
        None => {
            return Event::Unrecognized;
        },
    };
    let sinr = match parse_int(line, j2 + 1, j3) {
        Some(v) => v,
        None => {
            return Event::Unrecognized;
        },
    };
    let rsrq = match parse_int(line, j3 + 1, n) {
        Some(v) => v,
        None => {
            return Event::Unrecognized;
        },
    };
    Event::LteQuality(LTEConnectionInfo { rssi, rsrp, rsrq, sinr })
}

fn classify_hcsq_gsm(line: &[u8]) -> (e: Event)
    requires
        has_hcsq_gsm_prefix(line@),
    ensures
        e@ == match hcsq_gsm_field(line@) {
            Some(rssi) => EventModel::GsmQuality { rssi },
            None => EventModel::Unrecognized,
        },
        e.wf(),
{
    match parse_int(line, 12, line.len()) {
        Some(rssi) => Event::GsmQuality(GSMConnectionInfo { rssi }),
        None => Event::Unrecognized,
    }
}

/// Classifies one terminator-stripped line against the whole grammar.
pub fn classify(line: &[u8]) -> (e: Event)
    ensures
        e@ == classify_spec(line@),
        e.wf(),
{
    if is_ok_exec(line) {
        Event::Acknowledged
    } else if plmn_prefix_exec(line) {
        classify_plmn(line)
    } else if cme_prefix_exec(line) {
        classify_cme(line)
    } else if cops_prefix_exec(line) {
        classify_cops(line)
    } else if rssi_prefix_exec(line) {
        classify_rssi(line)
    } else if hcsq_lte_prefix_exec(line) {
        classify_hcsq_lte(line)
    } else if hcsq_gsm_prefix_exec(line) {
        classify_hcsq_gsm(line)
    } else {
        Event::Unrecognized
    }
}

impl Event {
    /// Every numeric field extracted from a line is a nonnegative code.
    pub open spec fn wf(&self) -> bool {
        match self {
            Event::PlmnReport { mcc, mnc } => *mcc >= 0 && *mnc >= 0,
            Event::ErrorReport { code } => *code >= 0,
            Event::OperatorReport { mode, name } => *mode >= 0,
            Event::SimpleRssi { value } => *value >= 0,
            Event::LteQuality(l) => l.wf(),
            Event::GsmQuality(g) => g.wf(),
            _ => true,
        }
    }
}

} // verus!
