//! A minimal CSV codec for the ledger's command and account rows.
//!
//! The reader decodes a whole input into command rows: the first non-empty
//! line is taken as the header and skipped, every other non-empty line is
//! split at commas into exactly four fields (`type`, `client`, `tx`,
//! `amount`), fields are trimmed of spaces and tabs, and one carriage
//! return before a line feed is tolerated. Quoting is not interpreted. The
//! writer renders account snapshots as `client,available,held,total,locked`
//! rows into an in-memory buffer; reading and writing the actual byte
//! streams is the caller's business.

use crate::cmd;
use crate::fixed_decimal::{
    is_ascii_digit, spec_digits, spec_format, spec_parse, ParseFixedDecimalError,
    UnsignedAssetCount, BYTE_NINE, BYTE_ZERO,
};
use crate::ledger::{Account, ClientId, TransactionId, TransactionMeta};
use vstd::prelude::*;
use vstd::string::StringSliceAdditionalSpecFns;

verus! {

broadcast use crate::fixed_decimal::lemma_spec_from;

/// The byte `','`.
pub const BYTE_COMMA: u8 = 44;

/// The byte `'\n'`.
pub const BYTE_LF: u8 = 10;

/// The byte `'\r'`.
pub const BYTE_CR: u8 = 13;

/// The byte `' '`.
pub const BYTE_SPACE: u8 = 32;

/// The byte `'\t'`.
pub const BYTE_TAB: u8 = 9;

/// Whether `b` is field padding: a space or a tab.
pub open spec fn is_padding(b: u8) -> bool {
    b == BYTE_SPACE || b == BYTE_TAB
}

/// Split `s` at every occurrence of `sep`, scanning left to right with the
/// current piece in `cur`: separators delimit pieces and are dropped, and a
/// trailing separator yields a final empty piece.
pub open spec fn spec_split_scan(s: Seq<u8>, i: int, cur: Seq<u8>, sep: u8) -> Seq<Seq<u8>>
    decreases s.len() - i,
{
    if i < 0 || i >= s.len() {
        seq![cur]
    } else if s[i] == sep {
        seq![cur] + spec_split_scan(s, i + 1, Seq::empty(), sep)
    } else {
        spec_split_scan(s, i + 1, cur.push(s[i]), sep)
    }
}

/// The pieces of `s` between occurrences of `sep`. Always at least one
/// piece; `n` separators give `n + 1` pieces.
pub open spec fn spec_split(s: Seq<u8>, sep: u8) -> Seq<Seq<u8>> {
    spec_split_scan(s, 0, Seq::empty(), sep)
}

/// `s` without its leading padding bytes.
pub open spec fn spec_trim_front(s: Seq<u8>) -> Seq<u8>
    decreases s.len(),
{
    if s.len() > 0 && is_padding(s[0]) {
        spec_trim_front(s.drop_first())
    } else {
        s
    }
}

/// `s` without its trailing padding bytes.
pub open spec fn spec_trim_back(s: Seq<u8>) -> Seq<u8>
    decreases s.len(),
{
    if s.len() > 0 && is_padding(s.last()) {
        spec_trim_back(s.drop_last())
    } else {
        s
    }
}

/// `s` without leading and trailing padding bytes.
pub open spec fn spec_trim(s: Seq<u8>) -> Seq<u8> {
    spec_trim_back(spec_trim_front(s))
}

/// `s` without a final carriage return, so that lines of input with
/// carriage-return/line-feed endings read like plain ones.
pub open spec fn spec_strip_cr(s: Seq<u8>) -> Seq<u8> {
    if s.len() > 0 && s.last() == BYTE_CR {
        s.drop_last()
    } else {
        s
    }
}

/// The value of the digit run `s` read as a base-ten number, scanning left
/// to right from `acc`; `None` if `s` holds a non-digit or the value
/// exceeds `max`.
pub open spec fn spec_uint_scan(s: Seq<u8>, i: int, acc: int, max: int) -> Option<int>
    decreases s.len() - i,
{
    if i < 0 || i >= s.len() {
        Some(acc)
    } else if !is_ascii_digit(s[i]) {
        None
    } else {
        let acc2 = acc * 10 + (s[i] - BYTE_ZERO);
        if acc2 > max {
            None
        } else {
            spec_uint_scan(s, i + 1, acc2, max)
        }
    }
}

/// The number denoted by `s`: one or more decimal digits, no sign, value at
/// most `max`.
pub open spec fn spec_parse_uint(s: Seq<u8>, max: int) -> Option<int> {
    if s.len() == 0 {
        None
    } else {
        spec_uint_scan(s, 0, 0, max)
    }
}

/// Split the bytes of `v` at every occurrence of `sep`.
fn split_bytes(v: &Vec<u8>, sep: u8) -> (r: Vec<Vec<u8>>)
    ensures
        r@.map_values(|p: Vec<u8>| p@) == spec_split(v@, sep),
{
    let mut r: Vec<Vec<u8>> = Vec::new();
    let mut cur: Vec<u8> = Vec::new();
    let mut i: usize = 0;
    while i < v.len()
        invariant
            0 <= i <= v@.len(),
            spec_split(v@, sep) == r@.map_values(|p: Vec<u8>| p@) + spec_split_scan(
                v@,
                i as int,
                cur@,
                sep,
            ),
        decreases v@.len() - i,
    {
        let b = v[i];
        if b == sep {
            let ghost r0 = r@;
            let ghost c0 = cur@;
            r.push(cur);
            cur = Vec::new();
            proof {
                assert(r@.map_values(|p: Vec<u8>| p@) =~= r0.map_values(|p: Vec<u8>| p@)
                    + seq![c0]);
            }
        } else {
            cur.push(b);
        }
        i = i + 1;
    }
    let ghost r0 = r@;
    let ghost c0 = cur@;
    r.push(cur);
    proof {
        assert(r@.map_values(|p: Vec<u8>| p@) =~= r0.map_values(|p: Vec<u8>| p@) + seq![c0]);
    }
    r
}

/// Remove leading and trailing padding from the bytes of `v`.
fn trim_bytes(v: &Vec<u8>) -> (r: Vec<u8>)
    ensures
        r@ == spec_trim(v@),
{
    let mut lo: usize = 0;
    let mut hi: usize = v.len();
    proof {
        assert(v@.subrange(0, v@.len() as int) =~= v@);
    }
    while lo < hi && (v[lo] == BYTE_SPACE || v[lo] == BYTE_TAB)
        invariant
            0 <= lo <= hi <= v@.len(),
            spec_trim_front(v@) == spec_trim_front(v@.subrange(lo as int, v@.len() as int)),
            hi == v@.len(),
        decreases hi - lo,
    {
        proof {
            assert(v@.subrange(lo as int, v@.len() as int).drop_first() =~= v@.subrange(
                lo + 1,
                v@.len() as int,
            ));
        }
        lo = lo + 1;
    }
    proof {
        assert(spec_trim_front(v@) == v@.subrange(lo as int, hi as int));
    }
    while lo < hi && (v[hi - 1] == BYTE_SPACE || v[hi - 1] == BYTE_TAB)
        invariant
            0 <= lo <= hi <= v@.len(),
            spec_trim(v@) == spec_trim_back(v@.subrange(lo as int, hi as int)),
        decreases hi,
    {
        proof {
            assert(v@.subrange(lo as int, hi as int).drop_last() =~= v@.subrange(
                lo as int,
                hi - 1,
            ));
        }
        hi = hi - 1;
    }
    let mut r: Vec<u8> = Vec::new();
    let mut j: usize = lo;
    while j < hi
        invariant
            lo <= j <= hi <= v@.len(),
            r@ == v@.subrange(lo as int, j as int),
        decreases hi - j,
    {
        r.push(v[j]);
        proof {
            assert(r@ =~= v@.subrange(lo as int, j + 1));
        }
        j = j + 1;
    }
    proof {
        assert(r@ =~= v@.subrange(lo as int, hi as int));
        assert(spec_trim_back(v@.subrange(lo as int, hi as int)) == v@.subrange(
            lo as int,
            hi as int,
        ));
    }
    r
}

/// Whether two byte strings hold the same bytes.
fn bytes_eq(a: &Vec<u8>, b: &[u8]) -> (r: bool)
    ensures
        r == (a@ == b@),
{
    if a.len() != b.len() {
        return false;
    }
    let mut i: usize = 0;
    while i < a.len()
        invariant
            0 <= i <= a@.len(),
            a@.len() == b@.len(),
            forall|j: int| 0 <= j < i ==> a@[j] == b@[j],
        decreases a@.len() - i,
    {
        if a[i] != b[i] {
            return false;
        }
        i = i + 1;
    }
    proof {
        assert(a@ =~= b@);
    }
    true
}

/// Read `v` as an unsigned base-ten number of at most `max`.
fn parse_uint(v: &Vec<u8>, max: u64) -> (r: Option<u64>)
    ensures
        match r {
            Some(n) => n <= max && spec_parse_uint(v@, max as int) == Some(n as int),
            None => spec_parse_uint(v@, max as int) is None,
        },
{
    if v.len() == 0 {
        return None;
    }
    let mut acc: u64 = 0;
    let mut i: usize = 0;
    while i < v.len()
        invariant
            0 <= i <= v@.len(),
            v@.len() > 0,
            acc <= max,
            spec_parse_uint(v@, max as int) == spec_uint_scan(v@, i as int, acc as int, max as int),
        decreases v@.len() - i,
    {
        let b = v[i];
        if b < BYTE_ZERO || b > BYTE_NINE {
            return None;
        }
        let d = (b - BYTE_ZERO) as u64;
        let acc2 = match acc.checked_mul(10) {
            Some(x) => match x.checked_add(d) {
                Some(y) => y,
                None => {
                    return None;
                },
            },
            None => {
                return None;
            },
        };
        if acc2 > max {
            return None;
        }
        acc = acc2;
        i = i + 1;
    }
    Some(acc)
}


/// The bytes of the `deposit` keyword.
pub open spec fn kw_deposit() -> Seq<u8> {
    "deposit".spec_bytes()
}

/// The bytes of the `withdrawal` keyword.
pub open spec fn kw_withdrawal() -> Seq<u8> {
    "withdrawal".spec_bytes()
}

/// The bytes of the `dispute` keyword.
pub open spec fn kw_dispute() -> Seq<u8> {
    "dispute".spec_bytes()
}

/// The bytes of the `resolve` keyword.
pub open spec fn kw_resolve() -> Seq<u8> {
    "resolve".spec_bytes()
}

/// The bytes of the `chargeback` keyword.
pub open spec fn kw_chargeback() -> Seq<u8> {
    "chargeback".spec_bytes()
}

/// The kind of command a row announces in its first column.
#[derive(Copy, Clone, Debug, PartialEq, Eq, Structural)]
pub enum CommandType {
    Deposit,
    Withdrawal,
    Dispute,
    Resolve,
    Chargeback,
}

/// The command kind named by the (already trimmed) first field, if any.
pub open spec fn spec_command_type(f: Seq<u8>) -> Option<CommandType> {
    if f == kw_deposit() {
        Some(CommandType::Deposit)
    } else if f == kw_withdrawal() {
        Some(CommandType::Withdrawal)
    } else if f == kw_dispute() {
        Some(CommandType::Dispute)
    } else if f == kw_resolve() {
        Some(CommandType::Resolve)
    } else if f == kw_chargeback() {
        Some(CommandType::Chargeback)
    } else {
        None
    }
}

/// One decoded row before validation: the command kind, the two ids, and
/// the amount column if it was present.
#[derive(Copy, Clone, Debug, PartialEq, Eq, Structural)]
pub struct CommandRecord {
    pub kind: CommandType,
    pub client: ClientId,
    pub tx: TransactionId,
    pub amount: Option<UnsignedAssetCount>,
}

/// A deposit row came without an amount.
#[derive(Copy, Clone, Debug, PartialEq, Eq, Structural)]
pub struct FromDepositRecordError;

/// A withdrawal row came without an amount.
#[derive(Copy, Clone, Debug, PartialEq, Eq, Structural)]
pub struct FromWithdrawalRecordError;

/// A syntactically valid row could not be validated as a command.
#[derive(Copy, Clone, Debug, PartialEq, Eq, Structural)]
pub enum FromCommandRecordError {
    /// Invalid record for the type `deposit`.
    Deposit(FromDepositRecordError),
    /// Invalid record for the type `withdrawal`.
    Withdrawal(FromWithdrawalRecordError),
}

/// A malformed row: wrong shape or an unreadable column.
#[derive(Copy, Clone, Debug, PartialEq, Eq, Structural)]
pub enum CsvSyntaxError {
    /// The row does not have exactly four fields.
    WrongFieldCount,
    /// The first column is not one of the five command keywords.
    InvalidCommandType,
    /// The client column is not a number a client id can hold.
    InvalidClientId,
    /// The transaction column is not a number a transaction id can hold.
    InvalidTransactionId,
    /// The amount column is present but not a readable amount.
    InvalidAmount(ParseFixedDecimalError),
}

/// Why a row yielded no command.
#[derive(Copy, Clone, Debug, PartialEq, Eq, Structural)]
pub enum CsvRowError {
    /// The row itself is malformed.
    Csv(CsvSyntaxError),
    /// The row was read but does not validate as a command.
    ValidationError(FromCommandRecordError),
}

/// A place in the input: the 1-based line number and the 1-based ordinal
/// of the data record starting there.
#[derive(Copy, Clone, Debug, PartialEq, Eq, Structural)]
pub struct CsvPosition {
    pub record: usize,
    pub line: usize,
}

/// One data row of the input: where it starts, and the command it decodes
/// to or the reason it does not.
#[derive(Copy, Clone, Debug, PartialEq, Eq)]
pub struct CsvRow {
    pub start: CsvPosition,
    pub record: Result<cmd::Command, CsvRowError>,
}

/// The command described by a decoded record: dispute, resolve and
/// chargeback rows ignore a present amount, while deposit and withdrawal
/// rows must carry one.
pub open spec fn spec_record_to_command(rec: CommandRecord) -> Result<
    cmd::Command,
    FromCommandRecordError,
> {
    match rec.kind {
        CommandType::Deposit => match rec.amount {
            Some(a) => Ok(
                cmd::Command::Deposit(
                    cmd::Deposit(TransactionMeta { id: rec.tx, client: rec.client, amount: a }),
                ),
            ),
            None => Err(FromCommandRecordError::Deposit(FromDepositRecordError)),
        },
        CommandType::Withdrawal => match rec.amount {
            Some(a) => Ok(
                cmd::Command::Withdrawal(
                    cmd::Withdrawal(TransactionMeta { id: rec.tx, client: rec.client, amount: a }),
                ),
            ),
            None => Err(FromCommandRecordError::Withdrawal(FromWithdrawalRecordError)),
        },
        CommandType::Dispute => Ok(
            cmd::Command::Dispute(cmd::Dispute { client: rec.client, tx: rec.tx }),
        ),
        CommandType::Resolve => Ok(
            cmd::Command::Resolve(cmd::Resolve { client: rec.client, tx: rec.tx }),
        ),
        CommandType::Chargeback => Ok(
            cmd::Command::Chargeback(cmd::Chargeback { client: rec.client, tx: rec.tx }),
        ),
    }
}

/// Validate a decoded record as a command.
pub fn record_to_command(rec: CommandRecord) -> (r: Result<cmd::Command, FromCommandRecordError>)
    ensures
        r == spec_record_to_command(rec),
{
    match rec.kind {
        CommandType::Deposit => match rec.amount {
            Some(a) => Ok(
                cmd::Command::Deposit(
                    cmd::Deposit(TransactionMeta { id: rec.tx, client: rec.client, amount: a }),
                ),
            ),
            None => Err(FromCommandRecordError::Deposit(FromDepositRecordError)),
        },
        CommandType::Withdrawal => match rec.amount {
            Some(a) => Ok(
                cmd::Command::Withdrawal(
                    cmd::Withdrawal(TransactionMeta { id: rec.tx, client: rec.client, amount: a }),
                ),
            ),
            None => Err(FromCommandRecordError::Withdrawal(FromWithdrawalRecordError)),
        },
        CommandType::Dispute => Ok(
            cmd::Command::Dispute(cmd::Dispute { client: rec.client, tx: rec.tx }),
        ),
        CommandType::Resolve => Ok(
            cmd::Command::Resolve(cmd::Resolve { client: rec.client, tx: rec.tx }),
        ),
        CommandType::Chargeback => Ok(
            cmd::Command::Chargeback(cmd::Chargeback { client: rec.client, tx: rec.tx }),
        ),
    }
}

/// What one (non-empty, non-header) line decodes to: four comma-separated
/// fields, each trimmed; a keyword, a client id, a transaction id, and an
/// optional amount; then validation of the record.
pub open spec fn spec_parse_row(line: Seq<u8>) -> Result<cmd::Command, CsvRowError> {
    let fields = spec_split(line, BYTE_COMMA);
    if fields.len() != 4 {
        Err(CsvRowError::Csv(CsvSyntaxError::WrongFieldCount))
    } else {
        match spec_command_type(spec_trim(fields[0])) {
            None => Err(CsvRowError::Csv(CsvSyntaxError::InvalidCommandType)),
            Some(kind) => match spec_parse_uint(spec_trim(fields[1]), u16::MAX as int) {
                None => Err(CsvRowError::Csv(CsvSyntaxError::InvalidClientId)),
                Some(client) => match spec_parse_uint(spec_trim(fields[2]), u32::MAX as int) {
                    None => Err(CsvRowError::Csv(CsvSyntaxError::InvalidTransactionId)),
                    Some(tx) => {
                        let amount_field = spec_trim(fields[3]);
                        let rec = CommandRecord {
                            kind,
                            client: ClientId(client as u16),
                            tx: TransactionId(tx as u32),
                            amount: None,
                        };
                        if amount_field.len() == 0 {
                            match spec_record_to_command(rec) {
                                Ok(c) => Ok(c),
                                Err(e) => Err(CsvRowError::ValidationError(e)),
                            }
                        } else {
                            match spec_parse(amount_field) {
                                Err(e) => Err(CsvRowError::Csv(CsvSyntaxError::InvalidAmount(e))),
                                Ok(v) => match spec_record_to_command(
                                    CommandRecord {
                                        amount: Some(UnsignedAssetCount::spec_from(v)),
                                        ..rec
                                    },
                                ) {
                                    Ok(c) => Ok(c),
                                    Err(e) => Err(CsvRowError::ValidationError(e)),
                                },
                            }
                        }
                    },
                },
            },
        }
    }
}

/// Decode one line as a command row.
fn parse_row(line: &Vec<u8>) -> (r: Result<cmd::Command, CsvRowError>)
    ensures
        r == spec_parse_row(line@),
{
    let fields = split_bytes(line, BYTE_COMMA);
    if fields.len() != 4 {
        return Err(CsvRowError::Csv(CsvSyntaxError::WrongFieldCount));
    }
    proof {
        assert(fields@.map_values(|p: Vec<u8>| p@)[0] == fields@[0]@);
        assert(fields@.map_values(|p: Vec<u8>| p@)[1] == fields@[1]@);
        assert(fields@.map_values(|p: Vec<u8>| p@)[2] == fields@[2]@);
        assert(fields@.map_values(|p: Vec<u8>| p@)[3] == fields@[3]@);
    }
    let f0 = trim_bytes(&fields[0]);
    let f1 = trim_bytes(&fields[1]);
    let f2 = trim_bytes(&fields[2]);
    let f3 = trim_bytes(&fields[3]);
    let kind = if bytes_eq(&f0, "deposit".as_bytes()) {
        CommandType::Deposit
    } else if bytes_eq(&f0, "withdrawal".as_bytes()) {
        CommandType::Withdrawal
    } else if bytes_eq(&f0, "dispute".as_bytes()) {
        CommandType::Dispute
    } else if bytes_eq(&f0, "resolve".as_bytes()) {
        CommandType::Resolve
    } else if bytes_eq(&f0, "chargeback".as_bytes()) {
        CommandType::Chargeback
    } else {
        return Err(CsvRowError::Csv(CsvSyntaxError::InvalidCommandType));
    };
    let client = match parse_uint(&f1, 65535) {
        Some(n) => ClientId::new(n as u16),
        None => {
            return Err(CsvRowError::Csv(CsvSyntaxError::InvalidClientId));
        },
    };
    let tx = match parse_uint(&f2, 4294967295) {
        Some(n) => TransactionId::new(n as u32),
        None => {
            return Err(CsvRowError::Csv(CsvSyntaxError::InvalidTransactionId));
        },
    };
    let amount = if f3.len() == 0 {
        None
    } else {
        match UnsignedAssetCount::parse(f3.as_slice()) {
            Ok(a) => {
                proof {
                    crate::fixed_decimal::lemma_amount_ext(
                        a,
                        UnsignedAssetCount::spec_from(a@),
                    );
                }
                Some(a)
            },
            Err(e) => {
                return Err(CsvRowError::Csv(CsvSyntaxError::InvalidAmount(e)));
            },
        }
    };
    match record_to_command(CommandRecord { kind, client, tx, amount }) {
        Ok(c) => Ok(c),
        Err(e) => Err(CsvRowError::ValidationError(e)),
    }
}


/// Copy `v` without one final carriage return, if present.
fn copy_stripped(v: &Vec<u8>) -> (r: Vec<u8>)
    ensures
        r@ == spec_strip_cr(v@),
{
    let n = v.len();
    let stop: usize = if n > 0 && v[n - 1] == BYTE_CR {
        n - 1
    } else {
        n
    };
    let mut r: Vec<u8> = Vec::new();
    let mut j: usize = 0;
    while j < stop
        invariant
            0 <= j <= stop <= v@.len(),
            r@ == v@.subrange(0, j as int),
        decreases stop - j,
    {
        r.push(v[j]);
        proof {
            assert(r@ =~= v@.subrange(0, j + 1));
        }
        j = j + 1;
    }
    proof {
        assert(r@ =~= spec_strip_cr(v@));
    }
    r
}

/// The data rows found in `lines` from index `i` onwards: empty lines are
/// skipped, the first non-empty line is the header (already seen if
/// `seen_header`), and every further non-empty line becomes one row.
/// `rec` is the 1-based ordinal of the next data record.
pub open spec fn spec_rows(lines: Seq<Seq<u8>>, i: int, seen_header: bool, rec: int) -> Seq<CsvRow>
    decreases lines.len() - i,
{
    if i < 0 || i >= lines.len() {
        Seq::empty()
    } else {
        let line = spec_strip_cr(lines[i]);
        if line.len() == 0 {
            spec_rows(lines, i + 1, seen_header, rec)
        } else if !seen_header {
            spec_rows(lines, i + 1, true, rec)
        } else {
            seq![
                CsvRow {
                    start: CsvPosition { record: rec as usize, line: (i + 1) as usize },
                    record: spec_parse_row(line),
                },
            ] + spec_rows(lines, i + 1, true, rec + 1)
        }
    }
}

/// The command rows of a whole input: its lines are the pieces between
/// line feeds, and its data rows everything after the header line.
pub open spec fn spec_commands(input: Seq<u8>) -> Seq<CsvRow> {
    spec_rows(spec_split(input, BYTE_LF), 0, false, 1)
}

/// Reads transaction commands out of a CSV input held in memory.
pub struct CsvCommandReader {
    input: Vec<u8>,
}

impl CsvCommandReader {
    /// The bytes this reader decodes.
    pub closed spec fn spec_input(&self) -> Seq<u8> {
        self.input@
    }

    /// Wrap a whole CSV input.
    pub fn from_reader(input: Vec<u8>) -> (r: Self)
        ensures
            r.spec_input() == input@,
    {
        CsvCommandReader { input }
    }

    /// Decode every data row of the input, in order. Rows that do not
    /// decode are returned with their error so the caller can report them
    /// and go on.
    pub fn commands(&self) -> (r: Vec<CsvRow>)
        ensures
            r@ == spec_commands(self.spec_input()),
    {
        let lines = split_bytes(&self.input, BYTE_LF);
        let ghost linesv = lines@.map_values(|p: Vec<u8>| p@);
        let mut out: Vec<CsvRow> = Vec::new();
        let mut seen_header = false;
        let mut i: usize = 0;
        while i < lines.len()
            invariant
                0 <= i <= lines@.len(),
                out@.len() <= i,
                linesv == lines@.map_values(|p: Vec<u8>| p@),
                linesv == spec_split(self.spec_input(), BYTE_LF),
                spec_commands(self.spec_input()) == out@ + spec_rows(
                    linesv,
                    i as int,
                    seen_header,
                    out@.len() as int + 1,
                ),
            decreases lines@.len() - i,
        {
            proof {
                assert(linesv[i as int] == lines@[i as int]@);
            }
            let line = copy_stripped(&lines[i]);
            if line.len() == 0 {
                // an empty line separates nothing: skip it
            } else if !seen_header {
                seen_header = true;
            } else {
                let recno = out.len() + 1;
                let row = CsvRow {
                    start: CsvPosition { record: recno, line: i + 1 },
                    record: parse_row(&line),
                };
                out.push(row);
            }
            i = i + 1;
        }
        out
    }
}


/// The rendering of a lock flag: `true` or `false`.
pub open spec fn spec_bool_bytes(b: bool) -> Seq<u8> {
    if b {
        "true".spec_bytes()
    } else {
        "false".spec_bytes()
    }
}

/// One output row for an account: its client id, the available, held and
/// total amounts in canonical form, and the lock flag, separated by commas
/// and closed by a line feed.
pub open spec fn spec_account_row(a: Account) -> Seq<u8> {
    spec_digits(a.client.0 as int) + seq![BYTE_COMMA] + spec_format(
        a.balance.spec_available() as int,
    ) + seq![BYTE_COMMA] + spec_format(a.balance.spec_held() as int) + seq![BYTE_COMMA]
        + spec_format((a.balance.spec_available() + a.balance.spec_held()) as int) + seq![
        BYTE_COMMA,
    ] + spec_bool_bytes(a.locked) + seq![BYTE_LF]
}

/// The output header row.
pub open spec fn spec_header() -> Seq<u8> {
    "client,available,held,total,locked".spec_bytes() + seq![BYTE_LF]
}

/// The output rows for `accounts` from index `i` onwards, in order.
pub open spec fn spec_account_rows(accounts: Seq<Account>, i: int) -> Seq<u8>
    decreases accounts.len() - i,
{
    if i < 0 || i >= accounts.len() {
        Seq::empty()
    } else {
        spec_account_row(accounts[i]) + spec_account_rows(accounts, i + 1)
    }
}

/// Append the bytes of `b` to `out`.
fn push_slice(out: &mut Vec<u8>, b: &[u8])
    ensures
        final(out)@ == old(out)@ + b@,
{
    let mut j: usize = 0;
    while j < b.len()
        invariant
            0 <= j <= b@.len(),
            out@ == old(out)@ + b@.subrange(0, j as int),
        decreases b@.len() - j,
    {
        out.push(b[j]);
        proof {
            assert(out@ =~= old(out)@ + b@.subrange(0, j + 1));
        }
        j = j + 1;
    }
    proof {
        assert(out@ =~= old(out)@ + b@);
    }
}

/// Renders account snapshots as CSV rows into an in-memory buffer.
pub struct CsvAccountWriter {
    out: Vec<u8>,
}

impl CsvAccountWriter {
    /// The bytes written so far.
    pub closed spec fn spec_out(&self) -> Seq<u8> {
        self.out@
    }

    /// Continue writing into the given buffer.
    pub fn from_writer(out: Vec<u8>) -> (r: Self)
        ensures
            r.spec_out() == out@,
    {
        CsvAccountWriter { out }
    }

    /// Write the header row. It is not written automatically, so an empty
    /// account list still produces a well-formed output.
    pub fn write_headers(&mut self)
        ensures
            final(self).spec_out() == old(self).spec_out() + spec_header(),
    {
        push_slice(&mut self.out, "client,available,held,total,locked".as_bytes());
        self.out.push(BYTE_LF);
        proof {
            assert(self.out@ =~= old(self).spec_out() + spec_header());
        }
    }

    /// Write one account row.
    #[verifier::rlimit(50)]
    pub fn write(&mut self, account: Account)
        requires
            account.balance.well_formed(),
        ensures
            final(self).spec_out() == old(self).spec_out() + spec_account_row(account),
    {
        crate::fixed_decimal::push_digits(account.client.0 as u64, &mut self.out);
        self.out.push(BYTE_COMMA);
        let available = account.balance.available().format_bytes();
        push_slice(&mut self.out, available.as_slice());
        self.out.push(BYTE_COMMA);
        let held = account.balance.held().format_bytes();
        push_slice(&mut self.out, held.as_slice());
        self.out.push(BYTE_COMMA);
        let total = account.balance.total().format_bytes();
        push_slice(&mut self.out, total.as_slice());
        self.out.push(BYTE_COMMA);
        if account.locked {
            push_slice(&mut self.out, "true".as_bytes());
        } else {
            push_slice(&mut self.out, "false".as_bytes());
        }
        self.out.push(BYTE_LF);
        proof {
            assert(self.out@ =~= old(self).spec_out() + spec_account_row(account));
        }
    }

    /// Write one row per account, in the order given.
    pub fn write_all(&mut self, accounts: &Vec<Account>)
        requires
            forall|i: int|
                0 <= i < accounts@.len() ==> (#[trigger] accounts@[i]).balance.well_formed(),
        ensures
            final(self).spec_out() == old(self).spec_out() + spec_account_rows(accounts@, 0),
    {
        let mut i: usize = 0;
        while i < accounts.len()
            invariant
                0 <= i <= accounts@.len(),
                forall|j: int|
                    0 <= j < accounts@.len() ==> (#[trigger] accounts@[j]).balance.well_formed(),
                self.spec_out() + spec_account_rows(accounts@, i as int) == old(self).spec_out()
                    + spec_account_rows(accounts@, 0),
            decreases accounts@.len() - i,
        {
            let ghost before = self.spec_out();
            self.write(accounts[i]);
            proof {
                assert(before + (spec_account_row(accounts@[i as int]) + spec_account_rows(
                    accounts@,
                    i + 1,
                )) =~= (before + spec_account_row(accounts@[i as int])) + spec_account_rows(
                    accounts@,
                    i + 1,
                ));
            }
            i = i + 1;
        }
        proof {
            assert(self.spec_out() + spec_account_rows(accounts@, accounts@.len() as int) =~= self.spec_out());
        }
    }

    /// Writing goes to memory at once: flushing has nothing left to do.
    pub fn flush(&mut self)
        ensures
            *final(self) == *old(self),
    {
    }

    /// Hand the written bytes back.
    pub fn into_inner(self) -> (r: Vec<u8>)
        ensures
            r@ == self.spec_out(),
    {
        self.out
    }
}

} // verus!
