//! The domain model: the typed document handed to callers.
//!
//! Every entity is an immutable value record built once during the
//! decode pass.  Timestamps are [`OfxDateTime`] values and amounts are
//! exact [`Amount`] decimals.

use vstd::prelude::*;

use crate::amount::Amount;
use crate::datetime::OfxDateTime;

verus! {

/// The decoded header block.  `version` always holds the one supported
/// format version; the remaining fields are optional free-form values.
#[derive(Debug, Clone, PartialEq)]
pub struct OfxHeader {
    pub version: String,
    pub security: Option<String>,
    pub encoding: Option<String>,
    pub charset: Option<String>,
    pub compression: Option<String>,
    pub old_file_uid: Option<String>,
    pub new_file_uid: Option<String>,
}

/// The sign-on message wrapper.
#[derive(Debug, Clone, PartialEq)]
pub struct SignonMessage {
    pub sonrs: SignonResponse,
}

/// The sign-on response: server status and server time.
#[derive(Debug, Clone, PartialEq)]
pub struct SignonResponse {
    pub status: Status,
    pub dtserver: OfxDateTime,
    pub language: Option<String>,
    pub dtprofup: Option<OfxDateTime>,
    pub fi: Option<FinancialInstitution>,
}

/// A status element: code, severity and optional message.
#[derive(Debug, Clone, PartialEq)]
pub struct Status {
    pub code: i32,
    pub severity: String,
    pub message: Option<String>,
}

/// The financial institution named in the sign-on response.
#[derive(Debug, Clone, PartialEq)]
pub struct FinancialInstitution {
    pub org: String,
    pub fid: Option<String>,
}

/// The account a statement belongs to.
#[derive(Debug, Clone, PartialEq)]
pub struct BankAccount {
    pub bankid: String,
    pub acctid: String,
    pub accttype: String,
}

/// One booked transaction.
#[derive(Debug, Clone, PartialEq)]
pub struct Transaction {
    pub trntype: String,
    pub dtposted: OfxDateTime,
    pub trnamt: Amount,
    pub fitid: String,
    pub name: Option<String>,
    pub memo: Option<String>,
}

/// The transactions of a statement, in document order.
#[derive(Debug, Clone, PartialEq)]
pub struct BankTransactionList {
    pub dtstart: OfxDateTime,
    pub dtend: OfxDateTime,
    pub transactions: Vec<Transaction>,
}

/// One statement-transaction response.
#[derive(Debug, Clone, PartialEq)]
pub struct StatementTransactionResponse {
    pub trnuid: String,
    pub status: Status,
    pub stmtrs: StatementResponse,
}

/// One account's statement payload.
#[derive(Debug, Clone, PartialEq)]
pub struct StatementResponse {
    pub curdef: String,
    pub bankacctfrom: BankAccount,
    pub banktranlist: Option<BankTransactionList>,
    pub ledgerbal: Option<Balance>,
    pub availbal: Option<Balance>,
}

/// A balance with its as-of time.
#[derive(Debug, Clone, PartialEq)]
pub struct Balance {
    pub balamt: Amount,
    pub dtasof: OfxDateTime,
}

/// The decoded document: header, sign-on response and the bank messages
/// in document order.
#[derive(Debug, Clone, PartialEq)]
pub struct OfxDocument {
    pub header: OfxHeader,
    pub signon: SignonResponse,
    pub bank_msgs: Vec<StatementTransactionResponse>,
}

} // verus!
