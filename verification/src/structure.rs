//! The structural layer: the body's fixed schema, element for element.
//!
//! These records mirror the nesting of the OFX body exactly as written.
//! Date-time fields stay raw text here — the domain normalizer decodes
//! them leniently — while numeric fields (`code`, the amounts) are
//! already typed, since a malformed number is a fatal schema violation.

use vstd::prelude::*;

use crate::amount::Amount;

verus! {

/// The whole body: one sign-on message and one bank message list.
#[derive(Debug, Clone, PartialEq)]
pub struct OfxBodyXml {
    pub signonmsgsrsv1: SignOnMessageResponseV1Xml,
    pub bankmsgsrsv1: BankMessageResponseV1Xml,
}

/// `SIGNONMSGSRSV1`: wraps the sign-on response.
#[derive(Debug, Clone, PartialEq)]
pub struct SignOnMessageResponseV1Xml {
    pub sonrs: SignOnResponseXml,
}

/// `BANKMSGSRSV1`: one or more statement-transaction responses.
#[derive(Debug, Clone, PartialEq)]
pub struct BankMessageResponseV1Xml {
    pub stmttrnrs: Vec<StatementTransactionResponseXml>,
}

/// `SONRS`.
#[derive(Debug, Clone, PartialEq)]
pub struct SignOnResponseXml {
    pub status: StatusXml,
    pub dtserver: String,
    pub language: Option<String>,
    pub dtprofup: Option<String>,
    pub fi: Option<FinancialInstitutionXml>,
}

/// `STATUS`.
#[derive(Debug, Clone, PartialEq)]
pub struct StatusXml {
    pub code: i32,
    pub severity: String,
    pub message: Option<String>,
}

/// `FI`.
#[derive(Debug, Clone, PartialEq)]
pub struct FinancialInstitutionXml {
    pub org: String,
    pub fid: Option<String>,
}

/// `STMTTRNRS`.
#[derive(Debug, Clone, PartialEq)]
pub struct StatementTransactionResponseXml {
    pub trnuid: String,
    pub status: StatusXml,
    pub stmtrs: StatementResponseXml,
}

/// `STMTRS`.
#[derive(Debug, Clone, PartialEq)]
pub struct StatementResponseXml {
    pub curdef: String,
    pub bankacctfrom: BankAccountFromXml,
    pub banktranlist: Option<BankTransactionListXml>,
    pub ledgerbal: Option<BalanceXml>,
    pub availbal: Option<BalanceXml>,
}

/// `BANKACCTFROM`.
#[derive(Debug, Clone, PartialEq)]
pub struct BankAccountFromXml {
    pub bankid: String,
    pub acctid: String,
    pub accttype: String,
}

/// `BANKTRANLIST`.
#[derive(Debug, Clone, PartialEq)]
pub struct BankTransactionListXml {
    pub dtstart: String,
    pub dtend: String,
    pub stmttrn: Vec<TransactionXml>,
}

/// `LEDGERBAL` / `AVAILBAL`.
#[derive(Debug, Clone, PartialEq)]
pub struct BalanceXml {
    pub balamt: Amount,
    pub dtasof: String,
}

/// `STMTTRN`.
#[derive(Debug, Clone, PartialEq)]
pub struct TransactionXml {
    pub trntype: String,
    pub dtposted: String,
    pub trnamt: Amount,
    pub fitid: String,
    pub name: Option<String>,
    pub memo: Option<String>,
}

} // verus!
