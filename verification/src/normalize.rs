//! The domain normalizer: structural records to domain records.
//!
//! Every conversion is a field-for-field copy, except timestamps: each
//! raw date-time text is decoded by the OFX timestamp decoder, and a
//! text that does not decode degrades to the sentinel date-time — a
//! single bad timestamp never aborts the document.

use vstd::prelude::*;

use crate::datetime::OfxDateTime;
use crate::datetime::parse_custom_datetime;
use crate::datetime::spec_parse_datetime;
use crate::domain::Balance;
use crate::domain::BankAccount;
use crate::domain::BankTransactionList;
use crate::domain::FinancialInstitution;
use crate::domain::SignonResponse;
use crate::domain::StatementResponse;
use crate::domain::StatementTransactionResponse;
use crate::domain::Status;
use crate::domain::Transaction;
use crate::structure::BalanceXml;
use crate::structure::BankAccountFromXml;
use crate::structure::BankTransactionListXml;
use crate::structure::FinancialInstitutionXml;
use crate::structure::SignOnResponseXml;
use crate::structure::StatementResponseXml;
use crate::structure::StatementTransactionResponseXml;
use crate::structure::StatusXml;
use crate::structure::TransactionXml;

verus! {

/// The lenient reading of a timestamp text: the decoded date-time, or
/// the sentinel when it does not decode.
pub open spec fn norm_dt(s: Seq<char>) -> OfxDateTime {
    match spec_parse_datetime(s) {
        Ok(dt) => dt,
        Err(_) => OfxDateTime::spec_sentinel(),
    }
}

/// Decodes a timestamp leniently: any failure degrades to the sentinel.
pub fn normalize_datetime(s: &str) -> (r: OfxDateTime)
    ensures
        r == norm_dt(s@),
        r.wf(),
{
    match parse_custom_datetime(s) {
        Ok(dt) => dt,
        Err(_) => OfxDateTime::sentinel(),
    }
}

fn opt_clone(o: &Option<String>) -> (r: Option<String>)
    ensures
        r == *o,
{
    match o {
        Some(s) => Some(s.clone()),
        None => None,
    }
}

impl StatusXml {
    pub open spec fn spec_into(self) -> Status {
        Status { code: self.code, severity: self.severity, message: self.message }
    }

    /// The status carries over verbatim.
    pub fn to_domain(&self) -> (r: Status)
        ensures
            r == self.spec_into(),
    {
        Status {
            code: self.code,
            severity: self.severity.clone(),
            message: opt_clone(&self.message),
        }
    }
}

impl FinancialInstitutionXml {
    pub open spec fn spec_into(self) -> FinancialInstitution {
        FinancialInstitution { org: self.org, fid: self.fid }
    }

    /// The institution carries over verbatim.
    pub fn to_domain(&self) -> (r: FinancialInstitution)
        ensures
            r == self.spec_into(),
    {
        FinancialInstitution { org: self.org.clone(), fid: opt_clone(&self.fid) }
    }
}

impl BankAccountFromXml {
    pub open spec fn spec_into(self) -> BankAccount {
        BankAccount { bankid: self.bankid, acctid: self.acctid, accttype: self.accttype }
    }

    /// The account carries over verbatim.
    pub fn to_domain(&self) -> (r: BankAccount)
        ensures
            r == self.spec_into(),
    {
        BankAccount {
            bankid: self.bankid.clone(),
            acctid: self.acctid.clone(),
            accttype: self.accttype.clone(),
        }
    }
}

impl BalanceXml {
    pub open spec fn spec_into(self) -> Balance {
        Balance { balamt: self.balamt, dtasof: norm_dt(self.dtasof@) }
    }

    /// The amount carries over; the as-of time is decoded leniently.
    pub fn to_domain(&self) -> (r: Balance)
        ensures
            r == self.spec_into(),
    {
        Balance { balamt: self.balamt, dtasof: normalize_datetime(self.dtasof.as_str()) }
    }
}

impl TransactionXml {
    pub open spec fn spec_into(self) -> Transaction {
        Transaction {
            trntype: self.trntype,
            dtposted: norm_dt(self.dtposted@),
            trnamt: self.trnamt,
            fitid: self.fitid,
            name: self.name,
            memo: self.memo,
        }
    }

    /// Fields carry over verbatim; the posted time is decoded leniently.
    pub fn to_domain(&self) -> (r: Transaction)
        ensures
            r == self.spec_into(),
    {
        Transaction {
            trntype: self.trntype.clone(),
            dtposted: normalize_datetime(self.dtposted.as_str()),
            trnamt: self.trnamt,
            fitid: self.fitid.clone(),
            name: opt_clone(&self.name),
            memo: opt_clone(&self.memo),
        }
    }
}

impl SignOnResponseXml {
    pub open spec fn spec_into(self) -> SignonResponse {
        SignonResponse {
            status: self.status.spec_into(),
            dtserver: norm_dt(self.dtserver@),
            language: self.language,
            dtprofup: match self.dtprofup {
                Some(s) => Some(norm_dt(s@)),
                None => None,
            },
            fi: match self.fi {
                Some(f) => Some(f.spec_into()),
                None => None,
            },
        }
    }

    /// Status and institution carry over; the server and profile times
    /// are decoded leniently.
    pub fn to_domain(&self) -> (r: SignonResponse)
        ensures
            r == self.spec_into(),
    {
        SignonResponse {
            status: self.status.to_domain(),
            dtserver: normalize_datetime(self.dtserver.as_str()),
            language: opt_clone(&self.language),
            dtprofup: match &self.dtprofup {
                Some(s) => Some(normalize_datetime(s.as_str())),
                None => None,
            },
            fi: match &self.fi {
                Some(f) => Some(f.to_domain()),
                None => None,
            },
        }
    }
}

/// The domain transaction list a structural one corresponds to: the
/// window times decoded leniently, the transactions converted one for
/// one, in order.
pub open spec fn tranlist_into_ok(r: BankTransactionList, x: BankTransactionListXml) -> bool {
    &&& r.dtstart == norm_dt(x.dtstart@)
    &&& r.dtend == norm_dt(x.dtend@)
    &&& r.transactions@ == x.stmttrn@.map_values(|t: TransactionXml| t.spec_into())
}

impl BankTransactionListXml {
    /// Converts the list, preserving document order.
    pub fn to_domain(&self) -> (r: BankTransactionList)
        ensures
            tranlist_into_ok(r, *self),
    {
        let mut transactions: Vec<Transaction> = Vec::new();
        let mut i: usize = 0;
        while i < self.stmttrn.len()
            invariant
                i <= self.stmttrn@.len(),
                transactions@.len() == i,
                forall|k: int|
                    0 <= k < i ==> transactions@[k] == (#[trigger] self.stmttrn@[k]).spec_into(),
            decreases self.stmttrn@.len() - i,
        {
            transactions.push(self.stmttrn[i].to_domain());
            i += 1;
        }
        proof {
            assert(transactions@ =~= self.stmttrn@.map_values(
                |t: TransactionXml| t.spec_into(),
            ));
        }
        BankTransactionList {
            dtstart: normalize_datetime(self.dtstart.as_str()),
            dtend: normalize_datetime(self.dtend.as_str()),
            transactions,
        }
    }
}

/// The domain statement a structural one corresponds to.
pub open spec fn stmtrs_into_ok(r: StatementResponse, x: StatementResponseXml) -> bool {
    &&& r.curdef == x.curdef
    &&& r.bankacctfrom == x.bankacctfrom.spec_into()
    &&& (match (r.banktranlist, x.banktranlist) {
        (Some(a), Some(b)) => tranlist_into_ok(a, b),
        (None, None) => true,
        _ => false,
    })
    &&& r.ledgerbal == (match x.ledgerbal {
        Some(b) => Some(b.spec_into()),
        None => None,
    })
    &&& r.availbal == (match x.availbal {
        Some(b) => Some(b.spec_into()),
        None => None,
    })
}

impl StatementResponseXml {
    /// Converts the statement payload.
    pub fn to_domain(&self) -> (r: StatementResponse)
        ensures
            stmtrs_into_ok(r, *self),
    {
        StatementResponse {
            curdef: self.curdef.clone(),
            bankacctfrom: self.bankacctfrom.to_domain(),
            banktranlist: match &self.banktranlist {
                Some(t) => Some(t.to_domain()),
                None => None,
            },
            ledgerbal: match &self.ledgerbal {
                Some(b) => Some(b.to_domain()),
                None => None,
            },
            availbal: match &self.availbal {
                Some(b) => Some(b.to_domain()),
                None => None,
            },
        }
    }
}

/// The domain statement-transaction response a structural one
/// corresponds to.
pub open spec fn stmttrnrs_into_ok(
    r: StatementTransactionResponse,
    x: StatementTransactionResponseXml,
) -> bool {
    &&& r.trnuid == x.trnuid
    &&& r.status == x.status.spec_into()
    &&& stmtrs_into_ok(r.stmtrs, x.stmtrs)
}

/// A malformed timestamp never aborts the document: converting a
/// transaction whose posted time does not decode yields the sentinel
/// date-time in that field, and every other field carries over
/// untouched.
pub proof fn lemma_bad_timestamp_degrades_to_sentinel(x: TransactionXml)
    requires
        spec_parse_datetime(x.dtposted@) is Err,
    ensures
        x.spec_into().dtposted == OfxDateTime::spec_sentinel(),
        x.spec_into().trntype == x.trntype,
        x.spec_into().trnamt == x.trnamt,
        x.spec_into().fitid == x.fitid,
        x.spec_into().name == x.name,
        x.spec_into().memo == x.memo,
{
}

impl StatementTransactionResponseXml {
    /// Converts one statement-transaction response.
    pub fn to_domain(&self) -> (r: StatementTransactionResponse)
        ensures
            stmttrnrs_into_ok(r, *self),
    {
        StatementTransactionResponse {
            trnuid: self.trnuid.clone(),
            status: self.status.to_domain(),
            stmtrs: self.stmtrs.to_domain(),
        }
    }
}

} // verus!
