//! End-to-end decoding scenarios through `OfxParser::parse_string`.

use ofx_parser::OfxParser;
use ofx_parser::amount::Amount;
use ofx_parser::error::OfxError;

fn sample_with_version(version: &str) -> String {
    let mut s = String::new();
    s.push_str("OFXHEADER:100\n");
    s.push_str("DATA:OFXSGML\n");
    s.push_str(&format!("VERSION:{version}\n"));
    s.push_str("SECURITY:NONE\n");
    s.push_str("ENCODING:USASCII\n");
    s.push_str("\n");
    s.push_str(
        "<OFX>\n\
         <SIGNONMSGSRSV1>\n\
         <SONRS>\n\
         <STATUS>\n<CODE>0</CODE>\n<SEVERITY>INFO</SEVERITY>\n</STATUS>\n\
         <DTSERVER>20250604000000[-3:BRT]</DTSERVER>\n\
         <LANGUAGE>POR</LANGUAGE>\n\
         </SONRS>\n\
         </SIGNONMSGSRSV1>\n\
         <BANKMSGSRSV1>\n\
         <STMTTRNRS>\n\
         <TRNUID>1</TRNUID>\n\
         <STATUS><CODE>0</CODE><SEVERITY>INFO</SEVERITY></STATUS>\n\
         <STMTRS>\n\
         <CURDEF>BRL</CURDEF>\n\
         <BANKACCTFROM><BANKID>0341</BANKID><ACCTID>12345</ACCTID><ACCTTYPE>CHECKING</ACCTTYPE></BANKACCTFROM>\n\
         <BANKTRANLIST>\n\
         <DTSTART>20250601000000[-3:BRT]</DTSTART>\n\
         <DTEND>20250630000000[-3:BRT]</DTEND>\n\
         <STMTTRN><TRNTYPE>DEBIT</TRNTYPE><DTPOSTED>20250604000000[-3:BRT]</DTPOSTED><TRNAMT>-100.00</TRNAMT><FITID>a1</FITID><NAME>Coffee</NAME></STMTTRN>\n\
         <STMTTRN><TRNTYPE>CREDIT</TRNTYPE><DTPOSTED>20250605000000[-3:BRT]</DTPOSTED><TRNAMT>2000.00</TRNAMT><FITID>a2</FITID><MEMO>Salary</MEMO></STMTTRN>\n\
         </BANKTRANLIST>\n\
         <LEDGERBAL><BALAMT>1900.00</BALAMT><DTASOF>20250630000000[-3:BRT]</DTASOF></LEDGERBAL>\n\
         </STMTRS>\n\
         </STMTTRNRS>\n\
         </BANKMSGSRSV1>\n\
         </OFX>\n",
    );
    s
}

#[test]
fn decodes_document_with_two_transactions() {
    let text = sample_with_version("102");
    let doc = OfxParser::parse_string(&text).expect("well-formed document must decode");
    assert_eq!(doc.header.version, "102");
    assert_eq!(doc.header.security.as_deref(), Some("NONE"));
    assert_eq!(doc.signon.status.code, 0);
    assert_eq!(doc.signon.status.severity, "INFO");
    assert_eq!(doc.signon.language.as_deref(), Some("POR"));
    assert_eq!(doc.bank_msgs.len(), 1);
    let stmt = &doc.bank_msgs[0];
    assert_eq!(stmt.trnuid, "1");
    assert_eq!(stmt.stmtrs.curdef, "BRL");
    assert_eq!(stmt.stmtrs.bankacctfrom.bankid, "0341");
    assert_eq!(stmt.stmtrs.bankacctfrom.acctid, "12345");
    assert_eq!(stmt.stmtrs.bankacctfrom.accttype, "CHECKING");
    let list = stmt.stmtrs.banktranlist.as_ref().expect("transaction list present");
    assert_eq!(list.transactions.len(), 2);
    assert_eq!(list.transactions[0].trntype, "DEBIT");
    assert_eq!(
        list.transactions[0].trnamt,
        Amount { negative: true, mantissa: 10000, scale: 2 },
    );
    assert_eq!(list.transactions[1].trntype, "CREDIT");
    assert_eq!(
        list.transactions[1].trnamt,
        Amount { negative: false, mantissa: 200000, scale: 2 },
    );
    assert_eq!(list.transactions[0].name.as_deref(), Some("Coffee"));
    assert_eq!(list.transactions[1].memo.as_deref(), Some("Salary"));
    let ledger = stmt.stmtrs.ledgerbal.as_ref().expect("ledger balance present");
    assert_eq!(ledger.balamt, Amount { negative: false, mantissa: 190000, scale: 2 });
    assert!(stmt.stmtrs.availbal.is_none());
}

#[test]
fn sign_on_server_time_decodes_with_offset() {
    let text = sample_with_version("102");
    let doc = OfxParser::parse_string(&text).unwrap();
    let dt = doc.signon.dtserver;
    assert_eq!(dt.year, 2025);
    assert_eq!(dt.month, 6);
    assert_eq!(dt.day, 4);
    assert_eq!(dt.hour, 0);
    assert_eq!(dt.minute, 0);
    assert_eq!(dt.second, 0);
    assert_eq!(dt.offset_hours, -3);
}

#[test]
fn rejects_unsupported_version() {
    let text = sample_with_version("200");
    match OfxParser::parse_string(&text) {
        Err(OfxError::InvalidVersion(v)) => assert_eq!(v, "200"),
        other => panic!("expected InvalidVersion, got {other:?}"),
    }
}

#[test]
fn rejects_unsupported_header_marker() {
    let text = sample_with_version("102").replace("OFXHEADER:100", "OFXHEADER:999");
    match OfxParser::parse_string(&text) {
        Err(OfxError::InvalidVersion(v)) => assert_eq!(v, "999"),
        other => panic!("expected InvalidVersion, got {other:?}"),
    }
}

#[test]
fn rejects_content_without_header() {
    let text = "<OFX><SIGNONMSGSRSV1></SIGNONMSGSRSV1></OFX>";
    assert!(matches!(
        OfxParser::parse_string(text),
        Err(OfxError::InvalidContent(_))
    ));
    let with_prolog = "<?xml version=\"1.0\"?><OFX></OFX>";
    assert!(matches!(
        OfxParser::parse_string(with_prolog),
        Err(OfxError::InvalidContent(_))
    ));
    assert!(matches!(
        OfxParser::parse_string("no markers at all"),
        Err(OfxError::InvalidContent(_))
    ));
    assert!(matches!(
        OfxParser::parse_string(""),
        Err(OfxError::InvalidContent(_))
    ));
}

#[test]
fn missing_version_fails() {
    let text = sample_with_version("102").replace("VERSION:102\n", "");
    match OfxParser::parse_string(&text) {
        Err(OfxError::MissingHeader(k)) => assert_eq!(k, "VERSION"),
        other => panic!("expected MissingHeader, got {other:?}"),
    }
}

#[test]
fn header_keys_match_case_insensitively() {
    let text = sample_with_version("102")
        .replace("OFXHEADER:100", "ofxheader:100")
        .replace("VERSION:102", "Version: 102");
    let doc = OfxParser::parse_string(&text).unwrap();
    assert_eq!(doc.header.version, "102");
}

#[test]
fn header_tolerates_unknown_keys_and_stray_lines() {
    let text = sample_with_version("102").replace(
        "DATA:OFXSGML\n",
        "DATA:OFXSGML\nNOTAKEY\nSOMETHINGELSE:VALUE\n   \n",
    );
    let doc = OfxParser::parse_string(&text).unwrap();
    assert_eq!(doc.header.version, "102");
}

#[test]
fn malformed_timestamp_degrades_to_sentinel() {
    // The first transaction's posted time lacks the bracketed zone, so
    // that one field falls back to the sentinel; the rest of the
    // document is unaffected.
    let text = sample_with_version("102").replace(
        "<DTPOSTED>20250604000000[-3:BRT]</DTPOSTED>",
        "<DTPOSTED>20250604000000</DTPOSTED>",
    );
    let doc = OfxParser::parse_string(&text).unwrap();
    let list = doc.bank_msgs[0].stmtrs.banktranlist.as_ref().unwrap();
    let bad = &list.transactions[0];
    assert_eq!(bad.dtposted.year, 1970);
    assert_eq!(bad.dtposted.month, 1);
    assert_eq!(bad.dtposted.day, 1);
    assert_eq!(bad.dtposted.offset_hours, 0);
    assert_eq!(bad.trnamt, Amount { negative: true, mantissa: 10000, scale: 2 });
    let good = &list.transactions[1];
    assert_eq!(good.dtposted.year, 2025);
    assert_eq!(good.dtposted.day, 5);
}

#[test]
fn decoding_is_repeatable() {
    let text = sample_with_version("102");
    let first = OfxParser::parse_string(&text).unwrap();
    let second = OfxParser::parse_string(&text).unwrap();
    assert_eq!(first, second);
}

#[test]
fn malformed_body_fails_with_xml_error() {
    let text = sample_with_version("102").replace("</SONRS>", "</WRONG>");
    assert!(matches!(
        OfxParser::parse_string(&text),
        Err(OfxError::Xml(_))
    ));
}

#[test]
fn missing_required_body_field_fails() {
    let text = sample_with_version("102").replace("<CURDEF>BRL</CURDEF>\n", "");
    assert!(matches!(
        OfxParser::parse_string(&text),
        Err(OfxError::Xml(_))
    ));
}

#[test]
fn entity_references_are_resolved() {
    let text = sample_with_version("102").replace(
        "<NAME>Coffee</NAME>",
        "<NAME>AT&amp;T &lt;shop&gt;</NAME>",
    );
    let doc = OfxParser::parse_string(&text).unwrap();
    let list = doc.bank_msgs[0].stmtrs.banktranlist.as_ref().unwrap();
    assert_eq!(list.transactions[0].name.as_deref(), Some("AT&T <shop>"));
}

#[test]
fn decodes_with_xml_prolog_before_root() {
    let text = sample_with_version("102").replace(
        "<OFX>\n",
        "<?xml version=\"1.0\" encoding=\"UTF-8\"?>\n<OFX>\n",
    );
    let doc = OfxParser::parse_string(&text).unwrap();
    assert_eq!(doc.header.version, "102");
    assert_eq!(doc.bank_msgs.len(), 1);
}

#[test]
fn body_element_names_match_case_insensitively() {
    let text = sample_with_version("102")
        .replace("<CURDEF>BRL</CURDEF>", "<CurDef>BRL</CurDef>")
        .replace("<LANGUAGE>POR</LANGUAGE>", "<language>POR</language>");
    let doc = OfxParser::parse_string(&text).unwrap();
    assert_eq!(doc.bank_msgs[0].stmtrs.curdef, "BRL");
    assert_eq!(doc.signon.language.as_deref(), Some("POR"));
}
