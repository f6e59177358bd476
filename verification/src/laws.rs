//! The decode laws, one set per record type.
//!
//! For every record type the decoder obeys four laws, each proved here over
//! the specification-level decode functions that the executable decoders are
//! verified against: a well-formed minimal instance decodes successfully
//! with every optional field absent; omitting any one required field while
//! keeping the others and the terminator yields `MissingRequiredValue`
//! naming that field; an unrecognized tag yields `UnexpectedToken` naming
//! the tag and the enclosing record; and a stream that runs out before the
//! terminator — or right after a value field's tag — yields `UnexpectedEOF`.

use vstd::prelude::*;
use crate::amount::AmountView;
use crate::amount::spec_parse_amount;
use crate::bank_msg::BankMsgSrsV1View;
use crate::bank_msg::BankMsgSrsV1Partial;
use crate::bank_msg::BankacctfromView;
use crate::bank_msg::BankacctfromPartial;
use crate::bank_msg::StmtrsView;
use crate::bank_msg::StmtrsPartial;
use crate::bank_msg::StmttrnrsView;
use crate::bank_msg::StmttrnrsPartial;
use crate::bank_msg::lemma_spec_parse_bankacctfrom_advances;
use crate::bank_msg::lemma_spec_parse_stmtrs_advances;
use crate::bank_msg::lemma_spec_parse_stmttrnrs_advances;
use crate::bank_msg::spec_parse_bank_msg_srs_v1;
use crate::bank_msg::spec_parse_bank_msg_srs_v1_loop;
use crate::bank_msg::spec_parse_bankacctfrom;
use crate::bank_msg::spec_parse_bankacctfrom_loop;
use crate::bank_msg::spec_parse_stmtrs;
use crate::bank_msg::spec_parse_stmtrs_loop;
use crate::bank_msg::spec_parse_stmttrnrs;
use crate::bank_msg::spec_parse_stmttrnrs_loop;
use crate::credit_card::CCMsgSrsV1View;
use crate::credit_card::CCMsgSrsV1Partial;
use crate::credit_card::CcacctfromView;
use crate::credit_card::CcacctfromPartial;
use crate::credit_card::CcstmtrsView;
use crate::credit_card::CcstmtrsPartial;
use crate::credit_card::CcstmttrnrsView;
use crate::credit_card::CcstmttrnrsPartial;
use crate::credit_card::lemma_spec_parse_ccacctfrom_advances;
use crate::credit_card::lemma_spec_parse_ccstmtrs_advances;
use crate::credit_card::lemma_spec_parse_ccstmttrnrs_advances;
use crate::credit_card::spec_parse_cc_msg_srs_v1;
use crate::credit_card::spec_parse_cc_msg_srs_v1_loop;
use crate::credit_card::spec_parse_ccacctfrom;
use crate::credit_card::spec_parse_ccacctfrom_loop;
use crate::credit_card::spec_parse_ccstmtrs;
use crate::credit_card::spec_parse_ccstmtrs_loop;
use crate::credit_card::spec_parse_ccstmttrnrs;
use crate::credit_card::spec_parse_ccstmttrnrs_loop;
use crate::datetime::UtcDateTime;
use crate::datetime::spec_parse_ofx_datetime;
use crate::document::QFXView;
use crate::document::spec_parse_qfx;
use crate::document::spec_parse_qfx_loop;
use crate::errors::ErrorView;
use crate::records::AvailableBalanceView;
use crate::records::AvailableBalancePartial;
use crate::records::BankTranListView;
use crate::records::BankTranListPartial;
use crate::records::LedgerBalView;
use crate::records::LedgerBalPartial;
use crate::records::StatusView;
use crate::records::StatusPartial;
use crate::records::StmttrnView;
use crate::records::StmttrnPartial;
use crate::records::lemma_spec_parse_bank_tran_list_advances;
use crate::records::spec_parse_avail_bal;
use crate::records::spec_parse_avail_bal_loop;
use crate::records::spec_parse_bank_tran_list;
use crate::records::spec_parse_bank_tran_list_loop;
use crate::records::spec_parse_ledger_bal;
use crate::records::spec_parse_ledger_bal_loop;
use crate::records::spec_parse_status;
use crate::records::spec_parse_status_loop;
use crate::records::spec_parse_stmttrn;
use crate::records::spec_parse_stmttrn_loop;
use crate::sign_on::FinancialInstitutionView;
use crate::sign_on::FinancialInstitutionPartial;
use crate::sign_on::SignOnMsgSrsV1View;
use crate::sign_on::SignOnMsgSrsV1Partial;
use crate::sign_on::SonrsView;
use crate::sign_on::SonrsPartial;
use crate::sign_on::lemma_spec_parse_financial_institution_advances;
use crate::sign_on::lemma_spec_parse_sonrs_advances;
use crate::sign_on::spec_parse_financial_institution;
use crate::sign_on::spec_parse_financial_institution_loop;
use crate::sign_on::spec_parse_sign_on_msg_srs_v1;
use crate::sign_on::spec_parse_sign_on_msg_srs_v1_loop;
use crate::sign_on::spec_parse_sonrs;
use crate::sign_on::spec_parse_sonrs_loop;
use crate::bank_msg::lemma_spec_parse_bank_msg_srs_v1_advances;
use crate::credit_card::lemma_spec_parse_cc_msg_srs_v1_advances;
use crate::document::lemma_spec_parse_qfx_loop_advances;
use crate::records::lemma_spec_parse_avail_bal_advances;
use crate::records::lemma_spec_parse_ledger_bal_advances;
use crate::records::lemma_spec_parse_status_advances;
use crate::records::lemma_spec_parse_stmttrn_advances;
use crate::records::lemma_spec_parse_status_loop_advances;
use crate::records::lemma_spec_parse_stmttrn_loop_advances;
use crate::records::lemma_spec_parse_ledger_bal_loop_advances;
use crate::records::lemma_spec_parse_avail_bal_loop_advances;
use crate::records::lemma_spec_parse_bank_tran_list_loop_advances;
use crate::bank_msg::lemma_spec_parse_bankacctfrom_loop_advances;
use crate::bank_msg::lemma_spec_parse_stmtrs_loop_advances;
use crate::bank_msg::lemma_spec_parse_stmttrnrs_loop_advances;
use crate::bank_msg::lemma_spec_parse_bank_msg_srs_v1_loop_advances;
use crate::credit_card::lemma_spec_parse_ccacctfrom_loop_advances;
use crate::credit_card::lemma_spec_parse_ccstmtrs_loop_advances;
use crate::credit_card::lemma_spec_parse_ccstmttrnrs_loop_advances;
use crate::credit_card::lemma_spec_parse_cc_msg_srs_v1_loop_advances;
use crate::sign_on::lemma_spec_parse_financial_institution_loop_advances;
use crate::sign_on::lemma_spec_parse_sonrs_loop_advances;
use crate::sign_on::lemma_spec_parse_sign_on_msg_srs_v1_loop_advances;
use crate::sign_on::lemma_spec_parse_sign_on_msg_srs_v1_advances;

verus! {

proof fn status_tag_facts()
    ensures
        "CODE"@ != "SEVERITY"@,
        "CODE"@ != "MESSAGE"@,
        "CODE"@ != "/STATUS"@,
        "SEVERITY"@ != "MESSAGE"@,
        "SEVERITY"@ != "/STATUS"@,
        "MESSAGE"@ != "/STATUS"@,
{
    reveal_strlit("/STATUS");
    reveal_strlit("CODE");
    reveal_strlit("MESSAGE");
    reveal_strlit("SEVERITY");
    assert("/STATUS"@.len() == 7);
    assert("CODE"@.len() == 4);
    assert("MESSAGE"@.len() == 7);
    assert("SEVERITY"@.len() == 8);
    assert("MESSAGE"@[0] != "/STATUS"@[0]);
    assert("MESSAGE"@ != "/STATUS"@);
}

/// A well-formed minimal STATUS instance — only required fields, then the
/// terminator — decodes successfully, with every optional field absent.
pub proof fn lemma_status_minimal(toks: Seq<Seq<char>>, pos: int)
    requires
        0 <= pos,
        pos + 1 < toks.len(),
        toks[pos] == "CODE"@,
        pos + 2 + 1 < toks.len(),
        toks[pos + 2] == "SEVERITY"@,
        pos + 2 + 2 < toks.len(),
        toks[pos + 2 + 2] == "/STATUS"@,
    ensures
        spec_parse_status(toks, pos) == Ok::<(StatusView, int), ErrorView>(
            (
                StatusView {
                    code: toks[pos + 1],
                    severity: toks[pos + 2 + 1],
                    message: None,
                },
                pos + 2 + 2 + 1,
            ),
        ),
{
    status_tag_facts();
    assert(spec_parse_status_loop(
        toks,
        pos,
        StatusPartial {
            code: None,
            severity: None,
            message: None,
        },
    ) == spec_parse_status_loop(
        toks,
        pos + 2,
        StatusPartial {
            code: Some(toks[pos + 1]),
            severity: None,
            message: None,
        },
    ));
    assert(spec_parse_status_loop(
        toks,
        pos + 2,
        StatusPartial {
            code: Some(toks[pos + 1]),
            severity: None,
            message: None,
        },
    ) == spec_parse_status_loop(
        toks,
        pos + 2 + 2,
        StatusPartial {
            code: Some(toks[pos + 1]),
            severity: Some(toks[pos + 2 + 1]),
            message: None,
        },
    ));
}

/// Omitting the required CODE field of a STATUS record, while keeping the
/// other required fields and the terminator, fails with
/// `MissingRequiredValue` naming that field.
pub proof fn lemma_status_missing_code(toks: Seq<Seq<char>>, pos: int)
    requires
        0 <= pos,
        pos + 1 < toks.len(),
        toks[pos] == "SEVERITY"@,
        pos + 2 < toks.len(),
        toks[pos + 2] == "/STATUS"@,
    ensures
        spec_parse_status(toks, pos) == Err::<(StatusView, int), ErrorView>(
            ErrorView::MissingRequiredValue("Missing CODE in STATUS"@),
        ),
{
    status_tag_facts();
    assert(spec_parse_status_loop(
        toks,
        pos,
        StatusPartial {
            code: None,
            severity: None,
            message: None,
        },
    ) == spec_parse_status_loop(
        toks,
        pos + 2,
        StatusPartial {
            code: None,
            severity: Some(toks[pos + 1]),
            message: None,
        },
    ));
}

/// Omitting the required SEVERITY field of a STATUS record, while keeping the
/// other required fields and the terminator, fails with
/// `MissingRequiredValue` naming that field.
pub proof fn lemma_status_missing_severity(toks: Seq<Seq<char>>, pos: int)
    requires
        0 <= pos,
        pos + 1 < toks.len(),
        toks[pos] == "CODE"@,
        pos + 2 < toks.len(),
        toks[pos + 2] == "/STATUS"@,
    ensures
        spec_parse_status(toks, pos) == Err::<(StatusView, int), ErrorView>(
            ErrorView::MissingRequiredValue("Missing SEVERITY in STATUS"@),
        ),
{
    status_tag_facts();
    assert(spec_parse_status_loop(
        toks,
        pos,
        StatusPartial {
            code: None,
            severity: None,
            message: None,
        },
    ) == spec_parse_status_loop(
        toks,
        pos + 2,
        StatusPartial {
            code: Some(toks[pos + 1]),
            severity: None,
            message: None,
        },
    ));
}

/// At the STATUS terminator, the decode fails with `MissingRequiredValue`
/// naming the first required field, in schema order, that was never
/// set — whatever fields were seen before it and in whatever order —
/// and succeeds with exactly the fields seen once every required
/// field is set, absent optional fields staying absent.
pub proof fn lemma_status_at_terminator(toks: Seq<Seq<char>>, pos: int, acc: StatusPartial)
    requires
        0 <= pos < toks.len(),
        toks[pos] == "/STATUS"@,
    ensures
        acc.code is None ==> spec_parse_status_loop(toks, pos, acc) == Err::<(StatusView, int), ErrorView>(
            ErrorView::MissingRequiredValue("Missing CODE in STATUS"@),
        ),
        acc.code is Some && acc.severity is None ==> spec_parse_status_loop(toks, pos, acc) == Err::<(StatusView, int), ErrorView>(
            ErrorView::MissingRequiredValue("Missing SEVERITY in STATUS"@),
        ),
        acc.code is Some && acc.severity is Some ==> spec_parse_status_loop(toks, pos, acc) == Ok::<(StatusView, int), ErrorView>(
            (
                StatusView {
                    code: acc.code->0,
                    severity: acc.severity->0,
                    message: acc.message,
                },
                pos + 1,
            ),
        ),
{
    status_tag_facts();
}

/// A token that is neither a field tag of STATUS nor its terminator fails
/// the decode at once with `UnexpectedToken` naming the token and the
/// enclosing record, whatever fields were already seen.
pub proof fn lemma_status_unknown_tag(toks: Seq<Seq<char>>, pos: int, acc: StatusPartial)
    requires
        0 <= pos < toks.len(),
        toks[pos] != "CODE"@,
        toks[pos] != "SEVERITY"@,
        toks[pos] != "MESSAGE"@,
        toks[pos] != "/STATUS"@,
    ensures
        spec_parse_status_loop(toks, pos, acc) == Err::<(StatusView, int), ErrorView>(
            ErrorView::UnexpectedToken(
                "Found unexpected token "@ + toks[pos] + " in the STATUS type of CREDITCARDMSGSRSV1"@,
            ),
        ),
{
}

/// A stream that is exhausted before the STATUS terminator fails with
/// `UnexpectedEOF` naming the terminator still awaited, whatever fields
/// were already seen.
pub proof fn lemma_status_truncated(toks: Seq<Seq<char>>, pos: int, acc: StatusPartial)
    requires
        pos >= toks.len(),
    ensures
        spec_parse_status_loop(toks, pos, acc) == Err::<(StatusView, int), ErrorView>(
            ErrorView::UnexpectedEOF("Found unexpected EOF. Was still expecting the '/STATUS' token in the CREDITCARDMSGSRSV1 subtype"@),
        ),
{
}

/// A stream truncated right after a value field's tag of STATUS fails
/// with `UnexpectedEOF` naming that field, whatever fields were
/// already seen.
pub proof fn lemma_status_truncated_after_tag(toks: Seq<Seq<char>>, pos: int, acc: StatusPartial)
    requires
        0 <= pos,
        pos + 1 == toks.len(),
    ensures
        toks[pos] == "CODE"@ ==> spec_parse_status_loop(toks, pos, acc) == Err::<(StatusView, int), ErrorView>(
            ErrorView::UnexpectedEOF("Expected token following the CODE token in the STATUS type of CREDITCARDMSGSRSV1"@),
        ),
        toks[pos] == "SEVERITY"@ ==> spec_parse_status_loop(toks, pos, acc) == Err::<(StatusView, int), ErrorView>(
            ErrorView::UnexpectedEOF("Expected token following the SEVERITY token in the STATUS type"@),
        ),
        toks[pos] == "MESSAGE"@ ==> spec_parse_status_loop(toks, pos, acc) == Err::<(StatusView, int), ErrorView>(
            ErrorView::UnexpectedEOF("Expected token following the MESSAGE token in the STATUS type"@),
        ),
{
    status_tag_facts();
}

/// A successful STATUS decode reads only the tokens it consumes: on any
/// stream that agrees with `toks` on `[pos, p)`, the decode returns the
/// same record and the same end position.
#[verifier::rlimit(50)]
pub proof fn lemma_status_frame(
    toks: Seq<Seq<char>>,
    toks2: Seq<Seq<char>>,
    pos: int,
    acc: StatusPartial,
    v: StatusView,
    p: int,
)
    requires
        spec_parse_status_loop(toks, pos, acc) == Ok::<(StatusView, int), ErrorView>((v, p)),
        toks2.len() >= p,
        forall|j: int| pos <= j < p ==> toks2[j] == toks[j],
    ensures
        spec_parse_status_loop(toks2, pos, acc) == Ok::<(StatusView, int), ErrorView>((v, p)),
    decreases toks.len() - pos,
{
    lemma_spec_parse_status_loop_advances(toks, pos, acc);
    if 0 <= pos < toks.len() {
        let t = toks[pos];
        if t == "CODE"@ {
            if pos + 1 < toks.len() {
                let acc1 = StatusPartial { code: Some(toks[pos + 1]), ..acc };
                lemma_spec_parse_status_loop_advances(toks, pos + 2, acc1);
                lemma_status_frame(toks, toks2, pos + 2, acc1, v, p);
            }
        } else if t == "SEVERITY"@ {
            if pos + 1 < toks.len() {
                let acc1 = StatusPartial { severity: Some(toks[pos + 1]), ..acc };
                lemma_spec_parse_status_loop_advances(toks, pos + 2, acc1);
                lemma_status_frame(toks, toks2, pos + 2, acc1, v, p);
            }
        } else if t == "MESSAGE"@ {
            if pos + 1 < toks.len() {
                let acc1 = StatusPartial { message: Some(toks[pos + 1]), ..acc };
                lemma_spec_parse_status_loop_advances(toks, pos + 2, acc1);
                lemma_status_frame(toks, toks2, pos + 2, acc1, v, p);
            }
        }
    }
}

/// Truncating the token stream of a successful STATUS decode anywhere
/// before the position past its terminator yields `UnexpectedEOF`,
/// whatever fields were already seen.
#[verifier::rlimit(50)]
pub proof fn lemma_status_truncated_before_terminator(
    toks: Seq<Seq<char>>,
    pos: int,
    acc: StatusPartial,
    cut: int,
    v: StatusView,
    p: int,
)
    requires
        spec_parse_status_loop(toks, pos, acc) == Ok::<(StatusView, int), ErrorView>((v, p)),
        pos <= cut < p,
    ensures
        spec_parse_status_loop(toks.subrange(0, cut), pos, acc) matches Err(ErrorView::UnexpectedEOF(_)),
    decreases toks.len() - pos,
{
    lemma_spec_parse_status_loop_advances(toks, pos, acc);
    let toks2 = toks.subrange(0, cut);
    if cut > pos {
        let t = toks[pos];
        if t == "CODE"@ {
            if pos + 1 < toks.len() && cut > pos + 1 {
                let acc1 = StatusPartial { code: Some(toks[pos + 1]), ..acc };
                lemma_spec_parse_status_loop_advances(toks, pos + 2, acc1);
                lemma_status_truncated_before_terminator(toks, pos + 2, acc1, cut, v, p);
            }
        } else if t == "SEVERITY"@ {
            if pos + 1 < toks.len() && cut > pos + 1 {
                let acc1 = StatusPartial { severity: Some(toks[pos + 1]), ..acc };
                lemma_spec_parse_status_loop_advances(toks, pos + 2, acc1);
                lemma_status_truncated_before_terminator(toks, pos + 2, acc1, cut, v, p);
            }
        } else if t == "MESSAGE"@ {
            if pos + 1 < toks.len() && cut > pos + 1 {
                let acc1 = StatusPartial { message: Some(toks[pos + 1]), ..acc };
                lemma_spec_parse_status_loop_advances(toks, pos + 2, acc1);
                lemma_status_truncated_before_terminator(toks, pos + 2, acc1, cut, v, p);
            }
        }
    }
}

proof fn ledger_bal_tag_facts()
    ensures
        "BALAMT"@ != "DTASOF"@,
        "BALAMT"@ != "/LEDGERBAL"@,
        "DTASOF"@ != "/LEDGERBAL"@,
{
    reveal_strlit("/LEDGERBAL");
    reveal_strlit("BALAMT");
    reveal_strlit("DTASOF");
    assert("/LEDGERBAL"@.len() == 10);
    assert("BALAMT"@.len() == 6);
    assert("DTASOF"@.len() == 6);
    assert("BALAMT"@[0] != "DTASOF"@[0]);
    assert("BALAMT"@ != "DTASOF"@);
}

/// A well-formed minimal LEDGERBAL instance — only required fields, then the
/// terminator — decodes successfully, with every optional field absent.
pub proof fn lemma_ledger_bal_minimal(toks: Seq<Seq<char>>, pos: int, v_dt_as_of: UtcDateTime)
    requires
        0 <= pos,
        pos + 1 < toks.len(),
        toks[pos] == "BALAMT"@,
        pos + 2 + 1 < toks.len(),
        toks[pos + 2] == "DTASOF"@,
        spec_parse_ofx_datetime(toks[pos + 2 + 1]) == Some(v_dt_as_of),
        pos + 2 + 2 < toks.len(),
        toks[pos + 2 + 2] == "/LEDGERBAL"@,
    ensures
        spec_parse_ledger_bal(toks, pos) == Ok::<(LedgerBalView, int), ErrorView>(
            (
                LedgerBalView {
                    balance_amount: toks[pos + 1],
                    dt_as_of: v_dt_as_of,
                },
                pos + 2 + 2 + 1,
            ),
        ),
{
    ledger_bal_tag_facts();
    assert(spec_parse_ledger_bal_loop(
        toks,
        pos,
        LedgerBalPartial {
            balance_amount: None,
            dt_as_of: None,
        },
    ) == spec_parse_ledger_bal_loop(
        toks,
        pos + 2,
        LedgerBalPartial {
            balance_amount: Some(toks[pos + 1]),
            dt_as_of: None,
        },
    ));
    assert(spec_parse_ledger_bal_loop(
        toks,
        pos + 2,
        LedgerBalPartial {
            balance_amount: Some(toks[pos + 1]),
            dt_as_of: None,
        },
    ) == spec_parse_ledger_bal_loop(
        toks,
        pos + 2 + 2,
        LedgerBalPartial {
            balance_amount: Some(toks[pos + 1]),
            dt_as_of: Some(v_dt_as_of),
        },
    ));
}

/// Omitting the required BALAMT field of a LEDGERBAL record, while keeping the
/// other required fields and the terminator, fails with
/// `MissingRequiredValue` naming that field.
pub proof fn lemma_ledger_bal_missing_balance_amount(toks: Seq<Seq<char>>, pos: int, v_dt_as_of: UtcDateTime)
    requires
        0 <= pos,
        pos + 1 < toks.len(),
        toks[pos] == "DTASOF"@,
        spec_parse_ofx_datetime(toks[pos + 1]) == Some(v_dt_as_of),
        pos + 2 < toks.len(),
        toks[pos + 2] == "/LEDGERBAL"@,
    ensures
        spec_parse_ledger_bal(toks, pos) == Err::<(LedgerBalView, int), ErrorView>(
            ErrorView::MissingRequiredValue("Missing BALAMT in LEDGERBAL"@),
        ),
{
    ledger_bal_tag_facts();
    assert(spec_parse_ledger_bal_loop(
        toks,
        pos,
        LedgerBalPartial {
            balance_amount: None,
            dt_as_of: None,
        },
    ) == spec_parse_ledger_bal_loop(
        toks,
        pos + 2,
        LedgerBalPartial {
            balance_amount: None,
            dt_as_of: Some(v_dt_as_of),
        },
    ));
}

/// Omitting the required DTASOF field of a LEDGERBAL record, while keeping the
/// other required fields and the terminator, fails with
/// `MissingRequiredValue` naming that field.
pub proof fn lemma_ledger_bal_missing_dt_as_of(toks: Seq<Seq<char>>, pos: int)
    requires
        0 <= pos,
        pos + 1 < toks.len(),
        toks[pos] == "BALAMT"@,
        pos + 2 < toks.len(),
        toks[pos + 2] == "/LEDGERBAL"@,
    ensures
        spec_parse_ledger_bal(toks, pos) == Err::<(LedgerBalView, int), ErrorView>(
            ErrorView::MissingRequiredValue("Missing DTASOF in LEDGERBAL"@),
        ),
{
    ledger_bal_tag_facts();
    assert(spec_parse_ledger_bal_loop(
        toks,
        pos,
        LedgerBalPartial {
            balance_amount: None,
            dt_as_of: None,
        },
    ) == spec_parse_ledger_bal_loop(
        toks,
        pos + 2,
        LedgerBalPartial {
            balance_amount: Some(toks[pos + 1]),
            dt_as_of: None,
        },
    ));
}

/// At the LEDGERBAL terminator, the decode fails with `MissingRequiredValue`
/// naming the first required field, in schema order, that was never
/// set — whatever fields were seen before it and in whatever order —
/// and succeeds with exactly the fields seen once every required
/// field is set, absent optional fields staying absent.
pub proof fn lemma_ledger_bal_at_terminator(toks: Seq<Seq<char>>, pos: int, acc: LedgerBalPartial)
    requires
        0 <= pos < toks.len(),
        toks[pos] == "/LEDGERBAL"@,
    ensures
        acc.balance_amount is None ==> spec_parse_ledger_bal_loop(toks, pos, acc) == Err::<(LedgerBalView, int), ErrorView>(
            ErrorView::MissingRequiredValue("Missing BALAMT in LEDGERBAL"@),
        ),
        acc.balance_amount is Some && acc.dt_as_of is None ==> spec_parse_ledger_bal_loop(toks, pos, acc) == Err::<(LedgerBalView, int), ErrorView>(
            ErrorView::MissingRequiredValue("Missing DTASOF in LEDGERBAL"@),
        ),
        acc.balance_amount is Some && acc.dt_as_of is Some ==> spec_parse_ledger_bal_loop(toks, pos, acc) == Ok::<(LedgerBalView, int), ErrorView>(
            (
                LedgerBalView {
                    balance_amount: acc.balance_amount->0,
                    dt_as_of: acc.dt_as_of->0,
                },
                pos + 1,
            ),
        ),
{
    ledger_bal_tag_facts();
}

/// A token that is neither a field tag of LEDGERBAL nor its terminator fails
/// the decode at once with `UnexpectedToken` naming the token and the
/// enclosing record, whatever fields were already seen.
pub proof fn lemma_ledger_bal_unknown_tag(toks: Seq<Seq<char>>, pos: int, acc: LedgerBalPartial)
    requires
        0 <= pos < toks.len(),
        toks[pos] != "BALAMT"@,
        toks[pos] != "DTASOF"@,
        toks[pos] != "/LEDGERBAL"@,
    ensures
        spec_parse_ledger_bal_loop(toks, pos, acc) == Err::<(LedgerBalView, int), ErrorView>(
            ErrorView::UnexpectedToken(
                "Found unexpected token "@ + toks[pos] + " in the LEDGERBAL type"@,
            ),
        ),
{
}

/// A stream that is exhausted before the LEDGERBAL terminator fails with
/// `UnexpectedEOF` naming the terminator still awaited, whatever fields
/// were already seen.
pub proof fn lemma_ledger_bal_truncated(toks: Seq<Seq<char>>, pos: int, acc: LedgerBalPartial)
    requires
        pos >= toks.len(),
    ensures
        spec_parse_ledger_bal_loop(toks, pos, acc) == Err::<(LedgerBalView, int), ErrorView>(
            ErrorView::UnexpectedEOF("Found unexpected EOF. Was still expecting the '/LEDGERBAL' token"@),
        ),
{
}

/// A stream truncated right after a value field's tag of LEDGERBAL fails
/// with `UnexpectedEOF` naming that field, whatever fields were
/// already seen.
pub proof fn lemma_ledger_bal_truncated_after_tag(toks: Seq<Seq<char>>, pos: int, acc: LedgerBalPartial)
    requires
        0 <= pos,
        pos + 1 == toks.len(),
    ensures
        toks[pos] == "BALAMT"@ ==> spec_parse_ledger_bal_loop(toks, pos, acc) == Err::<(LedgerBalView, int), ErrorView>(
            ErrorView::UnexpectedEOF("Expected value following BALAMT in LEDGERBAL"@),
        ),
        toks[pos] == "DTASOF"@ ==> spec_parse_ledger_bal_loop(toks, pos, acc) == Err::<(LedgerBalView, int), ErrorView>(
            ErrorView::UnexpectedEOF("Expected token following the DTASOF token"@),
        ),
{
    ledger_bal_tag_facts();
}

/// A successful LEDGERBAL decode reads only the tokens it consumes: on any
/// stream that agrees with `toks` on `[pos, p)`, the decode returns the
/// same record and the same end position.
#[verifier::rlimit(50)]
pub proof fn lemma_ledger_bal_frame(
    toks: Seq<Seq<char>>,
    toks2: Seq<Seq<char>>,
    pos: int,
    acc: LedgerBalPartial,
    v: LedgerBalView,
    p: int,
)
    requires
        spec_parse_ledger_bal_loop(toks, pos, acc) == Ok::<(LedgerBalView, int), ErrorView>((v, p)),
        toks2.len() >= p,
        forall|j: int| pos <= j < p ==> toks2[j] == toks[j],
    ensures
        spec_parse_ledger_bal_loop(toks2, pos, acc) == Ok::<(LedgerBalView, int), ErrorView>((v, p)),
    decreases toks.len() - pos,
{
    lemma_spec_parse_ledger_bal_loop_advances(toks, pos, acc);
    if 0 <= pos < toks.len() {
        let t = toks[pos];
        if t == "BALAMT"@ {
            if pos + 1 < toks.len() {
                let acc1 = LedgerBalPartial { balance_amount: Some(toks[pos + 1]), ..acc };
                lemma_spec_parse_ledger_bal_loop_advances(toks, pos + 2, acc1);
                lemma_ledger_bal_frame(toks, toks2, pos + 2, acc1, v, p);
            }
        } else if t == "DTASOF"@ {
            if pos + 1 < toks.len() {
                match spec_parse_ofx_datetime(toks[pos + 1]) {
                    Some(dt) => {
                        let acc1 = LedgerBalPartial { dt_as_of: Some(dt), ..acc };
                        lemma_spec_parse_ledger_bal_loop_advances(toks, pos + 2, acc1);
                        lemma_ledger_bal_frame(toks, toks2, pos + 2, acc1, v, p);
                    },
                    None => {},
                }
            }
        }
    }
}

/// Truncating the token stream of a successful LEDGERBAL decode anywhere
/// before the position past its terminator yields `UnexpectedEOF`,
/// whatever fields were already seen.
#[verifier::rlimit(50)]
pub proof fn lemma_ledger_bal_truncated_before_terminator(
    toks: Seq<Seq<char>>,
    pos: int,
    acc: LedgerBalPartial,
    cut: int,
    v: LedgerBalView,
    p: int,
)
    requires
        spec_parse_ledger_bal_loop(toks, pos, acc) == Ok::<(LedgerBalView, int), ErrorView>((v, p)),
        pos <= cut < p,
    ensures
        spec_parse_ledger_bal_loop(toks.subrange(0, cut), pos, acc) matches Err(ErrorView::UnexpectedEOF(_)),
    decreases toks.len() - pos,
{
    lemma_spec_parse_ledger_bal_loop_advances(toks, pos, acc);
    let toks2 = toks.subrange(0, cut);
    if cut > pos {
        let t = toks[pos];
        if t == "BALAMT"@ {
            if pos + 1 < toks.len() && cut > pos + 1 {
                let acc1 = LedgerBalPartial { balance_amount: Some(toks[pos + 1]), ..acc };
                lemma_spec_parse_ledger_bal_loop_advances(toks, pos + 2, acc1);
                lemma_ledger_bal_truncated_before_terminator(toks, pos + 2, acc1, cut, v, p);
            }
        } else if t == "DTASOF"@ {
            if pos + 1 < toks.len() {
                match spec_parse_ofx_datetime(toks[pos + 1]) {
                    Some(dt) => {
                        if cut > pos + 1 {
                            let acc1 = LedgerBalPartial { dt_as_of: Some(dt), ..acc };
                            lemma_spec_parse_ledger_bal_loop_advances(toks, pos + 2, acc1);
                            lemma_ledger_bal_truncated_before_terminator(toks, pos + 2, acc1, cut, v, p);
                        }
                    },
                    None => {},
                }
            }
        }
    }
}

proof fn avail_bal_tag_facts()
    ensures
        "BALAMT"@ != "DTASOF"@,
        "BALAMT"@ != "/AVAILBAL"@,
        "DTASOF"@ != "/AVAILBAL"@,
{
    reveal_strlit("/AVAILBAL");
    reveal_strlit("BALAMT");
    reveal_strlit("DTASOF");
    assert("/AVAILBAL"@.len() == 9);
    assert("BALAMT"@.len() == 6);
    assert("DTASOF"@.len() == 6);
    assert("BALAMT"@[0] != "DTASOF"@[0]);
    assert("BALAMT"@ != "DTASOF"@);
}

/// A well-formed minimal AVAILBAL instance — only required fields, then the
/// terminator — decodes successfully, with every optional field absent.
pub proof fn lemma_avail_bal_minimal(toks: Seq<Seq<char>>, pos: int, v_dt_as_of: UtcDateTime)
    requires
        0 <= pos,
        pos + 1 < toks.len(),
        toks[pos] == "BALAMT"@,
        pos + 2 + 1 < toks.len(),
        toks[pos + 2] == "DTASOF"@,
        spec_parse_ofx_datetime(toks[pos + 2 + 1]) == Some(v_dt_as_of),
        pos + 2 + 2 < toks.len(),
        toks[pos + 2 + 2] == "/AVAILBAL"@,
    ensures
        spec_parse_avail_bal(toks, pos) == Ok::<(AvailableBalanceView, int), ErrorView>(
            (
                AvailableBalanceView {
                    balance_amount: toks[pos + 1],
                    dt_as_of: v_dt_as_of,
                },
                pos + 2 + 2 + 1,
            ),
        ),
{
    avail_bal_tag_facts();
    assert(spec_parse_avail_bal_loop(
        toks,
        pos,
        AvailableBalancePartial {
            balance_amount: None,
            dt_as_of: None,
        },
    ) == spec_parse_avail_bal_loop(
        toks,
        pos + 2,
        AvailableBalancePartial {
            balance_amount: Some(toks[pos + 1]),
            dt_as_of: None,
        },
    ));
    assert(spec_parse_avail_bal_loop(
        toks,
        pos + 2,
        AvailableBalancePartial {
            balance_amount: Some(toks[pos + 1]),
            dt_as_of: None,
        },
    ) == spec_parse_avail_bal_loop(
        toks,
        pos + 2 + 2,
        AvailableBalancePartial {
            balance_amount: Some(toks[pos + 1]),
            dt_as_of: Some(v_dt_as_of),
        },
    ));
}

/// Omitting the required BALAMT field of a AVAILBAL record, while keeping the
/// other required fields and the terminator, fails with
/// `MissingRequiredValue` naming that field.
pub proof fn lemma_avail_bal_missing_balance_amount(toks: Seq<Seq<char>>, pos: int, v_dt_as_of: UtcDateTime)
    requires
        0 <= pos,
        pos + 1 < toks.len(),
        toks[pos] == "DTASOF"@,
        spec_parse_ofx_datetime(toks[pos + 1]) == Some(v_dt_as_of),
        pos + 2 < toks.len(),
        toks[pos + 2] == "/AVAILBAL"@,
    ensures
        spec_parse_avail_bal(toks, pos) == Err::<(AvailableBalanceView, int), ErrorView>(
            ErrorView::MissingRequiredValue("Missing BALAMT in AVAILBAL"@),
        ),
{
    avail_bal_tag_facts();
    assert(spec_parse_avail_bal_loop(
        toks,
        pos,
        AvailableBalancePartial {
            balance_amount: None,
            dt_as_of: None,
        },
    ) == spec_parse_avail_bal_loop(
        toks,
        pos + 2,
        AvailableBalancePartial {
            balance_amount: None,
            dt_as_of: Some(v_dt_as_of),
        },
    ));
}

/// Omitting the required DTASOF field of a AVAILBAL record, while keeping the
/// other required fields and the terminator, fails with
/// `MissingRequiredValue` naming that field.
pub proof fn lemma_avail_bal_missing_dt_as_of(toks: Seq<Seq<char>>, pos: int)
    requires
        0 <= pos,
        pos + 1 < toks.len(),
        toks[pos] == "BALAMT"@,
        pos + 2 < toks.len(),
        toks[pos + 2] == "/AVAILBAL"@,
    ensures
        spec_parse_avail_bal(toks, pos) == Err::<(AvailableBalanceView, int), ErrorView>(
            ErrorView::MissingRequiredValue("Missing DTASOF in AVAILBAL"@),
        ),
{
    avail_bal_tag_facts();
    assert(spec_parse_avail_bal_loop(
        toks,
        pos,
        AvailableBalancePartial {
            balance_amount: None,
            dt_as_of: None,
        },
    ) == spec_parse_avail_bal_loop(
        toks,
        pos + 2,
        AvailableBalancePartial {
            balance_amount: Some(toks[pos + 1]),
            dt_as_of: None,
        },
    ));
}

/// At the AVAILBAL terminator, the decode fails with `MissingRequiredValue`
/// naming the first required field, in schema order, that was never
/// set — whatever fields were seen before it and in whatever order —
/// and succeeds with exactly the fields seen once every required
/// field is set, absent optional fields staying absent.
pub proof fn lemma_avail_bal_at_terminator(toks: Seq<Seq<char>>, pos: int, acc: AvailableBalancePartial)
    requires
        0 <= pos < toks.len(),
        toks[pos] == "/AVAILBAL"@,
    ensures
        acc.balance_amount is None ==> spec_parse_avail_bal_loop(toks, pos, acc) == Err::<(AvailableBalanceView, int), ErrorView>(
            ErrorView::MissingRequiredValue("Missing BALAMT in AVAILBAL"@),
        ),
        acc.balance_amount is Some && acc.dt_as_of is None ==> spec_parse_avail_bal_loop(toks, pos, acc) == Err::<(AvailableBalanceView, int), ErrorView>(
            ErrorView::MissingRequiredValue("Missing DTASOF in AVAILBAL"@),
        ),
        acc.balance_amount is Some && acc.dt_as_of is Some ==> spec_parse_avail_bal_loop(toks, pos, acc) == Ok::<(AvailableBalanceView, int), ErrorView>(
            (
                AvailableBalanceView {
                    balance_amount: acc.balance_amount->0,
                    dt_as_of: acc.dt_as_of->0,
                },
                pos + 1,
            ),
        ),
{
    avail_bal_tag_facts();
}

/// A token that is neither a field tag of AVAILBAL nor its terminator fails
/// the decode at once with `UnexpectedToken` naming the token and the
/// enclosing record, whatever fields were already seen.
pub proof fn lemma_avail_bal_unknown_tag(toks: Seq<Seq<char>>, pos: int, acc: AvailableBalancePartial)
    requires
        0 <= pos < toks.len(),
        toks[pos] != "BALAMT"@,
        toks[pos] != "DTASOF"@,
        toks[pos] != "/AVAILBAL"@,
    ensures
        spec_parse_avail_bal_loop(toks, pos, acc) == Err::<(AvailableBalanceView, int), ErrorView>(
            ErrorView::UnexpectedToken(
                "Found unexpected token "@ + toks[pos] + " in the AVAILBAL type"@,
            ),
        ),
{
}

/// A stream that is exhausted before the AVAILBAL terminator fails with
/// `UnexpectedEOF` naming the terminator still awaited, whatever fields
/// were already seen.
pub proof fn lemma_avail_bal_truncated(toks: Seq<Seq<char>>, pos: int, acc: AvailableBalancePartial)
    requires
        pos >= toks.len(),
    ensures
        spec_parse_avail_bal_loop(toks, pos, acc) == Err::<(AvailableBalanceView, int), ErrorView>(
            ErrorView::UnexpectedEOF("Found unexpected EOF. Was still expecting the '/AVAILBAL' token"@),
        ),
{
}

/// A stream truncated right after a value field's tag of AVAILBAL fails
/// with `UnexpectedEOF` naming that field, whatever fields were
/// already seen.
pub proof fn lemma_avail_bal_truncated_after_tag(toks: Seq<Seq<char>>, pos: int, acc: AvailableBalancePartial)
    requires
        0 <= pos,
        pos + 1 == toks.len(),
    ensures
        toks[pos] == "BALAMT"@ ==> spec_parse_avail_bal_loop(toks, pos, acc) == Err::<(AvailableBalanceView, int), ErrorView>(
            ErrorView::UnexpectedEOF("Expected token following the BALAMT token"@),
        ),
        toks[pos] == "DTASOF"@ ==> spec_parse_avail_bal_loop(toks, pos, acc) == Err::<(AvailableBalanceView, int), ErrorView>(
            ErrorView::UnexpectedEOF("Expected token following the DTASOF token"@),
        ),
{
    avail_bal_tag_facts();
}

/// A successful AVAILBAL decode reads only the tokens it consumes: on any
/// stream that agrees with `toks` on `[pos, p)`, the decode returns the
/// same record and the same end position.
#[verifier::rlimit(50)]
pub proof fn lemma_avail_bal_frame(
    toks: Seq<Seq<char>>,
    toks2: Seq<Seq<char>>,
    pos: int,
    acc: AvailableBalancePartial,
    v: AvailableBalanceView,
    p: int,
)
    requires
        spec_parse_avail_bal_loop(toks, pos, acc) == Ok::<(AvailableBalanceView, int), ErrorView>((v, p)),
        toks2.len() >= p,
        forall|j: int| pos <= j < p ==> toks2[j] == toks[j],
    ensures
        spec_parse_avail_bal_loop(toks2, pos, acc) == Ok::<(AvailableBalanceView, int), ErrorView>((v, p)),
    decreases toks.len() - pos,
{
    lemma_spec_parse_avail_bal_loop_advances(toks, pos, acc);
    if 0 <= pos < toks.len() {
        let t = toks[pos];
        if t == "BALAMT"@ {
            if pos + 1 < toks.len() {
                let acc1 = AvailableBalancePartial { balance_amount: Some(toks[pos + 1]), ..acc };
                lemma_spec_parse_avail_bal_loop_advances(toks, pos + 2, acc1);
                lemma_avail_bal_frame(toks, toks2, pos + 2, acc1, v, p);
            }
        } else if t == "DTASOF"@ {
            if pos + 1 < toks.len() {
                match spec_parse_ofx_datetime(toks[pos + 1]) {
                    Some(dt) => {
                        let acc1 = AvailableBalancePartial { dt_as_of: Some(dt), ..acc };
                        lemma_spec_parse_avail_bal_loop_advances(toks, pos + 2, acc1);
                        lemma_avail_bal_frame(toks, toks2, pos + 2, acc1, v, p);
                    },
                    None => {},
                }
            }
        }
    }
}

/// Truncating the token stream of a successful AVAILBAL decode anywhere
/// before the position past its terminator yields `UnexpectedEOF`,
/// whatever fields were already seen.
#[verifier::rlimit(50)]
pub proof fn lemma_avail_bal_truncated_before_terminator(
    toks: Seq<Seq<char>>,
    pos: int,
    acc: AvailableBalancePartial,
    cut: int,
    v: AvailableBalanceView,
    p: int,
)
    requires
        spec_parse_avail_bal_loop(toks, pos, acc) == Ok::<(AvailableBalanceView, int), ErrorView>((v, p)),
        pos <= cut < p,
    ensures
        spec_parse_avail_bal_loop(toks.subrange(0, cut), pos, acc) matches Err(ErrorView::UnexpectedEOF(_)),
    decreases toks.len() - pos,
{
    lemma_spec_parse_avail_bal_loop_advances(toks, pos, acc);
    let toks2 = toks.subrange(0, cut);
    if cut > pos {
        let t = toks[pos];
        if t == "BALAMT"@ {
            if pos + 1 < toks.len() && cut > pos + 1 {
                let acc1 = AvailableBalancePartial { balance_amount: Some(toks[pos + 1]), ..acc };
                lemma_spec_parse_avail_bal_loop_advances(toks, pos + 2, acc1);
                lemma_avail_bal_truncated_before_terminator(toks, pos + 2, acc1, cut, v, p);
            }
        } else if t == "DTASOF"@ {
            if pos + 1 < toks.len() {
                match spec_parse_ofx_datetime(toks[pos + 1]) {
                    Some(dt) => {
                        if cut > pos + 1 {
                            let acc1 = AvailableBalancePartial { dt_as_of: Some(dt), ..acc };
                            lemma_spec_parse_avail_bal_loop_advances(toks, pos + 2, acc1);
                            lemma_avail_bal_truncated_before_terminator(toks, pos + 2, acc1, cut, v, p);
                        }
                    },
                    None => {},
                }
            }
        }
    }
}

proof fn stmttrn_tag_facts()
    ensures
        "TRNTYPE"@ != "DTPOSTED"@,
        "TRNTYPE"@ != "TRNAMT"@,
        "TRNTYPE"@ != "FITID"@,
        "TRNTYPE"@ != "CORRECTFITID"@,
        "TRNTYPE"@ != "CORRECTACTION"@,
        "TRNTYPE"@ != "NAME"@,
        "TRNTYPE"@ != "MEMO"@,
        "TRNTYPE"@ != "CHECKNUM"@,
        "TRNTYPE"@ != "/STMTTRN"@,
        "DTPOSTED"@ != "TRNAMT"@,
        "DTPOSTED"@ != "FITID"@,
        "DTPOSTED"@ != "CORRECTFITID"@,
        "DTPOSTED"@ != "CORRECTACTION"@,
        "DTPOSTED"@ != "NAME"@,
        "DTPOSTED"@ != "MEMO"@,
        "DTPOSTED"@ != "CHECKNUM"@,
        "DTPOSTED"@ != "/STMTTRN"@,
        "TRNAMT"@ != "FITID"@,
        "TRNAMT"@ != "CORRECTFITID"@,
        "TRNAMT"@ != "CORRECTACTION"@,
        "TRNAMT"@ != "NAME"@,
        "TRNAMT"@ != "MEMO"@,
        "TRNAMT"@ != "CHECKNUM"@,
        "TRNAMT"@ != "/STMTTRN"@,
        "FITID"@ != "CORRECTFITID"@,
        "FITID"@ != "CORRECTACTION"@,
        "FITID"@ != "NAME"@,
        "FITID"@ != "MEMO"@,
        "FITID"@ != "CHECKNUM"@,
        "FITID"@ != "/STMTTRN"@,
        "CORRECTFITID"@ != "CORRECTACTION"@,
        "CORRECTFITID"@ != "NAME"@,
        "CORRECTFITID"@ != "MEMO"@,
        "CORRECTFITID"@ != "CHECKNUM"@,
        "CORRECTFITID"@ != "/STMTTRN"@,
        "CORRECTACTION"@ != "NAME"@,
        "CORRECTACTION"@ != "MEMO"@,
        "CORRECTACTION"@ != "CHECKNUM"@,
        "CORRECTACTION"@ != "/STMTTRN"@,
        "NAME"@ != "MEMO"@,
        "NAME"@ != "CHECKNUM"@,
        "NAME"@ != "/STMTTRN"@,
        "MEMO"@ != "CHECKNUM"@,
        "MEMO"@ != "/STMTTRN"@,
        "CHECKNUM"@ != "/STMTTRN"@,
{
    reveal_strlit("/STMTTRN");
    reveal_strlit("CHECKNUM");
    reveal_strlit("CORRECTACTION");
    reveal_strlit("CORRECTFITID");
    reveal_strlit("DTPOSTED");
    reveal_strlit("FITID");
    reveal_strlit("MEMO");
    reveal_strlit("NAME");
    reveal_strlit("TRNAMT");
    reveal_strlit("TRNTYPE");
    assert("/STMTTRN"@.len() == 8);
    assert("CHECKNUM"@.len() == 8);
    assert("CORRECTACTION"@.len() == 13);
    assert("CORRECTFITID"@.len() == 12);
    assert("DTPOSTED"@.len() == 8);
    assert("FITID"@.len() == 5);
    assert("MEMO"@.len() == 4);
    assert("NAME"@.len() == 4);
    assert("TRNAMT"@.len() == 6);
    assert("TRNTYPE"@.len() == 7);
    assert("DTPOSTED"@[0] != "CHECKNUM"@[0]);
    assert("DTPOSTED"@ != "CHECKNUM"@);
    assert("DTPOSTED"@[0] != "/STMTTRN"@[0]);
    assert("DTPOSTED"@ != "/STMTTRN"@);
    assert("NAME"@[0] != "MEMO"@[0]);
    assert("NAME"@ != "MEMO"@);
    assert("CHECKNUM"@[0] != "/STMTTRN"@[0]);
    assert("CHECKNUM"@ != "/STMTTRN"@);
}

/// A well-formed minimal STMTTRN instance — only required fields, then the
/// terminator — decodes successfully, with every optional field absent.
pub proof fn lemma_stmttrn_minimal(toks: Seq<Seq<char>>, pos: int, v_dt_posted: UtcDateTime, v_trans_amount: AmountView)
    requires
        0 <= pos,
        pos + 1 < toks.len(),
        toks[pos] == "TRNTYPE"@,
        pos + 2 + 1 < toks.len(),
        toks[pos + 2] == "DTPOSTED"@,
        spec_parse_ofx_datetime(toks[pos + 2 + 1]) == Some(v_dt_posted),
        pos + 2 + 2 + 1 < toks.len(),
        toks[pos + 2 + 2] == "TRNAMT"@,
        spec_parse_amount(toks[pos + 2 + 2 + 1]) == Some(v_trans_amount),
        pos + 2 + 2 + 2 + 1 < toks.len(),
        toks[pos + 2 + 2 + 2] == "FITID"@,
        pos + 2 + 2 + 2 + 2 + 1 < toks.len(),
        toks[pos + 2 + 2 + 2 + 2] == "NAME"@,
        pos + 2 + 2 + 2 + 2 + 2 < toks.len(),
        toks[pos + 2 + 2 + 2 + 2 + 2] == "/STMTTRN"@,
    ensures
        spec_parse_stmttrn(toks, pos) == Ok::<(StmttrnView, int), ErrorView>(
            (
                StmttrnView {
                    trans_type: toks[pos + 1],
                    dt_posted: v_dt_posted,
                    trans_amount: v_trans_amount,
                    fit_id: toks[pos + 2 + 2 + 2 + 1],
                    correct_fit_id: None,
                    correct_action: None,
                    name: toks[pos + 2 + 2 + 2 + 2 + 1],
                    memo: None,
                    check_num: None,
                },
                pos + 2 + 2 + 2 + 2 + 2 + 1,
            ),
        ),
{
    stmttrn_tag_facts();
    assert(spec_parse_stmttrn_loop(
        toks,
        pos,
        StmttrnPartial {
            trans_type: None,
            dt_posted: None,
            trans_amount: None,
            fit_id: None,
            correct_fit_id: None,
            correct_action: None,
            name: None,
            memo: None,
            check_num: None,
        },
    ) == spec_parse_stmttrn_loop(
        toks,
        pos + 2,
        StmttrnPartial {
            trans_type: Some(toks[pos + 1]),
            dt_posted: None,
            trans_amount: None,
            fit_id: None,
            correct_fit_id: None,
            correct_action: None,
            name: None,
            memo: None,
            check_num: None,
        },
    ));
    assert(spec_parse_stmttrn_loop(
        toks,
        pos + 2,
        StmttrnPartial {
            trans_type: Some(toks[pos + 1]),
            dt_posted: None,
            trans_amount: None,
            fit_id: None,
            correct_fit_id: None,
            correct_action: None,
            name: None,
            memo: None,
            check_num: None,
        },
    ) == spec_parse_stmttrn_loop(
        toks,
        pos + 2 + 2,
        StmttrnPartial {
            trans_type: Some(toks[pos + 1]),
            dt_posted: Some(v_dt_posted),
            trans_amount: None,
            fit_id: None,
            correct_fit_id: None,
            correct_action: None,
            name: None,
            memo: None,
            check_num: None,
        },
    ));
    assert(spec_parse_stmttrn_loop(
        toks,
        pos + 2 + 2,
        StmttrnPartial {
            trans_type: Some(toks[pos + 1]),
            dt_posted: Some(v_dt_posted),
            trans_amount: None,
            fit_id: None,
            correct_fit_id: None,
            correct_action: None,
            name: None,
            memo: None,
            check_num: None,
        },
    ) == spec_parse_stmttrn_loop(
        toks,
        pos + 2 + 2 + 2,
        StmttrnPartial {
            trans_type: Some(toks[pos + 1]),
            dt_posted: Some(v_dt_posted),
            trans_amount: Some(v_trans_amount),
            fit_id: None,
            correct_fit_id: None,
            correct_action: None,
            name: None,
            memo: None,
            check_num: None,
        },
    ));
    assert(spec_parse_stmttrn_loop(
        toks,
        pos + 2 + 2 + 2,
        StmttrnPartial {
            trans_type: Some(toks[pos + 1]),
            dt_posted: Some(v_dt_posted),
            trans_amount: Some(v_trans_amount),
            fit_id: None,
            correct_fit_id: None,
            correct_action: None,
            name: None,
            memo: None,
            check_num: None,
        },
    ) == spec_parse_stmttrn_loop(
        toks,
        pos + 2 + 2 + 2 + 2,
        StmttrnPartial {
            trans_type: Some(toks[pos + 1]),
            dt_posted: Some(v_dt_posted),
            trans_amount: Some(v_trans_amount),
            fit_id: Some(toks[pos + 2 + 2 + 2 + 1]),
            correct_fit_id: None,
            correct_action: None,
            name: None,
            memo: None,
            check_num: None,
        },
    ));
    assert(spec_parse_stmttrn_loop(
        toks,
        pos + 2 + 2 + 2 + 2,
        StmttrnPartial {
            trans_type: Some(toks[pos + 1]),
            dt_posted: Some(v_dt_posted),
            trans_amount: Some(v_trans_amount),
            fit_id: Some(toks[pos + 2 + 2 + 2 + 1]),
            correct_fit_id: None,
            correct_action: None,
            name: None,
            memo: None,
            check_num: None,
        },
    ) == spec_parse_stmttrn_loop(
        toks,
        pos + 2 + 2 + 2 + 2 + 2,
        StmttrnPartial {
            trans_type: Some(toks[pos + 1]),
            dt_posted: Some(v_dt_posted),
            trans_amount: Some(v_trans_amount),
            fit_id: Some(toks[pos + 2 + 2 + 2 + 1]),
            correct_fit_id: None,
            correct_action: None,
            name: Some(toks[pos + 2 + 2 + 2 + 2 + 1]),
            memo: None,
            check_num: None,
        },
    ));
}

/// Omitting the required TRNTYPE field of a STMTTRN record, while keeping the
/// other required fields and the terminator, fails with
/// `MissingRequiredValue` naming that field.
pub proof fn lemma_stmttrn_missing_trans_type(toks: Seq<Seq<char>>, pos: int, v_dt_posted: UtcDateTime, v_trans_amount: AmountView)
    requires
        0 <= pos,
        pos + 1 < toks.len(),
        toks[pos] == "DTPOSTED"@,
        spec_parse_ofx_datetime(toks[pos + 1]) == Some(v_dt_posted),
        pos + 2 + 1 < toks.len(),
        toks[pos + 2] == "TRNAMT"@,
        spec_parse_amount(toks[pos + 2 + 1]) == Some(v_trans_amount),
        pos + 2 + 2 + 1 < toks.len(),
        toks[pos + 2 + 2] == "FITID"@,
        pos + 2 + 2 + 2 + 1 < toks.len(),
        toks[pos + 2 + 2 + 2] == "NAME"@,
        pos + 2 + 2 + 2 + 2 < toks.len(),
        toks[pos + 2 + 2 + 2 + 2] == "/STMTTRN"@,
    ensures
        spec_parse_stmttrn(toks, pos) == Err::<(StmttrnView, int), ErrorView>(
            ErrorView::MissingRequiredValue("TRANSTYPE value is required in STMTRN"@),
        ),
{
    stmttrn_tag_facts();
    assert(spec_parse_stmttrn_loop(
        toks,
        pos,
        StmttrnPartial {
            trans_type: None,
            dt_posted: None,
            trans_amount: None,
            fit_id: None,
            correct_fit_id: None,
            correct_action: None,
            name: None,
            memo: None,
            check_num: None,
        },
    ) == spec_parse_stmttrn_loop(
        toks,
        pos + 2,
        StmttrnPartial {
            trans_type: None,
            dt_posted: Some(v_dt_posted),
            trans_amount: None,
            fit_id: None,
            correct_fit_id: None,
            correct_action: None,
            name: None,
            memo: None,
            check_num: None,
        },
    ));
    assert(spec_parse_stmttrn_loop(
        toks,
        pos + 2,
        StmttrnPartial {
            trans_type: None,
            dt_posted: Some(v_dt_posted),
            trans_amount: None,
            fit_id: None,
            correct_fit_id: None,
            correct_action: None,
            name: None,
            memo: None,
            check_num: None,
        },
    ) == spec_parse_stmttrn_loop(
        toks,
        pos + 2 + 2,
        StmttrnPartial {
            trans_type: None,
            dt_posted: Some(v_dt_posted),
            trans_amount: Some(v_trans_amount),
            fit_id: None,
            correct_fit_id: None,
            correct_action: None,
            name: None,
            memo: None,
            check_num: None,
        },
    ));
    assert(spec_parse_stmttrn_loop(
        toks,
        pos + 2 + 2,
        StmttrnPartial {
            trans_type: None,
            dt_posted: Some(v_dt_posted),
            trans_amount: Some(v_trans_amount),
            fit_id: None,
            correct_fit_id: None,
            correct_action: None,
            name: None,
            memo: None,
            check_num: None,
        },
    ) == spec_parse_stmttrn_loop(
        toks,
        pos + 2 + 2 + 2,
        StmttrnPartial {
            trans_type: None,
            dt_posted: Some(v_dt_posted),
            trans_amount: Some(v_trans_amount),
            fit_id: Some(toks[pos + 2 + 2 + 1]),
            correct_fit_id: None,
            correct_action: None,
            name: None,
            memo: None,
            check_num: None,
        },
    ));
    assert(spec_parse_stmttrn_loop(
        toks,
        pos + 2 + 2 + 2,
        StmttrnPartial {
            trans_type: None,
            dt_posted: Some(v_dt_posted),
            trans_amount: Some(v_trans_amount),
            fit_id: Some(toks[pos + 2 + 2 + 1]),
            correct_fit_id: None,
            correct_action: None,
            name: None,
            memo: None,
            check_num: None,
        },
    ) == spec_parse_stmttrn_loop(
        toks,
        pos + 2 + 2 + 2 + 2,
        StmttrnPartial {
            trans_type: None,
            dt_posted: Some(v_dt_posted),
            trans_amount: Some(v_trans_amount),
            fit_id: Some(toks[pos + 2 + 2 + 1]),
            correct_fit_id: None,
            correct_action: None,
            name: Some(toks[pos + 2 + 2 + 2 + 1]),
            memo: None,
            check_num: None,
        },
    ));
}

/// Omitting the required DTPOSTED field of a STMTTRN record, while keeping the
/// other required fields and the terminator, fails with
/// `MissingRequiredValue` naming that field.
pub proof fn lemma_stmttrn_missing_dt_posted(toks: Seq<Seq<char>>, pos: int, v_trans_amount: AmountView)
    requires
        0 <= pos,
        pos + 1 < toks.len(),
        toks[pos] == "TRNTYPE"@,
        pos + 2 + 1 < toks.len(),
        toks[pos + 2] == "TRNAMT"@,
        spec_parse_amount(toks[pos + 2 + 1]) == Some(v_trans_amount),
        pos + 2 + 2 + 1 < toks.len(),
        toks[pos + 2 + 2] == "FITID"@,
        pos + 2 + 2 + 2 + 1 < toks.len(),
        toks[pos + 2 + 2 + 2] == "NAME"@,
        pos + 2 + 2 + 2 + 2 < toks.len(),
        toks[pos + 2 + 2 + 2 + 2] == "/STMTTRN"@,
    ensures
        spec_parse_stmttrn(toks, pos) == Err::<(StmttrnView, int), ErrorView>(
            ErrorView::MissingRequiredValue("DTPOSTED value is required in STMTRN"@),
        ),
{
    stmttrn_tag_facts();
    assert(spec_parse_stmttrn_loop(
        toks,
        pos,
        StmttrnPartial {
            trans_type: None,
            dt_posted: None,
            trans_amount: None,
            fit_id: None,
            correct_fit_id: None,
            correct_action: None,
            name: None,
            memo: None,
            check_num: None,
        },
    ) == spec_parse_stmttrn_loop(
        toks,
        pos + 2,
        StmttrnPartial {
            trans_type: Some(toks[pos + 1]),
            dt_posted: None,
            trans_amount: None,
            fit_id: None,
            correct_fit_id: None,
            correct_action: None,
            name: None,
            memo: None,
            check_num: None,
        },
    ));
    assert(spec_parse_stmttrn_loop(
        toks,
        pos + 2,
        StmttrnPartial {
            trans_type: Some(toks[pos + 1]),
            dt_posted: None,
            trans_amount: None,
            fit_id: None,
            correct_fit_id: None,
            correct_action: None,
            name: None,
            memo: None,
            check_num: None,
        },
    ) == spec_parse_stmttrn_loop(
        toks,
        pos + 2 + 2,
        StmttrnPartial {
            trans_type: Some(toks[pos + 1]),
            dt_posted: None,
            trans_amount: Some(v_trans_amount),
            fit_id: None,
            correct_fit_id: None,
            correct_action: None,
            name: None,
            memo: None,
            check_num: None,
        },
    ));
    assert(spec_parse_stmttrn_loop(
        toks,
        pos + 2 + 2,
        StmttrnPartial {
            trans_type: Some(toks[pos + 1]),
            dt_posted: None,
            trans_amount: Some(v_trans_amount),
            fit_id: None,
            correct_fit_id: None,
            correct_action: None,
            name: None,
            memo: None,
            check_num: None,
        },
    ) == spec_parse_stmttrn_loop(
        toks,
        pos + 2 + 2 + 2,
        StmttrnPartial {
            trans_type: Some(toks[pos + 1]),
            dt_posted: None,
            trans_amount: Some(v_trans_amount),
            fit_id: Some(toks[pos + 2 + 2 + 1]),
            correct_fit_id: None,
            correct_action: None,
            name: None,
            memo: None,
            check_num: None,
        },
    ));
    assert(spec_parse_stmttrn_loop(
        toks,
        pos + 2 + 2 + 2,
        StmttrnPartial {
            trans_type: Some(toks[pos + 1]),
            dt_posted: None,
            trans_amount: Some(v_trans_amount),
            fit_id: Some(toks[pos + 2 + 2 + 1]),
            correct_fit_id: None,
            correct_action: None,
            name: None,
            memo: None,
            check_num: None,
        },
    ) == spec_parse_stmttrn_loop(
        toks,
        pos + 2 + 2 + 2 + 2,
        StmttrnPartial {
            trans_type: Some(toks[pos + 1]),
            dt_posted: None,
            trans_amount: Some(v_trans_amount),
            fit_id: Some(toks[pos + 2 + 2 + 1]),
            correct_fit_id: None,
            correct_action: None,
            name: Some(toks[pos + 2 + 2 + 2 + 1]),
            memo: None,
            check_num: None,
        },
    ));
}

/// Omitting the required TRNAMT field of a STMTTRN record, while keeping the
/// other required fields and the terminator, fails with
/// `MissingRequiredValue` naming that field.
pub proof fn lemma_stmttrn_missing_trans_amount(toks: Seq<Seq<char>>, pos: int, v_dt_posted: UtcDateTime)
    requires
        0 <= pos,
        pos + 1 < toks.len(),
        toks[pos] == "TRNTYPE"@,
        pos + 2 + 1 < toks.len(),
        toks[pos + 2] == "DTPOSTED"@,
        spec_parse_ofx_datetime(toks[pos + 2 + 1]) == Some(v_dt_posted),
        pos + 2 + 2 + 1 < toks.len(),
        toks[pos + 2 + 2] == "FITID"@,
        pos + 2 + 2 + 2 + 1 < toks.len(),
        toks[pos + 2 + 2 + 2] == "NAME"@,
        pos + 2 + 2 + 2 + 2 < toks.len(),
        toks[pos + 2 + 2 + 2 + 2] == "/STMTTRN"@,
    ensures
        spec_parse_stmttrn(toks, pos) == Err::<(StmttrnView, int), ErrorView>(
            ErrorView::MissingRequiredValue("TRNSAMT value is required in STMTRN"@),
        ),
{
    stmttrn_tag_facts();
    assert(spec_parse_stmttrn_loop(
        toks,
        pos,
        StmttrnPartial {
            trans_type: None,
            dt_posted: None,
            trans_amount: None,
            fit_id: None,
            correct_fit_id: None,
            correct_action: None,
            name: None,
            memo: None,
            check_num: None,
        },
    ) == spec_parse_stmttrn_loop(
        toks,
        pos + 2,
        StmttrnPartial {
            trans_type: Some(toks[pos + 1]),
            dt_posted: None,
            trans_amount: None,
            fit_id: None,
            correct_fit_id: None,
            correct_action: None,
            name: None,
            memo: None,
            check_num: None,
        },
    ));
    assert(spec_parse_stmttrn_loop(
        toks,
        pos + 2,
        StmttrnPartial {
            trans_type: Some(toks[pos + 1]),
            dt_posted: None,
            trans_amount: None,
            fit_id: None,
            correct_fit_id: None,
            correct_action: None,
            name: None,
            memo: None,
            check_num: None,
        },
    ) == spec_parse_stmttrn_loop(
        toks,
        pos + 2 + 2,
        StmttrnPartial {
            trans_type: Some(toks[pos + 1]),
            dt_posted: Some(v_dt_posted),
            trans_amount: None,
            fit_id: None,
            correct_fit_id: None,
            correct_action: None,
            name: None,
            memo: None,
            check_num: None,
        },
    ));
    assert(spec_parse_stmttrn_loop(
        toks,
        pos + 2 + 2,
        StmttrnPartial {
            trans_type: Some(toks[pos + 1]),
            dt_posted: Some(v_dt_posted),
            trans_amount: None,
            fit_id: None,
            correct_fit_id: None,
            correct_action: None,
            name: None,
            memo: None,
            check_num: None,
        },
    ) == spec_parse_stmttrn_loop(
        toks,
        pos + 2 + 2 + 2,
        StmttrnPartial {
            trans_type: Some(toks[pos + 1]),
            dt_posted: Some(v_dt_posted),
            trans_amount: None,
            fit_id: Some(toks[pos + 2 + 2 + 1]),
            correct_fit_id: None,
            correct_action: None,
            name: None,
            memo: None,
            check_num: None,
        },
    ));
    assert(spec_parse_stmttrn_loop(
        toks,
        pos + 2 + 2 + 2,
        StmttrnPartial {
            trans_type: Some(toks[pos + 1]),
            dt_posted: Some(v_dt_posted),
            trans_amount: None,
            fit_id: Some(toks[pos + 2 + 2 + 1]),
            correct_fit_id: None,
            correct_action: None,
            name: None,
            memo: None,
            check_num: None,
        },
    ) == spec_parse_stmttrn_loop(
        toks,
        pos + 2 + 2 + 2 + 2,
        StmttrnPartial {
            trans_type: Some(toks[pos + 1]),
            dt_posted: Some(v_dt_posted),
            trans_amount: None,
            fit_id: Some(toks[pos + 2 + 2 + 1]),
            correct_fit_id: None,
            correct_action: None,
            name: Some(toks[pos + 2 + 2 + 2 + 1]),
            memo: None,
            check_num: None,
        },
    ));
}

/// Omitting the required FITID field of a STMTTRN record, while keeping the
/// other required fields and the terminator, fails with
/// `MissingRequiredValue` naming that field.
pub proof fn lemma_stmttrn_missing_fit_id(toks: Seq<Seq<char>>, pos: int, v_dt_posted: UtcDateTime, v_trans_amount: AmountView)
    requires
        0 <= pos,
        pos + 1 < toks.len(),
        toks[pos] == "TRNTYPE"@,
        pos + 2 + 1 < toks.len(),
        toks[pos + 2] == "DTPOSTED"@,
        spec_parse_ofx_datetime(toks[pos + 2 + 1]) == Some(v_dt_posted),
        pos + 2 + 2 + 1 < toks.len(),
        toks[pos + 2 + 2] == "TRNAMT"@,
        spec_parse_amount(toks[pos + 2 + 2 + 1]) == Some(v_trans_amount),
        pos + 2 + 2 + 2 + 1 < toks.len(),
        toks[pos + 2 + 2 + 2] == "NAME"@,
        pos + 2 + 2 + 2 + 2 < toks.len(),
        toks[pos + 2 + 2 + 2 + 2] == "/STMTTRN"@,
    ensures
        spec_parse_stmttrn(toks, pos) == Err::<(StmttrnView, int), ErrorView>(
            ErrorView::MissingRequiredValue("FITID value is required in STMTRN"@),
        ),
{
    stmttrn_tag_facts();
    assert(spec_parse_stmttrn_loop(
        toks,
        pos,
        StmttrnPartial {
            trans_type: None,
            dt_posted: None,
            trans_amount: None,
            fit_id: None,
            correct_fit_id: None,
            correct_action: None,
            name: None,
            memo: None,
            check_num: None,
        },
    ) == spec_parse_stmttrn_loop(
        toks,
        pos + 2,
        StmttrnPartial {
            trans_type: Some(toks[pos + 1]),
            dt_posted: None,
            trans_amount: None,
            fit_id: None,
            correct_fit_id: None,
            correct_action: None,
            name: None,
            memo: None,
            check_num: None,
        },
    ));
    assert(spec_parse_stmttrn_loop(
        toks,
        pos + 2,
        StmttrnPartial {
            trans_type: Some(toks[pos + 1]),
            dt_posted: None,
            trans_amount: None,
            fit_id: None,
            correct_fit_id: None,
            correct_action: None,
            name: None,
            memo: None,
            check_num: None,
        },
    ) == spec_parse_stmttrn_loop(
        toks,
        pos + 2 + 2,
        StmttrnPartial {
            trans_type: Some(toks[pos + 1]),
            dt_posted: Some(v_dt_posted),
            trans_amount: None,
            fit_id: None,
            correct_fit_id: None,
            correct_action: None,
            name: None,
            memo: None,
            check_num: None,
        },
    ));
    assert(spec_parse_stmttrn_loop(
        toks,
        pos + 2 + 2,
        StmttrnPartial {
            trans_type: Some(toks[pos + 1]),
            dt_posted: Some(v_dt_posted),
            trans_amount: None,
            fit_id: None,
            correct_fit_id: None,
            correct_action: None,
            name: None,
            memo: None,
            check_num: None,
        },
    ) == spec_parse_stmttrn_loop(
        toks,
        pos + 2 + 2 + 2,
        StmttrnPartial {
            trans_type: Some(toks[pos + 1]),
            dt_posted: Some(v_dt_posted),
            trans_amount: Some(v_trans_amount),
            fit_id: None,
            correct_fit_id: None,
            correct_action: None,
            name: None,
            memo: None,
            check_num: None,
        },
    ));
    assert(spec_parse_stmttrn_loop(
        toks,
        pos + 2 + 2 + 2,
        StmttrnPartial {
            trans_type: Some(toks[pos + 1]),
            dt_posted: Some(v_dt_posted),
            trans_amount: Some(v_trans_amount),
            fit_id: None,
            correct_fit_id: None,
            correct_action: None,
            name: None,
            memo: None,
            check_num: None,
        },
    ) == spec_parse_stmttrn_loop(
        toks,
        pos + 2 + 2 + 2 + 2,
        StmttrnPartial {
            trans_type: Some(toks[pos + 1]),
            dt_posted: Some(v_dt_posted),
            trans_amount: Some(v_trans_amount),
            fit_id: None,
            correct_fit_id: None,
            correct_action: None,
            name: Some(toks[pos + 2 + 2 + 2 + 1]),
            memo: None,
            check_num: None,
        },
    ));
}

/// Omitting the required NAME field of a STMTTRN record, while keeping the
/// other required fields and the terminator, fails with
/// `MissingRequiredValue` naming that field.
pub proof fn lemma_stmttrn_missing_name(toks: Seq<Seq<char>>, pos: int, v_dt_posted: UtcDateTime, v_trans_amount: AmountView)
    requires
        0 <= pos,
        pos + 1 < toks.len(),
        toks[pos] == "TRNTYPE"@,
        pos + 2 + 1 < toks.len(),
        toks[pos + 2] == "DTPOSTED"@,
        spec_parse_ofx_datetime(toks[pos + 2 + 1]) == Some(v_dt_posted),
        pos + 2 + 2 + 1 < toks.len(),
        toks[pos + 2 + 2] == "TRNAMT"@,
        spec_parse_amount(toks[pos + 2 + 2 + 1]) == Some(v_trans_amount),
        pos + 2 + 2 + 2 + 1 < toks.len(),
        toks[pos + 2 + 2 + 2] == "FITID"@,
        pos + 2 + 2 + 2 + 2 < toks.len(),
        toks[pos + 2 + 2 + 2 + 2] == "/STMTTRN"@,
    ensures
        spec_parse_stmttrn(toks, pos) == Err::<(StmttrnView, int), ErrorView>(
            ErrorView::MissingRequiredValue("NAME value is required in STMTRN"@),
        ),
{
    stmttrn_tag_facts();
    assert(spec_parse_stmttrn_loop(
        toks,
        pos,
        StmttrnPartial {
            trans_type: None,
            dt_posted: None,
            trans_amount: None,
            fit_id: None,
            correct_fit_id: None,
            correct_action: None,
            name: None,
            memo: None,
            check_num: None,
        },
    ) == spec_parse_stmttrn_loop(
        toks,
        pos + 2,
        StmttrnPartial {
            trans_type: Some(toks[pos + 1]),
            dt_posted: None,
            trans_amount: None,
            fit_id: None,
            correct_fit_id: None,
            correct_action: None,
            name: None,
            memo: None,
            check_num: None,
        },
    ));
    assert(spec_parse_stmttrn_loop(
        toks,
        pos + 2,
        StmttrnPartial {
            trans_type: Some(toks[pos + 1]),
            dt_posted: None,
            trans_amount: None,
            fit_id: None,
            correct_fit_id: None,
            correct_action: None,
            name: None,
            memo: None,
            check_num: None,
        },
    ) == spec_parse_stmttrn_loop(
        toks,
        pos + 2 + 2,
        StmttrnPartial {
            trans_type: Some(toks[pos + 1]),
            dt_posted: Some(v_dt_posted),
            trans_amount: None,
            fit_id: None,
            correct_fit_id: None,
            correct_action: None,
            name: None,
            memo: None,
            check_num: None,
        },
    ));
    assert(spec_parse_stmttrn_loop(
        toks,
        pos + 2 + 2,
        StmttrnPartial {
            trans_type: Some(toks[pos + 1]),
            dt_posted: Some(v_dt_posted),
            trans_amount: None,
            fit_id: None,
            correct_fit_id: None,
            correct_action: None,
            name: None,
            memo: None,
            check_num: None,
        },
    ) == spec_parse_stmttrn_loop(
        toks,
        pos + 2 + 2 + 2,
        StmttrnPartial {
            trans_type: Some(toks[pos + 1]),
            dt_posted: Some(v_dt_posted),
            trans_amount: Some(v_trans_amount),
            fit_id: None,
            correct_fit_id: None,
            correct_action: None,
            name: None,
            memo: None,
            check_num: None,
        },
    ));
    assert(spec_parse_stmttrn_loop(
        toks,
        pos + 2 + 2 + 2,
        StmttrnPartial {
            trans_type: Some(toks[pos + 1]),
            dt_posted: Some(v_dt_posted),
            trans_amount: Some(v_trans_amount),
            fit_id: None,
            correct_fit_id: None,
            correct_action: None,
            name: None,
            memo: None,
            check_num: None,
        },
    ) == spec_parse_stmttrn_loop(
        toks,
        pos + 2 + 2 + 2 + 2,
        StmttrnPartial {
            trans_type: Some(toks[pos + 1]),
            dt_posted: Some(v_dt_posted),
            trans_amount: Some(v_trans_amount),
            fit_id: Some(toks[pos + 2 + 2 + 2 + 1]),
            correct_fit_id: None,
            correct_action: None,
            name: None,
            memo: None,
            check_num: None,
        },
    ));
}

/// At the STMTTRN terminator, the decode fails with `MissingRequiredValue`
/// naming the first required field, in schema order, that was never
/// set — whatever fields were seen before it and in whatever order —
/// and succeeds with exactly the fields seen once every required
/// field is set, absent optional fields staying absent.
pub proof fn lemma_stmttrn_at_terminator(toks: Seq<Seq<char>>, pos: int, acc: StmttrnPartial)
    requires
        0 <= pos < toks.len(),
        toks[pos] == "/STMTTRN"@,
    ensures
        acc.trans_type is None ==> spec_parse_stmttrn_loop(toks, pos, acc) == Err::<(StmttrnView, int), ErrorView>(
            ErrorView::MissingRequiredValue("TRANSTYPE value is required in STMTRN"@),
        ),
        acc.trans_type is Some && acc.dt_posted is None ==> spec_parse_stmttrn_loop(toks, pos, acc) == Err::<(StmttrnView, int), ErrorView>(
            ErrorView::MissingRequiredValue("DTPOSTED value is required in STMTRN"@),
        ),
        acc.trans_type is Some && acc.dt_posted is Some && acc.trans_amount is None ==> spec_parse_stmttrn_loop(toks, pos, acc) == Err::<(StmttrnView, int), ErrorView>(
            ErrorView::MissingRequiredValue("TRNSAMT value is required in STMTRN"@),
        ),
        acc.trans_type is Some && acc.dt_posted is Some && acc.trans_amount is Some && acc.fit_id is None ==> spec_parse_stmttrn_loop(toks, pos, acc) == Err::<(StmttrnView, int), ErrorView>(
            ErrorView::MissingRequiredValue("FITID value is required in STMTRN"@),
        ),
        acc.trans_type is Some && acc.dt_posted is Some && acc.trans_amount is Some && acc.fit_id is Some && acc.name is None ==> spec_parse_stmttrn_loop(toks, pos, acc) == Err::<(StmttrnView, int), ErrorView>(
            ErrorView::MissingRequiredValue("NAME value is required in STMTRN"@),
        ),
        acc.trans_type is Some && acc.dt_posted is Some && acc.trans_amount is Some && acc.fit_id is Some && acc.name is Some ==> spec_parse_stmttrn_loop(toks, pos, acc) == Ok::<(StmttrnView, int), ErrorView>(
            (
                StmttrnView {
                    trans_type: acc.trans_type->0,
                    dt_posted: acc.dt_posted->0,
                    trans_amount: acc.trans_amount->0,
                    fit_id: acc.fit_id->0,
                    correct_fit_id: acc.correct_fit_id,
                    correct_action: acc.correct_action,
                    name: acc.name->0,
                    memo: acc.memo,
                    check_num: acc.check_num,
                },
                pos + 1,
            ),
        ),
{
    stmttrn_tag_facts();
}

/// A token that is neither a field tag of STMTTRN nor its terminator fails
/// the decode at once with `UnexpectedToken` naming the token and the
/// enclosing record, whatever fields were already seen.
pub proof fn lemma_stmttrn_unknown_tag(toks: Seq<Seq<char>>, pos: int, acc: StmttrnPartial)
    requires
        0 <= pos < toks.len(),
        toks[pos] != "TRNTYPE"@,
        toks[pos] != "DTPOSTED"@,
        toks[pos] != "TRNAMT"@,
        toks[pos] != "FITID"@,
        toks[pos] != "CORRECTFITID"@,
        toks[pos] != "CORRECTACTION"@,
        toks[pos] != "NAME"@,
        toks[pos] != "MEMO"@,
        toks[pos] != "CHECKNUM"@,
        toks[pos] != "/STMTTRN"@,
    ensures
        spec_parse_stmttrn_loop(toks, pos, acc) == Err::<(StmttrnView, int), ErrorView>(
            ErrorView::UnexpectedToken(
                "Found unexpected token "@ + toks[pos] + " in the STMTTRN type"@,
            ),
        ),
{
}

/// A stream that is exhausted before the STMTTRN terminator fails with
/// `UnexpectedEOF` naming the terminator still awaited, whatever fields
/// were already seen.
pub proof fn lemma_stmttrn_truncated(toks: Seq<Seq<char>>, pos: int, acc: StmttrnPartial)
    requires
        pos >= toks.len(),
    ensures
        spec_parse_stmttrn_loop(toks, pos, acc) == Err::<(StmttrnView, int), ErrorView>(
            ErrorView::UnexpectedEOF("Found unexpected EOF. Was still expecting the '/STMTTRN' token"@),
        ),
{
}

/// A stream truncated right after a value field's tag of STMTTRN fails
/// with `UnexpectedEOF` naming that field, whatever fields were
/// already seen.
pub proof fn lemma_stmttrn_truncated_after_tag(toks: Seq<Seq<char>>, pos: int, acc: StmttrnPartial)
    requires
        0 <= pos,
        pos + 1 == toks.len(),
    ensures
        toks[pos] == "TRNTYPE"@ ==> spec_parse_stmttrn_loop(toks, pos, acc) == Err::<(StmttrnView, int), ErrorView>(
            ErrorView::UnexpectedEOF("Expected token following the TRNTYPE token in STMTTRN"@),
        ),
        toks[pos] == "DTPOSTED"@ ==> spec_parse_stmttrn_loop(toks, pos, acc) == Err::<(StmttrnView, int), ErrorView>(
            ErrorView::UnexpectedEOF("Expected token following the DTPOSTED token in STMTTRN"@),
        ),
        toks[pos] == "TRNAMT"@ ==> spec_parse_stmttrn_loop(toks, pos, acc) == Err::<(StmttrnView, int), ErrorView>(
            ErrorView::UnexpectedEOF("Expected token following the TRNAMT token in STMTTRN"@),
        ),
        toks[pos] == "FITID"@ ==> spec_parse_stmttrn_loop(toks, pos, acc) == Err::<(StmttrnView, int), ErrorView>(
            ErrorView::UnexpectedEOF("Expected token following the FITID token in STMTTRN"@),
        ),
        toks[pos] == "CORRECTFITID"@ ==> spec_parse_stmttrn_loop(toks, pos, acc) == Err::<(StmttrnView, int), ErrorView>(
            ErrorView::UnexpectedEOF("Expected token following the CORRECTFITID token in STMTTRN"@),
        ),
        toks[pos] == "CORRECTACTION"@ ==> spec_parse_stmttrn_loop(toks, pos, acc) == Err::<(StmttrnView, int), ErrorView>(
            ErrorView::UnexpectedEOF("Expected token following the CORRECTACTION token in STMTTRN"@),
        ),
        toks[pos] == "NAME"@ ==> spec_parse_stmttrn_loop(toks, pos, acc) == Err::<(StmttrnView, int), ErrorView>(
            ErrorView::UnexpectedEOF("Expected token following the NAME token in STMTTRN"@),
        ),
        toks[pos] == "MEMO"@ ==> spec_parse_stmttrn_loop(toks, pos, acc) == Err::<(StmttrnView, int), ErrorView>(
            ErrorView::UnexpectedEOF("Expected token following the MEMO token in STMTTRN"@),
        ),
        toks[pos] == "CHECKNUM"@ ==> spec_parse_stmttrn_loop(toks, pos, acc) == Err::<(StmttrnView, int), ErrorView>(
            ErrorView::UnexpectedEOF("Expected token following the CHECKNUM token in STMTTRN"@),
        ),
{
    stmttrn_tag_facts();
}

/// A successful STMTTRN decode reads only the tokens it consumes: on any
/// stream that agrees with `toks` on `[pos, p)`, the decode returns the
/// same record and the same end position.
#[verifier::rlimit(50)]
pub proof fn lemma_stmttrn_frame(
    toks: Seq<Seq<char>>,
    toks2: Seq<Seq<char>>,
    pos: int,
    acc: StmttrnPartial,
    v: StmttrnView,
    p: int,
)
    requires
        spec_parse_stmttrn_loop(toks, pos, acc) == Ok::<(StmttrnView, int), ErrorView>((v, p)),
        toks2.len() >= p,
        forall|j: int| pos <= j < p ==> toks2[j] == toks[j],
    ensures
        spec_parse_stmttrn_loop(toks2, pos, acc) == Ok::<(StmttrnView, int), ErrorView>((v, p)),
    decreases toks.len() - pos,
{
    lemma_spec_parse_stmttrn_loop_advances(toks, pos, acc);
    if 0 <= pos < toks.len() {
        let t = toks[pos];
        if t == "TRNTYPE"@ {
            if pos + 1 < toks.len() {
                let acc1 = StmttrnPartial { trans_type: Some(toks[pos + 1]), ..acc };
                lemma_spec_parse_stmttrn_loop_advances(toks, pos + 2, acc1);
                lemma_stmttrn_frame(toks, toks2, pos + 2, acc1, v, p);
            }
        } else if t == "DTPOSTED"@ {
            if pos + 1 < toks.len() {
                match spec_parse_ofx_datetime(toks[pos + 1]) {
                    Some(dt) => {
                        let acc1 = StmttrnPartial { dt_posted: Some(dt), ..acc };
                        lemma_spec_parse_stmttrn_loop_advances(toks, pos + 2, acc1);
                        lemma_stmttrn_frame(toks, toks2, pos + 2, acc1, v, p);
                    },
                    None => {},
                }
            }
        } else if t == "TRNAMT"@ {
            if pos + 1 < toks.len() {
                match spec_parse_amount(toks[pos + 1]) {
                    Some(a) => {
                        let acc1 = StmttrnPartial { trans_amount: Some(a), ..acc };
                        lemma_spec_parse_stmttrn_loop_advances(toks, pos + 2, acc1);
                        lemma_stmttrn_frame(toks, toks2, pos + 2, acc1, v, p);
                    },
                    None => {},
                }
            }
        } else if t == "FITID"@ {
            if pos + 1 < toks.len() {
                let acc1 = StmttrnPartial { fit_id: Some(toks[pos + 1]), ..acc };
                lemma_spec_parse_stmttrn_loop_advances(toks, pos + 2, acc1);
                lemma_stmttrn_frame(toks, toks2, pos + 2, acc1, v, p);
            }
        } else if t == "CORRECTFITID"@ {
            if pos + 1 < toks.len() {
                let acc1 = StmttrnPartial { correct_fit_id: Some(toks[pos + 1]), ..acc };
                lemma_spec_parse_stmttrn_loop_advances(toks, pos + 2, acc1);
                lemma_stmttrn_frame(toks, toks2, pos + 2, acc1, v, p);
            }
        } else if t == "CORRECTACTION"@ {
            if pos + 1 < toks.len() {
                let acc1 = StmttrnPartial { correct_action: Some(toks[pos + 1]), ..acc };
                lemma_spec_parse_stmttrn_loop_advances(toks, pos + 2, acc1);
                lemma_stmttrn_frame(toks, toks2, pos + 2, acc1, v, p);
            }
        } else if t == "NAME"@ {
            if pos + 1 < toks.len() {
                let acc1 = StmttrnPartial { name: Some(toks[pos + 1]), ..acc };
                lemma_spec_parse_stmttrn_loop_advances(toks, pos + 2, acc1);
                lemma_stmttrn_frame(toks, toks2, pos + 2, acc1, v, p);
            }
        } else if t == "MEMO"@ {
            if pos + 1 < toks.len() {
                let acc1 = StmttrnPartial { memo: Some(toks[pos + 1]), ..acc };
                lemma_spec_parse_stmttrn_loop_advances(toks, pos + 2, acc1);
                lemma_stmttrn_frame(toks, toks2, pos + 2, acc1, v, p);
            }
        } else if t == "CHECKNUM"@ {
            if pos + 1 < toks.len() {
                let acc1 = StmttrnPartial { check_num: Some(toks[pos + 1]), ..acc };
                lemma_spec_parse_stmttrn_loop_advances(toks, pos + 2, acc1);
                lemma_stmttrn_frame(toks, toks2, pos + 2, acc1, v, p);
            }
        }
    }
}

/// Truncating the token stream of a successful STMTTRN decode anywhere
/// before the position past its terminator yields `UnexpectedEOF`,
/// whatever fields were already seen.
#[verifier::rlimit(50)]
pub proof fn lemma_stmttrn_truncated_before_terminator(
    toks: Seq<Seq<char>>,
    pos: int,
    acc: StmttrnPartial,
    cut: int,
    v: StmttrnView,
    p: int,
)
    requires
        spec_parse_stmttrn_loop(toks, pos, acc) == Ok::<(StmttrnView, int), ErrorView>((v, p)),
        pos <= cut < p,
    ensures
        spec_parse_stmttrn_loop(toks.subrange(0, cut), pos, acc) matches Err(ErrorView::UnexpectedEOF(_)),
    decreases toks.len() - pos,
{
    lemma_spec_parse_stmttrn_loop_advances(toks, pos, acc);
    let toks2 = toks.subrange(0, cut);
    if cut > pos {
        let t = toks[pos];
        if t == "TRNTYPE"@ {
            if pos + 1 < toks.len() && cut > pos + 1 {
                let acc1 = StmttrnPartial { trans_type: Some(toks[pos + 1]), ..acc };
                lemma_spec_parse_stmttrn_loop_advances(toks, pos + 2, acc1);
                lemma_stmttrn_truncated_before_terminator(toks, pos + 2, acc1, cut, v, p);
            }
        } else if t == "DTPOSTED"@ {
            if pos + 1 < toks.len() {
                match spec_parse_ofx_datetime(toks[pos + 1]) {
                    Some(dt) => {
                        if cut > pos + 1 {
                            let acc1 = StmttrnPartial { dt_posted: Some(dt), ..acc };
                            lemma_spec_parse_stmttrn_loop_advances(toks, pos + 2, acc1);
                            lemma_stmttrn_truncated_before_terminator(toks, pos + 2, acc1, cut, v, p);
                        }
                    },
                    None => {},
                }
            }
        } else if t == "TRNAMT"@ {
            if pos + 1 < toks.len() {
                match spec_parse_amount(toks[pos + 1]) {
                    Some(a) => {
                        if cut > pos + 1 {
                            let acc1 = StmttrnPartial { trans_amount: Some(a), ..acc };
                            lemma_spec_parse_stmttrn_loop_advances(toks, pos + 2, acc1);
                            lemma_stmttrn_truncated_before_terminator(toks, pos + 2, acc1, cut, v, p);
                        }
                    },
                    None => {},
                }
            }
        } else if t == "FITID"@ {
            if pos + 1 < toks.len() && cut > pos + 1 {
                let acc1 = StmttrnPartial { fit_id: Some(toks[pos + 1]), ..acc };
                lemma_spec_parse_stmttrn_loop_advances(toks, pos + 2, acc1);
                lemma_stmttrn_truncated_before_terminator(toks, pos + 2, acc1, cut, v, p);
            }
        } else if t == "CORRECTFITID"@ {
            if pos + 1 < toks.len() && cut > pos + 1 {
                let acc1 = StmttrnPartial { correct_fit_id: Some(toks[pos + 1]), ..acc };
                lemma_spec_parse_stmttrn_loop_advances(toks, pos + 2, acc1);
                lemma_stmttrn_truncated_before_terminator(toks, pos + 2, acc1, cut, v, p);
            }
        } else if t == "CORRECTACTION"@ {
            if pos + 1 < toks.len() && cut > pos + 1 {
                let acc1 = StmttrnPartial { correct_action: Some(toks[pos + 1]), ..acc };
                lemma_spec_parse_stmttrn_loop_advances(toks, pos + 2, acc1);
                lemma_stmttrn_truncated_before_terminator(toks, pos + 2, acc1, cut, v, p);
            }
        } else if t == "NAME"@ {
            if pos + 1 < toks.len() && cut > pos + 1 {
                let acc1 = StmttrnPartial { name: Some(toks[pos + 1]), ..acc };
                lemma_spec_parse_stmttrn_loop_advances(toks, pos + 2, acc1);
                lemma_stmttrn_truncated_before_terminator(toks, pos + 2, acc1, cut, v, p);
            }
        } else if t == "MEMO"@ {
            if pos + 1 < toks.len() && cut > pos + 1 {
                let acc1 = StmttrnPartial { memo: Some(toks[pos + 1]), ..acc };
                lemma_spec_parse_stmttrn_loop_advances(toks, pos + 2, acc1);
                lemma_stmttrn_truncated_before_terminator(toks, pos + 2, acc1, cut, v, p);
            }
        } else if t == "CHECKNUM"@ {
            if pos + 1 < toks.len() && cut > pos + 1 {
                let acc1 = StmttrnPartial { check_num: Some(toks[pos + 1]), ..acc };
                lemma_spec_parse_stmttrn_loop_advances(toks, pos + 2, acc1);
                lemma_stmttrn_truncated_before_terminator(toks, pos + 2, acc1, cut, v, p);
            }
        }
    }
}

proof fn bank_tran_list_tag_facts()
    ensures
        "DTSTART"@ != "DTEND"@,
        "DTSTART"@ != "STMTTRN"@,
        "DTSTART"@ != "/BANKTRANLIST"@,
        "DTEND"@ != "STMTTRN"@,
        "DTEND"@ != "/BANKTRANLIST"@,
        "STMTTRN"@ != "/BANKTRANLIST"@,
{
    reveal_strlit("/BANKTRANLIST");
    reveal_strlit("DTEND");
    reveal_strlit("DTSTART");
    reveal_strlit("STMTTRN");
    assert("/BANKTRANLIST"@.len() == 13);
    assert("DTEND"@.len() == 5);
    assert("DTSTART"@.len() == 7);
    assert("STMTTRN"@.len() == 7);
    assert("DTSTART"@[0] != "STMTTRN"@[0]);
    assert("DTSTART"@ != "STMTTRN"@);
}

/// A well-formed minimal BANKTRANLIST instance — only required fields, then the
/// terminator — decodes successfully, with every optional field absent.
pub proof fn lemma_bank_tran_list_minimal(toks: Seq<Seq<char>>, pos: int, v_dt_start: UtcDateTime, v_dt_end: UtcDateTime)
    requires
        0 <= pos,
        pos + 1 < toks.len(),
        toks[pos] == "DTSTART"@,
        spec_parse_ofx_datetime(toks[pos + 1]) == Some(v_dt_start),
        pos + 2 + 1 < toks.len(),
        toks[pos + 2] == "DTEND"@,
        spec_parse_ofx_datetime(toks[pos + 2 + 1]) == Some(v_dt_end),
        pos + 2 + 2 < toks.len(),
        toks[pos + 2 + 2] == "/BANKTRANLIST"@,
    ensures
        spec_parse_bank_tran_list(toks, pos) == Ok::<(BankTranListView, int), ErrorView>(
            (
                BankTranListView {
                    dt_start: v_dt_start,
                    dt_end: v_dt_end,
                    transactions: Seq::<StmttrnView>::empty(),
                },
                pos + 2 + 2 + 1,
            ),
        ),
{
    bank_tran_list_tag_facts();
    assert(spec_parse_bank_tran_list_loop(
        toks,
        pos,
        BankTranListPartial {
            dt_start: None,
            dt_end: None,
            transactions: Seq::<StmttrnView>::empty(),
        },
    ) == spec_parse_bank_tran_list_loop(
        toks,
        pos + 2,
        BankTranListPartial {
            dt_start: Some(v_dt_start),
            dt_end: None,
            transactions: Seq::<StmttrnView>::empty(),
        },
    ));
    assert(spec_parse_bank_tran_list_loop(
        toks,
        pos + 2,
        BankTranListPartial {
            dt_start: Some(v_dt_start),
            dt_end: None,
            transactions: Seq::<StmttrnView>::empty(),
        },
    ) == spec_parse_bank_tran_list_loop(
        toks,
        pos + 2 + 2,
        BankTranListPartial {
            dt_start: Some(v_dt_start),
            dt_end: Some(v_dt_end),
            transactions: Seq::<StmttrnView>::empty(),
        },
    ));
}

/// Omitting the required DTSTART field of a BANKTRANLIST record, while keeping the
/// other required fields and the terminator, fails with
/// `MissingRequiredValue` naming that field.
pub proof fn lemma_bank_tran_list_missing_dt_start(toks: Seq<Seq<char>>, pos: int, v_dt_end: UtcDateTime)
    requires
        0 <= pos,
        pos + 1 < toks.len(),
        toks[pos] == "DTEND"@,
        spec_parse_ofx_datetime(toks[pos + 1]) == Some(v_dt_end),
        pos + 2 < toks.len(),
        toks[pos + 2] == "/BANKTRANLIST"@,
    ensures
        spec_parse_bank_tran_list(toks, pos) == Err::<(BankTranListView, int), ErrorView>(
            ErrorView::MissingRequiredValue("Missing DTSTART in BANKTRANLIST"@),
        ),
{
    bank_tran_list_tag_facts();
    assert(spec_parse_bank_tran_list_loop(
        toks,
        pos,
        BankTranListPartial {
            dt_start: None,
            dt_end: None,
            transactions: Seq::<StmttrnView>::empty(),
        },
    ) == spec_parse_bank_tran_list_loop(
        toks,
        pos + 2,
        BankTranListPartial {
            dt_start: None,
            dt_end: Some(v_dt_end),
            transactions: Seq::<StmttrnView>::empty(),
        },
    ));
}

/// Omitting the required DTEND field of a BANKTRANLIST record, while keeping the
/// other required fields and the terminator, fails with
/// `MissingRequiredValue` naming that field.
pub proof fn lemma_bank_tran_list_missing_dt_end(toks: Seq<Seq<char>>, pos: int, v_dt_start: UtcDateTime)
    requires
        0 <= pos,
        pos + 1 < toks.len(),
        toks[pos] == "DTSTART"@,
        spec_parse_ofx_datetime(toks[pos + 1]) == Some(v_dt_start),
        pos + 2 < toks.len(),
        toks[pos + 2] == "/BANKTRANLIST"@,
    ensures
        spec_parse_bank_tran_list(toks, pos) == Err::<(BankTranListView, int), ErrorView>(
            ErrorView::MissingRequiredValue("Missing DTEND in BANKTRANLIST"@),
        ),
{
    bank_tran_list_tag_facts();
    assert(spec_parse_bank_tran_list_loop(
        toks,
        pos,
        BankTranListPartial {
            dt_start: None,
            dt_end: None,
            transactions: Seq::<StmttrnView>::empty(),
        },
    ) == spec_parse_bank_tran_list_loop(
        toks,
        pos + 2,
        BankTranListPartial {
            dt_start: Some(v_dt_start),
            dt_end: None,
            transactions: Seq::<StmttrnView>::empty(),
        },
    ));
}

/// At the BANKTRANLIST terminator, the decode fails with `MissingRequiredValue`
/// naming the first required field, in schema order, that was never
/// set — whatever fields were seen before it and in whatever order —
/// and succeeds with exactly the fields seen once every required
/// field is set, absent optional fields staying absent.
pub proof fn lemma_bank_tran_list_at_terminator(toks: Seq<Seq<char>>, pos: int, acc: BankTranListPartial)
    requires
        0 <= pos < toks.len(),
        toks[pos] == "/BANKTRANLIST"@,
    ensures
        acc.dt_start is None ==> spec_parse_bank_tran_list_loop(toks, pos, acc) == Err::<(BankTranListView, int), ErrorView>(
            ErrorView::MissingRequiredValue("Missing DTSTART in BANKTRANLIST"@),
        ),
        acc.dt_start is Some && acc.dt_end is None ==> spec_parse_bank_tran_list_loop(toks, pos, acc) == Err::<(BankTranListView, int), ErrorView>(
            ErrorView::MissingRequiredValue("Missing DTEND in BANKTRANLIST"@),
        ),
        acc.dt_start is Some && acc.dt_end is Some ==> spec_parse_bank_tran_list_loop(toks, pos, acc) == Ok::<(BankTranListView, int), ErrorView>(
            (
                BankTranListView {
                    dt_start: acc.dt_start->0,
                    dt_end: acc.dt_end->0,
                    transactions: acc.transactions,
                },
                pos + 1,
            ),
        ),
{
    bank_tran_list_tag_facts();
}

/// A token that is neither a field tag of BANKTRANLIST nor its terminator fails
/// the decode at once with `UnexpectedToken` naming the token and the
/// enclosing record, whatever fields were already seen.
pub proof fn lemma_bank_tran_list_unknown_tag(toks: Seq<Seq<char>>, pos: int, acc: BankTranListPartial)
    requires
        0 <= pos < toks.len(),
        toks[pos] != "DTSTART"@,
        toks[pos] != "DTEND"@,
        toks[pos] != "STMTTRN"@,
        toks[pos] != "/BANKTRANLIST"@,
    ensures
        spec_parse_bank_tran_list_loop(toks, pos, acc) == Err::<(BankTranListView, int), ErrorView>(
            ErrorView::UnexpectedToken(
                "Found unexpected token "@ + toks[pos] + " in the BANKTRANLIST type"@,
            ),
        ),
{
}

/// A stream that is exhausted before the BANKTRANLIST terminator fails with
/// `UnexpectedEOF` naming the terminator still awaited, whatever fields
/// were already seen.
pub proof fn lemma_bank_tran_list_truncated(toks: Seq<Seq<char>>, pos: int, acc: BankTranListPartial)
    requires
        pos >= toks.len(),
    ensures
        spec_parse_bank_tran_list_loop(toks, pos, acc) == Err::<(BankTranListView, int), ErrorView>(
            ErrorView::UnexpectedEOF("Found unexpected EOF. Was still expecting the '/BANKTRANLIST' token"@),
        ),
{
}

/// A stream truncated right after a value field's tag of BANKTRANLIST fails
/// with `UnexpectedEOF` naming that field, whatever fields were
/// already seen.
pub proof fn lemma_bank_tran_list_truncated_after_tag(toks: Seq<Seq<char>>, pos: int, acc: BankTranListPartial)
    requires
        0 <= pos,
        pos + 1 == toks.len(),
    ensures
        toks[pos] == "DTSTART"@ ==> spec_parse_bank_tran_list_loop(toks, pos, acc) == Err::<(BankTranListView, int), ErrorView>(
            ErrorView::UnexpectedEOF("Expected token following the DTSTART token"@),
        ),
        toks[pos] == "DTEND"@ ==> spec_parse_bank_tran_list_loop(toks, pos, acc) == Err::<(BankTranListView, int), ErrorView>(
            ErrorView::UnexpectedEOF("Expected token following the DTEND token"@),
        ),
{
    bank_tran_list_tag_facts();
}

/// A successful BANKTRANLIST decode reads only the tokens it consumes: on any
/// stream that agrees with `toks` on `[pos, p)`, the decode returns the
/// same record and the same end position.
#[verifier::rlimit(50)]
pub proof fn lemma_bank_tran_list_frame(
    toks: Seq<Seq<char>>,
    toks2: Seq<Seq<char>>,
    pos: int,
    acc: BankTranListPartial,
    v: BankTranListView,
    p: int,
)
    requires
        spec_parse_bank_tran_list_loop(toks, pos, acc) == Ok::<(BankTranListView, int), ErrorView>((v, p)),
        toks2.len() >= p,
        forall|j: int| pos <= j < p ==> toks2[j] == toks[j],
    ensures
        spec_parse_bank_tran_list_loop(toks2, pos, acc) == Ok::<(BankTranListView, int), ErrorView>((v, p)),
    decreases toks.len() - pos,
{
    lemma_spec_parse_bank_tran_list_loop_advances(toks, pos, acc);
    if 0 <= pos < toks.len() {
        let t = toks[pos];
        if t == "DTSTART"@ {
            if pos + 1 < toks.len() {
                match spec_parse_ofx_datetime(toks[pos + 1]) {
                    Some(dt) => {
                        let acc1 = BankTranListPartial { dt_start: Some(dt), ..acc };
                        lemma_spec_parse_bank_tran_list_loop_advances(toks, pos + 2, acc1);
                        lemma_bank_tran_list_frame(toks, toks2, pos + 2, acc1, v, p);
                    },
                    None => {},
                }
            }
        } else if t == "DTEND"@ {
            if pos + 1 < toks.len() {
                match spec_parse_ofx_datetime(toks[pos + 1]) {
                    Some(dt) => {
                        let acc1 = BankTranListPartial { dt_end: Some(dt), ..acc };
                        lemma_spec_parse_bank_tran_list_loop_advances(toks, pos + 2, acc1);
                        lemma_bank_tran_list_frame(toks, toks2, pos + 2, acc1, v, p);
                    },
                    None => {},
                }
            }
        } else if t == "STMTTRN"@ {
            match spec_parse_stmttrn(toks, pos + 1) {
                Ok((cv, cp)) => {
                    lemma_spec_parse_stmttrn_advances(toks, pos + 1);
                    let acc1 = BankTranListPartial { transactions: acc.transactions.push(cv), ..acc };
                    lemma_spec_parse_bank_tran_list_loop_advances(toks, cp, acc1);
                    lemma_stmttrn_frame(toks, toks2, pos + 1, StmttrnPartial::init(), cv, cp);
                    lemma_bank_tran_list_frame(toks, toks2, cp, acc1, v, p);
                },
                Err(e) => {},
            }
        }
    }
}

/// Truncating the token stream of a successful BANKTRANLIST decode anywhere
/// before the position past its terminator yields `UnexpectedEOF`,
/// whatever fields were already seen.
#[verifier::rlimit(50)]
pub proof fn lemma_bank_tran_list_truncated_before_terminator(
    toks: Seq<Seq<char>>,
    pos: int,
    acc: BankTranListPartial,
    cut: int,
    v: BankTranListView,
    p: int,
)
    requires
        spec_parse_bank_tran_list_loop(toks, pos, acc) == Ok::<(BankTranListView, int), ErrorView>((v, p)),
        pos <= cut < p,
    ensures
        spec_parse_bank_tran_list_loop(toks.subrange(0, cut), pos, acc) matches Err(ErrorView::UnexpectedEOF(_)),
    decreases toks.len() - pos,
{
    lemma_spec_parse_bank_tran_list_loop_advances(toks, pos, acc);
    let toks2 = toks.subrange(0, cut);
    if cut > pos {
        let t = toks[pos];
        if t == "DTSTART"@ {
            if pos + 1 < toks.len() {
                match spec_parse_ofx_datetime(toks[pos + 1]) {
                    Some(dt) => {
                        if cut > pos + 1 {
                            let acc1 = BankTranListPartial { dt_start: Some(dt), ..acc };
                            lemma_spec_parse_bank_tran_list_loop_advances(toks, pos + 2, acc1);
                            lemma_bank_tran_list_truncated_before_terminator(toks, pos + 2, acc1, cut, v, p);
                        }
                    },
                    None => {},
                }
            }
        } else if t == "DTEND"@ {
            if pos + 1 < toks.len() {
                match spec_parse_ofx_datetime(toks[pos + 1]) {
                    Some(dt) => {
                        if cut > pos + 1 {
                            let acc1 = BankTranListPartial { dt_end: Some(dt), ..acc };
                            lemma_spec_parse_bank_tran_list_loop_advances(toks, pos + 2, acc1);
                            lemma_bank_tran_list_truncated_before_terminator(toks, pos + 2, acc1, cut, v, p);
                        }
                    },
                    None => {},
                }
            }
        } else if t == "STMTTRN"@ {
            match spec_parse_stmttrn(toks, pos + 1) {
                Ok((cv, cp)) => {
                    lemma_spec_parse_stmttrn_advances(toks, pos + 1);
                    let acc1 = BankTranListPartial { transactions: acc.transactions.push(cv), ..acc };
                    lemma_spec_parse_bank_tran_list_loop_advances(toks, cp, acc1);
                    if cut < cp {
                        lemma_stmttrn_truncated_before_terminator(toks, pos + 1, StmttrnPartial::init(), cut, cv, cp);
                    } else {
                        lemma_stmttrn_frame(toks, toks2, pos + 1, StmttrnPartial::init(), cv, cp);
                        lemma_bank_tran_list_truncated_before_terminator(toks, cp, acc1, cut, v, p);
                    }
                },
                Err(e) => {},
            }
        }
    }
}

proof fn bankacctfrom_tag_facts()
    ensures
        "ACCTID"@ != "ACCTTYPE"@,
        "ACCTID"@ != "BANKID"@,
        "ACCTID"@ != "/BANKACCTFROM"@,
        "ACCTTYPE"@ != "BANKID"@,
        "ACCTTYPE"@ != "/BANKACCTFROM"@,
        "BANKID"@ != "/BANKACCTFROM"@,
{
    reveal_strlit("/BANKACCTFROM");
    reveal_strlit("ACCTID");
    reveal_strlit("ACCTTYPE");
    reveal_strlit("BANKID");
    assert("/BANKACCTFROM"@.len() == 13);
    assert("ACCTID"@.len() == 6);
    assert("ACCTTYPE"@.len() == 8);
    assert("BANKID"@.len() == 6);
    assert("ACCTID"@[0] != "BANKID"@[0]);
    assert("ACCTID"@ != "BANKID"@);
}

/// A well-formed minimal BANKACCTFROM instance — only required fields, then the
/// terminator — decodes successfully, with every optional field absent.
pub proof fn lemma_bankacctfrom_minimal(toks: Seq<Seq<char>>, pos: int)
    requires
        0 <= pos,
        pos + 1 < toks.len(),
        toks[pos] == "ACCTID"@,
        pos + 2 + 1 < toks.len(),
        toks[pos + 2] == "ACCTTYPE"@,
        pos + 2 + 2 < toks.len(),
        toks[pos + 2 + 2] == "/BANKACCTFROM"@,
    ensures
        spec_parse_bankacctfrom(toks, pos) == Ok::<(BankacctfromView, int), ErrorView>(
            (
                BankacctfromView {
                    acct_id: toks[pos + 1],
                    acct_type: toks[pos + 2 + 1],
                    bank_id: None,
                },
                pos + 2 + 2 + 1,
            ),
        ),
{
    bankacctfrom_tag_facts();
    assert(spec_parse_bankacctfrom_loop(
        toks,
        pos,
        BankacctfromPartial {
            acct_id: None,
            acct_type: None,
            bank_id: None,
        },
    ) == spec_parse_bankacctfrom_loop(
        toks,
        pos + 2,
        BankacctfromPartial {
            acct_id: Some(toks[pos + 1]),
            acct_type: None,
            bank_id: None,
        },
    ));
    assert(spec_parse_bankacctfrom_loop(
        toks,
        pos + 2,
        BankacctfromPartial {
            acct_id: Some(toks[pos + 1]),
            acct_type: None,
            bank_id: None,
        },
    ) == spec_parse_bankacctfrom_loop(
        toks,
        pos + 2 + 2,
        BankacctfromPartial {
            acct_id: Some(toks[pos + 1]),
            acct_type: Some(toks[pos + 2 + 1]),
            bank_id: None,
        },
    ));
}

/// Omitting the required ACCTID field of a BANKACCTFROM record, while keeping the
/// other required fields and the terminator, fails with
/// `MissingRequiredValue` naming that field.
pub proof fn lemma_bankacctfrom_missing_acct_id(toks: Seq<Seq<char>>, pos: int)
    requires
        0 <= pos,
        pos + 1 < toks.len(),
        toks[pos] == "ACCTTYPE"@,
        pos + 2 < toks.len(),
        toks[pos + 2] == "/BANKACCTFROM"@,
    ensures
        spec_parse_bankacctfrom(toks, pos) == Err::<(BankacctfromView, int), ErrorView>(
            ErrorView::MissingRequiredValue("ACCTID is a required value in BANKACCTFROM"@),
        ),
{
    bankacctfrom_tag_facts();
    assert(spec_parse_bankacctfrom_loop(
        toks,
        pos,
        BankacctfromPartial {
            acct_id: None,
            acct_type: None,
            bank_id: None,
        },
    ) == spec_parse_bankacctfrom_loop(
        toks,
        pos + 2,
        BankacctfromPartial {
            acct_id: None,
            acct_type: Some(toks[pos + 1]),
            bank_id: None,
        },
    ));
}

/// Omitting the required ACCTTYPE field of a BANKACCTFROM record, while keeping the
/// other required fields and the terminator, fails with
/// `MissingRequiredValue` naming that field.
pub proof fn lemma_bankacctfrom_missing_acct_type(toks: Seq<Seq<char>>, pos: int)
    requires
        0 <= pos,
        pos + 1 < toks.len(),
        toks[pos] == "ACCTID"@,
        pos + 2 < toks.len(),
        toks[pos + 2] == "/BANKACCTFROM"@,
    ensures
        spec_parse_bankacctfrom(toks, pos) == Err::<(BankacctfromView, int), ErrorView>(
            ErrorView::MissingRequiredValue("ACCTTYPE is a required value in BANKACCTFROM"@),
        ),
{
    bankacctfrom_tag_facts();
    assert(spec_parse_bankacctfrom_loop(
        toks,
        pos,
        BankacctfromPartial {
            acct_id: None,
            acct_type: None,
            bank_id: None,
        },
    ) == spec_parse_bankacctfrom_loop(
        toks,
        pos + 2,
        BankacctfromPartial {
            acct_id: Some(toks[pos + 1]),
            acct_type: None,
            bank_id: None,
        },
    ));
}

/// At the BANKACCTFROM terminator, the decode fails with `MissingRequiredValue`
/// naming the first required field, in schema order, that was never
/// set — whatever fields were seen before it and in whatever order —
/// and succeeds with exactly the fields seen once every required
/// field is set, absent optional fields staying absent.
pub proof fn lemma_bankacctfrom_at_terminator(toks: Seq<Seq<char>>, pos: int, acc: BankacctfromPartial)
    requires
        0 <= pos < toks.len(),
        toks[pos] == "/BANKACCTFROM"@,
    ensures
        acc.acct_id is None ==> spec_parse_bankacctfrom_loop(toks, pos, acc) == Err::<(BankacctfromView, int), ErrorView>(
            ErrorView::MissingRequiredValue("ACCTID is a required value in BANKACCTFROM"@),
        ),
        acc.acct_id is Some && acc.acct_type is None ==> spec_parse_bankacctfrom_loop(toks, pos, acc) == Err::<(BankacctfromView, int), ErrorView>(
            ErrorView::MissingRequiredValue("ACCTTYPE is a required value in BANKACCTFROM"@),
        ),
        acc.acct_id is Some && acc.acct_type is Some ==> spec_parse_bankacctfrom_loop(toks, pos, acc) == Ok::<(BankacctfromView, int), ErrorView>(
            (
                BankacctfromView {
                    acct_id: acc.acct_id->0,
                    acct_type: acc.acct_type->0,
                    bank_id: acc.bank_id,
                },
                pos + 1,
            ),
        ),
{
    bankacctfrom_tag_facts();
}

/// A token that is neither a field tag of BANKACCTFROM nor its terminator fails
/// the decode at once with `UnexpectedToken` naming the token and the
/// enclosing record, whatever fields were already seen.
pub proof fn lemma_bankacctfrom_unknown_tag(toks: Seq<Seq<char>>, pos: int, acc: BankacctfromPartial)
    requires
        0 <= pos < toks.len(),
        toks[pos] != "ACCTID"@,
        toks[pos] != "ACCTTYPE"@,
        toks[pos] != "BANKID"@,
        toks[pos] != "/BANKACCTFROM"@,
    ensures
        spec_parse_bankacctfrom_loop(toks, pos, acc) == Err::<(BankacctfromView, int), ErrorView>(
            ErrorView::UnexpectedToken(
                "Found unexpected token "@ + toks[pos] + " in the BANKACCTFROM type"@,
            ),
        ),
{
}

/// A stream that is exhausted before the BANKACCTFROM terminator fails with
/// `UnexpectedEOF` naming the terminator still awaited, whatever fields
/// were already seen.
pub proof fn lemma_bankacctfrom_truncated(toks: Seq<Seq<char>>, pos: int, acc: BankacctfromPartial)
    requires
        pos >= toks.len(),
    ensures
        spec_parse_bankacctfrom_loop(toks, pos, acc) == Err::<(BankacctfromView, int), ErrorView>(
            ErrorView::UnexpectedEOF("Found unexpected EOF. Was still expecting the '/BANKACCTFROM' token"@),
        ),
{
}

/// A stream truncated right after a value field's tag of BANKACCTFROM fails
/// with `UnexpectedEOF` naming that field, whatever fields were
/// already seen.
pub proof fn lemma_bankacctfrom_truncated_after_tag(toks: Seq<Seq<char>>, pos: int, acc: BankacctfromPartial)
    requires
        0 <= pos,
        pos + 1 == toks.len(),
    ensures
        toks[pos] == "ACCTID"@ ==> spec_parse_bankacctfrom_loop(toks, pos, acc) == Err::<(BankacctfromView, int), ErrorView>(
            ErrorView::UnexpectedEOF("Expected token following the ACCTID token"@),
        ),
        toks[pos] == "ACCTTYPE"@ ==> spec_parse_bankacctfrom_loop(toks, pos, acc) == Err::<(BankacctfromView, int), ErrorView>(
            ErrorView::UnexpectedEOF("Expected token following the ACCTTYPE token"@),
        ),
        toks[pos] == "BANKID"@ ==> spec_parse_bankacctfrom_loop(toks, pos, acc) == Err::<(BankacctfromView, int), ErrorView>(
            ErrorView::UnexpectedEOF("Expected token following the BANKID token"@),
        ),
{
    bankacctfrom_tag_facts();
}

/// A successful BANKACCTFROM decode reads only the tokens it consumes: on any
/// stream that agrees with `toks` on `[pos, p)`, the decode returns the
/// same record and the same end position.
#[verifier::rlimit(50)]
pub proof fn lemma_bankacctfrom_frame(
    toks: Seq<Seq<char>>,
    toks2: Seq<Seq<char>>,
    pos: int,
    acc: BankacctfromPartial,
    v: BankacctfromView,
    p: int,
)
    requires
        spec_parse_bankacctfrom_loop(toks, pos, acc) == Ok::<(BankacctfromView, int), ErrorView>((v, p)),
        toks2.len() >= p,
        forall|j: int| pos <= j < p ==> toks2[j] == toks[j],
    ensures
        spec_parse_bankacctfrom_loop(toks2, pos, acc) == Ok::<(BankacctfromView, int), ErrorView>((v, p)),
    decreases toks.len() - pos,
{
    lemma_spec_parse_bankacctfrom_loop_advances(toks, pos, acc);
    if 0 <= pos < toks.len() {
        let t = toks[pos];
        if t == "ACCTID"@ {
            if pos + 1 < toks.len() {
                let acc1 = BankacctfromPartial { acct_id: Some(toks[pos + 1]), ..acc };
                lemma_spec_parse_bankacctfrom_loop_advances(toks, pos + 2, acc1);
                lemma_bankacctfrom_frame(toks, toks2, pos + 2, acc1, v, p);
            }
        } else if t == "ACCTTYPE"@ {
            if pos + 1 < toks.len() {
                let acc1 = BankacctfromPartial { acct_type: Some(toks[pos + 1]), ..acc };
                lemma_spec_parse_bankacctfrom_loop_advances(toks, pos + 2, acc1);
                lemma_bankacctfrom_frame(toks, toks2, pos + 2, acc1, v, p);
            }
        } else if t == "BANKID"@ {
            if pos + 1 < toks.len() {
                let acc1 = BankacctfromPartial { bank_id: Some(toks[pos + 1]), ..acc };
                lemma_spec_parse_bankacctfrom_loop_advances(toks, pos + 2, acc1);
                lemma_bankacctfrom_frame(toks, toks2, pos + 2, acc1, v, p);
            }
        }
    }
}

/// Truncating the token stream of a successful BANKACCTFROM decode anywhere
/// before the position past its terminator yields `UnexpectedEOF`,
/// whatever fields were already seen.
#[verifier::rlimit(50)]
pub proof fn lemma_bankacctfrom_truncated_before_terminator(
    toks: Seq<Seq<char>>,
    pos: int,
    acc: BankacctfromPartial,
    cut: int,
    v: BankacctfromView,
    p: int,
)
    requires
        spec_parse_bankacctfrom_loop(toks, pos, acc) == Ok::<(BankacctfromView, int), ErrorView>((v, p)),
        pos <= cut < p,
    ensures
        spec_parse_bankacctfrom_loop(toks.subrange(0, cut), pos, acc) matches Err(ErrorView::UnexpectedEOF(_)),
    decreases toks.len() - pos,
{
    lemma_spec_parse_bankacctfrom_loop_advances(toks, pos, acc);
    let toks2 = toks.subrange(0, cut);
    if cut > pos {
        let t = toks[pos];
        if t == "ACCTID"@ {
            if pos + 1 < toks.len() && cut > pos + 1 {
                let acc1 = BankacctfromPartial { acct_id: Some(toks[pos + 1]), ..acc };
                lemma_spec_parse_bankacctfrom_loop_advances(toks, pos + 2, acc1);
                lemma_bankacctfrom_truncated_before_terminator(toks, pos + 2, acc1, cut, v, p);
            }
        } else if t == "ACCTTYPE"@ {
            if pos + 1 < toks.len() && cut > pos + 1 {
                let acc1 = BankacctfromPartial { acct_type: Some(toks[pos + 1]), ..acc };
                lemma_spec_parse_bankacctfrom_loop_advances(toks, pos + 2, acc1);
                lemma_bankacctfrom_truncated_before_terminator(toks, pos + 2, acc1, cut, v, p);
            }
        } else if t == "BANKID"@ {
            if pos + 1 < toks.len() && cut > pos + 1 {
                let acc1 = BankacctfromPartial { bank_id: Some(toks[pos + 1]), ..acc };
                lemma_spec_parse_bankacctfrom_loop_advances(toks, pos + 2, acc1);
                lemma_bankacctfrom_truncated_before_terminator(toks, pos + 2, acc1, cut, v, p);
            }
        }
    }
}

proof fn stmtrs_tag_facts()
    ensures
        "CURDEF"@ != "BANKACCTFROM"@,
        "CURDEF"@ != "BANKTRANLIST"@,
        "CURDEF"@ != "LEDGERBAL"@,
        "CURDEF"@ != "AVAILBAL"@,
        "CURDEF"@ != "/STMTRS"@,
        "BANKACCTFROM"@ != "BANKTRANLIST"@,
        "BANKACCTFROM"@ != "LEDGERBAL"@,
        "BANKACCTFROM"@ != "AVAILBAL"@,
        "BANKACCTFROM"@ != "/STMTRS"@,
        "BANKTRANLIST"@ != "LEDGERBAL"@,
        "BANKTRANLIST"@ != "AVAILBAL"@,
        "BANKTRANLIST"@ != "/STMTRS"@,
        "LEDGERBAL"@ != "AVAILBAL"@,
        "LEDGERBAL"@ != "/STMTRS"@,
        "AVAILBAL"@ != "/STMTRS"@,
{
    reveal_strlit("/STMTRS");
    reveal_strlit("AVAILBAL");
    reveal_strlit("BANKACCTFROM");
    reveal_strlit("BANKTRANLIST");
    reveal_strlit("CURDEF");
    reveal_strlit("LEDGERBAL");
    assert("/STMTRS"@.len() == 7);
    assert("AVAILBAL"@.len() == 8);
    assert("BANKACCTFROM"@.len() == 12);
    assert("BANKTRANLIST"@.len() == 12);
    assert("CURDEF"@.len() == 6);
    assert("LEDGERBAL"@.len() == 9);
    assert("BANKACCTFROM"@[4] != "BANKTRANLIST"@[4]);
    assert("BANKACCTFROM"@ != "BANKTRANLIST"@);
}

/// A well-formed minimal STMTRS instance — only required fields, then the
/// terminator — decodes successfully, with every optional field absent.
pub proof fn lemma_stmtrs_minimal(toks: Seq<Seq<char>>, pos: int, v_bankacctfrom: BankacctfromView, p_bankacctfrom: int, v_banktranslist: BankTranListView, p_banktranslist: int)
    requires
        0 <= pos,
        pos < toks.len(),
        toks[pos] == "BANKACCTFROM"@,
        spec_parse_bankacctfrom(toks, pos + 1) == Ok::<(BankacctfromView, int), ErrorView>((v_bankacctfrom, p_bankacctfrom)),
        p_bankacctfrom < toks.len(),
        toks[p_bankacctfrom] == "BANKTRANLIST"@,
        spec_parse_bank_tran_list(toks, p_bankacctfrom + 1) == Ok::<(BankTranListView, int), ErrorView>((v_banktranslist, p_banktranslist)),
        p_banktranslist < toks.len(),
        toks[p_banktranslist] == "/STMTRS"@,
    ensures
        spec_parse_stmtrs(toks, pos) == Ok::<(StmtrsView, int), ErrorView>(
            (
                StmtrsView {
                    currency: None,
                    bankacctfrom: v_bankacctfrom,
                    banktranslist: v_banktranslist,
                    ledgerbal: None,
                    availbal: None,
                },
                p_banktranslist + 1,
            ),
        ),
{
    stmtrs_tag_facts();
    lemma_spec_parse_bankacctfrom_advances(toks, pos + 1);
    lemma_spec_parse_bank_tran_list_advances(toks, p_bankacctfrom + 1);
    assert(spec_parse_stmtrs_loop(
        toks,
        pos,
        StmtrsPartial {
            currency: None,
            bankacctfrom: None,
            banktranslist: None,
            ledgerbal: None,
            availbal: None,
        },
    ) == spec_parse_stmtrs_loop(
        toks,
        p_bankacctfrom,
        StmtrsPartial {
            currency: None,
            bankacctfrom: Some(v_bankacctfrom),
            banktranslist: None,
            ledgerbal: None,
            availbal: None,
        },
    ));
    assert(spec_parse_stmtrs_loop(
        toks,
        p_bankacctfrom,
        StmtrsPartial {
            currency: None,
            bankacctfrom: Some(v_bankacctfrom),
            banktranslist: None,
            ledgerbal: None,
            availbal: None,
        },
    ) == spec_parse_stmtrs_loop(
        toks,
        p_banktranslist,
        StmtrsPartial {
            currency: None,
            bankacctfrom: Some(v_bankacctfrom),
            banktranslist: Some(v_banktranslist),
            ledgerbal: None,
            availbal: None,
        },
    ));
}

/// Omitting the required BANKACCTFROM field of a STMTRS record, while keeping the
/// other required fields and the terminator, fails with
/// `MissingRequiredValue` naming that field.
pub proof fn lemma_stmtrs_missing_bankacctfrom(toks: Seq<Seq<char>>, pos: int, v_banktranslist: BankTranListView, p_banktranslist: int)
    requires
        0 <= pos,
        pos < toks.len(),
        toks[pos] == "BANKTRANLIST"@,
        spec_parse_bank_tran_list(toks, pos + 1) == Ok::<(BankTranListView, int), ErrorView>((v_banktranslist, p_banktranslist)),
        p_banktranslist < toks.len(),
        toks[p_banktranslist] == "/STMTRS"@,
    ensures
        spec_parse_stmtrs(toks, pos) == Err::<(StmtrsView, int), ErrorView>(
            ErrorView::MissingRequiredValue("BANKACCTFROM is a required value in STMTRS"@),
        ),
{
    stmtrs_tag_facts();
    lemma_spec_parse_bank_tran_list_advances(toks, pos + 1);
    assert(spec_parse_stmtrs_loop(
        toks,
        pos,
        StmtrsPartial {
            currency: None,
            bankacctfrom: None,
            banktranslist: None,
            ledgerbal: None,
            availbal: None,
        },
    ) == spec_parse_stmtrs_loop(
        toks,
        p_banktranslist,
        StmtrsPartial {
            currency: None,
            bankacctfrom: None,
            banktranslist: Some(v_banktranslist),
            ledgerbal: None,
            availbal: None,
        },
    ));
}

/// Omitting the required BANKTRANLIST field of a STMTRS record, while keeping the
/// other required fields and the terminator, fails with
/// `MissingRequiredValue` naming that field.
pub proof fn lemma_stmtrs_missing_banktranslist(toks: Seq<Seq<char>>, pos: int, v_bankacctfrom: BankacctfromView, p_bankacctfrom: int)
    requires
        0 <= pos,
        pos < toks.len(),
        toks[pos] == "BANKACCTFROM"@,
        spec_parse_bankacctfrom(toks, pos + 1) == Ok::<(BankacctfromView, int), ErrorView>((v_bankacctfrom, p_bankacctfrom)),
        p_bankacctfrom < toks.len(),
        toks[p_bankacctfrom] == "/STMTRS"@,
    ensures
        spec_parse_stmtrs(toks, pos) == Err::<(StmtrsView, int), ErrorView>(
            ErrorView::MissingRequiredValue("BANKTRANSLIST is a required value in STMTRS"@),
        ),
{
    stmtrs_tag_facts();
    lemma_spec_parse_bankacctfrom_advances(toks, pos + 1);
    assert(spec_parse_stmtrs_loop(
        toks,
        pos,
        StmtrsPartial {
            currency: None,
            bankacctfrom: None,
            banktranslist: None,
            ledgerbal: None,
            availbal: None,
        },
    ) == spec_parse_stmtrs_loop(
        toks,
        p_bankacctfrom,
        StmtrsPartial {
            currency: None,
            bankacctfrom: Some(v_bankacctfrom),
            banktranslist: None,
            ledgerbal: None,
            availbal: None,
        },
    ));
}

/// At the STMTRS terminator, the decode fails with `MissingRequiredValue`
/// naming the first required field, in schema order, that was never
/// set — whatever fields were seen before it and in whatever order —
/// and succeeds with exactly the fields seen once every required
/// field is set, absent optional fields staying absent.
pub proof fn lemma_stmtrs_at_terminator(toks: Seq<Seq<char>>, pos: int, acc: StmtrsPartial)
    requires
        0 <= pos < toks.len(),
        toks[pos] == "/STMTRS"@,
    ensures
        acc.bankacctfrom is None ==> spec_parse_stmtrs_loop(toks, pos, acc) == Err::<(StmtrsView, int), ErrorView>(
            ErrorView::MissingRequiredValue("BANKACCTFROM is a required value in STMTRS"@),
        ),
        acc.bankacctfrom is Some && acc.banktranslist is None ==> spec_parse_stmtrs_loop(toks, pos, acc) == Err::<(StmtrsView, int), ErrorView>(
            ErrorView::MissingRequiredValue("BANKTRANSLIST is a required value in STMTRS"@),
        ),
        acc.bankacctfrom is Some && acc.banktranslist is Some ==> spec_parse_stmtrs_loop(toks, pos, acc) == Ok::<(StmtrsView, int), ErrorView>(
            (
                StmtrsView {
                    currency: acc.currency,
                    bankacctfrom: acc.bankacctfrom->0,
                    banktranslist: acc.banktranslist->0,
                    ledgerbal: acc.ledgerbal,
                    availbal: acc.availbal,
                },
                pos + 1,
            ),
        ),
{
    stmtrs_tag_facts();
}

/// A token that is neither a field tag of STMTRS nor its terminator fails
/// the decode at once with `UnexpectedToken` naming the token and the
/// enclosing record, whatever fields were already seen.
pub proof fn lemma_stmtrs_unknown_tag(toks: Seq<Seq<char>>, pos: int, acc: StmtrsPartial)
    requires
        0 <= pos < toks.len(),
        toks[pos] != "CURDEF"@,
        toks[pos] != "BANKACCTFROM"@,
        toks[pos] != "BANKTRANLIST"@,
        toks[pos] != "LEDGERBAL"@,
        toks[pos] != "AVAILBAL"@,
        toks[pos] != "/STMTRS"@,
    ensures
        spec_parse_stmtrs_loop(toks, pos, acc) == Err::<(StmtrsView, int), ErrorView>(
            ErrorView::UnexpectedToken(
                "Found unexpected token "@ + toks[pos] + " in the STMTRS type"@,
            ),
        ),
{
}

/// A stream that is exhausted before the STMTRS terminator fails with
/// `UnexpectedEOF` naming the terminator still awaited, whatever fields
/// were already seen.
pub proof fn lemma_stmtrs_truncated(toks: Seq<Seq<char>>, pos: int, acc: StmtrsPartial)
    requires
        pos >= toks.len(),
    ensures
        spec_parse_stmtrs_loop(toks, pos, acc) == Err::<(StmtrsView, int), ErrorView>(
            ErrorView::UnexpectedEOF("Found unexpected EOF. Was still expecting the '/STMTRS'"@),
        ),
{
}

/// A stream truncated right after a value field's tag of STMTRS fails
/// with `UnexpectedEOF` naming that field, whatever fields were
/// already seen.
pub proof fn lemma_stmtrs_truncated_after_tag(toks: Seq<Seq<char>>, pos: int, acc: StmtrsPartial)
    requires
        0 <= pos,
        pos + 1 == toks.len(),
    ensures
        toks[pos] == "CURDEF"@ ==> spec_parse_stmtrs_loop(toks, pos, acc) == Err::<(StmtrsView, int), ErrorView>(
            ErrorView::UnexpectedEOF("Expected token following the CURDEF token"@),
        ),
{
    stmtrs_tag_facts();
}

/// A successful STMTRS decode reads only the tokens it consumes: on any
/// stream that agrees with `toks` on `[pos, p)`, the decode returns the
/// same record and the same end position.
#[verifier::rlimit(50)]
pub proof fn lemma_stmtrs_frame(
    toks: Seq<Seq<char>>,
    toks2: Seq<Seq<char>>,
    pos: int,
    acc: StmtrsPartial,
    v: StmtrsView,
    p: int,
)
    requires
        spec_parse_stmtrs_loop(toks, pos, acc) == Ok::<(StmtrsView, int), ErrorView>((v, p)),
        toks2.len() >= p,
        forall|j: int| pos <= j < p ==> toks2[j] == toks[j],
    ensures
        spec_parse_stmtrs_loop(toks2, pos, acc) == Ok::<(StmtrsView, int), ErrorView>((v, p)),
    decreases toks.len() - pos,
{
    lemma_spec_parse_stmtrs_loop_advances(toks, pos, acc);
    if 0 <= pos < toks.len() {
        let t = toks[pos];
        if t == "CURDEF"@ {
            if pos + 1 < toks.len() {
                let acc1 = StmtrsPartial { currency: Some(toks[pos + 1]), ..acc };
                lemma_spec_parse_stmtrs_loop_advances(toks, pos + 2, acc1);
                lemma_stmtrs_frame(toks, toks2, pos + 2, acc1, v, p);
            }
        } else if t == "BANKACCTFROM"@ {
            match spec_parse_bankacctfrom(toks, pos + 1) {
                Ok((cv, cp)) => {
                    lemma_spec_parse_bankacctfrom_advances(toks, pos + 1);
                    let acc1 = StmtrsPartial { bankacctfrom: Some(cv), ..acc };
                    lemma_spec_parse_stmtrs_loop_advances(toks, cp, acc1);
                    lemma_bankacctfrom_frame(toks, toks2, pos + 1, BankacctfromPartial::init(), cv, cp);
                    lemma_stmtrs_frame(toks, toks2, cp, acc1, v, p);
                },
                Err(e) => {},
            }
        } else if t == "BANKTRANLIST"@ {
            match spec_parse_bank_tran_list(toks, pos + 1) {
                Ok((cv, cp)) => {
                    lemma_spec_parse_bank_tran_list_advances(toks, pos + 1);
                    let acc1 = StmtrsPartial { banktranslist: Some(cv), ..acc };
                    lemma_spec_parse_stmtrs_loop_advances(toks, cp, acc1);
                    lemma_bank_tran_list_frame(toks, toks2, pos + 1, BankTranListPartial::init(), cv, cp);
                    lemma_stmtrs_frame(toks, toks2, cp, acc1, v, p);
                },
                Err(e) => {},
            }
        } else if t == "LEDGERBAL"@ {
            match spec_parse_ledger_bal(toks, pos + 1) {
                Ok((cv, cp)) => {
                    lemma_spec_parse_ledger_bal_advances(toks, pos + 1);
                    let acc1 = StmtrsPartial { ledgerbal: Some(cv), ..acc };
                    lemma_spec_parse_stmtrs_loop_advances(toks, cp, acc1);
                    lemma_ledger_bal_frame(toks, toks2, pos + 1, LedgerBalPartial::init(), cv, cp);
                    lemma_stmtrs_frame(toks, toks2, cp, acc1, v, p);
                },
                Err(e) => {},
            }
        } else if t == "AVAILBAL"@ {
            match spec_parse_avail_bal(toks, pos + 1) {
                Ok((cv, cp)) => {
                    lemma_spec_parse_avail_bal_advances(toks, pos + 1);
                    let acc1 = StmtrsPartial { availbal: Some(cv), ..acc };
                    lemma_spec_parse_stmtrs_loop_advances(toks, cp, acc1);
                    lemma_avail_bal_frame(toks, toks2, pos + 1, AvailableBalancePartial::init(), cv, cp);
                    lemma_stmtrs_frame(toks, toks2, cp, acc1, v, p);
                },
                Err(e) => {},
            }
        }
    }
}

/// Truncating the token stream of a successful STMTRS decode anywhere
/// before the position past its terminator yields `UnexpectedEOF`,
/// whatever fields were already seen.
#[verifier::rlimit(50)]
pub proof fn lemma_stmtrs_truncated_before_terminator(
    toks: Seq<Seq<char>>,
    pos: int,
    acc: StmtrsPartial,
    cut: int,
    v: StmtrsView,
    p: int,
)
    requires
        spec_parse_stmtrs_loop(toks, pos, acc) == Ok::<(StmtrsView, int), ErrorView>((v, p)),
        pos <= cut < p,
    ensures
        spec_parse_stmtrs_loop(toks.subrange(0, cut), pos, acc) matches Err(ErrorView::UnexpectedEOF(_)),
    decreases toks.len() - pos,
{
    lemma_spec_parse_stmtrs_loop_advances(toks, pos, acc);
    let toks2 = toks.subrange(0, cut);
    if cut > pos {
        let t = toks[pos];
        if t == "CURDEF"@ {
            if pos + 1 < toks.len() && cut > pos + 1 {
                let acc1 = StmtrsPartial { currency: Some(toks[pos + 1]), ..acc };
                lemma_spec_parse_stmtrs_loop_advances(toks, pos + 2, acc1);
                lemma_stmtrs_truncated_before_terminator(toks, pos + 2, acc1, cut, v, p);
            }
        } else if t == "BANKACCTFROM"@ {
            match spec_parse_bankacctfrom(toks, pos + 1) {
                Ok((cv, cp)) => {
                    lemma_spec_parse_bankacctfrom_advances(toks, pos + 1);
                    let acc1 = StmtrsPartial { bankacctfrom: Some(cv), ..acc };
                    lemma_spec_parse_stmtrs_loop_advances(toks, cp, acc1);
                    if cut < cp {
                        lemma_bankacctfrom_truncated_before_terminator(toks, pos + 1, BankacctfromPartial::init(), cut, cv, cp);
                    } else {
                        lemma_bankacctfrom_frame(toks, toks2, pos + 1, BankacctfromPartial::init(), cv, cp);
                        lemma_stmtrs_truncated_before_terminator(toks, cp, acc1, cut, v, p);
                    }
                },
                Err(e) => {},
            }
        } else if t == "BANKTRANLIST"@ {
            match spec_parse_bank_tran_list(toks, pos + 1) {
                Ok((cv, cp)) => {
                    lemma_spec_parse_bank_tran_list_advances(toks, pos + 1);
                    let acc1 = StmtrsPartial { banktranslist: Some(cv), ..acc };
                    lemma_spec_parse_stmtrs_loop_advances(toks, cp, acc1);
                    if cut < cp {
                        lemma_bank_tran_list_truncated_before_terminator(toks, pos + 1, BankTranListPartial::init(), cut, cv, cp);
                    } else {
                        lemma_bank_tran_list_frame(toks, toks2, pos + 1, BankTranListPartial::init(), cv, cp);
                        lemma_stmtrs_truncated_before_terminator(toks, cp, acc1, cut, v, p);
                    }
                },
                Err(e) => {},
            }
        } else if t == "LEDGERBAL"@ {
            match spec_parse_ledger_bal(toks, pos + 1) {
                Ok((cv, cp)) => {
                    lemma_spec_parse_ledger_bal_advances(toks, pos + 1);
                    let acc1 = StmtrsPartial { ledgerbal: Some(cv), ..acc };
                    lemma_spec_parse_stmtrs_loop_advances(toks, cp, acc1);
                    if cut < cp {
                        lemma_ledger_bal_truncated_before_terminator(toks, pos + 1, LedgerBalPartial::init(), cut, cv, cp);
                    } else {
                        lemma_ledger_bal_frame(toks, toks2, pos + 1, LedgerBalPartial::init(), cv, cp);
                        lemma_stmtrs_truncated_before_terminator(toks, cp, acc1, cut, v, p);
                    }
                },
                Err(e) => {},
            }
        } else if t == "AVAILBAL"@ {
            match spec_parse_avail_bal(toks, pos + 1) {
                Ok((cv, cp)) => {
                    lemma_spec_parse_avail_bal_advances(toks, pos + 1);
                    let acc1 = StmtrsPartial { availbal: Some(cv), ..acc };
                    lemma_spec_parse_stmtrs_loop_advances(toks, cp, acc1);
                    if cut < cp {
                        lemma_avail_bal_truncated_before_terminator(toks, pos + 1, AvailableBalancePartial::init(), cut, cv, cp);
                    } else {
                        lemma_avail_bal_frame(toks, toks2, pos + 1, AvailableBalancePartial::init(), cv, cp);
                        lemma_stmtrs_truncated_before_terminator(toks, cp, acc1, cut, v, p);
                    }
                },
                Err(e) => {},
            }
        }
    }
}

proof fn stmttrnrs_tag_facts()
    ensures
        "TRNUID"@ != "STATUS"@,
        "TRNUID"@ != "STMTRS"@,
        "TRNUID"@ != "/STMTTRNRS"@,
        "STATUS"@ != "STMTRS"@,
        "STATUS"@ != "/STMTTRNRS"@,
        "STMTRS"@ != "/STMTTRNRS"@,
{
    reveal_strlit("/STMTTRNRS");
    reveal_strlit("STATUS");
    reveal_strlit("STMTRS");
    reveal_strlit("TRNUID");
    assert("/STMTTRNRS"@.len() == 10);
    assert("STATUS"@.len() == 6);
    assert("STMTRS"@.len() == 6);
    assert("TRNUID"@.len() == 6);
    assert("TRNUID"@[0] != "STATUS"@[0]);
    assert("TRNUID"@ != "STATUS"@);
    assert("TRNUID"@[0] != "STMTRS"@[0]);
    assert("TRNUID"@ != "STMTRS"@);
    assert("STATUS"@[2] != "STMTRS"@[2]);
    assert("STATUS"@ != "STMTRS"@);
}

/// A well-formed minimal STMTTRNRS instance — only required fields, then the
/// terminator — decodes successfully, with every optional field absent.
pub proof fn lemma_stmttrnrs_minimal(toks: Seq<Seq<char>>, pos: int, v_stmtrs: StmtrsView, p_stmtrs: int)
    requires
        0 <= pos,
        pos < toks.len(),
        toks[pos] == "STMTRS"@,
        spec_parse_stmtrs(toks, pos + 1) == Ok::<(StmtrsView, int), ErrorView>((v_stmtrs, p_stmtrs)),
        p_stmtrs < toks.len(),
        toks[p_stmtrs] == "/STMTTRNRS"@,
    ensures
        spec_parse_stmttrnrs(toks, pos) == Ok::<(StmttrnrsView, int), ErrorView>(
            (
                StmttrnrsView {
                    trnuid: None,
                    status: None,
                    stmtrs: v_stmtrs,
                },
                p_stmtrs + 1,
            ),
        ),
{
    stmttrnrs_tag_facts();
    lemma_spec_parse_stmtrs_advances(toks, pos + 1);
    assert(spec_parse_stmttrnrs_loop(
        toks,
        pos,
        StmttrnrsPartial {
            trnuid: None,
            status: None,
            stmtrs: None,
        },
    ) == spec_parse_stmttrnrs_loop(
        toks,
        p_stmtrs,
        StmttrnrsPartial {
            trnuid: None,
            status: None,
            stmtrs: Some(v_stmtrs),
        },
    ));
}

/// Omitting the required STMTRS field of a STMTTRNRS record, while keeping the
/// other required fields and the terminator, fails with
/// `MissingRequiredValue` naming that field.
pub proof fn lemma_stmttrnrs_missing_stmtrs(toks: Seq<Seq<char>>, pos: int)
    requires
        0 <= pos,
        pos < toks.len(),
        toks[pos] == "/STMTTRNRS"@,
    ensures
        spec_parse_stmttrnrs(toks, pos) == Err::<(StmttrnrsView, int), ErrorView>(
            ErrorView::MissingRequiredValue("STMTRS section is required in STMTTRNRS"@),
        ),
{
    stmttrnrs_tag_facts();
}

/// At the STMTTRNRS terminator, the decode fails with `MissingRequiredValue`
/// naming the first required field, in schema order, that was never
/// set — whatever fields were seen before it and in whatever order —
/// and succeeds with exactly the fields seen once every required
/// field is set, absent optional fields staying absent.
pub proof fn lemma_stmttrnrs_at_terminator(toks: Seq<Seq<char>>, pos: int, acc: StmttrnrsPartial)
    requires
        0 <= pos < toks.len(),
        toks[pos] == "/STMTTRNRS"@,
    ensures
        acc.stmtrs is None ==> spec_parse_stmttrnrs_loop(toks, pos, acc) == Err::<(StmttrnrsView, int), ErrorView>(
            ErrorView::MissingRequiredValue("STMTRS section is required in STMTTRNRS"@),
        ),
        acc.stmtrs is Some ==> spec_parse_stmttrnrs_loop(toks, pos, acc) == Ok::<(StmttrnrsView, int), ErrorView>(
            (
                StmttrnrsView {
                    trnuid: acc.trnuid,
                    status: acc.status,
                    stmtrs: acc.stmtrs->0,
                },
                pos + 1,
            ),
        ),
{
    stmttrnrs_tag_facts();
}

/// A token that is neither a field tag of STMTTRNRS nor its terminator fails
/// the decode at once with `UnexpectedToken` naming the token and the
/// enclosing record, whatever fields were already seen.
pub proof fn lemma_stmttrnrs_unknown_tag(toks: Seq<Seq<char>>, pos: int, acc: StmttrnrsPartial)
    requires
        0 <= pos < toks.len(),
        toks[pos] != "TRNUID"@,
        toks[pos] != "STATUS"@,
        toks[pos] != "STMTRS"@,
        toks[pos] != "/STMTTRNRS"@,
    ensures
        spec_parse_stmttrnrs_loop(toks, pos, acc) == Err::<(StmttrnrsView, int), ErrorView>(
            ErrorView::UnexpectedToken(
                "Found unexpected token "@ + toks[pos] + " in the STMTTRNRS type"@,
            ),
        ),
{
}

/// A stream that is exhausted before the STMTTRNRS terminator fails with
/// `UnexpectedEOF` naming the terminator still awaited, whatever fields
/// were already seen.
pub proof fn lemma_stmttrnrs_truncated(toks: Seq<Seq<char>>, pos: int, acc: StmttrnrsPartial)
    requires
        pos >= toks.len(),
    ensures
        spec_parse_stmttrnrs_loop(toks, pos, acc) == Err::<(StmttrnrsView, int), ErrorView>(
            ErrorView::UnexpectedEOF("Found unexpected EOF. Was still expecting the '/STMTTRNRS' token"@),
        ),
{
}

/// A stream truncated right after a value field's tag of STMTTRNRS fails
/// with `UnexpectedEOF` naming that field, whatever fields were
/// already seen.
pub proof fn lemma_stmttrnrs_truncated_after_tag(toks: Seq<Seq<char>>, pos: int, acc: StmttrnrsPartial)
    requires
        0 <= pos,
        pos + 1 == toks.len(),
    ensures
        toks[pos] == "TRNUID"@ ==> spec_parse_stmttrnrs_loop(toks, pos, acc) == Err::<(StmttrnrsView, int), ErrorView>(
            ErrorView::UnexpectedEOF("Expected a token following the TRNUID token"@),
        ),
{
    stmttrnrs_tag_facts();
}

/// A successful STMTTRNRS decode reads only the tokens it consumes: on any
/// stream that agrees with `toks` on `[pos, p)`, the decode returns the
/// same record and the same end position.
#[verifier::rlimit(50)]
pub proof fn lemma_stmttrnrs_frame(
    toks: Seq<Seq<char>>,
    toks2: Seq<Seq<char>>,
    pos: int,
    acc: StmttrnrsPartial,
    v: StmttrnrsView,
    p: int,
)
    requires
        spec_parse_stmttrnrs_loop(toks, pos, acc) == Ok::<(StmttrnrsView, int), ErrorView>((v, p)),
        toks2.len() >= p,
        forall|j: int| pos <= j < p ==> toks2[j] == toks[j],
    ensures
        spec_parse_stmttrnrs_loop(toks2, pos, acc) == Ok::<(StmttrnrsView, int), ErrorView>((v, p)),
    decreases toks.len() - pos,
{
    lemma_spec_parse_stmttrnrs_loop_advances(toks, pos, acc);
    if 0 <= pos < toks.len() {
        let t = toks[pos];
        if t == "TRNUID"@ {
            if pos + 1 < toks.len() {
                let acc1 = StmttrnrsPartial { trnuid: Some(toks[pos + 1]), ..acc };
                lemma_spec_parse_stmttrnrs_loop_advances(toks, pos + 2, acc1);
                lemma_stmttrnrs_frame(toks, toks2, pos + 2, acc1, v, p);
            }
        } else if t == "STATUS"@ {
            match spec_parse_status(toks, pos + 1) {
                Ok((cv, cp)) => {
                    lemma_spec_parse_status_advances(toks, pos + 1);
                    let acc1 = StmttrnrsPartial { status: Some(cv), ..acc };
                    lemma_spec_parse_stmttrnrs_loop_advances(toks, cp, acc1);
                    lemma_status_frame(toks, toks2, pos + 1, StatusPartial::init(), cv, cp);
                    lemma_stmttrnrs_frame(toks, toks2, cp, acc1, v, p);
                },
                Err(e) => {},
            }
        } else if t == "STMTRS"@ {
            match spec_parse_stmtrs(toks, pos + 1) {
                Ok((cv, cp)) => {
                    lemma_spec_parse_stmtrs_advances(toks, pos + 1);
                    let acc1 = StmttrnrsPartial { stmtrs: Some(cv), ..acc };
                    lemma_spec_parse_stmttrnrs_loop_advances(toks, cp, acc1);
                    lemma_stmtrs_frame(toks, toks2, pos + 1, StmtrsPartial::init(), cv, cp);
                    lemma_stmttrnrs_frame(toks, toks2, cp, acc1, v, p);
                },
                Err(e) => {},
            }
        }
    }
}

/// Truncating the token stream of a successful STMTTRNRS decode anywhere
/// before the position past its terminator yields `UnexpectedEOF`,
/// whatever fields were already seen.
#[verifier::rlimit(50)]
pub proof fn lemma_stmttrnrs_truncated_before_terminator(
    toks: Seq<Seq<char>>,
    pos: int,
    acc: StmttrnrsPartial,
    cut: int,
    v: StmttrnrsView,
    p: int,
)
    requires
        spec_parse_stmttrnrs_loop(toks, pos, acc) == Ok::<(StmttrnrsView, int), ErrorView>((v, p)),
        pos <= cut < p,
    ensures
        spec_parse_stmttrnrs_loop(toks.subrange(0, cut), pos, acc) matches Err(ErrorView::UnexpectedEOF(_)),
    decreases toks.len() - pos,
{
    lemma_spec_parse_stmttrnrs_loop_advances(toks, pos, acc);
    let toks2 = toks.subrange(0, cut);
    if cut > pos {
        let t = toks[pos];
        if t == "TRNUID"@ {
            if pos + 1 < toks.len() && cut > pos + 1 {
                let acc1 = StmttrnrsPartial { trnuid: Some(toks[pos + 1]), ..acc };
                lemma_spec_parse_stmttrnrs_loop_advances(toks, pos + 2, acc1);
                lemma_stmttrnrs_truncated_before_terminator(toks, pos + 2, acc1, cut, v, p);
            }
        } else if t == "STATUS"@ {
            match spec_parse_status(toks, pos + 1) {
                Ok((cv, cp)) => {
                    lemma_spec_parse_status_advances(toks, pos + 1);
                    let acc1 = StmttrnrsPartial { status: Some(cv), ..acc };
                    lemma_spec_parse_stmttrnrs_loop_advances(toks, cp, acc1);
                    if cut < cp {
                        lemma_status_truncated_before_terminator(toks, pos + 1, StatusPartial::init(), cut, cv, cp);
                    } else {
                        lemma_status_frame(toks, toks2, pos + 1, StatusPartial::init(), cv, cp);
                        lemma_stmttrnrs_truncated_before_terminator(toks, cp, acc1, cut, v, p);
                    }
                },
                Err(e) => {},
            }
        } else if t == "STMTRS"@ {
            match spec_parse_stmtrs(toks, pos + 1) {
                Ok((cv, cp)) => {
                    lemma_spec_parse_stmtrs_advances(toks, pos + 1);
                    let acc1 = StmttrnrsPartial { stmtrs: Some(cv), ..acc };
                    lemma_spec_parse_stmttrnrs_loop_advances(toks, cp, acc1);
                    if cut < cp {
                        lemma_stmtrs_truncated_before_terminator(toks, pos + 1, StmtrsPartial::init(), cut, cv, cp);
                    } else {
                        lemma_stmtrs_frame(toks, toks2, pos + 1, StmtrsPartial::init(), cv, cp);
                        lemma_stmttrnrs_truncated_before_terminator(toks, cp, acc1, cut, v, p);
                    }
                },
                Err(e) => {},
            }
        }
    }
}

proof fn bank_msg_srs_v1_tag_facts()
    ensures
        "STMTTRNRS"@ != "/BANKMSGSRSV1"@,
{
    reveal_strlit("/BANKMSGSRSV1");
    reveal_strlit("STMTTRNRS");
    assert("/BANKMSGSRSV1"@.len() == 13);
    assert("STMTTRNRS"@.len() == 9);
}

/// A well-formed minimal BANKMSGSRSV1 instance — only required fields, then the
/// terminator — decodes successfully, with every optional field absent.
pub proof fn lemma_bank_msg_srs_v1_minimal(toks: Seq<Seq<char>>, pos: int, v_stmttrns: StmttrnrsView, p_stmttrns: int)
    requires
        0 <= pos,
        pos < toks.len(),
        toks[pos] == "STMTTRNRS"@,
        spec_parse_stmttrnrs(toks, pos + 1) == Ok::<(StmttrnrsView, int), ErrorView>((v_stmttrns, p_stmttrns)),
        p_stmttrns < toks.len(),
        toks[p_stmttrns] == "/BANKMSGSRSV1"@,
    ensures
        spec_parse_bank_msg_srs_v1(toks, pos) == Ok::<(BankMsgSrsV1View, int), ErrorView>(
            (
                BankMsgSrsV1View {
                    stmttrns: v_stmttrns,
                },
                p_stmttrns + 1,
            ),
        ),
{
    bank_msg_srs_v1_tag_facts();
    lemma_spec_parse_stmttrnrs_advances(toks, pos + 1);
    assert(spec_parse_bank_msg_srs_v1_loop(
        toks,
        pos,
        BankMsgSrsV1Partial {
            stmttrns: None,
        },
    ) == spec_parse_bank_msg_srs_v1_loop(
        toks,
        p_stmttrns,
        BankMsgSrsV1Partial {
            stmttrns: Some(v_stmttrns),
        },
    ));
}

/// Omitting the required STMTTRNRS field of a BANKMSGSRSV1 record, while keeping the
/// other required fields and the terminator, fails with
/// `MissingRequiredValue` naming that field.
pub proof fn lemma_bank_msg_srs_v1_missing_stmttrns(toks: Seq<Seq<char>>, pos: int)
    requires
        0 <= pos,
        pos < toks.len(),
        toks[pos] == "/BANKMSGSRSV1"@,
    ensures
        spec_parse_bank_msg_srs_v1(toks, pos) == Err::<(BankMsgSrsV1View, int), ErrorView>(
            ErrorView::MissingRequiredValue("STMTTRNRS is a required value in BANKMSGSRSV1"@),
        ),
{
    bank_msg_srs_v1_tag_facts();
}

/// At the BANKMSGSRSV1 terminator, the decode fails with `MissingRequiredValue`
/// naming the first required field, in schema order, that was never
/// set — whatever fields were seen before it and in whatever order —
/// and succeeds with exactly the fields seen once every required
/// field is set, absent optional fields staying absent.
pub proof fn lemma_bank_msg_srs_v1_at_terminator(toks: Seq<Seq<char>>, pos: int, acc: BankMsgSrsV1Partial)
    requires
        0 <= pos < toks.len(),
        toks[pos] == "/BANKMSGSRSV1"@,
    ensures
        acc.stmttrns is None ==> spec_parse_bank_msg_srs_v1_loop(toks, pos, acc) == Err::<(BankMsgSrsV1View, int), ErrorView>(
            ErrorView::MissingRequiredValue("STMTTRNRS is a required value in BANKMSGSRSV1"@),
        ),
        acc.stmttrns is Some ==> spec_parse_bank_msg_srs_v1_loop(toks, pos, acc) == Ok::<(BankMsgSrsV1View, int), ErrorView>(
            (
                BankMsgSrsV1View {
                    stmttrns: acc.stmttrns->0,
                },
                pos + 1,
            ),
        ),
{
    bank_msg_srs_v1_tag_facts();
}

/// A token that is neither a field tag of BANKMSGSRSV1 nor its terminator fails
/// the decode at once with `UnexpectedToken` naming the token and the
/// enclosing record, whatever fields were already seen.
pub proof fn lemma_bank_msg_srs_v1_unknown_tag(toks: Seq<Seq<char>>, pos: int, acc: BankMsgSrsV1Partial)
    requires
        0 <= pos < toks.len(),
        toks[pos] != "STMTTRNRS"@,
        toks[pos] != "/BANKMSGSRSV1"@,
    ensures
        spec_parse_bank_msg_srs_v1_loop(toks, pos, acc) == Err::<(BankMsgSrsV1View, int), ErrorView>(
            ErrorView::UnexpectedToken(
                "Found unexpected token "@ + toks[pos] + " in the BANKMSGSRSV1 type"@,
            ),
        ),
{
}

/// A stream that is exhausted before the BANKMSGSRSV1 terminator fails with
/// `UnexpectedEOF` naming the terminator still awaited, whatever fields
/// were already seen.
pub proof fn lemma_bank_msg_srs_v1_truncated(toks: Seq<Seq<char>>, pos: int, acc: BankMsgSrsV1Partial)
    requires
        pos >= toks.len(),
    ensures
        spec_parse_bank_msg_srs_v1_loop(toks, pos, acc) == Err::<(BankMsgSrsV1View, int), ErrorView>(
            ErrorView::UnexpectedEOF("Found unexpected EOF. Was still expecting the '/BANKMSGSRSV1' token"@),
        ),
{
}

/// A successful BANKMSGSRSV1 decode reads only the tokens it consumes: on any
/// stream that agrees with `toks` on `[pos, p)`, the decode returns the
/// same record and the same end position.
#[verifier::rlimit(50)]
pub proof fn lemma_bank_msg_srs_v1_frame(
    toks: Seq<Seq<char>>,
    toks2: Seq<Seq<char>>,
    pos: int,
    acc: BankMsgSrsV1Partial,
    v: BankMsgSrsV1View,
    p: int,
)
    requires
        spec_parse_bank_msg_srs_v1_loop(toks, pos, acc) == Ok::<(BankMsgSrsV1View, int), ErrorView>((v, p)),
        toks2.len() >= p,
        forall|j: int| pos <= j < p ==> toks2[j] == toks[j],
    ensures
        spec_parse_bank_msg_srs_v1_loop(toks2, pos, acc) == Ok::<(BankMsgSrsV1View, int), ErrorView>((v, p)),
    decreases toks.len() - pos,
{
    lemma_spec_parse_bank_msg_srs_v1_loop_advances(toks, pos, acc);
    if 0 <= pos < toks.len() {
        let t = toks[pos];
        if t == "STMTTRNRS"@ {
            match spec_parse_stmttrnrs(toks, pos + 1) {
                Ok((cv, cp)) => {
                    lemma_spec_parse_stmttrnrs_advances(toks, pos + 1);
                    let acc1 = BankMsgSrsV1Partial { stmttrns: Some(cv), ..acc };
                    lemma_spec_parse_bank_msg_srs_v1_loop_advances(toks, cp, acc1);
                    lemma_stmttrnrs_frame(toks, toks2, pos + 1, StmttrnrsPartial::init(), cv, cp);
                    lemma_bank_msg_srs_v1_frame(toks, toks2, cp, acc1, v, p);
                },
                Err(e) => {},
            }
        }
    }
}

/// Truncating the token stream of a successful BANKMSGSRSV1 decode anywhere
/// before the position past its terminator yields `UnexpectedEOF`,
/// whatever fields were already seen.
#[verifier::rlimit(50)]
pub proof fn lemma_bank_msg_srs_v1_truncated_before_terminator(
    toks: Seq<Seq<char>>,
    pos: int,
    acc: BankMsgSrsV1Partial,
    cut: int,
    v: BankMsgSrsV1View,
    p: int,
)
    requires
        spec_parse_bank_msg_srs_v1_loop(toks, pos, acc) == Ok::<(BankMsgSrsV1View, int), ErrorView>((v, p)),
        pos <= cut < p,
    ensures
        spec_parse_bank_msg_srs_v1_loop(toks.subrange(0, cut), pos, acc) matches Err(ErrorView::UnexpectedEOF(_)),
    decreases toks.len() - pos,
{
    lemma_spec_parse_bank_msg_srs_v1_loop_advances(toks, pos, acc);
    let toks2 = toks.subrange(0, cut);
    if cut > pos {
        let t = toks[pos];
        if t == "STMTTRNRS"@ {
            match spec_parse_stmttrnrs(toks, pos + 1) {
                Ok((cv, cp)) => {
                    lemma_spec_parse_stmttrnrs_advances(toks, pos + 1);
                    let acc1 = BankMsgSrsV1Partial { stmttrns: Some(cv), ..acc };
                    lemma_spec_parse_bank_msg_srs_v1_loop_advances(toks, cp, acc1);
                    if cut < cp {
                        lemma_stmttrnrs_truncated_before_terminator(toks, pos + 1, StmttrnrsPartial::init(), cut, cv, cp);
                    } else {
                        lemma_stmttrnrs_frame(toks, toks2, pos + 1, StmttrnrsPartial::init(), cv, cp);
                        lemma_bank_msg_srs_v1_truncated_before_terminator(toks, cp, acc1, cut, v, p);
                    }
                },
                Err(e) => {},
            }
        }
    }
}

proof fn ccacctfrom_tag_facts()
    ensures
        "ACCTID"@ != "/CCACCTFROM"@,
{
    reveal_strlit("/CCACCTFROM");
    reveal_strlit("ACCTID");
    assert("/CCACCTFROM"@.len() == 11);
    assert("ACCTID"@.len() == 6);
}

/// A well-formed minimal CCACCTFROM instance — only required fields, then the
/// terminator — decodes successfully, with every optional field absent.
pub proof fn lemma_ccacctfrom_minimal(toks: Seq<Seq<char>>, pos: int)
    requires
        0 <= pos,
        pos + 1 < toks.len(),
        toks[pos] == "ACCTID"@,
        pos + 2 < toks.len(),
        toks[pos + 2] == "/CCACCTFROM"@,
    ensures
        spec_parse_ccacctfrom(toks, pos) == Ok::<(CcacctfromView, int), ErrorView>(
            (
                CcacctfromView {
                    acct_id: toks[pos + 1],
                },
                pos + 2 + 1,
            ),
        ),
{
    ccacctfrom_tag_facts();
    assert(spec_parse_ccacctfrom_loop(
        toks,
        pos,
        CcacctfromPartial {
            acct_id: None,
        },
    ) == spec_parse_ccacctfrom_loop(
        toks,
        pos + 2,
        CcacctfromPartial {
            acct_id: Some(toks[pos + 1]),
        },
    ));
}

/// Omitting the required ACCTID field of a CCACCTFROM record, while keeping the
/// other required fields and the terminator, fails with
/// `MissingRequiredValue` naming that field.
pub proof fn lemma_ccacctfrom_missing_acct_id(toks: Seq<Seq<char>>, pos: int)
    requires
        0 <= pos,
        pos < toks.len(),
        toks[pos] == "/CCACCTFROM"@,
    ensures
        spec_parse_ccacctfrom(toks, pos) == Err::<(CcacctfromView, int), ErrorView>(
            ErrorView::MissingRequiredValue("ACCTID is a required value in CCACCTFROM"@),
        ),
{
    ccacctfrom_tag_facts();
}

/// At the CCACCTFROM terminator, the decode fails with `MissingRequiredValue`
/// naming the first required field, in schema order, that was never
/// set — whatever fields were seen before it and in whatever order —
/// and succeeds with exactly the fields seen once every required
/// field is set, absent optional fields staying absent.
pub proof fn lemma_ccacctfrom_at_terminator(toks: Seq<Seq<char>>, pos: int, acc: CcacctfromPartial)
    requires
        0 <= pos < toks.len(),
        toks[pos] == "/CCACCTFROM"@,
    ensures
        acc.acct_id is None ==> spec_parse_ccacctfrom_loop(toks, pos, acc) == Err::<(CcacctfromView, int), ErrorView>(
            ErrorView::MissingRequiredValue("ACCTID is a required value in CCACCTFROM"@),
        ),
        acc.acct_id is Some ==> spec_parse_ccacctfrom_loop(toks, pos, acc) == Ok::<(CcacctfromView, int), ErrorView>(
            (
                CcacctfromView {
                    acct_id: acc.acct_id->0,
                },
                pos + 1,
            ),
        ),
{
    ccacctfrom_tag_facts();
}

/// A token that is neither a field tag of CCACCTFROM nor its terminator fails
/// the decode at once with `UnexpectedToken` naming the token and the
/// enclosing record, whatever fields were already seen.
pub proof fn lemma_ccacctfrom_unknown_tag(toks: Seq<Seq<char>>, pos: int, acc: CcacctfromPartial)
    requires
        0 <= pos < toks.len(),
        toks[pos] != "ACCTID"@,
        toks[pos] != "/CCACCTFROM"@,
    ensures
        spec_parse_ccacctfrom_loop(toks, pos, acc) == Err::<(CcacctfromView, int), ErrorView>(
            ErrorView::UnexpectedToken(
                "Found unexpected token "@ + toks[pos] + " in the CCACCTFROM type"@,
            ),
        ),
{
}

/// A stream that is exhausted before the CCACCTFROM terminator fails with
/// `UnexpectedEOF` naming the terminator still awaited, whatever fields
/// were already seen.
pub proof fn lemma_ccacctfrom_truncated(toks: Seq<Seq<char>>, pos: int, acc: CcacctfromPartial)
    requires
        pos >= toks.len(),
    ensures
        spec_parse_ccacctfrom_loop(toks, pos, acc) == Err::<(CcacctfromView, int), ErrorView>(
            ErrorView::UnexpectedEOF("Found unexpected EOF. Was still expecting the '/CCACCTFROM' token"@),
        ),
{
}

/// A stream truncated right after a value field's tag of CCACCTFROM fails
/// with `UnexpectedEOF` naming that field, whatever fields were
/// already seen.
pub proof fn lemma_ccacctfrom_truncated_after_tag(toks: Seq<Seq<char>>, pos: int, acc: CcacctfromPartial)
    requires
        0 <= pos,
        pos + 1 == toks.len(),
    ensures
        toks[pos] == "ACCTID"@ ==> spec_parse_ccacctfrom_loop(toks, pos, acc) == Err::<(CcacctfromView, int), ErrorView>(
            ErrorView::UnexpectedEOF("Expected token following the ACCTID token"@),
        ),
{
    ccacctfrom_tag_facts();
}

/// A successful CCACCTFROM decode reads only the tokens it consumes: on any
/// stream that agrees with `toks` on `[pos, p)`, the decode returns the
/// same record and the same end position.
#[verifier::rlimit(50)]
pub proof fn lemma_ccacctfrom_frame(
    toks: Seq<Seq<char>>,
    toks2: Seq<Seq<char>>,
    pos: int,
    acc: CcacctfromPartial,
    v: CcacctfromView,
    p: int,
)
    requires
        spec_parse_ccacctfrom_loop(toks, pos, acc) == Ok::<(CcacctfromView, int), ErrorView>((v, p)),
        toks2.len() >= p,
        forall|j: int| pos <= j < p ==> toks2[j] == toks[j],
    ensures
        spec_parse_ccacctfrom_loop(toks2, pos, acc) == Ok::<(CcacctfromView, int), ErrorView>((v, p)),
    decreases toks.len() - pos,
{
    lemma_spec_parse_ccacctfrom_loop_advances(toks, pos, acc);
    if 0 <= pos < toks.len() {
        let t = toks[pos];
        if t == "ACCTID"@ {
            if pos + 1 < toks.len() {
                let acc1 = CcacctfromPartial { acct_id: Some(toks[pos + 1]), ..acc };
                lemma_spec_parse_ccacctfrom_loop_advances(toks, pos + 2, acc1);
                lemma_ccacctfrom_frame(toks, toks2, pos + 2, acc1, v, p);
            }
        }
    }
}

/// Truncating the token stream of a successful CCACCTFROM decode anywhere
/// before the position past its terminator yields `UnexpectedEOF`,
/// whatever fields were already seen.
#[verifier::rlimit(50)]
pub proof fn lemma_ccacctfrom_truncated_before_terminator(
    toks: Seq<Seq<char>>,
    pos: int,
    acc: CcacctfromPartial,
    cut: int,
    v: CcacctfromView,
    p: int,
)
    requires
        spec_parse_ccacctfrom_loop(toks, pos, acc) == Ok::<(CcacctfromView, int), ErrorView>((v, p)),
        pos <= cut < p,
    ensures
        spec_parse_ccacctfrom_loop(toks.subrange(0, cut), pos, acc) matches Err(ErrorView::UnexpectedEOF(_)),
    decreases toks.len() - pos,
{
    lemma_spec_parse_ccacctfrom_loop_advances(toks, pos, acc);
    let toks2 = toks.subrange(0, cut);
    if cut > pos {
        let t = toks[pos];
        if t == "ACCTID"@ {
            if pos + 1 < toks.len() && cut > pos + 1 {
                let acc1 = CcacctfromPartial { acct_id: Some(toks[pos + 1]), ..acc };
                lemma_spec_parse_ccacctfrom_loop_advances(toks, pos + 2, acc1);
                lemma_ccacctfrom_truncated_before_terminator(toks, pos + 2, acc1, cut, v, p);
            }
        }
    }
}

proof fn ccstmtrs_tag_facts()
    ensures
        "CURDEF"@ != "CCACCTFROM"@,
        "CURDEF"@ != "BANKTRANLIST"@,
        "CURDEF"@ != "LEDGERBAL"@,
        "CURDEF"@ != "AVAILBAL"@,
        "CURDEF"@ != "/CCSTMTRS"@,
        "CCACCTFROM"@ != "BANKTRANLIST"@,
        "CCACCTFROM"@ != "LEDGERBAL"@,
        "CCACCTFROM"@ != "AVAILBAL"@,
        "CCACCTFROM"@ != "/CCSTMTRS"@,
        "BANKTRANLIST"@ != "LEDGERBAL"@,
        "BANKTRANLIST"@ != "AVAILBAL"@,
        "BANKTRANLIST"@ != "/CCSTMTRS"@,
        "LEDGERBAL"@ != "AVAILBAL"@,
        "LEDGERBAL"@ != "/CCSTMTRS"@,
        "AVAILBAL"@ != "/CCSTMTRS"@,
{
    reveal_strlit("/CCSTMTRS");
    reveal_strlit("AVAILBAL");
    reveal_strlit("BANKTRANLIST");
    reveal_strlit("CCACCTFROM");
    reveal_strlit("CURDEF");
    reveal_strlit("LEDGERBAL");
    assert("/CCSTMTRS"@.len() == 9);
    assert("AVAILBAL"@.len() == 8);
    assert("BANKTRANLIST"@.len() == 12);
    assert("CCACCTFROM"@.len() == 10);
    assert("CURDEF"@.len() == 6);
    assert("LEDGERBAL"@.len() == 9);
    assert("LEDGERBAL"@[0] != "/CCSTMTRS"@[0]);
    assert("LEDGERBAL"@ != "/CCSTMTRS"@);
}

/// A well-formed minimal CCSTMTRS instance — only required fields, then the
/// terminator — decodes successfully, with every optional field absent.
pub proof fn lemma_ccstmtrs_minimal(toks: Seq<Seq<char>>, pos: int, v_ccacctfrom: CcacctfromView, p_ccacctfrom: int, v_banktranslist: BankTranListView, p_banktranslist: int)
    requires
        0 <= pos,
        pos < toks.len(),
        toks[pos] == "CCACCTFROM"@,
        spec_parse_ccacctfrom(toks, pos + 1) == Ok::<(CcacctfromView, int), ErrorView>((v_ccacctfrom, p_ccacctfrom)),
        p_ccacctfrom < toks.len(),
        toks[p_ccacctfrom] == "BANKTRANLIST"@,
        spec_parse_bank_tran_list(toks, p_ccacctfrom + 1) == Ok::<(BankTranListView, int), ErrorView>((v_banktranslist, p_banktranslist)),
        p_banktranslist < toks.len(),
        toks[p_banktranslist] == "/CCSTMTRS"@,
    ensures
        spec_parse_ccstmtrs(toks, pos) == Ok::<(CcstmtrsView, int), ErrorView>(
            (
                CcstmtrsView {
                    currency: None,
                    ccacctfrom: v_ccacctfrom,
                    banktranslist: v_banktranslist,
                    ledgerbal: None,
                    availbal: None,
                },
                p_banktranslist + 1,
            ),
        ),
{
    ccstmtrs_tag_facts();
    lemma_spec_parse_ccacctfrom_advances(toks, pos + 1);
    lemma_spec_parse_bank_tran_list_advances(toks, p_ccacctfrom + 1);
    assert(spec_parse_ccstmtrs_loop(
        toks,
        pos,
        CcstmtrsPartial {
            currency: None,
            ccacctfrom: None,
            banktranslist: None,
            ledgerbal: None,
            availbal: None,
        },
    ) == spec_parse_ccstmtrs_loop(
        toks,
        p_ccacctfrom,
        CcstmtrsPartial {
            currency: None,
            ccacctfrom: Some(v_ccacctfrom),
            banktranslist: None,
            ledgerbal: None,
            availbal: None,
        },
    ));
    assert(spec_parse_ccstmtrs_loop(
        toks,
        p_ccacctfrom,
        CcstmtrsPartial {
            currency: None,
            ccacctfrom: Some(v_ccacctfrom),
            banktranslist: None,
            ledgerbal: None,
            availbal: None,
        },
    ) == spec_parse_ccstmtrs_loop(
        toks,
        p_banktranslist,
        CcstmtrsPartial {
            currency: None,
            ccacctfrom: Some(v_ccacctfrom),
            banktranslist: Some(v_banktranslist),
            ledgerbal: None,
            availbal: None,
        },
    ));
}

/// Omitting the required CCACCTFROM field of a CCSTMTRS record, while keeping the
/// other required fields and the terminator, fails with
/// `MissingRequiredValue` naming that field.
pub proof fn lemma_ccstmtrs_missing_ccacctfrom(toks: Seq<Seq<char>>, pos: int, v_banktranslist: BankTranListView, p_banktranslist: int)
    requires
        0 <= pos,
        pos < toks.len(),
        toks[pos] == "BANKTRANLIST"@,
        spec_parse_bank_tran_list(toks, pos + 1) == Ok::<(BankTranListView, int), ErrorView>((v_banktranslist, p_banktranslist)),
        p_banktranslist < toks.len(),
        toks[p_banktranslist] == "/CCSTMTRS"@,
    ensures
        spec_parse_ccstmtrs(toks, pos) == Err::<(CcstmtrsView, int), ErrorView>(
            ErrorView::MissingRequiredValue("CCACCTFROM is a required value in CCSTMTRS"@),
        ),
{
    ccstmtrs_tag_facts();
    lemma_spec_parse_bank_tran_list_advances(toks, pos + 1);
    assert(spec_parse_ccstmtrs_loop(
        toks,
        pos,
        CcstmtrsPartial {
            currency: None,
            ccacctfrom: None,
            banktranslist: None,
            ledgerbal: None,
            availbal: None,
        },
    ) == spec_parse_ccstmtrs_loop(
        toks,
        p_banktranslist,
        CcstmtrsPartial {
            currency: None,
            ccacctfrom: None,
            banktranslist: Some(v_banktranslist),
            ledgerbal: None,
            availbal: None,
        },
    ));
}

/// Omitting the required BANKTRANLIST field of a CCSTMTRS record, while keeping the
/// other required fields and the terminator, fails with
/// `MissingRequiredValue` naming that field.
pub proof fn lemma_ccstmtrs_missing_banktranslist(toks: Seq<Seq<char>>, pos: int, v_ccacctfrom: CcacctfromView, p_ccacctfrom: int)
    requires
        0 <= pos,
        pos < toks.len(),
        toks[pos] == "CCACCTFROM"@,
        spec_parse_ccacctfrom(toks, pos + 1) == Ok::<(CcacctfromView, int), ErrorView>((v_ccacctfrom, p_ccacctfrom)),
        p_ccacctfrom < toks.len(),
        toks[p_ccacctfrom] == "/CCSTMTRS"@,
    ensures
        spec_parse_ccstmtrs(toks, pos) == Err::<(CcstmtrsView, int), ErrorView>(
            ErrorView::MissingRequiredValue("BANKTRANSLIST is a required value in CCSTMTRS"@),
        ),
{
    ccstmtrs_tag_facts();
    lemma_spec_parse_ccacctfrom_advances(toks, pos + 1);
    assert(spec_parse_ccstmtrs_loop(
        toks,
        pos,
        CcstmtrsPartial {
            currency: None,
            ccacctfrom: None,
            banktranslist: None,
            ledgerbal: None,
            availbal: None,
        },
    ) == spec_parse_ccstmtrs_loop(
        toks,
        p_ccacctfrom,
        CcstmtrsPartial {
            currency: None,
            ccacctfrom: Some(v_ccacctfrom),
            banktranslist: None,
            ledgerbal: None,
            availbal: None,
        },
    ));
}

/// At the CCSTMTRS terminator, the decode fails with `MissingRequiredValue`
/// naming the first required field, in schema order, that was never
/// set — whatever fields were seen before it and in whatever order —
/// and succeeds with exactly the fields seen once every required
/// field is set, absent optional fields staying absent.
pub proof fn lemma_ccstmtrs_at_terminator(toks: Seq<Seq<char>>, pos: int, acc: CcstmtrsPartial)
    requires
        0 <= pos < toks.len(),
        toks[pos] == "/CCSTMTRS"@,
    ensures
        acc.ccacctfrom is None ==> spec_parse_ccstmtrs_loop(toks, pos, acc) == Err::<(CcstmtrsView, int), ErrorView>(
            ErrorView::MissingRequiredValue("CCACCTFROM is a required value in CCSTMTRS"@),
        ),
        acc.ccacctfrom is Some && acc.banktranslist is None ==> spec_parse_ccstmtrs_loop(toks, pos, acc) == Err::<(CcstmtrsView, int), ErrorView>(
            ErrorView::MissingRequiredValue("BANKTRANSLIST is a required value in CCSTMTRS"@),
        ),
        acc.ccacctfrom is Some && acc.banktranslist is Some ==> spec_parse_ccstmtrs_loop(toks, pos, acc) == Ok::<(CcstmtrsView, int), ErrorView>(
            (
                CcstmtrsView {
                    currency: acc.currency,
                    ccacctfrom: acc.ccacctfrom->0,
                    banktranslist: acc.banktranslist->0,
                    ledgerbal: acc.ledgerbal,
                    availbal: acc.availbal,
                },
                pos + 1,
            ),
        ),
{
    ccstmtrs_tag_facts();
}

/// A token that is neither a field tag of CCSTMTRS nor its terminator fails
/// the decode at once with `UnexpectedToken` naming the token and the
/// enclosing record, whatever fields were already seen.
pub proof fn lemma_ccstmtrs_unknown_tag(toks: Seq<Seq<char>>, pos: int, acc: CcstmtrsPartial)
    requires
        0 <= pos < toks.len(),
        toks[pos] != "CURDEF"@,
        toks[pos] != "CCACCTFROM"@,
        toks[pos] != "BANKTRANLIST"@,
        toks[pos] != "LEDGERBAL"@,
        toks[pos] != "AVAILBAL"@,
        toks[pos] != "/CCSTMTRS"@,
    ensures
        spec_parse_ccstmtrs_loop(toks, pos, acc) == Err::<(CcstmtrsView, int), ErrorView>(
            ErrorView::UnexpectedToken(
                "Found unexpected token "@ + toks[pos] + " in the CCSTMTRS type"@,
            ),
        ),
{
}

/// A stream that is exhausted before the CCSTMTRS terminator fails with
/// `UnexpectedEOF` naming the terminator still awaited, whatever fields
/// were already seen.
pub proof fn lemma_ccstmtrs_truncated(toks: Seq<Seq<char>>, pos: int, acc: CcstmtrsPartial)
    requires
        pos >= toks.len(),
    ensures
        spec_parse_ccstmtrs_loop(toks, pos, acc) == Err::<(CcstmtrsView, int), ErrorView>(
            ErrorView::UnexpectedEOF("Found unexpected EOF. Was still expecting the '/CCSTMTRS'"@),
        ),
{
}

/// A stream truncated right after a value field's tag of CCSTMTRS fails
/// with `UnexpectedEOF` naming that field, whatever fields were
/// already seen.
pub proof fn lemma_ccstmtrs_truncated_after_tag(toks: Seq<Seq<char>>, pos: int, acc: CcstmtrsPartial)
    requires
        0 <= pos,
        pos + 1 == toks.len(),
    ensures
        toks[pos] == "CURDEF"@ ==> spec_parse_ccstmtrs_loop(toks, pos, acc) == Err::<(CcstmtrsView, int), ErrorView>(
            ErrorView::UnexpectedEOF("Expected token following the CURDEF token"@),
        ),
{
    ccstmtrs_tag_facts();
}

/// A successful CCSTMTRS decode reads only the tokens it consumes: on any
/// stream that agrees with `toks` on `[pos, p)`, the decode returns the
/// same record and the same end position.
#[verifier::rlimit(50)]
pub proof fn lemma_ccstmtrs_frame(
    toks: Seq<Seq<char>>,
    toks2: Seq<Seq<char>>,
    pos: int,
    acc: CcstmtrsPartial,
    v: CcstmtrsView,
    p: int,
)
    requires
        spec_parse_ccstmtrs_loop(toks, pos, acc) == Ok::<(CcstmtrsView, int), ErrorView>((v, p)),
        toks2.len() >= p,
        forall|j: int| pos <= j < p ==> toks2[j] == toks[j],
    ensures
        spec_parse_ccstmtrs_loop(toks2, pos, acc) == Ok::<(CcstmtrsView, int), ErrorView>((v, p)),
    decreases toks.len() - pos,
{
    lemma_spec_parse_ccstmtrs_loop_advances(toks, pos, acc);
    if 0 <= pos < toks.len() {
        let t = toks[pos];
        if t == "CURDEF"@ {
            if pos + 1 < toks.len() {
                let acc1 = CcstmtrsPartial { currency: Some(toks[pos + 1]), ..acc };
                lemma_spec_parse_ccstmtrs_loop_advances(toks, pos + 2, acc1);
                lemma_ccstmtrs_frame(toks, toks2, pos + 2, acc1, v, p);
            }
        } else if t == "CCACCTFROM"@ {
            match spec_parse_ccacctfrom(toks, pos + 1) {
                Ok((cv, cp)) => {
                    lemma_spec_parse_ccacctfrom_advances(toks, pos + 1);
                    let acc1 = CcstmtrsPartial { ccacctfrom: Some(cv), ..acc };
                    lemma_spec_parse_ccstmtrs_loop_advances(toks, cp, acc1);
                    lemma_ccacctfrom_frame(toks, toks2, pos + 1, CcacctfromPartial::init(), cv, cp);
                    lemma_ccstmtrs_frame(toks, toks2, cp, acc1, v, p);
                },
                Err(e) => {},
            }
        } else if t == "BANKTRANLIST"@ {
            match spec_parse_bank_tran_list(toks, pos + 1) {
                Ok((cv, cp)) => {
                    lemma_spec_parse_bank_tran_list_advances(toks, pos + 1);
                    let acc1 = CcstmtrsPartial { banktranslist: Some(cv), ..acc };
                    lemma_spec_parse_ccstmtrs_loop_advances(toks, cp, acc1);
                    lemma_bank_tran_list_frame(toks, toks2, pos + 1, BankTranListPartial::init(), cv, cp);
                    lemma_ccstmtrs_frame(toks, toks2, cp, acc1, v, p);
                },
                Err(e) => {},
            }
        } else if t == "LEDGERBAL"@ {
            match spec_parse_ledger_bal(toks, pos + 1) {
                Ok((cv, cp)) => {
                    lemma_spec_parse_ledger_bal_advances(toks, pos + 1);
                    let acc1 = CcstmtrsPartial { ledgerbal: Some(cv), ..acc };
                    lemma_spec_parse_ccstmtrs_loop_advances(toks, cp, acc1);
                    lemma_ledger_bal_frame(toks, toks2, pos + 1, LedgerBalPartial::init(), cv, cp);
                    lemma_ccstmtrs_frame(toks, toks2, cp, acc1, v, p);
                },
                Err(e) => {},
            }
        } else if t == "AVAILBAL"@ {
            match spec_parse_avail_bal(toks, pos + 1) {
                Ok((cv, cp)) => {
                    lemma_spec_parse_avail_bal_advances(toks, pos + 1);
                    let acc1 = CcstmtrsPartial { availbal: Some(cv), ..acc };
                    lemma_spec_parse_ccstmtrs_loop_advances(toks, cp, acc1);
                    lemma_avail_bal_frame(toks, toks2, pos + 1, AvailableBalancePartial::init(), cv, cp);
                    lemma_ccstmtrs_frame(toks, toks2, cp, acc1, v, p);
                },
                Err(e) => {},
            }
        }
    }
}

/// Truncating the token stream of a successful CCSTMTRS decode anywhere
/// before the position past its terminator yields `UnexpectedEOF`,
/// whatever fields were already seen.
#[verifier::rlimit(50)]
pub proof fn lemma_ccstmtrs_truncated_before_terminator(
    toks: Seq<Seq<char>>,
    pos: int,
    acc: CcstmtrsPartial,
    cut: int,
    v: CcstmtrsView,
    p: int,
)
    requires
        spec_parse_ccstmtrs_loop(toks, pos, acc) == Ok::<(CcstmtrsView, int), ErrorView>((v, p)),
        pos <= cut < p,
    ensures
        spec_parse_ccstmtrs_loop(toks.subrange(0, cut), pos, acc) matches Err(ErrorView::UnexpectedEOF(_)),
    decreases toks.len() - pos,
{
    lemma_spec_parse_ccstmtrs_loop_advances(toks, pos, acc);
    let toks2 = toks.subrange(0, cut);
    if cut > pos {
        let t = toks[pos];
        if t == "CURDEF"@ {
            if pos + 1 < toks.len() && cut > pos + 1 {
                let acc1 = CcstmtrsPartial { currency: Some(toks[pos + 1]), ..acc };
                lemma_spec_parse_ccstmtrs_loop_advances(toks, pos + 2, acc1);
                lemma_ccstmtrs_truncated_before_terminator(toks, pos + 2, acc1, cut, v, p);
            }
        } else if t == "CCACCTFROM"@ {
            match spec_parse_ccacctfrom(toks, pos + 1) {
                Ok((cv, cp)) => {
                    lemma_spec_parse_ccacctfrom_advances(toks, pos + 1);
                    let acc1 = CcstmtrsPartial { ccacctfrom: Some(cv), ..acc };
                    lemma_spec_parse_ccstmtrs_loop_advances(toks, cp, acc1);
                    if cut < cp {
                        lemma_ccacctfrom_truncated_before_terminator(toks, pos + 1, CcacctfromPartial::init(), cut, cv, cp);
                    } else {
                        lemma_ccacctfrom_frame(toks, toks2, pos + 1, CcacctfromPartial::init(), cv, cp);
                        lemma_ccstmtrs_truncated_before_terminator(toks, cp, acc1, cut, v, p);
                    }
                },
                Err(e) => {},
            }
        } else if t == "BANKTRANLIST"@ {
            match spec_parse_bank_tran_list(toks, pos + 1) {
                Ok((cv, cp)) => {
                    lemma_spec_parse_bank_tran_list_advances(toks, pos + 1);
                    let acc1 = CcstmtrsPartial { banktranslist: Some(cv), ..acc };
                    lemma_spec_parse_ccstmtrs_loop_advances(toks, cp, acc1);
                    if cut < cp {
                        lemma_bank_tran_list_truncated_before_terminator(toks, pos + 1, BankTranListPartial::init(), cut, cv, cp);
                    } else {
                        lemma_bank_tran_list_frame(toks, toks2, pos + 1, BankTranListPartial::init(), cv, cp);
                        lemma_ccstmtrs_truncated_before_terminator(toks, cp, acc1, cut, v, p);
                    }
                },
                Err(e) => {},
            }
        } else if t == "LEDGERBAL"@ {
            match spec_parse_ledger_bal(toks, pos + 1) {
                Ok((cv, cp)) => {
                    lemma_spec_parse_ledger_bal_advances(toks, pos + 1);
                    let acc1 = CcstmtrsPartial { ledgerbal: Some(cv), ..acc };
                    lemma_spec_parse_ccstmtrs_loop_advances(toks, cp, acc1);
                    if cut < cp {
                        lemma_ledger_bal_truncated_before_terminator(toks, pos + 1, LedgerBalPartial::init(), cut, cv, cp);
                    } else {
                        lemma_ledger_bal_frame(toks, toks2, pos + 1, LedgerBalPartial::init(), cv, cp);
                        lemma_ccstmtrs_truncated_before_terminator(toks, cp, acc1, cut, v, p);
                    }
                },
                Err(e) => {},
            }
        } else if t == "AVAILBAL"@ {
            match spec_parse_avail_bal(toks, pos + 1) {
                Ok((cv, cp)) => {
                    lemma_spec_parse_avail_bal_advances(toks, pos + 1);
                    let acc1 = CcstmtrsPartial { availbal: Some(cv), ..acc };
                    lemma_spec_parse_ccstmtrs_loop_advances(toks, cp, acc1);
                    if cut < cp {
                        lemma_avail_bal_truncated_before_terminator(toks, pos + 1, AvailableBalancePartial::init(), cut, cv, cp);
                    } else {
                        lemma_avail_bal_frame(toks, toks2, pos + 1, AvailableBalancePartial::init(), cv, cp);
                        lemma_ccstmtrs_truncated_before_terminator(toks, cp, acc1, cut, v, p);
                    }
                },
                Err(e) => {},
            }
        }
    }
}

proof fn ccstmttrnrs_tag_facts()
    ensures
        "TRNUID"@ != "STATUS"@,
        "TRNUID"@ != "CCSTMTRS"@,
        "TRNUID"@ != "/CCSTMTTRNRS"@,
        "STATUS"@ != "CCSTMTRS"@,
        "STATUS"@ != "/CCSTMTTRNRS"@,
        "CCSTMTRS"@ != "/CCSTMTTRNRS"@,
{
    reveal_strlit("/CCSTMTTRNRS");
    reveal_strlit("CCSTMTRS");
    reveal_strlit("STATUS");
    reveal_strlit("TRNUID");
    assert("/CCSTMTTRNRS"@.len() == 12);
    assert("CCSTMTRS"@.len() == 8);
    assert("STATUS"@.len() == 6);
    assert("TRNUID"@.len() == 6);
    assert("TRNUID"@[0] != "STATUS"@[0]);
    assert("TRNUID"@ != "STATUS"@);
}

/// A well-formed minimal CCSTMTTRNRS instance — only required fields, then the
/// terminator — decodes successfully, with every optional field absent.
pub proof fn lemma_ccstmttrnrs_minimal(toks: Seq<Seq<char>>, pos: int, v_ccstmtrs: CcstmtrsView, p_ccstmtrs: int)
    requires
        0 <= pos,
        pos < toks.len(),
        toks[pos] == "CCSTMTRS"@,
        spec_parse_ccstmtrs(toks, pos + 1) == Ok::<(CcstmtrsView, int), ErrorView>((v_ccstmtrs, p_ccstmtrs)),
        p_ccstmtrs < toks.len(),
        toks[p_ccstmtrs] == "/CCSTMTTRNRS"@,
    ensures
        spec_parse_ccstmttrnrs(toks, pos) == Ok::<(CcstmttrnrsView, int), ErrorView>(
            (
                CcstmttrnrsView {
                    trnuid: None,
                    status: None,
                    ccstmtrs: v_ccstmtrs,
                },
                p_ccstmtrs + 1,
            ),
        ),
{
    ccstmttrnrs_tag_facts();
    lemma_spec_parse_ccstmtrs_advances(toks, pos + 1);
    assert(spec_parse_ccstmttrnrs_loop(
        toks,
        pos,
        CcstmttrnrsPartial {
            trnuid: None,
            status: None,
            ccstmtrs: None,
        },
    ) == spec_parse_ccstmttrnrs_loop(
        toks,
        p_ccstmtrs,
        CcstmttrnrsPartial {
            trnuid: None,
            status: None,
            ccstmtrs: Some(v_ccstmtrs),
        },
    ));
}

/// Omitting the required CCSTMTRS field of a CCSTMTTRNRS record, while keeping the
/// other required fields and the terminator, fails with
/// `MissingRequiredValue` naming that field.
pub proof fn lemma_ccstmttrnrs_missing_ccstmtrs(toks: Seq<Seq<char>>, pos: int)
    requires
        0 <= pos,
        pos < toks.len(),
        toks[pos] == "/CCSTMTTRNRS"@,
    ensures
        spec_parse_ccstmttrnrs(toks, pos) == Err::<(CcstmttrnrsView, int), ErrorView>(
            ErrorView::MissingRequiredValue("CCSTMTRS section is required in CCSTMTTRNRS"@),
        ),
{
    ccstmttrnrs_tag_facts();
}

/// At the CCSTMTTRNRS terminator, the decode fails with `MissingRequiredValue`
/// naming the first required field, in schema order, that was never
/// set — whatever fields were seen before it and in whatever order —
/// and succeeds with exactly the fields seen once every required
/// field is set, absent optional fields staying absent.
pub proof fn lemma_ccstmttrnrs_at_terminator(toks: Seq<Seq<char>>, pos: int, acc: CcstmttrnrsPartial)
    requires
        0 <= pos < toks.len(),
        toks[pos] == "/CCSTMTTRNRS"@,
    ensures
        acc.ccstmtrs is None ==> spec_parse_ccstmttrnrs_loop(toks, pos, acc) == Err::<(CcstmttrnrsView, int), ErrorView>(
            ErrorView::MissingRequiredValue("CCSTMTRS section is required in CCSTMTTRNRS"@),
        ),
        acc.ccstmtrs is Some ==> spec_parse_ccstmttrnrs_loop(toks, pos, acc) == Ok::<(CcstmttrnrsView, int), ErrorView>(
            (
                CcstmttrnrsView {
                    trnuid: acc.trnuid,
                    status: acc.status,
                    ccstmtrs: acc.ccstmtrs->0,
                },
                pos + 1,
            ),
        ),
{
    ccstmttrnrs_tag_facts();
}

/// A token that is neither a field tag of CCSTMTTRNRS nor its terminator fails
/// the decode at once with `UnexpectedToken` naming the token and the
/// enclosing record, whatever fields were already seen.
pub proof fn lemma_ccstmttrnrs_unknown_tag(toks: Seq<Seq<char>>, pos: int, acc: CcstmttrnrsPartial)
    requires
        0 <= pos < toks.len(),
        toks[pos] != "TRNUID"@,
        toks[pos] != "STATUS"@,
        toks[pos] != "CCSTMTRS"@,
        toks[pos] != "/CCSTMTTRNRS"@,
    ensures
        spec_parse_ccstmttrnrs_loop(toks, pos, acc) == Err::<(CcstmttrnrsView, int), ErrorView>(
            ErrorView::UnexpectedToken(
                "Found unexpected token "@ + toks[pos] + " in the CCSTMTTRNRS type"@,
            ),
        ),
{
}

/// A stream that is exhausted before the CCSTMTTRNRS terminator fails with
/// `UnexpectedEOF` naming the terminator still awaited, whatever fields
/// were already seen.
pub proof fn lemma_ccstmttrnrs_truncated(toks: Seq<Seq<char>>, pos: int, acc: CcstmttrnrsPartial)
    requires
        pos >= toks.len(),
    ensures
        spec_parse_ccstmttrnrs_loop(toks, pos, acc) == Err::<(CcstmttrnrsView, int), ErrorView>(
            ErrorView::UnexpectedEOF("Found unexpected EOF. Was still expecting the '/CCSTMTTRNRS' token"@),
        ),
{
}

/// A stream truncated right after a value field's tag of CCSTMTTRNRS fails
/// with `UnexpectedEOF` naming that field, whatever fields were
/// already seen.
pub proof fn lemma_ccstmttrnrs_truncated_after_tag(toks: Seq<Seq<char>>, pos: int, acc: CcstmttrnrsPartial)
    requires
        0 <= pos,
        pos + 1 == toks.len(),
    ensures
        toks[pos] == "TRNUID"@ ==> spec_parse_ccstmttrnrs_loop(toks, pos, acc) == Err::<(CcstmttrnrsView, int), ErrorView>(
            ErrorView::UnexpectedEOF("Expected token following the TRNUID token"@),
        ),
{
    ccstmttrnrs_tag_facts();
}

/// A successful CCSTMTTRNRS decode reads only the tokens it consumes: on any
/// stream that agrees with `toks` on `[pos, p)`, the decode returns the
/// same record and the same end position.
#[verifier::rlimit(50)]
pub proof fn lemma_ccstmttrnrs_frame(
    toks: Seq<Seq<char>>,
    toks2: Seq<Seq<char>>,
    pos: int,
    acc: CcstmttrnrsPartial,
    v: CcstmttrnrsView,
    p: int,
)
    requires
        spec_parse_ccstmttrnrs_loop(toks, pos, acc) == Ok::<(CcstmttrnrsView, int), ErrorView>((v, p)),
        toks2.len() >= p,
        forall|j: int| pos <= j < p ==> toks2[j] == toks[j],
    ensures
        spec_parse_ccstmttrnrs_loop(toks2, pos, acc) == Ok::<(CcstmttrnrsView, int), ErrorView>((v, p)),
    decreases toks.len() - pos,
{
    lemma_spec_parse_ccstmttrnrs_loop_advances(toks, pos, acc);
    if 0 <= pos < toks.len() {
        let t = toks[pos];
        if t == "TRNUID"@ {
            if pos + 1 < toks.len() {
                let acc1 = CcstmttrnrsPartial { trnuid: Some(toks[pos + 1]), ..acc };
                lemma_spec_parse_ccstmttrnrs_loop_advances(toks, pos + 2, acc1);
                lemma_ccstmttrnrs_frame(toks, toks2, pos + 2, acc1, v, p);
            }
        } else if t == "STATUS"@ {
            match spec_parse_status(toks, pos + 1) {
                Ok((cv, cp)) => {
                    lemma_spec_parse_status_advances(toks, pos + 1);
                    let acc1 = CcstmttrnrsPartial { status: Some(cv), ..acc };
                    lemma_spec_parse_ccstmttrnrs_loop_advances(toks, cp, acc1);
                    lemma_status_frame(toks, toks2, pos + 1, StatusPartial::init(), cv, cp);
                    lemma_ccstmttrnrs_frame(toks, toks2, cp, acc1, v, p);
                },
                Err(e) => {},
            }
        } else if t == "CCSTMTRS"@ {
            match spec_parse_ccstmtrs(toks, pos + 1) {
                Ok((cv, cp)) => {
                    lemma_spec_parse_ccstmtrs_advances(toks, pos + 1);
                    let acc1 = CcstmttrnrsPartial { ccstmtrs: Some(cv), ..acc };
                    lemma_spec_parse_ccstmttrnrs_loop_advances(toks, cp, acc1);
                    lemma_ccstmtrs_frame(toks, toks2, pos + 1, CcstmtrsPartial::init(), cv, cp);
                    lemma_ccstmttrnrs_frame(toks, toks2, cp, acc1, v, p);
                },
                Err(e) => {},
            }
        }
    }
}

/// Truncating the token stream of a successful CCSTMTTRNRS decode anywhere
/// before the position past its terminator yields `UnexpectedEOF`,
/// whatever fields were already seen.
#[verifier::rlimit(50)]
pub proof fn lemma_ccstmttrnrs_truncated_before_terminator(
    toks: Seq<Seq<char>>,
    pos: int,
    acc: CcstmttrnrsPartial,
    cut: int,
    v: CcstmttrnrsView,
    p: int,
)
    requires
        spec_parse_ccstmttrnrs_loop(toks, pos, acc) == Ok::<(CcstmttrnrsView, int), ErrorView>((v, p)),
        pos <= cut < p,
    ensures
        spec_parse_ccstmttrnrs_loop(toks.subrange(0, cut), pos, acc) matches Err(ErrorView::UnexpectedEOF(_)),
    decreases toks.len() - pos,
{
    lemma_spec_parse_ccstmttrnrs_loop_advances(toks, pos, acc);
    let toks2 = toks.subrange(0, cut);
    if cut > pos {
        let t = toks[pos];
        if t == "TRNUID"@ {
            if pos + 1 < toks.len() && cut > pos + 1 {
                let acc1 = CcstmttrnrsPartial { trnuid: Some(toks[pos + 1]), ..acc };
                lemma_spec_parse_ccstmttrnrs_loop_advances(toks, pos + 2, acc1);
                lemma_ccstmttrnrs_truncated_before_terminator(toks, pos + 2, acc1, cut, v, p);
            }
        } else if t == "STATUS"@ {
            match spec_parse_status(toks, pos + 1) {
                Ok((cv, cp)) => {
                    lemma_spec_parse_status_advances(toks, pos + 1);
                    let acc1 = CcstmttrnrsPartial { status: Some(cv), ..acc };
                    lemma_spec_parse_ccstmttrnrs_loop_advances(toks, cp, acc1);
                    if cut < cp {
                        lemma_status_truncated_before_terminator(toks, pos + 1, StatusPartial::init(), cut, cv, cp);
                    } else {
                        lemma_status_frame(toks, toks2, pos + 1, StatusPartial::init(), cv, cp);
                        lemma_ccstmttrnrs_truncated_before_terminator(toks, cp, acc1, cut, v, p);
                    }
                },
                Err(e) => {},
            }
        } else if t == "CCSTMTRS"@ {
            match spec_parse_ccstmtrs(toks, pos + 1) {
                Ok((cv, cp)) => {
                    lemma_spec_parse_ccstmtrs_advances(toks, pos + 1);
                    let acc1 = CcstmttrnrsPartial { ccstmtrs: Some(cv), ..acc };
                    lemma_spec_parse_ccstmttrnrs_loop_advances(toks, cp, acc1);
                    if cut < cp {
                        lemma_ccstmtrs_truncated_before_terminator(toks, pos + 1, CcstmtrsPartial::init(), cut, cv, cp);
                    } else {
                        lemma_ccstmtrs_frame(toks, toks2, pos + 1, CcstmtrsPartial::init(), cv, cp);
                        lemma_ccstmttrnrs_truncated_before_terminator(toks, cp, acc1, cut, v, p);
                    }
                },
                Err(e) => {},
            }
        }
    }
}

proof fn cc_msg_srs_v1_tag_facts()
    ensures
        "CCSTMTTRNRS"@ != "/CREDITCARDMSGSRSV1"@,
{
    reveal_strlit("/CREDITCARDMSGSRSV1");
    reveal_strlit("CCSTMTTRNRS");
    assert("/CREDITCARDMSGSRSV1"@.len() == 19);
    assert("CCSTMTTRNRS"@.len() == 11);
}

/// A well-formed minimal CREDITCARDMSGSRSV1 instance — only required fields, then the
/// terminator — decodes successfully, with every optional field absent.
pub proof fn lemma_cc_msg_srs_v1_minimal(toks: Seq<Seq<char>>, pos: int, v_ccstmttrns: CcstmttrnrsView, p_ccstmttrns: int)
    requires
        0 <= pos,
        pos < toks.len(),
        toks[pos] == "CCSTMTTRNRS"@,
        spec_parse_ccstmttrnrs(toks, pos + 1) == Ok::<(CcstmttrnrsView, int), ErrorView>((v_ccstmttrns, p_ccstmttrns)),
        p_ccstmttrns < toks.len(),
        toks[p_ccstmttrns] == "/CREDITCARDMSGSRSV1"@,
    ensures
        spec_parse_cc_msg_srs_v1(toks, pos) == Ok::<(CCMsgSrsV1View, int), ErrorView>(
            (
                CCMsgSrsV1View {
                    ccstmttrns: v_ccstmttrns,
                },
                p_ccstmttrns + 1,
            ),
        ),
{
    cc_msg_srs_v1_tag_facts();
    lemma_spec_parse_ccstmttrnrs_advances(toks, pos + 1);
    assert(spec_parse_cc_msg_srs_v1_loop(
        toks,
        pos,
        CCMsgSrsV1Partial {
            ccstmttrns: None,
        },
    ) == spec_parse_cc_msg_srs_v1_loop(
        toks,
        p_ccstmttrns,
        CCMsgSrsV1Partial {
            ccstmttrns: Some(v_ccstmttrns),
        },
    ));
}

/// Omitting the required CCSTMTTRNRS field of a CREDITCARDMSGSRSV1 record, while keeping the
/// other required fields and the terminator, fails with
/// `MissingRequiredValue` naming that field.
pub proof fn lemma_cc_msg_srs_v1_missing_ccstmttrns(toks: Seq<Seq<char>>, pos: int)
    requires
        0 <= pos,
        pos < toks.len(),
        toks[pos] == "/CREDITCARDMSGSRSV1"@,
    ensures
        spec_parse_cc_msg_srs_v1(toks, pos) == Err::<(CCMsgSrsV1View, int), ErrorView>(
            ErrorView::MissingRequiredValue("CCSTMTTRNRS is a requied value in CREDITCARDMSGSRSV1"@),
        ),
{
    cc_msg_srs_v1_tag_facts();
}

/// At the CREDITCARDMSGSRSV1 terminator, the decode fails with `MissingRequiredValue`
/// naming the first required field, in schema order, that was never
/// set — whatever fields were seen before it and in whatever order —
/// and succeeds with exactly the fields seen once every required
/// field is set, absent optional fields staying absent.
pub proof fn lemma_cc_msg_srs_v1_at_terminator(toks: Seq<Seq<char>>, pos: int, acc: CCMsgSrsV1Partial)
    requires
        0 <= pos < toks.len(),
        toks[pos] == "/CREDITCARDMSGSRSV1"@,
    ensures
        acc.ccstmttrns is None ==> spec_parse_cc_msg_srs_v1_loop(toks, pos, acc) == Err::<(CCMsgSrsV1View, int), ErrorView>(
            ErrorView::MissingRequiredValue("CCSTMTTRNRS is a requied value in CREDITCARDMSGSRSV1"@),
        ),
        acc.ccstmttrns is Some ==> spec_parse_cc_msg_srs_v1_loop(toks, pos, acc) == Ok::<(CCMsgSrsV1View, int), ErrorView>(
            (
                CCMsgSrsV1View {
                    ccstmttrns: acc.ccstmttrns->0,
                },
                pos + 1,
            ),
        ),
{
    cc_msg_srs_v1_tag_facts();
}

/// A token that is neither a field tag of CREDITCARDMSGSRSV1 nor its terminator fails
/// the decode at once with `UnexpectedToken` naming the token and the
/// enclosing record, whatever fields were already seen.
pub proof fn lemma_cc_msg_srs_v1_unknown_tag(toks: Seq<Seq<char>>, pos: int, acc: CCMsgSrsV1Partial)
    requires
        0 <= pos < toks.len(),
        toks[pos] != "CCSTMTTRNRS"@,
        toks[pos] != "/CREDITCARDMSGSRSV1"@,
    ensures
        spec_parse_cc_msg_srs_v1_loop(toks, pos, acc) == Err::<(CCMsgSrsV1View, int), ErrorView>(
            ErrorView::UnexpectedToken(
                "Found unexpected token "@ + toks[pos] + " in the CREDITCARDMSGSRSV1 type"@,
            ),
        ),
{
}

/// A stream that is exhausted before the CREDITCARDMSGSRSV1 terminator fails with
/// `UnexpectedEOF` naming the terminator still awaited, whatever fields
/// were already seen.
pub proof fn lemma_cc_msg_srs_v1_truncated(toks: Seq<Seq<char>>, pos: int, acc: CCMsgSrsV1Partial)
    requires
        pos >= toks.len(),
    ensures
        spec_parse_cc_msg_srs_v1_loop(toks, pos, acc) == Err::<(CCMsgSrsV1View, int), ErrorView>(
            ErrorView::UnexpectedEOF("Found unexpected EOF. Was still expecting the '/CREDITCARDMSGSRSV1' token"@),
        ),
{
}

/// A successful CREDITCARDMSGSRSV1 decode reads only the tokens it consumes: on any
/// stream that agrees with `toks` on `[pos, p)`, the decode returns the
/// same record and the same end position.
#[verifier::rlimit(50)]
pub proof fn lemma_cc_msg_srs_v1_frame(
    toks: Seq<Seq<char>>,
    toks2: Seq<Seq<char>>,
    pos: int,
    acc: CCMsgSrsV1Partial,
    v: CCMsgSrsV1View,
    p: int,
)
    requires
        spec_parse_cc_msg_srs_v1_loop(toks, pos, acc) == Ok::<(CCMsgSrsV1View, int), ErrorView>((v, p)),
        toks2.len() >= p,
        forall|j: int| pos <= j < p ==> toks2[j] == toks[j],
    ensures
        spec_parse_cc_msg_srs_v1_loop(toks2, pos, acc) == Ok::<(CCMsgSrsV1View, int), ErrorView>((v, p)),
    decreases toks.len() - pos,
{
    lemma_spec_parse_cc_msg_srs_v1_loop_advances(toks, pos, acc);
    if 0 <= pos < toks.len() {
        let t = toks[pos];
        if t == "CCSTMTTRNRS"@ {
            match spec_parse_ccstmttrnrs(toks, pos + 1) {
                Ok((cv, cp)) => {
                    lemma_spec_parse_ccstmttrnrs_advances(toks, pos + 1);
                    let acc1 = CCMsgSrsV1Partial { ccstmttrns: Some(cv), ..acc };
                    lemma_spec_parse_cc_msg_srs_v1_loop_advances(toks, cp, acc1);
                    lemma_ccstmttrnrs_frame(toks, toks2, pos + 1, CcstmttrnrsPartial::init(), cv, cp);
                    lemma_cc_msg_srs_v1_frame(toks, toks2, cp, acc1, v, p);
                },
                Err(e) => {},
            }
        }
    }
}

/// Truncating the token stream of a successful CREDITCARDMSGSRSV1 decode anywhere
/// before the position past its terminator yields `UnexpectedEOF`,
/// whatever fields were already seen.
#[verifier::rlimit(50)]
pub proof fn lemma_cc_msg_srs_v1_truncated_before_terminator(
    toks: Seq<Seq<char>>,
    pos: int,
    acc: CCMsgSrsV1Partial,
    cut: int,
    v: CCMsgSrsV1View,
    p: int,
)
    requires
        spec_parse_cc_msg_srs_v1_loop(toks, pos, acc) == Ok::<(CCMsgSrsV1View, int), ErrorView>((v, p)),
        pos <= cut < p,
    ensures
        spec_parse_cc_msg_srs_v1_loop(toks.subrange(0, cut), pos, acc) matches Err(ErrorView::UnexpectedEOF(_)),
    decreases toks.len() - pos,
{
    lemma_spec_parse_cc_msg_srs_v1_loop_advances(toks, pos, acc);
    let toks2 = toks.subrange(0, cut);
    if cut > pos {
        let t = toks[pos];
        if t == "CCSTMTTRNRS"@ {
            match spec_parse_ccstmttrnrs(toks, pos + 1) {
                Ok((cv, cp)) => {
                    lemma_spec_parse_ccstmttrnrs_advances(toks, pos + 1);
                    let acc1 = CCMsgSrsV1Partial { ccstmttrns: Some(cv), ..acc };
                    lemma_spec_parse_cc_msg_srs_v1_loop_advances(toks, cp, acc1);
                    if cut < cp {
                        lemma_ccstmttrnrs_truncated_before_terminator(toks, pos + 1, CcstmttrnrsPartial::init(), cut, cv, cp);
                    } else {
                        lemma_ccstmttrnrs_frame(toks, toks2, pos + 1, CcstmttrnrsPartial::init(), cv, cp);
                        lemma_cc_msg_srs_v1_truncated_before_terminator(toks, cp, acc1, cut, v, p);
                    }
                },
                Err(e) => {},
            }
        }
    }
}

proof fn financial_institution_tag_facts()
    ensures
        "ORG"@ != "FID"@,
        "ORG"@ != "/FI"@,
        "FID"@ != "/FI"@,
{
    reveal_strlit("/FI");
    reveal_strlit("FID");
    reveal_strlit("ORG");
    assert("/FI"@.len() == 3);
    assert("FID"@.len() == 3);
    assert("ORG"@.len() == 3);
    assert("ORG"@[0] != "FID"@[0]);
    assert("ORG"@ != "FID"@);
    assert("ORG"@[0] != "/FI"@[0]);
    assert("ORG"@ != "/FI"@);
    assert("FID"@[0] != "/FI"@[0]);
    assert("FID"@ != "/FI"@);
}

/// A well-formed minimal FI instance — only required fields, then the
/// terminator — decodes successfully, with every optional field absent.
pub proof fn lemma_financial_institution_minimal(toks: Seq<Seq<char>>, pos: int)
    requires
        0 <= pos,
        pos + 1 < toks.len(),
        toks[pos] == "ORG"@,
        pos + 2 + 1 < toks.len(),
        toks[pos + 2] == "FID"@,
        pos + 2 + 2 < toks.len(),
        toks[pos + 2 + 2] == "/FI"@,
    ensures
        spec_parse_financial_institution(toks, pos) == Ok::<(FinancialInstitutionView, int), ErrorView>(
            (
                FinancialInstitutionView {
                    org: toks[pos + 1],
                    fid: toks[pos + 2 + 1],
                },
                pos + 2 + 2 + 1,
            ),
        ),
{
    financial_institution_tag_facts();
    assert(spec_parse_financial_institution_loop(
        toks,
        pos,
        FinancialInstitutionPartial {
            org: None,
            fid: None,
        },
    ) == spec_parse_financial_institution_loop(
        toks,
        pos + 2,
        FinancialInstitutionPartial {
            org: Some(toks[pos + 1]),
            fid: None,
        },
    ));
    assert(spec_parse_financial_institution_loop(
        toks,
        pos + 2,
        FinancialInstitutionPartial {
            org: Some(toks[pos + 1]),
            fid: None,
        },
    ) == spec_parse_financial_institution_loop(
        toks,
        pos + 2 + 2,
        FinancialInstitutionPartial {
            org: Some(toks[pos + 1]),
            fid: Some(toks[pos + 2 + 1]),
        },
    ));
}

/// Omitting the required ORG field of a FI record, while keeping the
/// other required fields and the terminator, fails with
/// `MissingRequiredValue` naming that field.
pub proof fn lemma_financial_institution_missing_org(toks: Seq<Seq<char>>, pos: int)
    requires
        0 <= pos,
        pos + 1 < toks.len(),
        toks[pos] == "FID"@,
        pos + 2 < toks.len(),
        toks[pos + 2] == "/FI"@,
    ensures
        spec_parse_financial_institution(toks, pos) == Err::<(FinancialInstitutionView, int), ErrorView>(
            ErrorView::MissingRequiredValue("Missing ORG in FI"@),
        ),
{
    financial_institution_tag_facts();
    assert(spec_parse_financial_institution_loop(
        toks,
        pos,
        FinancialInstitutionPartial {
            org: None,
            fid: None,
        },
    ) == spec_parse_financial_institution_loop(
        toks,
        pos + 2,
        FinancialInstitutionPartial {
            org: None,
            fid: Some(toks[pos + 1]),
        },
    ));
}

/// Omitting the required FID field of a FI record, while keeping the
/// other required fields and the terminator, fails with
/// `MissingRequiredValue` naming that field.
pub proof fn lemma_financial_institution_missing_fid(toks: Seq<Seq<char>>, pos: int)
    requires
        0 <= pos,
        pos + 1 < toks.len(),
        toks[pos] == "ORG"@,
        pos + 2 < toks.len(),
        toks[pos + 2] == "/FI"@,
    ensures
        spec_parse_financial_institution(toks, pos) == Err::<(FinancialInstitutionView, int), ErrorView>(
            ErrorView::MissingRequiredValue("Missing FID in FI"@),
        ),
{
    financial_institution_tag_facts();
    assert(spec_parse_financial_institution_loop(
        toks,
        pos,
        FinancialInstitutionPartial {
            org: None,
            fid: None,
        },
    ) == spec_parse_financial_institution_loop(
        toks,
        pos + 2,
        FinancialInstitutionPartial {
            org: Some(toks[pos + 1]),
            fid: None,
        },
    ));
}

/// At the FI terminator, the decode fails with `MissingRequiredValue`
/// naming the first required field, in schema order, that was never
/// set — whatever fields were seen before it and in whatever order —
/// and succeeds with exactly the fields seen once every required
/// field is set, absent optional fields staying absent.
pub proof fn lemma_financial_institution_at_terminator(toks: Seq<Seq<char>>, pos: int, acc: FinancialInstitutionPartial)
    requires
        0 <= pos < toks.len(),
        toks[pos] == "/FI"@,
    ensures
        acc.org is None ==> spec_parse_financial_institution_loop(toks, pos, acc) == Err::<(FinancialInstitutionView, int), ErrorView>(
            ErrorView::MissingRequiredValue("Missing ORG in FI"@),
        ),
        acc.org is Some && acc.fid is None ==> spec_parse_financial_institution_loop(toks, pos, acc) == Err::<(FinancialInstitutionView, int), ErrorView>(
            ErrorView::MissingRequiredValue("Missing FID in FI"@),
        ),
        acc.org is Some && acc.fid is Some ==> spec_parse_financial_institution_loop(toks, pos, acc) == Ok::<(FinancialInstitutionView, int), ErrorView>(
            (
                FinancialInstitutionView {
                    org: acc.org->0,
                    fid: acc.fid->0,
                },
                pos + 1,
            ),
        ),
{
    financial_institution_tag_facts();
}

/// A token that is neither a field tag of FI nor its terminator fails
/// the decode at once with `UnexpectedToken` naming the token and the
/// enclosing record, whatever fields were already seen.
pub proof fn lemma_financial_institution_unknown_tag(toks: Seq<Seq<char>>, pos: int, acc: FinancialInstitutionPartial)
    requires
        0 <= pos < toks.len(),
        toks[pos] != "ORG"@,
        toks[pos] != "FID"@,
        toks[pos] != "/FI"@,
    ensures
        spec_parse_financial_institution_loop(toks, pos, acc) == Err::<(FinancialInstitutionView, int), ErrorView>(
            ErrorView::UnexpectedToken(
                "Found unexpected token "@ + toks[pos] + " in the FI type"@,
            ),
        ),
{
}

/// A stream that is exhausted before the FI terminator fails with
/// `UnexpectedEOF` naming the terminator still awaited, whatever fields
/// were already seen.
pub proof fn lemma_financial_institution_truncated(toks: Seq<Seq<char>>, pos: int, acc: FinancialInstitutionPartial)
    requires
        pos >= toks.len(),
    ensures
        spec_parse_financial_institution_loop(toks, pos, acc) == Err::<(FinancialInstitutionView, int), ErrorView>(
            ErrorView::UnexpectedEOF("Found unexpected EOF. Was still expecting the '/FI' token"@),
        ),
{
}

/// A stream truncated right after a value field's tag of FI fails
/// with `UnexpectedEOF` naming that field, whatever fields were
/// already seen.
pub proof fn lemma_financial_institution_truncated_after_tag(toks: Seq<Seq<char>>, pos: int, acc: FinancialInstitutionPartial)
    requires
        0 <= pos,
        pos + 1 == toks.len(),
    ensures
        toks[pos] == "ORG"@ ==> spec_parse_financial_institution_loop(toks, pos, acc) == Err::<(FinancialInstitutionView, int), ErrorView>(
            ErrorView::UnexpectedEOF("Expected token following the ORG token"@),
        ),
        toks[pos] == "FID"@ ==> spec_parse_financial_institution_loop(toks, pos, acc) == Err::<(FinancialInstitutionView, int), ErrorView>(
            ErrorView::UnexpectedEOF("Expected token following the FIT token"@),
        ),
{
    financial_institution_tag_facts();
}

/// A successful FI decode reads only the tokens it consumes: on any
/// stream that agrees with `toks` on `[pos, p)`, the decode returns the
/// same record and the same end position.
#[verifier::rlimit(50)]
pub proof fn lemma_financial_institution_frame(
    toks: Seq<Seq<char>>,
    toks2: Seq<Seq<char>>,
    pos: int,
    acc: FinancialInstitutionPartial,
    v: FinancialInstitutionView,
    p: int,
)
    requires
        spec_parse_financial_institution_loop(toks, pos, acc) == Ok::<(FinancialInstitutionView, int), ErrorView>((v, p)),
        toks2.len() >= p,
        forall|j: int| pos <= j < p ==> toks2[j] == toks[j],
    ensures
        spec_parse_financial_institution_loop(toks2, pos, acc) == Ok::<(FinancialInstitutionView, int), ErrorView>((v, p)),
    decreases toks.len() - pos,
{
    lemma_spec_parse_financial_institution_loop_advances(toks, pos, acc);
    if 0 <= pos < toks.len() {
        let t = toks[pos];
        if t == "ORG"@ {
            if pos + 1 < toks.len() {
                let acc1 = FinancialInstitutionPartial { org: Some(toks[pos + 1]), ..acc };
                lemma_spec_parse_financial_institution_loop_advances(toks, pos + 2, acc1);
                lemma_financial_institution_frame(toks, toks2, pos + 2, acc1, v, p);
            }
        } else if t == "FID"@ {
            if pos + 1 < toks.len() {
                let acc1 = FinancialInstitutionPartial { fid: Some(toks[pos + 1]), ..acc };
                lemma_spec_parse_financial_institution_loop_advances(toks, pos + 2, acc1);
                lemma_financial_institution_frame(toks, toks2, pos + 2, acc1, v, p);
            }
        }
    }
}

/// Truncating the token stream of a successful FI decode anywhere
/// before the position past its terminator yields `UnexpectedEOF`,
/// whatever fields were already seen.
#[verifier::rlimit(50)]
pub proof fn lemma_financial_institution_truncated_before_terminator(
    toks: Seq<Seq<char>>,
    pos: int,
    acc: FinancialInstitutionPartial,
    cut: int,
    v: FinancialInstitutionView,
    p: int,
)
    requires
        spec_parse_financial_institution_loop(toks, pos, acc) == Ok::<(FinancialInstitutionView, int), ErrorView>((v, p)),
        pos <= cut < p,
    ensures
        spec_parse_financial_institution_loop(toks.subrange(0, cut), pos, acc) matches Err(ErrorView::UnexpectedEOF(_)),
    decreases toks.len() - pos,
{
    lemma_spec_parse_financial_institution_loop_advances(toks, pos, acc);
    let toks2 = toks.subrange(0, cut);
    if cut > pos {
        let t = toks[pos];
        if t == "ORG"@ {
            if pos + 1 < toks.len() && cut > pos + 1 {
                let acc1 = FinancialInstitutionPartial { org: Some(toks[pos + 1]), ..acc };
                lemma_spec_parse_financial_institution_loop_advances(toks, pos + 2, acc1);
                lemma_financial_institution_truncated_before_terminator(toks, pos + 2, acc1, cut, v, p);
            }
        } else if t == "FID"@ {
            if pos + 1 < toks.len() && cut > pos + 1 {
                let acc1 = FinancialInstitutionPartial { fid: Some(toks[pos + 1]), ..acc };
                lemma_spec_parse_financial_institution_loop_advances(toks, pos + 2, acc1);
                lemma_financial_institution_truncated_before_terminator(toks, pos + 2, acc1, cut, v, p);
            }
        }
    }
}

proof fn sonrs_tag_facts()
    ensures
        "STATUS"@ != "DTSERVER"@,
        "STATUS"@ != "DTACCTUP"@,
        "STATUS"@ != "LANGUAGE"@,
        "STATUS"@ != "FI"@,
        "STATUS"@ != "INTU.BID"@,
        "STATUS"@ != "INTU.USERID"@,
        "STATUS"@ != "SESSCOOKIE"@,
        "STATUS"@ != "/SONRS"@,
        "DTSERVER"@ != "DTACCTUP"@,
        "DTSERVER"@ != "LANGUAGE"@,
        "DTSERVER"@ != "FI"@,
        "DTSERVER"@ != "INTU.BID"@,
        "DTSERVER"@ != "INTU.USERID"@,
        "DTSERVER"@ != "SESSCOOKIE"@,
        "DTSERVER"@ != "/SONRS"@,
        "DTACCTUP"@ != "LANGUAGE"@,
        "DTACCTUP"@ != "FI"@,
        "DTACCTUP"@ != "INTU.BID"@,
        "DTACCTUP"@ != "INTU.USERID"@,
        "DTACCTUP"@ != "SESSCOOKIE"@,
        "DTACCTUP"@ != "/SONRS"@,
        "LANGUAGE"@ != "FI"@,
        "LANGUAGE"@ != "INTU.BID"@,
        "LANGUAGE"@ != "INTU.USERID"@,
        "LANGUAGE"@ != "SESSCOOKIE"@,
        "LANGUAGE"@ != "/SONRS"@,
        "FI"@ != "INTU.BID"@,
        "FI"@ != "INTU.USERID"@,
        "FI"@ != "SESSCOOKIE"@,
        "FI"@ != "/SONRS"@,
        "INTU.BID"@ != "INTU.USERID"@,
        "INTU.BID"@ != "SESSCOOKIE"@,
        "INTU.BID"@ != "/SONRS"@,
        "INTU.USERID"@ != "SESSCOOKIE"@,
        "INTU.USERID"@ != "/SONRS"@,
        "SESSCOOKIE"@ != "/SONRS"@,
{
    reveal_strlit("/SONRS");
    reveal_strlit("DTACCTUP");
    reveal_strlit("DTSERVER");
    reveal_strlit("FI");
    reveal_strlit("INTU.BID");
    reveal_strlit("INTU.USERID");
    reveal_strlit("LANGUAGE");
    reveal_strlit("SESSCOOKIE");
    reveal_strlit("STATUS");
    assert("/SONRS"@.len() == 6);
    assert("DTACCTUP"@.len() == 8);
    assert("DTSERVER"@.len() == 8);
    assert("FI"@.len() == 2);
    assert("INTU.BID"@.len() == 8);
    assert("INTU.USERID"@.len() == 11);
    assert("LANGUAGE"@.len() == 8);
    assert("SESSCOOKIE"@.len() == 10);
    assert("STATUS"@.len() == 6);
    assert("STATUS"@[0] != "/SONRS"@[0]);
    assert("STATUS"@ != "/SONRS"@);
    assert("DTSERVER"@[2] != "DTACCTUP"@[2]);
    assert("DTSERVER"@ != "DTACCTUP"@);
    assert("DTSERVER"@[0] != "LANGUAGE"@[0]);
    assert("DTSERVER"@ != "LANGUAGE"@);
    assert("DTSERVER"@[0] != "INTU.BID"@[0]);
    assert("DTSERVER"@ != "INTU.BID"@);
    assert("DTACCTUP"@[0] != "LANGUAGE"@[0]);
    assert("DTACCTUP"@ != "LANGUAGE"@);
    assert("DTACCTUP"@[0] != "INTU.BID"@[0]);
    assert("DTACCTUP"@ != "INTU.BID"@);
    assert("LANGUAGE"@[0] != "INTU.BID"@[0]);
    assert("LANGUAGE"@ != "INTU.BID"@);
}

/// A well-formed minimal SONRS instance — only required fields, then the
/// terminator — decodes successfully, with every optional field absent.
pub proof fn lemma_sonrs_minimal(toks: Seq<Seq<char>>, pos: int, v_dt_server: UtcDateTime, v_fi: FinancialInstitutionView, p_fi: int)
    requires
        0 <= pos,
        pos + 1 < toks.len(),
        toks[pos] == "DTSERVER"@,
        spec_parse_ofx_datetime(toks[pos + 1]) == Some(v_dt_server),
        pos + 2 < toks.len(),
        toks[pos + 2] == "FI"@,
        spec_parse_financial_institution(toks, pos + 2 + 1) == Ok::<(FinancialInstitutionView, int), ErrorView>((v_fi, p_fi)),
        p_fi < toks.len(),
        toks[p_fi] == "/SONRS"@,
    ensures
        spec_parse_sonrs(toks, pos) == Ok::<(SonrsView, int), ErrorView>(
            (
                SonrsView {
                    status: None,
                    fi: v_fi,
                    bid: None,
                    dt_server: v_dt_server,
                    dt_acctup: None,
                    language: None,
                    cookie: None,
                    user_id: None,
                },
                p_fi + 1,
            ),
        ),
{
    sonrs_tag_facts();
    lemma_spec_parse_financial_institution_advances(toks, pos + 2 + 1);
    assert(spec_parse_sonrs_loop(
        toks,
        pos,
        SonrsPartial {
            status: None,
            fi: None,
            bid: None,
            dt_server: None,
            dt_acctup: None,
            language: None,
            cookie: None,
            user_id: None,
        },
    ) == spec_parse_sonrs_loop(
        toks,
        pos + 2,
        SonrsPartial {
            status: None,
            fi: None,
            bid: None,
            dt_server: Some(v_dt_server),
            dt_acctup: None,
            language: None,
            cookie: None,
            user_id: None,
        },
    ));
    assert(spec_parse_sonrs_loop(
        toks,
        pos + 2,
        SonrsPartial {
            status: None,
            fi: None,
            bid: None,
            dt_server: Some(v_dt_server),
            dt_acctup: None,
            language: None,
            cookie: None,
            user_id: None,
        },
    ) == spec_parse_sonrs_loop(
        toks,
        p_fi,
        SonrsPartial {
            status: None,
            fi: Some(v_fi),
            bid: None,
            dt_server: Some(v_dt_server),
            dt_acctup: None,
            language: None,
            cookie: None,
            user_id: None,
        },
    ));
}

/// Omitting the required FI field of a SONRS record, while keeping the
/// other required fields and the terminator, fails with
/// `MissingRequiredValue` naming that field.
pub proof fn lemma_sonrs_missing_fi(toks: Seq<Seq<char>>, pos: int, v_dt_server: UtcDateTime)
    requires
        0 <= pos,
        pos + 1 < toks.len(),
        toks[pos] == "DTSERVER"@,
        spec_parse_ofx_datetime(toks[pos + 1]) == Some(v_dt_server),
        pos + 2 < toks.len(),
        toks[pos + 2] == "/SONRS"@,
    ensures
        spec_parse_sonrs(toks, pos) == Err::<(SonrsView, int), ErrorView>(
            ErrorView::MissingRequiredValue("Financial Institution (FI) is required in SONRS"@),
        ),
{
    sonrs_tag_facts();
    assert(spec_parse_sonrs_loop(
        toks,
        pos,
        SonrsPartial {
            status: None,
            fi: None,
            bid: None,
            dt_server: None,
            dt_acctup: None,
            language: None,
            cookie: None,
            user_id: None,
        },
    ) == spec_parse_sonrs_loop(
        toks,
        pos + 2,
        SonrsPartial {
            status: None,
            fi: None,
            bid: None,
            dt_server: Some(v_dt_server),
            dt_acctup: None,
            language: None,
            cookie: None,
            user_id: None,
        },
    ));
}

/// Omitting the required DTSERVER field of a SONRS record, while keeping the
/// other required fields and the terminator, fails with
/// `MissingRequiredValue` naming that field.
pub proof fn lemma_sonrs_missing_dt_server(toks: Seq<Seq<char>>, pos: int, v_fi: FinancialInstitutionView, p_fi: int)
    requires
        0 <= pos,
        pos < toks.len(),
        toks[pos] == "FI"@,
        spec_parse_financial_institution(toks, pos + 1) == Ok::<(FinancialInstitutionView, int), ErrorView>((v_fi, p_fi)),
        p_fi < toks.len(),
        toks[p_fi] == "/SONRS"@,
    ensures
        spec_parse_sonrs(toks, pos) == Err::<(SonrsView, int), ErrorView>(
            ErrorView::MissingRequiredValue("DTSERVER is required in SONRS"@),
        ),
{
    sonrs_tag_facts();
    lemma_spec_parse_financial_institution_advances(toks, pos + 1);
    assert(spec_parse_sonrs_loop(
        toks,
        pos,
        SonrsPartial {
            status: None,
            fi: None,
            bid: None,
            dt_server: None,
            dt_acctup: None,
            language: None,
            cookie: None,
            user_id: None,
        },
    ) == spec_parse_sonrs_loop(
        toks,
        p_fi,
        SonrsPartial {
            status: None,
            fi: Some(v_fi),
            bid: None,
            dt_server: None,
            dt_acctup: None,
            language: None,
            cookie: None,
            user_id: None,
        },
    ));
}

/// At the SONRS terminator, the decode fails with `MissingRequiredValue`
/// naming the first required field, in schema order, that was never
/// set — whatever fields were seen before it and in whatever order —
/// and succeeds with exactly the fields seen once every required
/// field is set, absent optional fields staying absent.
pub proof fn lemma_sonrs_at_terminator(toks: Seq<Seq<char>>, pos: int, acc: SonrsPartial)
    requires
        0 <= pos < toks.len(),
        toks[pos] == "/SONRS"@,
    ensures
        acc.fi is None ==> spec_parse_sonrs_loop(toks, pos, acc) == Err::<(SonrsView, int), ErrorView>(
            ErrorView::MissingRequiredValue("Financial Institution (FI) is required in SONRS"@),
        ),
        acc.fi is Some && acc.dt_server is None ==> spec_parse_sonrs_loop(toks, pos, acc) == Err::<(SonrsView, int), ErrorView>(
            ErrorView::MissingRequiredValue("DTSERVER is required in SONRS"@),
        ),
        acc.fi is Some && acc.dt_server is Some ==> spec_parse_sonrs_loop(toks, pos, acc) == Ok::<(SonrsView, int), ErrorView>(
            (
                SonrsView {
                    status: acc.status,
                    fi: acc.fi->0,
                    bid: acc.bid,
                    dt_server: acc.dt_server->0,
                    dt_acctup: acc.dt_acctup,
                    language: acc.language,
                    cookie: acc.cookie,
                    user_id: acc.user_id,
                },
                pos + 1,
            ),
        ),
{
    sonrs_tag_facts();
}

/// A token that is neither a field tag of SONRS nor its terminator fails
/// the decode at once with `UnexpectedToken` naming the token and the
/// enclosing record, whatever fields were already seen.
pub proof fn lemma_sonrs_unknown_tag(toks: Seq<Seq<char>>, pos: int, acc: SonrsPartial)
    requires
        0 <= pos < toks.len(),
        toks[pos] != "STATUS"@,
        toks[pos] != "DTSERVER"@,
        toks[pos] != "DTACCTUP"@,
        toks[pos] != "LANGUAGE"@,
        toks[pos] != "FI"@,
        toks[pos] != "INTU.BID"@,
        toks[pos] != "INTU.USERID"@,
        toks[pos] != "SESSCOOKIE"@,
        toks[pos] != "/SONRS"@,
    ensures
        spec_parse_sonrs_loop(toks, pos, acc) == Err::<(SonrsView, int), ErrorView>(
            ErrorView::UnexpectedToken(
                "Found unexpected token "@ + toks[pos] + " in the SONRS type"@,
            ),
        ),
{
}

/// A stream that is exhausted before the SONRS terminator fails with
/// `UnexpectedEOF` naming the terminator still awaited, whatever fields
/// were already seen.
pub proof fn lemma_sonrs_truncated(toks: Seq<Seq<char>>, pos: int, acc: SonrsPartial)
    requires
        pos >= toks.len(),
    ensures
        spec_parse_sonrs_loop(toks, pos, acc) == Err::<(SonrsView, int), ErrorView>(
            ErrorView::UnexpectedEOF("Found unexpected EOF. Was still expecting the '/SONRS' token"@),
        ),
{
}

/// A stream truncated right after a value field's tag of SONRS fails
/// with `UnexpectedEOF` naming that field, whatever fields were
/// already seen.
pub proof fn lemma_sonrs_truncated_after_tag(toks: Seq<Seq<char>>, pos: int, acc: SonrsPartial)
    requires
        0 <= pos,
        pos + 1 == toks.len(),
    ensures
        toks[pos] == "DTSERVER"@ ==> spec_parse_sonrs_loop(toks, pos, acc) == Err::<(SonrsView, int), ErrorView>(
            ErrorView::UnexpectedEOF("Expected token following the DTSERVER token"@),
        ),
        toks[pos] == "DTACCTUP"@ ==> spec_parse_sonrs_loop(toks, pos, acc) == Err::<(SonrsView, int), ErrorView>(
            ErrorView::UnexpectedEOF("Expected token following the DTACCTUP token"@),
        ),
        toks[pos] == "LANGUAGE"@ ==> spec_parse_sonrs_loop(toks, pos, acc) == Err::<(SonrsView, int), ErrorView>(
            ErrorView::UnexpectedEOF("Expected token following the LANGUAGE token"@),
        ),
        toks[pos] == "INTU.BID"@ ==> spec_parse_sonrs_loop(toks, pos, acc) == Err::<(SonrsView, int), ErrorView>(
            ErrorView::UnexpectedEOF("Expected token following the INTU.BID token"@),
        ),
        toks[pos] == "INTU.USERID"@ ==> spec_parse_sonrs_loop(toks, pos, acc) == Err::<(SonrsView, int), ErrorView>(
            ErrorView::UnexpectedEOF("Expected token following the INTU.USERID token"@),
        ),
        toks[pos] == "SESSCOOKIE"@ ==> spec_parse_sonrs_loop(toks, pos, acc) == Err::<(SonrsView, int), ErrorView>(
            ErrorView::UnexpectedEOF("Expected token following the SESSCOOKIE token"@),
        ),
{
    sonrs_tag_facts();
}

/// A successful SONRS decode reads only the tokens it consumes: on any
/// stream that agrees with `toks` on `[pos, p)`, the decode returns the
/// same record and the same end position.
#[verifier::rlimit(50)]
pub proof fn lemma_sonrs_frame(
    toks: Seq<Seq<char>>,
    toks2: Seq<Seq<char>>,
    pos: int,
    acc: SonrsPartial,
    v: SonrsView,
    p: int,
)
    requires
        spec_parse_sonrs_loop(toks, pos, acc) == Ok::<(SonrsView, int), ErrorView>((v, p)),
        toks2.len() >= p,
        forall|j: int| pos <= j < p ==> toks2[j] == toks[j],
    ensures
        spec_parse_sonrs_loop(toks2, pos, acc) == Ok::<(SonrsView, int), ErrorView>((v, p)),
    decreases toks.len() - pos,
{
    lemma_spec_parse_sonrs_loop_advances(toks, pos, acc);
    if 0 <= pos < toks.len() {
        let t = toks[pos];
        if t == "STATUS"@ {
            match spec_parse_status(toks, pos + 1) {
                Ok((cv, cp)) => {
                    lemma_spec_parse_status_advances(toks, pos + 1);
                    let acc1 = SonrsPartial { status: Some(cv), ..acc };
                    lemma_spec_parse_sonrs_loop_advances(toks, cp, acc1);
                    lemma_status_frame(toks, toks2, pos + 1, StatusPartial::init(), cv, cp);
                    lemma_sonrs_frame(toks, toks2, cp, acc1, v, p);
                },
                Err(e) => {},
            }
        } else if t == "DTSERVER"@ {
            if pos + 1 < toks.len() {
                match spec_parse_ofx_datetime(toks[pos + 1]) {
                    Some(dt) => {
                        let acc1 = SonrsPartial { dt_server: Some(dt), ..acc };
                        lemma_spec_parse_sonrs_loop_advances(toks, pos + 2, acc1);
                        lemma_sonrs_frame(toks, toks2, pos + 2, acc1, v, p);
                    },
                    None => {},
                }
            }
        } else if t == "DTACCTUP"@ {
            if pos + 1 < toks.len() {
                let acc1 = SonrsPartial { dt_acctup: Some(toks[pos + 1]), ..acc };
                lemma_spec_parse_sonrs_loop_advances(toks, pos + 2, acc1);
                lemma_sonrs_frame(toks, toks2, pos + 2, acc1, v, p);
            }
        } else if t == "LANGUAGE"@ {
            if pos + 1 < toks.len() {
                let acc1 = SonrsPartial { language: Some(toks[pos + 1]), ..acc };
                lemma_spec_parse_sonrs_loop_advances(toks, pos + 2, acc1);
                lemma_sonrs_frame(toks, toks2, pos + 2, acc1, v, p);
            }
        } else if t == "FI"@ {
            match spec_parse_financial_institution(toks, pos + 1) {
                Ok((cv, cp)) => {
                    lemma_spec_parse_financial_institution_advances(toks, pos + 1);
                    let acc1 = SonrsPartial { fi: Some(cv), ..acc };
                    lemma_spec_parse_sonrs_loop_advances(toks, cp, acc1);
                    lemma_financial_institution_frame(toks, toks2, pos + 1, FinancialInstitutionPartial::init(), cv, cp);
                    lemma_sonrs_frame(toks, toks2, cp, acc1, v, p);
                },
                Err(e) => {},
            }
        } else if t == "INTU.BID"@ {
            if pos + 1 < toks.len() {
                let acc1 = SonrsPartial { bid: Some(toks[pos + 1]), ..acc };
                lemma_spec_parse_sonrs_loop_advances(toks, pos + 2, acc1);
                lemma_sonrs_frame(toks, toks2, pos + 2, acc1, v, p);
            }
        } else if t == "INTU.USERID"@ {
            if pos + 1 < toks.len() {
                let acc1 = SonrsPartial { user_id: Some(toks[pos + 1]), ..acc };
                lemma_spec_parse_sonrs_loop_advances(toks, pos + 2, acc1);
                lemma_sonrs_frame(toks, toks2, pos + 2, acc1, v, p);
            }
        } else if t == "SESSCOOKIE"@ {
            if pos + 1 < toks.len() {
                let acc1 = SonrsPartial { cookie: Some(toks[pos + 1]), ..acc };
                lemma_spec_parse_sonrs_loop_advances(toks, pos + 2, acc1);
                lemma_sonrs_frame(toks, toks2, pos + 2, acc1, v, p);
            }
        }
    }
}

/// Truncating the token stream of a successful SONRS decode anywhere
/// before the position past its terminator yields `UnexpectedEOF`,
/// whatever fields were already seen.
#[verifier::rlimit(50)]
pub proof fn lemma_sonrs_truncated_before_terminator(
    toks: Seq<Seq<char>>,
    pos: int,
    acc: SonrsPartial,
    cut: int,
    v: SonrsView,
    p: int,
)
    requires
        spec_parse_sonrs_loop(toks, pos, acc) == Ok::<(SonrsView, int), ErrorView>((v, p)),
        pos <= cut < p,
    ensures
        spec_parse_sonrs_loop(toks.subrange(0, cut), pos, acc) matches Err(ErrorView::UnexpectedEOF(_)),
    decreases toks.len() - pos,
{
    lemma_spec_parse_sonrs_loop_advances(toks, pos, acc);
    let toks2 = toks.subrange(0, cut);
    if cut > pos {
        let t = toks[pos];
        if t == "STATUS"@ {
            match spec_parse_status(toks, pos + 1) {
                Ok((cv, cp)) => {
                    lemma_spec_parse_status_advances(toks, pos + 1);
                    let acc1 = SonrsPartial { status: Some(cv), ..acc };
                    lemma_spec_parse_sonrs_loop_advances(toks, cp, acc1);
                    if cut < cp {
                        lemma_status_truncated_before_terminator(toks, pos + 1, StatusPartial::init(), cut, cv, cp);
                    } else {
                        lemma_status_frame(toks, toks2, pos + 1, StatusPartial::init(), cv, cp);
                        lemma_sonrs_truncated_before_terminator(toks, cp, acc1, cut, v, p);
                    }
                },
                Err(e) => {},
            }
        } else if t == "DTSERVER"@ {
            if pos + 1 < toks.len() {
                match spec_parse_ofx_datetime(toks[pos + 1]) {
                    Some(dt) => {
                        if cut > pos + 1 {
                            let acc1 = SonrsPartial { dt_server: Some(dt), ..acc };
                            lemma_spec_parse_sonrs_loop_advances(toks, pos + 2, acc1);
                            lemma_sonrs_truncated_before_terminator(toks, pos + 2, acc1, cut, v, p);
                        }
                    },
                    None => {},
                }
            }
        } else if t == "DTACCTUP"@ {
            if pos + 1 < toks.len() && cut > pos + 1 {
                let acc1 = SonrsPartial { dt_acctup: Some(toks[pos + 1]), ..acc };
                lemma_spec_parse_sonrs_loop_advances(toks, pos + 2, acc1);
                lemma_sonrs_truncated_before_terminator(toks, pos + 2, acc1, cut, v, p);
            }
        } else if t == "LANGUAGE"@ {
            if pos + 1 < toks.len() && cut > pos + 1 {
                let acc1 = SonrsPartial { language: Some(toks[pos + 1]), ..acc };
                lemma_spec_parse_sonrs_loop_advances(toks, pos + 2, acc1);
                lemma_sonrs_truncated_before_terminator(toks, pos + 2, acc1, cut, v, p);
            }
        } else if t == "FI"@ {
            match spec_parse_financial_institution(toks, pos + 1) {
                Ok((cv, cp)) => {
                    lemma_spec_parse_financial_institution_advances(toks, pos + 1);
                    let acc1 = SonrsPartial { fi: Some(cv), ..acc };
                    lemma_spec_parse_sonrs_loop_advances(toks, cp, acc1);
                    if cut < cp {
                        lemma_financial_institution_truncated_before_terminator(toks, pos + 1, FinancialInstitutionPartial::init(), cut, cv, cp);
                    } else {
                        lemma_financial_institution_frame(toks, toks2, pos + 1, FinancialInstitutionPartial::init(), cv, cp);
                        lemma_sonrs_truncated_before_terminator(toks, cp, acc1, cut, v, p);
                    }
                },
                Err(e) => {},
            }
        } else if t == "INTU.BID"@ {
            if pos + 1 < toks.len() && cut > pos + 1 {
                let acc1 = SonrsPartial { bid: Some(toks[pos + 1]), ..acc };
                lemma_spec_parse_sonrs_loop_advances(toks, pos + 2, acc1);
                lemma_sonrs_truncated_before_terminator(toks, pos + 2, acc1, cut, v, p);
            }
        } else if t == "INTU.USERID"@ {
            if pos + 1 < toks.len() && cut > pos + 1 {
                let acc1 = SonrsPartial { user_id: Some(toks[pos + 1]), ..acc };
                lemma_spec_parse_sonrs_loop_advances(toks, pos + 2, acc1);
                lemma_sonrs_truncated_before_terminator(toks, pos + 2, acc1, cut, v, p);
            }
        } else if t == "SESSCOOKIE"@ {
            if pos + 1 < toks.len() && cut > pos + 1 {
                let acc1 = SonrsPartial { cookie: Some(toks[pos + 1]), ..acc };
                lemma_spec_parse_sonrs_loop_advances(toks, pos + 2, acc1);
                lemma_sonrs_truncated_before_terminator(toks, pos + 2, acc1, cut, v, p);
            }
        }
    }
}

proof fn sign_on_msg_srs_v1_tag_facts()
    ensures
        "SONRS"@ != "/SIGNONMSGSRSV1"@,
{
    reveal_strlit("/SIGNONMSGSRSV1");
    reveal_strlit("SONRS");
    assert("/SIGNONMSGSRSV1"@.len() == 15);
    assert("SONRS"@.len() == 5);
}

/// A well-formed minimal SIGNONMSGSRSV1 instance — only required fields, then the
/// terminator — decodes successfully, with every optional field absent.
pub proof fn lemma_sign_on_msg_srs_v1_minimal(toks: Seq<Seq<char>>, pos: int, v_sonrs: SonrsView, p_sonrs: int)
    requires
        0 <= pos,
        pos < toks.len(),
        toks[pos] == "SONRS"@,
        spec_parse_sonrs(toks, pos + 1) == Ok::<(SonrsView, int), ErrorView>((v_sonrs, p_sonrs)),
        p_sonrs < toks.len(),
        toks[p_sonrs] == "/SIGNONMSGSRSV1"@,
    ensures
        spec_parse_sign_on_msg_srs_v1(toks, pos) == Ok::<(SignOnMsgSrsV1View, int), ErrorView>(
            (
                SignOnMsgSrsV1View {
                    sonrs: v_sonrs,
                },
                p_sonrs + 1,
            ),
        ),
{
    sign_on_msg_srs_v1_tag_facts();
    lemma_spec_parse_sonrs_advances(toks, pos + 1);
    assert(spec_parse_sign_on_msg_srs_v1_loop(
        toks,
        pos,
        SignOnMsgSrsV1Partial {
            sonrs: None,
        },
    ) == spec_parse_sign_on_msg_srs_v1_loop(
        toks,
        p_sonrs,
        SignOnMsgSrsV1Partial {
            sonrs: Some(v_sonrs),
        },
    ));
}

/// Omitting the required SONRS field of a SIGNONMSGSRSV1 record, while keeping the
/// other required fields and the terminator, fails with
/// `MissingRequiredValue` naming that field.
pub proof fn lemma_sign_on_msg_srs_v1_missing_sonrs(toks: Seq<Seq<char>>, pos: int)
    requires
        0 <= pos,
        pos < toks.len(),
        toks[pos] == "/SIGNONMSGSRSV1"@,
    ensures
        spec_parse_sign_on_msg_srs_v1(toks, pos) == Err::<(SignOnMsgSrsV1View, int), ErrorView>(
            ErrorView::MissingRequiredValue("Missing value SONRS in SIGNONMSGSRSV1"@),
        ),
{
    sign_on_msg_srs_v1_tag_facts();
}

/// At the SIGNONMSGSRSV1 terminator, the decode fails with `MissingRequiredValue`
/// naming the first required field, in schema order, that was never
/// set — whatever fields were seen before it and in whatever order —
/// and succeeds with exactly the fields seen once every required
/// field is set, absent optional fields staying absent.
pub proof fn lemma_sign_on_msg_srs_v1_at_terminator(toks: Seq<Seq<char>>, pos: int, acc: SignOnMsgSrsV1Partial)
    requires
        0 <= pos < toks.len(),
        toks[pos] == "/SIGNONMSGSRSV1"@,
    ensures
        acc.sonrs is None ==> spec_parse_sign_on_msg_srs_v1_loop(toks, pos, acc) == Err::<(SignOnMsgSrsV1View, int), ErrorView>(
            ErrorView::MissingRequiredValue("Missing value SONRS in SIGNONMSGSRSV1"@),
        ),
        acc.sonrs is Some ==> spec_parse_sign_on_msg_srs_v1_loop(toks, pos, acc) == Ok::<(SignOnMsgSrsV1View, int), ErrorView>(
            (
                SignOnMsgSrsV1View {
                    sonrs: acc.sonrs->0,
                },
                pos + 1,
            ),
        ),
{
    sign_on_msg_srs_v1_tag_facts();
}

/// A token that is neither a field tag of SIGNONMSGSRSV1 nor its terminator fails
/// the decode at once with `UnexpectedToken` naming the token and the
/// enclosing record, whatever fields were already seen.
pub proof fn lemma_sign_on_msg_srs_v1_unknown_tag(toks: Seq<Seq<char>>, pos: int, acc: SignOnMsgSrsV1Partial)
    requires
        0 <= pos < toks.len(),
        toks[pos] != "SONRS"@,
        toks[pos] != "/SIGNONMSGSRSV1"@,
    ensures
        spec_parse_sign_on_msg_srs_v1_loop(toks, pos, acc) == Err::<(SignOnMsgSrsV1View, int), ErrorView>(
            ErrorView::UnexpectedToken(
                "Found unexpected token "@ + toks[pos] + " in the SIGNONMSGSRSV1 type"@,
            ),
        ),
{
}

/// A stream that is exhausted before the SIGNONMSGSRSV1 terminator fails with
/// `UnexpectedEOF` naming the terminator still awaited, whatever fields
/// were already seen.
pub proof fn lemma_sign_on_msg_srs_v1_truncated(toks: Seq<Seq<char>>, pos: int, acc: SignOnMsgSrsV1Partial)
    requires
        pos >= toks.len(),
    ensures
        spec_parse_sign_on_msg_srs_v1_loop(toks, pos, acc) == Err::<(SignOnMsgSrsV1View, int), ErrorView>(
            ErrorView::UnexpectedEOF("Found unexpected EOF. Was still expecting the '/SIGNONMSGSRSV1' token"@),
        ),
{
}

/// A successful SIGNONMSGSRSV1 decode reads only the tokens it consumes: on any
/// stream that agrees with `toks` on `[pos, p)`, the decode returns the
/// same record and the same end position.
#[verifier::rlimit(50)]
pub proof fn lemma_sign_on_msg_srs_v1_frame(
    toks: Seq<Seq<char>>,
    toks2: Seq<Seq<char>>,
    pos: int,
    acc: SignOnMsgSrsV1Partial,
    v: SignOnMsgSrsV1View,
    p: int,
)
    requires
        spec_parse_sign_on_msg_srs_v1_loop(toks, pos, acc) == Ok::<(SignOnMsgSrsV1View, int), ErrorView>((v, p)),
        toks2.len() >= p,
        forall|j: int| pos <= j < p ==> toks2[j] == toks[j],
    ensures
        spec_parse_sign_on_msg_srs_v1_loop(toks2, pos, acc) == Ok::<(SignOnMsgSrsV1View, int), ErrorView>((v, p)),
    decreases toks.len() - pos,
{
    lemma_spec_parse_sign_on_msg_srs_v1_loop_advances(toks, pos, acc);
    if 0 <= pos < toks.len() {
        let t = toks[pos];
        if t == "SONRS"@ {
            match spec_parse_sonrs(toks, pos + 1) {
                Ok((cv, cp)) => {
                    lemma_spec_parse_sonrs_advances(toks, pos + 1);
                    let acc1 = SignOnMsgSrsV1Partial { sonrs: Some(cv), ..acc };
                    lemma_spec_parse_sign_on_msg_srs_v1_loop_advances(toks, cp, acc1);
                    lemma_sonrs_frame(toks, toks2, pos + 1, SonrsPartial::init(), cv, cp);
                    lemma_sign_on_msg_srs_v1_frame(toks, toks2, cp, acc1, v, p);
                },
                Err(e) => {},
            }
        }
    }
}

/// Truncating the token stream of a successful SIGNONMSGSRSV1 decode anywhere
/// before the position past its terminator yields `UnexpectedEOF`,
/// whatever fields were already seen.
#[verifier::rlimit(50)]
pub proof fn lemma_sign_on_msg_srs_v1_truncated_before_terminator(
    toks: Seq<Seq<char>>,
    pos: int,
    acc: SignOnMsgSrsV1Partial,
    cut: int,
    v: SignOnMsgSrsV1View,
    p: int,
)
    requires
        spec_parse_sign_on_msg_srs_v1_loop(toks, pos, acc) == Ok::<(SignOnMsgSrsV1View, int), ErrorView>((v, p)),
        pos <= cut < p,
    ensures
        spec_parse_sign_on_msg_srs_v1_loop(toks.subrange(0, cut), pos, acc) matches Err(ErrorView::UnexpectedEOF(_)),
    decreases toks.len() - pos,
{
    lemma_spec_parse_sign_on_msg_srs_v1_loop_advances(toks, pos, acc);
    let toks2 = toks.subrange(0, cut);
    if cut > pos {
        let t = toks[pos];
        if t == "SONRS"@ {
            match spec_parse_sonrs(toks, pos + 1) {
                Ok((cv, cp)) => {
                    lemma_spec_parse_sonrs_advances(toks, pos + 1);
                    let acc1 = SignOnMsgSrsV1Partial { sonrs: Some(cv), ..acc };
                    lemma_spec_parse_sign_on_msg_srs_v1_loop_advances(toks, cp, acc1);
                    if cut < cp {
                        lemma_sonrs_truncated_before_terminator(toks, pos + 1, SonrsPartial::init(), cut, cv, cp);
                    } else {
                        lemma_sonrs_frame(toks, toks2, pos + 1, SonrsPartial::init(), cv, cp);
                        lemma_sign_on_msg_srs_v1_truncated_before_terminator(toks, cp, acc1, cut, v, p);
                    }
                },
                Err(e) => {},
            }
        }
    }
}

proof fn qfx_tag_facts()
    ensures
        "SIGNONMSGSRSV1"@ != "CREDITCARDMSGSRSV1"@,
        "SIGNONMSGSRSV1"@ != "BANKMSGSRSV1"@,
        "SIGNONMSGSRSV1"@ != "/OFX"@,
        "CREDITCARDMSGSRSV1"@ != "BANKMSGSRSV1"@,
        "CREDITCARDMSGSRSV1"@ != "/OFX"@,
        "BANKMSGSRSV1"@ != "/OFX"@,
{
    reveal_strlit("/OFX");
    reveal_strlit("BANKMSGSRSV1");
    reveal_strlit("CREDITCARDMSGSRSV1");
    reveal_strlit("SIGNONMSGSRSV1");
    assert("/OFX"@.len() == 4);
    assert("BANKMSGSRSV1"@.len() == 12);
    assert("CREDITCARDMSGSRSV1"@.len() == 18);
    assert("SIGNONMSGSRSV1"@.len() == 14);
}

/// A well-formed minimal OFX instance — only required fields, then the
/// terminator — decodes successfully, with every optional field absent.
pub proof fn lemma_qfx_minimal(toks: Seq<Seq<char>>, pos: int)
    requires
        0 <= pos,
        pos < toks.len(),
        toks[pos] == "/OFX"@,
    ensures
        spec_parse_qfx(toks, pos) == Ok::<(QFXView, int), ErrorView>(
            (
                QFXView {
                    sign_on_msg_srs_v1: None,
                    credit_card_msg_srs_v1: None,
                    bank_msg_srs_v1: None,
                },
                pos + 1,
            ),
        ),
{
    qfx_tag_facts();
}

/// At the OFX terminator, the decode fails with `MissingRequiredValue`
/// naming the first required field, in schema order, that was never
/// set — whatever fields were seen before it and in whatever order —
/// and succeeds with exactly the fields seen once every required
/// field is set, absent optional fields staying absent.
pub proof fn lemma_qfx_at_terminator(toks: Seq<Seq<char>>, pos: int, acc: QFXView)
    requires
        0 <= pos < toks.len(),
        toks[pos] == "/OFX"@,
    ensures
        spec_parse_qfx_loop(toks, pos, acc) == Ok::<(QFXView, int), ErrorView>(
            (
                QFXView {
                    sign_on_msg_srs_v1: acc.sign_on_msg_srs_v1,
                    credit_card_msg_srs_v1: acc.credit_card_msg_srs_v1,
                    bank_msg_srs_v1: acc.bank_msg_srs_v1,
                },
                pos + 1,
            ),
        ),
{
    qfx_tag_facts();
}

/// A token that is neither a field tag of OFX nor its terminator fails
/// the decode at once with `UnexpectedToken` naming the token and the
/// enclosing record, whatever fields were already seen.
pub proof fn lemma_qfx_unknown_tag(toks: Seq<Seq<char>>, pos: int, acc: QFXView)
    requires
        0 <= pos < toks.len(),
        toks[pos] != "SIGNONMSGSRSV1"@,
        toks[pos] != "CREDITCARDMSGSRSV1"@,
        toks[pos] != "BANKMSGSRSV1"@,
        toks[pos] != "/OFX"@,
    ensures
        spec_parse_qfx_loop(toks, pos, acc) == Err::<(QFXView, int), ErrorView>(
            ErrorView::UnexpectedToken(
                "Found unexpected input in the OFX tag, Found Token: "@ + toks[pos],
            ),
        ),
{
}

/// A stream that is exhausted before the OFX terminator fails with
/// `UnexpectedEOF` naming the terminator still awaited, whatever fields
/// were already seen.
pub proof fn lemma_qfx_truncated(toks: Seq<Seq<char>>, pos: int, acc: QFXView)
    requires
        pos >= toks.len(),
    ensures
        spec_parse_qfx_loop(toks, pos, acc) == Err::<(QFXView, int), ErrorView>(
            ErrorView::UnexpectedEOF("Found unexpected EOF. Was still expecting the '/OFX' token to end parsing"@),
        ),
{
}

/// A successful OFX decode reads only the tokens it consumes: on any
/// stream that agrees with `toks` on `[pos, p)`, the decode returns the
/// same record and the same end position.
#[verifier::rlimit(50)]
pub proof fn lemma_qfx_frame(
    toks: Seq<Seq<char>>,
    toks2: Seq<Seq<char>>,
    pos: int,
    acc: QFXView,
    v: QFXView,
    p: int,
)
    requires
        spec_parse_qfx_loop(toks, pos, acc) == Ok::<(QFXView, int), ErrorView>((v, p)),
        toks2.len() >= p,
        forall|j: int| pos <= j < p ==> toks2[j] == toks[j],
    ensures
        spec_parse_qfx_loop(toks2, pos, acc) == Ok::<(QFXView, int), ErrorView>((v, p)),
    decreases toks.len() - pos,
{
    lemma_spec_parse_qfx_loop_advances(toks, pos, acc);
    if 0 <= pos < toks.len() {
        let t = toks[pos];
        if t == "SIGNONMSGSRSV1"@ {
            if acc.sign_on_msg_srs_v1 is None {
            match spec_parse_sign_on_msg_srs_v1(toks, pos + 1) {
                Ok((cv, cp)) => {
                    lemma_spec_parse_sign_on_msg_srs_v1_advances(toks, pos + 1);
                    let acc1 = QFXView { sign_on_msg_srs_v1: Some(cv), ..acc };
                    lemma_spec_parse_qfx_loop_advances(toks, cp, acc1);
                    lemma_sign_on_msg_srs_v1_frame(toks, toks2, pos + 1, SignOnMsgSrsV1Partial::init(), cv, cp);
                    lemma_qfx_frame(toks, toks2, cp, acc1, v, p);
                },
                Err(e) => {},
            }
            }
        } else if t == "CREDITCARDMSGSRSV1"@ {
            match spec_parse_cc_msg_srs_v1(toks, pos + 1) {
                Ok((cv, cp)) => {
                    lemma_spec_parse_cc_msg_srs_v1_advances(toks, pos + 1);
                    let acc1 = QFXView { credit_card_msg_srs_v1: Some(cv), ..acc };
                    lemma_spec_parse_qfx_loop_advances(toks, cp, acc1);
                    lemma_cc_msg_srs_v1_frame(toks, toks2, pos + 1, CCMsgSrsV1Partial::init(), cv, cp);
                    lemma_qfx_frame(toks, toks2, cp, acc1, v, p);
                },
                Err(e) => {},
            }
        } else if t == "BANKMSGSRSV1"@ {
            if acc.bank_msg_srs_v1 is None {
            match spec_parse_bank_msg_srs_v1(toks, pos + 1) {
                Ok((cv, cp)) => {
                    lemma_spec_parse_bank_msg_srs_v1_advances(toks, pos + 1);
                    let acc1 = QFXView { bank_msg_srs_v1: Some(cv), ..acc };
                    lemma_spec_parse_qfx_loop_advances(toks, cp, acc1);
                    lemma_bank_msg_srs_v1_frame(toks, toks2, pos + 1, BankMsgSrsV1Partial::init(), cv, cp);
                    lemma_qfx_frame(toks, toks2, cp, acc1, v, p);
                },
                Err(e) => {},
            }
            }
        }
    }
}

/// Truncating the token stream of a successful OFX decode anywhere
/// before the position past its terminator yields `UnexpectedEOF`,
/// whatever fields were already seen.
#[verifier::rlimit(50)]
pub proof fn lemma_qfx_truncated_before_terminator(
    toks: Seq<Seq<char>>,
    pos: int,
    acc: QFXView,
    cut: int,
    v: QFXView,
    p: int,
)
    requires
        spec_parse_qfx_loop(toks, pos, acc) == Ok::<(QFXView, int), ErrorView>((v, p)),
        pos <= cut < p,
    ensures
        spec_parse_qfx_loop(toks.subrange(0, cut), pos, acc) matches Err(ErrorView::UnexpectedEOF(_)),
    decreases toks.len() - pos,
{
    lemma_spec_parse_qfx_loop_advances(toks, pos, acc);
    let toks2 = toks.subrange(0, cut);
    if cut > pos {
        let t = toks[pos];
        if t == "SIGNONMSGSRSV1"@ {
            if acc.sign_on_msg_srs_v1 is None {
            match spec_parse_sign_on_msg_srs_v1(toks, pos + 1) {
                Ok((cv, cp)) => {
                    lemma_spec_parse_sign_on_msg_srs_v1_advances(toks, pos + 1);
                    let acc1 = QFXView { sign_on_msg_srs_v1: Some(cv), ..acc };
                    lemma_spec_parse_qfx_loop_advances(toks, cp, acc1);
                    if cut < cp {
                        lemma_sign_on_msg_srs_v1_truncated_before_terminator(toks, pos + 1, SignOnMsgSrsV1Partial::init(), cut, cv, cp);
                    } else {
                        lemma_sign_on_msg_srs_v1_frame(toks, toks2, pos + 1, SignOnMsgSrsV1Partial::init(), cv, cp);
                        lemma_qfx_truncated_before_terminator(toks, cp, acc1, cut, v, p);
                    }
                },
                Err(e) => {},
            }
            }
        } else if t == "CREDITCARDMSGSRSV1"@ {
            match spec_parse_cc_msg_srs_v1(toks, pos + 1) {
                Ok((cv, cp)) => {
                    lemma_spec_parse_cc_msg_srs_v1_advances(toks, pos + 1);
                    let acc1 = QFXView { credit_card_msg_srs_v1: Some(cv), ..acc };
                    lemma_spec_parse_qfx_loop_advances(toks, cp, acc1);
                    if cut < cp {
                        lemma_cc_msg_srs_v1_truncated_before_terminator(toks, pos + 1, CCMsgSrsV1Partial::init(), cut, cv, cp);
                    } else {
                        lemma_cc_msg_srs_v1_frame(toks, toks2, pos + 1, CCMsgSrsV1Partial::init(), cv, cp);
                        lemma_qfx_truncated_before_terminator(toks, cp, acc1, cut, v, p);
                    }
                },
                Err(e) => {},
            }
        } else if t == "BANKMSGSRSV1"@ {
            if acc.bank_msg_srs_v1 is None {
            match spec_parse_bank_msg_srs_v1(toks, pos + 1) {
                Ok((cv, cp)) => {
                    lemma_spec_parse_bank_msg_srs_v1_advances(toks, pos + 1);
                    let acc1 = QFXView { bank_msg_srs_v1: Some(cv), ..acc };
                    lemma_spec_parse_qfx_loop_advances(toks, cp, acc1);
                    if cut < cp {
                        lemma_bank_msg_srs_v1_truncated_before_terminator(toks, pos + 1, BankMsgSrsV1Partial::init(), cut, cv, cp);
                    } else {
                        lemma_bank_msg_srs_v1_frame(toks, toks2, pos + 1, BankMsgSrsV1Partial::init(), cv, cp);
                        lemma_qfx_truncated_before_terminator(toks, cp, acc1, cut, v, p);
                    }
                },
                Err(e) => {},
            }
            }
        }
    }
}

/// A repeated sign-on section is a decode error, not a merge: once the
/// sign-on section is set, meeting its tag again fails with
/// `UnexpectedToken`.
pub proof fn lemma_qfx_repeated_sign_on_rejected(toks: Seq<Seq<char>>, pos: int, acc: QFXView)
    requires
        0 <= pos < toks.len(),
        toks[pos] == "SIGNONMSGSRSV1"@,
        acc.sign_on_msg_srs_v1 is Some,
    ensures
        spec_parse_qfx_loop(toks, pos, acc) == Err::<(QFXView, int), ErrorView>(
            ErrorView::UnexpectedToken("The value for sign on message srs v1 is already set"@),
        ),
{
}

/// A repeated bank section is a decode error, not a merge: once the bank
/// section is set, meeting its tag again fails with `UnexpectedToken`.
pub proof fn lemma_qfx_repeated_bank_rejected(toks: Seq<Seq<char>>, pos: int, acc: QFXView)
    requires
        0 <= pos < toks.len(),
        toks[pos] == "BANKMSGSRSV1"@,
        acc.bank_msg_srs_v1 is Some,
    ensures
        spec_parse_qfx_loop(toks, pos, acc) == Err::<(QFXView, int), ErrorView>(
            ErrorView::UnexpectedToken("The value for bank message srs v1 is already set"@),
        ),
{
    qfx_tag_facts();
}

/// A repeated credit-card section is not rejected: a second occurrence
/// silently replaces the first — the format's established, if inconsistent,
/// behaviour.
pub proof fn lemma_qfx_repeated_credit_card_overwrites(
    toks: Seq<Seq<char>>,
    pos: int,
    acc: QFXView,
    v: CCMsgSrsV1View,
    p2: int,
)
    requires
        0 <= pos < toks.len(),
        toks[pos] == "CREDITCARDMSGSRSV1"@,
        spec_parse_cc_msg_srs_v1(toks, pos + 1) == Ok::<(CCMsgSrsV1View, int), ErrorView>(
            (v, p2),
        ),
    ensures
        spec_parse_qfx_loop(toks, pos, acc) == spec_parse_qfx_loop(
            toks,
            p2,
            QFXView { credit_card_msg_srs_v1: Some(v), ..acc },
        ),
{
    qfx_tag_facts();
}

} // verus!
