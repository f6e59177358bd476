//! The bank message set: a statement transaction response wrapping the
//! statement body, the account it is for, and its transaction list.

use vstd::prelude::*;
use crate::errors::ErrorView;
use crate::errors::QFXParsingError;
use crate::errors::concat3;
use crate::records::AvailableBalance;
use crate::records::AvailableBalanceView;
use crate::records::BankTranList;
use crate::records::BankTranListView;
use crate::records::LedgerBal;
use crate::records::LedgerBalView;
use crate::records::Status;
use crate::records::StatusView;
use crate::records::lemma_spec_parse_avail_bal_advances;
use crate::records::lemma_spec_parse_bank_tran_list_advances;
use crate::records::lemma_spec_parse_ledger_bal_advances;
use crate::records::lemma_spec_parse_status_advances;
use crate::records::spec_parse_avail_bal;
use crate::records::spec_parse_bank_tran_list;
use crate::records::spec_parse_ledger_bal;
use crate::records::spec_parse_status;
use crate::tokenizer::TokenCursor;
use crate::tokenizer::str_eq;

verus! {

/// The bank account a statement is for: account id, account type and
/// optional routing id.
#[derive(Clone, Debug, PartialEq, Eq)]
pub struct Bankacctfrom {
    pub acct_id: String,
    pub acct_type: String,
    pub bank_id: Option<String>,
}

/// Mathematical mirror of [`Bankacctfrom`].
pub struct BankacctfromView {
    pub acct_id: Seq<char>,
    pub acct_type: Seq<char>,
    pub bank_id: Option<Seq<char>>,
}

impl View for Bankacctfrom {
    type V = BankacctfromView;

    open spec fn view(&self) -> BankacctfromView {
        BankacctfromView {
            acct_id: self.acct_id@,
            acct_type: self.acct_type@,
            bank_id: self.bank_id.deep_view(),
        }
    }
}

impl DeepView for Bankacctfrom {
    type V = BankacctfromView;

    open spec fn deep_view(&self) -> BankacctfromView {
        self.view()
    }
}

/// Field state of a BANKACCTFROM record while its tokens are being consumed.
pub struct BankacctfromPartial {
    pub acct_id: Option<Seq<char>>,
    pub acct_type: Option<Seq<char>>,
    pub bank_id: Option<Seq<char>>,
}

impl BankacctfromPartial {
    /// All fields still unset.
    pub open spec fn init() -> BankacctfromPartial {
        BankacctfromPartial { acct_id: None, acct_type: None, bank_id: None }
    }
}

/// One step of decoding a BANKACCTFROM record from `toks[pos..]`.
pub open spec fn spec_parse_bankacctfrom_loop(toks: Seq<Seq<char>>, pos: int, acc: BankacctfromPartial) -> Result<
    (BankacctfromView, int),
    ErrorView,
>
    decreases toks.len() - pos,
{
    if pos < 0 || pos >= toks.len() {
        Err(ErrorView::UnexpectedEOF("Found unexpected EOF. Was still expecting the '/BANKACCTFROM' token"@))
    } else {
        let t = toks[pos];
        if t == "ACCTID"@ {
            if pos + 1 < toks.len() {
                spec_parse_bankacctfrom_loop(
                    toks,
                    pos + 2,
                    BankacctfromPartial { acct_id: Some(toks[pos + 1]), ..acc },
                )
            } else {
                Err(ErrorView::UnexpectedEOF("Expected token following the ACCTID token"@))
            }
        } else if t == "ACCTTYPE"@ {
            if pos + 1 < toks.len() {
                spec_parse_bankacctfrom_loop(
                    toks,
                    pos + 2,
                    BankacctfromPartial { acct_type: Some(toks[pos + 1]), ..acc },
                )
            } else {
                Err(ErrorView::UnexpectedEOF("Expected token following the ACCTTYPE token"@))
            }
        } else if t == "BANKID"@ {
            if pos + 1 < toks.len() {
                spec_parse_bankacctfrom_loop(
                    toks,
                    pos + 2,
                    BankacctfromPartial { bank_id: Some(toks[pos + 1]), ..acc },
                )
            } else {
                Err(ErrorView::UnexpectedEOF("Expected token following the BANKID token"@))
            }
        } else if t == "/BANKACCTFROM"@ {
            match acc.acct_id {
                None => Err(ErrorView::MissingRequiredValue("ACCTID is a required value in BANKACCTFROM"@)),
                Some(acct_id) => {
                    match acc.acct_type {
                        None => Err(ErrorView::MissingRequiredValue("ACCTTYPE is a required value in BANKACCTFROM"@)),
                        Some(acct_type) => {
                            Ok(
                                (
                                    BankacctfromView {
                                        acct_id,
                                        acct_type,
                                        bank_id: acc.bank_id,
                                    },
                                    pos + 1,
                                ),
                            )
                        },
                    }
                },
            }
        } else {
            Err(
                ErrorView::UnexpectedToken(
                    "Found unexpected token "@ + t + " in the BANKACCTFROM type"@,
                ),
            )
        }
    }
}

/// The BANKACCTFROM record decoded from `toks[pos..]`, and the position after
/// its terminator; or the first error.
pub open spec fn spec_parse_bankacctfrom(toks: Seq<Seq<char>>, pos: int) -> Result<
    (BankacctfromView, int),
    ErrorView,
> {
    spec_parse_bankacctfrom_loop(toks, pos, BankacctfromPartial::init())
}

/// A successful BANKACCTFROM decode consumes at least one token and never
/// runs past the end of the stream.
pub proof fn lemma_spec_parse_bankacctfrom_loop_advances(toks: Seq<Seq<char>>, pos: int, acc: BankacctfromPartial)
    ensures
        spec_parse_bankacctfrom_loop(toks, pos, acc) matches Ok((v, p)) ==> pos < p <= toks.len(),
    decreases toks.len() - pos,
{
    if 0 <= pos < toks.len() {
        let t = toks[pos];
        if t == "ACCTID"@ {
            if pos + 1 < toks.len() {
                lemma_spec_parse_bankacctfrom_loop_advances(
                    toks,
                    pos + 2,
                    BankacctfromPartial { acct_id: Some(toks[pos + 1]), ..acc },
                );
            }
        } else if t == "ACCTTYPE"@ {
            if pos + 1 < toks.len() {
                lemma_spec_parse_bankacctfrom_loop_advances(
                    toks,
                    pos + 2,
                    BankacctfromPartial { acct_type: Some(toks[pos + 1]), ..acc },
                );
            }
        } else if t == "BANKID"@ {
            if pos + 1 < toks.len() {
                lemma_spec_parse_bankacctfrom_loop_advances(
                    toks,
                    pos + 2,
                    BankacctfromPartial { bank_id: Some(toks[pos + 1]), ..acc },
                );
            }
        }
    }
}

/// A successful BANKACCTFROM decode consumes at least one token and never
/// runs past the end of the stream.
pub proof fn lemma_spec_parse_bankacctfrom_advances(toks: Seq<Seq<char>>, pos: int)
    ensures
        spec_parse_bankacctfrom(toks, pos) matches Ok((v, p)) ==> pos < p <= toks.len(),
{
    lemma_spec_parse_bankacctfrom_loop_advances(toks, pos, BankacctfromPartial::init());
}

impl Bankacctfrom {
    /// Decodes one BANKACCTFROM record: ACCTID and ACCTTYPE required,
    /// BANKID optional, up to and including the `/BANKACCTFROM` terminator.
    #[verifier::loop_isolation(false)]
    pub fn parse(tokens: &mut TokenCursor) -> (r: Result<Bankacctfrom, QFXParsingError>)
        ensures
            final(tokens)@.toks == old(tokens)@.toks,
            old(tokens)@.pos <= final(tokens)@.pos,
            match r {
                Ok(v) => spec_parse_bankacctfrom(old(tokens)@.toks, old(tokens)@.pos) == Ok::<
                    (BankacctfromView, int),
                    ErrorView,
                >((v@, final(tokens)@.pos)),
                Err(e) => spec_parse_bankacctfrom(old(tokens)@.toks, old(tokens)@.pos) == Err::<
                    (BankacctfromView, int),
                    ErrorView,
                >(e@),
            },
    {
        let ghost toks = tokens@.toks;
        let ghost pos0 = tokens@.pos;
        let mut acct_id: Option<String> = None;
        let mut acct_type: Option<String> = None;
        let mut bank_id: Option<String> = None;
        loop
            invariant
                tokens@.toks == toks,
                pos0 <= tokens@.pos,
                spec_parse_bankacctfrom(toks, pos0) == spec_parse_bankacctfrom_loop(
                    toks,
                    tokens@.pos,
                    BankacctfromPartial {
                        acct_id: acct_id.deep_view(),
                        acct_type: acct_type.deep_view(),
                        bank_id: bank_id.deep_view(),
                    },
                ),
            decreases toks.len() - tokens@.pos,
        {
            match tokens.next() {
                None => {
                    return Err(
                        QFXParsingError::UnexpectedEOF(
                            String::from_str(
                                "Found unexpected EOF. Was still expecting the '/BANKACCTFROM' token",
                            ),
                        ),
                    );
                },
                Some(t) => {
                    if str_eq(t.as_str(), "ACCTID") {
                        match tokens.next() {
                            Some(v) => {
                                acct_id = Some(v);
                            },
                            None => {
                                return Err(
                                    QFXParsingError::UnexpectedEOF(
                                        String::from_str(
                                            "Expected token following the ACCTID token",
                                        ),
                                    ),
                                );
                            },
                        }
                    } else if str_eq(t.as_str(), "ACCTTYPE") {
                        match tokens.next() {
                            Some(v) => {
                                acct_type = Some(v);
                            },
                            None => {
                                return Err(
                                    QFXParsingError::UnexpectedEOF(
                                        String::from_str(
                                            "Expected token following the ACCTTYPE token",
                                        ),
                                    ),
                                );
                            },
                        }
                    } else if str_eq(t.as_str(), "BANKID") {
                        match tokens.next() {
                            Some(v) => {
                                bank_id = Some(v);
                            },
                            None => {
                                return Err(
                                    QFXParsingError::UnexpectedEOF(
                                        String::from_str(
                                            "Expected token following the BANKID token",
                                        ),
                                    ),
                                );
                            },
                        }
                    } else if str_eq(t.as_str(), "/BANKACCTFROM") {
                        let f_acct_id = match acct_id {
                            Some(v) => v,
                            None => {
                                return Err(
                                    QFXParsingError::MissingRequiredValue(
                                        String::from_str("ACCTID is a required value in BANKACCTFROM"),
                                    ),
                                );
                            },
                        };
                        let f_acct_type = match acct_type {
                            Some(v) => v,
                            None => {
                                return Err(
                                    QFXParsingError::MissingRequiredValue(
                                        String::from_str("ACCTTYPE is a required value in BANKACCTFROM"),
                                    ),
                                );
                            },
                        };
                        return Ok(
                            Bankacctfrom {
                                acct_id: f_acct_id,
                                acct_type: f_acct_type,
                                bank_id,
                            },
                        );
                    } else {
                        return Err(
                            QFXParsingError::UnexpectedToken(
                                concat3(
                                    "Found unexpected token ",
                                    t.as_str(),
                                    " in the BANKACCTFROM type",
                                ),
                            ),
                        );
                    }
                },
            }
        }
    }
}

/// The bank statement body: optional currency, the account it is for,
/// the transaction list, and optional ledger and available balances.
#[derive(Clone, Debug, PartialEq, Eq)]
pub struct Stmtrs {
    pub currency: Option<String>,
    pub bankacctfrom: Bankacctfrom,
    pub banktranslist: BankTranList,
    pub ledgerbal: Option<LedgerBal>,
    pub availbal: Option<AvailableBalance>,
}

/// Mathematical mirror of [`Stmtrs`].
pub struct StmtrsView {
    pub currency: Option<Seq<char>>,
    pub bankacctfrom: BankacctfromView,
    pub banktranslist: BankTranListView,
    pub ledgerbal: Option<LedgerBalView>,
    pub availbal: Option<AvailableBalanceView>,
}

impl View for Stmtrs {
    type V = StmtrsView;

    open spec fn view(&self) -> StmtrsView {
        StmtrsView {
            currency: self.currency.deep_view(),
            bankacctfrom: self.bankacctfrom@,
            banktranslist: self.banktranslist@,
            ledgerbal: self.ledgerbal.deep_view(),
            availbal: self.availbal.deep_view(),
        }
    }
}

impl DeepView for Stmtrs {
    type V = StmtrsView;

    open spec fn deep_view(&self) -> StmtrsView {
        self.view()
    }
}

/// Field state of a STMTRS record while its tokens are being consumed.
pub struct StmtrsPartial {
    pub currency: Option<Seq<char>>,
    pub bankacctfrom: Option<BankacctfromView>,
    pub banktranslist: Option<BankTranListView>,
    pub ledgerbal: Option<LedgerBalView>,
    pub availbal: Option<AvailableBalanceView>,
}

impl StmtrsPartial {
    /// All fields still unset.
    pub open spec fn init() -> StmtrsPartial {
        StmtrsPartial { currency: None, bankacctfrom: None, banktranslist: None, ledgerbal: None, availbal: None }
    }
}

/// One step of decoding a STMTRS record from `toks[pos..]`.
pub open spec fn spec_parse_stmtrs_loop(toks: Seq<Seq<char>>, pos: int, acc: StmtrsPartial) -> Result<
    (StmtrsView, int),
    ErrorView,
>
    decreases toks.len() - pos,
    via spec_parse_stmtrs_loop_decreases
{
    if pos < 0 || pos >= toks.len() {
        Err(ErrorView::UnexpectedEOF("Found unexpected EOF. Was still expecting the '/STMTRS'"@))
    } else {
        let t = toks[pos];
        if t == "CURDEF"@ {
            if pos + 1 < toks.len() {
                spec_parse_stmtrs_loop(
                    toks,
                    pos + 2,
                    StmtrsPartial { currency: Some(toks[pos + 1]), ..acc },
                )
            } else {
                Err(ErrorView::UnexpectedEOF("Expected token following the CURDEF token"@))
            }
        } else if t == "BANKACCTFROM"@ {
            match spec_parse_bankacctfrom(toks, pos + 1) {
                Ok((v, p2)) => spec_parse_stmtrs_loop(
                    toks,
                    p2,
                    StmtrsPartial { bankacctfrom: Some(v), ..acc },
                ),
                Err(e) => Err(e),
            }
        } else if t == "BANKTRANLIST"@ {
            match spec_parse_bank_tran_list(toks, pos + 1) {
                Ok((v, p2)) => spec_parse_stmtrs_loop(
                    toks,
                    p2,
                    StmtrsPartial { banktranslist: Some(v), ..acc },
                ),
                Err(e) => Err(e),
            }
        } else if t == "LEDGERBAL"@ {
            match spec_parse_ledger_bal(toks, pos + 1) {
                Ok((v, p2)) => spec_parse_stmtrs_loop(
                    toks,
                    p2,
                    StmtrsPartial { ledgerbal: Some(v), ..acc },
                ),
                Err(e) => Err(e),
            }
        } else if t == "AVAILBAL"@ {
            match spec_parse_avail_bal(toks, pos + 1) {
                Ok((v, p2)) => spec_parse_stmtrs_loop(
                    toks,
                    p2,
                    StmtrsPartial { availbal: Some(v), ..acc },
                ),
                Err(e) => Err(e),
            }
        } else if t == "/STMTRS"@ {
            match acc.bankacctfrom {
                None => Err(ErrorView::MissingRequiredValue("BANKACCTFROM is a required value in STMTRS"@)),
                Some(bankacctfrom) => {
                    match acc.banktranslist {
                        None => Err(ErrorView::MissingRequiredValue("BANKTRANSLIST is a required value in STMTRS"@)),
                        Some(banktranslist) => {
                            Ok(
                                (
                                    StmtrsView {
                                        currency: acc.currency,
                                        bankacctfrom,
                                        banktranslist,
                                        ledgerbal: acc.ledgerbal,
                                        availbal: acc.availbal,
                                    },
                                    pos + 1,
                                ),
                            )
                        },
                    }
                },
            }
        } else {
            Err(
                ErrorView::UnexpectedToken(
                    "Found unexpected token "@ + t + " in the STMTRS type"@,
                ),
            )
        }
    }
}

#[via_fn]
proof fn spec_parse_stmtrs_loop_decreases(toks: Seq<Seq<char>>, pos: int, acc: StmtrsPartial) {
    if 0 <= pos < toks.len() {
        if toks[pos] == "BANKACCTFROM"@ {
            lemma_spec_parse_bankacctfrom_advances(toks, pos + 1);
        }
        if toks[pos] == "BANKTRANLIST"@ {
            lemma_spec_parse_bank_tran_list_advances(toks, pos + 1);
        }
        if toks[pos] == "LEDGERBAL"@ {
            lemma_spec_parse_ledger_bal_advances(toks, pos + 1);
        }
        if toks[pos] == "AVAILBAL"@ {
            lemma_spec_parse_avail_bal_advances(toks, pos + 1);
        }
    }
}

/// The STMTRS record decoded from `toks[pos..]`, and the position after
/// its terminator; or the first error.
pub open spec fn spec_parse_stmtrs(toks: Seq<Seq<char>>, pos: int) -> Result<
    (StmtrsView, int),
    ErrorView,
> {
    spec_parse_stmtrs_loop(toks, pos, StmtrsPartial::init())
}

/// A successful STMTRS decode consumes at least one token and never
/// runs past the end of the stream.
pub proof fn lemma_spec_parse_stmtrs_loop_advances(toks: Seq<Seq<char>>, pos: int, acc: StmtrsPartial)
    ensures
        spec_parse_stmtrs_loop(toks, pos, acc) matches Ok((v, p)) ==> pos < p <= toks.len(),
    decreases toks.len() - pos,
{
    if 0 <= pos < toks.len() {
        let t = toks[pos];
        if t == "CURDEF"@ {
            if pos + 1 < toks.len() {
                lemma_spec_parse_stmtrs_loop_advances(
                    toks,
                    pos + 2,
                    StmtrsPartial { currency: Some(toks[pos + 1]), ..acc },
                );
            }
        } else if t == "BANKACCTFROM"@ {
            lemma_spec_parse_bankacctfrom_advances(toks, pos + 1);
            match spec_parse_bankacctfrom(toks, pos + 1) {
                Ok((v, p2)) => {
                    lemma_spec_parse_stmtrs_loop_advances(
                        toks,
                        p2,
                        StmtrsPartial { bankacctfrom: Some(v), ..acc },
                    );
                },
                Err(e) => {},
            }
        } else if t == "BANKTRANLIST"@ {
            lemma_spec_parse_bank_tran_list_advances(toks, pos + 1);
            match spec_parse_bank_tran_list(toks, pos + 1) {
                Ok((v, p2)) => {
                    lemma_spec_parse_stmtrs_loop_advances(
                        toks,
                        p2,
                        StmtrsPartial { banktranslist: Some(v), ..acc },
                    );
                },
                Err(e) => {},
            }
        } else if t == "LEDGERBAL"@ {
            lemma_spec_parse_ledger_bal_advances(toks, pos + 1);
            match spec_parse_ledger_bal(toks, pos + 1) {
                Ok((v, p2)) => {
                    lemma_spec_parse_stmtrs_loop_advances(
                        toks,
                        p2,
                        StmtrsPartial { ledgerbal: Some(v), ..acc },
                    );
                },
                Err(e) => {},
            }
        } else if t == "AVAILBAL"@ {
            lemma_spec_parse_avail_bal_advances(toks, pos + 1);
            match spec_parse_avail_bal(toks, pos + 1) {
                Ok((v, p2)) => {
                    lemma_spec_parse_stmtrs_loop_advances(
                        toks,
                        p2,
                        StmtrsPartial { availbal: Some(v), ..acc },
                    );
                },
                Err(e) => {},
            }
        }
    }
}

/// A successful STMTRS decode consumes at least one token and never
/// runs past the end of the stream.
pub proof fn lemma_spec_parse_stmtrs_advances(toks: Seq<Seq<char>>, pos: int)
    ensures
        spec_parse_stmtrs(toks, pos) matches Ok((v, p)) ==> pos < p <= toks.len(),
{
    lemma_spec_parse_stmtrs_loop_advances(toks, pos, StmtrsPartial::init());
}

impl Stmtrs {
    /// Decodes one STMTRS record: BANKACCTFROM and BANKTRANLIST required,
    /// the rest optional, up to and including the `/STMTRS` terminator.
    #[verifier::loop_isolation(false)]
    pub fn parse(tokens: &mut TokenCursor) -> (r: Result<Stmtrs, QFXParsingError>)
        ensures
            final(tokens)@.toks == old(tokens)@.toks,
            old(tokens)@.pos <= final(tokens)@.pos,
            match r {
                Ok(v) => spec_parse_stmtrs(old(tokens)@.toks, old(tokens)@.pos) == Ok::<
                    (StmtrsView, int),
                    ErrorView,
                >((v@, final(tokens)@.pos)),
                Err(e) => spec_parse_stmtrs(old(tokens)@.toks, old(tokens)@.pos) == Err::<
                    (StmtrsView, int),
                    ErrorView,
                >(e@),
            },
    {
        let ghost toks = tokens@.toks;
        let ghost pos0 = tokens@.pos;
        let mut currency: Option<String> = None;
        let mut bankacctfrom: Option<Bankacctfrom> = None;
        let mut banktranslist: Option<BankTranList> = None;
        let mut ledgerbal: Option<LedgerBal> = None;
        let mut availbal: Option<AvailableBalance> = None;
        loop
            invariant
                tokens@.toks == toks,
                pos0 <= tokens@.pos,
                spec_parse_stmtrs(toks, pos0) == spec_parse_stmtrs_loop(
                    toks,
                    tokens@.pos,
                    StmtrsPartial {
                        currency: currency.deep_view(),
                        bankacctfrom: bankacctfrom.deep_view(),
                        banktranslist: banktranslist.deep_view(),
                        ledgerbal: ledgerbal.deep_view(),
                        availbal: availbal.deep_view(),
                    },
                ),
            decreases toks.len() - tokens@.pos,
        {
            match tokens.next() {
                None => {
                    return Err(
                        QFXParsingError::UnexpectedEOF(
                            String::from_str(
                                "Found unexpected EOF. Was still expecting the '/STMTRS'",
                            ),
                        ),
                    );
                },
                Some(t) => {
                    if str_eq(t.as_str(), "CURDEF") {
                        match tokens.next() {
                            Some(v) => {
                                currency = Some(v);
                            },
                            None => {
                                return Err(
                                    QFXParsingError::UnexpectedEOF(
                                        String::from_str(
                                            "Expected token following the CURDEF token",
                                        ),
                                    ),
                                );
                            },
                        }
                    } else if str_eq(t.as_str(), "BANKACCTFROM") {
                        match Bankacctfrom::parse(tokens) {
                            Ok(v) => {
                                bankacctfrom = Some(v);
                            },
                            Err(e) => {
                                return Err(e);
                            },
                        }
                    } else if str_eq(t.as_str(), "BANKTRANLIST") {
                        match BankTranList::parse(tokens) {
                            Ok(v) => {
                                banktranslist = Some(v);
                            },
                            Err(e) => {
                                return Err(e);
                            },
                        }
                    } else if str_eq(t.as_str(), "LEDGERBAL") {
                        match LedgerBal::parse(tokens) {
                            Ok(v) => {
                                ledgerbal = Some(v);
                            },
                            Err(e) => {
                                return Err(e);
                            },
                        }
                    } else if str_eq(t.as_str(), "AVAILBAL") {
                        match AvailableBalance::parse(tokens) {
                            Ok(v) => {
                                availbal = Some(v);
                            },
                            Err(e) => {
                                return Err(e);
                            },
                        }
                    } else if str_eq(t.as_str(), "/STMTRS") {
                        let f_bankacctfrom = match bankacctfrom {
                            Some(v) => v,
                            None => {
                                return Err(
                                    QFXParsingError::MissingRequiredValue(
                                        String::from_str("BANKACCTFROM is a required value in STMTRS"),
                                    ),
                                );
                            },
                        };
                        let f_banktranslist = match banktranslist {
                            Some(v) => v,
                            None => {
                                return Err(
                                    QFXParsingError::MissingRequiredValue(
                                        String::from_str("BANKTRANSLIST is a required value in STMTRS"),
                                    ),
                                );
                            },
                        };
                        return Ok(
                            Stmtrs {
                                currency,
                                bankacctfrom: f_bankacctfrom,
                                banktranslist: f_banktranslist,
                                ledgerbal,
                                availbal,
                            },
                        );
                    } else {
                        return Err(
                            QFXParsingError::UnexpectedToken(
                                concat3(
                                    "Found unexpected token ",
                                    t.as_str(),
                                    " in the STMTRS type",
                                ),
                            ),
                        );
                    }
                },
            }
        }
    }
}

/// One bank statement transaction response: optional request id,
/// optional status, and the statement body.
#[derive(Clone, Debug, PartialEq, Eq)]
pub struct Stmttrnrs {
    pub trnuid: Option<String>,
    pub status: Option<Status>,
    pub stmtrs: Stmtrs,
}

/// Mathematical mirror of [`Stmttrnrs`].
pub struct StmttrnrsView {
    pub trnuid: Option<Seq<char>>,
    pub status: Option<StatusView>,
    pub stmtrs: StmtrsView,
}

impl View for Stmttrnrs {
    type V = StmttrnrsView;

    open spec fn view(&self) -> StmttrnrsView {
        StmttrnrsView {
            trnuid: self.trnuid.deep_view(),
            status: self.status.deep_view(),
            stmtrs: self.stmtrs@,
        }
    }
}

impl DeepView for Stmttrnrs {
    type V = StmttrnrsView;

    open spec fn deep_view(&self) -> StmttrnrsView {
        self.view()
    }
}

/// Field state of a STMTTRNRS record while its tokens are being consumed.
pub struct StmttrnrsPartial {
    pub trnuid: Option<Seq<char>>,
    pub status: Option<StatusView>,
    pub stmtrs: Option<StmtrsView>,
}

impl StmttrnrsPartial {
    /// All fields still unset.
    pub open spec fn init() -> StmttrnrsPartial {
        StmttrnrsPartial { trnuid: None, status: None, stmtrs: None }
    }
}

/// One step of decoding a STMTTRNRS record from `toks[pos..]`.
pub open spec fn spec_parse_stmttrnrs_loop(toks: Seq<Seq<char>>, pos: int, acc: StmttrnrsPartial) -> Result<
    (StmttrnrsView, int),
    ErrorView,
>
    decreases toks.len() - pos,
    via spec_parse_stmttrnrs_loop_decreases
{
    if pos < 0 || pos >= toks.len() {
        Err(ErrorView::UnexpectedEOF("Found unexpected EOF. Was still expecting the '/STMTTRNRS' token"@))
    } else {
        let t = toks[pos];
        if t == "TRNUID"@ {
            if pos + 1 < toks.len() {
                spec_parse_stmttrnrs_loop(
                    toks,
                    pos + 2,
                    StmttrnrsPartial { trnuid: Some(toks[pos + 1]), ..acc },
                )
            } else {
                Err(ErrorView::UnexpectedEOF("Expected a token following the TRNUID token"@))
            }
        } else if t == "STATUS"@ {
            match spec_parse_status(toks, pos + 1) {
                Ok((v, p2)) => spec_parse_stmttrnrs_loop(
                    toks,
                    p2,
                    StmttrnrsPartial { status: Some(v), ..acc },
                ),
                Err(e) => Err(e),
            }
        } else if t == "STMTRS"@ {
            match spec_parse_stmtrs(toks, pos + 1) {
                Ok((v, p2)) => spec_parse_stmttrnrs_loop(
                    toks,
                    p2,
                    StmttrnrsPartial { stmtrs: Some(v), ..acc },
                ),
                Err(e) => Err(e),
            }
        } else if t == "/STMTTRNRS"@ {
            match acc.stmtrs {
                None => Err(ErrorView::MissingRequiredValue("STMTRS section is required in STMTTRNRS"@)),
                Some(stmtrs) => {
                    Ok(
                        (
                            StmttrnrsView {
                                trnuid: acc.trnuid,
                                status: acc.status,
                                stmtrs,
                            },
                            pos + 1,
                        ),
                    )
                },
            }
        } else {
            Err(
                ErrorView::UnexpectedToken(
                    "Found unexpected token "@ + t + " in the STMTTRNRS type"@,
                ),
            )
        }
    }
}

#[via_fn]
proof fn spec_parse_stmttrnrs_loop_decreases(toks: Seq<Seq<char>>, pos: int, acc: StmttrnrsPartial) {
    if 0 <= pos < toks.len() {
        if toks[pos] == "STATUS"@ {
            lemma_spec_parse_status_advances(toks, pos + 1);
        }
        if toks[pos] == "STMTRS"@ {
            lemma_spec_parse_stmtrs_advances(toks, pos + 1);
        }
    }
}

/// The STMTTRNRS record decoded from `toks[pos..]`, and the position after
/// its terminator; or the first error.
pub open spec fn spec_parse_stmttrnrs(toks: Seq<Seq<char>>, pos: int) -> Result<
    (StmttrnrsView, int),
    ErrorView,
> {
    spec_parse_stmttrnrs_loop(toks, pos, StmttrnrsPartial::init())
}

/// A successful STMTTRNRS decode consumes at least one token and never
/// runs past the end of the stream.
pub proof fn lemma_spec_parse_stmttrnrs_loop_advances(toks: Seq<Seq<char>>, pos: int, acc: StmttrnrsPartial)
    ensures
        spec_parse_stmttrnrs_loop(toks, pos, acc) matches Ok((v, p)) ==> pos < p <= toks.len(),
    decreases toks.len() - pos,
{
    if 0 <= pos < toks.len() {
        let t = toks[pos];
        if t == "TRNUID"@ {
            if pos + 1 < toks.len() {
                lemma_spec_parse_stmttrnrs_loop_advances(
                    toks,
                    pos + 2,
                    StmttrnrsPartial { trnuid: Some(toks[pos + 1]), ..acc },
                );
            }
        } else if t == "STATUS"@ {
            lemma_spec_parse_status_advances(toks, pos + 1);
            match spec_parse_status(toks, pos + 1) {
                Ok((v, p2)) => {
                    lemma_spec_parse_stmttrnrs_loop_advances(
                        toks,
                        p2,
                        StmttrnrsPartial { status: Some(v), ..acc },
                    );
                },
                Err(e) => {},
            }
        } else if t == "STMTRS"@ {
            lemma_spec_parse_stmtrs_advances(toks, pos + 1);
            match spec_parse_stmtrs(toks, pos + 1) {
                Ok((v, p2)) => {
                    lemma_spec_parse_stmttrnrs_loop_advances(
                        toks,
                        p2,
                        StmttrnrsPartial { stmtrs: Some(v), ..acc },
                    );
                },
                Err(e) => {},
            }
        }
    }
}

/// A successful STMTTRNRS decode consumes at least one token and never
/// runs past the end of the stream.
pub proof fn lemma_spec_parse_stmttrnrs_advances(toks: Seq<Seq<char>>, pos: int)
    ensures
        spec_parse_stmttrnrs(toks, pos) matches Ok((v, p)) ==> pos < p <= toks.len(),
{
    lemma_spec_parse_stmttrnrs_loop_advances(toks, pos, StmttrnrsPartial::init());
}

impl Stmttrnrs {
    /// Decodes one STMTTRNRS record: STMTRS required, TRNUID and STATUS
    /// optional, up to and including the `/STMTTRNRS` terminator.
    #[verifier::loop_isolation(false)]
    pub fn parse(tokens: &mut TokenCursor) -> (r: Result<Stmttrnrs, QFXParsingError>)
        ensures
            final(tokens)@.toks == old(tokens)@.toks,
            old(tokens)@.pos <= final(tokens)@.pos,
            match r {
                Ok(v) => spec_parse_stmttrnrs(old(tokens)@.toks, old(tokens)@.pos) == Ok::<
                    (StmttrnrsView, int),
                    ErrorView,
                >((v@, final(tokens)@.pos)),
                Err(e) => spec_parse_stmttrnrs(old(tokens)@.toks, old(tokens)@.pos) == Err::<
                    (StmttrnrsView, int),
                    ErrorView,
                >(e@),
            },
    {
        let ghost toks = tokens@.toks;
        let ghost pos0 = tokens@.pos;
        let mut trnuid: Option<String> = None;
        let mut status: Option<Status> = None;
        let mut stmtrs: Option<Stmtrs> = None;
        loop
            invariant
                tokens@.toks == toks,
                pos0 <= tokens@.pos,
                spec_parse_stmttrnrs(toks, pos0) == spec_parse_stmttrnrs_loop(
                    toks,
                    tokens@.pos,
                    StmttrnrsPartial {
                        trnuid: trnuid.deep_view(),
                        status: status.deep_view(),
                        stmtrs: stmtrs.deep_view(),
                    },
                ),
            decreases toks.len() - tokens@.pos,
        {
            match tokens.next() {
                None => {
                    return Err(
                        QFXParsingError::UnexpectedEOF(
                            String::from_str(
                                "Found unexpected EOF. Was still expecting the '/STMTTRNRS' token",
                            ),
                        ),
                    );
                },
                Some(t) => {
                    if str_eq(t.as_str(), "TRNUID") {
                        match tokens.next() {
                            Some(v) => {
                                trnuid = Some(v);
                            },
                            None => {
                                return Err(
                                    QFXParsingError::UnexpectedEOF(
                                        String::from_str(
                                            "Expected a token following the TRNUID token",
                                        ),
                                    ),
                                );
                            },
                        }
                    } else if str_eq(t.as_str(), "STATUS") {
                        match Status::parse(tokens) {
                            Ok(v) => {
                                status = Some(v);
                            },
                            Err(e) => {
                                return Err(e);
                            },
                        }
                    } else if str_eq(t.as_str(), "STMTRS") {
                        match Stmtrs::parse(tokens) {
                            Ok(v) => {
                                stmtrs = Some(v);
                            },
                            Err(e) => {
                                return Err(e);
                            },
                        }
                    } else if str_eq(t.as_str(), "/STMTTRNRS") {
                        let f_stmtrs = match stmtrs {
                            Some(v) => v,
                            None => {
                                return Err(
                                    QFXParsingError::MissingRequiredValue(
                                        String::from_str("STMTRS section is required in STMTTRNRS"),
                                    ),
                                );
                            },
                        };
                        return Ok(
                            Stmttrnrs {
                                trnuid,
                                status,
                                stmtrs: f_stmtrs,
                            },
                        );
                    } else {
                        return Err(
                            QFXParsingError::UnexpectedToken(
                                concat3(
                                    "Found unexpected token ",
                                    t.as_str(),
                                    " in the STMTTRNRS type",
                                ),
                            ),
                        );
                    }
                },
            }
        }
    }
}

/// The bank message set: its one statement transaction response.
#[derive(Clone, Debug, PartialEq, Eq)]
pub struct BankMsgSrsV1 {
    pub stmttrns: Stmttrnrs,
}

/// Mathematical mirror of [`BankMsgSrsV1`].
pub struct BankMsgSrsV1View {
    pub stmttrns: StmttrnrsView,
}

impl View for BankMsgSrsV1 {
    type V = BankMsgSrsV1View;

    open spec fn view(&self) -> BankMsgSrsV1View {
        BankMsgSrsV1View {
            stmttrns: self.stmttrns@,
        }
    }
}

impl DeepView for BankMsgSrsV1 {
    type V = BankMsgSrsV1View;

    open spec fn deep_view(&self) -> BankMsgSrsV1View {
        self.view()
    }
}

/// Field state of a BANKMSGSRSV1 record while its tokens are being consumed.
pub struct BankMsgSrsV1Partial {
    pub stmttrns: Option<StmttrnrsView>,
}

impl BankMsgSrsV1Partial {
    /// All fields still unset.
    pub open spec fn init() -> BankMsgSrsV1Partial {
        BankMsgSrsV1Partial { stmttrns: None }
    }
}

/// One step of decoding a BANKMSGSRSV1 record from `toks[pos..]`.
pub open spec fn spec_parse_bank_msg_srs_v1_loop(toks: Seq<Seq<char>>, pos: int, acc: BankMsgSrsV1Partial) -> Result<
    (BankMsgSrsV1View, int),
    ErrorView,
>
    decreases toks.len() - pos,
    via spec_parse_bank_msg_srs_v1_loop_decreases
{
    if pos < 0 || pos >= toks.len() {
        Err(ErrorView::UnexpectedEOF("Found unexpected EOF. Was still expecting the '/BANKMSGSRSV1' token"@))
    } else {
        let t = toks[pos];
        if t == "STMTTRNRS"@ {
            match spec_parse_stmttrnrs(toks, pos + 1) {
                Ok((v, p2)) => spec_parse_bank_msg_srs_v1_loop(
                    toks,
                    p2,
                    BankMsgSrsV1Partial { stmttrns: Some(v), ..acc },
                ),
                Err(e) => Err(e),
            }
        } else if t == "/BANKMSGSRSV1"@ {
            match acc.stmttrns {
                None => Err(ErrorView::MissingRequiredValue("STMTTRNRS is a required value in BANKMSGSRSV1"@)),
                Some(stmttrns) => {
                    Ok(
                        (
                            BankMsgSrsV1View {
                                stmttrns,
                            },
                            pos + 1,
                        ),
                    )
                },
            }
        } else {
            Err(
                ErrorView::UnexpectedToken(
                    "Found unexpected token "@ + t + " in the BANKMSGSRSV1 type"@,
                ),
            )
        }
    }
}

#[via_fn]
proof fn spec_parse_bank_msg_srs_v1_loop_decreases(toks: Seq<Seq<char>>, pos: int, acc: BankMsgSrsV1Partial) {
    if 0 <= pos < toks.len() {
        if toks[pos] == "STMTTRNRS"@ {
            lemma_spec_parse_stmttrnrs_advances(toks, pos + 1);
        }
    }
}

/// The BANKMSGSRSV1 record decoded from `toks[pos..]`, and the position after
/// its terminator; or the first error.
pub open spec fn spec_parse_bank_msg_srs_v1(toks: Seq<Seq<char>>, pos: int) -> Result<
    (BankMsgSrsV1View, int),
    ErrorView,
> {
    spec_parse_bank_msg_srs_v1_loop(toks, pos, BankMsgSrsV1Partial::init())
}

/// A successful BANKMSGSRSV1 decode consumes at least one token and never
/// runs past the end of the stream.
pub proof fn lemma_spec_parse_bank_msg_srs_v1_loop_advances(toks: Seq<Seq<char>>, pos: int, acc: BankMsgSrsV1Partial)
    ensures
        spec_parse_bank_msg_srs_v1_loop(toks, pos, acc) matches Ok((v, p)) ==> pos < p <= toks.len(),
    decreases toks.len() - pos,
{
    if 0 <= pos < toks.len() {
        let t = toks[pos];
        if t == "STMTTRNRS"@ {
            lemma_spec_parse_stmttrnrs_advances(toks, pos + 1);
            match spec_parse_stmttrnrs(toks, pos + 1) {
                Ok((v, p2)) => {
                    lemma_spec_parse_bank_msg_srs_v1_loop_advances(
                        toks,
                        p2,
                        BankMsgSrsV1Partial { stmttrns: Some(v), ..acc },
                    );
                },
                Err(e) => {},
            }
        }
    }
}

/// A successful BANKMSGSRSV1 decode consumes at least one token and never
/// runs past the end of the stream.
pub proof fn lemma_spec_parse_bank_msg_srs_v1_advances(toks: Seq<Seq<char>>, pos: int)
    ensures
        spec_parse_bank_msg_srs_v1(toks, pos) matches Ok((v, p)) ==> pos < p <= toks.len(),
{
    lemma_spec_parse_bank_msg_srs_v1_loop_advances(toks, pos, BankMsgSrsV1Partial::init());
}

impl BankMsgSrsV1 {
    /// Decodes one BANKMSGSRSV1 record: STMTTRNRS required, up to and
    /// including the `/BANKMSGSRSV1` terminator.
    #[verifier::loop_isolation(false)]
    pub fn parse(tokens: &mut TokenCursor) -> (r: Result<BankMsgSrsV1, QFXParsingError>)
        ensures
            final(tokens)@.toks == old(tokens)@.toks,
            old(tokens)@.pos <= final(tokens)@.pos,
            match r {
                Ok(v) => spec_parse_bank_msg_srs_v1(old(tokens)@.toks, old(tokens)@.pos) == Ok::<
                    (BankMsgSrsV1View, int),
                    ErrorView,
                >((v@, final(tokens)@.pos)),
                Err(e) => spec_parse_bank_msg_srs_v1(old(tokens)@.toks, old(tokens)@.pos) == Err::<
                    (BankMsgSrsV1View, int),
                    ErrorView,
                >(e@),
            },
    {
        let ghost toks = tokens@.toks;
        let ghost pos0 = tokens@.pos;
        let mut stmttrns: Option<Stmttrnrs> = None;
        loop
            invariant
                tokens@.toks == toks,
                pos0 <= tokens@.pos,
                spec_parse_bank_msg_srs_v1(toks, pos0) == spec_parse_bank_msg_srs_v1_loop(
                    toks,
                    tokens@.pos,
                    BankMsgSrsV1Partial {
                        stmttrns: stmttrns.deep_view(),
                    },
                ),
            decreases toks.len() - tokens@.pos,
        {
            match tokens.next() {
                None => {
                    return Err(
                        QFXParsingError::UnexpectedEOF(
                            String::from_str(
                                "Found unexpected EOF. Was still expecting the '/BANKMSGSRSV1' token",
                            ),
                        ),
                    );
                },
                Some(t) => {
                    if str_eq(t.as_str(), "STMTTRNRS") {
                        match Stmttrnrs::parse(tokens) {
                            Ok(v) => {
                                stmttrns = Some(v);
                            },
                            Err(e) => {
                                return Err(e);
                            },
                        }
                    } else if str_eq(t.as_str(), "/BANKMSGSRSV1") {
                        let f_stmttrns = match stmttrns {
                            Some(v) => v,
                            None => {
                                return Err(
                                    QFXParsingError::MissingRequiredValue(
                                        String::from_str("STMTTRNRS is a required value in BANKMSGSRSV1"),
                                    ),
                                );
                            },
                        };
                        return Ok(
                            BankMsgSrsV1 {
                                stmttrns: f_stmttrns,
                            },
                        );
                    } else {
                        return Err(
                            QFXParsingError::UnexpectedToken(
                                concat3(
                                    "Found unexpected token ",
                                    t.as_str(),
                                    " in the BANKMSGSRSV1 type",
                                ),
                            ),
                        );
                    }
                },
            }
        }
    }
}

} // verus!
