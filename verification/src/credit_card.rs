//! The credit-card message set: a statement transaction response wrapping
//! the statement body, the account it is for, and its transaction list.

use vstd::prelude::*;
use crate::errors::ErrorView;
use crate::errors::QFXParsingError;
use crate::errors::concat3;
use crate::records::AvailableBalance;
use crate::records::AvailableBalanceView;
use crate::records::BankTranList;
use crate::records::BankTranListView;
use crate::records::LedgerBal;
use crate::records::LedgerBalView;
use crate::records::Status;
use crate::records::StatusView;
use crate::records::lemma_spec_parse_avail_bal_advances;
use crate::records::lemma_spec_parse_bank_tran_list_advances;
use crate::records::lemma_spec_parse_ledger_bal_advances;
use crate::records::lemma_spec_parse_status_advances;
use crate::records::spec_parse_avail_bal;
use crate::records::spec_parse_bank_tran_list;
use crate::records::spec_parse_ledger_bal;
use crate::records::spec_parse_status;
use crate::tokenizer::TokenCursor;
use crate::tokenizer::str_eq;

verus! {

/// The credit-card account a statement is for: its account id.
#[derive(Clone, Debug, PartialEq, Eq)]
pub struct Ccacctfrom {
    pub acct_id: String,
}

/// Mathematical mirror of [`Ccacctfrom`].
pub struct CcacctfromView {
    pub acct_id: Seq<char>,
}

impl View for Ccacctfrom {
    type V = CcacctfromView;

    open spec fn view(&self) -> CcacctfromView {
        CcacctfromView {
            acct_id: self.acct_id@,
        }
    }
}

impl DeepView for Ccacctfrom {
    type V = CcacctfromView;

    open spec fn deep_view(&self) -> CcacctfromView {
        self.view()
    }
}

/// Field state of a CCACCTFROM record while its tokens are being consumed.
pub struct CcacctfromPartial {
    pub acct_id: Option<Seq<char>>,
}

impl CcacctfromPartial {
    /// All fields still unset.
    pub open spec fn init() -> CcacctfromPartial {
        CcacctfromPartial { acct_id: None }
    }
}

/// One step of decoding a CCACCTFROM record from `toks[pos..]`.
pub open spec fn spec_parse_ccacctfrom_loop(toks: Seq<Seq<char>>, pos: int, acc: CcacctfromPartial) -> Result<
    (CcacctfromView, int),
    ErrorView,
>
    decreases toks.len() - pos,
{
    if pos < 0 || pos >= toks.len() {
        Err(ErrorView::UnexpectedEOF("Found unexpected EOF. Was still expecting the '/CCACCTFROM' token"@))
    } else {
        let t = toks[pos];
        if t == "ACCTID"@ {
            if pos + 1 < toks.len() {
                spec_parse_ccacctfrom_loop(
                    toks,
                    pos + 2,
                    CcacctfromPartial { acct_id: Some(toks[pos + 1]), ..acc },
                )
            } else {
                Err(ErrorView::UnexpectedEOF("Expected token following the ACCTID token"@))
            }
        } else if t == "/CCACCTFROM"@ {
            match acc.acct_id {
                None => Err(ErrorView::MissingRequiredValue("ACCTID is a required value in CCACCTFROM"@)),
                Some(acct_id) => {
                    Ok(
                        (
                            CcacctfromView {
                                acct_id,
                            },
                            pos + 1,
                        ),
                    )
                },
            }
        } else {
            Err(
                ErrorView::UnexpectedToken(
                    "Found unexpected token "@ + t + " in the CCACCTFROM type"@,
                ),
            )
        }
    }
}

/// The CCACCTFROM record decoded from `toks[pos..]`, and the position after
/// its terminator; or the first error.
pub open spec fn spec_parse_ccacctfrom(toks: Seq<Seq<char>>, pos: int) -> Result<
    (CcacctfromView, int),
    ErrorView,
> {
    spec_parse_ccacctfrom_loop(toks, pos, CcacctfromPartial::init())
}

/// A successful CCACCTFROM decode consumes at least one token and never
/// runs past the end of the stream.
pub proof fn lemma_spec_parse_ccacctfrom_loop_advances(toks: Seq<Seq<char>>, pos: int, acc: CcacctfromPartial)
    ensures
        spec_parse_ccacctfrom_loop(toks, pos, acc) matches Ok((v, p)) ==> pos < p <= toks.len(),
    decreases toks.len() - pos,
{
    if 0 <= pos < toks.len() {
        let t = toks[pos];
        if t == "ACCTID"@ {
            if pos + 1 < toks.len() {
                lemma_spec_parse_ccacctfrom_loop_advances(
                    toks,
                    pos + 2,
                    CcacctfromPartial { acct_id: Some(toks[pos + 1]), ..acc },
                );
            }
        }
    }
}

/// A successful CCACCTFROM decode consumes at least one token and never
/// runs past the end of the stream.
pub proof fn lemma_spec_parse_ccacctfrom_advances(toks: Seq<Seq<char>>, pos: int)
    ensures
        spec_parse_ccacctfrom(toks, pos) matches Ok((v, p)) ==> pos < p <= toks.len(),
{
    lemma_spec_parse_ccacctfrom_loop_advances(toks, pos, CcacctfromPartial::init());
}

impl Ccacctfrom {
    /// Decodes one CCACCTFROM record: ACCTID required, up to and
    /// including the `/CCACCTFROM` terminator.
    #[verifier::loop_isolation(false)]
    pub fn parse(tokens: &mut TokenCursor) -> (r: Result<Ccacctfrom, QFXParsingError>)
        ensures
            final(tokens)@.toks == old(tokens)@.toks,
            old(tokens)@.pos <= final(tokens)@.pos,
            match r {
                Ok(v) => spec_parse_ccacctfrom(old(tokens)@.toks, old(tokens)@.pos) == Ok::<
                    (CcacctfromView, int),
                    ErrorView,
                >((v@, final(tokens)@.pos)),
                Err(e) => spec_parse_ccacctfrom(old(tokens)@.toks, old(tokens)@.pos) == Err::<
                    (CcacctfromView, int),
                    ErrorView,
                >(e@),
            },
    {
        let ghost toks = tokens@.toks;
        let ghost pos0 = tokens@.pos;
        let mut acct_id: Option<String> = None;
        loop
            invariant
                tokens@.toks == toks,
                pos0 <= tokens@.pos,
                spec_parse_ccacctfrom(toks, pos0) == spec_parse_ccacctfrom_loop(
                    toks,
                    tokens@.pos,
                    CcacctfromPartial {
                        acct_id: acct_id.deep_view(),
                    },
                ),
            decreases toks.len() - tokens@.pos,
        {
            match tokens.next() {
                None => {
                    return Err(
                        QFXParsingError::UnexpectedEOF(
                            String::from_str(
                                "Found unexpected EOF. Was still expecting the '/CCACCTFROM' token",
                            ),
                        ),
                    );
                },
                Some(t) => {
                    if str_eq(t.as_str(), "ACCTID") {
                        match tokens.next() {
                            Some(v) => {
                                acct_id = Some(v);
                            },
                            None => {
                                return Err(
                                    QFXParsingError::UnexpectedEOF(
                                        String::from_str(
                                            "Expected token following the ACCTID token",
                                        ),
                                    ),
                                );
                            },
                        }
                    } else if str_eq(t.as_str(), "/CCACCTFROM") {
                        let f_acct_id = match acct_id {
                            Some(v) => v,
                            None => {
                                return Err(
                                    QFXParsingError::MissingRequiredValue(
                                        String::from_str("ACCTID is a required value in CCACCTFROM"),
                                    ),
                                );
                            },
                        };
                        return Ok(
                            Ccacctfrom {
                                acct_id: f_acct_id,
                            },
                        );
                    } else {
                        return Err(
                            QFXParsingError::UnexpectedToken(
                                concat3(
                                    "Found unexpected token ",
                                    t.as_str(),
                                    " in the CCACCTFROM type",
                                ),
                            ),
                        );
                    }
                },
            }
        }
    }
}

/// The credit-card statement body: optional currency, the account it is
/// for, the transaction list, and optional ledger and available balances.
#[derive(Clone, Debug, PartialEq, Eq)]
pub struct Ccstmtrs {
    pub currency: Option<String>,
    pub ccacctfrom: Ccacctfrom,
    pub banktranslist: BankTranList,
    pub ledgerbal: Option<LedgerBal>,
    pub availbal: Option<AvailableBalance>,
}

/// Mathematical mirror of [`Ccstmtrs`].
pub struct CcstmtrsView {
    pub currency: Option<Seq<char>>,
    pub ccacctfrom: CcacctfromView,
    pub banktranslist: BankTranListView,
    pub ledgerbal: Option<LedgerBalView>,
    pub availbal: Option<AvailableBalanceView>,
}

impl View for Ccstmtrs {
    type V = CcstmtrsView;

    open spec fn view(&self) -> CcstmtrsView {
        CcstmtrsView {
            currency: self.currency.deep_view(),
            ccacctfrom: self.ccacctfrom@,
            banktranslist: self.banktranslist@,
            ledgerbal: self.ledgerbal.deep_view(),
            availbal: self.availbal.deep_view(),
        }
    }
}

impl DeepView for Ccstmtrs {
    type V = CcstmtrsView;

    open spec fn deep_view(&self) -> CcstmtrsView {
        self.view()
    }
}

/// Field state of a CCSTMTRS record while its tokens are being consumed.
pub struct CcstmtrsPartial {
    pub currency: Option<Seq<char>>,
    pub ccacctfrom: Option<CcacctfromView>,
    pub banktranslist: Option<BankTranListView>,
    pub ledgerbal: Option<LedgerBalView>,
    pub availbal: Option<AvailableBalanceView>,
}

impl CcstmtrsPartial {
    /// All fields still unset.
    pub open spec fn init() -> CcstmtrsPartial {
        CcstmtrsPartial { currency: None, ccacctfrom: None, banktranslist: None, ledgerbal: None, availbal: None }
    }
}

/// One step of decoding a CCSTMTRS record from `toks[pos..]`.
pub open spec fn spec_parse_ccstmtrs_loop(toks: Seq<Seq<char>>, pos: int, acc: CcstmtrsPartial) -> Result<
    (CcstmtrsView, int),
    ErrorView,
>
    decreases toks.len() - pos,
    via spec_parse_ccstmtrs_loop_decreases
{
    if pos < 0 || pos >= toks.len() {
        Err(ErrorView::UnexpectedEOF("Found unexpected EOF. Was still expecting the '/CCSTMTRS'"@))
    } else {
        let t = toks[pos];
        if t == "CURDEF"@ {
            if pos + 1 < toks.len() {
                spec_parse_ccstmtrs_loop(
                    toks,
                    pos + 2,
                    CcstmtrsPartial { currency: Some(toks[pos + 1]), ..acc },
                )
            } else {
                Err(ErrorView::UnexpectedEOF("Expected token following the CURDEF token"@))
            }
        } else if t == "CCACCTFROM"@ {
            match spec_parse_ccacctfrom(toks, pos + 1) {
                Ok((v, p2)) => spec_parse_ccstmtrs_loop(
                    toks,
                    p2,
                    CcstmtrsPartial { ccacctfrom: Some(v), ..acc },
                ),
                Err(e) => Err(e),
            }
        } else if t == "BANKTRANLIST"@ {
            match spec_parse_bank_tran_list(toks, pos + 1) {
                Ok((v, p2)) => spec_parse_ccstmtrs_loop(
                    toks,
                    p2,
                    CcstmtrsPartial { banktranslist: Some(v), ..acc },
                ),
                Err(e) => Err(e),
            }
        } else if t == "LEDGERBAL"@ {
            match spec_parse_ledger_bal(toks, pos + 1) {
                Ok((v, p2)) => spec_parse_ccstmtrs_loop(
                    toks,
                    p2,
                    CcstmtrsPartial { ledgerbal: Some(v), ..acc },
                ),
                Err(e) => Err(e),
            }
        } else if t == "AVAILBAL"@ {
            match spec_parse_avail_bal(toks, pos + 1) {
                Ok((v, p2)) => spec_parse_ccstmtrs_loop(
                    toks,
                    p2,
                    CcstmtrsPartial { availbal: Some(v), ..acc },
                ),
                Err(e) => Err(e),
            }
        } else if t == "/CCSTMTRS"@ {
            match acc.ccacctfrom {
                None => Err(ErrorView::MissingRequiredValue("CCACCTFROM is a required value in CCSTMTRS"@)),
                Some(ccacctfrom) => {
                    match acc.banktranslist {
                        None => Err(ErrorView::MissingRequiredValue("BANKTRANSLIST is a required value in CCSTMTRS"@)),
                        Some(banktranslist) => {
                            Ok(
                                (
                                    CcstmtrsView {
                                        currency: acc.currency,
                                        ccacctfrom,
                                        banktranslist,
                                        ledgerbal: acc.ledgerbal,
                                        availbal: acc.availbal,
                                    },
                                    pos + 1,
                                ),
                            )
                        },
                    }
                },
            }
        } else {
            Err(
                ErrorView::UnexpectedToken(
                    "Found unexpected token "@ + t + " in the CCSTMTRS type"@,
                ),
            )
        }
    }
}

#[via_fn]
proof fn spec_parse_ccstmtrs_loop_decreases(toks: Seq<Seq<char>>, pos: int, acc: CcstmtrsPartial) {
    if 0 <= pos < toks.len() {
        if toks[pos] == "CCACCTFROM"@ {
            lemma_spec_parse_ccacctfrom_advances(toks, pos + 1);
        }
        if toks[pos] == "BANKTRANLIST"@ {
            lemma_spec_parse_bank_tran_list_advances(toks, pos + 1);
        }
        if toks[pos] == "LEDGERBAL"@ {
            lemma_spec_parse_ledger_bal_advances(toks, pos + 1);
        }
        if toks[pos] == "AVAILBAL"@ {
            lemma_spec_parse_avail_bal_advances(toks, pos + 1);
        }
    }
}

/// The CCSTMTRS record decoded from `toks[pos..]`, and the position after
/// its terminator; or the first error.
pub open spec fn spec_parse_ccstmtrs(toks: Seq<Seq<char>>, pos: int) -> Result<
    (CcstmtrsView, int),
    ErrorView,
> {
    spec_parse_ccstmtrs_loop(toks, pos, CcstmtrsPartial::init())
}

/// A successful CCSTMTRS decode consumes at least one token and never
/// runs past the end of the stream.
pub proof fn lemma_spec_parse_ccstmtrs_loop_advances(toks: Seq<Seq<char>>, pos: int, acc: CcstmtrsPartial)
    ensures
        spec_parse_ccstmtrs_loop(toks, pos, acc) matches Ok((v, p)) ==> pos < p <= toks.len(),
    decreases toks.len() - pos,
{
    if 0 <= pos < toks.len() {
        let t = toks[pos];
        if t == "CURDEF"@ {
            if pos + 1 < toks.len() {
                lemma_spec_parse_ccstmtrs_loop_advances(
                    toks,
                    pos + 2,
                    CcstmtrsPartial { currency: Some(toks[pos + 1]), ..acc },
                );
            }
        } else if t == "CCACCTFROM"@ {
            lemma_spec_parse_ccacctfrom_advances(toks, pos + 1);
            match spec_parse_ccacctfrom(toks, pos + 1) {
                Ok((v, p2)) => {
                    lemma_spec_parse_ccstmtrs_loop_advances(
                        toks,
                        p2,
                        CcstmtrsPartial { ccacctfrom: Some(v), ..acc },
                    );
                },
                Err(e) => {},
            }
        } else if t == "BANKTRANLIST"@ {
            lemma_spec_parse_bank_tran_list_advances(toks, pos + 1);
            match spec_parse_bank_tran_list(toks, pos + 1) {
                Ok((v, p2)) => {
                    lemma_spec_parse_ccstmtrs_loop_advances(
                        toks,
                        p2,
                        CcstmtrsPartial { banktranslist: Some(v), ..acc },
                    );
                },
                Err(e) => {},
            }
        } else if t == "LEDGERBAL"@ {
            lemma_spec_parse_ledger_bal_advances(toks, pos + 1);
            match spec_parse_ledger_bal(toks, pos + 1) {
                Ok((v, p2)) => {
                    lemma_spec_parse_ccstmtrs_loop_advances(
                        toks,
                        p2,
                        CcstmtrsPartial { ledgerbal: Some(v), ..acc },
                    );
                },
                Err(e) => {},
            }
        } else if t == "AVAILBAL"@ {
            lemma_spec_parse_avail_bal_advances(toks, pos + 1);
            match spec_parse_avail_bal(toks, pos + 1) {
                Ok((v, p2)) => {
                    lemma_spec_parse_ccstmtrs_loop_advances(
                        toks,
                        p2,
                        CcstmtrsPartial { availbal: Some(v), ..acc },
                    );
                },
                Err(e) => {},
            }
        }
    }
}

/// A successful CCSTMTRS decode consumes at least one token and never
/// runs past the end of the stream.
pub proof fn lemma_spec_parse_ccstmtrs_advances(toks: Seq<Seq<char>>, pos: int)
    ensures
        spec_parse_ccstmtrs(toks, pos) matches Ok((v, p)) ==> pos < p <= toks.len(),
{
    lemma_spec_parse_ccstmtrs_loop_advances(toks, pos, CcstmtrsPartial::init());
}

impl Ccstmtrs {
    /// Decodes one CCSTMTRS record: CCACCTFROM and BANKTRANLIST required,
    /// the rest optional, up to and including the `/CCSTMTRS` terminator.
    #[verifier::loop_isolation(false)]
    pub fn parse(tokens: &mut TokenCursor) -> (r: Result<Ccstmtrs, QFXParsingError>)
        ensures
            final(tokens)@.toks == old(tokens)@.toks,
            old(tokens)@.pos <= final(tokens)@.pos,
            match r {
                Ok(v) => spec_parse_ccstmtrs(old(tokens)@.toks, old(tokens)@.pos) == Ok::<
                    (CcstmtrsView, int),
                    ErrorView,
                >((v@, final(tokens)@.pos)),
                Err(e) => spec_parse_ccstmtrs(old(tokens)@.toks, old(tokens)@.pos) == Err::<
                    (CcstmtrsView, int),
                    ErrorView,
                >(e@),
            },
    {
        let ghost toks = tokens@.toks;
        let ghost pos0 = tokens@.pos;
        let mut currency: Option<String> = None;
        let mut ccacctfrom: Option<Ccacctfrom> = None;
        let mut banktranslist: Option<BankTranList> = None;
        let mut ledgerbal: Option<LedgerBal> = None;
        let mut availbal: Option<AvailableBalance> = None;
        loop
            invariant
                tokens@.toks == toks,
                pos0 <= tokens@.pos,
                spec_parse_ccstmtrs(toks, pos0) == spec_parse_ccstmtrs_loop(
                    toks,
                    tokens@.pos,
                    CcstmtrsPartial {
                        currency: currency.deep_view(),
                        ccacctfrom: ccacctfrom.deep_view(),
                        banktranslist: banktranslist.deep_view(),
                        ledgerbal: ledgerbal.deep_view(),
                        availbal: availbal.deep_view(),
                    },
                ),
            decreases toks.len() - tokens@.pos,
        {
            match tokens.next() {
                None => {
                    return Err(
                        QFXParsingError::UnexpectedEOF(
                            String::from_str(
                                "Found unexpected EOF. Was still expecting the '/CCSTMTRS'",
                            ),
                        ),
                    );
                },
                Some(t) => {
                    if str_eq(t.as_str(), "CURDEF") {
                        match tokens.next() {
                            Some(v) => {
                                currency = Some(v);
                            },
                            None => {
                                return Err(
                                    QFXParsingError::UnexpectedEOF(
                                        String::from_str(
                                            "Expected token following the CURDEF token",
                                        ),
                                    ),
                                );
                            },
                        }
                    } else if str_eq(t.as_str(), "CCACCTFROM") {
                        match Ccacctfrom::parse(tokens) {
                            Ok(v) => {
                                ccacctfrom = Some(v);
                            },
                            Err(e) => {
                                return Err(e);
                            },
                        }
                    } else if str_eq(t.as_str(), "BANKTRANLIST") {
                        match BankTranList::parse(tokens) {
                            Ok(v) => {
                                banktranslist = Some(v);
                            },
                            Err(e) => {
                                return Err(e);
                            },
                        }
                    } else if str_eq(t.as_str(), "LEDGERBAL") {
                        match LedgerBal::parse(tokens) {
                            Ok(v) => {
                                ledgerbal = Some(v);
                            },
                            Err(e) => {
                                return Err(e);
                            },
                        }
                    } else if str_eq(t.as_str(), "AVAILBAL") {
                        match AvailableBalance::parse(tokens) {
                            Ok(v) => {
                                availbal = Some(v);
                            },
                            Err(e) => {
                                return Err(e);
                            },
                        }
                    } else if str_eq(t.as_str(), "/CCSTMTRS") {
                        let f_ccacctfrom = match ccacctfrom {
                            Some(v) => v,
                            None => {
                                return Err(
                                    QFXParsingError::MissingRequiredValue(
                                        String::from_str("CCACCTFROM is a required value in CCSTMTRS"),
                                    ),
                                );
                            },
                        };
                        let f_banktranslist = match banktranslist {
                            Some(v) => v,
                            None => {
                                return Err(
                                    QFXParsingError::MissingRequiredValue(
                                        String::from_str("BANKTRANSLIST is a required value in CCSTMTRS"),
                                    ),
                                );
                            },
                        };
                        return Ok(
                            Ccstmtrs {
                                currency,
                                ccacctfrom: f_ccacctfrom,
                                banktranslist: f_banktranslist,
                                ledgerbal,
                                availbal,
                            },
                        );
                    } else {
                        return Err(
                            QFXParsingError::UnexpectedToken(
                                concat3(
                                    "Found unexpected token ",
                                    t.as_str(),
                                    " in the CCSTMTRS type",
                                ),
                            ),
                        );
                    }
                },
            }
        }
    }
}

/// One credit-card statement transaction response: optional request id,
/// optional status, and the statement body.
#[derive(Clone, Debug, PartialEq, Eq)]
pub struct Ccstmttrnrs {
    pub trnuid: Option<String>,
    pub status: Option<Status>,
    pub ccstmtrs: Ccstmtrs,
}

/// Mathematical mirror of [`Ccstmttrnrs`].
pub struct CcstmttrnrsView {
    pub trnuid: Option<Seq<char>>,
    pub status: Option<StatusView>,
    pub ccstmtrs: CcstmtrsView,
}

impl View for Ccstmttrnrs {
    type V = CcstmttrnrsView;

    open spec fn view(&self) -> CcstmttrnrsView {
        CcstmttrnrsView {
            trnuid: self.trnuid.deep_view(),
            status: self.status.deep_view(),
            ccstmtrs: self.ccstmtrs@,
        }
    }
}

impl DeepView for Ccstmttrnrs {
    type V = CcstmttrnrsView;

    open spec fn deep_view(&self) -> CcstmttrnrsView {
        self.view()
    }
}

/// Field state of a CCSTMTTRNRS record while its tokens are being consumed.
pub struct CcstmttrnrsPartial {
    pub trnuid: Option<Seq<char>>,
    pub status: Option<StatusView>,
    pub ccstmtrs: Option<CcstmtrsView>,
}

impl CcstmttrnrsPartial {
    /// All fields still unset.
    pub open spec fn init() -> CcstmttrnrsPartial {
        CcstmttrnrsPartial { trnuid: None, status: None, ccstmtrs: None }
    }
}

/// One step of decoding a CCSTMTTRNRS record from `toks[pos..]`.
pub open spec fn spec_parse_ccstmttrnrs_loop(toks: Seq<Seq<char>>, pos: int, acc: CcstmttrnrsPartial) -> Result<
    (CcstmttrnrsView, int),
    ErrorView,
>
    decreases toks.len() - pos,
    via spec_parse_ccstmttrnrs_loop_decreases
{
    if pos < 0 || pos >= toks.len() {
        Err(ErrorView::UnexpectedEOF("Found unexpected EOF. Was still expecting the '/CCSTMTTRNRS' token"@))
    } else {
        let t = toks[pos];
        if t == "TRNUID"@ {
            if pos + 1 < toks.len() {
                spec_parse_ccstmttrnrs_loop(
                    toks,
                    pos + 2,
                    CcstmttrnrsPartial { trnuid: Some(toks[pos + 1]), ..acc },
                )
            } else {
                Err(ErrorView::UnexpectedEOF("Expected token following the TRNUID token"@))
            }
        } else if t == "STATUS"@ {
            match spec_parse_status(toks, pos + 1) {
                Ok((v, p2)) => spec_parse_ccstmttrnrs_loop(
                    toks,
                    p2,
                    CcstmttrnrsPartial { status: Some(v), ..acc },
                ),
                Err(e) => Err(e),
            }
        } else if t == "CCSTMTRS"@ {
            match spec_parse_ccstmtrs(toks, pos + 1) {
                Ok((v, p2)) => spec_parse_ccstmttrnrs_loop(
                    toks,
                    p2,
                    CcstmttrnrsPartial { ccstmtrs: Some(v), ..acc },
                ),
                Err(e) => Err(e),
            }
        } else if t == "/CCSTMTTRNRS"@ {
            match acc.ccstmtrs {
                None => Err(ErrorView::MissingRequiredValue("CCSTMTRS section is required in CCSTMTTRNRS"@)),
                Some(ccstmtrs) => {
                    Ok(
                        (
                            CcstmttrnrsView {
                                trnuid: acc.trnuid,
                                status: acc.status,
                                ccstmtrs,
                            },
                            pos + 1,
                        ),
                    )
                },
            }
        } else {
            Err(
                ErrorView::UnexpectedToken(
                    "Found unexpected token "@ + t + " in the CCSTMTTRNRS type"@,
                ),
            )
        }
    }
}

#[via_fn]
proof fn spec_parse_ccstmttrnrs_loop_decreases(toks: Seq<Seq<char>>, pos: int, acc: CcstmttrnrsPartial) {
    if 0 <= pos < toks.len() {
        if toks[pos] == "STATUS"@ {
            lemma_spec_parse_status_advances(toks, pos + 1);
        }
        if toks[pos] == "CCSTMTRS"@ {
            lemma_spec_parse_ccstmtrs_advances(toks, pos + 1);
        }
    }
}

/// The CCSTMTTRNRS record decoded from `toks[pos..]`, and the position after
/// its terminator; or the first error.
pub open spec fn spec_parse_ccstmttrnrs(toks: Seq<Seq<char>>, pos: int) -> Result<
    (CcstmttrnrsView, int),
    ErrorView,
> {
    spec_parse_ccstmttrnrs_loop(toks, pos, CcstmttrnrsPartial::init())
}

/// A successful CCSTMTTRNRS decode consumes at least one token and never
/// runs past the end of the stream.
pub proof fn lemma_spec_parse_ccstmttrnrs_loop_advances(toks: Seq<Seq<char>>, pos: int, acc: CcstmttrnrsPartial)
    ensures
        spec_parse_ccstmttrnrs_loop(toks, pos, acc) matches Ok((v, p)) ==> pos < p <= toks.len(),
    decreases toks.len() - pos,
{
    if 0 <= pos < toks.len() {
        let t = toks[pos];
        if t == "TRNUID"@ {
            if pos + 1 < toks.len() {
                lemma_spec_parse_ccstmttrnrs_loop_advances(
                    toks,
                    pos + 2,
                    CcstmttrnrsPartial { trnuid: Some(toks[pos + 1]), ..acc },
                );
            }
        } else if t == "STATUS"@ {
            lemma_spec_parse_status_advances(toks, pos + 1);
            match spec_parse_status(toks, pos + 1) {
                Ok((v, p2)) => {
                    lemma_spec_parse_ccstmttrnrs_loop_advances(
                        toks,
                        p2,
                        CcstmttrnrsPartial { status: Some(v), ..acc },
                    );
                },
                Err(e) => {},
            }
        } else if t == "CCSTMTRS"@ {
            lemma_spec_parse_ccstmtrs_advances(toks, pos + 1);
            match spec_parse_ccstmtrs(toks, pos + 1) {
                Ok((v, p2)) => {
                    lemma_spec_parse_ccstmttrnrs_loop_advances(
                        toks,
                        p2,
                        CcstmttrnrsPartial { ccstmtrs: Some(v), ..acc },
                    );
                },
                Err(e) => {},
            }
        }
    }
}

/// A successful CCSTMTTRNRS decode consumes at least one token and never
/// runs past the end of the stream.
pub proof fn lemma_spec_parse_ccstmttrnrs_advances(toks: Seq<Seq<char>>, pos: int)
    ensures
        spec_parse_ccstmttrnrs(toks, pos) matches Ok((v, p)) ==> pos < p <= toks.len(),
{
    lemma_spec_parse_ccstmttrnrs_loop_advances(toks, pos, CcstmttrnrsPartial::init());
}

impl Ccstmttrnrs {
    /// Decodes one CCSTMTTRNRS record: CCSTMTRS required, TRNUID and
    /// STATUS optional, up to and including the `/CCSTMTTRNRS` terminator.
    #[verifier::loop_isolation(false)]
    pub fn parse(tokens: &mut TokenCursor) -> (r: Result<Ccstmttrnrs, QFXParsingError>)
        ensures
            final(tokens)@.toks == old(tokens)@.toks,
            old(tokens)@.pos <= final(tokens)@.pos,
            match r {
                Ok(v) => spec_parse_ccstmttrnrs(old(tokens)@.toks, old(tokens)@.pos) == Ok::<
                    (CcstmttrnrsView, int),
                    ErrorView,
                >((v@, final(tokens)@.pos)),
                Err(e) => spec_parse_ccstmttrnrs(old(tokens)@.toks, old(tokens)@.pos) == Err::<
                    (CcstmttrnrsView, int),
                    ErrorView,
                >(e@),
            },
    {
        let ghost toks = tokens@.toks;
        let ghost pos0 = tokens@.pos;
        let mut trnuid: Option<String> = None;
        let mut status: Option<Status> = None;
        let mut ccstmtrs: Option<Ccstmtrs> = None;
        loop
            invariant
                tokens@.toks == toks,
                pos0 <= tokens@.pos,
                spec_parse_ccstmttrnrs(toks, pos0) == spec_parse_ccstmttrnrs_loop(
                    toks,
                    tokens@.pos,
                    CcstmttrnrsPartial {
                        trnuid: trnuid.deep_view(),
                        status: status.deep_view(),
                        ccstmtrs: ccstmtrs.deep_view(),
                    },
                ),
            decreases toks.len() - tokens@.pos,
        {
            match tokens.next() {
                None => {
                    return Err(
                        QFXParsingError::UnexpectedEOF(
                            String::from_str(
                                "Found unexpected EOF. Was still expecting the '/CCSTMTTRNRS' token",
                            ),
                        ),
                    );
                },
                Some(t) => {
                    if str_eq(t.as_str(), "TRNUID") {
                        match tokens.next() {
                            Some(v) => {
                                trnuid = Some(v);
                            },
                            None => {
                                return Err(
                                    QFXParsingError::UnexpectedEOF(
                                        String::from_str(
                                            "Expected token following the TRNUID token",
                                        ),
                                    ),
                                );
                            },
                        }
                    } else if str_eq(t.as_str(), "STATUS") {
                        match Status::parse(tokens) {
                            Ok(v) => {
                                status = Some(v);
                            },
                            Err(e) => {
                                return Err(e);
                            },
                        }
                    } else if str_eq(t.as_str(), "CCSTMTRS") {
                        match Ccstmtrs::parse(tokens) {
                            Ok(v) => {
                                ccstmtrs = Some(v);
                            },
                            Err(e) => {
                                return Err(e);
                            },
                        }
                    } else if str_eq(t.as_str(), "/CCSTMTTRNRS") {
                        let f_ccstmtrs = match ccstmtrs {
                            Some(v) => v,
                            None => {
                                return Err(
                                    QFXParsingError::MissingRequiredValue(
                                        String::from_str("CCSTMTRS section is required in CCSTMTTRNRS"),
                                    ),
                                );
                            },
                        };
                        return Ok(
                            Ccstmttrnrs {
                                trnuid,
                                status,
                                ccstmtrs: f_ccstmtrs,
                            },
                        );
                    } else {
                        return Err(
                            QFXParsingError::UnexpectedToken(
                                concat3(
                                    "Found unexpected token ",
                                    t.as_str(),
                                    " in the CCSTMTTRNRS type",
                                ),
                            ),
                        );
                    }
                },
            }
        }
    }
}

/// The credit-card message set: its one statement transaction response.
#[derive(Clone, Debug, PartialEq, Eq)]
pub struct CCMsgSrsV1 {
    pub ccstmttrns: Ccstmttrnrs,
}

/// Mathematical mirror of [`CCMsgSrsV1`].
pub struct CCMsgSrsV1View {
    pub ccstmttrns: CcstmttrnrsView,
}

impl View for CCMsgSrsV1 {
    type V = CCMsgSrsV1View;

    open spec fn view(&self) -> CCMsgSrsV1View {
        CCMsgSrsV1View {
            ccstmttrns: self.ccstmttrns@,
        }
    }
}

impl DeepView for CCMsgSrsV1 {
    type V = CCMsgSrsV1View;

    open spec fn deep_view(&self) -> CCMsgSrsV1View {
        self.view()
    }
}

/// Field state of a CREDITCARDMSGSRSV1 record while its tokens are being consumed.
pub struct CCMsgSrsV1Partial {
    pub ccstmttrns: Option<CcstmttrnrsView>,
}

impl CCMsgSrsV1Partial {
    /// All fields still unset.
    pub open spec fn init() -> CCMsgSrsV1Partial {
        CCMsgSrsV1Partial { ccstmttrns: None }
    }
}

/// One step of decoding a CREDITCARDMSGSRSV1 record from `toks[pos..]`.
pub open spec fn spec_parse_cc_msg_srs_v1_loop(toks: Seq<Seq<char>>, pos: int, acc: CCMsgSrsV1Partial) -> Result<
    (CCMsgSrsV1View, int),
    ErrorView,
>
    decreases toks.len() - pos,
    via spec_parse_cc_msg_srs_v1_loop_decreases
{
    if pos < 0 || pos >= toks.len() {
        Err(ErrorView::UnexpectedEOF("Found unexpected EOF. Was still expecting the '/CREDITCARDMSGSRSV1' token"@))
    } else {
        let t = toks[pos];
        if t == "CCSTMTTRNRS"@ {
            match spec_parse_ccstmttrnrs(toks, pos + 1) {
                Ok((v, p2)) => spec_parse_cc_msg_srs_v1_loop(
                    toks,
                    p2,
                    CCMsgSrsV1Partial { ccstmttrns: Some(v), ..acc },
                ),
                Err(e) => Err(e),
            }
        } else if t == "/CREDITCARDMSGSRSV1"@ {
            match acc.ccstmttrns {
                None => Err(ErrorView::MissingRequiredValue("CCSTMTTRNRS is a requied value in CREDITCARDMSGSRSV1"@)),
                Some(ccstmttrns) => {
                    Ok(
                        (
                            CCMsgSrsV1View {
                                ccstmttrns,
                            },
                            pos + 1,
                        ),
                    )
                },
            }
        } else {
            Err(
                ErrorView::UnexpectedToken(
                    "Found unexpected token "@ + t + " in the CREDITCARDMSGSRSV1 type"@,
                ),
            )
        }
    }
}

#[via_fn]
proof fn spec_parse_cc_msg_srs_v1_loop_decreases(toks: Seq<Seq<char>>, pos: int, acc: CCMsgSrsV1Partial) {
    if 0 <= pos < toks.len() {
        if toks[pos] == "CCSTMTTRNRS"@ {
            lemma_spec_parse_ccstmttrnrs_advances(toks, pos + 1);
        }
    }
}

/// The CREDITCARDMSGSRSV1 record decoded from `toks[pos..]`, and the position after
/// its terminator; or the first error.
pub open spec fn spec_parse_cc_msg_srs_v1(toks: Seq<Seq<char>>, pos: int) -> Result<
    (CCMsgSrsV1View, int),
    ErrorView,
> {
    spec_parse_cc_msg_srs_v1_loop(toks, pos, CCMsgSrsV1Partial::init())
}

/// A successful CREDITCARDMSGSRSV1 decode consumes at least one token and never
/// runs past the end of the stream.
pub proof fn lemma_spec_parse_cc_msg_srs_v1_loop_advances(toks: Seq<Seq<char>>, pos: int, acc: CCMsgSrsV1Partial)
    ensures
        spec_parse_cc_msg_srs_v1_loop(toks, pos, acc) matches Ok((v, p)) ==> pos < p <= toks.len(),
    decreases toks.len() - pos,
{
    if 0 <= pos < toks.len() {
        let t = toks[pos];
        if t == "CCSTMTTRNRS"@ {
            lemma_spec_parse_ccstmttrnrs_advances(toks, pos + 1);
            match spec_parse_ccstmttrnrs(toks, pos + 1) {
                Ok((v, p2)) => {
                    lemma_spec_parse_cc_msg_srs_v1_loop_advances(
                        toks,
                        p2,
                        CCMsgSrsV1Partial { ccstmttrns: Some(v), ..acc },
                    );
                },
                Err(e) => {},
            }
        }
    }
}

/// A successful CREDITCARDMSGSRSV1 decode consumes at least one token and never
/// runs past the end of the stream.
pub proof fn lemma_spec_parse_cc_msg_srs_v1_advances(toks: Seq<Seq<char>>, pos: int)
    ensures
        spec_parse_cc_msg_srs_v1(toks, pos) matches Ok((v, p)) ==> pos < p <= toks.len(),
{
    lemma_spec_parse_cc_msg_srs_v1_loop_advances(toks, pos, CCMsgSrsV1Partial::init());
}

impl CCMsgSrsV1 {
    /// Decodes one CREDITCARDMSGSRSV1 record: CCSTMTTRNRS required, up to
    /// and including the `/CREDITCARDMSGSRSV1` terminator.
    #[verifier::loop_isolation(false)]
    pub fn parse(tokens: &mut TokenCursor) -> (r: Result<CCMsgSrsV1, QFXParsingError>)
        ensures
            final(tokens)@.toks == old(tokens)@.toks,
            old(tokens)@.pos <= final(tokens)@.pos,
            match r {
                Ok(v) => spec_parse_cc_msg_srs_v1(old(tokens)@.toks, old(tokens)@.pos) == Ok::<
                    (CCMsgSrsV1View, int),
                    ErrorView,
                >((v@, final(tokens)@.pos)),
                Err(e) => spec_parse_cc_msg_srs_v1(old(tokens)@.toks, old(tokens)@.pos) == Err::<
                    (CCMsgSrsV1View, int),
                    ErrorView,
                >(e@),
            },
    {
        let ghost toks = tokens@.toks;
        let ghost pos0 = tokens@.pos;
        let mut ccstmttrns: Option<Ccstmttrnrs> = None;
        loop
            invariant
                tokens@.toks == toks,
                pos0 <= tokens@.pos,
                spec_parse_cc_msg_srs_v1(toks, pos0) == spec_parse_cc_msg_srs_v1_loop(
                    toks,
                    tokens@.pos,
                    CCMsgSrsV1Partial {
                        ccstmttrns: ccstmttrns.deep_view(),
                    },
                ),
            decreases toks.len() - tokens@.pos,
        {
            match tokens.next() {
                None => {
                    return Err(
                        QFXParsingError::UnexpectedEOF(
                            String::from_str(
                                "Found unexpected EOF. Was still expecting the '/CREDITCARDMSGSRSV1' token",
                            ),
                        ),
                    );
                },
                Some(t) => {
                    if str_eq(t.as_str(), "CCSTMTTRNRS") {
                        match Ccstmttrnrs::parse(tokens) {
                            Ok(v) => {
                                ccstmttrns = Some(v);
                            },
                            Err(e) => {
                                return Err(e);
                            },
                        }
                    } else if str_eq(t.as_str(), "/CREDITCARDMSGSRSV1") {
                        let f_ccstmttrns = match ccstmttrns {
                            Some(v) => v,
                            None => {
                                return Err(
                                    QFXParsingError::MissingRequiredValue(
                                        String::from_str("CCSTMTTRNRS is a requied value in CREDITCARDMSGSRSV1"),
                                    ),
                                );
                            },
                        };
                        return Ok(
                            CCMsgSrsV1 {
                                ccstmttrns: f_ccstmttrns,
                            },
                        );
                    } else {
                        return Err(
                            QFXParsingError::UnexpectedToken(
                                concat3(
                                    "Found unexpected token ",
                                    t.as_str(),
                                    " in the CREDITCARDMSGSRSV1 type",
                                ),
                            ),
                        );
                    }
                },
            }
        }
    }
}

} // verus!
