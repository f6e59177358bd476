//! The leaf and list records shared by the bank and credit-card statements:
//! status, balances, transactions and the transaction list.
//!
//! Every record is decoded by the same uniform algorithm: pull tokens until
//! the record's terminator tag appears; a known field tag consumes the
//! following token as its value (a date-time or amount field normalizes it),
//! a known nested tag decodes the nested record recursively, an unknown tag
//! aborts the decode, and the terminator checks that every required field
//! was seen — naming, in schema order, the first one that was not.  Scalar
//! fields are last-write-wins when repeated.

use vstd::prelude::*;
use crate::amount::Amount;
use crate::amount::AmountView;
use crate::amount::spec_parse_amount;
use crate::amount::parse_amount;
use crate::datetime::UtcDateTime;
use crate::datetime::spec_parse_ofx_datetime;
use crate::datetime::try_parse_ofx_datetime;
use crate::errors::ErrorView;
use crate::errors::QFXParsingError;
use crate::errors::concat2;
use crate::errors::concat3;
use crate::tokenizer::TokenCursor;
use crate::tokenizer::str_eq;

verus! {

/// Response status of a request: numeric code, severity word, optional
/// free-text message.
#[derive(Clone, Debug, PartialEq, Eq)]
pub struct Status {
    pub code: String,
    pub severity: String,
    pub message: Option<String>,
}

/// Mathematical mirror of [`Status`].
pub struct StatusView {
    pub code: Seq<char>,
    pub severity: Seq<char>,
    pub message: Option<Seq<char>>,
}

impl View for Status {
    type V = StatusView;

    open spec fn view(&self) -> StatusView {
        StatusView {
            code: self.code@,
            severity: self.severity@,
            message: self.message.deep_view(),
        }
    }
}

impl DeepView for Status {
    type V = StatusView;

    open spec fn deep_view(&self) -> StatusView {
        self.view()
    }
}

/// Field state of a STATUS record while its tokens are being consumed.
pub struct StatusPartial {
    pub code: Option<Seq<char>>,
    pub severity: Option<Seq<char>>,
    pub message: Option<Seq<char>>,
}

impl StatusPartial {
    /// All fields still unset.
    pub open spec fn init() -> StatusPartial {
        StatusPartial { code: None, severity: None, message: None }
    }
}

/// One step of decoding a STATUS record from `toks[pos..]` with the fields
/// seen so far in `acc`; see the module description for the uniform
/// algorithm.
pub open spec fn spec_parse_status_loop(toks: Seq<Seq<char>>, pos: int, acc: StatusPartial) -> Result<
    (StatusView, int),
    ErrorView,
>
    decreases toks.len() - pos,
{
    if pos < 0 || pos >= toks.len() {
        Err(
            ErrorView::UnexpectedEOF(
                "Found unexpected EOF. Was still expecting the '/STATUS' token in the CREDITCARDMSGSRSV1 subtype"@,
            ),
        )
    } else {
        let t = toks[pos];
        if t == "CODE"@ {
            if pos + 1 < toks.len() {
                spec_parse_status_loop(
                    toks,
                    pos + 2,
                    StatusPartial { code: Some(toks[pos + 1]), ..acc },
                )
            } else {
                Err(
                    ErrorView::UnexpectedEOF(
                        "Expected token following the CODE token in the STATUS type of CREDITCARDMSGSRSV1"@,
                    ),
                )
            }
        } else if t == "SEVERITY"@ {
            if pos + 1 < toks.len() {
                spec_parse_status_loop(
                    toks,
                    pos + 2,
                    StatusPartial { severity: Some(toks[pos + 1]), ..acc },
                )
            } else {
                Err(
                    ErrorView::UnexpectedEOF(
                        "Expected token following the SEVERITY token in the STATUS type"@,
                    ),
                )
            }
        } else if t == "MESSAGE"@ {
            if pos + 1 < toks.len() {
                spec_parse_status_loop(
                    toks,
                    pos + 2,
                    StatusPartial { message: Some(toks[pos + 1]), ..acc },
                )
            } else {
                Err(
                    ErrorView::UnexpectedEOF(
                        "Expected token following the MESSAGE token in the STATUS type"@,
                    ),
                )
            }
        } else if t == "/STATUS"@ {
            match acc.code {
                None => Err(ErrorView::MissingRequiredValue("Missing CODE in STATUS"@)),
                Some(code) => match acc.severity {
                    None => Err(ErrorView::MissingRequiredValue("Missing SEVERITY in STATUS"@)),
                    Some(severity) => Ok(
                        (StatusView { code, severity, message: acc.message }, pos + 1),
                    ),
                },
            }
        } else {
            Err(
                ErrorView::UnexpectedToken(
                    "Found unexpected token "@ + t
                        + " in the STATUS type of CREDITCARDMSGSRSV1"@,
                ),
            )
        }
    }
}

/// The STATUS record decoded from `toks[pos..]`, and the position after its
/// terminator; or the first error.
pub open spec fn spec_parse_status(toks: Seq<Seq<char>>, pos: int) -> Result<
    (StatusView, int),
    ErrorView,
> {
    spec_parse_status_loop(toks, pos, StatusPartial::init())
}

/// A successful STATUS decode consumes at least one token and never runs
/// past the end of the stream.
pub proof fn lemma_spec_parse_status_loop_advances(toks: Seq<Seq<char>>, pos: int, acc: StatusPartial)
    ensures
        spec_parse_status_loop(toks, pos, acc) matches Ok((v, p)) ==> pos < p <= toks.len(),
    decreases toks.len() - pos,
{
    if 0 <= pos < toks.len() && pos + 1 < toks.len() {
        let t = toks[pos];
        if t == "CODE"@ {
            lemma_spec_parse_status_loop_advances(
                toks,
                pos + 2,
                StatusPartial { code: Some(toks[pos + 1]), ..acc },
            );
        } else if t == "SEVERITY"@ {
            lemma_spec_parse_status_loop_advances(
                toks,
                pos + 2,
                StatusPartial { severity: Some(toks[pos + 1]), ..acc },
            );
        } else if t == "MESSAGE"@ {
            lemma_spec_parse_status_loop_advances(
                toks,
                pos + 2,
                StatusPartial { message: Some(toks[pos + 1]), ..acc },
            );
        }
    }
}

/// A successful STATUS decode consumes at least one token and never runs
/// past the end of the stream.
pub proof fn lemma_spec_parse_status_advances(toks: Seq<Seq<char>>, pos: int)
    ensures
        spec_parse_status(toks, pos) matches Ok((v, p)) ==> pos < p <= toks.len(),
{
    lemma_spec_parse_status_loop_advances(toks, pos, StatusPartial::init());
}

impl Status {
    /// Decodes one STATUS record: CODE and SEVERITY required, MESSAGE
    /// optional, up to and including the `/STATUS` terminator.
    #[verifier::loop_isolation(false)]
    pub fn parse(tokens: &mut TokenCursor) -> (r: Result<Status, QFXParsingError>)
        ensures
            final(tokens)@.toks == old(tokens)@.toks,
            old(tokens)@.pos <= final(tokens)@.pos,
            match r {
                Ok(v) => spec_parse_status(old(tokens)@.toks, old(tokens)@.pos) == Ok::<
                    (StatusView, int),
                    ErrorView,
                >((v@, final(tokens)@.pos)),
                Err(e) => spec_parse_status(old(tokens)@.toks, old(tokens)@.pos) == Err::<
                    (StatusView, int),
                    ErrorView,
                >(e@),
            },
    {
        let ghost toks = tokens@.toks;
        let ghost pos0 = tokens@.pos;
        let mut code: Option<String> = None;
        let mut severity: Option<String> = None;
        let mut message: Option<String> = None;
        loop
            invariant
                tokens@.toks == toks,
                pos0 <= tokens@.pos,
                spec_parse_status(toks, pos0) == spec_parse_status_loop(
                    toks,
                    tokens@.pos,
                    StatusPartial {
                        code: code.deep_view(),
                        severity: severity.deep_view(),
                        message: message.deep_view(),
                    },
                ),
            decreases toks.len() - tokens@.pos,
        {
            match tokens.next() {
                None => {
                    return Err(
                        QFXParsingError::UnexpectedEOF(
                            String::from_str(
                                "Found unexpected EOF. Was still expecting the '/STATUS' token in the CREDITCARDMSGSRSV1 subtype",
                            ),
                        ),
                    );
                },
                Some(t) => {
                    if str_eq(t.as_str(), "CODE") {
                        match tokens.next() {
                            Some(v) => {
                                code = Some(v);
                            },
                            None => {
                                return Err(
                                    QFXParsingError::UnexpectedEOF(
                                        String::from_str(
                                            "Expected token following the CODE token in the STATUS type of CREDITCARDMSGSRSV1",
                                        ),
                                    ),
                                );
                            },
                        }
                    } else if str_eq(t.as_str(), "SEVERITY") {
                        match tokens.next() {
                            Some(v) => {
                                severity = Some(v);
                            },
                            None => {
                                return Err(
                                    QFXParsingError::UnexpectedEOF(
                                        String::from_str(
                                            "Expected token following the SEVERITY token in the STATUS type",
                                        ),
                                    ),
                                );
                            },
                        }
                    } else if str_eq(t.as_str(), "MESSAGE") {
                        match tokens.next() {
                            Some(v) => {
                                message = Some(v);
                            },
                            None => {
                                return Err(
                                    QFXParsingError::UnexpectedEOF(
                                        String::from_str(
                                            "Expected token following the MESSAGE token in the STATUS type",
                                        ),
                                    ),
                                );
                            },
                        }
                    } else if str_eq(t.as_str(), "/STATUS") {
                        let c = match code {
                            Some(c) => c,
                            None => {
                                return Err(
                                    QFXParsingError::MissingRequiredValue(
                                        String::from_str("Missing CODE in STATUS"),
                                    ),
                                );
                            },
                        };
                        let sv = match severity {
                            Some(sv) => sv,
                            None => {
                                return Err(
                                    QFXParsingError::MissingRequiredValue(
                                        String::from_str("Missing SEVERITY in STATUS"),
                                    ),
                                );
                            },
                        };
                        return Ok(Status { code: c, severity: sv, message });
                    } else {
                        return Err(
                            QFXParsingError::UnexpectedToken(
                                concat3(
                                    "Found unexpected token ",
                                    t.as_str(),
                                    " in the STATUS type of CREDITCARDMSGSRSV1",
                                ),
                            ),
                        );
                    }
                },
            }
        }
    }
}


/// Ledger balance: raw amount string and the instant it is as of.
#[derive(Clone, Debug, PartialEq, Eq)]
pub struct LedgerBal {
    pub balance_amount: String,
    pub dt_as_of: UtcDateTime,
}

/// Mathematical mirror of [`LedgerBal`].
pub struct LedgerBalView {
    pub balance_amount: Seq<char>,
    pub dt_as_of: UtcDateTime,
}

impl View for LedgerBal {
    type V = LedgerBalView;

    open spec fn view(&self) -> LedgerBalView {
        LedgerBalView { balance_amount: self.balance_amount@, dt_as_of: self.dt_as_of }
    }
}

impl DeepView for LedgerBal {
    type V = LedgerBalView;

    open spec fn deep_view(&self) -> LedgerBalView {
        self.view()
    }
}

/// Field state of a LEDGERBAL record while its tokens are being consumed.
pub struct LedgerBalPartial {
    pub balance_amount: Option<Seq<char>>,
    pub dt_as_of: Option<UtcDateTime>,
}

impl LedgerBalPartial {
    /// All fields still unset.
    pub open spec fn init() -> LedgerBalPartial {
        LedgerBalPartial { balance_amount: None, dt_as_of: None }
    }
}

/// One step of decoding a LEDGERBAL record from `toks[pos..]`.
pub open spec fn spec_parse_ledger_bal_loop(
    toks: Seq<Seq<char>>,
    pos: int,
    acc: LedgerBalPartial,
) -> Result<(LedgerBalView, int), ErrorView>
    decreases toks.len() - pos,
{
    if pos < 0 || pos >= toks.len() {
        Err(
            ErrorView::UnexpectedEOF(
                "Found unexpected EOF. Was still expecting the '/LEDGERBAL' token"@,
            ),
        )
    } else {
        let t = toks[pos];
        if t == "BALAMT"@ {
            if pos + 1 < toks.len() {
                spec_parse_ledger_bal_loop(
                    toks,
                    pos + 2,
                    LedgerBalPartial { balance_amount: Some(toks[pos + 1]), ..acc },
                )
            } else {
                Err(ErrorView::UnexpectedEOF("Expected value following BALAMT in LEDGERBAL"@))
            }
        } else if t == "DTASOF"@ {
            if pos + 1 < toks.len() {
                match spec_parse_ofx_datetime(toks[pos + 1]) {
                    Some(dt) => spec_parse_ledger_bal_loop(
                        toks,
                        pos + 2,
                        LedgerBalPartial { dt_as_of: Some(dt), ..acc },
                    ),
                    None => Err(
                        ErrorView::UnexpectedDateFormat(
                            "Failed to parse datetime for DTASOF with "@ + toks[pos + 1],
                        ),
                    ),
                }
            } else {
                Err(ErrorView::UnexpectedEOF("Expected token following the DTASOF token"@))
            }
        } else if t == "/LEDGERBAL"@ {
            match acc.balance_amount {
                None => Err(ErrorView::MissingRequiredValue("Missing BALAMT in LEDGERBAL"@)),
                Some(balance_amount) => match acc.dt_as_of {
                    None => Err(ErrorView::MissingRequiredValue("Missing DTASOF in LEDGERBAL"@)),
                    Some(dt_as_of) => Ok((LedgerBalView { balance_amount, dt_as_of }, pos + 1)),
                },
            }
        } else {
            Err(
                ErrorView::UnexpectedToken(
                    "Found unexpected token "@ + t + " in the LEDGERBAL type"@,
                ),
            )
        }
    }
}

/// The LEDGERBAL record decoded from `toks[pos..]`, and the position after
/// its terminator; or the first error.
pub open spec fn spec_parse_ledger_bal(toks: Seq<Seq<char>>, pos: int) -> Result<
    (LedgerBalView, int),
    ErrorView,
> {
    spec_parse_ledger_bal_loop(toks, pos, LedgerBalPartial::init())
}

/// A successful LEDGERBAL decode consumes at least one token and never runs
/// past the end of the stream.
pub proof fn lemma_spec_parse_ledger_bal_loop_advances(
    toks: Seq<Seq<char>>,
    pos: int,
    acc: LedgerBalPartial,
)
    ensures
        spec_parse_ledger_bal_loop(toks, pos, acc) matches Ok((v, p)) ==> pos < p <= toks.len(),
    decreases toks.len() - pos,
{
    if 0 <= pos < toks.len() && pos + 1 < toks.len() {
        let t = toks[pos];
        if t == "BALAMT"@ {
            lemma_spec_parse_ledger_bal_loop_advances(
                toks,
                pos + 2,
                LedgerBalPartial { balance_amount: Some(toks[pos + 1]), ..acc },
            );
        } else if t == "DTASOF"@ {
            match spec_parse_ofx_datetime(toks[pos + 1]) {
                Some(dt) => lemma_spec_parse_ledger_bal_loop_advances(
                    toks,
                    pos + 2,
                    LedgerBalPartial { dt_as_of: Some(dt), ..acc },
                ),
                None => {},
            }
        }
    }
}

/// A successful LEDGERBAL decode consumes at least one token and never
/// runs past the end of the stream.
pub proof fn lemma_spec_parse_ledger_bal_advances(toks: Seq<Seq<char>>, pos: int)
    ensures
        spec_parse_ledger_bal(toks, pos) matches Ok((v, p)) ==> pos < p <= toks.len(),
{
    lemma_spec_parse_ledger_bal_loop_advances(toks, pos, LedgerBalPartial::init());
}

impl LedgerBal {
    /// Decodes one LEDGERBAL record: BALAMT and DTASOF both required, up to
    /// and including the `/LEDGERBAL` terminator.
    #[verifier::loop_isolation(false)]
    pub fn parse(tokens: &mut TokenCursor) -> (r: Result<LedgerBal, QFXParsingError>)
        ensures
            final(tokens)@.toks == old(tokens)@.toks,
            old(tokens)@.pos <= final(tokens)@.pos,
            match r {
                Ok(v) => spec_parse_ledger_bal(old(tokens)@.toks, old(tokens)@.pos) == Ok::<
                    (LedgerBalView, int),
                    ErrorView,
                >((v@, final(tokens)@.pos)),
                Err(e) => spec_parse_ledger_bal(old(tokens)@.toks, old(tokens)@.pos) == Err::<
                    (LedgerBalView, int),
                    ErrorView,
                >(e@),
            },
    {
        let ghost toks = tokens@.toks;
        let ghost pos0 = tokens@.pos;
        let mut balance_amount: Option<String> = None;
        let mut dt_as_of: Option<UtcDateTime> = None;
        loop
            invariant
                tokens@.toks == toks,
                pos0 <= tokens@.pos,
                spec_parse_ledger_bal(toks, pos0) == spec_parse_ledger_bal_loop(
                    toks,
                    tokens@.pos,
                    LedgerBalPartial { balance_amount: balance_amount.deep_view(), dt_as_of },
                ),
            decreases toks.len() - tokens@.pos,
        {
            match tokens.next() {
                None => {
                    return Err(
                        QFXParsingError::UnexpectedEOF(
                            String::from_str(
                                "Found unexpected EOF. Was still expecting the '/LEDGERBAL' token",
                            ),
                        ),
                    );
                },
                Some(t) => {
                    if str_eq(t.as_str(), "BALAMT") {
                        match tokens.next() {
                            Some(v) => {
                                balance_amount = Some(v);
                            },
                            None => {
                                return Err(
                                    QFXParsingError::UnexpectedEOF(
                                        String::from_str(
                                            "Expected value following BALAMT in LEDGERBAL",
                                        ),
                                    ),
                                );
                            },
                        }
                    } else if str_eq(t.as_str(), "DTASOF") {
                        match tokens.next() {
                            Some(v) => {
                                match try_parse_ofx_datetime(v.as_str()) {
                                    Some(dt) => {
                                        dt_as_of = Some(dt);
                                    },
                                    None => {
                                        return Err(
                                            QFXParsingError::UnexpectedDateFormat(
                                                concat2(
                                                    "Failed to parse datetime for DTASOF with ",
                                                    v.as_str(),
                                                ),
                                            ),
                                        );
                                    },
                                }
                            },
                            None => {
                                return Err(
                                    QFXParsingError::UnexpectedEOF(
                                        String::from_str(
                                            "Expected token following the DTASOF token",
                                        ),
                                    ),
                                );
                            },
                        }
                    } else if str_eq(t.as_str(), "/LEDGERBAL") {
                        let ba = match balance_amount {
                            Some(ba) => ba,
                            None => {
                                return Err(
                                    QFXParsingError::MissingRequiredValue(
                                        String::from_str("Missing BALAMT in LEDGERBAL"),
                                    ),
                                );
                            },
                        };
                        let dt = match dt_as_of {
                            Some(dt) => dt,
                            None => {
                                return Err(
                                    QFXParsingError::MissingRequiredValue(
                                        String::from_str("Missing DTASOF in LEDGERBAL"),
                                    ),
                                );
                            },
                        };
                        return Ok(LedgerBal { balance_amount: ba, dt_as_of: dt });
                    } else {
                        return Err(
                            QFXParsingError::UnexpectedToken(
                                concat3(
                                    "Found unexpected token ",
                                    t.as_str(),
                                    " in the LEDGERBAL type",
                                ),
                            ),
                        );
                    }
                },
            }
        }
    }
}

/// Available balance: raw amount string and the instant it is as of.
#[derive(Clone, Debug, PartialEq, Eq)]
pub struct AvailableBalance {
    pub balance_amount: String,
    pub dt_as_of: UtcDateTime,
}

/// Mathematical mirror of [`AvailableBalance`].
pub struct AvailableBalanceView {
    pub balance_amount: Seq<char>,
    pub dt_as_of: UtcDateTime,
}

impl View for AvailableBalance {
    type V = AvailableBalanceView;

    open spec fn view(&self) -> AvailableBalanceView {
        AvailableBalanceView { balance_amount: self.balance_amount@, dt_as_of: self.dt_as_of }
    }
}

impl DeepView for AvailableBalance {
    type V = AvailableBalanceView;

    open spec fn deep_view(&self) -> AvailableBalanceView {
        self.view()
    }
}

/// Field state of a AVAILBAL record while its tokens are being consumed.
pub struct AvailableBalancePartial {
    pub balance_amount: Option<Seq<char>>,
    pub dt_as_of: Option<UtcDateTime>,
}

impl AvailableBalancePartial {
    /// All fields still unset.
    pub open spec fn init() -> AvailableBalancePartial {
        AvailableBalancePartial { balance_amount: None, dt_as_of: None }
    }
}

/// One step of decoding a AVAILBAL record from `toks[pos..]`.
pub open spec fn spec_parse_avail_bal_loop(
    toks: Seq<Seq<char>>,
    pos: int,
    acc: AvailableBalancePartial,
) -> Result<(AvailableBalanceView, int), ErrorView>
    decreases toks.len() - pos,
{
    if pos < 0 || pos >= toks.len() {
        Err(
            ErrorView::UnexpectedEOF(
                "Found unexpected EOF. Was still expecting the '/AVAILBAL' token"@,
            ),
        )
    } else {
        let t = toks[pos];
        if t == "BALAMT"@ {
            if pos + 1 < toks.len() {
                spec_parse_avail_bal_loop(
                    toks,
                    pos + 2,
                    AvailableBalancePartial { balance_amount: Some(toks[pos + 1]), ..acc },
                )
            } else {
                Err(ErrorView::UnexpectedEOF("Expected token following the BALAMT token"@))
            }
        } else if t == "DTASOF"@ {
            if pos + 1 < toks.len() {
                match spec_parse_ofx_datetime(toks[pos + 1]) {
                    Some(dt) => spec_parse_avail_bal_loop(
                        toks,
                        pos + 2,
                        AvailableBalancePartial { dt_as_of: Some(dt), ..acc },
                    ),
                    None => Err(
                        ErrorView::UnexpectedDateFormat(
                            "Failed to parse datetime for DTASOF with "@ + toks[pos + 1],
                        ),
                    ),
                }
            } else {
                Err(ErrorView::UnexpectedEOF("Expected token following the DTASOF token"@))
            }
        } else if t == "/AVAILBAL"@ {
            match acc.balance_amount {
                None => Err(ErrorView::MissingRequiredValue("Missing BALAMT in AVAILBAL"@)),
                Some(balance_amount) => match acc.dt_as_of {
                    None => Err(ErrorView::MissingRequiredValue("Missing DTASOF in AVAILBAL"@)),
                    Some(dt_as_of) => Ok((AvailableBalanceView { balance_amount, dt_as_of }, pos + 1)),
                },
            }
        } else {
            Err(
                ErrorView::UnexpectedToken(
                    "Found unexpected token "@ + t + " in the AVAILBAL type"@,
                ),
            )
        }
    }
}

/// The AVAILBAL record decoded from `toks[pos..]`, and the position after
/// its terminator; or the first error.
pub open spec fn spec_parse_avail_bal(toks: Seq<Seq<char>>, pos: int) -> Result<
    (AvailableBalanceView, int),
    ErrorView,
> {
    spec_parse_avail_bal_loop(toks, pos, AvailableBalancePartial::init())
}

/// A successful AVAILBAL decode consumes at least one token and never runs
/// past the end of the stream.
pub proof fn lemma_spec_parse_avail_bal_loop_advances(
    toks: Seq<Seq<char>>,
    pos: int,
    acc: AvailableBalancePartial,
)
    ensures
        spec_parse_avail_bal_loop(toks, pos, acc) matches Ok((v, p)) ==> pos < p <= toks.len(),
    decreases toks.len() - pos,
{
    if 0 <= pos < toks.len() && pos + 1 < toks.len() {
        let t = toks[pos];
        if t == "BALAMT"@ {
            lemma_spec_parse_avail_bal_loop_advances(
                toks,
                pos + 2,
                AvailableBalancePartial { balance_amount: Some(toks[pos + 1]), ..acc },
            );
        } else if t == "DTASOF"@ {
            match spec_parse_ofx_datetime(toks[pos + 1]) {
                Some(dt) => lemma_spec_parse_avail_bal_loop_advances(
                    toks,
                    pos + 2,
                    AvailableBalancePartial { dt_as_of: Some(dt), ..acc },
                ),
                None => {},
            }
        }
    }
}

/// A successful AVAILBAL decode consumes at least one token and never runs
/// past the end of the stream.
pub proof fn lemma_spec_parse_avail_bal_advances(toks: Seq<Seq<char>>, pos: int)
    ensures
        spec_parse_avail_bal(toks, pos) matches Ok((v, p)) ==> pos < p <= toks.len(),
{
    lemma_spec_parse_avail_bal_loop_advances(toks, pos, AvailableBalancePartial::init());
}

impl AvailableBalance {
    /// Decodes one AVAILBAL record: BALAMT and DTASOF both required, up to
    /// and including the `/AVAILBAL` terminator.
    #[verifier::loop_isolation(false)]
    pub fn parse(tokens: &mut TokenCursor) -> (r: Result<AvailableBalance, QFXParsingError>)
        ensures
            final(tokens)@.toks == old(tokens)@.toks,
            old(tokens)@.pos <= final(tokens)@.pos,
            match r {
                Ok(v) => spec_parse_avail_bal(old(tokens)@.toks, old(tokens)@.pos) == Ok::<
                    (AvailableBalanceView, int),
                    ErrorView,
                >((v@, final(tokens)@.pos)),
                Err(e) => spec_parse_avail_bal(old(tokens)@.toks, old(tokens)@.pos) == Err::<
                    (AvailableBalanceView, int),
                    ErrorView,
                >(e@),
            },
    {
        let ghost toks = tokens@.toks;
        let ghost pos0 = tokens@.pos;
        let mut balance_amount: Option<String> = None;
        let mut dt_as_of: Option<UtcDateTime> = None;
        loop
            invariant
                tokens@.toks == toks,
                pos0 <= tokens@.pos,
                spec_parse_avail_bal(toks, pos0) == spec_parse_avail_bal_loop(
                    toks,
                    tokens@.pos,
                    AvailableBalancePartial { balance_amount: balance_amount.deep_view(), dt_as_of },
                ),
            decreases toks.len() - tokens@.pos,
        {
            match tokens.next() {
                None => {
                    return Err(
                        QFXParsingError::UnexpectedEOF(
                            String::from_str(
                                "Found unexpected EOF. Was still expecting the '/AVAILBAL' token",
                            ),
                        ),
                    );
                },
                Some(t) => {
                    if str_eq(t.as_str(), "BALAMT") {
                        match tokens.next() {
                            Some(v) => {
                                balance_amount = Some(v);
                            },
                            None => {
                                return Err(
                                    QFXParsingError::UnexpectedEOF(
                                        String::from_str(
                                            "Expected token following the BALAMT token",
                                        ),
                                    ),
                                );
                            },
                        }
                    } else if str_eq(t.as_str(), "DTASOF") {
                        match tokens.next() {
                            Some(v) => {
                                match try_parse_ofx_datetime(v.as_str()) {
                                    Some(dt) => {
                                        dt_as_of = Some(dt);
                                    },
                                    None => {
                                        return Err(
                                            QFXParsingError::UnexpectedDateFormat(
                                                concat2(
                                                    "Failed to parse datetime for DTASOF with ",
                                                    v.as_str(),
                                                ),
                                            ),
                                        );
                                    },
                                }
                            },
                            None => {
                                return Err(
                                    QFXParsingError::UnexpectedEOF(
                                        String::from_str(
                                            "Expected token following the DTASOF token",
                                        ),
                                    ),
                                );
                            },
                        }
                    } else if str_eq(t.as_str(), "/AVAILBAL") {
                        let ba = match balance_amount {
                            Some(ba) => ba,
                            None => {
                                return Err(
                                    QFXParsingError::MissingRequiredValue(
                                        String::from_str("Missing BALAMT in AVAILBAL"),
                                    ),
                                );
                            },
                        };
                        let dt = match dt_as_of {
                            Some(dt) => dt,
                            None => {
                                return Err(
                                    QFXParsingError::MissingRequiredValue(
                                        String::from_str("Missing DTASOF in AVAILBAL"),
                                    ),
                                );
                            },
                        };
                        return Ok(AvailableBalance { balance_amount: ba, dt_as_of: dt });
                    } else {
                        return Err(
                            QFXParsingError::UnexpectedToken(
                                concat3(
                                    "Found unexpected token ",
                                    t.as_str(),
                                    " in the AVAILBAL type",
                                ),
                            ),
                        );
                    }
                },
            }
        }
    }
}

/// One statement transaction: type code, posting instant, signed amount,
/// institution transaction id, optional correction pair, name, optional
/// memo, optional check number.
#[derive(Clone, Debug, PartialEq, Eq)]
pub struct Stmttrn {
    pub trans_type: String,
    pub dt_posted: UtcDateTime,
    pub trans_amount: Amount,
    pub fit_id: String,
    pub correct_fit_id: Option<String>,
    pub correct_action: Option<String>,
    pub name: String,
    pub memo: Option<String>,
    pub check_num: Option<String>,
}

/// Mathematical mirror of [`Stmttrn`].
pub struct StmttrnView {
    pub trans_type: Seq<char>,
    pub dt_posted: UtcDateTime,
    pub trans_amount: AmountView,
    pub fit_id: Seq<char>,
    pub correct_fit_id: Option<Seq<char>>,
    pub correct_action: Option<Seq<char>>,
    pub name: Seq<char>,
    pub memo: Option<Seq<char>>,
    pub check_num: Option<Seq<char>>,
}

impl View for Stmttrn {
    type V = StmttrnView;

    open spec fn view(&self) -> StmttrnView {
        StmttrnView {
            trans_type: self.trans_type@,
            dt_posted: self.dt_posted,
            trans_amount: self.trans_amount@,
            fit_id: self.fit_id@,
            correct_fit_id: self.correct_fit_id.deep_view(),
            correct_action: self.correct_action.deep_view(),
            name: self.name@,
            memo: self.memo.deep_view(),
            check_num: self.check_num.deep_view(),
        }
    }
}

impl DeepView for Stmttrn {
    type V = StmttrnView;

    open spec fn deep_view(&self) -> StmttrnView {
        self.view()
    }
}

/// Field state of a STMTTRN record while its tokens are being consumed.
pub struct StmttrnPartial {
    pub trans_type: Option<Seq<char>>,
    pub dt_posted: Option<UtcDateTime>,
    pub trans_amount: Option<AmountView>,
    pub fit_id: Option<Seq<char>>,
    pub correct_fit_id: Option<Seq<char>>,
    pub correct_action: Option<Seq<char>>,
    pub name: Option<Seq<char>>,
    pub memo: Option<Seq<char>>,
    pub check_num: Option<Seq<char>>,
}

impl StmttrnPartial {
    /// All fields still unset.
    pub open spec fn init() -> StmttrnPartial {
        StmttrnPartial {
            trans_type: None,
            dt_posted: None,
            trans_amount: None,
            fit_id: None,
            correct_fit_id: None,
            correct_action: None,
            name: None,
            memo: None,
            check_num: None,
        }
    }
}

/// One step of decoding a STMTTRN record from `toks[pos..]`.
pub open spec fn spec_parse_stmttrn_loop(toks: Seq<Seq<char>>, pos: int, acc: StmttrnPartial) -> Result<
    (StmttrnView, int),
    ErrorView,
>
    decreases toks.len() - pos,
{
    if pos < 0 || pos >= toks.len() {
        Err(
            ErrorView::UnexpectedEOF(
                "Found unexpected EOF. Was still expecting the '/STMTTRN' token"@,
            ),
        )
    } else {
        let t = toks[pos];
        if t == "TRNTYPE"@ {
            if pos + 1 < toks.len() {
                spec_parse_stmttrn_loop(
                    toks,
                    pos + 2,
                    StmttrnPartial { trans_type: Some(toks[pos + 1]), ..acc },
                )
            } else {
                Err(
                    ErrorView::UnexpectedEOF(
                        "Expected token following the TRNTYPE token in STMTTRN"@,
                    ),
                )
            }
        } else if t == "DTPOSTED"@ {
            if pos + 1 < toks.len() {
                match spec_parse_ofx_datetime(toks[pos + 1]) {
                    Some(dt) => spec_parse_stmttrn_loop(
                        toks,
                        pos + 2,
                        StmttrnPartial { dt_posted: Some(dt), ..acc },
                    ),
                    None => Err(
                        ErrorView::UnexpectedDateFormat(
                            "Failed to parse datetime for DTPOSTED with "@ + toks[pos + 1],
                        ),
                    ),
                }
            } else {
                Err(
                    ErrorView::UnexpectedEOF(
                        "Expected token following the DTPOSTED token in STMTTRN"@,
                    ),
                )
            }
        } else if t == "TRNAMT"@ {
            if pos + 1 < toks.len() {
                match spec_parse_amount(toks[pos + 1]) {
                    Some(a) => spec_parse_stmttrn_loop(
                        toks,
                        pos + 2,
                        StmttrnPartial { trans_amount: Some(a), ..acc },
                    ),
                    None => Err(
                        ErrorView::InvalidTransactionAmount(
                            "Invalid transaction amount "@ + toks[pos + 1],
                        ),
                    ),
                }
            } else {
                Err(
                    ErrorView::UnexpectedEOF(
                        "Expected token following the TRNAMT token in STMTTRN"@,
                    ),
                )
            }
        } else if t == "FITID"@ {
            if pos + 1 < toks.len() {
                spec_parse_stmttrn_loop(
                    toks,
                    pos + 2,
                    StmttrnPartial { fit_id: Some(toks[pos + 1]), ..acc },
                )
            } else {
                Err(
                    ErrorView::UnexpectedEOF(
                        "Expected token following the FITID token in STMTTRN"@,
                    ),
                )
            }
        } else if t == "CORRECTFITID"@ {
            if pos + 1 < toks.len() {
                spec_parse_stmttrn_loop(
                    toks,
                    pos + 2,
                    StmttrnPartial { correct_fit_id: Some(toks[pos + 1]), ..acc },
                )
            } else {
                Err(
                    ErrorView::UnexpectedEOF(
                        "Expected token following the CORRECTFITID token in STMTTRN"@,
                    ),
                )
            }
        } else if t == "CORRECTACTION"@ {
            if pos + 1 < toks.len() {
                spec_parse_stmttrn_loop(
                    toks,
                    pos + 2,
                    StmttrnPartial { correct_action: Some(toks[pos + 1]), ..acc },
                )
            } else {
                Err(
                    ErrorView::UnexpectedEOF(
                        "Expected token following the CORRECTACTION token in STMTTRN"@,
                    ),
                )
            }
        } else if t == "NAME"@ {
            if pos + 1 < toks.len() {
                spec_parse_stmttrn_loop(
                    toks,
                    pos + 2,
                    StmttrnPartial { name: Some(toks[pos + 1]), ..acc },
                )
            } else {
                Err(
                    ErrorView::UnexpectedEOF(
                        "Expected token following the NAME token in STMTTRN"@,
                    ),
                )
            }
        } else if t == "MEMO"@ {
            if pos + 1 < toks.len() {
                spec_parse_stmttrn_loop(
                    toks,
                    pos + 2,
                    StmttrnPartial { memo: Some(toks[pos + 1]), ..acc },
                )
            } else {
                Err(
                    ErrorView::UnexpectedEOF(
                        "Expected token following the MEMO token in STMTTRN"@,
                    ),
                )
            }
        } else if t == "CHECKNUM"@ {
            if pos + 1 < toks.len() {
                spec_parse_stmttrn_loop(
                    toks,
                    pos + 2,
                    StmttrnPartial { check_num: Some(toks[pos + 1]), ..acc },
                )
            } else {
                Err(
                    ErrorView::UnexpectedEOF(
                        "Expected token following the CHECKNUM token in STMTTRN"@,
                    ),
                )
            }
        } else if t == "/STMTTRN"@ {
            match acc.trans_type {
                None => Err(
                    ErrorView::MissingRequiredValue("TRANSTYPE value is required in STMTRN"@),
                ),
                Some(trans_type) => match acc.dt_posted {
                    None => Err(
                        ErrorView::MissingRequiredValue("DTPOSTED value is required in STMTRN"@),
                    ),
                    Some(dt_posted) => match acc.trans_amount {
                        None => Err(
                            ErrorView::MissingRequiredValue(
                                "TRNSAMT value is required in STMTRN"@,
                            ),
                        ),
                        Some(trans_amount) => match acc.fit_id {
                            None => Err(
                                ErrorView::MissingRequiredValue(
                                    "FITID value is required in STMTRN"@,
                                ),
                            ),
                            Some(fit_id) => match acc.name {
                                None => Err(
                                    ErrorView::MissingRequiredValue(
                                        "NAME value is required in STMTRN"@,
                                    ),
                                ),
                                Some(name) => Ok(
                                    (
                                        StmttrnView {
                                            trans_type,
                                            dt_posted,
                                            trans_amount,
                                            fit_id,
                                            correct_fit_id: acc.correct_fit_id,
                                            correct_action: acc.correct_action,
                                            name,
                                            memo: acc.memo,
                                            check_num: acc.check_num,
                                        },
                                        pos + 1,
                                    ),
                                ),
                            },
                        },
                    },
                },
            }
        } else {
            Err(
                ErrorView::UnexpectedToken(
                    "Found unexpected token "@ + t + " in the STMTTRN type"@,
                ),
            )
        }
    }
}

/// The STMTTRN record decoded from `toks[pos..]`, and the position after its
/// terminator; or the first error.
pub open spec fn spec_parse_stmttrn(toks: Seq<Seq<char>>, pos: int) -> Result<
    (StmttrnView, int),
    ErrorView,
> {
    spec_parse_stmttrn_loop(toks, pos, StmttrnPartial::init())
}

/// A successful STMTTRN decode consumes at least one token and never runs
/// past the end of the stream.
pub proof fn lemma_spec_parse_stmttrn_loop_advances(
    toks: Seq<Seq<char>>,
    pos: int,
    acc: StmttrnPartial,
)
    ensures
        spec_parse_stmttrn_loop(toks, pos, acc) matches Ok((v, p)) ==> pos < p <= toks.len(),
    decreases toks.len() - pos,
{
    if 0 <= pos < toks.len() && pos + 1 < toks.len() {
        let t = toks[pos];
        if t == "TRNTYPE"@ {
            lemma_spec_parse_stmttrn_loop_advances(
                toks,
                pos + 2,
                StmttrnPartial { trans_type: Some(toks[pos + 1]), ..acc },
            );
        } else if t == "DTPOSTED"@ {
            match spec_parse_ofx_datetime(toks[pos + 1]) {
                Some(dt) => lemma_spec_parse_stmttrn_loop_advances(
                    toks,
                    pos + 2,
                    StmttrnPartial { dt_posted: Some(dt), ..acc },
                ),
                None => {},
            }
        } else if t == "TRNAMT"@ {
            match spec_parse_amount(toks[pos + 1]) {
                Some(a) => lemma_spec_parse_stmttrn_loop_advances(
                    toks,
                    pos + 2,
                    StmttrnPartial { trans_amount: Some(a), ..acc },
                ),
                None => {},
            }
        } else if t == "FITID"@ {
            lemma_spec_parse_stmttrn_loop_advances(
                toks,
                pos + 2,
                StmttrnPartial { fit_id: Some(toks[pos + 1]), ..acc },
            );
        } else if t == "CORRECTFITID"@ {
            lemma_spec_parse_stmttrn_loop_advances(
                toks,
                pos + 2,
                StmttrnPartial { correct_fit_id: Some(toks[pos + 1]), ..acc },
            );
        } else if t == "CORRECTACTION"@ {
            lemma_spec_parse_stmttrn_loop_advances(
                toks,
                pos + 2,
                StmttrnPartial { correct_action: Some(toks[pos + 1]), ..acc },
            );
        } else if t == "NAME"@ {
            lemma_spec_parse_stmttrn_loop_advances(
                toks,
                pos + 2,
                StmttrnPartial { name: Some(toks[pos + 1]), ..acc },
            );
        } else if t == "MEMO"@ {
            lemma_spec_parse_stmttrn_loop_advances(
                toks,
                pos + 2,
                StmttrnPartial { memo: Some(toks[pos + 1]), ..acc },
            );
        } else if t == "CHECKNUM"@ {
            lemma_spec_parse_stmttrn_loop_advances(
                toks,
                pos + 2,
                StmttrnPartial { check_num: Some(toks[pos + 1]), ..acc },
            );
        }
    }
}

/// A successful STMTTRN decode consumes at least one token and never runs
/// past the end of the stream.
pub proof fn lemma_spec_parse_stmttrn_advances(toks: Seq<Seq<char>>, pos: int)
    ensures
        spec_parse_stmttrn(toks, pos) matches Ok((v, p)) ==> pos < p <= toks.len(),
{
    lemma_spec_parse_stmttrn_loop_advances(toks, pos, StmttrnPartial::init());
}

impl Stmttrn {
    /// Decodes one STMTTRN record: TRNTYPE, DTPOSTED, TRNAMT, FITID and NAME
    /// required, the rest optional, up to and including the `/STMTTRN`
    /// terminator.
    #[verifier::loop_isolation(false)]
    pub fn parse(tokens: &mut TokenCursor) -> (r: Result<Stmttrn, QFXParsingError>)
        ensures
            final(tokens)@.toks == old(tokens)@.toks,
            old(tokens)@.pos <= final(tokens)@.pos,
            match r {
                Ok(v) => spec_parse_stmttrn(old(tokens)@.toks, old(tokens)@.pos) == Ok::<
                    (StmttrnView, int),
                    ErrorView,
                >((v@, final(tokens)@.pos)),
                Err(e) => spec_parse_stmttrn(old(tokens)@.toks, old(tokens)@.pos) == Err::<
                    (StmttrnView, int),
                    ErrorView,
                >(e@),
            },
    {
        let ghost toks = tokens@.toks;
        let ghost pos0 = tokens@.pos;
        let mut trans_type: Option<String> = None;
        let mut dt_posted: Option<UtcDateTime> = None;
        let mut trans_amount: Option<Amount> = None;
        let mut fit_id: Option<String> = None;
        let mut correct_fit_id: Option<String> = None;
        let mut correct_action: Option<String> = None;
        let mut name: Option<String> = None;
        let mut memo: Option<String> = None;
        let mut check_num: Option<String> = None;
        loop
            invariant
                tokens@.toks == toks,
                pos0 <= tokens@.pos,
                spec_parse_stmttrn(toks, pos0) == spec_parse_stmttrn_loop(
                    toks,
                    tokens@.pos,
                    StmttrnPartial {
                        trans_type: trans_type.deep_view(),
                        dt_posted,
                        trans_amount: trans_amount.deep_view(),
                        fit_id: fit_id.deep_view(),
                        correct_fit_id: correct_fit_id.deep_view(),
                        correct_action: correct_action.deep_view(),
                        name: name.deep_view(),
                        memo: memo.deep_view(),
                        check_num: check_num.deep_view(),
                    },
                ),
            decreases toks.len() - tokens@.pos,
        {
            match tokens.next() {
                None => {
                    return Err(
                        QFXParsingError::UnexpectedEOF(
                            String::from_str(
                                "Found unexpected EOF. Was still expecting the '/STMTTRN' token",
                            ),
                        ),
                    );
                },
                Some(t) => {
                    if str_eq(t.as_str(), "TRNTYPE") {
                        match tokens.next() {
                            Some(v) => {
                                trans_type = Some(v);
                            },
                            None => {
                                return Err(
                                    QFXParsingError::UnexpectedEOF(
                                        String::from_str(
                                            "Expected token following the TRNTYPE token in STMTTRN",
                                        ),
                                    ),
                                );
                            },
                        }
                    } else if str_eq(t.as_str(), "DTPOSTED") {
                        match tokens.next() {
                            Some(v) => {
                                match try_parse_ofx_datetime(v.as_str()) {
                                    Some(dt) => {
                                        dt_posted = Some(dt);
                                    },
                                    None => {
                                        return Err(
                                            QFXParsingError::UnexpectedDateFormat(
                                                concat2(
                                                    "Failed to parse datetime for DTPOSTED with ",
                                                    v.as_str(),
                                                ),
                                            ),
                                        );
                                    },
                                }
                            },
                            None => {
                                return Err(
                                    QFXParsingError::UnexpectedEOF(
                                        String::from_str(
                                            "Expected token following the DTPOSTED token in STMTTRN",
                                        ),
                                    ),
                                );
                            },
                        }
                    } else if str_eq(t.as_str(), "TRNAMT") {
                        match tokens.next() {
                            Some(v) => {
                                match parse_amount(v.as_str()) {
                                    Some(a) => {
                                        trans_amount = Some(a);
                                    },
                                    None => {
                                        return Err(
                                            QFXParsingError::InvalidTransactionAmount(
                                                concat2(
                                                    "Invalid transaction amount ",
                                                    v.as_str(),
                                                ),
                                            ),
                                        );
                                    },
                                }
                            },
                            None => {
                                return Err(
                                    QFXParsingError::UnexpectedEOF(
                                        String::from_str(
                                            "Expected token following the TRNAMT token in STMTTRN",
                                        ),
                                    ),
                                );
                            },
                        }
                    } else if str_eq(t.as_str(), "FITID") {
                        match tokens.next() {
                            Some(v) => {
                                fit_id = Some(v);
                            },
                            None => {
                                return Err(
                                    QFXParsingError::UnexpectedEOF(
                                        String::from_str(
                                            "Expected token following the FITID token in STMTTRN",
                                        ),
                                    ),
                                );
                            },
                        }
                    } else if str_eq(t.as_str(), "CORRECTFITID") {
                        match tokens.next() {
                            Some(v) => {
                                correct_fit_id = Some(v);
                            },
                            None => {
                                return Err(
                                    QFXParsingError::UnexpectedEOF(
                                        String::from_str(
                                            "Expected token following the CORRECTFITID token in STMTTRN",
                                        ),
                                    ),
                                );
                            },
                        }
                    } else if str_eq(t.as_str(), "CORRECTACTION") {
                        match tokens.next() {
                            Some(v) => {
                                correct_action = Some(v);
                            },
                            None => {
                                return Err(
                                    QFXParsingError::UnexpectedEOF(
                                        String::from_str(
                                            "Expected token following the CORRECTACTION token in STMTTRN",
                                        ),
                                    ),
                                );
                            },
                        }
                    } else if str_eq(t.as_str(), "NAME") {
                        match tokens.next() {
                            Some(v) => {
                                name = Some(v);
                            },
                            None => {
                                return Err(
                                    QFXParsingError::UnexpectedEOF(
                                        String::from_str(
                                            "Expected token following the NAME token in STMTTRN",
                                        ),
                                    ),
                                );
                            },
                        }
                    } else if str_eq(t.as_str(), "MEMO") {
                        match tokens.next() {
                            Some(v) => {
                                memo = Some(v);
                            },
                            None => {
                                return Err(
                                    QFXParsingError::UnexpectedEOF(
                                        String::from_str(
                                            "Expected token following the MEMO token in STMTTRN",
                                        ),
                                    ),
                                );
                            },
                        }
                    } else if str_eq(t.as_str(), "CHECKNUM") {
                        match tokens.next() {
                            Some(v) => {
                                check_num = Some(v);
                            },
                            None => {
                                return Err(
                                    QFXParsingError::UnexpectedEOF(
                                        String::from_str(
                                            "Expected token following the CHECKNUM token in STMTTRN",
                                        ),
                                    ),
                                );
                            },
                        }
                    } else if str_eq(t.as_str(), "/STMTTRN") {
                        let f_trans_type = match trans_type {
                            Some(v) => v,
                            None => {
                                return Err(
                                    QFXParsingError::MissingRequiredValue(
                                        String::from_str("TRANSTYPE value is required in STMTRN"),
                                    ),
                                );
                            },
                        };
                        let f_dt_posted = match dt_posted {
                            Some(v) => v,
                            None => {
                                return Err(
                                    QFXParsingError::MissingRequiredValue(
                                        String::from_str("DTPOSTED value is required in STMTRN"),
                                    ),
                                );
                            },
                        };
                        let f_trans_amount = match trans_amount {
                            Some(v) => v,
                            None => {
                                return Err(
                                    QFXParsingError::MissingRequiredValue(
                                        String::from_str("TRNSAMT value is required in STMTRN"),
                                    ),
                                );
                            },
                        };
                        let f_fit_id = match fit_id {
                            Some(v) => v,
                            None => {
                                return Err(
                                    QFXParsingError::MissingRequiredValue(
                                        String::from_str("FITID value is required in STMTRN"),
                                    ),
                                );
                            },
                        };
                        let f_name = match name {
                            Some(v) => v,
                            None => {
                                return Err(
                                    QFXParsingError::MissingRequiredValue(
                                        String::from_str("NAME value is required in STMTRN"),
                                    ),
                                );
                            },
                        };
                        return Ok(
                            Stmttrn {
                                trans_type: f_trans_type,
                                dt_posted: f_dt_posted,
                                trans_amount: f_trans_amount,
                                fit_id: f_fit_id,
                                correct_fit_id,
                                correct_action,
                                name: f_name,
                                memo,
                                check_num,
                            },
                        );
                    } else {
                        return Err(
                            QFXParsingError::UnexpectedToken(
                                concat3(
                                    "Found unexpected token ",
                                    t.as_str(),
                                    " in the STMTTRN type",
                                ),
                            ),
                        );
                    }
                },
            }
        }
    }
}

/// The statement transaction list: the period it covers and the ordered
/// transactions inside it, possibly none.
#[derive(Clone, Debug, PartialEq, Eq)]
pub struct BankTranList {
    pub dt_start: UtcDateTime,
    pub dt_end: UtcDateTime,
    pub transactions: Vec<Stmttrn>,
}

/// Mathematical mirror of [`BankTranList`].
pub struct BankTranListView {
    pub dt_start: UtcDateTime,
    pub dt_end: UtcDateTime,
    pub transactions: Seq<StmttrnView>,
}

impl View for BankTranList {
    type V = BankTranListView;

    open spec fn view(&self) -> BankTranListView {
        BankTranListView {
            dt_start: self.dt_start,
            dt_end: self.dt_end,
            transactions: self.transactions.deep_view(),
        }
    }
}

impl DeepView for BankTranList {
    type V = BankTranListView;

    open spec fn deep_view(&self) -> BankTranListView {
        self.view()
    }
}

/// Field state of a BANKTRANLIST record while its tokens are being consumed.
pub struct BankTranListPartial {
    pub dt_start: Option<UtcDateTime>,
    pub dt_end: Option<UtcDateTime>,
    pub transactions: Seq<StmttrnView>,
}

impl BankTranListPartial {
    /// Both instants unset and no transactions seen.
    pub open spec fn init() -> BankTranListPartial {
        BankTranListPartial { dt_start: None, dt_end: None, transactions: Seq::empty() }
    }
}

/// One step of decoding a BANKTRANLIST record from `toks[pos..]`.  Every
/// STMTTRN block appends one transaction, in input order.
pub open spec fn spec_parse_bank_tran_list_loop(
    toks: Seq<Seq<char>>,
    pos: int,
    acc: BankTranListPartial,
) -> Result<(BankTranListView, int), ErrorView>
    decreases toks.len() - pos,
    via spec_parse_bank_tran_list_loop_decreases
{
    if pos < 0 || pos >= toks.len() {
        Err(
            ErrorView::UnexpectedEOF(
                "Found unexpected EOF. Was still expecting the '/BANKTRANLIST' token"@,
            ),
        )
    } else {
        let t = toks[pos];
        if t == "DTSTART"@ {
            if pos + 1 < toks.len() {
                match spec_parse_ofx_datetime(toks[pos + 1]) {
                    Some(dt) => spec_parse_bank_tran_list_loop(
                        toks,
                        pos + 2,
                        BankTranListPartial { dt_start: Some(dt), ..acc },
                    ),
                    None => Err(
                        ErrorView::UnexpectedDateFormat(
                            "Failed to parse datetime for DTSTART with "@ + toks[pos + 1],
                        ),
                    ),
                }
            } else {
                Err(ErrorView::UnexpectedEOF("Expected token following the DTSTART token"@))
            }
        } else if t == "DTEND"@ {
            if pos + 1 < toks.len() {
                match spec_parse_ofx_datetime(toks[pos + 1]) {
                    Some(dt) => spec_parse_bank_tran_list_loop(
                        toks,
                        pos + 2,
                        BankTranListPartial { dt_end: Some(dt), ..acc },
                    ),
                    None => Err(
                        ErrorView::UnexpectedDateFormat(
                            "Failed to parse datetime for DTEND with "@ + toks[pos + 1],
                        ),
                    ),
                }
            } else {
                Err(ErrorView::UnexpectedEOF("Expected token following the DTEND token"@))
            }
        } else if t == "STMTTRN"@ {
            match spec_parse_stmttrn(toks, pos + 1) {
                Ok((v, p2)) => spec_parse_bank_tran_list_loop(
                    toks,
                    p2,
                    BankTranListPartial { transactions: acc.transactions.push(v), ..acc },
                ),
                Err(e) => Err(e),
            }
        } else if t == "/BANKTRANLIST"@ {
            match acc.dt_start {
                None => Err(ErrorView::MissingRequiredValue("Missing DTSTART in BANKTRANLIST"@)),
                Some(dt_start) => match acc.dt_end {
                    None => Err(
                        ErrorView::MissingRequiredValue("Missing DTEND in BANKTRANLIST"@),
                    ),
                    Some(dt_end) => Ok(
                        (
                            BankTranListView { dt_start, dt_end, transactions: acc.transactions },
                            pos + 1,
                        ),
                    ),
                },
            }
        } else {
            Err(
                ErrorView::UnexpectedToken(
                    "Found unexpected token "@ + t + " in the BANKTRANLIST type"@,
                ),
            )
        }
    }
}

#[via_fn]
proof fn spec_parse_bank_tran_list_loop_decreases(
    toks: Seq<Seq<char>>,
    pos: int,
    acc: BankTranListPartial,
) {
    if 0 <= pos < toks.len() && toks[pos] == "STMTTRN"@ {
        lemma_spec_parse_stmttrn_advances(toks, pos + 1);
    }
}

/// The BANKTRANLIST record decoded from `toks[pos..]`, and the position
/// after its terminator; or the first error.
pub open spec fn spec_parse_bank_tran_list(toks: Seq<Seq<char>>, pos: int) -> Result<
    (BankTranListView, int),
    ErrorView,
> {
    spec_parse_bank_tran_list_loop(toks, pos, BankTranListPartial::init())
}

/// A successful BANKTRANLIST decode consumes at least one token and never
/// runs past the end of the stream.
pub proof fn lemma_spec_parse_bank_tran_list_loop_advances(
    toks: Seq<Seq<char>>,
    pos: int,
    acc: BankTranListPartial,
)
    ensures
        spec_parse_bank_tran_list_loop(toks, pos, acc) matches Ok((v, p)) ==> pos < p
            <= toks.len(),
    decreases toks.len() - pos,
{
    if 0 <= pos < toks.len() {
        let t = toks[pos];
        if (t == "DTSTART"@ || t == "DTEND"@) && pos + 1 < toks.len() {
            match spec_parse_ofx_datetime(toks[pos + 1]) {
                Some(dt) => {
                    if t == "DTSTART"@ {
                        lemma_spec_parse_bank_tran_list_loop_advances(
                            toks,
                            pos + 2,
                            BankTranListPartial { dt_start: Some(dt), ..acc },
                        );
                    } else {
                        lemma_spec_parse_bank_tran_list_loop_advances(
                            toks,
                            pos + 2,
                            BankTranListPartial { dt_end: Some(dt), ..acc },
                        );
                    }
                },
                None => {},
            }
        } else if t == "STMTTRN"@ {
            lemma_spec_parse_stmttrn_advances(toks, pos + 1);
            match spec_parse_stmttrn(toks, pos + 1) {
                Ok((v, p2)) => {
                    lemma_spec_parse_bank_tran_list_loop_advances(
                        toks,
                        p2,
                        BankTranListPartial { transactions: acc.transactions.push(v), ..acc },
                    );
                },
                Err(e) => {},
            }
        }
    }
}

/// A successful BANKTRANLIST decode consumes at least one token and never
/// runs past the end of the stream.
pub proof fn lemma_spec_parse_bank_tran_list_advances(toks: Seq<Seq<char>>, pos: int)
    ensures
        spec_parse_bank_tran_list(toks, pos) matches Ok((v, p)) ==> pos < p <= toks.len(),
{
    lemma_spec_parse_bank_tran_list_loop_advances(toks, pos, BankTranListPartial::init());
}

impl BankTranList {
    /// Decodes one BANKTRANLIST record: DTSTART and DTEND required, any
    /// number of STMTTRN blocks in order, up to and including the
    /// `/BANKTRANLIST` terminator.
    #[verifier::loop_isolation(false)]
    pub fn parse(tokens: &mut TokenCursor) -> (r: Result<BankTranList, QFXParsingError>)
        ensures
            final(tokens)@.toks == old(tokens)@.toks,
            old(tokens)@.pos <= final(tokens)@.pos,
            match r {
                Ok(v) => spec_parse_bank_tran_list(old(tokens)@.toks, old(tokens)@.pos) == Ok::<
                    (BankTranListView, int),
                    ErrorView,
                >((v@, final(tokens)@.pos)),
                Err(e) => spec_parse_bank_tran_list(old(tokens)@.toks, old(tokens)@.pos) == Err::<
                    (BankTranListView, int),
                    ErrorView,
                >(e@),
            },
    {
        let ghost toks = tokens@.toks;
        let ghost pos0 = tokens@.pos;
        let mut dt_start: Option<UtcDateTime> = None;
        let mut dt_end: Option<UtcDateTime> = None;
        let mut transactions: Vec<Stmttrn> = Vec::new();
        proof {
            assert(transactions.deep_view() =~= Seq::<StmttrnView>::empty());
        }
        loop
            invariant
                tokens@.toks == toks,
                pos0 <= tokens@.pos,
                spec_parse_bank_tran_list(toks, pos0) == spec_parse_bank_tran_list_loop(
                    toks,
                    tokens@.pos,
                    BankTranListPartial {
                        dt_start,
                        dt_end,
                        transactions: transactions.deep_view(),
                    },
                ),
            decreases toks.len() - tokens@.pos,
        {
            match tokens.next() {
                None => {
                    return Err(
                        QFXParsingError::UnexpectedEOF(
                            String::from_str(
                                "Found unexpected EOF. Was still expecting the '/BANKTRANLIST' token",
                            ),
                        ),
                    );
                },
                Some(t) => {
                    if str_eq(t.as_str(), "DTSTART") {
                        match tokens.next() {
                            Some(v) => {
                                match try_parse_ofx_datetime(v.as_str()) {
                                    Some(dt) => {
                                        dt_start = Some(dt);
                                    },
                                    None => {
                                        return Err(
                                            QFXParsingError::UnexpectedDateFormat(
                                                concat2(
                                                    "Failed to parse datetime for DTSTART with ",
                                                    v.as_str(),
                                                ),
                                            ),
                                        );
                                    },
                                }
                            },
                            None => {
                                return Err(
                                    QFXParsingError::UnexpectedEOF(
                                        String::from_str(
                                            "Expected token following the DTSTART token",
                                        ),
                                    ),
                                );
                            },
                        }
                    } else if str_eq(t.as_str(), "DTEND") {
                        match tokens.next() {
                            Some(v) => {
                                match try_parse_ofx_datetime(v.as_str()) {
                                    Some(dt) => {
                                        dt_end = Some(dt);
                                    },
                                    None => {
                                        return Err(
                                            QFXParsingError::UnexpectedDateFormat(
                                                concat2(
                                                    "Failed to parse datetime for DTEND with ",
                                                    v.as_str(),
                                                ),
                                            ),
                                        );
                                    },
                                }
                            },
                            None => {
                                return Err(
                                    QFXParsingError::UnexpectedEOF(
                                        String::from_str(
                                            "Expected token following the DTEND token",
                                        ),
                                    ),
                                );
                            },
                        }
                    } else if str_eq(t.as_str(), "STMTTRN") {
                        let ghost prev = transactions.deep_view();
                        match Stmttrn::parse(tokens) {
                            Ok(st) => {
                                let ghost stv = st@;
                                transactions.push(st);
                                proof {
                                    assert(transactions.deep_view() =~= prev.push(stv));
                                }
                            },
                            Err(e) => {
                                return Err(e);
                            },
                        }
                    } else if str_eq(t.as_str(), "/BANKTRANLIST") {
                        let f_dt_start = match dt_start {
                            Some(v) => v,
                            None => {
                                return Err(
                                    QFXParsingError::MissingRequiredValue(
                                        String::from_str("Missing DTSTART in BANKTRANLIST"),
                                    ),
                                );
                            },
                        };
                        let f_dt_end = match dt_end {
                            Some(v) => v,
                            None => {
                                return Err(
                                    QFXParsingError::MissingRequiredValue(
                                        String::from_str("Missing DTEND in BANKTRANLIST"),
                                    ),
                                );
                            },
                        };
                        return Ok(
                            BankTranList { dt_start: f_dt_start, dt_end: f_dt_end, transactions },
                        );
                    } else {
                        return Err(
                            QFXParsingError::UnexpectedToken(
                                concat3(
                                    "Found unexpected token ",
                                    t.as_str(),
                                    " in the BANKTRANLIST type",
                                ),
                            ),
                        );
                    }
                },
            }
        }
    }
}

} // verus!
