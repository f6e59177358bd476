//! The sign-on message set: the sign-on response and the financial
//! institution it comes from.

use vstd::prelude::*;
use crate::datetime::UtcDateTime;
use crate::datetime::spec_parse_ofx_datetime;
use crate::datetime::try_parse_ofx_datetime;
use crate::errors::ErrorView;
use crate::errors::QFXParsingError;
use crate::errors::concat2;
use crate::errors::concat3;
use crate::records::Status;
use crate::records::StatusView;
use crate::records::lemma_spec_parse_status_advances;
use crate::records::spec_parse_status;
use crate::tokenizer::TokenCursor;
use crate::tokenizer::str_eq;

verus! {

/// The financial institution a sign-on response comes from.
#[derive(Clone, Debug, PartialEq, Eq)]
pub struct FinancialInstitution {
    pub org: String,
    pub fid: String,
}

/// Mathematical mirror of [`FinancialInstitution`].
pub struct FinancialInstitutionView {
    pub org: Seq<char>,
    pub fid: Seq<char>,
}

impl View for FinancialInstitution {
    type V = FinancialInstitutionView;

    open spec fn view(&self) -> FinancialInstitutionView {
        FinancialInstitutionView {
            org: self.org@,
            fid: self.fid@,
        }
    }
}

impl DeepView for FinancialInstitution {
    type V = FinancialInstitutionView;

    open spec fn deep_view(&self) -> FinancialInstitutionView {
        self.view()
    }
}

/// Field state of a FI record while its tokens are being consumed.
pub struct FinancialInstitutionPartial {
    pub org: Option<Seq<char>>,
    pub fid: Option<Seq<char>>,
}

impl FinancialInstitutionPartial {
    /// All fields still unset.
    pub open spec fn init() -> FinancialInstitutionPartial {
        FinancialInstitutionPartial { org: None, fid: None }
    }
}

/// One step of decoding a FI record from `toks[pos..]`.
pub open spec fn spec_parse_financial_institution_loop(toks: Seq<Seq<char>>, pos: int, acc: FinancialInstitutionPartial) -> Result<
    (FinancialInstitutionView, int),
    ErrorView,
>
    decreases toks.len() - pos,
{
    if pos < 0 || pos >= toks.len() {
        Err(ErrorView::UnexpectedEOF("Found unexpected EOF. Was still expecting the '/FI' token"@))
    } else {
        let t = toks[pos];
        if t == "ORG"@ {
            if pos + 1 < toks.len() {
                spec_parse_financial_institution_loop(
                    toks,
                    pos + 2,
                    FinancialInstitutionPartial { org: Some(toks[pos + 1]), ..acc },
                )
            } else {
                Err(ErrorView::UnexpectedEOF("Expected token following the ORG token"@))
            }
        } else if t == "FID"@ {
            if pos + 1 < toks.len() {
                spec_parse_financial_institution_loop(
                    toks,
                    pos + 2,
                    FinancialInstitutionPartial { fid: Some(toks[pos + 1]), ..acc },
                )
            } else {
                Err(ErrorView::UnexpectedEOF("Expected token following the FIT token"@))
            }
        } else if t == "/FI"@ {
            match acc.org {
                None => Err(ErrorView::MissingRequiredValue("Missing ORG in FI"@)),
                Some(org) => {
                    match acc.fid {
                        None => Err(ErrorView::MissingRequiredValue("Missing FID in FI"@)),
                        Some(fid) => {
                            Ok(
                                (
                                    FinancialInstitutionView {
                                        org,
                                        fid,
                                    },
                                    pos + 1,
                                ),
                            )
                        },
                    }
                },
            }
        } else {
            Err(
                ErrorView::UnexpectedToken(
                    "Found unexpected token "@ + t + " in the FI type"@,
                ),
            )
        }
    }
}

/// The FI record decoded from `toks[pos..]`, and the position after
/// its terminator; or the first error.
pub open spec fn spec_parse_financial_institution(toks: Seq<Seq<char>>, pos: int) -> Result<
    (FinancialInstitutionView, int),
    ErrorView,
> {
    spec_parse_financial_institution_loop(toks, pos, FinancialInstitutionPartial::init())
}

/// A successful FI decode consumes at least one token and never
/// runs past the end of the stream.
pub proof fn lemma_spec_parse_financial_institution_loop_advances(toks: Seq<Seq<char>>, pos: int, acc: FinancialInstitutionPartial)
    ensures
        spec_parse_financial_institution_loop(toks, pos, acc) matches Ok((v, p)) ==> pos < p <= toks.len(),
    decreases toks.len() - pos,
{
    if 0 <= pos < toks.len() {
        let t = toks[pos];
        if t == "ORG"@ {
            if pos + 1 < toks.len() {
                lemma_spec_parse_financial_institution_loop_advances(
                    toks,
                    pos + 2,
                    FinancialInstitutionPartial { org: Some(toks[pos + 1]), ..acc },
                );
            }
        } else if t == "FID"@ {
            if pos + 1 < toks.len() {
                lemma_spec_parse_financial_institution_loop_advances(
                    toks,
                    pos + 2,
                    FinancialInstitutionPartial { fid: Some(toks[pos + 1]), ..acc },
                );
            }
        }
    }
}

/// A successful FI decode consumes at least one token and never
/// runs past the end of the stream.
pub proof fn lemma_spec_parse_financial_institution_advances(toks: Seq<Seq<char>>, pos: int)
    ensures
        spec_parse_financial_institution(toks, pos) matches Ok((v, p)) ==> pos < p <= toks.len(),
{
    lemma_spec_parse_financial_institution_loop_advances(toks, pos, FinancialInstitutionPartial::init());
}

impl FinancialInstitution {
    /// Decodes one FI record: ORG and FID both required, up to and
    /// including the `/FI` terminator.
    #[verifier::loop_isolation(false)]
    pub fn parse(tokens: &mut TokenCursor) -> (r: Result<FinancialInstitution, QFXParsingError>)
        ensures
            final(tokens)@.toks == old(tokens)@.toks,
            old(tokens)@.pos <= final(tokens)@.pos,
            match r {
                Ok(v) => spec_parse_financial_institution(old(tokens)@.toks, old(tokens)@.pos) == Ok::<
                    (FinancialInstitutionView, int),
                    ErrorView,
                >((v@, final(tokens)@.pos)),
                Err(e) => spec_parse_financial_institution(old(tokens)@.toks, old(tokens)@.pos) == Err::<
                    (FinancialInstitutionView, int),
                    ErrorView,
                >(e@),
            },
    {
        let ghost toks = tokens@.toks;
        let ghost pos0 = tokens@.pos;
        let mut org: Option<String> = None;
        let mut fid: Option<String> = None;
        loop
            invariant
                tokens@.toks == toks,
                pos0 <= tokens@.pos,
                spec_parse_financial_institution(toks, pos0) == spec_parse_financial_institution_loop(
                    toks,
                    tokens@.pos,
                    FinancialInstitutionPartial {
                        org: org.deep_view(),
                        fid: fid.deep_view(),
                    },
                ),
            decreases toks.len() - tokens@.pos,
        {
            match tokens.next() {
                None => {
                    return Err(
                        QFXParsingError::UnexpectedEOF(
                            String::from_str(
                                "Found unexpected EOF. Was still expecting the '/FI' token",
                            ),
                        ),
                    );
                },
                Some(t) => {
                    if str_eq(t.as_str(), "ORG") {
                        match tokens.next() {
                            Some(v) => {
                                org = Some(v);
                            },
                            None => {
                                return Err(
                                    QFXParsingError::UnexpectedEOF(
                                        String::from_str(
                                            "Expected token following the ORG token",
                                        ),
                                    ),
                                );
                            },
                        }
                    } else if str_eq(t.as_str(), "FID") {
                        match tokens.next() {
                            Some(v) => {
                                fid = Some(v);
                            },
                            None => {
                                return Err(
                                    QFXParsingError::UnexpectedEOF(
                                        String::from_str(
                                            "Expected token following the FIT token",
                                        ),
                                    ),
                                );
                            },
                        }
                    } else if str_eq(t.as_str(), "/FI") {
                        let f_org = match org {
                            Some(v) => v,
                            None => {
                                return Err(
                                    QFXParsingError::MissingRequiredValue(
                                        String::from_str("Missing ORG in FI"),
                                    ),
                                );
                            },
                        };
                        let f_fid = match fid {
                            Some(v) => v,
                            None => {
                                return Err(
                                    QFXParsingError::MissingRequiredValue(
                                        String::from_str("Missing FID in FI"),
                                    ),
                                );
                            },
                        };
                        return Ok(
                            FinancialInstitution {
                                org: f_org,
                                fid: f_fid,
                            },
                        );
                    } else {
                        return Err(
                            QFXParsingError::UnexpectedToken(
                                concat3(
                                    "Found unexpected token ",
                                    t.as_str(),
                                    " in the FI type",
                                ),
                            ),
                        );
                    }
                },
            }
        }
    }
}

/// The sign-on response: server instant and institution required, the
/// rest optional.
#[derive(Clone, Debug, PartialEq, Eq)]
pub struct Sonrs {
    pub status: Option<Status>,
    pub fi: FinancialInstitution,
    pub bid: Option<String>,
    pub dt_server: UtcDateTime,
    pub dt_acctup: Option<String>,
    pub language: Option<String>,
    pub cookie: Option<String>,
    pub user_id: Option<String>,
}

/// Mathematical mirror of [`Sonrs`].
pub struct SonrsView {
    pub status: Option<StatusView>,
    pub fi: FinancialInstitutionView,
    pub bid: Option<Seq<char>>,
    pub dt_server: UtcDateTime,
    pub dt_acctup: Option<Seq<char>>,
    pub language: Option<Seq<char>>,
    pub cookie: Option<Seq<char>>,
    pub user_id: Option<Seq<char>>,
}

impl View for Sonrs {
    type V = SonrsView;

    open spec fn view(&self) -> SonrsView {
        SonrsView {
            status: self.status.deep_view(),
            fi: self.fi@,
            bid: self.bid.deep_view(),
            dt_server: self.dt_server,
            dt_acctup: self.dt_acctup.deep_view(),
            language: self.language.deep_view(),
            cookie: self.cookie.deep_view(),
            user_id: self.user_id.deep_view(),
        }
    }
}

impl DeepView for Sonrs {
    type V = SonrsView;

    open spec fn deep_view(&self) -> SonrsView {
        self.view()
    }
}

/// Field state of a SONRS record while its tokens are being consumed.
pub struct SonrsPartial {
    pub status: Option<StatusView>,
    pub fi: Option<FinancialInstitutionView>,
    pub bid: Option<Seq<char>>,
    pub dt_server: Option<UtcDateTime>,
    pub dt_acctup: Option<Seq<char>>,
    pub language: Option<Seq<char>>,
    pub cookie: Option<Seq<char>>,
    pub user_id: Option<Seq<char>>,
}

impl SonrsPartial {
    /// All fields still unset.
    pub open spec fn init() -> SonrsPartial {
        SonrsPartial { status: None, fi: None, bid: None, dt_server: None, dt_acctup: None, language: None, cookie: None, user_id: None }
    }
}

/// One step of decoding a SONRS record from `toks[pos..]`.
pub open spec fn spec_parse_sonrs_loop(toks: Seq<Seq<char>>, pos: int, acc: SonrsPartial) -> Result<
    (SonrsView, int),
    ErrorView,
>
    decreases toks.len() - pos,
    via spec_parse_sonrs_loop_decreases
{
    if pos < 0 || pos >= toks.len() {
        Err(ErrorView::UnexpectedEOF("Found unexpected EOF. Was still expecting the '/SONRS' token"@))
    } else {
        let t = toks[pos];
        if t == "STATUS"@ {
            match spec_parse_status(toks, pos + 1) {
                Ok((v, p2)) => spec_parse_sonrs_loop(
                    toks,
                    p2,
                    SonrsPartial { status: Some(v), ..acc },
                ),
                Err(e) => Err(e),
            }
        } else if t == "DTSERVER"@ {
            if pos + 1 < toks.len() {
                match spec_parse_ofx_datetime(toks[pos + 1]) {
                    Some(dt) => spec_parse_sonrs_loop(
                        toks,
                        pos + 2,
                        SonrsPartial { dt_server: Some(dt), ..acc },
                    ),
                    None => Err(
                        ErrorView::UnexpectedDateFormat(
                            "Failed to parse DTSERVER date time: "@ + toks[pos + 1],
                        ),
                    ),
                }
            } else {
                Err(ErrorView::UnexpectedEOF("Expected token following the DTSERVER token"@))
            }
        } else if t == "DTACCTUP"@ {
            if pos + 1 < toks.len() {
                spec_parse_sonrs_loop(
                    toks,
                    pos + 2,
                    SonrsPartial { dt_acctup: Some(toks[pos + 1]), ..acc },
                )
            } else {
                Err(ErrorView::UnexpectedEOF("Expected token following the DTACCTUP token"@))
            }
        } else if t == "LANGUAGE"@ {
            if pos + 1 < toks.len() {
                spec_parse_sonrs_loop(
                    toks,
                    pos + 2,
                    SonrsPartial { language: Some(toks[pos + 1]), ..acc },
                )
            } else {
                Err(ErrorView::UnexpectedEOF("Expected token following the LANGUAGE token"@))
            }
        } else if t == "FI"@ {
            match spec_parse_financial_institution(toks, pos + 1) {
                Ok((v, p2)) => spec_parse_sonrs_loop(
                    toks,
                    p2,
                    SonrsPartial { fi: Some(v), ..acc },
                ),
                Err(e) => Err(e),
            }
        } else if t == "INTU.BID"@ {
            if pos + 1 < toks.len() {
                spec_parse_sonrs_loop(
                    toks,
                    pos + 2,
                    SonrsPartial { bid: Some(toks[pos + 1]), ..acc },
                )
            } else {
                Err(ErrorView::UnexpectedEOF("Expected token following the INTU.BID token"@))
            }
        } else if t == "INTU.USERID"@ {
            if pos + 1 < toks.len() {
                spec_parse_sonrs_loop(
                    toks,
                    pos + 2,
                    SonrsPartial { user_id: Some(toks[pos + 1]), ..acc },
                )
            } else {
                Err(ErrorView::UnexpectedEOF("Expected token following the INTU.USERID token"@))
            }
        } else if t == "SESSCOOKIE"@ {
            if pos + 1 < toks.len() {
                spec_parse_sonrs_loop(
                    toks,
                    pos + 2,
                    SonrsPartial { cookie: Some(toks[pos + 1]), ..acc },
                )
            } else {
                Err(ErrorView::UnexpectedEOF("Expected token following the SESSCOOKIE token"@))
            }
        } else if t == "/SONRS"@ {
            match acc.fi {
                None => Err(ErrorView::MissingRequiredValue("Financial Institution (FI) is required in SONRS"@)),
                Some(fi) => {
                    match acc.dt_server {
                        None => Err(ErrorView::MissingRequiredValue("DTSERVER is required in SONRS"@)),
                        Some(dt_server) => {
                            Ok(
                                (
                                    SonrsView {
                                        status: acc.status,
                                        fi,
                                        bid: acc.bid,
                                        dt_server,
                                        dt_acctup: acc.dt_acctup,
                                        language: acc.language,
                                        cookie: acc.cookie,
                                        user_id: acc.user_id,
                                    },
                                    pos + 1,
                                ),
                            )
                        },
                    }
                },
            }
        } else {
            Err(
                ErrorView::UnexpectedToken(
                    "Found unexpected token "@ + t + " in the SONRS type"@,
                ),
            )
        }
    }
}

#[via_fn]
proof fn spec_parse_sonrs_loop_decreases(toks: Seq<Seq<char>>, pos: int, acc: SonrsPartial) {
    if 0 <= pos < toks.len() {
        if toks[pos] == "STATUS"@ {
            lemma_spec_parse_status_advances(toks, pos + 1);
        }
        if toks[pos] == "FI"@ {
            lemma_spec_parse_financial_institution_advances(toks, pos + 1);
        }
    }
}

/// The SONRS record decoded from `toks[pos..]`, and the position after
/// its terminator; or the first error.
pub open spec fn spec_parse_sonrs(toks: Seq<Seq<char>>, pos: int) -> Result<
    (SonrsView, int),
    ErrorView,
> {
    spec_parse_sonrs_loop(toks, pos, SonrsPartial::init())
}

/// A successful SONRS decode consumes at least one token and never
/// runs past the end of the stream.
pub proof fn lemma_spec_parse_sonrs_loop_advances(toks: Seq<Seq<char>>, pos: int, acc: SonrsPartial)
    ensures
        spec_parse_sonrs_loop(toks, pos, acc) matches Ok((v, p)) ==> pos < p <= toks.len(),
    decreases toks.len() - pos,
{
    if 0 <= pos < toks.len() {
        let t = toks[pos];
        if t == "STATUS"@ {
            lemma_spec_parse_status_advances(toks, pos + 1);
            match spec_parse_status(toks, pos + 1) {
                Ok((v, p2)) => {
                    lemma_spec_parse_sonrs_loop_advances(
                        toks,
                        p2,
                        SonrsPartial { status: Some(v), ..acc },
                    );
                },
                Err(e) => {},
            }
        } else if t == "DTSERVER"@ {
            if pos + 1 < toks.len() {
                match spec_parse_ofx_datetime(toks[pos + 1]) {
                    Some(dt) => lemma_spec_parse_sonrs_loop_advances(
                        toks,
                        pos + 2,
                        SonrsPartial { dt_server: Some(dt), ..acc },
                    ),
                    None => {},
                }
            }
        } else if t == "DTACCTUP"@ {
            if pos + 1 < toks.len() {
                lemma_spec_parse_sonrs_loop_advances(
                    toks,
                    pos + 2,
                    SonrsPartial { dt_acctup: Some(toks[pos + 1]), ..acc },
                );
            }
        } else if t == "LANGUAGE"@ {
            if pos + 1 < toks.len() {
                lemma_spec_parse_sonrs_loop_advances(
                    toks,
                    pos + 2,
                    SonrsPartial { language: Some(toks[pos + 1]), ..acc },
                );
            }
        } else if t == "FI"@ {
            lemma_spec_parse_financial_institution_advances(toks, pos + 1);
            match spec_parse_financial_institution(toks, pos + 1) {
                Ok((v, p2)) => {
                    lemma_spec_parse_sonrs_loop_advances(
                        toks,
                        p2,
                        SonrsPartial { fi: Some(v), ..acc },
                    );
                },
                Err(e) => {},
            }
        } else if t == "INTU.BID"@ {
            if pos + 1 < toks.len() {
                lemma_spec_parse_sonrs_loop_advances(
                    toks,
                    pos + 2,
                    SonrsPartial { bid: Some(toks[pos + 1]), ..acc },
                );
            }
        } else if t == "INTU.USERID"@ {
            if pos + 1 < toks.len() {
                lemma_spec_parse_sonrs_loop_advances(
                    toks,
                    pos + 2,
                    SonrsPartial { user_id: Some(toks[pos + 1]), ..acc },
                );
            }
        } else if t == "SESSCOOKIE"@ {
            if pos + 1 < toks.len() {
                lemma_spec_parse_sonrs_loop_advances(
                    toks,
                    pos + 2,
                    SonrsPartial { cookie: Some(toks[pos + 1]), ..acc },
                );
            }
        }
    }
}

/// A successful SONRS decode consumes at least one token and never
/// runs past the end of the stream.
pub proof fn lemma_spec_parse_sonrs_advances(toks: Seq<Seq<char>>, pos: int)
    ensures
        spec_parse_sonrs(toks, pos) matches Ok((v, p)) ==> pos < p <= toks.len(),
{
    lemma_spec_parse_sonrs_loop_advances(toks, pos, SonrsPartial::init());
}

impl Sonrs {
    /// Decodes one SONRS record: DTSERVER and FI required, the rest
    /// optional, up to and including the `/SONRS` terminator.
    #[verifier::loop_isolation(false)]
    pub fn parse(tokens: &mut TokenCursor) -> (r: Result<Sonrs, QFXParsingError>)
        ensures
            final(tokens)@.toks == old(tokens)@.toks,
            old(tokens)@.pos <= final(tokens)@.pos,
            match r {
                Ok(v) => spec_parse_sonrs(old(tokens)@.toks, old(tokens)@.pos) == Ok::<
                    (SonrsView, int),
                    ErrorView,
                >((v@, final(tokens)@.pos)),
                Err(e) => spec_parse_sonrs(old(tokens)@.toks, old(tokens)@.pos) == Err::<
                    (SonrsView, int),
                    ErrorView,
                >(e@),
            },
    {
        let ghost toks = tokens@.toks;
        let ghost pos0 = tokens@.pos;
        let mut status: Option<Status> = None;
        let mut fi: Option<FinancialInstitution> = None;
        let mut bid: Option<String> = None;
        let mut dt_server: Option<UtcDateTime> = None;
        let mut dt_acctup: Option<String> = None;
        let mut language: Option<String> = None;
        let mut cookie: Option<String> = None;
        let mut user_id: Option<String> = None;
        loop
            invariant
                tokens@.toks == toks,
                pos0 <= tokens@.pos,
                spec_parse_sonrs(toks, pos0) == spec_parse_sonrs_loop(
                    toks,
                    tokens@.pos,
                    SonrsPartial {
                        status: status.deep_view(),
                        fi: fi.deep_view(),
                        bid: bid.deep_view(),
                        dt_server,
                        dt_acctup: dt_acctup.deep_view(),
                        language: language.deep_view(),
                        cookie: cookie.deep_view(),
                        user_id: user_id.deep_view(),
                    },
                ),
            decreases toks.len() - tokens@.pos,
        {
            match tokens.next() {
                None => {
                    return Err(
                        QFXParsingError::UnexpectedEOF(
                            String::from_str(
                                "Found unexpected EOF. Was still expecting the '/SONRS' token",
                            ),
                        ),
                    );
                },
                Some(t) => {
                    if str_eq(t.as_str(), "STATUS") {
                        match Status::parse(tokens) {
                            Ok(v) => {
                                status = Some(v);
                            },
                            Err(e) => {
                                return Err(e);
                            },
                        }
                    } else if str_eq(t.as_str(), "DTSERVER") {
                        match tokens.next() {
                            Some(v) => {
                                match try_parse_ofx_datetime(v.as_str()) {
                                    Some(dt) => {
                                        dt_server = Some(dt);
                                    },
                                    None => {
                                        return Err(
                                            QFXParsingError::UnexpectedDateFormat(
                                                concat2(
                                                    "Failed to parse DTSERVER date time: ",
                                                    v.as_str(),
                                                ),
                                            ),
                                        );
                                    },
                                }
                            },
                            None => {
                                return Err(
                                    QFXParsingError::UnexpectedEOF(
                                        String::from_str(
                                            "Expected token following the DTSERVER token",
                                        ),
                                    ),
                                );
                            },
                        }
                    } else if str_eq(t.as_str(), "DTACCTUP") {
                        match tokens.next() {
                            Some(v) => {
                                dt_acctup = Some(v);
                            },
                            None => {
                                return Err(
                                    QFXParsingError::UnexpectedEOF(
                                        String::from_str(
                                            "Expected token following the DTACCTUP token",
                                        ),
                                    ),
                                );
                            },
                        }
                    } else if str_eq(t.as_str(), "LANGUAGE") {
                        match tokens.next() {
                            Some(v) => {
                                language = Some(v);
                            },
                            None => {
                                return Err(
                                    QFXParsingError::UnexpectedEOF(
                                        String::from_str(
                                            "Expected token following the LANGUAGE token",
                                        ),
                                    ),
                                );
                            },
                        }
                    } else if str_eq(t.as_str(), "FI") {
                        match FinancialInstitution::parse(tokens) {
                            Ok(v) => {
                                fi = Some(v);
                            },
                            Err(e) => {
                                return Err(e);
                            },
                        }
                    } else if str_eq(t.as_str(), "INTU.BID") {
                        match tokens.next() {
                            Some(v) => {
                                bid = Some(v);
                            },
                            None => {
                                return Err(
                                    QFXParsingError::UnexpectedEOF(
                                        String::from_str(
                                            "Expected token following the INTU.BID token",
                                        ),
                                    ),
                                );
                            },
                        }
                    } else if str_eq(t.as_str(), "INTU.USERID") {
                        match tokens.next() {
                            Some(v) => {
                                user_id = Some(v);
                            },
                            None => {
                                return Err(
                                    QFXParsingError::UnexpectedEOF(
                                        String::from_str(
                                            "Expected token following the INTU.USERID token",
                                        ),
                                    ),
                                );
                            },
                        }
                    } else if str_eq(t.as_str(), "SESSCOOKIE") {
                        match tokens.next() {
                            Some(v) => {
                                cookie = Some(v);
                            },
                            None => {
                                return Err(
                                    QFXParsingError::UnexpectedEOF(
                                        String::from_str(
                                            "Expected token following the SESSCOOKIE token",
                                        ),
                                    ),
                                );
                            },
                        }
                    } else if str_eq(t.as_str(), "/SONRS") {
                        let f_fi = match fi {
                            Some(v) => v,
                            None => {
                                return Err(
                                    QFXParsingError::MissingRequiredValue(
                                        String::from_str("Financial Institution (FI) is required in SONRS"),
                                    ),
                                );
                            },
                        };
                        let f_dt_server = match dt_server {
                            Some(v) => v,
                            None => {
                                return Err(
                                    QFXParsingError::MissingRequiredValue(
                                        String::from_str("DTSERVER is required in SONRS"),
                                    ),
                                );
                            },
                        };
                        return Ok(
                            Sonrs {
                                status,
                                fi: f_fi,
                                bid,
                                dt_server: f_dt_server,
                                dt_acctup,
                                language,
                                cookie,
                                user_id,
                            },
                        );
                    } else {
                        return Err(
                            QFXParsingError::UnexpectedToken(
                                concat3(
                                    "Found unexpected token ",
                                    t.as_str(),
                                    " in the SONRS type",
                                ),
                            ),
                        );
                    }
                },
            }
        }
    }
}

/// The sign-on message set: its one sign-on response.
#[derive(Clone, Debug, PartialEq, Eq)]
pub struct SignOnMsgSrsV1 {
    pub sonrs: Sonrs,
}

/// Mathematical mirror of [`SignOnMsgSrsV1`].
pub struct SignOnMsgSrsV1View {
    pub sonrs: SonrsView,
}

impl View for SignOnMsgSrsV1 {
    type V = SignOnMsgSrsV1View;

    open spec fn view(&self) -> SignOnMsgSrsV1View {
        SignOnMsgSrsV1View {
            sonrs: self.sonrs@,
        }
    }
}

impl DeepView for SignOnMsgSrsV1 {
    type V = SignOnMsgSrsV1View;

    open spec fn deep_view(&self) -> SignOnMsgSrsV1View {
        self.view()
    }
}

/// Field state of a SIGNONMSGSRSV1 record while its tokens are being consumed.
pub struct SignOnMsgSrsV1Partial {
    pub sonrs: Option<SonrsView>,
}

impl SignOnMsgSrsV1Partial {
    /// All fields still unset.
    pub open spec fn init() -> SignOnMsgSrsV1Partial {
        SignOnMsgSrsV1Partial { sonrs: None }
    }
}

/// One step of decoding a SIGNONMSGSRSV1 record from `toks[pos..]`.
pub open spec fn spec_parse_sign_on_msg_srs_v1_loop(toks: Seq<Seq<char>>, pos: int, acc: SignOnMsgSrsV1Partial) -> Result<
    (SignOnMsgSrsV1View, int),
    ErrorView,
>
    decreases toks.len() - pos,
    via spec_parse_sign_on_msg_srs_v1_loop_decreases
{
    if pos < 0 || pos >= toks.len() {
        Err(ErrorView::UnexpectedEOF("Found unexpected EOF. Was still expecting the '/SIGNONMSGSRSV1' token"@))
    } else {
        let t = toks[pos];
        if t == "SONRS"@ {
            match spec_parse_sonrs(toks, pos + 1) {
                Ok((v, p2)) => spec_parse_sign_on_msg_srs_v1_loop(
                    toks,
                    p2,
                    SignOnMsgSrsV1Partial { sonrs: Some(v), ..acc },
                ),
                Err(e) => Err(e),
            }
        } else if t == "/SIGNONMSGSRSV1"@ {
            match acc.sonrs {
                None => Err(ErrorView::MissingRequiredValue("Missing value SONRS in SIGNONMSGSRSV1"@)),
                Some(sonrs) => {
                    Ok(
                        (
                            SignOnMsgSrsV1View {
                                sonrs,
                            },
                            pos + 1,
                        ),
                    )
                },
            }
        } else {
            Err(
                ErrorView::UnexpectedToken(
                    "Found unexpected token "@ + t + " in the SIGNONMSGSRSV1 type"@,
                ),
            )
        }
    }
}

#[via_fn]
proof fn spec_parse_sign_on_msg_srs_v1_loop_decreases(toks: Seq<Seq<char>>, pos: int, acc: SignOnMsgSrsV1Partial) {
    if 0 <= pos < toks.len() {
        if toks[pos] == "SONRS"@ {
            lemma_spec_parse_sonrs_advances(toks, pos + 1);
        }
    }
}

/// The SIGNONMSGSRSV1 record decoded from `toks[pos..]`, and the position after
/// its terminator; or the first error.
pub open spec fn spec_parse_sign_on_msg_srs_v1(toks: Seq<Seq<char>>, pos: int) -> Result<
    (SignOnMsgSrsV1View, int),
    ErrorView,
> {
    spec_parse_sign_on_msg_srs_v1_loop(toks, pos, SignOnMsgSrsV1Partial::init())
}

/// A successful SIGNONMSGSRSV1 decode consumes at least one token and never
/// runs past the end of the stream.
pub proof fn lemma_spec_parse_sign_on_msg_srs_v1_loop_advances(toks: Seq<Seq<char>>, pos: int, acc: SignOnMsgSrsV1Partial)
    ensures
        spec_parse_sign_on_msg_srs_v1_loop(toks, pos, acc) matches Ok((v, p)) ==> pos < p <= toks.len(),
    decreases toks.len() - pos,
{
    if 0 <= pos < toks.len() {
        let t = toks[pos];
        if t == "SONRS"@ {
            lemma_spec_parse_sonrs_advances(toks, pos + 1);
            match spec_parse_sonrs(toks, pos + 1) {
                Ok((v, p2)) => {
                    lemma_spec_parse_sign_on_msg_srs_v1_loop_advances(
                        toks,
                        p2,
                        SignOnMsgSrsV1Partial { sonrs: Some(v), ..acc },
                    );
                },
                Err(e) => {},
            }
        }
    }
}

/// A successful SIGNONMSGSRSV1 decode consumes at least one token and never
/// runs past the end of the stream.
pub proof fn lemma_spec_parse_sign_on_msg_srs_v1_advances(toks: Seq<Seq<char>>, pos: int)
    ensures
        spec_parse_sign_on_msg_srs_v1(toks, pos) matches Ok((v, p)) ==> pos < p <= toks.len(),
{
    lemma_spec_parse_sign_on_msg_srs_v1_loop_advances(toks, pos, SignOnMsgSrsV1Partial::init());
}

impl SignOnMsgSrsV1 {
    /// Decodes one SIGNONMSGSRSV1 record: SONRS required, up to and
    /// including the `/SIGNONMSGSRSV1` terminator.
    #[verifier::loop_isolation(false)]
    pub fn parse(tokens: &mut TokenCursor) -> (r: Result<SignOnMsgSrsV1, QFXParsingError>)
        ensures
            final(tokens)@.toks == old(tokens)@.toks,
            old(tokens)@.pos <= final(tokens)@.pos,
            match r {
                Ok(v) => spec_parse_sign_on_msg_srs_v1(old(tokens)@.toks, old(tokens)@.pos) == Ok::<
                    (SignOnMsgSrsV1View, int),
                    ErrorView,
                >((v@, final(tokens)@.pos)),
                Err(e) => spec_parse_sign_on_msg_srs_v1(old(tokens)@.toks, old(tokens)@.pos) == Err::<
                    (SignOnMsgSrsV1View, int),
                    ErrorView,
                >(e@),
            },
    {
        let ghost toks = tokens@.toks;
        let ghost pos0 = tokens@.pos;
        let mut sonrs: Option<Sonrs> = None;
        loop
            invariant
                tokens@.toks == toks,
                pos0 <= tokens@.pos,
                spec_parse_sign_on_msg_srs_v1(toks, pos0) == spec_parse_sign_on_msg_srs_v1_loop(
                    toks,
                    tokens@.pos,
                    SignOnMsgSrsV1Partial {
                        sonrs: sonrs.deep_view(),
                    },
                ),
            decreases toks.len() - tokens@.pos,
        {
            match tokens.next() {
                None => {
                    return Err(
                        QFXParsingError::UnexpectedEOF(
                            String::from_str(
                                "Found unexpected EOF. Was still expecting the '/SIGNONMSGSRSV1' token",
                            ),
                        ),
                    );
                },
                Some(t) => {
                    if str_eq(t.as_str(), "SONRS") {
                        match Sonrs::parse(tokens) {
                            Ok(v) => {
                                sonrs = Some(v);
                            },
                            Err(e) => {
                                return Err(e);
                            },
                        }
                    } else if str_eq(t.as_str(), "/SIGNONMSGSRSV1") {
                        let f_sonrs = match sonrs {
                            Some(v) => v,
                            None => {
                                return Err(
                                    QFXParsingError::MissingRequiredValue(
                                        String::from_str("Missing value SONRS in SIGNONMSGSRSV1"),
                                    ),
                                );
                            },
                        };
                        return Ok(
                            SignOnMsgSrsV1 {
                                sonrs: f_sonrs,
                            },
                        );
                    } else {
                        return Err(
                            QFXParsingError::UnexpectedToken(
                                concat3(
                                    "Found unexpected token ",
                                    t.as_str(),
                                    " in the SIGNONMSGSRSV1 type",
                                ),
                            ),
                        );
                    }
                },
            }
        }
    }
}

} // verus!
