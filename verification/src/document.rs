//! The document root: the OFX envelope and the decode entry point.
//!
//! A document holds at most one sign-on section, at most one bank section
//! and at most one credit-card section.  A repeated sign-on or bank section
//! is a decode error; a repeated credit-card section silently overwrites the
//! first — the format's established, if inconsistent, behaviour, kept as it
//! is.  Decoding is fail-fast: the caller receives either a fully populated
//! document or the first error met, never a partial document.

use vstd::prelude::*;
use crate::bank_msg::BankMsgSrsV1;
use crate::bank_msg::BankMsgSrsV1View;
use crate::bank_msg::lemma_spec_parse_bank_msg_srs_v1_advances;
use crate::bank_msg::spec_parse_bank_msg_srs_v1;
use crate::credit_card::CCMsgSrsV1;
use crate::credit_card::CCMsgSrsV1View;
use crate::credit_card::lemma_spec_parse_cc_msg_srs_v1_advances;
use crate::credit_card::spec_parse_cc_msg_srs_v1;
use crate::errors::ErrorView;
use crate::errors::QFXParsingError;
use crate::errors::concat2;
use crate::sign_on::SignOnMsgSrsV1;
use crate::sign_on::SignOnMsgSrsV1View;
use crate::sign_on::lemma_spec_parse_sign_on_msg_srs_v1_advances;
use crate::sign_on::spec_parse_sign_on_msg_srs_v1;
use crate::tokenizer::TokenCursor;
use crate::tokenizer::spec_tokenize;
use crate::tokenizer::str_eq;
use crate::tokenizer::tokenize;

verus! {

/// A decoded QFX document: the envelope's sections, each present at most
/// once.
#[derive(Clone, Debug, PartialEq, Eq)]
pub struct QFX {
    pub sign_on_msg_srs_v1: Option<SignOnMsgSrsV1>,
    pub credit_card_msg_srs_v1: Option<CCMsgSrsV1>,
    pub bank_msg_srs_v1: Option<BankMsgSrsV1>,
}

/// Mathematical mirror of [`QFX`].
pub struct QFXView {
    pub sign_on_msg_srs_v1: Option<SignOnMsgSrsV1View>,
    pub credit_card_msg_srs_v1: Option<CCMsgSrsV1View>,
    pub bank_msg_srs_v1: Option<BankMsgSrsV1View>,
}

impl View for QFX {
    type V = QFXView;

    open spec fn view(&self) -> QFXView {
        QFXView {
            sign_on_msg_srs_v1: self.sign_on_msg_srs_v1.deep_view(),
            credit_card_msg_srs_v1: self.credit_card_msg_srs_v1.deep_view(),
            bank_msg_srs_v1: self.bank_msg_srs_v1.deep_view(),
        }
    }
}

impl QFXView {
    /// No section seen yet.
    pub open spec fn init() -> QFXView {
        QFXView {
            sign_on_msg_srs_v1: None,
            credit_card_msg_srs_v1: None,
            bank_msg_srs_v1: None,
        }
    }
}

/// One step of decoding the OFX envelope body from `toks[pos..]` with the
/// sections seen so far in `acc`.  A second sign-on or bank section is an
/// error; a second credit-card section overwrites the first.
pub open spec fn spec_parse_qfx_loop(toks: Seq<Seq<char>>, pos: int, acc: QFXView) -> Result<
    (QFXView, int),
    ErrorView,
>
    decreases toks.len() - pos,
    via spec_parse_qfx_loop_decreases
{
    if pos < 0 || pos >= toks.len() {
        Err(
            ErrorView::UnexpectedEOF(
                "Found unexpected EOF. Was still expecting the '/OFX' token to end parsing"@,
            ),
        )
    } else {
        let t = toks[pos];
        if t == "SIGNONMSGSRSV1"@ {
            if acc.sign_on_msg_srs_v1 is Some {
                Err(
                    ErrorView::UnexpectedToken(
                        "The value for sign on message srs v1 is already set"@,
                    ),
                )
            } else {
                match spec_parse_sign_on_msg_srs_v1(toks, pos + 1) {
                    Ok((v, p2)) => spec_parse_qfx_loop(
                        toks,
                        p2,
                        QFXView { sign_on_msg_srs_v1: Some(v), ..acc },
                    ),
                    Err(e) => Err(e),
                }
            }
        } else if t == "CREDITCARDMSGSRSV1"@ {
            match spec_parse_cc_msg_srs_v1(toks, pos + 1) {
                Ok((v, p2)) => spec_parse_qfx_loop(
                    toks,
                    p2,
                    QFXView { credit_card_msg_srs_v1: Some(v), ..acc },
                ),
                Err(e) => Err(e),
            }
        } else if t == "BANKMSGSRSV1"@ {
            if acc.bank_msg_srs_v1 is Some {
                Err(
                    ErrorView::UnexpectedToken(
                        "The value for bank message srs v1 is already set"@,
                    ),
                )
            } else {
                match spec_parse_bank_msg_srs_v1(toks, pos + 1) {
                    Ok((v, p2)) => spec_parse_qfx_loop(
                        toks,
                        p2,
                        QFXView { bank_msg_srs_v1: Some(v), ..acc },
                    ),
                    Err(e) => Err(e),
                }
            }
        } else if t == "/OFX"@ {
            Ok((acc, pos + 1))
        } else {
            Err(
                ErrorView::UnexpectedToken(
                    "Found unexpected input in the OFX tag, Found Token: "@ + t,
                ),
            )
        }
    }
}

#[via_fn]
proof fn spec_parse_qfx_loop_decreases(toks: Seq<Seq<char>>, pos: int, acc: QFXView) {
    if 0 <= pos < toks.len() {
        if toks[pos] == "SIGNONMSGSRSV1"@ {
            lemma_spec_parse_sign_on_msg_srs_v1_advances(toks, pos + 1);
        }
        if toks[pos] == "CREDITCARDMSGSRSV1"@ {
            lemma_spec_parse_cc_msg_srs_v1_advances(toks, pos + 1);
        }
        if toks[pos] == "BANKMSGSRSV1"@ {
            lemma_spec_parse_bank_msg_srs_v1_advances(toks, pos + 1);
        }
    }
}

/// A successful OFX envelope decode consumes at least one token and never
/// runs past the end of the stream.
pub proof fn lemma_spec_parse_qfx_loop_advances(toks: Seq<Seq<char>>, pos: int, acc: QFXView)
    ensures
        spec_parse_qfx_loop(toks, pos, acc) matches Ok((v, p)) ==> pos < p <= toks.len(),
    decreases toks.len() - pos,
{
    if 0 <= pos < toks.len() {
        let t = toks[pos];
        if t == "SIGNONMSGSRSV1"@ && acc.sign_on_msg_srs_v1 is None {
            lemma_spec_parse_sign_on_msg_srs_v1_advances(toks, pos + 1);
            match spec_parse_sign_on_msg_srs_v1(toks, pos + 1) {
                Ok((v, p2)) => {
                    lemma_spec_parse_qfx_loop_advances(
                        toks,
                        p2,
                        QFXView { sign_on_msg_srs_v1: Some(v), ..acc },
                    );
                },
                Err(e) => {},
            }
        } else if t == "CREDITCARDMSGSRSV1"@ {
            lemma_spec_parse_cc_msg_srs_v1_advances(toks, pos + 1);
            match spec_parse_cc_msg_srs_v1(toks, pos + 1) {
                Ok((v, p2)) => {
                    lemma_spec_parse_qfx_loop_advances(
                        toks,
                        p2,
                        QFXView { credit_card_msg_srs_v1: Some(v), ..acc },
                    );
                },
                Err(e) => {},
            }
        } else if t == "BANKMSGSRSV1"@ && acc.bank_msg_srs_v1 is None {
            lemma_spec_parse_bank_msg_srs_v1_advances(toks, pos + 1);
            match spec_parse_bank_msg_srs_v1(toks, pos + 1) {
                Ok((v, p2)) => {
                    lemma_spec_parse_qfx_loop_advances(
                        toks,
                        p2,
                        QFXView { bank_msg_srs_v1: Some(v), ..acc },
                    );
                },
                Err(e) => {},
            }
        }
    }
}

/// The OFX envelope body decoded from `toks[pos..]`, and the position after
/// its terminator; or the first error.
pub open spec fn spec_parse_qfx(toks: Seq<Seq<char>>, pos: int) -> Result<
    (QFXView, int),
    ErrorView,
> {
    spec_parse_qfx_loop(toks, pos, QFXView::init())
}

/// The document decoded from an envelope text: the text is tokenized, the
/// first token must be `OFX`, and the envelope body follows up to `/OFX`.
/// Tokens after the envelope's terminator are ignored.
pub open spec fn spec_decode(s: Seq<char>) -> Result<QFXView, ErrorView> {
    let toks = spec_tokenize(s);
    if toks.len() == 0 {
        Err(
            ErrorView::UnexpectedEOF(
                "Found unexpected EOF. Was still expecting the OFX token to start parsing the file"@,
            ),
        )
    } else if toks[0] != "OFX"@ {
        Err(
            ErrorView::UnexpectedToken(
                "Found an unexpected token. Expecting: OFX, Found "@ + toks[0],
            ),
        )
    } else {
        match spec_parse_qfx(toks, 1) {
            Ok((v, p)) => Ok(v),
            Err(e) => Err(e),
        }
    }
}

/// Decoding is a pure function of the input text: the decoded document, or
/// the error raised, is the same on every decode of equal text, so decoding
/// the same input twice yields structurally equal results.
pub proof fn lemma_decode_deterministic(s1: Seq<char>, s2: Seq<char>)
    requires
        s1 == s2,
    ensures
        spec_decode(s1) == spec_decode(s2),
{
}

impl QFX {
    /// Decodes the OFX envelope body: any of the three sections in any
    /// order, each at most once, up to and including the `/OFX` terminator.
    #[verifier::loop_isolation(false)]
    pub fn parse(tokens: &mut TokenCursor) -> (r: Result<QFX, QFXParsingError>)
        ensures
            final(tokens)@.toks == old(tokens)@.toks,
            old(tokens)@.pos <= final(tokens)@.pos,
            match r {
                Ok(v) => spec_parse_qfx(old(tokens)@.toks, old(tokens)@.pos) == Ok::<
                    (QFXView, int),
                    ErrorView,
                >((v@, final(tokens)@.pos)),
                Err(e) => spec_parse_qfx(old(tokens)@.toks, old(tokens)@.pos) == Err::<
                    (QFXView, int),
                    ErrorView,
                >(e@),
            },
    {
        let ghost toks = tokens@.toks;
        let ghost pos0 = tokens@.pos;
        let mut sign_on_msg_srs_v1: Option<SignOnMsgSrsV1> = None;
        let mut credit_card_msg_srs_v1: Option<CCMsgSrsV1> = None;
        let mut bank_msg_srs_v1: Option<BankMsgSrsV1> = None;
        loop
            invariant
                tokens@.toks == toks,
                pos0 <= tokens@.pos,
                spec_parse_qfx(toks, pos0) == spec_parse_qfx_loop(
                    toks,
                    tokens@.pos,
                    QFXView {
                        sign_on_msg_srs_v1: sign_on_msg_srs_v1.deep_view(),
                        credit_card_msg_srs_v1: credit_card_msg_srs_v1.deep_view(),
                        bank_msg_srs_v1: bank_msg_srs_v1.deep_view(),
                    },
                ),
            decreases toks.len() - tokens@.pos,
        {
            match tokens.next() {
                None => {
                    return Err(
                        QFXParsingError::UnexpectedEOF(
                            String::from_str(
                                "Found unexpected EOF. Was still expecting the '/OFX' token to end parsing",
                            ),
                        ),
                    );
                },
                Some(t) => {
                    if str_eq(t.as_str(), "SIGNONMSGSRSV1") {
                        if sign_on_msg_srs_v1.is_some() {
                            return Err(
                                QFXParsingError::UnexpectedToken(
                                    String::from_str(
                                        "The value for sign on message srs v1 is already set",
                                    ),
                                ),
                            );
                        }
                        match SignOnMsgSrsV1::parse(tokens) {
                            Ok(v) => {
                                sign_on_msg_srs_v1 = Some(v);
                            },
                            Err(e) => {
                                return Err(e);
                            },
                        }
                    } else if str_eq(t.as_str(), "CREDITCARDMSGSRSV1") {
                        match CCMsgSrsV1::parse(tokens) {
                            Ok(v) => {
                                credit_card_msg_srs_v1 = Some(v);
                            },
                            Err(e) => {
                                return Err(e);
                            },
                        }
                    } else if str_eq(t.as_str(), "BANKMSGSRSV1") {
                        if bank_msg_srs_v1.is_some() {
                            return Err(
                                QFXParsingError::UnexpectedToken(
                                    String::from_str(
                                        "The value for bank message srs v1 is already set",
                                    ),
                                ),
                            );
                        }
                        match BankMsgSrsV1::parse(tokens) {
                            Ok(v) => {
                                bank_msg_srs_v1 = Some(v);
                            },
                            Err(e) => {
                                return Err(e);
                            },
                        }
                    } else if str_eq(t.as_str(), "/OFX") {
                        return Ok(
                            QFX { sign_on_msg_srs_v1, credit_card_msg_srs_v1, bank_msg_srs_v1 },
                        );
                    } else {
                        return Err(
                            QFXParsingError::UnexpectedToken(
                                concat2(
                                    "Found unexpected input in the OFX tag, Found Token: ",
                                    t.as_str(),
                                ),
                            ),
                        );
                    }
                },
            }
        }
    }
}

/// Decodes a whole QFX envelope text, handed over with any leading content
/// before the envelope's opening tag already removed, into a document.
pub fn decode(text: &str) -> (r: Result<QFX, QFXParsingError>)
    ensures
        match r {
            Ok(q) => spec_decode(text@) == Ok::<QFXView, ErrorView>(q@),
            Err(e) => spec_decode(text@) == Err::<QFXView, ErrorView>(e@),
        },
{
    let mut tokens = tokenize(text);
    match tokens.next() {
        None => Err(
            QFXParsingError::UnexpectedEOF(
                String::from_str(
                    "Found unexpected EOF. Was still expecting the OFX token to start parsing the file",
                ),
            ),
        ),
        Some(t) => {
            if str_eq(t.as_str(), "OFX") {
                QFX::parse(&mut tokens)
            } else {
                Err(
                    QFXParsingError::UnexpectedToken(
                        concat2("Found an unexpected token. Expecting: OFX, Found ", t.as_str()),
                    ),
                )
            }
        },
    }
}

} // verus!
