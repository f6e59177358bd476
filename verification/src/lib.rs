//! Decoder for OFX/QFX financial statements.
//!
//! OFX/QFX is a tag-delimited, SGML-derived text format used by banks and
//! credit unions to publish sign-on responses, bank statements, credit-card
//! statements, transaction lists and balances.  The decoder splits a
//! document into tag and value tokens, then drives a recursive-descent walk
//! over the token stream, one routine per record type, enforcing which
//! fields are required, optional or repeated, and normalizing date-time and
//! amount values on the way.  The grammar is irregular on purpose: leaf
//! elements never emit a closing tag while container elements do, so element
//! boundaries are inferred from tag-name lookup alone.
//!
//! Every decoding routine carries a contract relating its result to a
//! specification-level decode function, so the decoded tree — or the error
//! raised — is pinned down exactly by the input text; the laws module states
//! and proves the decode laws on top of those specifications.  Reading files
//! and locating the envelope inside noisy prefix content is left to callers;
//! the decoder takes the envelope text and returns either a fully populated
//! document or the first error met, never a partial document.

pub mod amount;
pub mod bank_msg;
pub mod credit_card;
pub mod datetime;
pub mod digits;
pub mod document;
pub mod errors;
pub mod laws;
pub mod records;
pub mod sign_on;
pub mod tokenizer;

pub use amount::Amount;
pub use amount::parse_amount;
pub use bank_msg::Bankacctfrom;
pub use bank_msg::BankMsgSrsV1;
pub use bank_msg::Stmtrs;
pub use bank_msg::Stmttrnrs;
pub use credit_card::Ccacctfrom;
pub use credit_card::CCMsgSrsV1;
pub use credit_card::Ccstmtrs;
pub use credit_card::Ccstmttrnrs;
pub use datetime::parse_ofx_datetime;
pub use datetime::UtcDateTime;
pub use document::decode;
pub use document::QFX;
pub use errors::QFXParsingError;
pub use records::AvailableBalance;
pub use records::BankTranList;
pub use records::LedgerBal;
pub use records::Status;
pub use records::Stmttrn;
pub use sign_on::FinancialInstitution;
pub use sign_on::SignOnMsgSrsV1;
pub use sign_on::Sonrs;
pub use tokenizer::remove_last_bracketed;
pub use tokenizer::tokenize;
pub use tokenizer::TokenCursor;
