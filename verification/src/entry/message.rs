//! Parsing entry bodies with `mail_parser`.

use vstd::prelude::*;

use crate::entry::body;

verus! {

/// The parsed messages of `mail_parser`, carried through as they are.
#[verifier::external_type_specification]
#[verifier::external_body]
pub struct ExMessage<'x>(mail_parser::Message<'x>);

/// What `mail_parser::MessageParser::parse` returns for `raw` under the default settings.
pub uninterp spec fn parsed_message(raw: Seq<u8>) -> Option<mail_parser::Message<'static>>;

/// What `mail_parser::MessageParser::parse` returns for `raw` when the parser was built with
/// `with_minimal_headers`.
pub uninterp spec fn parsed_headers(raw: Seq<u8>) -> Option<mail_parser::Message<'static>>;

/// Calls `mail_parser::MessageParser::parse` on a parser with the default settings. Claimed: on the
/// bodies that are let through it returns, its result depends on the bytes alone, and no message
/// is found where there are no bytes.
#[verifier::external_body]
pub(crate) fn parse_message<'x>(raw: &'x [u8]) -> (message: Option<mail_parser::Message<'x>>)
    requires
        body::is_parsable(raw@),
    ensures
        message == parsed_message(raw@),
        raw@.len() == 0 ==> message is None,
{
    mail_parser::MessageParser::new().parse(raw)
}

/// Calls `mail_parser::MessageParser::parse` on a parser built with `with_minimal_headers`.
/// Claimed: on the bodies that are let through it returns, its result depends on the bytes alone,
/// and no message is found where there are no bytes.
#[verifier::external_body]
pub(crate) fn parse_headers<'x>(raw: &'x [u8]) -> (message: Option<mail_parser::Message<'x>>)
    requires
        body::is_readable(raw@),
    ensures
        message == parsed_headers(raw@),
        raw@.len() == 0 ==> message is None,
{
    mail_parser::MessageParser::new().with_minimal_headers().parse(raw)
}

} // verus!
