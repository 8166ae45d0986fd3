//! What a tool call shows, in the terms of the agent client protocol.

use agent_client_protocol::schema::v1 as acp;
use vstd::prelude::*;

verus! {

/// A piece of what a tool call shows.
#[verifier::external_type_specification]
#[verifier::external_body]
pub struct ExToolCallContent(agent_client_protocol::schema::v1::ToolCallContent);

/// An update to a tool call.
#[verifier::external_type_specification]
#[verifier::external_body]
pub struct ExToolCallUpdateFields(agent_client_protocol::schema::v1::ToolCallUpdateFields);

/// A text as a tool call shows it.
pub uninterp spec fn text_block(
    text: Seq<char>,
) -> agent_client_protocol::schema::v1::ToolCallContent;

/// An image as a tool call shows it, by its encoded data and its type.
pub uninterp spec fn image_block(
    data: Seq<char>,
    mime_type: Seq<char>,
) -> agent_client_protocol::schema::v1::ToolCallContent;

/// The update that has a tool call show this, and changes nothing else.
pub uninterp spec fn content_update(
    content: Seq<agent_client_protocol::schema::v1::ToolCallContent>,
) -> agent_client_protocol::schema::v1::ToolCallUpdateFields;

/// `TextContent::new` makes a text block of its text, without annotations;
/// `Content::new` makes it content of a tool call, without metadata.
#[verifier::external_body]
pub(crate) fn tool_call_text(text: String) -> (r: acp::ToolCallContent)
    ensures
        r == text_block(text@),
{
    acp::ToolCallContent::Content(
        acp::Content::new(acp::ContentBlock::Text(acp::TextContent::new(text))),
    )
}

/// `ImageContent::new` makes an image block of the encoded data and their
/// type, without annotations; `Content::new` makes it content of a tool call,
/// without metadata.
#[verifier::external_body]
pub(crate) fn tool_call_image(data: String, mime_type: String) -> (r: acp::ToolCallContent)
    ensures
        r == image_block(data@, mime_type@),
{
    acp::ToolCallContent::Content(
        acp::Content::new(acp::ContentBlock::Image(acp::ImageContent::new(data, mime_type))),
    )
}

/// `ToolCallUpdateFields::new` makes an update that changes nothing, and
/// `ToolCallUpdateFields::content` has it replace what is shown.
#[verifier::external_body]
pub(crate) fn tool_call_update(content: Vec<acp::ToolCallContent>) -> (r: acp::ToolCallUpdateFields)
    ensures
        r == content_update(content@),
{
    acp::ToolCallUpdateFields::new().content(content)
}

} // verus!
