use vstd::prelude::*;
use crate::datetime::DateTime;
use crate::fields::{
    child_text, optional_attribute as read_optional_attribute, optional_bool_ok,
    optional_bool_valid, optional_child_bool, optional_child_datetime, optional_child_text,
    optional_child_usize, optional_datetime_ok, optional_datetime_valid, optional_usize_ok,
    optional_usize_valid, required_attribute, required_child_text, string_view,
};
use crate::find_item::request_root;
use crate::response::{ResponseMessage, ResponseMessages};
use crate::literal::{bool_literal, bool_text, DecodeError};
use crate::xml::{
    attribute, child, find_child, local_name, local_part, same_text, all_leaves, bare, push_leaf, new_attribute, new_element, shape, shapes, text_element, texted,
    types_name, types_tag, Element, Shape, MESSAGES_NS_URI,
};

verus! {

#[derive(Clone, Debug, PartialEq, Eq)]
/// A request for attachments of the store by their ids.
pub struct GetAttachment {
    pub attachment_shape: AttachmentShape,
    pub attachment_ids: Vec<AttachmentId>,
}

#[derive(Clone, Debug, PartialEq, Eq)]
/// The form in which an item body is returned.
pub enum BodyType {
    Best,
    Html,
    Text,
}

pub open spec fn body_type_text(b: BodyType) -> Seq<char> {
    match b {
        BodyType::Best => "Best"@,
        BodyType::Html => "HTML"@,
        BodyType::Text => "Text"@,
    }
}

#[derive(Clone, Debug, PartialEq, Eq)]
/// Additional properties to return for attachments; all absent by default.
pub struct AttachmentShape {
    pub include_mime_content: Option<bool>,
    pub body_type: Option<BodyType>,
    pub filter_html_content: Option<bool>,
}

impl Default for AttachmentShape {
    fn default() -> (r: AttachmentShape)
        ensures
            r.include_mime_content is None,
            r.body_type is None,
            r.filter_html_content is None,
    {
        AttachmentShape { include_mime_content: None, body_type: None, filter_html_content: None }
    }
}

pub open spec fn optional_bool_child(name: Seq<char>, b: Option<bool>) -> Seq<Shape> {
    match b {
        Some(v) => seq![texted(types_name(name), bool_text(v))],
        None => Seq::empty(),
    }
}

pub open spec fn attachment_shape_child_shapes(s: AttachmentShape) -> Seq<Shape> {
    optional_bool_child("IncludeMimeContent"@, s.include_mime_content) + match s.body_type {
        Some(b) => seq![texted(types_name("BodyType"@), body_type_text(b))],
        None => Seq::empty(),
    } + optional_bool_child("FilterHtmlContent"@, s.filter_html_content)
}

/// `e` is the encoding of the attachment shape: only its present fields, in order.
pub open spec fn attachment_shape_encoded(s: AttachmentShape, e: Element) -> bool {
    &&& shape(e) == bare("AttachmentShape"@)
    &&& shapes(e.children@) == attachment_shape_child_shapes(s)
    &&& all_leaves(e.children@)
}

impl AttachmentShape {
    /// Encodes the shape as an `AttachmentShape` element.
    pub fn to_element(&self) -> (r: Element)
        ensures
            attachment_shape_encoded(*self, r),
    {
        let mut r = new_element(String::from_str("AttachmentShape"));
        match self.include_mime_content {
            Some(b) => push_leaf(
                &mut r.children,
                text_element(types_tag("IncludeMimeContent"), String::from_str(bool_literal(b))),
            ),
            None => {},
        }
        match &self.body_type {
            Some(b) => {
                let t = match b {
                    BodyType::Best => "Best",
                    BodyType::Html => "HTML",
                    BodyType::Text => "Text",
                };
                push_leaf(&mut r.children, text_element(types_tag("BodyType"), String::from_str(t)));
            },
            None => {},
        }
        match self.filter_html_content {
            Some(b) => push_leaf(
                &mut r.children,
                text_element(types_tag("FilterHtmlContent"), String::from_str(bool_literal(b))),
            ),
            None => {},
        }
        assert(shapes(r.children@) =~= attachment_shape_child_shapes(*self));
        r
    }
}

#[derive(Clone, Debug, PartialEq, Eq)]
/// The identifier of an attachment, optionally with the item it belongs to.
pub struct AttachmentId {
    pub id: String,
    pub root_item_id: Option<String>,
    pub root_item_change_key: Option<String>,
}

pub open spec fn attachment_id_shape(a: AttachmentId) -> Shape {
    Shape {
        name: "AttachmentId"@,
        attributes: seq![("Id"@, a.id@)] + match a.root_item_id {
            Some(v) => seq![("RootItemId"@, v@)],
            None => Seq::empty(),
        } + match a.root_item_change_key {
            Some(v) => seq![("RootItemChangeKey"@, v@)],
            None => Seq::empty(),
        },
        text: None,
    }
}

pub open spec fn attachment_id_shapes(a: Seq<AttachmentId>) -> Seq<Shape> {
    a.map_values(|x: AttachmentId| attachment_id_shape(x))
}

impl AttachmentId {
    /// Encodes the id as a leaf element.
    pub fn to_element(&self) -> (r: Element)
        ensures
            crate::xml::is_leaf(r, attachment_id_shape(*self)),
    {
        let mut r = new_element(String::from_str("AttachmentId"));
        r.attributes.push(new_attribute("Id", self.id.clone()));
        match &self.root_item_id {
            Some(v) => r.attributes.push(new_attribute("RootItemId", v.clone())),
            None => {},
        }
        match &self.root_item_change_key {
            Some(v) => r.attributes.push(new_attribute("RootItemChangeKey", v.clone())),
            None => {},
        }
        assert(shape(r).attributes =~= attachment_id_shape(*self).attributes);
        r
    }
}

/// The encoding of an attachment request: the shape, then the ids in order.
pub open spec fn get_attachment_encoded(g: GetAttachment, e: Element) -> bool {
    &&& shape(e) == request_root("GetAttachment"@, Seq::empty())
    &&& e.children@.len() == 2
    &&& attachment_shape_encoded(g.attachment_shape, e.children@[0])
    &&& shape(e.children@[1]) == bare("AttachmentIds"@)
    &&& shapes(e.children@[1].children@) == attachment_id_shapes(g.attachment_ids@)
    &&& all_leaves(e.children@[1].children@)
}

impl GetAttachment {
    /// Encodes the request as its operation element.
    pub fn to_element(&self) -> (r: Element)
        ensures
            get_attachment_encoded(*self, r),
    {
        let mut r = new_element(String::from_str("GetAttachment"));
        r.attributes.push(new_attribute("xmlns", String::from_str(MESSAGES_NS_URI)));
        assert(shape(r).attributes =~= request_root("GetAttachment"@, Seq::empty()).attributes);
        r.children.push(self.attachment_shape.to_element());
        let mut ids = new_element(String::from_str("AttachmentIds"));
        let mut i: usize = 0;
        while i < self.attachment_ids.len()
            invariant
                i <= self.attachment_ids@.len(),
                shape(ids) == bare("AttachmentIds"@),
                shapes(ids.children@) == attachment_id_shapes(
                    self.attachment_ids@.subrange(0, i as int),
                ),
                all_leaves(ids.children@),
            decreases self.attachment_ids@.len() - i,
        {
            push_leaf(&mut ids.children, self.attachment_ids[i].to_element());
            assert(attachment_id_shapes(self.attachment_ids@.subrange(0, i + 1)) =~= attachment_id_shapes(
                self.attachment_ids@.subrange(0, i as int),
            ).push(attachment_id_shape(self.attachment_ids@[i as int])));
            i = i + 1;
        }
        assert(self.attachment_ids@.subrange(0, self.attachment_ids@.len() as int)
            == self.attachment_ids@);
        r.children.push(ids);
        r
    }
}

pub open spec fn attachment_id_valid(e: Element) -> bool {
    attribute(e, "Id"@) is Some
}

pub open spec fn attachment_id_decodes(e: Element, a: AttachmentId) -> bool {
    &&& attribute(e, "Id"@) == Some(a.id@)
    &&& attribute(e, "RootItemId"@) == string_view(a.root_item_id)
    &&& attribute(e, "RootItemChangeKey"@) == string_view(a.root_item_change_key)
}

impl AttachmentId {
    pub fn from_element(e: &Element) -> (r: Result<AttachmentId, DecodeError>)
        ensures
            r is Ok <==> attachment_id_valid(*e),
            r matches Ok(a) ==> attachment_id_decodes(*e, a),
            r matches Err(err) ==> err is MissingField,
    {
        let id = required_attribute(e, "Id")?;
        let root_item_id = read_optional_attribute(e, "RootItemId");
        let root_item_change_key = read_optional_attribute(e, "RootItemChangeKey");
        Ok(AttachmentId { id, root_item_id, root_item_change_key })
    }
}

/// An attachment, told apart by the element's own tag.
#[derive(Clone, Debug, PartialEq, Eq)]
pub enum Attachment {
    /// An item of the store attached to another.
    ItemAttachment {
        attachment_id: AttachmentId,
        name: String,
        content_type: Option<String>,
        content_id: Option<String>,
        content_location: Option<String>,
        size: Option<usize>,
        last_modified_time: Option<DateTime>,
        is_inline: Option<bool>,
    },
    /// A file, with its base64 content when asked for.
    FileAttachment {
        attachment_id: AttachmentId,
        name: String,
        content: Option<String>,
        content_type: String,
        content_id: Option<String>,
        content_location: Option<String>,
        size: Option<usize>,
        last_modified_time: Option<DateTime>,
        is_inline: Option<bool>,
        is_contact_photo: Option<bool>,
    },
}

/// The tag names a registered attachment kind.
pub open spec fn attachment_known(e: Element) -> bool {
    local_name(e.name@) == "ItemAttachment"@ || local_name(e.name@) == "FileAttachment"@
}

/// What both kinds require of their element.
pub open spec fn attachment_common_valid(e: Element) -> bool {
    &&& child(e, "AttachmentId"@) matches Some(c) && attachment_id_valid(c)
    &&& child_text(e, "Name"@) is Some
    &&& optional_usize_valid(child_text(e, "Size"@))
    &&& optional_datetime_valid(child_text(e, "LastModifiedTime"@))
    &&& optional_bool_valid(child_text(e, "IsInline"@))
}

pub open spec fn attachment_valid(e: Element) -> bool {
    let n = local_name(e.name@);
    if n == "ItemAttachment"@ {
        attachment_common_valid(e)
    } else if n == "FileAttachment"@ {
        &&& attachment_common_valid(e)
        &&& child_text(e, "ContentType"@) is Some
        &&& optional_bool_valid(child_text(e, "IsContactPhoto"@))
    } else {
        false
    }
}

pub open spec fn attachment_decodes(e: Element, a: Attachment) -> bool {
    let n = local_name(e.name@);
    match a {
        Attachment::ItemAttachment {
            attachment_id,
            name,
            content_type,
            content_id,
            content_location,
            size,
            last_modified_time,
            is_inline,
        } => {
            &&& n == "ItemAttachment"@
            &&& child(e, "AttachmentId"@) matches Some(c) && attachment_id_decodes(c, attachment_id)
            &&& child_text(e, "Name"@) == Some(name@)
            &&& string_view(content_type) == child_text(e, "ContentType"@)
            &&& string_view(content_id) == child_text(e, "ContentId"@)
            &&& string_view(content_location) == child_text(e, "ContentLocation"@)
            &&& optional_usize_ok(child_text(e, "Size"@), size)
            &&& optional_datetime_ok(child_text(e, "LastModifiedTime"@), last_modified_time)
            &&& optional_bool_ok(child_text(e, "IsInline"@), is_inline)
        },
        Attachment::FileAttachment {
            attachment_id,
            name,
            content,
            content_type,
            content_id,
            content_location,
            size,
            last_modified_time,
            is_inline,
            is_contact_photo,
        } => {
            &&& n == "FileAttachment"@
            &&& child(e, "AttachmentId"@) matches Some(c) && attachment_id_decodes(c, attachment_id)
            &&& child_text(e, "Name"@) == Some(name@)
            &&& string_view(content) == child_text(e, "Content"@)
            &&& child_text(e, "ContentType"@) == Some(content_type@)
            &&& string_view(content_id) == child_text(e, "ContentId"@)
            &&& string_view(content_location) == child_text(e, "ContentLocation"@)
            &&& optional_usize_ok(child_text(e, "Size"@), size)
            &&& optional_datetime_ok(child_text(e, "LastModifiedTime"@), last_modified_time)
            &&& optional_bool_ok(child_text(e, "IsInline"@), is_inline)
            &&& optional_bool_ok(child_text(e, "IsContactPhoto"@), is_contact_photo)
        },
    }
}

fn required_attachment_id(e: &Element) -> (r: Result<AttachmentId, DecodeError>)
    ensures
        r is Ok <==> (child(*e, "AttachmentId"@) matches Some(c) && attachment_id_valid(c)),
        r matches Ok(a) ==> child(*e, "AttachmentId"@) matches Some(c) && attachment_id_decodes(
            c,
            a,
        ),
        r matches Err(err) ==> err is MissingField,
{
    match find_child(e, "AttachmentId") {
        Some(i) => AttachmentId::from_element(&e.children[i]),
        None => Err(DecodeError::MissingField(String::from_str("AttachmentId"))),
    }
}

impl Attachment {
    /// Decodes an attachment, choosing its kind by the element's tag.
    pub fn from_element(e: &Element) -> (r: Result<Attachment, DecodeError>)
        ensures
            r is Ok <==> attachment_valid(*e),
            r matches Ok(a) ==> attachment_decodes(*e, a),
            r matches Err(err) ==> (err is UnknownVariant <==> !attachment_known(*e)),
    {
        proof {
            reveal_strlit("FileAttachment");
            reveal_strlit("ItemAttachment");
            assert("FileAttachment"@[0] != "ItemAttachment"@[0]);
        }
        let n = local_part(e.name.as_str());
        let is_file = same_text(n, "FileAttachment");
        if !is_file && !same_text(n, "ItemAttachment") {
            return Err(DecodeError::UnknownVariant(e.name.clone()));
        }
        let attachment_id = required_attachment_id(e)?;
        let name = required_child_text(e, "Name")?;
        let size = optional_child_usize(e, "Size")?;
        let last_modified_time = optional_child_datetime(e, "LastModifiedTime")?;
        let is_inline = optional_child_bool(e, "IsInline")?;
        let content_id = optional_child_text(e, "ContentId");
        let content_location = optional_child_text(e, "ContentLocation");
        if is_file {
            let content_type = required_child_text(e, "ContentType")?;
            let is_contact_photo = optional_child_bool(e, "IsContactPhoto")?;
            Ok(Attachment::FileAttachment {
                attachment_id,
                name,
                content: optional_child_text(e, "Content"),
                content_type,
                content_id,
                content_location,
                size,
                last_modified_time,
                is_inline,
                is_contact_photo,
            })
        } else {
            Ok(Attachment::ItemAttachment {
                attachment_id,
                name,
                content_type: optional_child_text(e, "ContentType"),
                content_id,
                content_location,
                size,
                last_modified_time,
                is_inline,
            })
        }
    }
}

/// The attachments of one message, in document order.
#[derive(Clone, Debug, PartialEq, Eq)]
pub struct Attachments {
    pub inner: Vec<Attachment>,
}

pub open spec fn attachments_valid(e: Element) -> bool {
    forall|i: int| 0 <= i < e.children@.len() ==> attachment_valid(#[trigger] e.children@[i])
}

pub open spec fn attachments_decodes(e: Element, a: Attachments) -> bool {
    &&& a.inner@.len() == e.children@.len()
    &&& forall|i: int|
        0 <= i < e.children@.len() ==> attachment_decodes(#[trigger] e.children@[i], a.inner@[i])
}

impl Attachments {
    /// Decodes every child as an attachment, in order.
    pub fn from_element(e: &Element) -> (r: Result<Attachments, DecodeError>)
        ensures
            r is Ok <==> attachments_valid(*e),
            r matches Ok(a) ==> attachments_decodes(*e, a),
    {
        let mut v: Vec<Attachment> = Vec::new();
        let mut i: usize = 0;
        while i < e.children.len()
            invariant
                i <= e.children@.len(),
                v@.len() == i,
                forall|j: int| 0 <= j < i ==> attachment_decodes(e.children@[j], #[trigger] v@[j]),
                forall|j: int| 0 <= j < i ==> attachment_valid(#[trigger] e.children@[j]),
            decreases e.children@.len() - i,
        {
            let a = Attachment::from_element(&e.children[i])?;
            v.push(a);
            i = i + 1;
        }
        Ok(Attachments { inner: v })
    }
}

/// The attachments returned for one requested id.
#[derive(Clone, Debug, PartialEq, Eq)]
pub struct GetAttachmentResponseMessage {
    pub attachments: Attachments,
}

impl ResponseMessage for GetAttachmentResponseMessage {
    open spec fn payload_valid(e: Element) -> bool {
        child(e, "Attachments"@) matches Some(c) && attachments_valid(c)
    }

    open spec fn payload_decodes(e: Element, v: Self) -> bool {
        child(e, "Attachments"@) matches Some(c) && attachments_decodes(c, v.attachments)
    }

    fn decode_payload(e: &Element) -> (r: Result<Self, DecodeError>) {
        match find_child(e, "Attachments") {
            Some(i) => {
                let attachments = Attachments::from_element(&e.children[i])?;
                Ok(GetAttachmentResponseMessage { attachments })
            },
            None => Err(DecodeError::MissingField(String::from_str("Attachments"))),
        }
    }
}

/// The response to an attachment request: one message per requested id.
#[derive(Clone, Debug, PartialEq, Eq)]
pub struct GetAttachmentResponse {
    pub response_messages: ResponseMessages<GetAttachmentResponseMessage>,
}

impl GetAttachmentResponse {
    /// Decodes a response document into its classified messages.
    pub fn from_element(doc: &Element) -> (r: Result<GetAttachmentResponse, DecodeError>)
        ensures
            r is Ok <==> crate::response::messages_container(*doc) is Some,
            r matches Ok(m) ==> crate::response::messages_container(*doc) matches Some(c)
                && crate::response::outcomes_of(c, m.response_messages.response_messages@),
    {
        let response_messages = crate::response::parse_envelope(doc)?;
        Ok(GetAttachmentResponse { response_messages })
    }

    /// Decodes the response to a request for `expected` attachments: a
    /// different number of messages is an envelope shape error.
    pub fn from_element_for(doc: &Element, expected: usize) -> (r: Result<GetAttachmentResponse, DecodeError>)
        ensures
            r is Ok <==> (crate::response::messages_container(*doc) matches Some(c)
                && c.children@.len() == expected),
            r matches Ok(m) ==> crate::response::messages_container(*doc) matches Some(c)
                && crate::response::outcomes_of(c, m.response_messages.response_messages@)
                && m.response_messages.response_messages@.len() == expected,
    {
        let response_messages = crate::response::parse_batch(doc, expected)?;
        Ok(GetAttachmentResponse { response_messages })
    }
}

} // verus!
