//! The response envelope: a `ResponseMessages` container whose children are
//! classified one by one as success, warning or error.
use vstd::prelude::*;
use crate::fields::{child_text, optional_child_text, string_view};
use crate::literal::DecodeError;
use crate::xml::{
    attribute, attribute_pairs, bare, child, find_attribute, find_child, lemma_child_found,
    local_name, local_part, new_attribute, new_element, same_text, shape, text_of, Element,
    Shape, MESSAGES_NS_URI, SOAP_NS_URI, TYPES_NS_URI,
};

verus! {

#[derive(Clone, Debug, PartialEq, Eq)]
/// The diagnostic of a message that did not fully succeed.
pub struct ResponseError {
    /// The remote response code, verbatim; empty when the message has none.
    pub response_code: String,
    /// The remote message text, when present.
    pub message_text: Option<String>,
    /// Why the message could not be decoded, when it could not.
    pub cause: Option<DecodeError>,
}

#[derive(Clone, Debug, PartialEq, Eq)]
/// One classified response message.
pub enum ResponseClass<T> {
    Success(T),
    /// Partial success: the payload when it could be decoded, and the diagnostic.
    Warning(Option<T>, ResponseError),
    Error(ResponseError),
}

#[derive(Clone, Debug, PartialEq, Eq)]
/// The outcomes of a response, one per message, in document order.
pub struct ResponseMessages<T> {
    pub response_messages: Vec<ResponseClass<T>>,
}

/// A response message type bound to an operation: how its payload is read
/// from a message element.
pub trait ResponseMessage: Sized {
    /// The message element holds a payload of this type.
    spec fn payload_valid(e: Element) -> bool;

    /// `v` is the payload that the message element holds.
    spec fn payload_decodes(e: Element, v: Self) -> bool;

    fn decode_payload(e: &Element) -> (r: Result<Self, DecodeError>)
        ensures
            r is Ok <==> Self::payload_valid(*e),
            r matches Ok(v) ==> Self::payload_decodes(*e, v),
    ;
}

/// The remote response code of a message, empty when absent.
pub open spec fn response_code(e: Element) -> Seq<char> {
    match child_text(e, "ResponseCode"@) {
        Some(t) => t,
        None => Seq::empty(),
    }
}

/// `err` carries the message's own diagnostic.
pub open spec fn carries_diagnostic(e: Element, err: ResponseError) -> bool {
    &&& err.response_code@ == response_code(e)
    &&& string_view(err.message_text) == child_text(e, "MessageText"@)
}

/// What decoding one message element gives: by its `ResponseClass` attribute,
/// a decoded payload on success (an error carrying the cause when the payload
/// cannot be decoded), the payload if any and the diagnostic on warning, and
/// only the diagnostic on error. A missing or unknown class is an error
/// whose cause is a missing field or a malformed value.
pub open spec fn outcome_of<T: ResponseMessage>(e: Element, o: ResponseClass<T>) -> bool {
    match attribute(e, "ResponseClass"@) {
        None => o matches ResponseClass::Error(err) && carries_diagnostic(e, err) && err.cause matches Some(
            DecodeError::MissingField(_),
        ),
        Some(c) => if c == "Success"@ {
            if T::payload_valid(e) {
                o matches ResponseClass::Success(v) && T::payload_decodes(e, v)
            } else {
                o matches ResponseClass::Error(err) && carries_diagnostic(e, err) && err.cause is Some
            }
        } else if c == "Warning"@ {
            o matches ResponseClass::Warning(p, err) && carries_diagnostic(e, err) && err.cause is None
                && (if T::payload_valid(e) {
                p matches Some(v) && T::payload_decodes(e, v)
            } else {
                p is None
            })
        } else if c == "Error"@ {
            o matches ResponseClass::Error(err) && carries_diagnostic(e, err) && err.cause is None
        } else {
            o matches ResponseClass::Error(err) && carries_diagnostic(e, err) && err.cause matches Some(
                DecodeError::MalformedValue(_),
            )
        },
    }
}

fn diagnostic(e: &Element, cause: Option<DecodeError>) -> (r: ResponseError)
    ensures
        carries_diagnostic(*e, r),
        r.cause == cause,
{
    let response_code = match find_child(e, "ResponseCode") {
        Some(i) => text_of(&e.children[i]),
        None => String::new(),
    };
    ResponseError { response_code, message_text: optional_child_text(e, "MessageText"), cause }
}

/// Classifies one message element and decodes what its class calls for.
pub fn classify<T: ResponseMessage>(e: &Element) -> (r: ResponseClass<T>)
    ensures
        outcome_of(*e, r),
{
    let class = match find_attribute(e, "ResponseClass") {
        Some(c) => c,
        None => {
            let cause = DecodeError::MissingField(String::from_str("ResponseClass"));
            return ResponseClass::Error(diagnostic(e, Some(cause)));
        },
    };
    if same_text(class.as_str(), "Success") {
        match T::decode_payload(e) {
            Ok(v) => ResponseClass::Success(v),
            Err(cause) => ResponseClass::Error(diagnostic(e, Some(cause))),
        }
    } else if same_text(class.as_str(), "Warning") {
        let payload = match T::decode_payload(e) {
            Ok(v) => Some(v),
            Err(_) => None,
        };
        ResponseClass::Warning(payload, diagnostic(e, None))
    } else if same_text(class.as_str(), "Error") {
        ResponseClass::Error(diagnostic(e, None))
    } else {
        let cause = DecodeError::MalformedValue(String::from_str("ResponseClass"));
        ResponseClass::Error(diagnostic(e, Some(cause)))
    }
}

/// Each message of the container has its outcome, at the same position.
pub open spec fn outcomes_of<T: ResponseMessage>(
    container: Element,
    r: Seq<ResponseClass<T>>,
) -> bool {
    &&& r.len() == container.children@.len()
    &&& forall|i: int|
        0 <= i < r.len() ==> outcome_of(#[trigger] container.children@[i], r[i])
}

/// Classifies every message of a `ResponseMessages` container, in order; one
/// message that cannot be decoded does not stop the others.
pub fn classify_all<T: ResponseMessage>(container: &Element) -> (r: ResponseMessages<T>)
    ensures
        outcomes_of(*container, r.response_messages@),
{
    let mut v: Vec<ResponseClass<T>> = Vec::new();
    let mut i: usize = 0;
    while i < container.children.len()
        invariant
            i <= container.children@.len(),
            v@.len() == i,
            forall|j: int| 0 <= j < i ==> outcome_of(container.children@[j], #[trigger] v@[j]),
        decreases container.children@.len() - i,
    {
        v.push(classify(&container.children[i]));
        i = i + 1;
    }
    ResponseMessages { response_messages: v }
}

/// The shape of the request envelope: the `soap` prefix bound to the
/// envelope namespace, `t` to the types and `m` to the messages.
pub open spec fn envelope_shape() -> Shape {
    Shape {
        name: "soap:Envelope"@,
        attributes: seq![
            ("xmlns:soap"@, SOAP_NS_URI@),
            ("xmlns:t"@, TYPES_NS_URI@),
            ("xmlns:m"@, MESSAGES_NS_URI@),
        ],
        text: None,
    }
}

/// Wraps an encoded operation in the protocol's request envelope: a
/// `soap:Envelope` whose `soap:Body` holds the operation alone.
pub fn build_envelope(operation: Element) -> (r: Element)
    ensures
        shape(r) == envelope_shape(),
        r.children@.len() == 1,
        shape(r.children@[0]) == bare("soap:Body"@),
        r.children@[0].children@ == seq![operation],
{
    let mut r = new_element(String::from_str("soap:Envelope"));
    let a = new_attribute("xmlns:soap", String::from_str(SOAP_NS_URI));
    let b = new_attribute("xmlns:t", String::from_str(TYPES_NS_URI));
    let m = new_attribute("xmlns:m", String::from_str(MESSAGES_NS_URI));
    r.attributes = Vec::new();
    r.attributes.push(a);
    r.attributes.push(b);
    r.attributes.push(m);
    assert(r.attributes@ =~= seq![a, b, m]);
    assert(attribute_pairs(r.attributes@) =~= envelope_shape().attributes);
    let mut body = new_element(String::from_str("soap:Body"));
    body.children.push(operation);
    assert(body.children@ =~= seq![operation]);
    r.children.push(body);
    r
}

/// The operation's response element: the document root, or the first child
/// of the `Body` when the root is a protocol `Envelope`.
pub open spec fn operation_root(doc: Element) -> Option<Element> {
    if local_name(doc.name@) == "Envelope"@ {
        match child(doc, "Body"@) {
            Some(b) => if b.children@.len() > 0 {
                Some(b.children@[0])
            } else {
                None
            },
            None => None,
        }
    } else {
        Some(doc)
    }
}

/// The envelope built around an operation leads back to that operation.
pub proof fn lemma_envelope_root(operation: Element, r: Element)
    requires
        shape(r) == envelope_shape(),
        r.children@.len() == 1,
        shape(r.children@[0]) == bare("soap:Body"@),
        r.children@[0].children@ == seq![operation],
    ensures
        operation_root(r) == Some(operation),
{
    reveal_strlit("soap:Envelope");
    reveal_strlit("soap:Body");
    reveal_strlit("Envelope");
    reveal_strlit("Body");
    reveal_strlit("soap:");
    crate::xml::lemma_local_after("soap:"@, "Envelope"@);
    crate::xml::lemma_local_after("soap:"@, "Body"@);
    assert("soap:Envelope"@ =~= "soap:"@ + "Envelope"@);
    assert("soap:Body"@ =~= "soap:"@ + "Body"@);
    lemma_child_found(r, 0);
    assert(r.children@[0].children@[0] == operation);
}

/// The `ResponseMessages` container of a response document.
pub open spec fn messages_container(doc: Element) -> Option<Element> {
    match operation_root(doc) {
        Some(r) => child(r, "ResponseMessages"@),
        None => None,
    }
}

/// Finds the `ResponseMessages` container of a response document.
pub fn find_messages_container(doc: &Element) -> (r: Result<&Element, DecodeError>)
    ensures
        r matches Ok(c) ==> messages_container(*doc) == Some(*c),
        r matches Err(err) ==> messages_container(*doc) is None && err is EnvelopeShape,
{
    let root = if same_text(local_part(doc.name.as_str()), "Envelope") {
        match find_child(doc, "Body") {
            Some(b) => {
                let body = &doc.children[b];
                if body.children.len() == 0 {
                    return Err(DecodeError::EnvelopeShape(String::from_str("Body")));
                }
                &body.children[0]
            },
            None => {
                return Err(DecodeError::EnvelopeShape(String::from_str("Body")));
            },
        }
    } else {
        doc
    };
    match find_child(root, "ResponseMessages") {
        Some(i) => Ok(&root.children[i]),
        None => Err(DecodeError::EnvelopeShape(String::from_str("ResponseMessages"))),
    }
}

/// Parses a response document into one outcome per message, in document
/// order; fails as a whole only when there is no `ResponseMessages` container.
pub fn parse_envelope<T: ResponseMessage>(doc: &Element) -> (r: Result<ResponseMessages<T>, DecodeError>)
    ensures
        r is Ok <==> messages_container(*doc) is Some,
        r matches Ok(m) ==> messages_container(*doc) matches Some(c) && outcomes_of(
            c,
            m.response_messages@,
        ),
        r matches Err(err) ==> err is EnvelopeShape,
{
    let c = find_messages_container(doc)?;
    Ok(classify_all(c))
}

/// Parses a response document to a batch of `expected` targets: a different
/// number of messages is an envelope shape error.
pub fn parse_batch<T: ResponseMessage>(doc: &Element, expected: usize) -> (r: Result<
    ResponseMessages<T>,
    DecodeError,
>)
    ensures
        r is Ok <==> (messages_container(*doc) matches Some(c) && c.children@.len() == expected),
        r matches Ok(m) ==> messages_container(*doc) matches Some(c) && outcomes_of(
            c,
            m.response_messages@,
        ) && m.response_messages@.len() == expected,
        r matches Err(err) ==> err is EnvelopeShape,
{
    let m = parse_envelope(doc)?;
    if m.response_messages.len() != expected {
        return Err(DecodeError::EnvelopeShape(String::from_str("ResponseMessages")));
    }
    Ok(m)
}

/// The class of an outcome: 0 success, 1 warning, 2 error.
pub open spec fn outcome_kind<T>(o: ResponseClass<T>) -> nat {
    match o {
        ResponseClass::Success(_) => 0,
        ResponseClass::Warning(..) => 1,
        ResponseClass::Error(_) => 2,
    }
}

/// The class that one message element calls for, from its `ResponseClass`
/// attribute and whether its payload can be decoded.
pub open spec fn message_kind<T: ResponseMessage>(e: Element) -> nat {
    match attribute(e, "ResponseClass"@) {
        Some(c) => if c == "Success"@ && T::payload_valid(e) {
            0
        } else if c == "Warning"@ {
            1
        } else {
            2
        },
        None => 2,
    }
}

/// Batch ordering: a response with N messages yields exactly N outcomes, and
/// the i-th outcome's class is decided by the i-th message alone.
pub proof fn lemma_batch_ordering<T: ResponseMessage>(doc: Element, m: ResponseMessages<T>)
    requires
        messages_container(doc) matches Some(c) && outcomes_of(c, m.response_messages@),
    ensures
        messages_container(doc) matches Some(c) && m.response_messages@.len() == c.children@.len()
            && forall|i: int|
            0 <= i < c.children@.len() ==> outcome_kind(#[trigger] m.response_messages@[i])
                == message_kind::<T>(c.children@[i]),
{
    reveal_strlit("Success");
    reveal_strlit("Warning");
    reveal_strlit("Error");
    assert("Success"@[0] != "Warning"@[0]);
    let c = messages_container(doc)->Some_0;
    assert forall|i: int| 0 <= i < c.children@.len() implies outcome_kind(
        #[trigger] m.response_messages@[i],
    ) == message_kind::<T>(c.children@[i]) by {
        assert(outcome_of(c.children@[i], m.response_messages@[i]));
    }
}

} // verus!
