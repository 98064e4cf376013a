use ews::{
    parse_document, DecodeError, FindItemResponse, FindItemResponseMessage, ItemId, Items,
    Message, RealItem, ResponseClass, RootFolder,
};

fn envelope(messages: &str) -> String {
    format!(
        r#"<?xml version="1.0" encoding="utf-8"?>
<s:Envelope xmlns:s="http://schemas.xmlsoap.org/soap/envelope/">
  <s:Body>
    <m:FindItemResponse xmlns:m="http://schemas.microsoft.com/exchange/services/2006/messages" xmlns:t="http://schemas.microsoft.com/exchange/services/2006/types">
      <m:ResponseMessages>{}</m:ResponseMessages>
    </m:FindItemResponse>
  </s:Body>
</s:Envelope>"#,
        messages
    )
}

const SUCCESS_TWO_ITEMS: &str = r#"<m:FindItemResponseMessage ResponseClass="Success"><m:ResponseCode>NoError</m:ResponseCode><m:RootFolder IndexedPagingOffset="2" TotalItemsInView="2" IncludesLastItemInRange="false"><t:Items><t:Message><t:ItemId Id="first"/><t:Subject>Hello &lt;world&gt;</t:Subject><t:Size>1024</t:Size><t:IsRead>true</t:IsRead></t:Message><t:CalendarItem><t:ItemId Id="second" ChangeKey="ck"/></t:CalendarItem></t:Items></m:RootFolder></m:FindItemResponseMessage>"#;

const ERROR_NO_PAYLOAD: &str = r#"<m:FindItemResponseMessage ResponseClass="Error"><m:MessageText>The specified folder could not be found.</m:MessageText><m:ResponseCode>ErrorFolderNotFound</m:ResponseCode></m:FindItemResponseMessage>"#;

fn empty_message() -> Message {
    Message {
        item_id: None,
        item_class: None,
        subject: None,
        size: None,
        is_read: None,
        has_attachments: None,
        internet_message_id: None,
    }
}

fn two_items() -> FindItemResponseMessage {
    FindItemResponseMessage {
        root: RootFolder {
            indexed_paging_offset: Some(2),
            numerator_offset: None,
            absolute_denominator: None,
            total_items_in_view: Some(2),
            includes_last_item_in_range: Some(false),
            items: Some(Items {
                inner: vec![
                    RealItem::Message(Message {
                        item_id: Some(ItemId { id: "first".to_string(), change_key: None }),
                        subject: Some("Hello <world>".to_string()),
                        size: Some(1024),
                        is_read: Some(true),
                        ..empty_message()
                    }),
                    RealItem::CalendarItem(Message {
                        item_id: Some(ItemId {
                            id: "second".to_string(),
                            change_key: Some("ck".to_string()),
                        }),
                        ..empty_message()
                    }),
                ],
            }),
            groups: None,
        },
    }
}

fn parse(text: &str) -> Result<FindItemResponse, DecodeError> {
    FindItemResponse::from_element(&parse_document(text).unwrap())
}

#[test]
fn success_message_with_two_items() {
    let r = parse(&envelope(SUCCESS_TWO_ITEMS)).unwrap();
    let m = r.response_messages.response_messages;
    assert_eq!(m.len(), 1);
    assert_eq!(m[0], ResponseClass::Success(two_items()));
}

#[test]
fn error_message_without_payload() {
    let r = parse(&envelope(ERROR_NO_PAYLOAD)).unwrap();
    let m = r.response_messages.response_messages;
    assert_eq!(m.len(), 1);
    match &m[0] {
        ResponseClass::Error(e) => {
            assert_eq!(e.response_code, "ErrorFolderNotFound");
            assert_eq!(e.message_text.as_deref(), Some("The specified folder could not be found."));
            assert_eq!(e.cause, None);
        }
        other => panic!("expected an error outcome, got {:?}", other),
    }
}

#[test]
fn batch_keeps_document_order_and_classifies_each() {
    let warning = r#"<m:FindItemResponseMessage ResponseClass="Warning"><m:MessageText>Partial.</m:MessageText><m:ResponseCode>ErrorBatchProcessingStopped</m:ResponseCode></m:FindItemResponseMessage>"#;
    let broken = r#"<m:FindItemResponseMessage ResponseClass="Success"><m:ResponseCode>NoError</m:ResponseCode><m:RootFolder TotalItemsInView="many"/></m:FindItemResponseMessage>"#;
    let all = format!("{}{}{}{}", ERROR_NO_PAYLOAD, SUCCESS_TWO_ITEMS, warning, broken);
    let m = parse(&envelope(&all)).unwrap().response_messages.response_messages;
    assert_eq!(m.len(), 4);
    assert!(matches!(&m[0], ResponseClass::Error(e) if e.response_code == "ErrorFolderNotFound"));
    assert_eq!(m[1], ResponseClass::Success(two_items()));
    match &m[2] {
        ResponseClass::Warning(payload, e) => {
            assert_eq!(payload, &None);
            assert_eq!(e.response_code, "ErrorBatchProcessingStopped");
        }
        other => panic!("expected a warning outcome, got {:?}", other),
    }
    match &m[3] {
        ResponseClass::Error(e) => {
            assert_eq!(e.response_code, "NoError");
            assert_eq!(e.cause, Some(DecodeError::MalformedValue("TotalItemsInView".to_string())));
        }
        other => panic!("expected an error outcome, got {:?}", other),
    }
}

#[test]
fn missing_container_is_envelope_shape_error() {
    let doc = parse_document("<m:FindItemResponse><m:Other/></m:FindItemResponse>").unwrap();
    assert_eq!(
        FindItemResponse::from_element(&doc),
        Err(DecodeError::EnvelopeShape("ResponseMessages".to_string()))
    );
}

#[test]
fn batch_count_mismatch_is_envelope_shape_error() {
    let doc = parse_document(&envelope(SUCCESS_TWO_ITEMS)).unwrap();
    let two = ews::response::parse_batch::<FindItemResponseMessage>(&doc, 2);
    assert!(matches!(two, Err(DecodeError::EnvelopeShape(_))));
    let one = ews::response::parse_batch::<FindItemResponseMessage>(&doc, 1).unwrap();
    assert_eq!(one.response_messages.len(), 1);
}

#[test]
fn unknown_item_kind_fails_only_its_message() {
    let odd = r#"<m:FindItemResponseMessage ResponseClass="Success"><m:ResponseCode>NoError</m:ResponseCode><m:RootFolder><t:Items><t:Task/></t:Items></m:RootFolder></m:FindItemResponseMessage>"#;
    let m = parse(&envelope(&format!("{}{}", odd, SUCCESS_TWO_ITEMS)))
        .unwrap()
        .response_messages
        .response_messages;
    match &m[0] {
        ResponseClass::Error(e) => {
            assert_eq!(e.cause, Some(DecodeError::UnknownVariant("t:Task".to_string())))
        }
        other => panic!("expected an error outcome, got {:?}", other),
    }
    assert_eq!(m[1], ResponseClass::Success(two_items()));
}

#[test]
fn missing_response_class_is_an_error_outcome() {
    let m = parse(&envelope("<m:FindItemResponseMessage><m:ResponseCode>NoError</m:ResponseCode></m:FindItemResponseMessage>"))
        .unwrap()
        .response_messages
        .response_messages;
    assert!(matches!(&m[0], ResponseClass::Error(e) if e.cause == Some(DecodeError::MissingField("ResponseClass".to_string()))));
}

#[test]
fn malformed_text_is_rejected() {
    assert!(parse_document("<a><b></a>").is_err());
    assert!(parse_document("<a x=1/>").is_err());
    assert!(matches!(parse_document("<a>&unknown;</a>"), Err(DecodeError::MalformedValue(_))));
    let e = parse_document("<!-- c --><a x='1 &amp; 2'>t&lt;u</a>").unwrap();
    assert_eq!(e.attributes[0].value, "1 & 2");
    assert_eq!(e.text.as_deref(), Some("t<u"));
}

#[test]
fn written_elements_read_back() {
    let f = ews::FindItem {
        traversal: ews::Traversal::Associated,
        item_shape: ews::ItemShape {
            base_shape: ews::BaseShape::Default,
            include_mime_content: Some(true),
            additional_properties: None,
        },
        view: Some(ews::ItemView::CalendarView {
            max_entries_returned: None,
            start_date: "a\"b'c".to_string(),
            end_date: "<&>".to_string(),
        }),
        parent_folder_ids: vec![],
    };
    let e = f.to_element();
    let back = ews::parser::reread(&e).unwrap();
    assert_eq!(to_xml_of(&back), to_xml_of(&e));
    let again = parse_document(&to_xml_of(&e)).unwrap();
    assert_eq!(to_xml_of(&again), to_xml_of(&e));
    assert_eq!(again.children[1].attributes[1].value, "<&>");
}

fn to_xml_of(e: &ews::Element) -> String {
    ews::to_xml(e)
}
