use ews::{
    parse_document, to_xml, Attachment, AttachmentId, AttachmentShape, Attachments, BodyType,
    DateTime, DecodeError, GetAttachment, GetAttachmentResponse, GetAttachmentResponseMessage,
    ResponseClass, ResponseMessages,
};

#[test]
fn test_serialize_get_attachment_request() {
    let get_attachment = GetAttachment {
        attachment_shape: AttachmentShape::default(),
        attachment_ids: vec![
            AttachmentId {
                id: "AAAtAEFkbWluaX".to_string(),
                root_item_id: None,
                root_item_change_key: None,
            },
            AttachmentId {
                id: "AASSDDFF".to_string(),
                root_item_id: None,
                root_item_change_key: None,
            },
        ],
    };

    let expected = r#"<GetAttachment xmlns="http://schemas.microsoft.com/exchange/services/2006/messages"><AttachmentShape/><AttachmentIds><AttachmentId Id="AAAtAEFkbWluaX"/><AttachmentId Id="AASSDDFF"/></AttachmentIds></GetAttachment>"#;

    let e = get_attachment.to_element();
    assert_eq!(e.name, "GetAttachment");
    assert_eq!(to_xml(&e), expected);
}

#[test]
fn attachment_shape_fields_present_are_written() {
    let g = GetAttachment {
        attachment_shape: AttachmentShape {
            include_mime_content: Some(true),
            body_type: Some(BodyType::Html),
            filter_html_content: None,
        },
        attachment_ids: vec![AttachmentId {
            id: "X".to_string(),
            root_item_id: Some("R".to_string()),
            root_item_change_key: Some("K".to_string()),
        }],
    };
    assert_eq!(
        to_xml(&g.to_element()),
        r#"<GetAttachment xmlns="http://schemas.microsoft.com/exchange/services/2006/messages"><AttachmentShape><t:IncludeMimeContent>true</t:IncludeMimeContent><t:BodyType>HTML</t:BodyType></AttachmentShape><AttachmentIds><AttachmentId Id="X" RootItemId="R" RootItemChangeKey="K"/></AttachmentIds></GetAttachment>"#
    );
}

#[test]
fn test_deserialize_get_attachment_response() {
    let content = r##"
            <GetAttachmentResponse xmlns:m="http://schemas.microsoft.com/exchange/services/2006/messages"
                                   xmlns:t="http://schemas.microsoft.com/exchange/services/2006/types">
              <m:ResponseMessages>
                <m:GetAttachmentResponseMessage ResponseClass="Success">
                  <m:ResponseCode>NoError</m:ResponseCode>
                  <m:Attachments>
                  <t:FileAttachment>
                    <t:AttachmentId Id="AAMkADE1NjRiYT"/>
                      <t:Name>photo.png</t:Name>
                      <t:ContentType>application/octet-stream</t:ContentType>
                      <t:Size>51199</t:Size>
                      <t:LastModifiedTime>2025-08-11T11:38:22Z</t:LastModifiedTime>
                      <t:IsInline>false</t:IsInline>
                      <t:IsContactPhoto>false</t:IsContactPhoto>
                    </t:FileAttachment>
                  </m:Attachments>
                </m:GetAttachmentResponseMessage>
              </m:ResponseMessages>
            </GetAttachmentResponse>"##;

    let expected = GetAttachmentResponse {
        response_messages: ResponseMessages {
            response_messages: vec![ResponseClass::Success(GetAttachmentResponseMessage {
                attachments: Attachments {
                    inner: vec![Attachment::FileAttachment {
                        attachment_id: AttachmentId {
                            id: "AAMkADE1NjRiYT".to_string(),
                            root_item_id: None,
                            root_item_change_key: None,
                        },
                        name: "photo.png".to_string(),
                        content: None,
                        content_type: "application/octet-stream".to_string(),
                        content_id: None,
                        content_location: None,
                        size: Some(51199),
                        last_modified_time: Some(DateTime {
                            year: 2025,
                            month: 8,
                            day: 11,
                            hour: 11,
                            minute: 38,
                            second: 22,
                            offset_minutes: 0,
                        }),
                        is_inline: Some(false),
                        is_contact_photo: Some(false),
                    }],
                },
            })],
        },
    };
    let doc = parse_document(content).unwrap();
    assert_eq!(GetAttachmentResponse::from_element(&doc).unwrap(), expected);
    assert_eq!(GetAttachmentResponse::from_element_for(&doc, 1).unwrap(), expected);
    assert!(GetAttachmentResponse::from_element_for(&doc, 2).is_err());
}

#[test]
fn timestamps_are_read_exactly() {
    assert_eq!(
        DateTime::parse("2006-05-18T00:00:00-08:00"),
        Some(DateTime { year: 2006, month: 5, day: 18, hour: 0, minute: 0, second: 0, offset_minutes: -480 })
    );
    assert_eq!(
        DateTime::parse("2024-02-29T23:59:59+05:30"),
        Some(DateTime { year: 2024, month: 2, day: 29, hour: 23, minute: 59, second: 59, offset_minutes: 330 })
    );
    assert_eq!(DateTime::parse("2025-02-29T00:00:00Z"), None);
    assert_eq!(DateTime::parse("2025-13-01T00:00:00Z"), None);
    assert_eq!(DateTime::parse("2025-08-11 11:38:22Z"), None);
    assert_eq!(DateTime::parse("2025-08-11T24:00:00Z"), None);
}

#[test]
fn malformed_timestamp_fails_its_message() {
    let content = r#"<m:GetAttachmentResponse><m:ResponseMessages><m:GetAttachmentResponseMessage ResponseClass="Success"><m:ResponseCode>NoError</m:ResponseCode><m:Attachments><t:ItemAttachment><t:AttachmentId Id="a"/><t:Name>n</t:Name><t:LastModifiedTime>yesterday</t:LastModifiedTime></t:ItemAttachment></m:Attachments></m:GetAttachmentResponseMessage></m:ResponseMessages></m:GetAttachmentResponse>"#;
    let r = GetAttachmentResponse::from_element(&parse_document(content).unwrap()).unwrap();
    match &r.response_messages.response_messages[0] {
        ResponseClass::Error(e) => assert_eq!(
            e.cause,
            Some(DecodeError::MalformedValue("LastModifiedTime".to_string()))
        ),
        other => panic!("expected an error outcome, got {:?}", other),
    }
}
