use ews::{
    parse_document, to_xml, BaseFolderId, BasePoint, BaseShape, FindItem, FindItemResponse,
    FindItemResponseMessage, ItemId, ItemShape, ItemView, Items, Message, RealItem,
    ResponseClass, RootFolder, Traversal,
};

fn id_only() -> ItemShape {
    ItemShape { base_shape: BaseShape::IdOnly, include_mime_content: None, additional_properties: None }
}

fn assert_serialized_content(find_item: &FindItem, root: &str, expected: &str) {
    let e = find_item.to_element();
    assert_eq!(e.name, root);
    assert_eq!(to_xml(&e), expected);
}

#[test]
fn test_serialize_find_item_indexed_page_item_view() {
    let find_item = FindItem {
        traversal: Traversal::Shallow,
        item_shape: id_only(),
        parent_folder_ids: vec![BaseFolderId::DistinguishedFolderId {
            id: "deleteditems".to_string(),
            change_key: None,
        }],
        view: Some(ItemView::IndexedPageItemView {
            max_entries_returned: Some(6),
            offset: 0,
            base_point: BasePoint::Beginning,
        }),
    };

    let expected = r#"<FindItem xmlns="http://schemas.microsoft.com/exchange/services/2006/messages" Traversal="Shallow"><ItemShape><t:BaseShape>IdOnly</t:BaseShape></ItemShape><IndexedPageItemView MaxEntriesReturned="6" BasePoint="Beginning" Offset="0"/><ParentFolderIds><t:DistinguishedFolderId Id="deleteditems"/></ParentFolderIds></FindItem>"#;

    assert_serialized_content(&find_item, "FindItem", expected);
}

#[test]
fn test_serialize_find_item_fractional_page_item_view() {
    let finditem = FindItem {
        traversal: Traversal::Shallow,
        item_shape: id_only(),
        parent_folder_ids: vec![BaseFolderId::DistinguishedFolderId {
            id: "inbox".to_string(),
            change_key: None,
        }],
        view: Some(ItemView::FractionalPageItemView {
            max_entries_returned: Some(12),
            numerator: 2,
            denominator: 3,
        }),
    };

    let expected = r#"<FindItem xmlns="http://schemas.microsoft.com/exchange/services/2006/messages" Traversal="Shallow"><ItemShape><t:BaseShape>IdOnly</t:BaseShape></ItemShape><FractionalPageItemView MaxEntriesReturned="12" Numerator="2" Denominator="3"/><ParentFolderIds><t:DistinguishedFolderId Id="inbox"/></ParentFolderIds></FindItem>"#;
    assert_serialized_content(&finditem, "FindItem", expected);
}

#[test]
fn test_serialize_find_item_calendar_view() {
    let finditem = FindItem {
        traversal: Traversal::Shallow,
        item_shape: id_only(),
        parent_folder_ids: vec![BaseFolderId::DistinguishedFolderId {
            id: "calendar".to_string(),
            change_key: None,
        }],
        view: Some(ItemView::CalendarView {
            max_entries_returned: Some(2),
            start_date: "2006-05-18T00:00:00-08:00".to_string(),
            end_date: "2006-05-19T00:00:00-08:00".to_string(),
        }),
    };

    let expected = r#"<FindItem xmlns="http://schemas.microsoft.com/exchange/services/2006/messages" Traversal="Shallow"><ItemShape><t:BaseShape>IdOnly</t:BaseShape></ItemShape><CalendarView MaxEntriesReturned="2" StartDate="2006-05-18T00:00:00-08:00" EndDate="2006-05-19T00:00:00-08:00"/><ParentFolderIds><t:DistinguishedFolderId Id="calendar"/></ParentFolderIds></FindItem>"#;

    assert_serialized_content(&finditem, "FindItem", expected);
}

#[test]
fn test_serialize_find_item_contacts_view() {
    let finditem = FindItem {
        traversal: Traversal::Shallow,
        item_shape: id_only(),
        parent_folder_ids: vec![BaseFolderId::DistinguishedFolderId {
            id: "contacts".to_string(),
            change_key: None,
        }],
        view: Some(ItemView::ContactsView {
            max_entries_returned: Some(3),
            initial_name: Some("Kelly Rollin".to_string()),
            final_name: None,
        }),
    };

    let expected = r#"<FindItem xmlns="http://schemas.microsoft.com/exchange/services/2006/messages" Traversal="Shallow"><ItemShape><t:BaseShape>IdOnly</t:BaseShape></ItemShape><ContactsView MaxEntriesReturned="3" InitialName="Kelly Rollin"/><ParentFolderIds><t:DistinguishedFolderId Id="contacts"/></ParentFolderIds></FindItem>"#;

    assert_serialized_content(&finditem, "FindItem", expected);
}

fn message_with_id(id: &str, change_key: &str) -> RealItem {
    RealItem::Message(Message {
        item_id: Some(ItemId { id: id.to_string(), change_key: Some(change_key.to_string()) }),
        item_class: None,
        subject: None,
        size: None,
        is_read: None,
        has_attachments: None,
        internet_message_id: None,
    })
}

#[test]
fn test_deserialize_find_item_response_message() {
    let content = r#"<FindItemResponse xmlns:m="http://schemas.microsoft.com/exchange/services/2006/messages"
                        xmlns:t="http://schemas.microsoft.com/exchange/services/2006/types"
                        xmlns="http://schemas.microsoft.com/exchange/services/2006/messages">
                        <m:ResponseMessages>
                            <m:FindItemResponseMessage ResponseClass="Success">
                            <m:ResponseCode>NoError</m:ResponseCode>
                            <m:RootFolder TotalItemsInView="10" IncludesLastItemInRange="true">
                                <t:Items>
                                    <t:Message>
                                        <t:ItemId Id="AS4AUn=" ChangeKey="fsVU4==" />
                                        </t:Message>
                                        <t:Message>
                                    <t:ItemId Id="AS4AUM=" ChangeKey="fsVUA==" />
                                        </t:Message>
                                </t:Items>
                            </m:RootFolder>
                            </m:FindItemResponseMessage>
                        </m:ResponseMessages>
                    </FindItemResponse>"#;

    let response = FindItemResponseMessage {
        root: RootFolder {
            indexed_paging_offset: None,
            numerator_offset: None,
            absolute_denominator: None,
            total_items_in_view: Some(10),
            includes_last_item_in_range: Some(true),
            items: Some(Items {
                inner: vec![
                    message_with_id("AS4AUn=", "fsVU4=="),
                    message_with_id("AS4AUM=", "fsVUA=="),
                ],
            }),
            groups: None,
        },
    };

    let doc = parse_document(content).unwrap();
    let parsed = FindItemResponse::from_element(&doc).unwrap();
    assert_eq!(parsed.response_messages.response_messages, vec![ResponseClass::Success(response)]);
}

#[test]
fn find_item_without_view_has_no_view_element() {
    let with_view = FindItem {
        traversal: Traversal::Shallow,
        item_shape: id_only(),
        parent_folder_ids: vec![BaseFolderId::DistinguishedFolderId {
            id: "inbox".to_string(),
            change_key: None,
        }],
        view: Some(ItemView::IndexedPageItemView {
            max_entries_returned: Some(10),
            offset: 5,
            base_point: BasePoint::End,
        }),
    };
    let mut without_view = with_view.clone();
    without_view.view = None;
    let present = to_xml(&with_view.to_element());
    let absent = to_xml(&without_view.to_element());
    assert!(present.contains(
        r#"<IndexedPageItemView MaxEntriesReturned="10" BasePoint="End" Offset="5"/>"#
    ));
    assert!(!absent.contains("IndexedPageItemView"));
    assert!(!absent.contains("MaxEntriesReturned"));
    assert_eq!(
        absent,
        r#"<FindItem xmlns="http://schemas.microsoft.com/exchange/services/2006/messages" Traversal="Shallow"><ItemShape><t:BaseShape>IdOnly</t:BaseShape></ItemShape><ParentFolderIds><t:DistinguishedFolderId Id="inbox"/></ParentFolderIds></FindItem>"#
    );
}

#[test]
fn flattened_view_matches_its_own_encoding() {
    let view = ItemView::ContactsView {
        max_entries_returned: None,
        initial_name: Some("A & B".to_string()),
        final_name: Some("Z".to_string()),
    };
    let f = FindItem {
        traversal: Traversal::SoftDeleted,
        item_shape: ItemShape {
            base_shape: BaseShape::AllProperties,
            include_mime_content: Some(false),
            additional_properties: Some(vec![ews::PathToElement { field_uri: "item:Subject".to_string() }]),
        },
        view: Some(view.clone()),
        parent_folder_ids: vec![BaseFolderId::FolderId {
            id: "AQ==".to_string(),
            change_key: Some("CK".to_string()),
        }],
    };
    let e = f.to_element();
    assert_eq!(e.children.len(), 3);
    assert_eq!(to_xml(&e.children[1]), to_xml(&view.to_element()));
    assert_eq!(
        to_xml(&e),
        r#"<FindItem xmlns="http://schemas.microsoft.com/exchange/services/2006/messages" Traversal="SoftDeleted"><ItemShape><t:BaseShape>AllProperties</t:BaseShape><t:IncludeMimeContent>false</t:IncludeMimeContent><t:AdditionalProperties><t:FieldURI FieldURI="item:Subject"/></t:AdditionalProperties></ItemShape><ContactsView InitialName="A &amp; B" FinalName="Z"/><ParentFolderIds><t:FolderId Id="AQ==" ChangeKey="CK"/></ParentFolderIds></FindItem>"#
    );
}
