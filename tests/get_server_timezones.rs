use ews::{
    parse_document, to_xml, GetServerTimeZones, GetServerTimeZonesResponse,
    GetServerTimeZonesResponseMessage, ResponseClass, ResponseMessages, TimeZoneDefinition,
    TimeZoneDefinitions, TimeZoneId,
};

#[test]
fn serialize_get_server_time_zones_request() {
    let get_server_timezones = GetServerTimeZones {
        return_full_time_zone_data: Some(true),
        ids: Some(vec![TimeZoneId { id: "Eastern Standard Time".to_string() }]),
    };

    let expected = r#"<GetServerTimeZones xmlns="http://schemas.microsoft.com/exchange/services/2006/messages" ReturnFullTimeZoneData="true"><m:Ids><t:Id>Eastern Standard Time</t:Id></m:Ids></GetServerTimeZones>"#;

    let e = get_server_timezones.to_element();
    assert_eq!(e.name, "GetServerTimeZones");
    assert_eq!(to_xml(&e), expected);
}

#[test]
fn deserialize_get_server_time_zones_response() {
    let content = r#"
            <GetServerTimeZonesResponse
                xmlns:t="http://schemas.microsoft.com/exchange/services/2006/types"
                xmlns:m="http://schemas.microsoft.com/exchange/services/2006/messages">
                <m:ResponseMessages>
                <m:GetServerTimeZonesResponseMessage ResponseClass="Success">
                    <m:ResponseCode>NoError</m:ResponseCode>
                    <m:TimeZoneDefinitions>
                        <t:TimeZoneDefinition Id="Eastern Standard Time" Name="(GMT-05:00) Eastern Time (US &amp; Canada)" />
                        <t:TimeZoneDefinition Id="Pacific Standard Time" Name="(GMT-08:00) Pacific Time (US &amp; Canada)" />
                    </m:TimeZoneDefinitions>
                </m:GetServerTimeZonesResponseMessage>
                </m:ResponseMessages>
            </GetServerTimeZonesResponse>"#;

    let expected = GetServerTimeZonesResponse {
        response_messages: ResponseMessages {
            response_messages: vec![ResponseClass::Success(GetServerTimeZonesResponseMessage {
                time_zone_definitions: TimeZoneDefinitions {
                    inner: vec![
                        TimeZoneDefinition {
                            id: "Eastern Standard Time".to_string(),
                            name: Some(r#"(GMT-05:00) Eastern Time (US & Canada)"#.to_string()),
                            periods: None,
                            transitions_groups: None,
                            transitions: None,
                        },
                        TimeZoneDefinition {
                            id: "Pacific Standard Time".to_string(),
                            name: Some(r#"(GMT-08:00) Pacific Time (US & Canada)"#.to_string()),
                            periods: None,
                            transitions_groups: None,
                            transitions: None,
                        },
                    ],
                },
            })],
        },
    };

    let doc = parse_document(content).unwrap();
    assert_eq!(GetServerTimeZonesResponse::from_element(&doc).unwrap(), expected);
}

#[test]
fn request_without_options_is_bare() {
    let g = GetServerTimeZones { return_full_time_zone_data: None, ids: None };
    assert_eq!(
        to_xml(&g.to_element()),
        r#"<GetServerTimeZones xmlns="http://schemas.microsoft.com/exchange/services/2006/messages"/>"#
    );
}

#[test]
fn request_round_trips_through_text() {
    let g = GetServerTimeZones {
        return_full_time_zone_data: Some(false),
        ids: Some(vec![
            TimeZoneId { id: "Eastern Standard Time".to_string() },
            TimeZoneId { id: "A<B>&\"C\"".to_string() },
        ]),
    };
    let text = to_xml(&g.to_element());
    let doc = parse_document(&text).unwrap();
    assert_eq!(GetServerTimeZones::from_element(&doc).unwrap(), g);

    let bare = GetServerTimeZones { return_full_time_zone_data: None, ids: None };
    let doc = parse_document(&to_xml(&bare.to_element())).unwrap();
    assert_eq!(GetServerTimeZones::from_element(&doc).unwrap(), bare);
}

#[test]
fn request_is_wrapped_in_the_envelope() {
    let g = GetServerTimeZones { return_full_time_zone_data: Some(true), ids: None };
    let env = ews::response::build_envelope(g.to_element());
    assert_eq!(
        to_xml(&env),
        r#"<soap:Envelope xmlns:soap="http://schemas.xmlsoap.org/soap/envelope/" xmlns:t="http://schemas.microsoft.com/exchange/services/2006/types" xmlns:m="http://schemas.microsoft.com/exchange/services/2006/messages"><soap:Body><GetServerTimeZones xmlns="http://schemas.microsoft.com/exchange/services/2006/messages" ReturnFullTimeZoneData="true"/></soap:Body></soap:Envelope>"#
    );
    let doc = parse_document(&to_xml(&env)).unwrap();
    let inner = &doc.children[0].children[0];
    assert_eq!(GetServerTimeZones::from_element(inner).unwrap(), g);
}
