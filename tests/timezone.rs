use ews::{
    parse_document, to_xml, AbsoluteDateTransition, DecodeError, Period, Periods,
    RecurringDateTransition, RecurringDayTransition, TimeZoneDefinition, TimeZoneDefinitions,
    Transition, Transitions, TransitionsGroups,
};

fn sample_definition() -> TimeZoneDefinition {
    TimeZoneDefinition {
        id: "Pacific Standard Time".to_string(),
        name: Some("(GMT-08:00) Pacific Time (US & Canada)".to_string()),
        periods: Some(Periods {
            period: vec![
                Period { id: "Std".to_string(), bias: "PT8H".to_string(), name: "Standard".to_string() },
                Period { id: "Dlt".to_string(), bias: "PT7H".to_string(), name: "Daylight".to_string() },
            ],
        }),
        transitions_groups: Some(TransitionsGroups {
            id: "0".to_string(),
            transitions: vec![Transitions {
                transitions: vec![
                    Transition::RecurringDayTransition(RecurringDayTransition {
                        to: "Dlt".to_string(),
                        time_offset: "PT2H".to_string(),
                        month: 3,
                        day_of_week: "Sunday".to_string(),
                        occurrence: 2,
                    }),
                    Transition::RecurringDateTransition(RecurringDateTransition {
                        to: "Std".to_string(),
                        time_offset: "PT2H".to_string(),
                        month: 11,
                        day: 1,
                    }),
                ],
            }],
        }),
        transitions: Some(Transitions {
            transitions: vec![Transition::AbsoluteDateTransition(AbsoluteDateTransition {
                to: "Std".to_string(),
                date_time: "2007-01-01T00:00:00".to_string(),
            })],
        }),
    }
}

#[test]
fn definitions_round_trip_through_text() {
    let d = TimeZoneDefinitions {
        inner: vec![sample_definition(), TimeZoneDefinition::default()],
    };
    let text = to_xml(&d.to_element());
    let doc = parse_document(&text).unwrap();
    assert_eq!(TimeZoneDefinitions::from_element(&doc).unwrap(), d);
}

#[test]
fn default_definition_is_utc() {
    let d = TimeZoneDefinition::default();
    assert_eq!(d.id, "UTC");
    assert_eq!(to_xml(&d.to_element()), r#"<t:TimeZoneDefinition Id="UTC"/>"#);
}

#[test]
fn recurring_day_transition_text() {
    let t = Transition::RecurringDayTransition(RecurringDayTransition {
        to: "Dlt".to_string(),
        time_offset: "PT2H".to_string(),
        month: 10,
        day_of_week: "Sunday".to_string(),
        occurrence: 1,
    });
    assert_eq!(
        to_xml(&t.to_element()),
        "<t:RecurringDayTransition><t:To>Dlt</t:To><t:TimeOffset>PT2H</t:TimeOffset><t:Month>10</t:Month><t:DayOfWeek>Sunday</t:DayOfWeek><t:Occurrence>1</t:Occurrence></t:RecurringDayTransition>"
    );
}

#[test]
fn registered_transition_tag_is_reconstructed() {
    let doc = parse_document(
        "<t:AbsoluteDateTransition><t:To>Std</t:To><t:DateTime>2007-01-01T00:00:00</t:DateTime></t:AbsoluteDateTransition>",
    )
    .unwrap();
    assert_eq!(
        Transition::from_element(&doc).unwrap(),
        Transition::AbsoluteDateTransition(AbsoluteDateTransition {
            to: "Std".to_string(),
            date_time: "2007-01-01T00:00:00".to_string(),
        })
    );
}

#[test]
fn unregistered_transition_tag_is_unknown_variant() {
    let doc = parse_document("<t:Transitions><t:WeeklyTransition><t:To>Std</t:To></t:WeeklyTransition></t:Transitions>").unwrap();
    assert_eq!(
        Transitions::from_element(&doc),
        Err(DecodeError::UnknownVariant("t:WeeklyTransition".to_string()))
    );
}

#[test]
fn malformed_month_is_malformed_value() {
    let doc = parse_document(
        "<t:RecurringDateTransition><t:To>Std</t:To><t:TimeOffset>PT2H</t:TimeOffset><t:Month>eleven</t:Month><t:Day>1</t:Day></t:RecurringDateTransition>",
    )
    .unwrap();
    assert_eq!(
        Transition::from_element(&doc),
        Err(DecodeError::MalformedValue("Month".to_string()))
    );
}

#[test]
fn missing_period_bias_is_missing_field() {
    let doc = parse_document(r#"<t:Period Id="Std" Name="Standard"/>"#).unwrap();
    assert_eq!(Period::from_element(&doc), Err(DecodeError::MissingField("Bias".to_string())));
}

#[test]
fn unknown_extra_parts_are_ignored() {
    let doc = parse_document(
        r#"<t:TimeZoneDefinition Id="UTC" Extra="1"><t:Unmodelled/></t:TimeZoneDefinition>"#,
    )
    .unwrap();
    assert_eq!(TimeZoneDefinition::from_element(&doc).unwrap(), TimeZoneDefinition::default());
}
