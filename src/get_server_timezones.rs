use vstd::prelude::*;
use crate::fields::{optional_attribute_bool, optional_bool_ok, optional_bool_valid};
use crate::find_item::request_root;
use crate::literal::{bool_literal, bool_text, lemma_bool_round_trip, DecodeError};
use crate::response::{ResponseMessage, ResponseMessages};
use crate::timezone::{
    definitions_decodes, definitions_encoded, definitions_valid, lemma_definitions_round_trip,
    TimeZoneDefinitions, TimeZoneId,
};
use crate::xml::{
    all_leaves, attribute, attribute_pairs, bare, child, find_child, messages_name,
    messages_tag, new_attribute, new_element, push_leaf, shape, shapes, text_value, texted,
    types_name, Element, Shape, MESSAGES_NS_URI, lemma_attributes_found, lemma_child_found,
    lemma_child_absent, lemma_messages_local,
};

verus! {

#[derive(Clone, Debug, PartialEq, Eq)]
/// A request for the time zone definitions that the server knows.
pub struct GetServerTimeZones {
    pub return_full_time_zone_data: Option<bool>,
    pub ids: Option<Vec<TimeZoneId>>,
}

/// The attributes of the request root after the namespace declaration.
pub open spec fn full_data_attributes(b: Option<bool>) -> Seq<(Seq<char>, Seq<char>)> {
    match b {
        Some(v) => seq![("ReturnFullTimeZoneData"@, bool_text(v))],
        None => Seq::empty(),
    }
}

pub open spec fn id_shapes(ids: Seq<TimeZoneId>) -> Seq<Shape> {
    ids.map_values(|x: TimeZoneId| texted(types_name("Id"@), x.id@))
}

/// The encoding of the request: the optional attribute, then an `m:Ids` list
/// only when ids are given.
pub open spec fn get_server_time_zones_encoded(g: GetServerTimeZones, e: Element) -> bool {
    &&& shape(e) == request_root(
        "GetServerTimeZones"@,
        full_data_attributes(g.return_full_time_zone_data),
    )
    &&& match g.ids {
        Some(v) => {
            &&& e.children@.len() == 1
            &&& shape(e.children@[0]) == bare(messages_name("Ids"@))
            &&& shapes(e.children@[0].children@) == id_shapes(v@)
            &&& all_leaves(e.children@[0].children@)
        },
        None => e.children@.len() == 0,
    }
}

pub open spec fn get_server_time_zones_valid(e: Element) -> bool {
    optional_bool_valid(attribute(e, "ReturnFullTimeZoneData"@))
}

pub open spec fn get_server_time_zones_decodes(e: Element, g: GetServerTimeZones) -> bool {
    &&& optional_bool_ok(attribute(e, "ReturnFullTimeZoneData"@), g.return_full_time_zone_data)
    &&& match child(e, "Ids"@) {
        Some(c) => g.ids matches Some(v) && v@.len() == c.children@.len() && forall|i: int|
            0 <= i < v@.len() ==> (#[trigger] v@[i]).id@ == text_value(c.children@[i]),
        None => g.ids is None,
    }
}

impl GetServerTimeZones {
    /// Encodes the request as its operation element.
    pub fn to_element(&self) -> (r: Element)
        ensures
            get_server_time_zones_encoded(*self, r),
    {
        let mut r = new_element(String::from_str("GetServerTimeZones"));
        r.attributes.push(new_attribute("xmlns", String::from_str(MESSAGES_NS_URI)));
        match self.return_full_time_zone_data {
            Some(b) => r.attributes.push(
                new_attribute("ReturnFullTimeZoneData", String::from_str(bool_literal(b))),
            ),
            None => {},
        }
        assert(attribute_pairs(r.attributes@) =~= request_root(
            "GetServerTimeZones"@,
            full_data_attributes(self.return_full_time_zone_data),
        ).attributes);
        match &self.ids {
            Some(v) => {
                let mut ids = new_element(messages_tag("Ids"));
                let mut i: usize = 0;
                while i < v.len()
                    invariant
                        i <= v@.len(),
                        shape(ids) == bare(messages_name("Ids"@)),
                        shapes(ids.children@) == id_shapes(v@.subrange(0, i as int)),
                        all_leaves(ids.children@),
                    decreases v@.len() - i,
                {
                    push_leaf(&mut ids.children, v[i].to_element());
                    assert(id_shapes(v@.subrange(0, i + 1)) =~= id_shapes(
                        v@.subrange(0, i as int),
                    ).push(texted(types_name("Id"@), v@[i as int].id@)));
                    i = i + 1;
                }
                assert(v@.subrange(0, v@.len() as int) == v@);
                r.children.push(ids);
            },
            None => {},
        }
        r
    }

    /// Decodes the request from its operation element.
    pub fn from_element(e: &Element) -> (r: Result<GetServerTimeZones, DecodeError>)
        ensures
            r is Ok <==> get_server_time_zones_valid(*e),
            r matches Ok(g) ==> get_server_time_zones_decodes(*e, g),
            r matches Err(err) ==> err is MalformedValue,
    {
        let return_full_time_zone_data = optional_attribute_bool(e, "ReturnFullTimeZoneData")?;
        let ids = match find_child(e, "Ids") {
            Some(k) => {
                let c = &e.children[k];
                let mut v: Vec<TimeZoneId> = Vec::new();
                let mut i: usize = 0;
                while i < c.children.len()
                    invariant
                        i <= c.children@.len(),
                        v@.len() == i,
                        forall|j: int|
                            0 <= j < i ==> (#[trigger] v@[j]).id@ == text_value(c.children@[j]),
                    decreases c.children@.len() - i,
                {
                    v.push(TimeZoneId::from_element(&c.children[i]));
                    i = i + 1;
                }
                Some(v)
            },
            None => None,
        };
        Ok(GetServerTimeZones { return_full_time_zone_data, ids })
    }
}

/// Decoding the encoding of the request gives the request back.
pub proof fn lemma_get_server_time_zones_round_trip(g: GetServerTimeZones, e: Element)
    requires
        get_server_time_zones_encoded(g, e),
    ensures
        get_server_time_zones_valid(e),
        get_server_time_zones_decodes(e, g),
{
    reveal_strlit("xmlns");
    reveal_strlit("ReturnFullTimeZoneData");
    match g.return_full_time_zone_data {
        Some(b) => {
            let names = seq!["xmlns"@, "ReturnFullTimeZoneData"@];
            let values = seq![MESSAGES_NS_URI@, bool_text(b)];
            assert(names.no_duplicates()) by {
                assert(names[0].len() != names[1].len());
            }
            assert(attribute_pairs(e.attributes@) =~= Seq::new(2, |i: int| (names[i], values[i])));
            lemma_attributes_found(e, names, values);
            assert(names[1] == "ReturnFullTimeZoneData"@);
            lemma_bool_round_trip(b);
        },
        None => {
            assert(attribute_pairs(e.attributes@)[0] == (
            e.attributes@[0].name@,
            e.attributes@[0].value@,
            ));
            assert(attribute_pairs(e.attributes@).len() == e.attributes@.len());
            assert("xmlns"@ != "ReturnFullTimeZoneData"@) by {
                assert("xmlns"@.len() != "ReturnFullTimeZoneData"@.len());
            }
            crate::xml::lemma_attribute_absent(e, "ReturnFullTimeZoneData"@);
        },
    }
    match g.ids {
        Some(v) => {
            lemma_messages_local("Ids"@);
            lemma_child_found(e, 0);
            let c = e.children@[0];
            assert(shapes(c.children@).len() == c.children@.len());
            assert forall|i: int| 0 <= i < v@.len() implies (#[trigger] v@[i]).id@ == text_value(
                c.children@[i],
            ) by {
                assert(shapes(c.children@)[i] == shape(c.children@[i]));
                assert(id_shapes(v@)[i] == texted(types_name("Id"@), v@[i].id@));
            }
        },
        None => {
            lemma_child_absent(e, "Ids"@);
        },
    }
}

#[derive(Clone, Debug, PartialEq, Eq)]
/// The time zone definitions of one message.
pub struct GetServerTimeZonesResponseMessage {
    pub time_zone_definitions: TimeZoneDefinitions,
}

#[derive(Clone, Debug, PartialEq, Eq)]
/// The response to a time zone request.
pub struct GetServerTimeZonesResponse {
    pub response_messages: ResponseMessages<GetServerTimeZonesResponseMessage>,
}

impl ResponseMessage for GetServerTimeZonesResponseMessage {
    open spec fn payload_valid(e: Element) -> bool {
        child(e, "TimeZoneDefinitions"@) matches Some(c) && definitions_valid(c)
    }

    open spec fn payload_decodes(e: Element, v: Self) -> bool {
        child(e, "TimeZoneDefinitions"@) matches Some(c) && definitions_decodes(
            c,
            v.time_zone_definitions,
        )
    }

    fn decode_payload(e: &Element) -> (r: Result<Self, DecodeError>) {
        match find_child(e, "TimeZoneDefinitions") {
            Some(i) => {
                let d = TimeZoneDefinitions::from_element(&e.children[i])?;
                Ok(GetServerTimeZonesResponseMessage { time_zone_definitions: d })
            },
            None => Err(DecodeError::MissingField(String::from_str("TimeZoneDefinitions"))),
        }
    }
}

impl GetServerTimeZonesResponseMessage {
    /// Encodes the message as an `m:GetServerTimeZonesResponseMessage`
    /// element holding the definitions.
    pub fn to_element(&self) -> (r: Element)
        ensures
            shape(r) == bare(messages_name("GetServerTimeZonesResponseMessage"@)),
            r.children@.len() == 1,
            definitions_encoded(self.time_zone_definitions, r.children@[0]),
    {
        let mut r = new_element(messages_tag("GetServerTimeZonesResponseMessage"));
        r.children.push(self.time_zone_definitions.to_element());
        r
    }
}

/// Decoding the encoding of a time zone response message gives it back.
pub proof fn lemma_time_zones_message_round_trip(m: GetServerTimeZonesResponseMessage, e: Element)
    requires
        e.children@.len() == 1,
        definitions_encoded(m.time_zone_definitions, e.children@[0]),
    ensures
        GetServerTimeZonesResponseMessage::payload_valid(e),
        GetServerTimeZonesResponseMessage::payload_decodes(e, m),
{
    lemma_messages_local("TimeZoneDefinitions"@);
    lemma_child_found(e, 0);
    lemma_definitions_round_trip(m.time_zone_definitions, e.children@[0]);
}

impl GetServerTimeZonesResponse {
    /// Decodes a response document into its classified messages.
    pub fn from_element(doc: &Element) -> (r: Result<GetServerTimeZonesResponse, DecodeError>)
        ensures
            r is Ok <==> crate::response::messages_container(*doc) is Some,
            r matches Ok(m) ==> crate::response::messages_container(*doc) matches Some(c)
                && crate::response::outcomes_of(c, m.response_messages.response_messages@),
    {
        let response_messages = crate::response::parse_envelope(doc)?;
        Ok(GetServerTimeZonesResponse { response_messages })
    }
}

} // verus!
