use vstd::prelude::*;
use crate::fields::{
    child_text, optional_attribute, required_attribute, required_child_text,
    required_child_usize, string_view,
};
use crate::literal::{decimal_text, usize_literal, usize_value, DecodeError};
use crate::types::optional_attribute as optional_pair;
use crate::xml::{
    attribute, attribute_pairs, bare, child, find_child, is_leaf, local_name, local_part,
    messages_name, messages_tag, new_attribute, new_element, push_leaf, same_text, shape,
    shapes, text_element, text_of, text_value, texted, types_name, types_tag, all_leaves,
    Element, Shape, lemma_attributes_found, lemma_text_children, lemma_types_local,
    lemma_child_found, lemma_child_absent,
};
use crate::literal::lemma_decimal_round_trip;

verus! {

#[derive(Clone, Debug, PartialEq, Eq)]
/// A list of time zone definitions.
pub struct TimeZoneDefinitions {
    pub inner: Vec<TimeZoneDefinition>,
}

#[derive(Clone, Debug, PartialEq, Eq)]
/// One time zone: its id, display name, and optionally its periods and
/// transitions.
pub struct TimeZoneDefinition {
    /// The unique identifier of the time zone.
    pub id: String,
    /// The descriptive name of the time zone.
    pub name: Option<String>,
    pub periods: Option<Periods>,
    pub transitions_groups: Option<TransitionsGroups>,
    pub transitions: Option<Transitions>,
}

impl Default for TimeZoneDefinition {
    fn default() -> (r: TimeZoneDefinition)
        ensures
            r.id@ == "UTC"@,
            r.name is None,
            r.periods is None,
            r.transitions_groups is None,
            r.transitions is None,
    {
        TimeZoneDefinition {
            id: String::from_str("UTC"),
            name: None,
            periods: None,
            transitions_groups: None,
            transitions: None,
        }
    }
}

#[derive(Clone, Debug, PartialEq, Eq)]
pub struct Periods {
    pub period: Vec<Period>,
}

#[derive(Clone, Debug, PartialEq, Eq)]
/// A span of a time zone's history with one bias from UTC.
pub struct Period {
    pub id: String,
    pub bias: String,
    pub name: String,
}

#[derive(Clone, Debug, PartialEq, Eq)]
pub struct TransitionsGroups {
    pub id: String,
    pub transitions: Vec<Transitions>,
}

#[derive(Clone, Debug, PartialEq, Eq)]
pub struct Transitions {
    pub transitions: Vec<Transition>,
}

#[derive(Clone, Debug, PartialEq, Eq)]
/// A change of period, told apart by the element's own tag; a tag that names
/// no kind is an `UnknownVariant` error.
pub enum Transition {
    AbsoluteDateTransition(AbsoluteDateTransition),
    RecurringDayTransition(RecurringDayTransition),
    RecurringDateTransition(RecurringDateTransition),
}

#[derive(Clone, Debug, PartialEq, Eq)]
pub struct AbsoluteDateTransition {
    pub to: String,
    pub date_time: String,
}

#[derive(Clone, Debug, PartialEq, Eq)]
pub struct RecurringDayTransition {
    pub to: String,
    pub time_offset: String,
    pub month: usize,
    pub day_of_week: String,
    pub occurrence: usize,
}

#[derive(Clone, Debug, PartialEq, Eq)]
pub struct RecurringDateTransition {
    pub to: String,
    pub time_offset: String,
    pub month: usize,
    pub day: usize,
}

#[derive(Clone, Debug, PartialEq, Eq)]
/// Identifies a single time zone definition.
pub struct TimeZoneId {
    pub id: String,
}

// Decoding.

/// The first child named `name` holds the decimal literal of `n`.
pub open spec fn usize_child(e: Element, name: Seq<char>, n: usize) -> bool {
    child_text(e, name) matches Some(t) && usize_value(t) == Some(n)
}

pub open spec fn usize_child_valid(e: Element, name: Seq<char>) -> bool {
    child_text(e, name) matches Some(t) && usize_value(t) is Some
}

pub open spec fn period_valid(e: Element) -> bool {
    &&& attribute(e, "Id"@) is Some
    &&& attribute(e, "Bias"@) is Some
    &&& attribute(e, "Name"@) is Some
}

pub open spec fn period_decodes(e: Element, p: Period) -> bool {
    &&& attribute(e, "Id"@) == Some(p.id@)
    &&& attribute(e, "Bias"@) == Some(p.bias@)
    &&& attribute(e, "Name"@) == Some(p.name@)
}

impl Period {
    /// Decodes a period from its `Id`, `Bias` and `Name` attributes.
    pub fn from_element(e: &Element) -> (r: Result<Period, DecodeError>)
        ensures
            r is Ok <==> period_valid(*e),
            r matches Ok(p) ==> period_decodes(*e, p),
            r matches Err(err) ==> err is MissingField,
    {
        let id = required_attribute(e, "Id")?;
        let bias = required_attribute(e, "Bias")?;
        let name = required_attribute(e, "Name")?;
        Ok(Period { id, bias, name })
    }
}

pub open spec fn periods_valid(e: Element) -> bool {
    forall|i: int| 0 <= i < e.children@.len() ==> period_valid(#[trigger] e.children@[i])
}

pub open spec fn periods_decodes(e: Element, p: Periods) -> bool {
    &&& p.period@.len() == e.children@.len()
    &&& forall|i: int|
        0 <= i < e.children@.len() ==> period_decodes(#[trigger] e.children@[i], p.period@[i])
}

impl Periods {
    /// Decodes every child as a period, in order.
    pub fn from_element(e: &Element) -> (r: Result<Periods, DecodeError>)
        ensures
            r is Ok <==> periods_valid(*e),
            r matches Ok(p) ==> periods_decodes(*e, p),
    {
        let mut v: Vec<Period> = Vec::new();
        let mut i: usize = 0;
        while i < e.children.len()
            invariant
                i <= e.children@.len(),
                v@.len() == i,
                forall|j: int| 0 <= j < i ==> period_decodes(e.children@[j], #[trigger] v@[j]),
                forall|j: int| 0 <= j < i ==> period_valid(#[trigger] e.children@[j]),
            decreases e.children@.len() - i,
        {
            let p = Period::from_element(&e.children[i])?;
            v.push(p);
            i = i + 1;
        }
        Ok(Periods { period: v })
    }
}

pub open spec fn absolute_valid(e: Element) -> bool {
    child_text(e, "To"@) is Some && child_text(e, "DateTime"@) is Some
}

pub open spec fn absolute_decodes(e: Element, a: AbsoluteDateTransition) -> bool {
    child_text(e, "To"@) == Some(a.to@) && child_text(e, "DateTime"@) == Some(a.date_time@)
}

impl AbsoluteDateTransition {
    pub fn from_element(e: &Element) -> (r: Result<AbsoluteDateTransition, DecodeError>)
        ensures
            r is Ok <==> absolute_valid(*e),
            r matches Ok(a) ==> absolute_decodes(*e, a),
            r matches Err(err) ==> err is MissingField,
    {
        let to = required_child_text(e, "To")?;
        let date_time = required_child_text(e, "DateTime")?;
        Ok(AbsoluteDateTransition { to, date_time })
    }
}

pub open spec fn recurring_day_valid(e: Element) -> bool {
    &&& child_text(e, "To"@) is Some
    &&& child_text(e, "TimeOffset"@) is Some
    &&& usize_child_valid(e, "Month"@)
    &&& child_text(e, "DayOfWeek"@) is Some
    &&& usize_child_valid(e, "Occurrence"@)
}

pub open spec fn recurring_day_decodes(e: Element, t: RecurringDayTransition) -> bool {
    &&& child_text(e, "To"@) == Some(t.to@)
    &&& child_text(e, "TimeOffset"@) == Some(t.time_offset@)
    &&& usize_child(e, "Month"@, t.month)
    &&& child_text(e, "DayOfWeek"@) == Some(t.day_of_week@)
    &&& usize_child(e, "Occurrence"@, t.occurrence)
}

impl RecurringDayTransition {
    pub fn from_element(e: &Element) -> (r: Result<RecurringDayTransition, DecodeError>)
        ensures
            r is Ok <==> recurring_day_valid(*e),
            r matches Ok(t) ==> recurring_day_decodes(*e, t),
            r matches Err(err) ==> err is MissingField || err is MalformedValue,
    {
        let to = required_child_text(e, "To")?;
        let time_offset = required_child_text(e, "TimeOffset")?;
        let month = required_child_usize(e, "Month")?;
        let day_of_week = required_child_text(e, "DayOfWeek")?;
        let occurrence = required_child_usize(e, "Occurrence")?;
        Ok(RecurringDayTransition { to, time_offset, month, day_of_week, occurrence })
    }
}

pub open spec fn recurring_date_valid(e: Element) -> bool {
    &&& child_text(e, "To"@) is Some
    &&& child_text(e, "TimeOffset"@) is Some
    &&& usize_child_valid(e, "Month"@)
    &&& usize_child_valid(e, "Day"@)
}

pub open spec fn recurring_date_decodes(e: Element, t: RecurringDateTransition) -> bool {
    &&& child_text(e, "To"@) == Some(t.to@)
    &&& child_text(e, "TimeOffset"@) == Some(t.time_offset@)
    &&& usize_child(e, "Month"@, t.month)
    &&& usize_child(e, "Day"@, t.day)
}

impl RecurringDateTransition {
    pub fn from_element(e: &Element) -> (r: Result<RecurringDateTransition, DecodeError>)
        ensures
            r is Ok <==> recurring_date_valid(*e),
            r matches Ok(t) ==> recurring_date_decodes(*e, t),
            r matches Err(err) ==> err is MissingField || err is MalformedValue,
    {
        let to = required_child_text(e, "To")?;
        let time_offset = required_child_text(e, "TimeOffset")?;
        let month = required_child_usize(e, "Month")?;
        let day = required_child_usize(e, "Day")?;
        Ok(RecurringDateTransition { to, time_offset, month, day })
    }
}

/// The tag names a registered transition kind.
pub open spec fn transition_known(e: Element) -> bool {
    let n = local_name(e.name@);
    n == "AbsoluteDateTransition"@ || n == "RecurringDayTransition"@ || n
        == "RecurringDateTransition"@
}

pub open spec fn transition_valid(e: Element) -> bool {
    let n = local_name(e.name@);
    if n == "AbsoluteDateTransition"@ {
        absolute_valid(e)
    } else if n == "RecurringDayTransition"@ {
        recurring_day_valid(e)
    } else if n == "RecurringDateTransition"@ {
        recurring_date_valid(e)
    } else {
        false
    }
}

pub open spec fn transition_decodes(e: Element, t: Transition) -> bool {
    let n = local_name(e.name@);
    match t {
        Transition::AbsoluteDateTransition(a) => n == "AbsoluteDateTransition"@ && absolute_decodes(
            e,
            a,
        ),
        Transition::RecurringDayTransition(d) => n == "RecurringDayTransition"@
            && recurring_day_decodes(e, d),
        Transition::RecurringDateTransition(d) => n == "RecurringDateTransition"@
            && recurring_date_decodes(e, d),
    }
}

impl Transition {
    /// Decodes a transition, choosing its kind by the element's tag.
    pub fn from_element(e: &Element) -> (r: Result<Transition, DecodeError>)
        ensures
            r is Ok <==> transition_valid(*e),
            r matches Ok(t) ==> transition_decodes(*e, t),
            r matches Err(err) ==> (err is UnknownVariant <==> !transition_known(*e)),
    {
        let n = local_part(e.name.as_str());
        if same_text(n, "AbsoluteDateTransition") {
            Ok(Transition::AbsoluteDateTransition(AbsoluteDateTransition::from_element(e)?))
        } else if same_text(n, "RecurringDayTransition") {
            Ok(Transition::RecurringDayTransition(RecurringDayTransition::from_element(e)?))
        } else if same_text(n, "RecurringDateTransition") {
            Ok(Transition::RecurringDateTransition(RecurringDateTransition::from_element(e)?))
        } else {
            Err(DecodeError::UnknownVariant(e.name.clone()))
        }
    }
}

pub open spec fn transitions_valid(e: Element) -> bool {
    forall|i: int| 0 <= i < e.children@.len() ==> transition_valid(#[trigger] e.children@[i])
}

pub open spec fn transitions_decodes(e: Element, t: Transitions) -> bool {
    &&& t.transitions@.len() == e.children@.len()
    &&& forall|i: int|
        0 <= i < e.children@.len() ==> transition_decodes(
            #[trigger] e.children@[i],
            t.transitions@[i],
        )
}

impl Transitions {
    /// Decodes every child as a transition, in order.
    pub fn from_element(e: &Element) -> (r: Result<Transitions, DecodeError>)
        ensures
            r is Ok <==> transitions_valid(*e),
            r matches Ok(t) ==> transitions_decodes(*e, t),
    {
        let mut v: Vec<Transition> = Vec::new();
        let mut i: usize = 0;
        while i < e.children.len()
            invariant
                i <= e.children@.len(),
                v@.len() == i,
                forall|j: int| 0 <= j < i ==> transition_decodes(e.children@[j], #[trigger] v@[j]),
                forall|j: int| 0 <= j < i ==> transition_valid(#[trigger] e.children@[j]),
            decreases e.children@.len() - i,
        {
            let t = Transition::from_element(&e.children[i])?;
            v.push(t);
            i = i + 1;
        }
        Ok(Transitions { transitions: v })
    }
}

pub open spec fn groups_valid(e: Element) -> bool {
    &&& attribute(e, "Id"@) is Some
    &&& forall|i: int| 0 <= i < e.children@.len() ==> transitions_valid(#[trigger] e.children@[i])
}

pub open spec fn groups_decodes(e: Element, g: TransitionsGroups) -> bool {
    &&& attribute(e, "Id"@) == Some(g.id@)
    &&& g.transitions@.len() == e.children@.len()
    &&& forall|i: int|
        0 <= i < e.children@.len() ==> transitions_decodes(
            #[trigger] e.children@[i],
            g.transitions@[i],
        )
}

impl TransitionsGroups {
    /// Decodes the group's id and each child as a list of transitions.
    pub fn from_element(e: &Element) -> (r: Result<TransitionsGroups, DecodeError>)
        ensures
            r is Ok <==> groups_valid(*e),
            r matches Ok(g) ==> groups_decodes(*e, g),
    {
        let id = required_attribute(e, "Id")?;
        let mut v: Vec<Transitions> = Vec::new();
        let mut i: usize = 0;
        while i < e.children.len()
            invariant
                i <= e.children@.len(),
                v@.len() == i,
                attribute(*e, "Id"@) == Some(id@),
                forall|j: int| 0 <= j < i ==> transitions_decodes(e.children@[j], #[trigger] v@[j]),
                forall|j: int| 0 <= j < i ==> transitions_valid(#[trigger] e.children@[j]),
            decreases e.children@.len() - i,
        {
            let t = Transitions::from_element(&e.children[i])?;
            v.push(t);
            i = i + 1;
        }
        Ok(TransitionsGroups { id, transitions: v })
    }
}

pub open spec fn definition_valid(e: Element) -> bool {
    &&& attribute(e, "Id"@) is Some
    &&& (child(e, "Periods"@) matches Some(c) ==> periods_valid(c))
    &&& (child(e, "TransitionsGroups"@) matches Some(c) ==> groups_valid(c))
    &&& (child(e, "Transitions"@) matches Some(c) ==> transitions_valid(c))
}

pub open spec fn definition_decodes(e: Element, d: TimeZoneDefinition) -> bool {
    &&& attribute(e, "Id"@) == Some(d.id@)
    &&& attribute(e, "Name"@) == string_view(d.name)
    &&& match child(e, "Periods"@) {
        Some(c) => d.periods matches Some(p) && periods_decodes(c, p),
        None => d.periods is None,
    }
    &&& match child(e, "TransitionsGroups"@) {
        Some(c) => d.transitions_groups matches Some(g) && groups_decodes(c, g),
        None => d.transitions_groups is None,
    }
    &&& match child(e, "Transitions"@) {
        Some(c) => d.transitions matches Some(t) && transitions_decodes(c, t),
        None => d.transitions is None,
    }
}

impl TimeZoneDefinition {
    /// Decodes a definition; absent optional parts decode as `None`.
    pub fn from_element(e: &Element) -> (r: Result<TimeZoneDefinition, DecodeError>)
        ensures
            r is Ok <==> definition_valid(*e),
            r matches Ok(d) ==> definition_decodes(*e, d),
    {
        let id = required_attribute(e, "Id")?;
        let name = optional_attribute(e, "Name");
        let periods = match find_child(e, "Periods") {
            Some(i) => Some(Periods::from_element(&e.children[i])?),
            None => None,
        };
        let transitions_groups = match find_child(e, "TransitionsGroups") {
            Some(i) => Some(TransitionsGroups::from_element(&e.children[i])?),
            None => None,
        };
        let transitions = match find_child(e, "Transitions") {
            Some(i) => Some(Transitions::from_element(&e.children[i])?),
            None => None,
        };
        Ok(TimeZoneDefinition { id, name, periods, transitions_groups, transitions })
    }
}

pub open spec fn definitions_valid(e: Element) -> bool {
    forall|i: int| 0 <= i < e.children@.len() ==> definition_valid(#[trigger] e.children@[i])
}

pub open spec fn definitions_decodes(e: Element, d: TimeZoneDefinitions) -> bool {
    &&& d.inner@.len() == e.children@.len()
    &&& forall|i: int|
        0 <= i < e.children@.len() ==> definition_decodes(#[trigger] e.children@[i], d.inner@[i])
}

impl TimeZoneDefinitions {
    /// Decodes every child as a time zone definition, in order.
    pub fn from_element(e: &Element) -> (r: Result<TimeZoneDefinitions, DecodeError>)
        ensures
            r is Ok <==> definitions_valid(*e),
            r matches Ok(d) ==> definitions_decodes(*e, d),
    {
        let mut v: Vec<TimeZoneDefinition> = Vec::new();
        let mut i: usize = 0;
        while i < e.children.len()
            invariant
                i <= e.children@.len(),
                v@.len() == i,
                forall|j: int| 0 <= j < i ==> definition_decodes(e.children@[j], #[trigger] v@[j]),
                forall|j: int| 0 <= j < i ==> definition_valid(#[trigger] e.children@[j]),
            decreases e.children@.len() - i,
        {
            let d = TimeZoneDefinition::from_element(&e.children[i])?;
            v.push(d);
            i = i + 1;
        }
        Ok(TimeZoneDefinitions { inner: v })
    }
}

impl TimeZoneId {
    /// Decodes an id from the element's text.
    pub fn from_element(e: &Element) -> (r: TimeZoneId)
        ensures
            r.id@ == text_value(*e),
    {
        TimeZoneId { id: text_of(e) }
    }
}

// Encoding.

pub open spec fn period_shape(p: Period) -> Shape {
    Shape {
        name: types_name("Period"@),
        attributes: seq![("Id"@, p.id@), ("Bias"@, p.bias@), ("Name"@, p.name@)],
        text: None,
    }
}

impl Period {
    /// Encodes the period as a leaf with three attributes.
    pub fn to_element(&self) -> (r: Element)
        ensures
            is_leaf(r, period_shape(*self)),
    {
        let mut r = new_element(types_tag("Period"));
        let a = new_attribute("Id", self.id.clone());
        let b = new_attribute("Bias", self.bias.clone());
        let c = new_attribute("Name", self.name.clone());
        r.attributes = Vec::new();
        r.attributes.push(a);
        r.attributes.push(b);
        r.attributes.push(c);
        assert(r.attributes@ == seq![a, b, c]);
        assert(attribute_pairs(r.attributes@) =~= period_shape(*self).attributes);
        r
    }
}

pub open spec fn periods_encoded(p: Periods, e: Element) -> bool {
    &&& shape(e) == bare(types_name("Periods"@))
    &&& e.children@.len() == p.period@.len()
    &&& forall|i: int|
        0 <= i < e.children@.len() ==> is_leaf(#[trigger] e.children@[i], period_shape(p.period@[i]))
}

impl Periods {
    pub fn to_element(&self) -> (r: Element)
        ensures
            periods_encoded(*self, r),
    {
        let mut r = new_element(types_tag("Periods"));
        let mut i: usize = 0;
        while i < self.period.len()
            invariant
                i <= self.period@.len(),
                shape(r) == bare(types_name("Periods"@)),
                r.children@.len() == i,
                forall|j: int|
                    0 <= j < i ==> is_leaf(#[trigger] r.children@[j], period_shape(self.period@[j])),
            decreases self.period@.len() - i,
        {
            r.children.push(self.period[i].to_element());
            i = i + 1;
        }
        r
    }
}

pub open spec fn absolute_encoded(a: AbsoluteDateTransition, e: Element) -> bool {
    &&& shape(e) == bare(types_name("AbsoluteDateTransition"@))
    &&& shapes(e.children@) == seq![
        texted(types_name("To"@), a.to@),
        texted(types_name("DateTime"@), a.date_time@),
    ]
    &&& all_leaves(e.children@)
}

impl AbsoluteDateTransition {
    pub fn to_element(&self) -> (r: Element)
        ensures
            absolute_encoded(*self, r),
    {
        let mut r = new_element(types_tag("AbsoluteDateTransition"));
        push_leaf(&mut r.children, text_element(types_tag("To"), self.to.clone()));
        push_leaf(&mut r.children, text_element(types_tag("DateTime"), self.date_time.clone()));
        assert(shapes(r.children@) =~= seq![
            texted(types_name("To"@), self.to@),
            texted(types_name("DateTime"@), self.date_time@),
        ]);
        r
    }
}

pub open spec fn recurring_day_encoded(t: RecurringDayTransition, e: Element) -> bool {
    &&& shape(e) == bare(types_name("RecurringDayTransition"@))
    &&& shapes(e.children@) == seq![
        texted(types_name("To"@), t.to@),
        texted(types_name("TimeOffset"@), t.time_offset@),
        texted(types_name("Month"@), decimal_text(t.month as nat)),
        texted(types_name("DayOfWeek"@), t.day_of_week@),
        texted(types_name("Occurrence"@), decimal_text(t.occurrence as nat)),
    ]
    &&& all_leaves(e.children@)
}

impl RecurringDayTransition {
    pub fn to_element(&self) -> (r: Element)
        ensures
            recurring_day_encoded(*self, r),
    {
        let mut r = new_element(types_tag("RecurringDayTransition"));
        push_leaf(&mut r.children, text_element(types_tag("To"), self.to.clone()));
        push_leaf(&mut r.children, text_element(types_tag("TimeOffset"), self.time_offset.clone()));
        push_leaf(&mut r.children, text_element(types_tag("Month"), usize_literal(self.month)));
        push_leaf(&mut r.children, text_element(types_tag("DayOfWeek"), self.day_of_week.clone()));
        push_leaf(
            &mut r.children,
            text_element(types_tag("Occurrence"), usize_literal(self.occurrence)),
        );
        assert(shapes(r.children@) =~= seq![
            texted(types_name("To"@), self.to@),
            texted(types_name("TimeOffset"@), self.time_offset@),
            texted(types_name("Month"@), decimal_text(self.month as nat)),
            texted(types_name("DayOfWeek"@), self.day_of_week@),
            texted(types_name("Occurrence"@), decimal_text(self.occurrence as nat)),
        ]);
        r
    }
}

pub open spec fn recurring_date_encoded(t: RecurringDateTransition, e: Element) -> bool {
    &&& shape(e) == bare(types_name("RecurringDateTransition"@))
    &&& shapes(e.children@) == seq![
        texted(types_name("To"@), t.to@),
        texted(types_name("TimeOffset"@), t.time_offset@),
        texted(types_name("Month"@), decimal_text(t.month as nat)),
        texted(types_name("Day"@), decimal_text(t.day as nat)),
    ]
    &&& all_leaves(e.children@)
}

impl RecurringDateTransition {
    pub fn to_element(&self) -> (r: Element)
        ensures
            recurring_date_encoded(*self, r),
    {
        let mut r = new_element(types_tag("RecurringDateTransition"));
        push_leaf(&mut r.children, text_element(types_tag("To"), self.to.clone()));
        push_leaf(&mut r.children, text_element(types_tag("TimeOffset"), self.time_offset.clone()));
        push_leaf(&mut r.children, text_element(types_tag("Month"), usize_literal(self.month)));
        push_leaf(&mut r.children, text_element(types_tag("Day"), usize_literal(self.day)));
        assert(shapes(r.children@) =~= seq![
            texted(types_name("To"@), self.to@),
            texted(types_name("TimeOffset"@), self.time_offset@),
            texted(types_name("Month"@), decimal_text(self.month as nat)),
            texted(types_name("Day"@), decimal_text(self.day as nat)),
        ]);
        r
    }
}

pub open spec fn transition_encoded(t: Transition, e: Element) -> bool {
    match t {
        Transition::AbsoluteDateTransition(a) => absolute_encoded(a, e),
        Transition::RecurringDayTransition(d) => recurring_day_encoded(d, e),
        Transition::RecurringDateTransition(d) => recurring_date_encoded(d, e),
    }
}

impl Transition {
    /// Encodes the transition as an element tagged with its kind.
    pub fn to_element(&self) -> (r: Element)
        ensures
            transition_encoded(*self, r),
    {
        match self {
            Transition::AbsoluteDateTransition(a) => a.to_element(),
            Transition::RecurringDayTransition(d) => d.to_element(),
            Transition::RecurringDateTransition(d) => d.to_element(),
        }
    }
}

pub open spec fn transitions_encoded(t: Transitions, e: Element) -> bool {
    &&& shape(e) == bare(types_name("Transitions"@))
    &&& e.children@.len() == t.transitions@.len()
    &&& forall|i: int|
        0 <= i < e.children@.len() ==> transition_encoded(
            t.transitions@[i],
            #[trigger] e.children@[i],
        )
}

impl Transitions {
    pub fn to_element(&self) -> (r: Element)
        ensures
            transitions_encoded(*self, r),
    {
        let mut r = new_element(types_tag("Transitions"));
        let mut i: usize = 0;
        while i < self.transitions.len()
            invariant
                i <= self.transitions@.len(),
                shape(r) == bare(types_name("Transitions"@)),
                r.children@.len() == i,
                forall|j: int|
                    0 <= j < i ==> transition_encoded(
                        self.transitions@[j],
                        #[trigger] r.children@[j],
                    ),
            decreases self.transitions@.len() - i,
        {
            r.children.push(self.transitions[i].to_element());
            i = i + 1;
        }
        r
    }
}

pub open spec fn groups_encoded(g: TransitionsGroups, e: Element) -> bool {
    &&& shape(e) == (Shape {
        name: types_name("TransitionsGroups"@),
        attributes: seq![("Id"@, g.id@)],
        text: None,
    })
    &&& e.children@.len() == g.transitions@.len()
    &&& forall|i: int|
        0 <= i < e.children@.len() ==> transitions_encoded(
            g.transitions@[i],
            #[trigger] e.children@[i],
        )
}

impl TransitionsGroups {
    pub fn to_element(&self) -> (r: Element)
        ensures
            groups_encoded(*self, r),
    {
        let mut r = new_element(types_tag("TransitionsGroups"));
        r.attributes.push(new_attribute("Id", self.id.clone()));
        assert(attribute_pairs(r.attributes@) =~= seq![("Id"@, self.id@)]);
        let mut i: usize = 0;
        while i < self.transitions.len()
            invariant
                i <= self.transitions@.len(),
                r.name@ == types_name("TransitionsGroups"@),
                r.text is None,
                attribute_pairs(r.attributes@) == seq![("Id"@, self.id@)],
                r.children@.len() == i,
                forall|j: int|
                    0 <= j < i ==> transitions_encoded(
                        self.transitions@[j],
                        #[trigger] r.children@[j],
                    ),
            decreases self.transitions@.len() - i,
        {
            r.children.push(self.transitions[i].to_element());
            i = i + 1;
        }
        r
    }
}

/// The encoding of a definition: `Id` and optional `Name` attributes, then
/// each present part in the order periods, groups, transitions.
pub open spec fn definition_encoded(d: TimeZoneDefinition, e: Element) -> bool {
    let g = if d.periods is Some { 1int } else { 0int };
    let t = g + if d.transitions_groups is Some { 1int } else { 0int };
    let n = t + if d.transitions is Some { 1int } else { 0int };
    &&& shape(e) == (Shape {
        name: types_name("TimeZoneDefinition"@),
        attributes: seq![("Id"@, d.id@)] + optional_pair("Name"@, d.name),
        text: None,
    })
    &&& e.children@.len() == n
    &&& (d.periods matches Some(p) ==> periods_encoded(p, e.children@[0]))
    &&& (d.transitions_groups matches Some(x) ==> groups_encoded(x, e.children@[g]))
    &&& (d.transitions matches Some(x) ==> transitions_encoded(x, e.children@[t]))
}

impl TimeZoneDefinition {
    pub fn to_element(&self) -> (r: Element)
        ensures
            definition_encoded(*self, r),
    {
        let mut r = new_element(types_tag("TimeZoneDefinition"));
        r.attributes.push(new_attribute("Id", self.id.clone()));
        match &self.name {
            Some(n) => r.attributes.push(new_attribute("Name", n.clone())),
            None => {},
        }
        assert(attribute_pairs(r.attributes@) =~= seq![("Id"@, self.id@)] + optional_pair(
            "Name"@,
            self.name,
        ));
        match &self.periods {
            Some(p) => r.children.push(p.to_element()),
            None => {},
        }
        match &self.transitions_groups {
            Some(g) => r.children.push(g.to_element()),
            None => {},
        }
        match &self.transitions {
            Some(t) => r.children.push(t.to_element()),
            None => {},
        }
        r
    }
}

pub open spec fn definitions_encoded(d: TimeZoneDefinitions, e: Element) -> bool {
    &&& shape(e) == bare(messages_name("TimeZoneDefinitions"@))
    &&& e.children@.len() == d.inner@.len()
    &&& forall|i: int|
        0 <= i < e.children@.len() ==> definition_encoded(d.inner@[i], #[trigger] e.children@[i])
}

impl TimeZoneDefinitions {
    pub fn to_element(&self) -> (r: Element)
        ensures
            definitions_encoded(*self, r),
    {
        let mut r = new_element(messages_tag("TimeZoneDefinitions"));
        let mut i: usize = 0;
        while i < self.inner.len()
            invariant
                i <= self.inner@.len(),
                shape(r) == bare(messages_name("TimeZoneDefinitions"@)),
                r.children@.len() == i,
                forall|j: int|
                    0 <= j < i ==> definition_encoded(self.inner@[j], #[trigger] r.children@[j]),
            decreases self.inner@.len() - i,
        {
            r.children.push(self.inner[i].to_element());
            i = i + 1;
        }
        r
    }
}

impl TimeZoneId {
    /// Encodes the id as a `t:Id` element holding it as text.
    pub fn to_element(&self) -> (r: Element)
        ensures
            is_leaf(r, texted(types_name("Id"@), self.id@)),
    {
        text_element(types_tag("Id"), self.id.clone())
    }
}

// Round trips.

/// Decoding the encoding of a period gives the period back.
pub proof fn lemma_period_round_trip(p: Period, e: Element)
    requires
        is_leaf(e, period_shape(p)),
    ensures
        period_valid(e),
        period_decodes(e, p),
{
    reveal_strlit("Id");
    reveal_strlit("Bias");
    reveal_strlit("Name");
    let names = seq!["Id"@, "Bias"@, "Name"@];
    let values = seq![p.id@, p.bias@, p.name@];
    assert(names[1][0] != names[2][0]);
    assert(names.no_duplicates()) by {
        assert(names[0].len() != names[1].len() && names[0].len() != names[2].len());
    }
    assert(attribute_pairs(e.attributes@) =~= Seq::new(3, |i: int| (names[i], values[i])));
    lemma_attributes_found(e, names, values);
    assert(names[0] == "Id"@ && names[1] == "Bias"@ && names[2] == "Name"@);
}

/// Decoding the encoding of a list of periods gives the list back.
pub proof fn lemma_periods_round_trip(p: Periods, e: Element)
    requires
        periods_encoded(p, e),
    ensures
        periods_valid(e),
        periods_decodes(e, p),
{
    assert forall|i: int| 0 <= i < e.children@.len() implies period_valid(#[trigger] e.children@[i])
        && period_decodes(e.children@[i], p.period@[i]) by {
        lemma_period_round_trip(p.period@[i], e.children@[i]);
    }
}

/// Decoding the encoding of an absolute-date transition gives it back.
pub proof fn lemma_absolute_round_trip(a: AbsoluteDateTransition, e: Element)
    requires
        absolute_encoded(a, e),
    ensures
        absolute_valid(e),
        absolute_decodes(e, a),
{
    reveal_strlit("To");
    reveal_strlit("DateTime");
    let locals = seq!["To"@, "DateTime"@];
    let texts = seq![a.to@, a.date_time@];
    assert(shapes(e.children@) =~= Seq::new(2, |i: int| texted(types_name(locals[i]), texts[i])));
    lemma_text_children(e, locals, texts);
    assert(locals[0] == "To"@ && locals[1] == "DateTime"@);
}

/// Decoding the encoding of a recurring-day transition gives it back.
pub proof fn lemma_recurring_day_round_trip(t: RecurringDayTransition, e: Element)
    requires
        recurring_day_encoded(t, e),
    ensures
        recurring_day_valid(e),
        recurring_day_decodes(e, t),
{
    reveal_strlit("To");
    reveal_strlit("TimeOffset");
    reveal_strlit("Month");
    reveal_strlit("DayOfWeek");
    reveal_strlit("Occurrence");
    let locals = seq!["To"@, "TimeOffset"@, "Month"@, "DayOfWeek"@, "Occurrence"@];
    let texts = seq![
        t.to@,
        t.time_offset@,
        decimal_text(t.month as nat),
        t.day_of_week@,
        decimal_text(t.occurrence as nat),
    ];
    assert(locals[1] != locals[4]) by {
        assert(locals[1][0] != locals[4][0]);
    }
    assert(shapes(e.children@) =~= Seq::new(5, |i: int| texted(types_name(locals[i]), texts[i])));
    lemma_text_children(e, locals, texts);
    assert(locals[0] == "To"@ && locals[1] == "TimeOffset"@ && locals[2] == "Month"@);
    assert(locals[3] == "DayOfWeek"@ && locals[4] == "Occurrence"@);
    lemma_decimal_round_trip(t.month as nat);
    lemma_decimal_round_trip(t.occurrence as nat);
}

/// Decoding the encoding of a recurring-date transition gives it back.
pub proof fn lemma_recurring_date_round_trip(t: RecurringDateTransition, e: Element)
    requires
        recurring_date_encoded(t, e),
    ensures
        recurring_date_valid(e),
        recurring_date_decodes(e, t),
{
    reveal_strlit("To");
    reveal_strlit("TimeOffset");
    reveal_strlit("Month");
    reveal_strlit("Day");
    let locals = seq!["To"@, "TimeOffset"@, "Month"@, "Day"@];
    let texts = seq![
        t.to@,
        t.time_offset@,
        decimal_text(t.month as nat),
        decimal_text(t.day as nat),
    ];
    assert(shapes(e.children@) =~= Seq::new(4, |i: int| texted(types_name(locals[i]), texts[i])));
    lemma_text_children(e, locals, texts);
    assert(locals[0] == "To"@ && locals[1] == "TimeOffset"@ && locals[2] == "Month"@);
    assert(locals[3] == "Day"@);
    lemma_decimal_round_trip(t.month as nat);
    lemma_decimal_round_trip(t.day as nat);
}

/// Decoding the encoding of a transition gives back the same kind with the
/// same fields.
pub proof fn lemma_transition_round_trip(t: Transition, e: Element)
    requires
        transition_encoded(t, e),
    ensures
        transition_valid(e),
        transition_decodes(e, t),
{
    reveal_strlit("AbsoluteDateTransition");
    reveal_strlit("RecurringDayTransition");
    reveal_strlit("RecurringDateTransition");
    assert("AbsoluteDateTransition"@[0] != "RecurringDayTransition"@[0]);
    assert("AbsoluteDateTransition"@.len() != "RecurringDateTransition"@.len());
    assert("RecurringDayTransition"@.len() != "RecurringDateTransition"@.len());
    match t {
        Transition::AbsoluteDateTransition(a) => {
            lemma_types_local("AbsoluteDateTransition"@);
            lemma_absolute_round_trip(a, e);
        },
        Transition::RecurringDayTransition(d) => {
            lemma_types_local("RecurringDayTransition"@);
            lemma_recurring_day_round_trip(d, e);
        },
        Transition::RecurringDateTransition(d) => {
            lemma_types_local("RecurringDateTransition"@);
            lemma_recurring_date_round_trip(d, e);
        },
    }
}

/// Decoding the encoding of a list of transitions gives the list back.
pub proof fn lemma_transitions_round_trip(t: Transitions, e: Element)
    requires
        transitions_encoded(t, e),
    ensures
        transitions_valid(e),
        transitions_decodes(e, t),
{
    assert forall|i: int| 0 <= i < e.children@.len() implies transition_valid(
        #[trigger] e.children@[i],
    ) && transition_decodes(e.children@[i], t.transitions@[i]) by {
        lemma_transition_round_trip(t.transitions@[i], e.children@[i]);
    }
}

/// Decoding the encoding of a transitions group gives the group back.
pub proof fn lemma_groups_round_trip(g: TransitionsGroups, e: Element)
    requires
        groups_encoded(g, e),
    ensures
        groups_valid(e),
        groups_decodes(e, g),
{
    lemma_attributes_found(e, seq!["Id"@], seq![g.id@]);
    assert(attribute_pairs(e.attributes@) =~= Seq::new(
        1,
        |i: int| (seq!["Id"@][i], seq![g.id@][i]),
    ));
    assert(seq!["Id"@][0] == "Id"@);
    assert forall|i: int| 0 <= i < e.children@.len() implies transitions_valid(
        #[trigger] e.children@[i],
    ) && transitions_decodes(e.children@[i], g.transitions@[i]) by {
        lemma_transitions_round_trip(g.transitions@[i], e.children@[i]);
    }
}

/// Decoding the encoding of a time zone definition gives it back; absent
/// parts come back absent.
pub proof fn lemma_definition_round_trip(d: TimeZoneDefinition, e: Element)
    requires
        definition_encoded(d, e),
    ensures
        definition_valid(e),
        definition_decodes(e, d),
{
    reveal_strlit("Id");
    reveal_strlit("Name");
    reveal_strlit("Periods");
    reveal_strlit("TransitionsGroups");
    reveal_strlit("Transitions");
    let c = e.children@;
    let names: Seq<Seq<char>> = seq!["Periods"@, "TransitionsGroups"@, "Transitions"@];
    assert(names.no_duplicates()) by {
        assert(names[0].len() != names[1].len() && names[0].len() != names[2].len());
        assert(names[1].len() != names[2].len());
    }
    lemma_types_local("Periods"@);
    lemma_types_local("TransitionsGroups"@);
    lemma_types_local("Transitions"@);
    let g = if d.periods is Some { 1int } else { 0int };
    let t = g + if d.transitions_groups is Some { 1int } else { 0int };
    // Each child's local name is the name of the part it encodes.
    let at = |i: int| if d.periods is Some && i == 0 {
        0int
    } else if d.transitions_groups is Some && i == g {
        1int
    } else {
        2int
    };
    assert forall|i: int| 0 <= i < c.len() implies local_name((#[trigger] c[i]).name@) == names[at(
        i,
    )] by {
        if d.periods is Some && i == 0 {
        } else if d.transitions_groups is Some && i == g {
        } else {
            assert(d.transitions is Some && i == t);
        }
    }
    match d.periods {
        Some(p) => {
            lemma_child_found(e, 0);
            lemma_periods_round_trip(p, c[0]);
        },
        None => {
            lemma_child_absent(e, "Periods"@);
        },
    }
    match d.transitions_groups {
        Some(x) => {
            lemma_child_found(e, g);
            lemma_groups_round_trip(x, c[g]);
        },
        None => {
            lemma_child_absent(e, "TransitionsGroups"@);
        },
    }
    match d.transitions {
        Some(x) => {
            lemma_child_found(e, t);
            lemma_transitions_round_trip(x, c[t]);
        },
        None => {
            lemma_child_absent(e, "Transitions"@);
        },
    }
    match d.name {
        Some(n) => {
            let an = seq!["Id"@, "Name"@];
            let av = seq![d.id@, n@];
            assert(an.no_duplicates()) by {
                assert(an[0].len() != an[1].len());
            }
            assert(attribute_pairs(e.attributes@) =~= Seq::new(2, |i: int| (an[i], av[i])));
            lemma_attributes_found(e, an, av);
            assert(an[0] == "Id"@ && an[1] == "Name"@);
        },
        None => {
            let an = seq!["Id"@];
            let av = seq![d.id@];
            assert(attribute_pairs(e.attributes@) =~= Seq::new(1, |i: int| (an[i], av[i])));
            lemma_attributes_found(e, an, av);
            assert(an[0] == "Id"@);
            assert(attribute_pairs(e.attributes@).len() == e.attributes@.len());
            assert forall|i: int| 0 <= i < e.attributes@.len() implies (
            #[trigger] e.attributes@[i]).name@ != "Name"@ by {
                assert(attribute_pairs(e.attributes@)[i] == (
                e.attributes@[i].name@,
                e.attributes@[i].value@,
                ));
            }
            crate::xml::lemma_attribute_absent(e, "Name"@);
        },
    }
}

/// Decoding the encoding of a list of definitions gives the list back.
pub proof fn lemma_definitions_round_trip(d: TimeZoneDefinitions, e: Element)
    requires
        definitions_encoded(d, e),
    ensures
        definitions_valid(e),
        definitions_decodes(e, d),
{
    assert forall|i: int| 0 <= i < e.children@.len() implies definition_valid(
        #[trigger] e.children@[i],
    ) && definition_decodes(e.children@[i], d.inner@[i]) by {
        lemma_definition_round_trip(d.inner@[i], e.children@[i]);
    }
}

/// Decoding the encoding of a time zone id gives the id back.
pub proof fn lemma_time_zone_id_round_trip(t: TimeZoneId, e: Element)
    requires
        is_leaf(e, texted(types_name("Id"@), t.id@)),
    ensures
        text_value(e) == t.id@,
{
}

/// Variant closure for transitions: a transition encoded on its own tag
/// decodes back to the same kind with the same fields, and an element whose tag
/// names no registered kind never decodes (its error is `UnknownVariant`).
pub proof fn lemma_transition_variant_closure(t: Transition, e: Element, other: Element)
    requires
        transition_encoded(t, e),
    ensures
        transition_valid(e),
        transition_decodes(e, t),
        !transition_known(other) ==> !transition_valid(other),
{
    lemma_transition_round_trip(t, e);
}

} // verus!
