use vstd::prelude::*;
use crate::fields::{
    child_text, optional_attribute as read_optional_attribute, optional_bool_ok,
    optional_bool_valid, optional_child_bool, optional_child_text, optional_child_usize,
    optional_usize_ok, optional_usize_valid, required_attribute, string_view,
};
use crate::literal::{bool_literal, bool_text, decimal_text, usize_literal, DecodeError};
use crate::xml::{
    all_leaves, attribute, bare, child, find_child, is_leaf, local_name, local_part,
    new_attribute, new_element, same_text, shape, shapes, text_element, texted, types_name,
    types_tag, Attribute, Element, Shape,
};

verus! {

#[derive(Clone, Debug, PartialEq, Eq)]
/// The standard set of properties returned for an item.
pub enum BaseShape {
    IdOnly,
    Default,
    AllProperties,
}

pub open spec fn base_shape_text(s: BaseShape) -> Seq<char> {
    match s {
        BaseShape::IdOnly => "IdOnly"@,
        BaseShape::Default => "Default"@,
        BaseShape::AllProperties => "AllProperties"@,
    }
}

impl BaseShape {
    /// The literal text of the shape.
    pub fn as_str(&self) -> (r: &'static str)
        ensures
            r@ == base_shape_text(*self),
    {
        match self {
            BaseShape::IdOnly => "IdOnly",
            BaseShape::Default => "Default",
            BaseShape::AllProperties => "AllProperties",
        }
    }
}

#[derive(Clone, Debug, PartialEq, Eq)]
/// A property named by its URI, such as `item:Subject`.
pub struct PathToElement {
    pub field_uri: String,
}

pub open spec fn path_shape(p: PathToElement) -> Shape {
    Shape {
        name: types_name("FieldURI"@),
        attributes: seq![("FieldURI"@, p.field_uri@)],
        text: None,
    }
}

pub open spec fn path_shapes(p: Seq<PathToElement>) -> Seq<Shape> {
    p.map_values(|x: PathToElement| path_shape(x))
}

#[derive(Clone, Debug, PartialEq, Eq)]
/// Which properties of items a response carries.
pub struct ItemShape {
    pub base_shape: BaseShape,
    pub include_mime_content: Option<bool>,
    pub additional_properties: Option<Vec<PathToElement>>,
}

pub open spec fn item_shape_child_shapes(s: ItemShape) -> Seq<Shape> {
    seq![texted(types_name("BaseShape"@), base_shape_text(s.base_shape))] + match s.include_mime_content {
        Some(b) => seq![texted(types_name("IncludeMimeContent"@), bool_text(b))],
        None => Seq::empty(),
    } + match s.additional_properties {
        Some(_) => seq![bare(types_name("AdditionalProperties"@))],
        None => Seq::empty(),
    }
}

/// `e` is the encoding of the item shape `s`: a `BaseShape` child, then each
/// optional part only when present.
pub open spec fn item_shape_encoded(s: ItemShape, e: Element) -> bool {
    &&& shape(e) == bare("ItemShape"@)
    &&& shapes(e.children@) == item_shape_child_shapes(s)
    &&& forall|i: int|
        0 <= i < e.children@.len() - 1 ==> (#[trigger] e.children@[i]).children@.len() == 0
    &&& match s.additional_properties {
        Some(p) => {
            let last = e.children@.last();
            &&& shapes(last.children@) == path_shapes(p@)
            &&& all_leaves(last.children@)
        },
        None => e.children@.last().children@.len() == 0,
    }
}

/// Encodes a list of element paths as leaves.
fn paths_to_elements(p: &Vec<PathToElement>) -> (r: Vec<Element>)
    ensures
        shapes(r@) == path_shapes(p@),
        all_leaves(r@),
{
    let mut r: Vec<Element> = Vec::new();
    let mut i: usize = 0;
    while i < p.len()
        invariant
            i <= p@.len(),
            shapes(r@) == path_shapes(p@.subrange(0, i as int)),
            all_leaves(r@),
        decreases p@.len() - i,
    {
        let mut e = new_element(types_tag("FieldURI"));
        push_attribute(&mut e, "FieldURI", p[i].field_uri.clone());
        assert(shape(e).attributes =~= path_shape(p@[i as int]).attributes);
        let ghost before = r@;
        r.push(e);
        assert(r@ == before.push(e));
        assert(shapes(r@) =~= shapes(before).push(path_shape(p@[i as int])));
        assert(shapes(r@) =~= path_shapes(p@.subrange(0, i + 1)));
        i = i + 1;
    }
    assert(p@.subrange(0, p@.len() as int) == p@);
    r
}

impl ItemShape {
    /// Encodes the shape as an `ItemShape` element.
    pub fn to_element(&self) -> (r: Element)
        ensures
            item_shape_encoded(*self, r),
    {
        let mut r = new_element(String::from_str("ItemShape"));
        r.children.push(text_element(types_tag("BaseShape"), String::from_str(self.base_shape.as_str())));
        match self.include_mime_content {
            Some(b) => {
                r.children.push(
                    text_element(types_tag("IncludeMimeContent"), String::from_str(bool_literal(b))),
                );
            },
            None => {},
        }
        match &self.additional_properties {
            Some(p) => {
                let mut a = new_element(types_tag("AdditionalProperties"));
                a.children = paths_to_elements(p);
                r.children.push(a);
            },
            None => {},
        }
        assert(shapes(r.children@) =~= item_shape_child_shapes(*self));
        r
    }
}

#[derive(Clone, Debug, PartialEq, Eq)]
/// The identifier of a folder: by its id, or by its well-known name.
pub enum BaseFolderId {
    FolderId { id: String, change_key: Option<String> },
    DistinguishedFolderId { id: String, change_key: Option<String> },
}

pub open spec fn id_attributes(id: String, change_key: Option<String>) -> Seq<(Seq<char>, Seq<char>)> {
    seq![("Id"@, id@)] + match change_key {
        Some(k) => seq![("ChangeKey"@, k@)],
        None => Seq::empty(),
    }
}

pub open spec fn folder_id_shape(f: BaseFolderId) -> Shape {
    match f {
        BaseFolderId::FolderId { id, change_key } => Shape {
            name: types_name("FolderId"@),
            attributes: id_attributes(id, change_key),
            text: None,
        },
        BaseFolderId::DistinguishedFolderId { id, change_key } => Shape {
            name: types_name("DistinguishedFolderId"@),
            attributes: id_attributes(id, change_key),
            text: None,
        },
    }
}

pub open spec fn folder_id_shapes(f: Seq<BaseFolderId>) -> Seq<Shape> {
    f.map_values(|x: BaseFolderId| folder_id_shape(x))
}

/// `Id` and an optional `ChangeKey` attribute, in that order.
fn id_attribute_list(id: &String, change_key: &Option<String>) -> (r: Vec<Attribute>)
    ensures
        crate::xml::attribute_pairs(r@) == id_attributes(*id, *change_key),
{
    let mut r: Vec<Attribute> = Vec::new();
    r.push(new_attribute("Id", id.clone()));
    match change_key {
        Some(k) => r.push(new_attribute("ChangeKey", k.clone())),
        None => {},
    }
    assert(crate::xml::attribute_pairs(r@) =~= id_attributes(*id, *change_key));
    r
}

impl BaseFolderId {
    /// Encodes the folder id as a leaf element.
    pub fn to_element(&self) -> (r: Element)
        ensures
            is_leaf(r, folder_id_shape(*self)),
    {
        match self {
            BaseFolderId::FolderId { id, change_key } => {
                let mut e = new_element(types_tag("FolderId"));
                e.attributes = id_attribute_list(id, change_key);
                e
            },
            BaseFolderId::DistinguishedFolderId { id, change_key } => {
                let mut e = new_element(types_tag("DistinguishedFolderId"));
                e.attributes = id_attribute_list(id, change_key);
                e
            },
        }
    }
}

/// Encodes folder ids as leaves, in order.
pub fn folder_ids_to_elements(ids: &Vec<BaseFolderId>) -> (r: Vec<Element>)
    ensures
        shapes(r@) == folder_id_shapes(ids@),
        all_leaves(r@),
{
    let mut r: Vec<Element> = Vec::new();
    let mut i: usize = 0;
    while i < ids.len()
        invariant
            i <= ids@.len(),
            shapes(r@) == folder_id_shapes(ids@.subrange(0, i as int)),
            all_leaves(r@),
        decreases ids@.len() - i,
    {
        let e = ids[i].to_element();
        let ghost before = r@;
        r.push(e);
        assert(shapes(r@) =~= shapes(before).push(folder_id_shape(ids@[i as int])));
        assert(shapes(r@) =~= folder_id_shapes(ids@.subrange(0, i + 1)));
        i = i + 1;
    }
    assert(ids@.subrange(0, ids@.len() as int) == ids@);
    r
}

#[derive(Clone, Debug, PartialEq, Eq)]
/// Where an indexed page starts.
pub enum BasePoint {
    Beginning,
    End,
}

pub open spec fn base_point_text(b: BasePoint) -> Seq<char> {
    match b {
        BasePoint::Beginning => "Beginning"@,
        BasePoint::End => "End"@,
    }
}

#[derive(Clone, Debug, PartialEq, Eq)]
/// The paging view of a search: at most one is chosen, and its fields are
/// written as attributes of a single element.
pub enum ItemView {
    IndexedPageItemView { max_entries_returned: Option<usize>, offset: usize, base_point: BasePoint },
    FractionalPageItemView {
        max_entries_returned: Option<usize>,
        numerator: usize,
        denominator: usize,
    },
    CalendarView { max_entries_returned: Option<usize>, start_date: String, end_date: String },
    ContactsView {
        max_entries_returned: Option<usize>,
        initial_name: Option<String>,
        final_name: Option<String>,
    },
}

pub open spec fn max_entries_attributes(m: Option<usize>) -> Seq<(Seq<char>, Seq<char>)> {
    match m {
        Some(n) => seq![("MaxEntriesReturned"@, decimal_text(n as nat))],
        None => Seq::empty(),
    }
}

pub open spec fn optional_attribute(name: Seq<char>, v: Option<String>) -> Seq<(Seq<char>, Seq<char>)> {
    match v {
        Some(s) => seq![(name, s@)],
        None => Seq::empty(),
    }
}

pub open spec fn view_shape(v: ItemView) -> Shape {
    match v {
        ItemView::IndexedPageItemView { max_entries_returned, offset, base_point } => Shape {
            name: "IndexedPageItemView"@,
            attributes: max_entries_attributes(max_entries_returned) + seq![
                ("BasePoint"@, base_point_text(base_point)),
                ("Offset"@, decimal_text(offset as nat)),
            ],
            text: None,
        },
        ItemView::FractionalPageItemView { max_entries_returned, numerator, denominator } => Shape {
            name: "FractionalPageItemView"@,
            attributes: max_entries_attributes(max_entries_returned) + seq![
                ("Numerator"@, decimal_text(numerator as nat)),
                ("Denominator"@, decimal_text(denominator as nat)),
            ],
            text: None,
        },
        ItemView::CalendarView { max_entries_returned, start_date, end_date } => Shape {
            name: "CalendarView"@,
            attributes: max_entries_attributes(max_entries_returned) + seq![
                ("StartDate"@, start_date@),
                ("EndDate"@, end_date@),
            ],
            text: None,
        },
        ItemView::ContactsView { max_entries_returned, initial_name, final_name } => Shape {
            name: "ContactsView"@,
            attributes: max_entries_attributes(max_entries_returned) + optional_attribute(
                "InitialName"@,
                initial_name,
            ) + optional_attribute("FinalName"@, final_name),
            text: None,
        },
    }
}

fn push_max_entries(e: &mut Element, m: Option<usize>)
    ensures
        final(e).name == old(e).name,
        final(e).children == old(e).children,
        final(e).text == old(e).text,
        crate::xml::attribute_pairs(final(e).attributes@) == crate::xml::attribute_pairs(
            old(e).attributes@,
        ) + max_entries_attributes(m),
{
    match m {
        Some(n) => e.attributes.push(new_attribute("MaxEntriesReturned", usize_literal(n))),
        None => {},
    }
    assert(crate::xml::attribute_pairs(e.attributes@) =~= crate::xml::attribute_pairs(
        old(e).attributes@,
    ) + max_entries_attributes(m));
}

fn push_optional(e: &mut Element, name: &str, v: &Option<String>)
    ensures
        final(e).name == old(e).name,
        final(e).children == old(e).children,
        final(e).text == old(e).text,
        crate::xml::attribute_pairs(final(e).attributes@) == crate::xml::attribute_pairs(
            old(e).attributes@,
        ) + optional_attribute(name@, *v),
{
    match v {
        Some(s) => e.attributes.push(new_attribute(name, s.clone())),
        None => {},
    }
    assert(crate::xml::attribute_pairs(e.attributes@) =~= crate::xml::attribute_pairs(
        old(e).attributes@,
    ) + optional_attribute(name@, *v));
}

fn push_attribute(e: &mut Element, name: &str, value: String)
    ensures
        final(e).name == old(e).name,
        final(e).children == old(e).children,
        final(e).text == old(e).text,
        crate::xml::attribute_pairs(final(e).attributes@) == crate::xml::attribute_pairs(
            old(e).attributes@,
        ).push((name@, value@)),
{
    e.attributes.push(new_attribute(name, value));
    assert(crate::xml::attribute_pairs(e.attributes@) =~= crate::xml::attribute_pairs(
        old(e).attributes@,
    ).push((name@, value@)));
}

impl ItemView {
    /// Encodes the view as a single leaf element named after its kind.
    pub fn to_element(&self) -> (r: Element)
        ensures
            is_leaf(r, view_shape(*self)),
    {
        match self {
            ItemView::IndexedPageItemView { max_entries_returned, offset, base_point } => {
                let mut e = new_element(String::from_str("IndexedPageItemView"));
                push_max_entries(&mut e, *max_entries_returned);
                let bp = match base_point {
                    BasePoint::Beginning => "Beginning",
                    BasePoint::End => "End",
                };
                push_attribute(&mut e, "BasePoint", String::from_str(bp));
                push_attribute(&mut e, "Offset", usize_literal(*offset));
                assert(shape(e).attributes =~= view_shape(*self).attributes);
                e
            },
            ItemView::FractionalPageItemView { max_entries_returned, numerator, denominator } => {
                let mut e = new_element(String::from_str("FractionalPageItemView"));
                push_max_entries(&mut e, *max_entries_returned);
                push_attribute(&mut e, "Numerator", usize_literal(*numerator));
                push_attribute(&mut e, "Denominator", usize_literal(*denominator));
                assert(shape(e).attributes =~= view_shape(*self).attributes);
                e
            },
            ItemView::CalendarView { max_entries_returned, start_date, end_date } => {
                let mut e = new_element(String::from_str("CalendarView"));
                push_max_entries(&mut e, *max_entries_returned);
                push_attribute(&mut e, "StartDate", start_date.clone());
                push_attribute(&mut e, "EndDate", end_date.clone());
                assert(shape(e).attributes =~= view_shape(*self).attributes);
                e
            },
            ItemView::ContactsView { max_entries_returned, initial_name, final_name } => {
                let mut e = new_element(String::from_str("ContactsView"));
                push_max_entries(&mut e, *max_entries_returned);
                push_optional(&mut e, "InitialName", initial_name);
                push_optional(&mut e, "FinalName", final_name);
                assert(shape(e).attributes =~= view_shape(*self).attributes);
                e
            },
        }
    }
}

pub open spec fn max_entries(v: ItemView) -> Option<usize> {
    match v {
        ItemView::IndexedPageItemView { max_entries_returned, .. } => max_entries_returned,
        ItemView::FractionalPageItemView { max_entries_returned, .. } => max_entries_returned,
        ItemView::CalendarView { max_entries_returned, .. } => max_entries_returned,
        ItemView::ContactsView { max_entries_returned, .. } => max_entries_returned,
    }
}

/// Omission: a view whose `max_entries_returned` is absent is written with no
/// `MaxEntriesReturned` attribute; one where it is present carries that
/// attribute with the number's decimal text.
pub proof fn lemma_view_omission(v: ItemView, e: Element)
    requires
        is_leaf(e, view_shape(v)),
    ensures
        max_entries(v) is None ==> attribute(e, "MaxEntriesReturned"@) is None,
        max_entries(v) matches Some(n) ==> attribute(e, "MaxEntriesReturned"@) == Some(
            decimal_text(n as nat),
        ),
{
    reveal_strlit("MaxEntriesReturned");
    reveal_strlit("BasePoint");
    reveal_strlit("Offset");
    reveal_strlit("Numerator");
    reveal_strlit("Denominator");
    reveal_strlit("StartDate");
    reveal_strlit("EndDate");
    reveal_strlit("InitialName");
    reveal_strlit("FinalName");
    let a = e.attributes@;
    assert(crate::xml::attribute_pairs(a).len() == a.len());
    assert forall|i: int| 0 <= i < a.len() implies (#[trigger] a[i]).name@ == view_shape(
        v,
    ).attributes[i].0 by {
        assert(crate::xml::attribute_pairs(a)[i] == (a[i].name@, a[i].value@));
    }
    match max_entries(v) {
        Some(n) => {
            assert(a[0].name@ == "MaxEntriesReturned"@);
            crate::xml::lemma_attribute_found(e, 0);
            assert(crate::xml::attribute_pairs(a)[0] == (a[0].name@, a[0].value@));
        },
        None => {
            assert forall|i: int| 0 <= i < a.len() implies (#[trigger] a[i]).name@
                != "MaxEntriesReturned"@ by {
                let n = view_shape(v).attributes[i].0;
                assert(n.len() != "MaxEntriesReturned"@.len());
            }
            crate::xml::lemma_attribute_absent(e, "MaxEntriesReturned"@);
        },
    }
}

/// The identifier of an item, with the change key of its version.
#[derive(Clone, Debug, PartialEq, Eq)]
pub struct ItemId {
    pub id: String,
    pub change_key: Option<String>,
}

pub open spec fn item_id_valid(e: Element) -> bool {
    attribute(e, "Id"@) is Some
}

pub open spec fn item_id_decodes(e: Element, i: ItemId) -> bool {
    attribute(e, "Id"@) == Some(i.id@) && attribute(e, "ChangeKey"@) == string_view(i.change_key)
}

impl ItemId {
    pub fn from_element(e: &Element) -> (r: Result<ItemId, DecodeError>)
        ensures
            r is Ok <==> item_id_valid(*e),
            r matches Ok(i) ==> item_id_decodes(*e, i),
            r matches Err(err) ==> err is MissingField,
    {
        let id = required_attribute(e, "Id")?;
        let change_key = read_optional_attribute(e, "ChangeKey");
        Ok(ItemId { id, change_key })
    }
}

#[derive(Clone, Debug, PartialEq, Eq)]
/// The properties of a message that a response may carry; those not asked
/// for are absent.
pub struct Message {
    pub item_id: Option<ItemId>,
    pub item_class: Option<String>,
    pub subject: Option<String>,
    pub size: Option<usize>,
    pub is_read: Option<bool>,
    pub has_attachments: Option<bool>,
    pub internet_message_id: Option<String>,
}

pub open spec fn message_valid(e: Element) -> bool {
    &&& (child(e, "ItemId"@) matches Some(c) ==> item_id_valid(c))
    &&& optional_usize_valid(child_text(e, "Size"@))
    &&& optional_bool_valid(child_text(e, "IsRead"@))
    &&& optional_bool_valid(child_text(e, "HasAttachments"@))
}

pub open spec fn message_decodes(e: Element, m: Message) -> bool {
    &&& match child(e, "ItemId"@) {
        Some(c) => m.item_id matches Some(i) && item_id_decodes(c, i),
        None => m.item_id is None,
    }
    &&& string_view(m.item_class) == child_text(e, "ItemClass"@)
    &&& string_view(m.subject) == child_text(e, "Subject"@)
    &&& optional_usize_ok(child_text(e, "Size"@), m.size)
    &&& optional_bool_ok(child_text(e, "IsRead"@), m.is_read)
    &&& optional_bool_ok(child_text(e, "HasAttachments"@), m.has_attachments)
    &&& string_view(m.internet_message_id) == child_text(e, "InternetMessageId"@)
}

impl Message {
    /// Decodes the properties present among the element's children.
    pub fn from_element(e: &Element) -> (r: Result<Message, DecodeError>)
        ensures
            r is Ok <==> message_valid(*e),
            r matches Ok(m) ==> message_decodes(*e, m),
            r matches Err(err) ==> err is MissingField || err is MalformedValue,
    {
        let item_id = match find_child(e, "ItemId") {
            Some(i) => Some(ItemId::from_element(&e.children[i])?),
            None => None,
        };
        let item_class = optional_child_text(e, "ItemClass");
        let subject = optional_child_text(e, "Subject");
        let size = optional_child_usize(e, "Size")?;
        let is_read = optional_child_bool(e, "IsRead")?;
        let has_attachments = optional_child_bool(e, "HasAttachments")?;
        let internet_message_id = optional_child_text(e, "InternetMessageId");
        Ok(Message { item_id, item_class, subject, size, is_read, has_attachments, internet_message_id })
    }
}

#[derive(Clone, Debug, PartialEq, Eq)]
/// An item of the store, told apart by the element's own tag; a tag that
/// names no kind is an `UnknownVariant` error.
pub enum RealItem {
    Item(Message),
    Message(Message),
    CalendarItem(Message),
}

/// The tag names a registered item kind.
pub open spec fn item_known(e: Element) -> bool {
    let n = local_name(e.name@);
    n == "Item"@ || n == "Message"@ || n == "CalendarItem"@
}

pub open spec fn real_item_valid(e: Element) -> bool {
    item_known(e) && message_valid(e)
}

pub open spec fn real_item_decodes(e: Element, r: RealItem) -> bool {
    let n = local_name(e.name@);
    match r {
        RealItem::Item(m) => n == "Item"@ && message_decodes(e, m),
        RealItem::Message(m) => n == "Message"@ && message_decodes(e, m),
        RealItem::CalendarItem(m) => n == "CalendarItem"@ && message_decodes(e, m),
    }
}

impl RealItem {
    /// Decodes an item, choosing its kind by the element's tag.
    pub fn from_element(e: &Element) -> (r: Result<RealItem, DecodeError>)
        ensures
            r is Ok <==> real_item_valid(*e),
            r matches Ok(i) ==> real_item_decodes(*e, i),
            r matches Err(err) ==> (err is UnknownVariant <==> !item_known(*e)),
    {
        let n = local_part(e.name.as_str());
        if same_text(n, "Item") {
            Ok(RealItem::Item(Message::from_element(e)?))
        } else if same_text(n, "Message") {
            Ok(RealItem::Message(Message::from_element(e)?))
        } else if same_text(n, "CalendarItem") {
            Ok(RealItem::CalendarItem(Message::from_element(e)?))
        } else {
            Err(DecodeError::UnknownVariant(e.name.clone()))
        }
    }
}

#[derive(Clone, Debug, PartialEq, Eq)]
/// A list of items in document order.
pub struct Items {
    pub inner: Vec<RealItem>,
}

pub open spec fn items_valid(e: Element) -> bool {
    forall|i: int| 0 <= i < e.children@.len() ==> real_item_valid(#[trigger] e.children@[i])
}

pub open spec fn items_decodes(e: Element, it: Items) -> bool {
    &&& it.inner@.len() == e.children@.len()
    &&& forall|i: int|
        0 <= i < e.children@.len() ==> real_item_decodes(#[trigger] e.children@[i], it.inner@[i])
}

impl Items {
    /// Decodes every child as an item, in order.
    pub fn from_element(e: &Element) -> (r: Result<Items, DecodeError>)
        ensures
            r is Ok <==> items_valid(*e),
            r matches Ok(it) ==> items_decodes(*e, it),
    {
        let mut v: Vec<RealItem> = Vec::new();
        let mut i: usize = 0;
        while i < e.children.len()
            invariant
                i <= e.children@.len(),
                v@.len() == i,
                forall|j: int| 0 <= j < i ==> real_item_decodes(e.children@[j], #[trigger] v@[j]),
                forall|j: int| 0 <= j < i ==> real_item_valid(#[trigger] e.children@[j]),
            decreases e.children@.len() - i,
        {
            let it = RealItem::from_element(&e.children[i])?;
            v.push(it);
            i = i + 1;
        }
        Ok(Items { inner: v })
    }
}

/// The items of the first child named `name`, absent when it is absent.
pub open spec fn optional_items_ok(e: Element, name: Seq<char>, it: Option<Items>) -> bool {
    match child(e, name) {
        Some(c) => it matches Some(x) && items_decodes(c, x),
        None => it is None,
    }
}

pub open spec fn optional_items_valid(e: Element, name: Seq<char>) -> bool {
    child(e, name) matches Some(c) ==> items_valid(c)
}

/// Decodes the items of an optional child.
pub fn optional_items(e: &Element, name: &str) -> (r: Result<Option<Items>, DecodeError>)
    ensures
        r is Ok <==> optional_items_valid(*e, name@),
        r matches Ok(it) ==> optional_items_ok(*e, name@, it),
{
    match find_child(e, name) {
        Some(i) => Ok(Some(Items::from_element(&e.children[i])?)),
        None => Ok(None),
    }
}

/// Variant closure for items: an element decodes to an item only when its
/// tag names a registered kind, and the kind decoded is the one the tag names.
pub proof fn lemma_item_variant_closure(e: Element, r: RealItem)
    ensures
        !item_known(e) ==> !real_item_valid(e),
        real_item_decodes(e, r) ==> match r {
            RealItem::Item(_) => local_name(e.name@) == "Item"@,
            RealItem::Message(_) => local_name(e.name@) == "Message"@,
            RealItem::CalendarItem(_) => local_name(e.name@) == "CalendarItem"@,
        },
{
}

} // verus!
