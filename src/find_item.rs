use vstd::prelude::*;
use crate::fields::{
    optional_attribute_bool, optional_attribute_usize, optional_bool_ok, optional_bool_valid,
    optional_child_usize, optional_usize_ok, optional_usize_valid, child_text,
};
use crate::literal::DecodeError;
use crate::response::{ResponseMessage, ResponseMessages};
use crate::types::{optional_items, optional_items_ok, optional_items_valid, Items,
    folder_id_shapes, folder_ids_to_elements, item_shape_encoded, view_shape, BaseFolderId,
    ItemShape, ItemView,
};
use crate::xml::{
    attribute, child, find_child, all_leaves, bare, is_leaf, new_attribute, new_element, shape, shapes, Element, Shape,
    MESSAGES_NS_URI,
};

verus! {

#[derive(Clone, Debug, PartialEq, Eq)]
/// A request to find items in one or more folders of a mailbox.
pub struct FindItem {
    pub traversal: Traversal,
    pub item_shape: ItemShape,
    /// Paging view, written inline among the request's children.
    pub view: Option<ItemView>,
    pub parent_folder_ids: Vec<BaseFolderId>,
}

#[derive(Clone, Debug, PartialEq, Eq)]
/// Which items of a folder a search finds.
pub enum Traversal {
    /// Only the items of the folder.
    Shallow,
    /// Only the items in the folder's dumpster.
    SoftDeleted,
    /// Only the associated items of the folder.
    Associated,
}

pub open spec fn traversal_text(t: Traversal) -> Seq<char> {
    match t {
        Traversal::Shallow => "Shallow"@,
        Traversal::SoftDeleted => "SoftDeleted"@,
        Traversal::Associated => "Associated"@,
    }
}

impl Traversal {
    /// The literal text of the traversal mode.
    pub fn as_str(&self) -> (r: &'static str)
        ensures
            r@ == traversal_text(*self),
    {
        match self {
            Traversal::Shallow => "Shallow",
            Traversal::SoftDeleted => "SoftDeleted",
            Traversal::Associated => "Associated",
        }
    }
}

/// The shape of the root of an operation in the messages namespace, with the
/// given attributes after the namespace declaration.
pub open spec fn request_root(
    name: Seq<char>,
    attributes: Seq<(Seq<char>, Seq<char>)>,
) -> Shape {
    Shape { name, attributes: seq![("xmlns"@, MESSAGES_NS_URI@)] + attributes, text: None }
}

/// `e` is the encoding of the folder list `ids` under the tag `name`.
pub open spec fn folder_list_encoded(ids: Seq<BaseFolderId>, name: Seq<char>, e: Element) -> bool {
    &&& shape(e) == bare(name)
    &&& shapes(e.children@) == folder_id_shapes(ids)
    &&& all_leaves(e.children@)
}

/// The encoding of a find request: the traversal attribute, the item shape,
/// the view's own element spliced in when present, and the folder list.
pub open spec fn find_item_encoded(f: FindItem, e: Element) -> bool {
    let n = e.children@.len();
    &&& shape(e) == request_root("FindItem"@, seq![("Traversal"@, traversal_text(f.traversal))])
    &&& n == if f.view is Some { 3int } else { 2int }
    &&& item_shape_encoded(f.item_shape, e.children@[0])
    &&& match f.view {
        Some(v) => is_leaf(e.children@[1], view_shape(v)),
        None => true,
    }
    &&& folder_list_encoded(f.parent_folder_ids@, "ParentFolderIds"@, e.children@[n - 1])
}

impl FindItem {
    /// Encodes the request as its operation element.
    pub fn to_element(&self) -> (r: Element)
        ensures
            find_item_encoded(*self, r),
    {
        let mut r = new_element(String::from_str("FindItem"));
        r.attributes.push(new_attribute("xmlns", String::from_str(MESSAGES_NS_URI)));
        r.attributes.push(new_attribute("Traversal", String::from_str(self.traversal.as_str())));
        assert(shape(r).attributes =~= request_root(
            "FindItem"@,
            seq![("Traversal"@, traversal_text(self.traversal))],
        ).attributes);
        r.children.push(self.item_shape.to_element());
        match &self.view {
            Some(v) => r.children.push(v.to_element()),
            None => {},
        }
        let mut ids = new_element(String::from_str("ParentFolderIds"));
        ids.children = folder_ids_to_elements(&self.parent_folder_ids);
        r.children.push(ids);
        r
    }
}

#[derive(Clone, Debug, PartialEq, Eq)]
/// The result of one find request.
pub struct FindItemResponseMessage {
    /// The root folder's paging state and items, read from the
    /// `RootFolder` child.
    pub root: RootFolder,
}

#[derive(Clone, Debug, PartialEq, Eq)]
/// The paging state of a search and the items it found.
pub struct RootFolder {
    /// The next index to use with an indexed paging view.
    pub indexed_paging_offset: Option<usize>,
    /// The next numerator to use with a fractional paging view.
    pub numerator_offset: Option<usize>,
    /// The next denominator to use with a fractional paging view.
    pub absolute_denominator: Option<usize>,
    /// The number of items that the view holds.
    pub total_items_in_view: Option<usize>,
    /// Whether the results hold the last item of the view.
    pub includes_last_item_in_range: Option<bool>,
    pub items: Option<Items>,
    pub groups: Option<Groups>,
}

#[derive(Clone, Debug, PartialEq, Eq)]
pub struct Groups {
    pub inner: Option<GroupedItems>,
}

#[derive(Clone, Debug, PartialEq, Eq)]
pub struct GroupedItems {
    pub group_index: Option<usize>,
    pub items: Option<Items>,
}

pub open spec fn grouped_items_valid(e: Element) -> bool {
    optional_usize_valid(child_text(e, "GroupIndex"@)) && optional_items_valid(e, "Items"@)
}

pub open spec fn grouped_items_decodes(e: Element, g: GroupedItems) -> bool {
    optional_usize_ok(child_text(e, "GroupIndex"@), g.group_index) && optional_items_ok(
        e,
        "Items"@,
        g.items,
    )
}

/// A group's fields stand directly in the `Groups` element; a group with no
/// index and no items is absent.
pub open spec fn groups_valid(e: Element) -> bool {
    grouped_items_valid(e)
}

pub open spec fn groups_decodes(e: Element, g: Groups) -> bool {
    if child(e, "GroupIndex"@) is None && child(e, "Items"@) is None {
        g.inner is None
    } else {
        g.inner matches Some(x) && grouped_items_decodes(e, x)
    }
}

impl Groups {
    pub fn from_element(e: &Element) -> (r: Result<Groups, DecodeError>)
        ensures
            r is Ok <==> groups_valid(*e),
            r matches Ok(g) ==> groups_decodes(*e, g),
    {
        let group_index = optional_child_usize(e, "GroupIndex")?;
        let items = optional_items(e, "Items")?;
        if group_index.is_none() && items.is_none() {
            Ok(Groups { inner: None })
        } else {
            Ok(Groups { inner: Some(GroupedItems { group_index, items }) })
        }
    }
}

pub open spec fn root_folder_valid(e: Element) -> bool {
    &&& optional_usize_valid(attribute(e, "IndexedPagingOffset"@))
    &&& optional_usize_valid(attribute(e, "NumeratorOffset"@))
    &&& optional_usize_valid(attribute(e, "AbsoluteDenominator"@))
    &&& optional_usize_valid(attribute(e, "TotalItemsInView"@))
    &&& optional_bool_valid(attribute(e, "IncludesLastItemInRange"@))
    &&& optional_items_valid(e, "Items"@)
    &&& (child(e, "Groups"@) matches Some(c) ==> groups_valid(c))
}

pub open spec fn root_folder_decodes(e: Element, r: RootFolder) -> bool {
    &&& optional_usize_ok(attribute(e, "IndexedPagingOffset"@), r.indexed_paging_offset)
    &&& optional_usize_ok(attribute(e, "NumeratorOffset"@), r.numerator_offset)
    &&& optional_usize_ok(attribute(e, "AbsoluteDenominator"@), r.absolute_denominator)
    &&& optional_usize_ok(attribute(e, "TotalItemsInView"@), r.total_items_in_view)
    &&& optional_bool_ok(attribute(e, "IncludesLastItemInRange"@), r.includes_last_item_in_range)
    &&& optional_items_ok(e, "Items"@, r.items)
    &&& match child(e, "Groups"@) {
        Some(c) => r.groups matches Some(g) && groups_decodes(c, g),
        None => r.groups is None,
    }
}

impl RootFolder {
    /// Decodes the paging attributes and the items or groups of a root folder.
    pub fn from_element(e: &Element) -> (r: Result<RootFolder, DecodeError>)
        ensures
            r is Ok <==> root_folder_valid(*e),
            r matches Ok(f) ==> root_folder_decodes(*e, f),
    {
        let indexed_paging_offset = optional_attribute_usize(e, "IndexedPagingOffset")?;
        let numerator_offset = optional_attribute_usize(e, "NumeratorOffset")?;
        let absolute_denominator = optional_attribute_usize(e, "AbsoluteDenominator")?;
        let total_items_in_view = optional_attribute_usize(e, "TotalItemsInView")?;
        let includes_last_item_in_range = optional_attribute_bool(e, "IncludesLastItemInRange")?;
        let items = optional_items(e, "Items")?;
        let groups = match find_child(e, "Groups") {
            Some(i) => Some(Groups::from_element(&e.children[i])?),
            None => None,
        };
        Ok(RootFolder {
            indexed_paging_offset,
            numerator_offset,
            absolute_denominator,
            total_items_in_view,
            includes_last_item_in_range,
            items,
            groups,
        })
    }
}

impl ResponseMessage for FindItemResponseMessage {
    open spec fn payload_valid(e: Element) -> bool {
        child(e, "RootFolder"@) matches Some(c) && root_folder_valid(c)
    }

    open spec fn payload_decodes(e: Element, v: Self) -> bool {
        child(e, "RootFolder"@) matches Some(c) && root_folder_decodes(c, v.root)
    }

    fn decode_payload(e: &Element) -> (r: Result<Self, DecodeError>) {
        match find_child(e, "RootFolder") {
            Some(i) => {
                let root = RootFolder::from_element(&e.children[i])?;
                Ok(FindItemResponseMessage { root })
            },
            None => Err(DecodeError::MissingField(String::from_str("RootFolder"))),
        }
    }
}

#[derive(Clone, Debug, PartialEq, Eq)]
/// The response to a find request.
pub struct FindItemResponse {
    pub response_messages: ResponseMessages<FindItemResponseMessage>,
}

impl FindItemResponse {
    /// Decodes a response document into its classified messages.
    pub fn from_element(doc: &Element) -> (r: Result<FindItemResponse, DecodeError>)
        ensures
            r is Ok <==> crate::response::messages_container(*doc) is Some,
            r matches Ok(m) ==> crate::response::messages_container(*doc) matches Some(c)
                && crate::response::outcomes_of(c, m.response_messages.response_messages@),
    {
        let response_messages = crate::response::parse_envelope(doc)?;
        Ok(FindItemResponse { response_messages })
    }
}

/// Flattening: a view is written as its own element, spliced between the item
/// shape and the folder list, with no wrapper; the root and the other children
/// are those of the same request without the view.
pub proof fn lemma_find_item_flatten(f: FindItem, e: Element, g: FindItem, e2: Element, v: ItemView)
    requires
        f.view == Some(v),
        g.view is None,
        g.traversal == f.traversal,
        g.item_shape == f.item_shape,
        g.parent_folder_ids == f.parent_folder_ids,
        find_item_encoded(f, e),
        find_item_encoded(g, e2),
    ensures
        shape(e) == shape(e2),
        e.children@.len() == e2.children@.len() + 1,
        is_leaf(e.children@[1], view_shape(v)),
        shape(e.children@[0]) == shape(e2.children@[0]),
        shape(e.children@[2]) == shape(e2.children@[1]),
        shapes(e.children@[2].children@) == shapes(e2.children@[1].children@),
{
}

} // verus!
