//! Typed codec for the Exchange Web Services XML protocol: request values are
//! encoded into XML elements and text, and response envelopes are parsed back
//! into classified, typed outcomes.
pub mod datetime;
pub mod fields;
pub mod find_item;
pub mod get_attachment;
pub mod get_server_timezones;
pub mod literal;
pub mod parser;
pub mod response;
pub mod timezone;
pub mod types;
pub mod xml;

pub use find_item::{
    FindItem, FindItemResponse, FindItemResponseMessage, GroupedItems, Groups, RootFolder,
    Traversal,
};
pub use datetime::DateTime;
pub use get_attachment::{
    Attachment, AttachmentId, AttachmentShape, Attachments, BodyType, GetAttachment,
    GetAttachmentResponse, GetAttachmentResponseMessage,
};
pub use get_server_timezones::{
    GetServerTimeZones, GetServerTimeZonesResponse, GetServerTimeZonesResponseMessage,
};
pub use literal::DecodeError;
pub use parser::parse_document;
pub use response::{ResponseClass, ResponseError, ResponseMessages};
pub use timezone::{
    AbsoluteDateTransition, Period, Periods, RecurringDateTransition, RecurringDayTransition,
    TimeZoneDefinition, TimeZoneDefinitions, TimeZoneId, Transition, Transitions,
    TransitionsGroups,
};
pub use types::{
    BaseFolderId, BasePoint, BaseShape, ItemId, ItemShape, ItemView, Items, Message,
    PathToElement, RealItem,
};
pub use xml::{to_xml, Attribute, Element};
