//! The messages that a transfer moves, and the entries of the batch requests
//! made for them.
//!
//! These are plain records. Each has a view in which text is a `Seq<char>`,
//! bytes are a `Seq<u8>` and a list is a `Seq`; the contracts of the transfer
//! logic are stated over those views.

use vstd::prelude::*;

verus! {

/// A user-defined attribute that travels with a message.
#[derive(Clone, Debug, PartialEq, Eq)]
pub struct MessageAttribute {
    pub name: String,
    pub data_type: String,
    pub string_value: Option<String>,
    pub binary_value: Option<Vec<u8>>,
    pub string_list_values: Option<Vec<String>>,
    pub binary_list_values: Option<Vec<Vec<u8>>>,
}

/// What a `MessageAttribute` holds.
pub struct AttributeView {
    pub name: Seq<char>,
    pub data_type: Seq<char>,
    pub string_value: Option<Seq<char>>,
    pub binary_value: Option<Seq<u8>>,
    pub string_list_values: Option<Seq<Seq<char>>>,
    pub binary_list_values: Option<Seq<Seq<u8>>>,
}

impl View for MessageAttribute {
    type V = AttributeView;

    open spec fn view(&self) -> AttributeView {
        AttributeView {
            name: self.name@,
            data_type: self.data_type@,
            string_value: self.string_value.deep_view(),
            binary_value: self.binary_value.deep_view(),
            string_list_values: self.string_list_values.deep_view(),
            binary_list_values: self.binary_list_values.deep_view(),
        }
    }
}

impl DeepView for MessageAttribute {
    type V = AttributeView;

    open spec fn deep_view(&self) -> AttributeView {
        self@
    }
}

/// A message as fetched from the source queue.
///
/// `receipt_handle` is the token that acknowledges the message: the source
/// queue deletes the message when the token is handed back to it.
#[derive(Clone, Debug, PartialEq, Eq)]
pub struct Message {
    pub body: Option<String>,
    pub receipt_handle: Option<String>,
    pub attributes: Option<Vec<MessageAttribute>>,
}

/// What a `Message` holds.
pub struct MessageView {
    pub body: Option<Seq<char>>,
    pub receipt_handle: Option<Seq<char>>,
    pub attributes: Option<Seq<AttributeView>>,
}

impl View for Message {
    type V = MessageView;

    open spec fn view(&self) -> MessageView {
        MessageView {
            body: self.body.deep_view(),
            receipt_handle: self.receipt_handle.deep_view(),
            attributes: self.attributes.deep_view(),
        }
    }
}

impl DeepView for Message {
    type V = MessageView;

    open spec fn deep_view(&self) -> MessageView {
        self@
    }
}

/// One entry of a batched send request to the destination queue.
#[derive(Clone, Debug, PartialEq, Eq)]
pub struct SendEntry {
    pub id: String,
    pub body: String,
    pub attributes: Option<Vec<MessageAttribute>>,
}

/// What a `SendEntry` holds.
pub struct SendEntryView {
    pub id: Seq<char>,
    pub body: Seq<char>,
    pub attributes: Option<Seq<AttributeView>>,
}

impl View for SendEntry {
    type V = SendEntryView;

    open spec fn view(&self) -> SendEntryView {
        SendEntryView {
            id: self.id@,
            body: self.body@,
            attributes: self.attributes.deep_view(),
        }
    }
}

impl DeepView for SendEntry {
    type V = SendEntryView;

    open spec fn deep_view(&self) -> SendEntryView {
        self@
    }
}

/// One entry of a batched delete request to the source queue.
#[derive(Clone, Debug, PartialEq, Eq)]
pub struct DeleteEntry {
    pub id: String,
    pub receipt_handle: String,
}

/// What a `DeleteEntry` holds.
pub struct DeleteEntryView {
    pub id: Seq<char>,
    pub receipt_handle: Seq<char>,
}

impl View for DeleteEntry {
    type V = DeleteEntryView;

    open spec fn view(&self) -> DeleteEntryView {
        DeleteEntryView { id: self.id@, receipt_handle: self.receipt_handle@ }
    }
}

impl DeepView for DeleteEntry {
    type V = DeleteEntryView;

    open spec fn deep_view(&self) -> DeleteEntryView {
        self@
    }
}

} // verus!
