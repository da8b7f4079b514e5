//! The two messages of an exchange with the host.

use crate::query::{ParamsView, QueryParams};
use vstd::prelude::*;

verus! {

/// What the bridge asks of the host: on the wire
/// `{"action": string, "params": {string: [string]}, "body": string}`.
#[derive(Debug, PartialEq, Eq)]
pub struct OutboundMessage {
    /// The path of the request, without the slashes that it starts with.
    pub action: String,
    /// The parameters of the query string.
    pub params: QueryParams,
    /// The body of the request as text.
    pub body: String,
}

/// The model of an [`OutboundMessage`].
pub struct OutboundView {
    pub action: Seq<char>,
    pub params: ParamsView,
    pub body: Seq<char>,
}

impl View for OutboundMessage {
    type V = OutboundView;

    open spec fn view(&self) -> OutboundView {
        OutboundView { action: self.action@, params: self.params@, body: self.body@ }
    }
}

/// What the host answers: on the wire
/// `{"responseStatusCode": number, "data": any}`.
#[derive(Debug, PartialEq, Eq)]
pub struct InboundMessage {
    /// The status that the HTTP response is to have.
    pub response_status_code: u16,
    /// The JSON text of `data`, which becomes the body of the response as it
    /// is.
    pub data: String,
}

/// The model of an [`InboundMessage`].
pub struct InboundView {
    pub response_status_code: u16,
    pub data: Seq<char>,
}

impl View for InboundMessage {
    type V = InboundView;

    open spec fn view(&self) -> InboundView {
        InboundView { response_status_code: self.response_status_code, data: self.data@ }
    }
}

} // verus!
