//! Core of a Solana JSON-RPC client: request framing, the reading of HTTP
//! responses, and the PubSub dispatcher, each with its contract. The network
//! side (fetch, WebSocket, timers) drives these from outside.

use vstd::prelude::*;
use crate::provider::{HttpProvider, HttpProviderView, RequestIds, ResponseOutcome, response_outcome, successor_id};
use crate::rpc::{request_text};

pub mod channel;
pub mod error;
pub mod json;
pub mod provider;
pub mod pubsub;
pub mod rpc;
pub mod text;

verus! {

/// Solana JSON-RPC client over HTTP: an endpoint and its settings.
#[derive(Debug)]
pub struct WasmClient {
    provider: HttpProvider,
}

impl View for WasmClient {
    type V = HttpProviderView;

    closed spec fn view(&self) -> HttpProviderView {
        self.provider@
    }
}

impl Clone for WasmClient {
    /// A client with the same settings; clones draw ids from the counter
    /// their caller shares between them.
    fn clone(&self) -> (c: Self)
        ensures
            c@ == self@,
    {
        WasmClient { provider: self.provider.clone() }
    }
}

impl WasmClient {
    /// A client for the JSON-RPC HTTP endpoint `url`.
    pub fn new(url: &str) -> (c: Self)
        ensures
            c@ == HttpProvider::new_view(url@),
    {
        WasmClient { provider: HttpProvider::new(url) }
    }

    /// The endpoint URL this client was constructed with.
    pub fn url(&self) -> (u: &str)
        ensures
            u@ == self@.url,
    {
        self.provider.url()
    }

    /// Attach a header that will be sent with every request.
    pub fn with_header(self, key: &str, value: &str) -> (c: Self)
        ensures
            c@ == (HttpProviderView { headers: self@.headers.push((key@, value@)), ..self@ }),
    {
        WasmClient { provider: self.provider.with_header(key, value) }
    }

    /// Set the maximum response body size in bytes.
    pub fn with_max_response_size(self, bytes: usize) -> (c: Self)
        ensures
            c@ == (HttpProviderView { max_response_size: bytes, ..self@ }),
    {
        WasmClient { provider: self.provider.with_max_response_size(bytes) }
    }

    /// The provider that holds the endpoint's settings.
    pub fn provider(&self) -> (p: &HttpProvider)
        ensures
            p@ == self@,
    {
        &self.provider
    }

    /// Frame the body of a request to `method` with the JSON text `params`,
    /// under the next id of the counter `ids` that the client's clones share.
    pub fn request_body(&self, ids: &mut RequestIds, method: &str, params: &str) -> (body: String)
        ensures
            final(ids)@ == successor_id(old(ids)@),
            body@ == request_text(successor_id(old(ids)@) as nat, method@, params@),
    {
        self.provider.request_body(ids, method, params)
    }

    /// Read a response with status `status` and body `text`.
    pub fn interpret_response(&self, status: u16, text: &str) -> (r: ResponseOutcome)
        ensures
            response_outcome(status, text@, self@.max_response_size, r),
    {
        self.provider.interpret_response(status, text)
    }
}

} // verus!
