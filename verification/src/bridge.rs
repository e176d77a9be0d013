//! The handoff of bytes between the host and the site: the host writes a
//! request into a buffer, asks for it to be answered, and reads the response.

use vstd::prelude::*;
use vstd::utf8::{decode_utf8, encode_utf8, valid_utf8};
use crate::reply::{Reply, ReplyView};
use crate::request::{checked, DecodeError, RawRequest, Request, RequestView};
use crate::site::{handle_request, handled, AppState, AppView};

verus! {

/// The pending request and the last response as contracts see them.
pub struct RoutingView {
    /// The bytes of the buffer that the host last asked for, if it asked.
    pub request: Option<Seq<u8>>,
    /// The response that the host can read, if there is one.
    pub response: Option<Seq<char>>,
}

/// The buffer for the request and the response that was last produced. There
/// is at most one of each.
pub struct RoutingState {
    request: Option<Vec<u8>>,
    response: Option<String>,
}

impl View for RoutingState {
    type V = RoutingView;

    closed spec fn view(&self) -> RoutingView {
        RoutingView {
            request: match self.request {
                Some(bytes) => Some(bytes@),
                None => None,
            },
            response: match self.response {
                Some(text) => Some(text@),
                None => None,
            },
        }
    }
}

/// The host's side and the site's side together.
pub struct Host {
    pub routing: RoutingState,
    pub app: AppState,
}

/// `String::from_utf8`: the text that the bytes encode, where they are valid
/// UTF-8, else nothing.
#[verifier::external_body]
fn text_of_bytes(bytes: Vec<u8>) -> (text: Option<String>)
    ensures
        text is Some <==> valid_utf8(bytes@),
        text matches Some(t) ==> t@ == decode_utf8(bytes@),
{
    String::from_utf8(bytes).ok()
}

/// The text of the pending request: where the host never asked for a buffer,
/// an empty object.
pub open spec fn request_text_of(request: Option<Seq<u8>>) -> Result<Seq<char>, DecodeError> {
    match request {
        None => Ok("{}"@),
        Some(bytes) => if valid_utf8(bytes) {
            Ok(decode_utf8(bytes))
        } else {
            Err(DecodeError::NotText)
        },
    }
}

/// What the decoded parts of a request lead to: the reply of the site where
/// they pass the checks, else the one reply that stands for every failure to
/// decode, with the state untouched.
pub open spec fn answered(app: AppView, decoded: Result<RequestView, DecodeError>) -> (
    AppView,
    ReplyView,
) {
    match decoded {
        Err(_) => (app, ReplyView::DecodeFailed),
        Ok(raw) => match checked(raw) {
            Err(_) => (app, ReplyView::DecodeFailed),
            Ok(request) => handled(app, request),
        },
    }
}

impl RoutingState {
    /// No buffer and no response.
    pub fn new() -> (state: RoutingState)
        ensures
            state@.request is None,
            state@.response is None,
    {
        RoutingState { request: None, response: None }
    }

    /// The text of the pending request.
    pub fn request_text(&self) -> (text: Result<String, DecodeError>)
        ensures
            match text {
                Ok(t) => request_text_of(self@.request) == Ok::<Seq<char>, DecodeError>(t@),
                Err(e) => request_text_of(self@.request) == Err::<Seq<char>, DecodeError>(e),
            },
    {
        match &self.request {
            None => Ok("{}".to_owned()),
            Some(bytes) => match text_of_bytes(bytes.clone()) {
                Some(text) => Ok(text),
                None => Err(DecodeError::NotText),
            },
        }
    }

    /// The buffer that the host writes the request into, if it asked for one.
    pub fn request_buffer(&mut self) -> (buffer: Option<&mut Vec<u8>>)
        ensures
            final(self)@.response == old(self)@.response,
            match buffer {
                Some(bytes) => old(self)@.request == Some(bytes@) && final(self)@.request == Some(
                    final(bytes)@,
                ),
                None => old(self)@.request is None && final(self)@.request is None,
            },
    {
        self.request.as_mut()
    }

    /// Stores a response in place of the one before it.
    pub fn set_response(&mut self, response: String)
        ensures
            final(self)@.request == old(self)@.request,
            final(self)@.response == Some(response@),
    {
        self.response = Some(response);
    }
}

/// The status that [`fetch`] and [`stop`] hand to the host, whatever happened.
pub const STATUS: usize = 0;

/// The host's view of the routing state and the rest of the host.
pub fn get_routing_state(host: &mut Host) -> (state: &mut RoutingState)
    ensures
        *state == old(host).routing,
        final(host).routing == *final(state),
        final(host).app == old(host).app,
{
    &mut host.routing
}

/// Replaces the pending request by a buffer of `size` zero bytes for the host
/// to write into, and discards the response that was there.
pub fn allocate_request(state: &mut RoutingState, size: usize) -> (buffer: &mut Vec<u8>)
    requires
        size <= isize::MAX,
    ensures
        buffer@ == Seq::new(size as nat, |i: int| 0u8),
        final(state)@.request == Some(final(buffer)@),
        final(state)@.response is None,
{
    state.response = None;
    state.request = Some(vec![0u8; size]);
    match state.request.as_mut() {
        Some(buffer) => {
            assert(buffer@ =~= Seq::new(size as nat, |i: int| 0u8));
            buffer
        },
        None => {
            proof {
                assert(false);
            }
            vstd::pervasive::unreached()
        },
    }
}

/// Answers the decoded parts of a request, or the failure to decode them.
pub fn answer(app: &mut AppState, decoded: Result<RawRequest, DecodeError>) -> (reply: Reply)
    requires
        old(app)@.clicks < u64::MAX,
    ensures
        (final(app)@, reply@) == answered(
            old(app)@,
            match decoded {
                Ok(raw) => Ok(raw@),
                Err(e) => Err(e),
            },
        ),
{
    match decoded {
        Err(_) => Reply::DecodeFailed,
        Ok(raw) => match Request::new(raw) {
            Err(_) => Reply::DecodeFailed,
            Ok(request) => handle_request(app, &request),
        },
    }
}

/// Whether `reply` and the state `after` are what the pending request leads
/// to from the state `app`, for some outcome that `decode` allows on the text
/// of the request.
pub open spec fn fetched<D: Fn(String) -> Option<RawRequest>>(
    app: AppView,
    request: Option<Seq<u8>>,
    decode: D,
    after: AppView,
    reply: ReplyView,
) -> bool {
    match request_text_of(request) {
        Err(e) => (after, reply) == answered(app, Err(e)),
        Ok(sent) => exists|text: String, decoded: Option<RawRequest>|
            #![trigger decode.ensures((text,), decoded)]
            text@ == sent && decode.ensures((text,), decoded) && (after, reply) == answered(
                app,
                match decoded {
                    Some(raw) => Ok(raw@),
                    None => Err(DecodeError::Malformed),
                },
            ),
    }
}

/// Answers the pending request: decodes its bytes, lets the site handle the
/// request, and stores the rendered reply as the response in place of the one
/// before it. `decode` turns the text of the request into its four parts, or
/// into nothing where the text does not have the shape of a request; `render`
/// turns a reply into markup. The host always finds a response afterwards,
/// and always gets the same status.
pub fn fetch<D, R>(host: &mut Host, decode: D, render: R) -> (status: usize) where
    D: Fn(String) -> Option<RawRequest>,
    R: Fn(&Reply) -> String,

    requires
        old(host).app@.clicks < u64::MAX,
        forall|text: String| decode.requires((text,)),
        forall|reply: &Reply| render.requires((reply,)),
    ensures
        status == STATUS,
        final(host).routing@.request == old(host).routing@.request,
        exists|reply: Reply, markup: String|
            #![trigger render.ensures((&reply,), markup)]
            render.ensures((&reply,), markup) && final(host).routing@.response == Some(markup@)
                && fetched(
                old(host).app@,
                old(host).routing@.request,
                decode,
                final(host).app@,
                reply@,
            ),
{
    let decoded = match host.routing.request_text() {
        Err(e) => Err(e),
        Ok(text) => {
            let ghost sent = text;
            match decode(text) {
                Some(raw) => {
                    assert(decode.ensures((sent,), Some(raw)));
                    Ok(raw)
                },
                None => {
                    assert(decode.ensures((sent,), None));
                    Err(DecodeError::Malformed)
                },
            }
        },
    };
    let reply = answer(&mut host.app, decoded);
    let markup = render(&reply);
    assert(render.ensures((&reply,), markup));
    host.routing.set_response(markup);
    STATUS
}

/// The response that the host can read, if a request was answered since the
/// host last asked for a buffer.
pub fn response_ptr(state: &RoutingState) -> (response: Option<&str>)
    ensures
        match response {
            Some(text) => state@.response == Some(text@),
            None => state@.response is None,
        },
{
    match &state.response {
        Some(text) => Some(text.as_str()),
        None => None,
    }
}

/// The length of the response in bytes of UTF-8; zero where there is none.
pub fn response_len(state: &RoutingState) -> (len: usize)
    ensures
        len == match state@.response {
            Some(text) => encode_utf8(text).len() as usize,
            None => 0usize,
        },
{
    match &state.response {
        Some(text) => text.as_str().len(),
        None => 0,
    }
}

/// Acknowledges that the host shuts down. Nothing changes.
pub fn stop() -> (status: usize)
    ensures
        status == STATUS,
{
    STATUS
}

} // verus!
