//! Transforms of single handler functions: method-route binding, the
//! error-to-JSON adaptation, and the adaptation of an asynchronous entry point.
use vstd::prelude::*;

verus! {

/// The HTTP method a handler is bound to.
#[derive(Debug, PartialEq, Eq, Structural, Clone, Copy)]
pub enum HttpMethod {
    Get,
    Post,
    Put,
    Delete,
    Head,
    Connect,
    Options,
    Trace,
    Patch,
}

pub open spec fn method_name(m: HttpMethod) -> Seq<char> {
    match m {
        HttpMethod::Get => "GET"@,
        HttpMethod::Post => "POST"@,
        HttpMethod::Put => "PUT"@,
        HttpMethod::Delete => "DELETE"@,
        HttpMethod::Head => "HEAD"@,
        HttpMethod::Connect => "CONNECT"@,
        HttpMethod::Options => "OPTIONS"@,
        HttpMethod::Trace => "TRACE"@,
        HttpMethod::Patch => "PATCH"@,
    }
}

impl HttpMethod {
    /// The method's name on the wire.
    pub fn name(&self) -> (r: String)
        ensures
            r@ == method_name(*self),
    {
        match self {
            HttpMethod::Get => String::from_str("GET"),
            HttpMethod::Post => String::from_str("POST"),
            HttpMethod::Put => String::from_str("PUT"),
            HttpMethod::Delete => String::from_str("DELETE"),
            HttpMethod::Head => String::from_str("HEAD"),
            HttpMethod::Connect => String::from_str("CONNECT"),
            HttpMethod::Options => String::from_str("OPTIONS"),
            HttpMethod::Trace => String::from_str("TRACE"),
            HttpMethod::Patch => String::from_str("PATCH"),
        }
    }
}

/// One entry of the JSON error envelope: `{"detail": "..."}`.
pub struct ErrorDetail {
    pub detail: String,
}

/// The JSON error envelope `{"errors": [{"detail": "..."}]}`.
pub struct ErrorMsg {
    pub errors: Vec<ErrorDetail>,
}

/// Whether an envelope holds exactly one entry, whose detail is `msg`.
pub open spec fn is_envelope_of(e: ErrorMsg, msg: Seq<char>) -> bool {
    e.errors@.len() == 1 && e.errors@[0].detail@ == msg
}

/// The error envelope of one message.
pub fn quick_err(msg: String) -> (r: ErrorMsg)
    ensures
        is_envelope_of(r, msg@),
{
    let mut errors: Vec<ErrorDetail> = Vec::new();
    errors.push(ErrorDetail { detail: msg });
    ErrorMsg { errors }
}

/// The status of the response that carries the error envelope: 200 OK.
pub const ENVELOPE_STATUS: u16 = 200;

/// What a wrapped handler answers with: the implementation's value, or a
/// success-class response carrying the error envelope.
pub enum JsonReply<T> {
    Value(T),
    Error { status: u16, body: ErrorMsg },
}

/// The reply of an error-to-JSON wrapper, given what its implementation
/// function returned, with the error already in its debug text.
pub fn to_json_reply<T>(outcome: Result<T, String>) -> (r: JsonReply<T>)
    ensures
        match outcome {
            Ok(v) => r == JsonReply::<T>::Value(v),
            Err(text) => r matches JsonReply::Error { status, body } && status == ENVELOPE_STATUS
                && is_envelope_of(body, text@),
        },
{
    match outcome {
        Ok(v) => JsonReply::Value(v),
        Err(text) => JsonReply::Error { status: ENVELOPE_STATUS, body: quick_err(text) },
    }
}

/// A parameter of a handler's signature.
pub enum FnParam {
    /// `self`, `&self`, `&mut self`.
    Receiver,
    /// A typed parameter bound to a plain identifier.
    Ident(String),
    /// A typed parameter bound by a destructuring pattern.
    Pattern,
}

/// The shape of the two functions that the error-to-JSON adaptation emits.
pub struct ErrorToJson {
    /// The name of the implementation function, which keeps the handler's body.
    pub impl_name: String,
    /// The arguments that the wrapper forwards, by name, in order.
    pub args: Vec<String>,
}

pub open spec fn impl_name_of(name: Seq<char>) -> Seq<char> {
    seq!['_'] + name + "_impl"@
}

/// The identifiers of the parameters bound to plain identifiers, in order.
pub open spec fn forwarded(params: Seq<FnParam>, n: int) -> Seq<Seq<char>>
    decreases n,
{
    if 0 < n <= params.len() {
        match params[n - 1] {
            FnParam::Ident(s) => forwarded(params, n - 1).push(s@),
            _ => forwarded(params, n - 1),
        }
    } else {
        Seq::empty()
    }
}

/// Plans the error-to-JSON adaptation of the handler `name`: the body moves
/// to `_<name>_impl`, which the wrapper calls with its parameters by name;
/// the wrapper answers with [`to_json_reply`] of what that call returned, its
/// error in debug text.
pub fn error_to_json(name: &str, params: &Vec<FnParam>) -> (r: ErrorToJson)
    ensures
        r.impl_name@ == impl_name_of(name@),
        r.args@.map_values(|s: String| s@) == forwarded(params@, params@.len() as int),
{
    let mut impl_name = String::from_str("_");
    impl_name.append(name);
    impl_name.append("_impl");
    proof {
        reveal_strlit("_");
    }
    assert(impl_name@ =~= impl_name_of(name@));
    let mut args: Vec<String> = Vec::new();
    let mut i: usize = 0;
    assert(args@.map_values(|s: String| s@) =~= Seq::<Seq<char>>::empty());
    while i < params.len()
        invariant
            i <= params@.len(),
            args@.map_values(|s: String| s@) == forwarded(params@, i as int),
        decreases params@.len() - i,
    {
        let ghost before = args@;
        match &params[i] {
            FnParam::Ident(s) => {
                args.push(s.clone());
                assert(args@.map_values(|s: String| s@) =~= before.map_values(|s: String| s@).push(
                    s@,
                ));
            },
            _ => {},
        }
        i = i + 1;
    }
    ErrorToJson { impl_name, args }
}

/// Why an entry point cannot be adapted.
#[derive(Debug, PartialEq, Eq, Structural, Clone, Copy)]
pub enum EntryError {
    NotAsync,
}

impl EntryError {
    /// The diagnostic shown to the developer.
    pub fn message(&self) -> (r: String)
        ensures
            r@ == "only async fn is supported"@,
    {
        String::from_str("only async fn is supported")
    }
}

/// Whether an entry point can be turned into a synchronous one that drives
/// its body on an event loop: only an asynchronous function can.
pub fn adapt_entry(is_async: bool) -> (r: Result<(), EntryError>)
    ensures
        r is Ok <==> is_async,
        r is Err ==> r == Err::<(), EntryError>(EntryError::NotAsync),
{
    if is_async {
        Ok(())
    } else {
        Err(EntryError::NotAsync)
    }
}

} // verus!
