use crate::utilities::header_map;
use vstd::hash_map::StringHashMap;
use vstd::prelude::*;

verus! {

/// What one request asks of the connection and of the response's encoding.
/// It is worked out anew from the headers of every request.
pub struct RequestState {
    /// The connection ends once this request has been answered.
    pub close_connection: bool,
    /// The `Accept-Encoding` header as the client sent it, empty when absent.
    pub accept_encoding: String,
}

impl Default for RequestState {
    /// The state used when no request could be read or parsed: the connection
    /// is closed after the answer, and no encoding is on offer.
    fn default() -> (state: Self)
        ensures
            state.close_connection,
            state.accept_encoding@ == Seq::<char>::empty(),
    {
        RequestState { close_connection: true, accept_encoding: String::new() }
    }
}

/// A request as the parser understands it.
pub struct Request {
    pub method: Seq<char>,
    pub target: Seq<char>,
    /// Header values by lower-cased name.
    pub headers: Map<Seq<char>, Seq<char>>,
    pub body: Seq<char>,
}

/// A parsed request.
pub struct ParsedRequest {
    pub method: String,
    pub target: String,
    /// Header values by lower-cased name.
    pub headers: StringHashMap<String>,
    pub body: String,
}

impl View for ParsedRequest {
    type V = Request;

    open spec fn view(&self) -> Request {
        Request {
            method: self.method@,
            target: self.target@,
            headers: header_map(&self.headers),
            body: self.body@,
        }
    }
}

/// Why a request text could not be parsed.
#[derive(Clone, Copy, Debug, PartialEq, Eq, Structural)]
pub enum ParseError {
    /// The request line does not consist of exactly three words.
    MalformedRequestLine,
}

/// Where a request target leads.
#[derive(Clone, Copy, Debug, PartialEq, Eq, Structural)]
pub enum Route {
    Base,
    Echo,
    UserAgent,
    Files,
    Unknown,
}

/// Where a connection stands between two steps.
#[derive(Clone, Copy, Debug, PartialEq, Eq, Structural)]
pub enum Phase {
    /// The next frame is read from the connection.
    AwaitingRequest,
    /// The connection is finished: nothing more is read or sent.
    Closed,
}

/// What a read on the connection gave.
pub enum Event {
    /// The bytes of one read. None at all means that the peer has closed
    /// the connection.
    Frame(Vec<u8>),
    /// The read failed.
    ReadFailed,
}

/// What the connection's owner does for one step.
pub enum Action {
    /// Send nothing.
    Silence,
    /// Send these bytes.
    Reply(Vec<u8>),
    /// Look for the named file in the file directory, and send what
    /// `handle_file_request_get` makes of what is found.
    Fetch { name: String, headers: StringHashMap<String>, context: RequestState },
    /// Write the body to the named file in the file directory, and send what
    /// `handle_file_request_post` makes of the outcome.
    Store { name: String, body: String, context: RequestState },
}

impl Action {
    /// The number of responses that the action puts on the connection.
    pub open spec fn responses(&self) -> nat {
        match self {
            Action::Silence => 0,
            _ => 1,
        }
    }
}

/// One step of a connection: what to do now, and where the connection
/// stands afterwards.
pub struct Step {
    pub next: Phase,
    pub action: Action,
}

} // verus!
