use crate::parser::{parse_request, request_of, well_formed};
use crate::shims::{lowercase_of, utf8_lossy};
use crate::text::{
    has_prefix, lemma_empty_literal, lemma_split_nonempty, same_text, split_at, split_text,
    to_chars, Delimiter,
};
use crate::types::{Action, Event, ParsedRequest, Phase, Request, RequestState, Route, Step};
use crate::utilities::{
    body_can_be_sent, get_request, header_map, is_reply, law_reply_begins_with_status_line,
    negotiated, return_http_response,
};
use vstd::utf8::encode_utf8;
use vstd::hash_map::StringHashMap;
use vstd::prelude::*;

verus! {

/// Whether the headers ask for the connection to end after this request:
/// a `Connection` header that reads exactly `close`.
pub open spec fn wants_close(headers: Map<Seq<char>, Seq<char>>) -> bool {
    headers.contains_key("connection"@) && headers["connection"@] == "close"@
}

/// The `Accept-Encoding` header, empty when absent.
pub open spec fn accepted(headers: Map<Seq<char>, Seq<char>>) -> Seq<char> {
    if headers.contains_key("accept-encoding"@) {
        headers["accept-encoding"@]
    } else {
        Seq::empty()
    }
}

/// Works out a request's state from its headers.
pub fn request_state(headers: &StringHashMap<String>) -> (state: RequestState)
    ensures
        state.close_connection == wants_close(header_map(headers)),
        state.accept_encoding@ == accepted(header_map(headers)),
{
    let close_connection = match headers.get("connection") {
        Some(value) => same_text(value.as_str(), "close"),
        None => false,
    };
    let accept_encoding = match headers.get("accept-encoding") {
        Some(value) => value.clone(),
        None => String::new(),
    };
    RequestState { close_connection, accept_encoding }
}

/// Where a target leads, given the target in lower case. The echo prefix
/// is matched without regard to case, the other routes exactly.
pub open spec fn route_of(target: Seq<char>, lowered: Seq<char>) -> Route {
    if target == "/"@ {
        Route::Base
    } else if "/echo/"@.is_prefix_of(lowered) {
        Route::Echo
    } else if target == "/user-agent"@ {
        Route::UserAgent
    } else if "/files/"@.is_prefix_of(target) {
        Route::Files
    } else {
        Route::Unknown
    }
}

/// Chooses the route for a target, given the target in lower case.
pub fn route_for(target: &str, lowered: &str) -> (route: Route)
    ensures
        route == route_of(target@, lowered@),
{
    if same_text(target, "/") {
        Route::Base
    } else if has_prefix(to_chars(lowered).as_slice(), to_chars("/echo/").as_slice()) {
        Route::Echo
    } else if same_text(target, "/user-agent") {
        Route::UserAgent
    } else if has_prefix(to_chars(target).as_slice(), to_chars("/files/").as_slice()) {
        Route::Files
    } else {
        Route::Unknown
    }
}

/// The last of a target's segments between slashes.
pub open spec fn last_segment(target: Seq<char>) -> Seq<char> {
    split_at(target, Delimiter::Char('/')).last()
}

/// Answers an echo request: 200 with the target's last segment as body.
pub fn handle_echo(request_target: &str, request_context: &RequestState) -> (bytes: Vec<u8>)
    ensures
        is_reply(
            bytes@,
            "200"@,
            last_segment(request_target@),
            None,
            request_context.close_connection,
            request_context.accept_encoding@,
        ),
{
    let chars = to_chars(request_target);
    let parts = split_text(chars.as_slice(), Delimiter::Char('/'));
    proof {
        lemma_split_nonempty(request_target@, Delimiter::Char('/'));
    }
    let content = &parts[parts.len() - 1];
    return_http_response("200", content.as_str(), None, request_context)
}

/// What answers a request for the client's own `User-Agent`: 200 with the
/// header's value, or 400 where the request has no such header.
pub open spec fn user_agent_reply(
    bytes: Seq<u8>,
    headers: Map<Seq<char>, Seq<char>>,
    close: bool,
    accept: Seq<char>,
) -> bool {
    if headers.contains_key("user-agent"@) {
        is_reply(bytes, "200"@, headers["user-agent"@], None, close, accept)
    } else {
        is_reply(bytes, "400"@, Seq::empty(), None, close, accept)
    }
}

/// Answers a request for the client's own `User-Agent`.
pub fn handle_user_agent(
    headers: &StringHashMap<String>,
    request_context: &RequestState,
) -> (bytes: Vec<u8>)
    ensures
        user_agent_reply(
            bytes@,
            header_map(headers),
            request_context.close_connection,
            request_context.accept_encoding@,
        ),
{
    proof {
        lemma_empty_literal();
    }
    match headers.get("user-agent") {
        Some(header_value) => return_http_response(
            "200",
            header_value.as_str(),
            None,
            request_context,
        ),
        None => return_http_response("400", "", None, request_context),
    }
}

/// Answers a request for the root: 200 with an empty body.
pub fn handle_base_request(request_context: &RequestState) -> (bytes: Vec<u8>)
    ensures
        is_reply(
            bytes@,
            "200"@,
            Seq::empty(),
            None,
            request_context.close_connection,
            request_context.accept_encoding@,
        ),
{
    proof {
        lemma_empty_literal();
    }
    return_http_response("200", "", None, request_context)
}

/// Whether an action is to send an answer with the given status, body and
/// content type.
pub open spec fn answers(
    action: Action,
    code: Seq<char>,
    body: Seq<char>,
    content_type: Option<Seq<char>>,
    close: bool,
    accept: Seq<char>,
) -> bool {
    action matches Action::Reply(bytes) && is_reply(
        bytes@,
        code,
        body,
        content_type,
        close,
        accept,
    )
}

/// Whether a request under the file route is left without any answer: the
/// target names a file, and the method is neither `GET` nor `POST`.
pub open spec fn unanswered_file_request(request: Request) -> bool {
    split_at(request.target, Delimiter::Char('/')).len() == 3 && request.method != "GET"@
        && request.method != "POST"@
}

/// Whether an action is the one for a request under the file route. A
/// target of other than three segments is refused with 400. `GET` asks for
/// the file named by the third segment, `POST` stores the body under that
/// name, and every other method is passed over in silence.
pub open spec fn file_action(action: Action, request: Request, close: bool, accept: Seq<char>) -> bool {
    let parts = split_at(request.target, Delimiter::Char('/'));
    if parts.len() != 3 {
        answers(action, "400"@, Seq::empty(), None, close, accept)
    } else if request.method == "GET"@ {
        action matches Action::Fetch { name, headers, context } && name@ == parts[2] && header_map(
            &headers,
        ) == request.headers && context.close_connection == close && context.accept_encoding@
            == accept
    } else if request.method == "POST"@ {
        action matches Action::Store { name, body, context } && name@ == parts[2] && body@
            == request.body && context.close_connection == close && context.accept_encoding@
            == accept
    } else {
        action is Silence
    }
}

/// Decides what a request under the file route asks for.
pub fn handle_file_request(
    request_target: &str,
    method: &str,
    headers: StringHashMap<String>,
    request_body: String,
    request_context: RequestState,
) -> (action: Action)
    ensures
        file_action(
            action,
            Request {
                method: method@,
                target: request_target@,
                headers: header_map(&headers),
                body: request_body@,
            },
            request_context.close_connection,
            request_context.accept_encoding@,
        ),
{
    proof {
        lemma_empty_literal();
    }
    let chars = to_chars(request_target);
    let full_path = split_text(chars.as_slice(), Delimiter::Char('/'));
    if full_path.len() != 3 {
        return Action::Reply(return_http_response("400", "", None, &request_context));
    }
    let file_name = full_path[2].clone();
    if same_text(method, "GET") {
        Action::Fetch { name: file_name, headers, context: request_context }
    } else if same_text(method, "POST") {
        Action::Store { name: file_name, body: request_body, context: request_context }
    } else {
        Action::Silence
    }
}

/// The content type of a served file: the request's own `Content-Type`, or
/// that of arbitrary bytes.
pub open spec fn file_content_type(headers: Map<Seq<char>, Seq<char>>) -> Seq<char> {
    if headers.contains_key("content-type"@) {
        headers["content-type"@]
    } else {
        "application/octet-stream"@
    }
}

/// What answers a `GET` under the file route, given the file's contents where
/// it exists: 200 with the contents, or 404.
pub open spec fn fetch_reply(
    bytes: Seq<u8>,
    contents: Option<Seq<char>>,
    headers: Map<Seq<char>, Seq<char>>,
    close: bool,
    accept: Seq<char>,
) -> bool {
    match contents {
        Some(text) => is_reply(
            bytes,
            "200"@,
            text,
            Some(file_content_type(headers)),
            close,
            accept,
        ),
        None => is_reply(bytes, "404"@, Seq::empty(), None, close, accept),
    }
}

/// Answers a `GET` under the file route. `contents` is `None` where the file
/// does not exist.
pub fn handle_file_request_get(
    contents: Option<&str>,
    headers: &StringHashMap<String>,
    request_context: &RequestState,
) -> (bytes: Vec<u8>)
    ensures
        fetch_reply(
            bytes@,
            match contents {
                Some(text) => Some(text@),
                None => None,
            },
            header_map(headers),
            request_context.close_connection,
            request_context.accept_encoding@,
        ),
{
    proof {
        lemma_empty_literal();
    }
    match contents {
        None => return_http_response("404", "", None, request_context),
        Some(content) => {
            let content_type: &str = match headers.get("content-type") {
                Some(value) => value.as_str(),
                None => "application/octet-stream",
            };
            return_http_response("200", content, Some(content_type), request_context)
        },
    }
}

/// Answers a `POST` under the file route: 201 where the body was written,
/// 500 where writing failed.
pub fn handle_file_request_post(stored: bool, request_context: &RequestState) -> (bytes: Vec<u8>)
    ensures
        is_reply(
            bytes@,
            if stored {
                "201"@
            } else {
                "500"@
            },
            Seq::empty(),
            None,
            request_context.close_connection,
            request_context.accept_encoding@,
        ),
{
    proof {
        lemma_empty_literal();
    }
    if stored {
        return_http_response("201", "", None, request_context)
    } else {
        return_http_response("500", "", None, request_context)
    }
}

/// A body stored under a name is what a later request for that name is
/// answered with: a `POST` and a `GET` of one target under the file route
/// name the same file, the `POST` stores its body there, and the `GET`,
/// given that body as the file's contents, is answered with 200 as long as
/// the body can be sent as negotiated. Without a negotiated encoding the
/// answer ends with the body's bytes.
pub proof fn law_stored_file_is_served(
    post: Request,
    get: Request,
    stored: Action,
    fetched: Action,
    bytes: Seq<u8>,
    post_close: bool,
    post_accept: Seq<char>,
    close: bool,
    accept: Seq<char>,
)
    requires
        post.method == "POST"@,
        get.method == "GET"@,
        post.target == get.target,
        split_at(get.target, Delimiter::Char('/')).len() == 3,
        file_action(stored, post, post_close, post_accept),
        file_action(fetched, get, close, accept),
        fetch_reply(bytes, Some(post.body), get.headers, close, accept),
        body_can_be_sent(post.body, accept),
    ensures
        stored matches Action::Store { name, body, .. } && fetched matches Action::Fetch {
            name: wanted,
            ..
        } && name@ == wanted@ && body@ == post.body,
        encode_utf8("HTTP/1.1 200 OK\r\n"@).is_prefix_of(bytes),
        negotiated(accept) is None ==> encode_utf8(post.body).is_suffix_of(bytes),
{
    reveal_strlit("POST");
    reveal_strlit("GET");
    assert("POST"@.len() != "GET"@.len());
    law_reply_begins_with_status_line(
        "200"@,
        post.body,
        Some(file_content_type(get.headers)),
        close,
        accept,
    );
    if negotiated(accept) is None {
        let tail = encode_utf8(post.body);
        assert(bytes.subrange(bytes.len() - tail.len(), bytes.len() as int) =~= tail);
    }
}

/// Whether an action is the one that a request calls for, on the route
/// that its target leads to.
pub open spec fn dispatched(action: Action, request: Request, close: bool, accept: Seq<char>) -> bool {
    match route_of(request.target, lowercase_of(request.target)) {
        Route::Base => answers(action, "200"@, Seq::empty(), None, close, accept),
        Route::Echo => answers(action, "200"@, last_segment(request.target), None, close, accept),
        Route::UserAgent => action matches Action::Reply(bytes) && user_agent_reply(
            bytes@,
            request.headers,
            close,
            accept,
        ),
        Route::Files => file_action(action, request, close, accept),
        Route::Unknown => answers(action, "404"@, Seq::empty(), None, close, accept),
    }
}

/// Routes a parsed request to its handler.
pub fn dispatch(request: ParsedRequest, request_context: RequestState) -> (action: Action)
    ensures
        dispatched(
            action,
            request@,
            request_context.close_connection,
            request_context.accept_encoding@,
        ),
{
    proof {
        lemma_empty_literal();
    }
    let lowered = request.target.as_str().to_lowercase();
    match route_for(request.target.as_str(), lowered.as_str()) {
        Route::Base => Action::Reply(handle_base_request(&request_context)),
        Route::Echo => Action::Reply(handle_echo(request.target.as_str(), &request_context)),
        Route::UserAgent => Action::Reply(handle_user_agent(&request.headers, &request_context)),
        Route::Files => {
            let ParsedRequest { method, target, headers, body } = request;
            handle_file_request(target.as_str(), method.as_str(), headers, body, request_context)
        },
        Route::Unknown => Action::Reply(return_http_response("404", "", None, &request_context)),
    }
}

/// Whether an action is the refusal of a request that could not be read or
/// parsed: 400, with the connection announced as closing and no encoding.
pub open spec fn refuses(action: Action) -> bool {
    answers(action, "400"@, Seq::empty(), None, true, Seq::empty())
}

/// Whether `step` is the step that a connection in `phase` takes on
/// `event`.
///
/// A closed connection stays closed and sends nothing. A failed read is
/// refused and closes the connection; so is a frame whose request line is
/// malformed. An empty frame closes the connection in silence. Any other
/// frame is answered on its route, and the connection closes exactly when
/// its headers ask for that.
pub open spec fn steps(phase: Phase, event: Event, step: Step) -> bool {
    match phase {
        Phase::Closed => step.next is Closed && step.action is Silence,
        Phase::AwaitingRequest => match event {
            Event::ReadFailed => step.next is Closed && refuses(step.action),
            Event::Frame(frame) => {
                let text = utf8_lossy(frame@);
                if frame@.len() == 0 {
                    step.next is Closed && step.action is Silence
                } else if !well_formed(text) {
                    step.next is Closed && refuses(step.action)
                } else {
                    let request = request_of(text);
                    &&& step.next == if wants_close(request.headers) {
                        Phase::Closed
                    } else {
                        Phase::AwaitingRequest
                    }
                    &&& dispatched(
                        step.action,
                        request,
                        wants_close(request.headers),
                        accepted(request.headers),
                    )
                }
            },
        },
    }
}

/// Takes one step of a connection: decides from what was read what is sent
/// and whether the connection goes on.
pub fn handle_request(phase: Phase, event: Event) -> (step: Step)
    ensures
        steps(phase, event, step),
{
    proof {
        lemma_empty_literal();
    }
    match phase {
        Phase::Closed => Step { next: Phase::Closed, action: Action::Silence },
        Phase::AwaitingRequest => match event {
            Event::ReadFailed => {
                let default_state = RequestState::default();
                Step {
                    next: Phase::Closed,
                    action: Action::Reply(return_http_response("400", "", None, &default_state)),
                }
            },
            Event::Frame(frame) => match get_request(frame.as_slice()) {
                None => Step { next: Phase::Closed, action: Action::Silence },
                Some(text) => match parse_request(text.as_str()) {
                    Err(_) => {
                        let default_state = RequestState::default();
                        Step {
                            next: Phase::Closed,
                            action: Action::Reply(
                                return_http_response("400", "", None, &default_state),
                            ),
                        }
                    },
                    Ok(request) => {
                        let request_context = request_state(&request.headers);
                        let next = if request_context.close_connection {
                            Phase::Closed
                        } else {
                            Phase::AwaitingRequest
                        };
                        Step { next, action: dispatch(request, request_context) }
                    },
                },
            },
        },
    }
}

/// A well-formed request that carries `Connection: close` gets exactly one
/// response, after which the connection is closed; and a closed connection
/// sends nothing more, whatever is handed to it. The one request left out
/// is that under the file route with a method other than `GET` and `POST`,
/// which gets no response at all.
pub proof fn law_close_after_one_response(frame: Vec<u8>, step: Step, later: Event, after: Step)
    requires
        frame@.len() > 0,
        well_formed(utf8_lossy(frame@)),
        wants_close(request_of(utf8_lossy(frame@)).headers),
        !(route_of(
            request_of(utf8_lossy(frame@)).target,
            lowercase_of(request_of(utf8_lossy(frame@)).target),
        ) is Files && unanswered_file_request(request_of(utf8_lossy(frame@)))),
        steps(Phase::AwaitingRequest, Event::Frame(frame), step),
        steps(step.next, later, after),
    ensures
        step.action.responses() == 1,
        step.next is Closed,
        after.action.responses() == 0,
        after.next is Closed,
{
}

/// A frame whose request line is malformed is refused with 400, and the
/// connection is closed.
pub proof fn law_malformed_request_refused(frame: Vec<u8>, step: Step)
    requires
        frame@.len() > 0,
        !well_formed(utf8_lossy(frame@)),
        steps(Phase::AwaitingRequest, Event::Frame(frame), step),
    ensures
        refuses(step.action),
        step.action.responses() == 1,
        step.next is Closed,
{
}

/// A well-formed request whose target leads to no route is answered with
/// 404.
pub proof fn law_unknown_target_not_found(frame: Vec<u8>, step: Step)
    requires
        frame@.len() > 0,
        well_formed(utf8_lossy(frame@)),
        route_of(
            request_of(utf8_lossy(frame@)).target,
            lowercase_of(request_of(utf8_lossy(frame@)).target),
        ) is Unknown,
        steps(Phase::AwaitingRequest, Event::Frame(frame), step),
    ensures
        answers(
            step.action,
            "404"@,
            Seq::empty(),
            None,
            wants_close(request_of(utf8_lossy(frame@)).headers),
            accepted(request_of(utf8_lossy(frame@)).headers),
        ),
{
}

/// After a well-formed request that does not carry `Connection: close`, the
/// connection awaits the next request.
pub proof fn law_keep_alive(frame: Vec<u8>, step: Step)
    requires
        frame@.len() > 0,
        well_formed(utf8_lossy(frame@)),
        !wants_close(request_of(utf8_lossy(frame@)).headers),
        steps(Phase::AwaitingRequest, Event::Frame(frame), step),
    ensures
        step.next is AwaitingRequest,
{
}

} // verus!
