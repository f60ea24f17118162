//! The request/response protocol of the local control plane: one request per
//! connection, one response back.
use crate::text::{
    chars_of, sorted_distinct, string_from_range, strictly_sorted, strings_view, trim, trim_whitespace,
};
use vstd::prelude::*;

verus! {

/// Outside type: free-form JSON that a steering request may carry. The
/// control plane only carries it along.
#[verifier::external_type_specification]
#[verifier::external_body]
pub struct ExJsonValue(serde_json::Value);

/// How the interactive session was launched.
#[derive(Debug, Clone, Copy, PartialEq, Eq, Structural)]
pub enum LaunchKind {
    Fresh,
    Resume,
    Fork,
}

/// The status reported for the active turn.
#[derive(Debug, Clone, Copy, PartialEq, Eq, Structural)]
pub enum TurnStatus {
    InProgress,
}

/// The outcome of an `apply-steer` request.
#[derive(Debug, Clone, Copy, PartialEq, Eq, Structural)]
pub enum ApplySteerResult {
    Applied,
    RejectedNotEnabled,
    RejectedNotAuthorized,
    RejectedNoActiveTurn,
    RejectedStaleTurn,
    Duplicate,
    Error,
}

/// A request to steer the active turn with `text`.
#[derive(Debug, Clone, PartialEq)]
pub struct ApplySteerRequest {
    pub expected_turn_id: String,
    pub text: String,
    pub idempotency_key: String,
    pub metadata: Option<serde_json::Value>,
}

/// A control-plane request.
#[derive(Debug, Clone, PartialEq)]
pub enum Request {
    Status,
    CurrentSession,
    CurrentTurn,
    ApplySteer(ApplySteerRequest),
}

/// A control-plane response.
#[derive(Debug, Clone, PartialEq)]
#[allow(inconsistent_fields)]
pub enum Response {
    Status { payload: StatusPayload },
    CurrentSession { payload: Option<CurrentSessionPayload> },
    CurrentTurn { payload: Option<CurrentTurnPayload> },
    ApplySteer { payload: ApplySteerPayload },
    Error { payload: ErrorPayload },
}

/// Instance metadata and feature state.
#[derive(Debug, Clone, PartialEq, Eq)]
pub struct StatusPayload {
    pub instance_id: String,
    pub socket_path: String,
    pub launch_kind: LaunchKind,
    pub feature_enabled: bool,
    pub consent_accepted: bool,
    pub steering_enabled: bool,
    pub session_known: bool,
    pub active_turn_present: bool,
}

/// The primary session.
#[derive(Debug, Clone, PartialEq, Eq)]
pub struct CurrentSessionPayload {
    pub thread_id: String,
    pub thread_name: Option<String>,
    pub cwd: String,
    pub launch_kind: LaunchKind,
}

/// The primary thread's in-flight turn.
#[derive(Debug, Clone, PartialEq, Eq)]
pub struct CurrentTurnPayload {
    pub thread_id: String,
    pub turn_id: String,
    pub status: TurnStatus,
}

/// The answer to an `apply-steer` request.
#[derive(Debug, Clone, PartialEq, Eq)]
pub struct ApplySteerPayload {
    pub outcome: ApplySteerResult,
    pub turn_id: Option<String>,
    pub actual_turn_id: Option<String>,
    pub message: Option<String>,
}

/// A request that could not be served.
#[derive(Debug, Clone, PartialEq, Eq)]
pub struct ErrorPayload {
    pub message: String,
}

/// The characters of an optional string.
pub open spec fn opt_view(o: Option<String>) -> Option<Seq<char>> {
    match o {
        Some(s) => Some(s@),
        None => None,
    }
}

/// The mathematical content of an [`ApplySteerPayload`].
pub struct ApplySteerPayloadView {
    pub outcome: ApplySteerResult,
    pub turn_id: Option<Seq<char>>,
    pub actual_turn_id: Option<Seq<char>>,
    pub message: Option<Seq<char>>,
}

impl View for ApplySteerPayload {
    type V = ApplySteerPayloadView;

    open spec fn view(&self) -> ApplySteerPayloadView {
        ApplySteerPayloadView {
            outcome: self.outcome,
            turn_id: opt_view(self.turn_id),
            actual_turn_id: opt_view(self.actual_turn_id),
            message: opt_view(self.message),
        }
    }
}

/// A payload with only an outcome.
pub open spec fn bare_payload(outcome: ApplySteerResult) -> ApplySteerPayloadView {
    ApplySteerPayloadView { outcome, turn_id: None, actual_turn_id: None, message: None }
}

impl ApplySteerPayload {
    /// A payload with `outcome` and no turn ids or message.
    pub fn new(outcome: ApplySteerResult) -> (payload: Self)
        ensures
            payload@ == bare_payload(outcome),
    {
        ApplySteerPayload { outcome, turn_id: None, actual_turn_id: None, message: None }
    }
}

/// How many characters of the instance id name its socket.
pub const SOCKET_ID_CHARS: usize = 12;

/// The socket's file name: the first twelve characters of the instance id
/// (all of them when it is shorter), then `.sock`.
pub open spec fn socket_file_name_spec(instance_id: Seq<char>) -> Seq<char> {
    let id = if instance_id.len() <= SOCKET_ID_CHARS {
        instance_id
    } else {
        instance_id.take(SOCKET_ID_CHARS as int)
    };
    id + ".sock"@
}

/// The socket's file name for an instance id.
pub fn socket_file_name(instance_id: &str) -> (name: String)
    ensures
        name@ == socket_file_name_spec(instance_id@),
{
    let chars = chars_of(instance_id);
    let end = if chars.len() <= SOCKET_ID_CHARS {
        chars.len()
    } else {
        SOCKET_ID_CHARS
    };
    let mut name = string_from_range(&chars, 0, end);
    assert(chars@.subrange(0, end as int) =~= if chars@.len() <= SOCKET_ID_CHARS {
        chars@
    } else {
        chars@.take(SOCKET_ID_CHARS as int)
    });
    name.append(".sock");
    name
}

/// `s` ends with `suffix`.
pub open spec fn ends_with(s: Seq<char>, suffix: Seq<char>) -> bool {
    suffix.len() <= s.len() && s.skip(s.len() - suffix.len()) == suffix
}

/// A file name that every platform's path rules take as one plain path
/// component: no `/` or `\` separator, no `:` (which Windows reads as a
/// drive prefix), and neither `.` nor `..` (which name a directory, not a
/// file in it).
pub open spec fn plain_file_name(name: Seq<char>) -> bool {
    &&& forall|i: int| 0 <= i < name.len() ==> #[trigger] name[i] != '/' && name[i] != '\\' && name[i] != ':'
    &&& name != seq!['.']
    &&& name != seq!['.', '.']
}

/// What the platform puts between a directory and a name joined onto it:
/// nothing (the directory is empty, already ends in a separator, or is a bare
/// drive such as `C:`), `/`, or `\`.
pub open spec fn path_separator(sep: Seq<char>) -> bool {
    sep.len() == 0 || sep == seq!['/'] || sep == seq!['\\']
}

/// Whether a name joined onto `dir` needs a separator in between: `dir` is
/// not empty and ends in neither a separator (`/` or `\`) nor a drive's `:`.
pub open spec fn needs_separator(dir: Seq<char>) -> bool {
    dir.len() > 0 && dir.last() != '/' && dir.last() != '\\' && dir.last() != ':'
}

/// `path` is `dir`, then what the platform puts between them (a separator
/// whenever `dir` needs one), then `name`; so `dir` is the parent of `name`.
pub open spec fn joined_onto(path: Seq<char>, dir: Seq<char>, name: Seq<char>) -> bool {
    exists|sep: Seq<char>|
        #[trigger] path_separator(sep) && (needs_separator(dir) ==> sep.len() > 0) && path == dir
            + sep + name
}

/// A Windows verbatim path (`\\?\...`), which joining normalizes as a whole.
pub open spec fn verbatim_prefixed(dir: Seq<char>) -> bool {
    dir.len() >= 4 && dir[0] == '\\' && dir[1] == '\\' && dir[2] == '?' && dir[3] == '\\'
}

/// Joins a file name onto a directory with the platform's path rules.
///
/// Trusted: calls `std::path::Path::join` and renders the result with
/// `Path::display` (lossless for a path made from UTF-8 text). The standard
/// library documents `join` as `PathBuf::push` on a copy of the directory: a
/// relative name with no root and no prefix is adjoined, with the platform's
/// separator where one is needed. So a plain file name ends the result on
/// every platform, and, unless the directory is a Windows verbatim path
/// (which `push` rebuilds component by component), the result is the
/// directory, at most one separator, and the name. `push` leaves the
/// separator out only when the directory is empty, already ends in one of
/// the platform's separators, or (on Windows) is a bare drive like `C:`.
/// Which separator it puts belongs to the platform and is not stated.
#[verifier::external_body]
fn join_path(dir: &str, file_name: &str) -> (joined: String)
    ensures
        plain_file_name(file_name@) ==> ends_with(joined@, file_name@),
        plain_file_name(file_name@) && !verbatim_prefixed(dir@) ==> joined_onto(
            joined@,
            dir@,
            file_name@,
        ),
{
    std::path::Path::new(dir).join(file_name).display().to_string()
}

/// A socket file name is never `.` or `..`: it ends in `.sock`.
pub proof fn lemma_socket_file_name_not_dots(instance_id: Seq<char>)
    ensures
        socket_file_name_spec(instance_id) != seq!['.'],
        socket_file_name_spec(instance_id) != seq!['.', '.'],
{
    reveal_strlit(".sock");
    let name = socket_file_name_spec(instance_id);
    assert(name.last() == 'k');
}

/// Where an instance's socket lives: its file name (see
/// [`socket_file_name`]) inside `ipc_dir`, joined by the platform's path
/// rules. When that file name is a plain one (as it is for every generated
/// instance id), the path ends with it, and (for a directory that is not a
/// Windows verbatim path) it is the directory, a separator where one is
/// needed, and the file name.
pub fn socket_path(ipc_dir: &str, instance_id: &str) -> (path: String)
    ensures
        plain_file_name(socket_file_name_spec(instance_id@)) ==> ends_with(
            path@,
            socket_file_name_spec(instance_id@),
        ),
        plain_file_name(socket_file_name_spec(instance_id@)) && !verbatim_prefixed(ipc_dir@)
            ==> joined_onto(path@, ipc_dir@, socket_file_name_spec(instance_id@)),
{
    let name = socket_file_name(instance_id);
    join_path(ipc_dir, name.as_str())
}

/// The response to a request whose text is empty after trimming.
pub fn empty_request_response() -> (response: Response)
    ensures
        response matches Response::Error { payload } && payload.message@
            == "request must not be empty"@,
{
    Response::Error { payload: ErrorPayload { message: "request must not be empty".to_string() } }
}

/// The response to a request that does not parse; `detail` says why.
pub fn invalid_request_response(detail: &str) -> (response: Response)
    ensures
        response matches Response::Error { payload } && payload.message@
            == "invalid control-plane request: "@ + detail@,
{
    let mut message = "invalid control-plane request: ".to_string();
    message.append(detail);
    Response::Error { payload: ErrorPayload { message } }
}

/// What a request's raw text calls for: an answer at once, or parsing.
#[derive(Debug, Clone, PartialEq)]
pub enum RequestText {
    /// The text is empty after trimming; this is the answer.
    Answer(Response),
    /// The trimmed text, to parse as a request.
    Parse(String),
}

/// Reads a request's raw text: trimmed of surrounding whitespace, empty
/// text is answered with [`empty_request_response`]; any other is to be
/// parsed.
pub fn read_request_text(text: &str) -> (r: RequestText)
    ensures
        trim(text@).len() == 0 ==> (r matches RequestText::Answer(response) && response matches Response::Error { payload }
            && payload.message@ == "request must not be empty"@),
        trim(text@).len() != 0 ==> (r matches RequestText::Parse(body) && body@ == trim(text@)),
{
    let body = trim_whitespace(text);
    if body.as_str().is_empty() {
        RequestText::Answer(empty_request_response())
    } else {
        RequestText::Parse(body)
    }
}

/// The request to handle once its text was parsed, or, when parsing
/// failed with `detail`, the answer [`invalid_request_response`] gives.
pub fn parsed_request(parsed: Result<Request, String>) -> (r: Result<Request, Response>)
    ensures
        match parsed {
            Ok(request) => r == Ok::<Request, Response>(request),
            Err(detail) => r matches Err(response) && response matches Response::Error { payload }
                && payload.message@ == "invalid control-plane request: "@ + detail@,
        },
{
    match parsed {
        Ok(request) => Ok(request),
        Err(detail) => Err(invalid_request_response(detail.as_str())),
    }
}

/// The key names of a JSON value that is an object; none for any other
/// value.
pub uninterp spec fn json_object_key_names(value: serde_json::Value) -> Option<Set<Seq<char>>>;

/// The keys of `metadata` when it is a JSON object; none for any other
/// value.
///
/// Trusted: matches `serde_json::Value::Object` and collects the keys of its
/// `serde_json::Map`: exactly the object's key names, each once (the map
/// holds each key once).
#[verifier::external_body]
fn json_object_keys(metadata: &serde_json::Value) -> (keys: Option<Vec<String>>)
    ensures
        match (keys, json_object_key_names(*metadata)) {
            (Some(k), Some(names)) => strings_view(k@).to_set() == names && strings_view(
                k@,
            ).no_duplicates(),
            (None, None) => true,
            _ => false,
        },
{
    match metadata {
        serde_json::Value::Object(map) => Some(map.keys().cloned().collect()),
        _ => None,
    }
}

/// What a steering request's metadata is logged as: the names of its keys,
/// sorted, when it is a JSON object; its values never. No metadata, or
/// metadata that is not an object, gives none.
pub fn metadata_keys(metadata: &Option<serde_json::Value>) -> (keys: Option<Vec<String>>)
    ensures
        match metadata {
            None => keys is None,
            Some(value) => match json_object_key_names(*value) {
                None => keys is None,
                Some(names) => keys matches Some(k) && strictly_sorted(strings_view(k@))
                    && strings_view(k@).to_set() == names,
            },
        },
{
    match metadata {
        None => None,
        Some(value) => match json_object_keys(value) {
            None => None,
            Some(keys) => Some(sorted_distinct(&keys)),
        },
    }
}

} // verus!
