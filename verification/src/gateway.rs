//! The gateway's decisions for one inbound call: decode the envelope, record
//! it, say what to run, and build the reply from what the worker printed.
//! Reading frames, running the worker and sending frames are the caller's.

use vstd::prelude::*;
use vstd::string::*;
use vstd::utf8::{decode_utf8, encode_utf8, valid_utf8};
use crate::codec::{
    compact, json_compact, json_members, json_quoted, json_unquoted, members_view, parse_members,
    quote, text_of_utf8, text_view, unquote,
};
use crate::queue::{append_result, append_state};
use crate::record::{QueueError, Slot};
use crate::segment::{write_to_input_queue, write_to_output_queue, Segment};

verus! {

/// The envelope of one inbound call. `args` is kept as compact JSON text.
#[derive(Debug)]
pub struct FunctionCall {
    pub function: String,
    pub uuid: String,
    pub args: String,
    pub command: String,
    pub location: String,
}

/// The mathematical content of an envelope.
pub struct Call {
    pub function: Seq<char>,
    pub uuid: Seq<char>,
    pub args: Seq<char>,
    pub command: Seq<char>,
    pub location: Seq<char>,
}

impl View for FunctionCall {
    type V = Call;

    open spec fn view(&self) -> Call {
        Call {
            function: self.function@,
            uuid: self.uuid@,
            args: self.args@,
            command: self.command@,
            location: self.location@,
        }
    }
}

/// The failures of one request that are reported to the caller.
#[derive(Clone, Copy, Debug, PartialEq, Eq, Structural)]
pub enum GatewayError {
    /// The frame is no envelope, or the worker's output is no JSON text.
    Decode,
    /// The id or the serialized call does not fit a slot.
    Oversize,
    /// The input queue has no empty slot.
    QueueFull,
    /// The worker could not be started.
    WorkerSpawn,
}

/// What the gateway does next for a frame.
#[derive(Debug)]
pub enum Step {
    /// Run the worker for this call, then hand its output to `finish_request`.
    Invoke(FunctionCall),
    /// Send this frame on the same connection and go on reading.
    Reply(String),
}

/// The mathematical content of a step.
pub enum StepView {
    Invoke(Call),
    Reply(Seq<char>),
}

impl View for Step {
    type V = StepView;

    open spec fn view(&self) -> StepView {
        match self {
            Step::Invoke(call) => StepView::Invoke(call@),
            Step::Reply(frame) => StepView::Reply(frame@),
        }
    }
}

/// The name under which an error is reported.
pub open spec fn error_name(e: GatewayError) -> Seq<char> {
    match e {
        GatewayError::Decode => "DecodeError"@,
        GatewayError::Oversize => "OversizeError"@,
        GatewayError::QueueFull => "QueueFullError"@,
        GatewayError::WorkerSpawn => "WorkerSpawnError"@,
    }
}

/// The error frame of a request whose id is not known.
pub open spec fn error_text(e: GatewayError) -> Seq<char> {
    "{\"error\":\""@ + error_name(e) + "\"}"@
}

/// The error frame of the request `uuid`.
pub open spec fn error_text_for(uuid: Seq<char>, e: GatewayError) -> Seq<char> {
    match json_quoted(uuid) {
        Some(q) => "{\"uuid\":"@ + q + ",\"error\":\""@ + error_name(e) + "\"}"@,
        None => error_text(e),
    }
}

/// The response frame of the request `uuid` whose worker printed the JSON
/// text `result`.
pub open spec fn success_text(uuid: Seq<char>, result: Seq<char>) -> Option<Seq<char>> {
    match json_quoted(uuid) {
        Some(q) => Some("{\"uuid\":"@ + q + ",\"result\":"@ + result + "}"@),
        None => None,
    }
}

/// `i` is the lowest index of a member of `members` with the key `key`.
pub open spec fn is_first_member(members: Seq<(Seq<char>, Seq<char>)>, key: Seq<char>, i: int) -> bool {
    &&& 0 <= i < members.len()
    &&& members[i].0 == key
    &&& forall|j: int| 0 <= j < i ==> (#[trigger] members[j]).0 != key
}

/// The text of the member `key`, if there is one.
pub open spec fn member_text(members: Seq<(Seq<char>, Seq<char>)>, key: Seq<char>) -> Option<Seq<char>> {
    if exists|i: int| is_first_member(members, key, i) {
        Some(members[choose|i: int| is_first_member(members, key, i)].1)
    } else {
        None
    }
}

/// The content of the member `key`, if there is one and it is a JSON string.
pub open spec fn string_member(members: Seq<(Seq<char>, Seq<char>)>, key: Seq<char>) -> Option<Seq<char>> {
    match member_text(members, key) {
        Some(t) => json_unquoted(t),
        None => None,
    }
}

/// The envelope that `text` denotes: a JSON object with the string members
/// `function`, `uuid`, `command` and `location` and a member `args` of any
/// kind. Other members are passed over.
pub open spec fn decoded_call(text: Seq<char>) -> Option<Call> {
    match json_members(text) {
        None => None,
        Some(m) => if string_member(m, "function"@) is Some && string_member(m, "uuid"@) is Some
            && member_text(m, "args"@) is Some && string_member(m, "command"@) is Some
            && string_member(m, "location"@) is Some {
            Some(
                Call {
                    function: string_member(m, "function"@)->Some_0,
                    uuid: string_member(m, "uuid"@)->Some_0,
                    args: member_text(m, "args"@)->Some_0,
                    command: string_member(m, "command"@)->Some_0,
                    location: string_member(m, "location"@)->Some_0,
                },
            )
        } else {
            None
        },
    }
}

/// The compact JSON text of an envelope, members in declaration order.
pub open spec fn encoded_call(c: Call) -> Option<Seq<char>> {
    if json_quoted(c.function) is Some && json_quoted(c.uuid) is Some && json_quoted(c.command) is Some
        && json_quoted(c.location) is Some {
        Some(
            "{\"function\":"@ + json_quoted(c.function)->Some_0 + ",\"uuid\":"@ + json_quoted(
                c.uuid,
            )->Some_0 + ",\"args\":"@ + c.args + ",\"command\":"@ + json_quoted(c.command)->Some_0
                + ",\"location\":"@ + json_quoted(c.location)->Some_0 + "}"@,
        )
    } else {
        None
    }
}

/// The view of an optional envelope.
pub open spec fn call_view(call: Option<FunctionCall>) -> Option<Call> {
    match call {
        Some(c) => Some(c@),
        None => None,
    }
}

/// The gateway error that stands for a refusal of the queue.
pub open spec fn queue_error_kind(e: QueueError) -> GatewayError {
    match e {
        QueueError::Oversize => GatewayError::Oversize,
        QueueError::QueueFull => GatewayError::QueueFull,
        QueueError::InvalidText => GatewayError::Decode,
        QueueError::NotFound => GatewayError::Decode,
    }
}

/// The step that `accept_frame` takes for the frame `text` when the input
/// queue holds `input`.
pub open spec fn accepted_step(input: Seq<Slot>, text: Seq<char>) -> StepView {
    match decoded_call(text) {
        None => StepView::Reply(error_text(GatewayError::Decode)),
        Some(call) => match encoded_call(call) {
            None => StepView::Reply(error_text_for(call.uuid, GatewayError::Decode)),
            Some(ser) => match append_result(input, encode_utf8(call.uuid), encode_utf8(ser)) {
                Ok(_) => StepView::Invoke(call),
                Err(e) => StepView::Reply(error_text_for(call.uuid, queue_error_kind(e))),
            },
        },
    }
}

/// The input queue that `accept_frame` leaves.
pub open spec fn accepted_input(input: Seq<Slot>, text: Seq<char>) -> Seq<Slot> {
    match decoded_call(text) {
        None => input,
        Some(call) => match encoded_call(call) {
            None => input,
            Some(ser) => append_state(input, encode_utf8(call.uuid), encode_utf8(ser)),
        },
    }
}

/// What a worker run amounts to: the compact JSON text of its output, or the
/// error to report. `stdout` is `None` where the worker could not be started.
pub open spec fn worker_result(stdout: Option<Seq<u8>>) -> Result<Seq<char>, GatewayError> {
    match stdout {
        None => Err(GatewayError::WorkerSpawn),
        Some(bytes) => if !valid_utf8(bytes) {
            Err(GatewayError::Decode)
        } else {
            match json_compact(decode_utf8(bytes)) {
                Some(t) => Ok(t),
                None => Err(GatewayError::Decode),
            }
        },
    }
}

/// The frame that answers the request `uuid` after its worker run.
pub open spec fn response_text(uuid: Seq<char>, stdout: Option<Seq<u8>>) -> Seq<char> {
    match worker_result(stdout) {
        Ok(result) => match success_text(uuid, result) {
            Some(t) => t,
            None => error_text_for(uuid, GatewayError::Decode),
        },
        Err(e) => error_text_for(uuid, e),
    }
}

/// Whether the request `uuid` ended in a response that carries a result.
pub open spec fn is_success(uuid: Seq<char>, stdout: Option<Seq<u8>>) -> bool {
    worker_result(stdout) is Ok && success_text(uuid, worker_result(stdout)->Ok_0) is Some
}

/// The view of optional bytes.
pub open spec fn bytes_view(bytes: Option<Vec<u8>>) -> Option<Seq<u8>> {
    match bytes {
        Some(b) => Some(b@),
        None => None,
    }
}

/// The name under which `e` is reported.
pub fn error_label(e: GatewayError) -> (name: &'static str)
    ensures
        name@ == error_name(e),
{
    match e {
        GatewayError::Decode => "DecodeError",
        GatewayError::Oversize => "OversizeError",
        GatewayError::QueueFull => "QueueFullError",
        GatewayError::WorkerSpawn => "WorkerSpawnError",
    }
}

/// The gateway error that stands for a refusal of the queue.
pub fn gateway_error(e: QueueError) -> (kind: GatewayError)
    ensures
        kind == queue_error_kind(e),
{
    match e {
        QueueError::Oversize => GatewayError::Oversize,
        QueueError::QueueFull => GatewayError::QueueFull,
        QueueError::InvalidText => GatewayError::Decode,
        QueueError::NotFound => GatewayError::Decode,
    }
}

/// The error frame of a request whose id is not known.
pub fn error_response(e: GatewayError) -> (frame: String)
    ensures
        frame@ == error_text(e),
{
    let mut frame = String::from_str("{\"error\":\"");
    frame.append(error_label(e));
    frame.append("\"}");
    frame
}

/// The error frame of the request `uuid`.
pub fn error_response_for(uuid: &str, e: GatewayError) -> (frame: String)
    ensures
        frame@ == error_text_for(uuid@, e),
{
    match quote(uuid) {
        Some(q) => {
            let mut frame = String::from_str("{\"uuid\":");
            frame.append(q.as_str());
            frame.append(",\"error\":\"");
            frame.append(error_label(e));
            frame.append("\"}");
            frame
        },
        None => error_response(e),
    }
}

/// The response frame of the request `uuid` whose worker printed the JSON
/// text `result`.
pub fn success_response(uuid: &str, result: &str) -> (frame: Option<String>)
    ensures
        text_view(frame) == success_text(uuid@, result@),
{
    match quote(uuid) {
        Some(q) => {
            let mut frame = String::from_str("{\"uuid\":");
            frame.append(q.as_str());
            frame.append(",\"result\":");
            frame.append(result);
            frame.append("}");
            Some(frame)
        },
        None => None,
    }
}

/// The only index that `is_first_member` admits decides `member_text`.
pub proof fn lemma_first_member(members: Seq<(Seq<char>, Seq<char>)>, key: Seq<char>, i: int)
    requires
        is_first_member(members, key, i),
    ensures
        member_text(members, key) == Some(members[i].1),
{
    let c = choose|k: int| is_first_member(members, key, k);
    assert(is_first_member(members, key, c));
    if c < i {
        assert(members[c].0 != key);
    }
    if i < c {
        assert(members[i].0 != key);
    }
}

/// A copy of the text of the member `key`, if there is one.
pub fn member_of(members: &Vec<(String, String)>, key: &str) -> (r: Option<String>)
    ensures
        text_view(r) == member_text(members_view(members@), key@),
{
    let wanted = String::from_str(key);
    let ghost m = members_view(members@);
    let mut i: usize = 0;
    while i < members.len()
        invariant
            i <= members@.len(),
            m == members_view(members@),
            wanted@ == key@,
            forall|j: int| 0 <= j < i ==> (#[trigger] m[j]).0 != key@,
        decreases members@.len() - i,
    {
        if members[i].0 == wanted {
            proof {
                lemma_first_member(m, key@, i as int);
            }
            return Some(members[i].1.clone());
        }
        i += 1;
    }
    assert(forall|k: int| !is_first_member(m, key@, k));
    None
}

/// The content of the member `key`, if there is one and it is a JSON string.
pub fn string_member_of(members: &Vec<(String, String)>, key: &str) -> (r: Option<String>)
    ensures
        text_view(r) == string_member(members_view(members@), key@),
{
    match member_of(members, key) {
        Some(t) => unquote(t.as_str()),
        None => None,
    }
}

/// Decodes one inbound frame as an envelope.
pub fn decode_call(text: &str) -> (r: Option<FunctionCall>)
    ensures
        call_view(r) == decoded_call(text@),
{
    let members = match parse_members(text) {
        Some(members) => members,
        None => {
            return None;
        },
    };
    let function = string_member_of(&members, "function");
    let uuid = string_member_of(&members, "uuid");
    let args = member_of(&members, "args");
    let command = string_member_of(&members, "command");
    let location = string_member_of(&members, "location");
    match (function, uuid, args, command, location) {
        (Some(function), Some(uuid), Some(args), Some(command), Some(location)) => Some(
            FunctionCall { function, uuid, args, command, location },
        ),
        _ => None,
    }
}

/// Serializes an envelope as compact JSON text.
pub fn encode_call(call: &FunctionCall) -> (r: Option<String>)
    ensures
        text_view(r) == encoded_call(call@),
{
    let function = quote(call.function.as_str());
    let uuid = quote(call.uuid.as_str());
    let command = quote(call.command.as_str());
    let location = quote(call.location.as_str());
    match (function, uuid, command, location) {
        (Some(function), Some(uuid), Some(command), Some(location)) => {
            let mut out = String::from_str("{\"function\":");
            out.append(function.as_str());
            out.append(",\"uuid\":");
            out.append(uuid.as_str());
            out.append(",\"args\":");
            out.append(call.args.as_str());
            out.append(",\"command\":");
            out.append(command.as_str());
            out.append(",\"location\":");
            out.append(location.as_str());
            out.append("}");
            Some(out)
        },
        _ => None,
    }
}

/// Takes one inbound text frame. A frame that is no envelope is answered with
/// an error frame and changes nothing. An envelope is recorded in the input
/// queue under its uuid; where the queue refuses it, the request ends with an
/// error frame, else the worker is to be run. Whatever the frame, the
/// connection goes on.
pub fn accept_frame(seg: &mut Segment, text: &str) -> (step: Step)
    requires
        old(seg).wf(),
    ensures
        final(seg).wf(),
        step@ == accepted_step(old(seg).input@, text@),
        final(seg).input@ == accepted_input(old(seg).input@, text@),
        final(seg).output == old(seg).output,
{
    let call = match decode_call(text) {
        Some(call) => call,
        None => {
            return Step::Reply(error_response(GatewayError::Decode));
        },
    };
    let serialized = match encode_call(&call) {
        Some(serialized) => serialized,
        None => {
            return Step::Reply(error_response_for(call.uuid.as_str(), GatewayError::Decode));
        },
    };
    match write_to_input_queue(seg, call.uuid.as_str().as_bytes(), serialized.as_str().as_bytes()) {
        Ok(()) => Step::Invoke(call),
        Err(e) => Step::Reply(error_response_for(call.uuid.as_str(), gateway_error(e))),
    }
}

/// Turns what the worker printed into the compact JSON text of the result.
pub fn worker_output(stdout: Option<Vec<u8>>) -> (r: Result<String, GatewayError>)
    ensures
        match r {
            Ok(t) => worker_result(bytes_view(stdout)) == Ok::<Seq<char>, GatewayError>(t@),
            Err(e) => worker_result(bytes_view(stdout)) == Err::<Seq<char>, GatewayError>(e),
        },
{
    let bytes = match stdout {
        Some(bytes) => bytes,
        None => {
            return Err(GatewayError::WorkerSpawn);
        },
    };
    let text = match text_of_utf8(bytes) {
        Some(text) => text,
        None => {
            return Err(GatewayError::Decode);
        },
    };
    match compact(text.as_str()) {
        Some(t) => Ok(t),
        None => Err(GatewayError::Decode),
    }
}

/// Ends the request `uuid` with what its worker printed (`None` where the
/// worker could not be started) and returns the frame to send. A response
/// that carries a result is also recorded in the output queue under `uuid`;
/// a refusal of that queue changes neither the frame nor the queue.
pub fn finish_request(seg: &mut Segment, uuid: &str, stdout: Option<Vec<u8>>) -> (frame: String)
    requires
        old(seg).wf(),
    ensures
        final(seg).wf(),
        frame@ == response_text(uuid@, bytes_view(stdout)),
        final(seg).input == old(seg).input,
        final(seg).output@ == if is_success(uuid@, bytes_view(stdout)) {
            append_state(old(seg).output@, encode_utf8(uuid@), encode_utf8(frame@))
        } else {
            old(seg).output@
        },
{
    let result = match worker_output(stdout) {
        Ok(result) => result,
        Err(e) => {
            return error_response_for(uuid, e);
        },
    };
    match success_response(uuid, result.as_str()) {
        Some(frame) => {
            let _ = write_to_output_queue(seg, uuid.as_bytes(), frame.as_str().as_bytes());
            frame
        },
        None => error_response_for(uuid, GatewayError::Decode),
    }
}

/// A frame that is no envelope is answered with the decode error frame and
/// leaves the input queue as it was.
pub proof fn malformed_frame_is_answered(input: Seq<Slot>, text: Seq<char>)
    requires
        decoded_call(text) is None,
    ensures
        accepted_step(input, text) == StepView::Reply(error_text(GatewayError::Decode)),
        accepted_input(input, text) == input,
{
}

/// A worker is run only for a call that the input queue has taken: the call
/// then stands, whole, in the slot that was the lowest empty one. A call that
/// the queue refuses is answered with an error frame and changes nothing.
pub proof fn invoked_call_is_recorded(input: Seq<Slot>, text: Seq<char>)
    requires
        decoded_call(text) is Some,
        encoded_call(decoded_call(text)->Some_0) is Some,
    ensures
        ({
            let call = decoded_call(text)->Some_0;
            let id = encode_utf8(call.uuid);
            let payload = encode_utf8(encoded_call(call)->Some_0);
            match append_result(input, id, payload) {
                Ok(i) => accepted_step(input, text) == StepView::Invoke(call) && accepted_input(
                    input,
                    text,
                ) == input.update(i, Slot { id, payload }),
                Err(e) => accepted_step(input, text) == StepView::Reply(
                    error_text_for(call.uuid, queue_error_kind(e)),
                ) && accepted_input(input, text) == input,
            }
        }),
{
}

} // verus!
