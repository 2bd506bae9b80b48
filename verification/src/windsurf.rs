//! The backend client's request: the session metadata, one embedded message
//! per conversation entry, and the tool schema; and the interpreter of the
//! backend's replies.

use crate::json::{json_parse, json_text, members_view, push_number, push_text, Json, JsonValue};
use crate::protocol::{
    byte_lists, bytes_field, connect_frame_decode, connect_frame_encode, decoded_frames,
    extract_strings, frame_bytes, gzip_bytes, scanned_strings, text_from_utf8, ProtobufEncoder,
};
use crate::text::{
    append_decimal, append_str, decimal, find, from_chars, has_text, replace, replaced, same_text,
    texts_of, to_chars,
};
use crate::toolcall::{call_marker, parse_tool_call, tool_call_of};
use vstd::prelude::*;
use vstd::slice::slice_subrange;
use vstd::utf8::{decode_utf8, encode_utf8, valid_utf8};

verus! {

/// The backend endpoint and model configuration of one session.
#[derive(Debug, Clone)]
pub struct WindsurfConfig {
    pub api_base: String,
    pub auth_base: String,
    pub app_version: String,
    pub ls_version: String,
    pub model: String,
    pub timeout_ms: u64,
}

/// What a configuration stands for.
pub struct WindsurfConfigView {
    pub api_base: Seq<char>,
    pub auth_base: Seq<char>,
    pub app_version: Seq<char>,
    pub ls_version: Seq<char>,
    pub model: Seq<char>,
    pub timeout_ms: u64,
}

impl View for WindsurfConfig {
    type V = WindsurfConfigView;

    open spec fn view(&self) -> WindsurfConfigView {
        WindsurfConfigView {
            api_base: self.api_base@,
            auth_base: self.auth_base@,
            app_version: self.app_version@,
            ls_version: self.ls_version@,
            model: self.model@,
            timeout_ms: self.timeout_ms,
        }
    }
}

/// One entry of a conversation. `role` is the number that goes on the wire.
/// An assistant message that records a tool call carries the call's id, the
/// tool's name and the serialized arguments; a tool-result message carries the
/// id of the call that it answers.
#[derive(Debug, Clone, PartialEq)]
pub struct ChatMessage {
    pub role: u64,
    pub content: String,
    pub tool_call_id: Option<String>,
    pub tool_name: Option<String>,
    pub tool_args_json: Option<String>,
    pub ref_call_id: Option<String>,
}

/// What a conversation entry stands for.
pub struct ChatMessageView {
    pub role: u64,
    pub content: Seq<char>,
    pub tool_call_id: Option<Seq<char>>,
    pub tool_name: Option<Seq<char>>,
    pub tool_args_json: Option<Seq<char>>,
    pub ref_call_id: Option<Seq<char>>,
}

/// The characters of an optional text.
pub open spec fn text_of(text: Option<String>) -> Option<Seq<char>> {
    match text {
        Some(s) => Some(s@),
        None => None,
    }
}

impl View for ChatMessage {
    type V = ChatMessageView;

    open spec fn view(&self) -> ChatMessageView {
        ChatMessageView {
            role: self.role,
            content: self.content@,
            tool_call_id: text_of(self.tool_call_id),
            tool_name: text_of(self.tool_name),
            tool_args_json: text_of(self.tool_args_json),
            ref_call_id: text_of(self.ref_call_id),
        }
    }
}

/// What each entry of a conversation stands for.
pub open spec fn conversation_view(messages: Seq<ChatMessage>) -> Seq<ChatMessageView> {
    Seq::new(messages.len(), |i: int| messages[i]@)
}

/// What the session metadata says of the machine it runs on.
#[derive(Debug, Clone)]
pub struct HostInfo {
    /// The operating system's name, such as `linux`, `macos` or `windows`.
    pub os: String,
    /// The processor architecture's name.
    pub arch: String,
    /// The number of processors available.
    pub cores: u64,
}

/// The bytes of a string field: the UTF-8 bytes of the text, length-delimited.
pub open spec fn string_field(field: u32, text: Seq<char>) -> Seq<u8> {
    bytes_field(field, encode_utf8(text))
}

/// The system name reported for an operating system.
pub open spec fn sysname_of(os: Seq<char>) -> Seq<char> {
    if os == "macos"@ {
        "Darwin"@
    } else if os == "windows"@ {
        "Windows_NT"@
    } else {
        "Linux"@
    }
}

/// The operating-system descriptor of the metadata.
pub open spec fn sys_info(os: Seq<char>, arch: Seq<char>) -> Json {
    Json::Object(
        seq![
            ("Os"@, Json::String(os)),
            ("Arch"@, Json::String(arch)),
            ("Release"@, Json::String(""@)),
            ("Version"@, Json::String(""@)),
            ("Machine"@, Json::String(arch)),
            ("Nodename"@, Json::String("relay"@)),
            ("Sysname"@, Json::String(sysname_of(os))),
            ("ProductVersion"@, Json::String(""@)),
        ],
    )
}

/// The processor descriptor of the metadata.
pub open spec fn cpu_info(cores: u64) -> Json {
    Json::Object(
        seq![
            ("NumSockets"@, Json::Unsigned(1)),
            ("NumCores"@, Json::Unsigned(cores)),
            ("NumThreads"@, Json::Unsigned(cores)),
            ("VendorID"@, Json::String(""@)),
            ("Family"@, Json::String("0"@)),
            ("Model"@, Json::String("0"@)),
            ("ModelName"@, Json::String("Unknown"@)),
            ("Memory"@, Json::Unsigned(0)),
        ],
    )
}

/// The session metadata message: application identity, credentials, the
/// descriptors of system and processor, and the capability flags.
pub open spec fn metadata_bytes(
    app_version: Seq<char>,
    ls_version: Seq<char>,
    api_key: Seq<char>,
    jwt: Seq<char>,
    os: Seq<char>,
    arch: Seq<char>,
    cores: u64,
) -> Seq<u8> {
    string_field(1, "windsurf"@) + string_field(2, app_version) + string_field(3, api_key)
        + string_field(4, "zh-cn"@) + string_field(5, json_text(sys_info(os, arch)))
        + string_field(7, ls_version) + string_field(8, json_text(cpu_info(cores)))
        + string_field(12, "windsurf"@) + string_field(21, jwt) + bytes_field(
        30,
        seq![0u8, 1u8],
    )
}

/// The system name reported for an operating system.
fn sysname(os: &str) -> (name: &'static str)
    ensures
        name@ == sysname_of(os@),
{
    if same_text(os, "macos") {
        "Darwin"
    } else if same_text(os, "windows") {
        "Windows_NT"
    } else {
        "Linux"
    }
}

/// Builds the session metadata message.
pub fn build_metadata(cfg: &WindsurfConfig, api_key: &str, jwt: &str, host: &HostInfo) -> (meta:
    ProtobufEncoder)
    ensures
        meta@ == metadata_bytes(
            cfg@.app_version,
            cfg@.ls_version,
            api_key@,
            jwt@,
            host.os@,
            host.arch@,
            host.cores,
        ),
{
    let mut sys: Vec<(String, JsonValue)> = Vec::new();
    proof {
        assert(members_view(sys@) =~= Seq::empty());
    }
    push_text(&mut sys, "Os", host.os.as_str());
    push_text(&mut sys, "Arch", host.arch.as_str());
    push_text(&mut sys, "Release", "");
    push_text(&mut sys, "Version", "");
    push_text(&mut sys, "Machine", host.arch.as_str());
    push_text(&mut sys, "Nodename", "relay");
    push_text(&mut sys, "Sysname", sysname(host.os.as_str()));
    push_text(&mut sys, "ProductVersion", "");
    let sys_value = JsonValue::object(sys);
    proof {
        assert(sys_value@->Object_0 =~= sys_info(host.os@, host.arch@)->Object_0);
    }
    let mut cpu: Vec<(String, JsonValue)> = Vec::new();
    proof {
        assert(members_view(cpu@) =~= Seq::empty());
    }
    push_number(&mut cpu, "NumSockets", 1);
    push_number(&mut cpu, "NumCores", host.cores);
    push_number(&mut cpu, "NumThreads", host.cores);
    push_text(&mut cpu, "VendorID", "");
    push_text(&mut cpu, "Family", "0");
    push_text(&mut cpu, "Model", "0");
    push_text(&mut cpu, "ModelName", "Unknown");
    push_number(&mut cpu, "Memory", 0);
    let cpu_value = JsonValue::object(cpu);
    proof {
        assert(cpu_value@->Object_0 =~= cpu_info(host.cores)->Object_0);
    }
    let sys_text = sys_value.to_text();
    let cpu_text = cpu_value.to_text();
    let flags: [u8; 2] = [0x00, 0x01];
    let mut meta = ProtobufEncoder::new();
    meta.write_string(1, "windsurf");
    meta.write_string(2, cfg.app_version.as_str());
    meta.write_string(3, api_key);
    meta.write_string(4, "zh-cn");
    meta.write_string(5, sys_text.as_str());
    meta.write_string(7, cfg.ls_version.as_str());
    meta.write_string(8, cpu_text.as_str());
    meta.write_string(12, "windsurf");
    meta.write_string(21, jwt);
    meta.write_bytes(30, flags.as_slice());
    proof {
        assert(flags@ =~= seq![0u8, 1u8]);
        assert(meta@ =~= metadata_bytes(
            cfg@.app_version,
            cfg@.ls_version,
            api_key@,
            jwt@,
            host.os@,
            host.arch@,
            host.cores,
        ));
    }
    meta
}

/// The tool-call block of a message: id, name and serialized arguments.
pub open spec fn tool_call_bytes(id: Seq<char>, name: Seq<char>, args: Seq<char>) -> Seq<u8> {
    string_field(1, id) + string_field(2, name) + string_field(3, args)
}

/// The embedded message of one conversation entry: role and content, the
/// tool-call block where id, name and arguments are all present, and the id of
/// the answered call where there is one.
pub open spec fn chat_message_bytes(m: ChatMessageView) -> Seq<u8> {
    crate::protocol::varint_field(2, m.role) + string_field(3, m.content) + (if m.tool_call_id
        is Some && m.tool_name is Some && m.tool_args_json is Some {
        bytes_field(
            6,
            tool_call_bytes(m.tool_call_id->0, m.tool_name->0, m.tool_args_json->0),
        )
    } else {
        Seq::empty()
    }) + (match m.ref_call_id {
        Some(id) => string_field(7, id),
        None => Seq::empty(),
    })
}

/// The repeated field that holds the conversation: one embedded message per
/// entry, in order.
pub open spec fn conversation_bytes(messages: Seq<ChatMessageView>) -> Seq<u8>
    decreases messages.len(),
{
    if messages.len() == 0 {
        Seq::empty()
    } else {
        conversation_bytes(messages.drop_last()) + bytes_field(
            2,
            chat_message_bytes(messages.last()),
        )
    }
}

/// The whole request: the metadata, the conversation, the tool schema.
pub open spec fn request_bytes(
    metadata: Seq<u8>,
    messages: Seq<ChatMessageView>,
    tool_defs: Seq<char>,
) -> Seq<u8> {
    bytes_field(1, metadata) + conversation_bytes(messages) + string_field(3, tool_defs)
}

/// The text inside an optional text.
fn as_text(text: &Option<String>) -> (r: Option<&str>)
    ensures
        match r {
            Some(s) => text_of(*text) == Some(s@),
            None => text_of(*text) is None,
        },
{
    match text {
        Some(s) => Some(s.as_str()),
        None => None,
    }
}

/// Builds the embedded message of one conversation entry.
fn build_chat_message(
    role: u64,
    content: &str,
    tool_call_id: Option<&str>,
    tool_name: Option<&str>,
    tool_args_json: Option<&str>,
    ref_call_id: Option<&str>,
) -> (msg: ProtobufEncoder)
    ensures
        msg@ == chat_message_bytes(
            ChatMessageView {
                role,
                content: content@,
                tool_call_id: match tool_call_id {
                    Some(s) => Some(s@),
                    None => None,
                },
                tool_name: match tool_name {
                    Some(s) => Some(s@),
                    None => None,
                },
                tool_args_json: match tool_args_json {
                    Some(s) => Some(s@),
                    None => None,
                },
                ref_call_id: match ref_call_id {
                    Some(s) => Some(s@),
                    None => None,
                },
            },
        ),
{
    let mut msg = ProtobufEncoder::new();
    msg.write_varint(2, role);
    msg.write_string(3, content);
    let ghost head = msg@;
    let ghost mut block: Seq<u8> = Seq::empty();
    match (tool_call_id, tool_name, tool_args_json) {
        (Some(id), Some(name), Some(args)) => {
            let mut call = ProtobufEncoder::new();
            call.write_string(1, id);
            call.write_string(2, name);
            call.write_string(3, args);
            proof {
                assert(call@ =~= tool_call_bytes(id@, name@, args@));
                block = bytes_field(6, call@);
            }
            msg.write_message(6, &call);
        },
        _ => {
            proof {
                assert(head + block =~= head);
            }
        },
    }
    assert(msg@ == head + block);
    let ghost mut tail: Seq<u8> = Seq::empty();
    match ref_call_id {
        Some(id) => {
            proof {
                tail = string_field(7, id@);
            }
            msg.write_string(7, id);
        },
        None => {
            proof {
                assert(head + block + tail =~= head + block);
            }
        },
    }
    proof {
        assert(msg@ =~= head + block + tail);
        assert(head =~= crate::protocol::varint_field(2, role) + string_field(3, content@));
    }
    msg
}

/// Builds the request for one turn: the metadata as field 1, one embedded
/// message per conversation entry as field 2, in order, and the tool schema as
/// field 3.
pub fn build_request(
    cfg: &WindsurfConfig,
    api_key: &str,
    jwt: &str,
    messages: &[ChatMessage],
    tool_defs: &str,
    host: &HostInfo,
) -> (request: Vec<u8>)
    ensures
        request@ == request_bytes(
            metadata_bytes(
                cfg@.app_version,
                cfg@.ls_version,
                api_key@,
                jwt@,
                host.os@,
                host.arch@,
                host.cores,
            ),
            conversation_view(messages@),
            tool_defs@,
        ),
{
    let mut req = ProtobufEncoder::new();
    let meta = build_metadata(cfg, api_key, jwt, host);
    req.write_message(1, &meta);
    let ghost all = conversation_view(messages@);
    let mut i: usize = 0;
    proof {
        assert(all.take(0) =~= Seq::empty());
        assert(req@ =~= bytes_field(1, meta@) + conversation_bytes(all.take(0)));
    }
    while i < messages.len()
        invariant
            i <= messages@.len(),
            all == conversation_view(messages@),
            req@ == bytes_field(1, meta@) + conversation_bytes(all.take(i as int)),
        decreases messages@.len() - i,
    {
        let m = &messages[i];
        let msg = build_chat_message(
            m.role,
            m.content.as_str(),
            as_text(&m.tool_call_id),
            as_text(&m.tool_name),
            as_text(&m.tool_args_json),
            as_text(&m.ref_call_id),
        );
        req.write_message(2, &msg);
        proof {
            let next = all.take(i + 1);
            assert(next.drop_last() =~= all.take(i as int));
            assert(next.last() == messages@[i as int]@);
            assert(msg@ == chat_message_bytes(messages@[i as int]@));
            assert(req@ =~= bytes_field(1, meta@) + conversation_bytes(next));
        }
        i = i + 1;
    }
    req.write_string(3, tool_defs);
    proof {
        assert(all.take(messages@.len() as int) =~= all);
        assert(req@ =~= request_bytes(meta@, all, tool_defs@));
    }
    req.to_vec()
}

/// The text that a lossy reading of bytes as UTF-8 gives: the characters of
/// the valid stretches, with U+FFFD in place of what is not valid.
pub uninterp spec fn lossy_text(bytes: Seq<u8>) -> Seq<char>;

/// `String::from_utf8_lossy`: the lossy reading of the bytes, which for valid
/// UTF-8 is the text that the bytes encode.
#[verifier::external_body]
fn text_from_utf8_lossy(bytes: &[u8]) -> (s: String)
    ensures
        s@ == lossy_text(bytes@),
        valid_utf8(bytes@) ==> s@ == decode_utf8(bytes@),
{
    String::from_utf8_lossy(bytes).into_owned()
}

/// The text of an error object: the code, or `unknown`, and the message, or
/// nothing.
pub open spec fn error_text(err: Json) -> Seq<char> {
    "[Error] "@ + (match err.member_text("code"@) {
        Some(code) => code,
        None => "unknown"@,
    }) + ": "@ + (match err.member_text("message"@) {
        Some(message) => message,
        None => Seq::empty(),
    })
}

/// The error that a frame reports: the frame is valid UTF-8 and is read as
/// a JSON object with a member `error`.
pub open spec fn frame_error(frame: Seq<u8>) -> Option<Seq<char>> {
    if valid_utf8(frame) {
        match json_parse(decode_utf8(frame)) {
            Some(obj) => match obj.member("error"@) {
                Some(err) => Some(error_text(err)),
                None => None,
            },
            None => None,
        }
    } else {
        None
    }
}

/// The text of an error object.
pub fn format_error(err: &JsonValue) -> (text: String)
    ensures
        text@ == error_text(err@),
{
    let mut out: Vec<char> = Vec::new();
    append_str(&mut out, "[Error] ");
    match err.get_str("code") {
        Some(code) => append_str(&mut out, code),
        None => append_str(&mut out, "unknown"),
    }
    append_str(&mut out, ": ");
    let ghost head = out@;
    match err.get_str("message") {
        Some(message) => append_str(&mut out, message),
        None => {
            proof {
                assert(head + Seq::<char>::empty() =~= head);
            }
        },
    }
    proof {
        assert(out@ =~= error_text(err@));
    }
    from_chars(out.as_slice())
}

/// Reads the error that a frame reports, if it reports one.
pub fn error_of_frame(frame: &[u8]) -> (r: Option<String>)
    ensures
        match r {
            Some(text) => frame_error(frame@) == Some(text@),
            None => frame_error(frame@) is None,
        },
{
    let text = match text_from_utf8(frame) {
        Some(text) => text,
        None => {
            return None;
        },
    };
    let obj = match JsonValue::parse(text.as_str()) {
        Some(obj) => obj,
        None => {
            return None;
        },
    };
    match obj.get("error") {
        Some(err) => Some(format_error(err)),
        None => None,
    }
}

/// The texts of a list, one behind the other.
pub open spec fn concatenated(strings: Seq<Seq<char>>) -> Seq<char>
    decreases strings.len(),
{
    if strings.len() == 0 {
        Seq::empty()
    } else {
        concatenated(strings.drop_last()) + strings.last()
    }
}

/// The replacement character, which a lossy reading puts in place of invalid
/// bytes.
pub open spec fn replacement() -> Seq<char> {
    seq!['\u{fffd}']
}

/// What the frames of a response give.
pub enum Reading {
    /// The backend reported an error; this is its text.
    Failed(Seq<char>),
    /// The assistant's text, as far as it could be recovered.
    Text(Seq<char>),
}

/// Reads the frames from index `i` on, with `acc` recovered so far. A frame
/// that reports an error ends the reading with that error. A frame whose lossy
/// text holds the call marker ends it with that text alone. Any other frame
/// adds every text that a schema-agnostic scan finds in it, in order.
pub open spec fn read_frames(frames: Seq<Seq<u8>>, i: int, acc: Seq<char>) -> Reading
    decreases frames.len() - i,
{
    if i < 0 || i >= frames.len() {
        Reading::Text(acc)
    } else {
        match frame_error(frames[i]) {
            Some(error) => Reading::Failed(error),
            None => {
                let raw = replaced(lossy_text(frames[i]), replacement(), Seq::empty());
                if has_text(raw, call_marker()) {
                    Reading::Text(raw)
                } else {
                    read_frames(
                        frames,
                        i + 1,
                        acc + concatenated(scanned_strings(frames[i], 0)),
                    )
                }
            },
        }
    }
}

/// What an interpreted response holds: the recovered text, and the name and
/// arguments of the tool invocation where there is one.
pub type Interpreted = (Seq<char>, Option<(Seq<char>, Json)>);

/// What a response is read as. An error that the backend reports gives the
/// error text and no invocation. Else the recovered text is searched for a tool
/// call: where there is one, the text before the call goes with it; where
/// there is none, the whole recovered text is given.
pub open spec fn response_of(data: Seq<u8>) -> Interpreted {
    match read_frames(decoded_frames(data), 0, Seq::empty()) {
        Reading::Failed(error) => (error, None),
        Reading::Text(all) => match tool_call_of(all) {
            Some(call) => (call.thinking, Some((call.name, call.args))),
            None => (all, None),
        },
    }
}

/// What the frames of a response gave.
#[derive(Debug, Clone, PartialEq)]
pub enum FrameText {
    /// The backend reported an error; this is its text.
    Failed(String),
    /// The assistant's text, as far as it could be recovered.
    Text(String),
}

impl View for FrameText {
    type V = Reading;

    open spec fn view(&self) -> Reading {
        match self {
            FrameText::Failed(text) => Reading::Failed(text@),
            FrameText::Text(text) => Reading::Text(text@),
        }
    }
}

/// Appends the texts of a list, one behind the other.
fn append_strings(out: &mut Vec<char>, strings: &Vec<String>)
    ensures
        final(out)@ == old(out)@ + concatenated(texts_of(strings@)),
{
    let ghost all = texts_of(strings@);
    let mut i: usize = 0;
    proof {
        assert(all.take(0) =~= Seq::<Seq<char>>::empty());
        assert(out@ =~= old(out)@ + concatenated(all.take(0)));
    }
    while i < strings.len()
        invariant
            i <= strings@.len(),
            all == texts_of(strings@),
            out@ == old(out)@ + concatenated(all.take(i as int)),
        decreases strings@.len() - i,
    {
        let s = strings[i].as_str();
        proof {
            assert(all.take(i + 1).drop_last() =~= all.take(i as int));
            assert(all.take(i + 1).last() == s@);
        }
        append_str(out, s);
        proof {
            assert(out@ =~= old(out)@ + concatenated(all.take(i + 1)));
        }
        i = i + 1;
    }
    proof {
        assert(all.take(strings@.len() as int) =~= all);
    }
}

/// Reads the frames of a response: the error that the backend reports, or
/// the assistant's text as far as it can be recovered.
pub fn interpret_frames(frames: &Vec<Vec<u8>>) -> (r: FrameText)
    ensures
        r@ == read_frames(byte_lists(frames@), 0, Seq::empty()),
{
    let ghost model = byte_lists(frames@);
    let marker = to_chars("[TOOL_CALLS]");
    let bad: [char; 1] = ['\u{fffd}'];
    let nothing: Vec<char> = Vec::new();
    let mut all: Vec<char> = Vec::new();
    let mut i: usize = 0;
    proof {
        assert(bad@ =~= replacement());
        assert(nothing@ =~= Seq::<char>::empty());
        assert(all@ =~= Seq::<char>::empty());
    }
    while i < frames.len()
        invariant
            i <= frames@.len(),
            model == byte_lists(frames@),
            marker@ == call_marker(),
            bad@ == replacement(),
            nothing@ == Seq::<char>::empty(),
            read_frames(model, 0, Seq::empty()) == read_frames(model, i as int, all@),
        decreases frames@.len() - i,
    {
        let frame = frames[i].as_slice();
        assert(frame@ == model[i as int]);
        match error_of_frame(frame) {
            Some(error) => {
                return FrameText::Failed(error);
            },
            None => {},
        }
        let lossy = text_from_utf8_lossy(frame);
        let lossy_chars = to_chars(lossy.as_str());
        let raw = replace(lossy_chars.as_slice(), bad.as_slice(), nothing.as_slice());
        match find(raw.as_slice(), marker.as_slice(), 0) {
            Some(_) => {
                return FrameText::Text(from_chars(raw.as_slice()));
            },
            None => {},
        }
        let strings = extract_strings(frame);
        append_strings(&mut all, &strings);
        i = i + 1;
    }
    FrameText::Text(from_chars(all.as_slice()))
}

/// Interprets the body of a response: the recovered text, and the tool
/// invocation where the text holds one. The only failure is an error that the
/// backend itself reports, which comes back as a text that starts with
/// `[Error]` and without an invocation.
pub fn parse_response(data: &[u8]) -> (r: (String, Option<(String, JsonValue)>))
    ensures
        r.0@ == response_of(data@).0,
        match r.1 {
            Some((name, args)) => response_of(data@).1 == Some((name@, args@)),
            None => response_of(data@).1 is None,
        },
{
    let frames = connect_frame_decode(data);
    match interpret_frames(&frames) {
        FrameText::Failed(error) => (error, None),
        FrameText::Text(all) => match parse_tool_call(all.as_str()) {
            Some(call) => (call.thinking, Some((call.name, call.args))),
            None => (all, None),
        },
    }
}

/// The slack by which the client waits longer than the server was told to
/// work, in milliseconds.
pub const TIMEOUT_SLACK_MS: u64 = 5000;

/// The address of the backend's streaming endpoint.
pub open spec fn stream_address(api_base: Seq<char>) -> Seq<char> {
    api_base + "/GetDevstralStream"@
}

/// The address of the backend's streaming endpoint.
pub fn stream_url(cfg: &WindsurfConfig) -> (url: String)
    ensures
        url@ == stream_address(cfg@.api_base),
{
    let mut out: Vec<char> = Vec::new();
    append_str(&mut out, cfg.api_base.as_str());
    append_str(&mut out, "/GetDevstralStream");
    from_chars(out.as_slice())
}

/// How long the client waits for the backend, in milliseconds: the
/// server's timeout and the slack, or the greatest number where that does not
/// fit.
pub fn client_timeout_ms(cfg: &WindsurfConfig) -> (ms: u64)
    ensures
        ms == (if cfg.timeout_ms + TIMEOUT_SLACK_MS <= u64::MAX {
            (cfg.timeout_ms + TIMEOUT_SLACK_MS) as u64
        } else {
            u64::MAX
        }),
{
    if cfg.timeout_ms > u64::MAX - TIMEOUT_SLACK_MS {
        u64::MAX
    } else {
        cfg.timeout_ms + TIMEOUT_SLACK_MS
    }
}

/// A random identifier without its hyphens: the identifier of a trace.
pub open spec fn trace_of(random: Seq<char>) -> Seq<char> {
    replaced(random, seq!['-'], Seq::empty())
}

/// The identifier of a span: the first sixteen characters of a random
/// identifier without its hyphens, or all of them where there are fewer.
pub open spec fn span_of(random: Seq<char>) -> Seq<char> {
    if trace_of(random).len() > 16 {
        trace_of(random).take(16)
    } else {
        trace_of(random)
    }
}

/// The identifier of a trace, made of a random identifier.
pub fn trace_id(random: &str) -> (id: String)
    ensures
        id@ == trace_of(random@),
{
    let chars = to_chars(random);
    let hyphen: [char; 1] = ['-'];
    let nothing: Vec<char> = Vec::new();
    proof {
        assert(hyphen@ =~= seq!['-']);
        assert(nothing@ =~= Seq::<char>::empty());
    }
    let out = replace(chars.as_slice(), hyphen.as_slice(), nothing.as_slice());
    from_chars(out.as_slice())
}

/// The identifier of a span, made of a random identifier.
pub fn span_id(random: &str) -> (id: String)
    ensures
        id@ == span_of(random@),
{
    let trace = trace_id(random);
    let chars = to_chars(trace.as_str());
    if chars.len() > 16 {
        let head = slice_subrange(chars.as_slice(), 0, 16);
        proof {
            assert(head@ =~= chars@.take(16));
        }
        from_chars(head)
    } else {
        trace
    }
}

/// The headers of a request to the backend, in order: the content type and
/// the version of the protocol, the compression that is accepted and used,
/// the timeout that the server is to keep, the user agent, and the two
/// headers that carry the identifiers of the trace.
pub open spec fn backend_headers(
    cfg: WindsurfConfigView,
    trace: Seq<char>,
    span: Seq<char>,
) -> Seq<(Seq<char>, Seq<char>)> {
    seq![
        ("Content-Type"@, "application/connect+proto"@),
        ("Connect-Protocol-Version"@, "1"@),
        ("Connect-Accept-Encoding"@, "gzip"@),
        ("Connect-Content-Encoding"@, "gzip"@),
        ("Connect-Timeout-Ms"@, decimal(cfg.timeout_ms as nat)),
        ("User-Agent"@, "connect-go/1.18.1 (go1.25.5)"@),
        ("Accept-Encoding"@, "identity"@),
        (
            "Baggage"@,
            "sentry-release=language-server-windsurf@"@ + cfg.ls_version
                + ",sentry-environment=stable,sentry-sampled=false,sentry-trace_id="@ + trace
                + ",sentry-public_key=b813f73488da69eedec534dba1029111"@,
        ),
        ("Sentry-Trace"@, trace + "-"@ + span + "-0"@),
    ]
}

/// What a list of headers holds.
pub open spec fn headers_view(headers: Seq<(String, String)>) -> Seq<(Seq<char>, Seq<char>)> {
    Seq::new(headers.len(), |i: int| (headers[i].0@, headers[i].1@))
}

/// Appends a header.
fn push_header(headers: &mut Vec<(String, String)>, name: &str, value: &str)
    ensures
        headers_view(final(headers)@) == headers_view(old(headers)@).push((name@, value@)),
{
    headers.push((name.to_owned(), value.to_owned()));
    proof {
        assert(headers_view(headers@) =~= headers_view(old(headers)@).push((name@, value@)));
    }
}

/// The headers of a request to the backend, for the given identifiers of
/// trace and span.
pub fn request_headers(cfg: &WindsurfConfig, trace: &str, span: &str) -> (headers: Vec<
    (String, String),
>)
    ensures
        headers_view(headers@) == backend_headers(cfg@, trace@, span@),
{
    let mut timeout: Vec<char> = Vec::new();
    append_decimal(&mut timeout, cfg.timeout_ms);
    let timeout = from_chars(timeout.as_slice());
    let mut baggage: Vec<char> = Vec::new();
    append_str(&mut baggage, "sentry-release=language-server-windsurf@");
    append_str(&mut baggage, cfg.ls_version.as_str());
    append_str(
        &mut baggage,
        ",sentry-environment=stable,sentry-sampled=false,sentry-trace_id=",
    );
    append_str(&mut baggage, trace);
    append_str(&mut baggage, ",sentry-public_key=b813f73488da69eedec534dba1029111");
    let baggage = from_chars(baggage.as_slice());
    let mut sentry: Vec<char> = Vec::new();
    append_str(&mut sentry, trace);
    append_str(&mut sentry, "-");
    append_str(&mut sentry, span);
    append_str(&mut sentry, "-0");
    let sentry = from_chars(sentry.as_slice());
    let mut headers: Vec<(String, String)> = Vec::new();
    proof {
        assert(headers_view(headers@) =~= Seq::empty());
    }
    push_header(&mut headers, "Content-Type", "application/connect+proto");
    push_header(&mut headers, "Connect-Protocol-Version", "1");
    push_header(&mut headers, "Connect-Accept-Encoding", "gzip");
    push_header(&mut headers, "Connect-Content-Encoding", "gzip");
    push_header(&mut headers, "Connect-Timeout-Ms", timeout.as_str());
    push_header(&mut headers, "User-Agent", "connect-go/1.18.1 (go1.25.5)");
    push_header(&mut headers, "Accept-Encoding", "identity");
    push_header(&mut headers, "Baggage", baggage.as_str());
    push_header(&mut headers, "Sentry-Trace", sentry.as_str());
    proof {
        assert(timeout@ =~= decimal(cfg.timeout_ms as nat));
        assert(headers_view(headers@) =~= backend_headers(cfg@, trace@, span@));
    }
    headers
}

/// One call of the backend, all set to be sent: where to, with which
/// headers, with which body, and how long to wait.
#[derive(Debug, Clone, PartialEq)]
pub struct BackendCall {
    pub url: String,
    pub headers: Vec<(String, String)>,
    pub body: Vec<u8>,
    pub timeout_ms: u64,
}

/// Prepares one call of the backend's streaming endpoint: the request is
/// wrapped in one compressed frame, and the identifiers of trace and span are
/// made of two random identifiers, which are fresh for every call.
pub fn streaming_request(
    cfg: &WindsurfConfig,
    proto_bytes: &[u8],
    trace_random: &str,
    span_random: &str,
) -> (call: BackendCall)
    ensures
        call.url@ == stream_address(cfg@.api_base),
        headers_view(call.headers@) == backend_headers(
            cfg@,
            trace_of(trace_random@),
            span_of(span_random@),
        ),
        call.body@ == frame_bytes(1, gzip_bytes(proto_bytes@)),
        call.timeout_ms == (if cfg.timeout_ms + TIMEOUT_SLACK_MS <= u64::MAX {
            (cfg.timeout_ms + TIMEOUT_SLACK_MS) as u64
        } else {
            u64::MAX
        }),
{
    let trace = trace_id(trace_random);
    let span = span_id(span_random);
    BackendCall {
        url: stream_url(cfg),
        headers: request_headers(cfg, trace.as_str(), span.as_str()),
        body: connect_frame_encode(proto_bytes),
        timeout_ms: client_timeout_ms(cfg),
    }
}

/// Whether a status says that the call succeeded.
pub open spec fn is_success(status: u16) -> bool {
    200 <= status < 300
}

/// Takes the reply to a call: the body of a reply that succeeded, or the
/// failure of the call for any other status.
pub fn read_reply(status: u16, body: Vec<u8>) -> (r: Result<Vec<u8>, String>)
    ensures
        match r {
            Ok(data) => is_success(status) && data == body,
            Err(reason) => !is_success(status) && reason@ == status_failure(status),
        },
{
    if 200 <= status && status < 300 {
        Ok(body)
    } else {
        Err(http_failure(status))
    }
}

/// What a reply with a status that is no success is reported as.
pub open spec fn status_failure(status: u16) -> Seq<char> {
    "HTTP "@ + decimal(status as nat)
}

/// Reports a reply with a status that is no success. Such a reply fails
/// the call; it is not tried again.
pub fn http_failure(status: u16) -> (text: String)
    ensures
        text@ == status_failure(status),
{
    let mut out: Vec<char> = Vec::new();
    append_str(&mut out, "HTTP ");
    append_decimal(&mut out, status as u64);
    from_chars(out.as_slice())
}

} // verus!
