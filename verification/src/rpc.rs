//! The JSON-RPC envelopes and the protocol's payload types.
//!
//! Requests and responses are modelled as plain records over the JSON
//! model; the functions here say exactly which JSON document each record
//! comes from or turns into.

use vstd::prelude::*;
use crate::json::{
    dec_digits, int_text, json_member_views, jv_get, lemma_json_member_views, u32_to_string,
    int_to_string, str_eq, Json, JsonV,
};

verus! {

broadcast use vstd::seq::group_seq_axioms, vstd::std_specs::vec::group_vec_axioms;

/// Response code for a line that is not well-formed JSON.
pub const PARSE_ERROR: i32 = -32700;

/// Response code for a document that is not a request envelope.
pub const INVALID_REQUEST: i32 = -32600;

/// Response code for an unknown method.
pub const METHOD_NOT_FOUND: i32 = -32601;

/// Response code for missing or ill-formed parameters.
pub const INVALID_PARAMS: i32 = -32602;

/// Response code for any other failure, including use of a gated
/// method before initialization.
pub const INTERNAL_ERROR: i32 = -32603;

// ------------------------------------------------------------------
// Errors
// ------------------------------------------------------------------

/// Model of a protocol error.
pub struct McpErrorV {
    pub code: int,
    pub message: Seq<char>,
    pub data: Option<JsonV>,
}

/// A protocol-level error, reported in the error half of a response.
pub struct McpError {
    pub code: i32,
    pub message: String,
    pub data: Option<Json>,
}

impl View for McpError {
    type V = McpErrorV;

    open spec fn view(&self) -> McpErrorV {
        McpErrorV { code: self.code as int, message: self.message@, data: match self.data {
            Some(d) => Some(d@),
            None => None,
        } }
    }
}

impl McpError {
    /// The error for a document that is not a request envelope.
    pub fn invalid_request(message: &str) -> (r: Self)
        ensures
            r@ == (McpErrorV { code: INVALID_REQUEST as int, message: message@, data: None }),
    {
        McpError { code: INVALID_REQUEST, message: message.to_owned(), data: None }
    }

    /// The error for an unknown method.
    pub fn method_not_found(method: &str) -> (r: Self)
        ensures
            r@ == (McpErrorV {
                code: METHOD_NOT_FOUND as int,
                message: "Method not found: "@ + method@,
                data: None,
            }),
    {
        let message = String::from_str("Method not found: ").concat(method);
        McpError { code: METHOD_NOT_FOUND, message, data: None }
    }

    /// The error for missing or ill-formed parameters.
    pub fn invalid_params(message: &str) -> (r: Self)
        ensures
            r@ == (McpErrorV { code: INVALID_PARAMS as int, message: message@, data: None }),
    {
        McpError { code: INVALID_PARAMS, message: message.to_owned(), data: None }
    }

    /// The error for any other failure.
    pub fn internal_error(message: &str) -> (r: Self)
        ensures
            r@ == (McpErrorV { code: INTERNAL_ERROR as int, message: message@, data: None }),
    {
        McpError { code: INTERNAL_ERROR, message: message.to_owned(), data: None }
    }
}

/// The JSON document an error is reported as.
pub open spec fn error_json(e: McpErrorV) -> JsonV {
    let base = seq![
        ("code"@, JsonV::Num(int_text(e.code))),
        ("message"@, JsonV::Str(e.message)),
    ];
    match e.data {
        Some(d) => JsonV::Obj(base + seq![("data"@, d)]),
        None => JsonV::Obj(base),
    }
}

// ------------------------------------------------------------------
// Envelopes
// ------------------------------------------------------------------

/// Model of a request envelope.
pub struct ReqV {
    pub jsonrpc: Seq<char>,
    pub id: Option<JsonV>,
    pub method: Seq<char>,
    pub params: Option<JsonV>,
}

/// A request envelope.  An absent `id` marks a notification.
pub struct JsonRpcRequest {
    pub jsonrpc: String,
    pub id: Option<Json>,
    pub method: String,
    pub params: Option<Json>,
}

impl View for JsonRpcRequest {
    type V = ReqV;

    open spec fn view(&self) -> ReqV {
        ReqV {
            jsonrpc: self.jsonrpc@,
            id: match self.id {
                Some(v) => Some(v@),
                None => None,
            },
            method: self.method@,
            params: match self.params {
                Some(v) => Some(v@),
                None => None,
            },
        }
    }
}

/// Whether a document is a request envelope: an object whose
/// `jsonrpc` and `method` fields are present and strings.
pub open spec fn envelope_ok(v: JsonV) -> bool {
    &&& v is Obj
    &&& jv_get(v, "jsonrpc"@) matches Some(j) && j is Str
    &&& jv_get(v, "method"@) matches Some(m) && m is Str
}

/// The request a well-formed envelope denotes.
pub open spec fn envelope_req(v: JsonV) -> ReqV {
    ReqV {
        jsonrpc: jv_get(v, "jsonrpc"@)->Some_0->Str_0,
        id: jv_get(v, "id"@),
        method: jv_get(v, "method"@)->Some_0->Str_0,
        params: jv_get(v, "params"@),
    }
}

impl JsonRpcRequest {
    /// Reads a request envelope out of a parsed document.
    pub fn from_json(v: &Json) -> (r: Option<JsonRpcRequest>)
        ensures
            match r {
                Some(req) => envelope_ok(v@) && req@ == envelope_req(v@),
                None => !envelope_ok(v@),
            },
    {
        if !v.is_object() {
            return None;
        }
        let jsonrpc = match v.get("jsonrpc") {
            Some(j) => match j.as_string() {
                Some(s) => s.clone(),
                None => {
                    return None;
                },
            },
            None => {
                return None;
            },
        };
        let method = match v.get("method") {
            Some(m) => match m.as_string() {
                Some(s) => s.clone(),
                None => {
                    return None;
                },
            },
            None => {
                return None;
            },
        };
        let id = match v.get("id") {
            Some(x) => Some(x.clone()),
            None => None,
        };
        let params = match v.get("params") {
            Some(x) => Some(x.clone()),
            None => None,
        };
        Some(JsonRpcRequest { jsonrpc, id, method, params })
    }
}

/// Model of a response envelope.
pub struct RespV {
    pub jsonrpc: Seq<char>,
    pub id: JsonV,
    pub result: Option<JsonV>,
    pub error: Option<McpErrorV>,
}

/// A response envelope.  A request without an `id` is answered with a
/// `null` one.
pub struct JsonRpcResponse {
    pub jsonrpc: String,
    pub id: Json,
    pub result: Option<Json>,
    pub error: Option<McpError>,
}

impl View for JsonRpcResponse {
    type V = RespV;

    open spec fn view(&self) -> RespV {
        RespV {
            jsonrpc: self.jsonrpc@,
            id: self.id@,
            result: match self.result {
                Some(v) => Some(v@),
                None => None,
            },
            error: match self.error {
                Some(e) => Some(e@),
                None => None,
            },
        }
    }
}

/// The JSON document a response is written as: exactly one of the
/// `result` and `error` halves is present.
pub open spec fn response_json(r: RespV) -> JsonV {
    let base = seq![("jsonrpc"@, JsonV::Str(r.jsonrpc)), ("id"@, r.id)];
    match r.result {
        Some(v) => JsonV::Obj(base + seq![("result"@, v)]),
        None => match r.error {
            Some(e) => JsonV::Obj(base + seq![("error"@, error_json(e))]),
            None => JsonV::Obj(base),
        },
    }
}

impl JsonRpcResponse {
    /// A response that carries a result.
    pub fn success(id: Json, result: Json) -> (r: Self)
        ensures
            r@ == (RespV { jsonrpc: "2.0"@, id: id@, result: Some(result@), error: None }),
    {
        JsonRpcResponse {
            jsonrpc: String::from_str("2.0"),
            id,
            result: Some(result),
            error: None,
        }
    }

    /// A response that carries an error.
    pub fn error(id: Json, error: McpError) -> (r: Self)
        ensures
            r@ == (RespV { jsonrpc: "2.0"@, id: id@, result: None, error: Some(error@) }),
    {
        JsonRpcResponse {
            jsonrpc: String::from_str("2.0"),
            id,
            result: None,
            error: Some(error),
        }
    }

    /// The document this response is written as.
    pub fn to_json(self) -> (r: Json)
        ensures
            r@ == response_json(self@),
    {
        let ghost model = self@;
        let mut ms: Vec<(String, Json)> = Vec::new();
        ms.push((String::from_str("jsonrpc"), Json::Str(self.jsonrpc)));
        ms.push((String::from_str("id"), self.id));
        match self.result {
            Some(v) => {
                ms.push((String::from_str("result"), v));
            },
            None => match self.error {
                Some(e) => {
                    let mut es: Vec<(String, Json)> = Vec::new();
                    es.push((String::from_str("code"), Json::Num(int_to_string(e.code))));
                    es.push((String::from_str("message"), Json::Str(e.message)));
                    match e.data {
                        Some(d) => {
                            es.push((String::from_str("data"), d));
                        },
                        None => {},
                    }
                    proof {
                        lemma_json_member_views(es@);
                        assert(json_member_views(es@) =~= match model.error->Some_0.data {
                            Some(d) => seq![
                                ("code"@, JsonV::Num(int_text(model.error->Some_0.code))),
                                ("message"@, JsonV::Str(model.error->Some_0.message)),
                            ] + seq![("data"@, d)],
                            None => seq![
                                ("code"@, JsonV::Num(int_text(model.error->Some_0.code))),
                                ("message"@, JsonV::Str(model.error->Some_0.message)),
                            ],
                        });
                    }
                    ms.push((String::from_str("error"), Json::Obj(es)));
                },
                None => {},
            },
        }
        proof {
            lemma_json_member_views(ms@);
        }
        let r = Json::Obj(ms);
        proof {
            assert(json_member_views(ms@) =~= match response_json(model) {
                JsonV::Obj(target) => target,
                _ => Seq::<(Seq<char>, JsonV)>::empty(),
            });
        }
        r
    }
}

// ------------------------------------------------------------------
// Payload records
// ------------------------------------------------------------------

/// What the server calls itself.
pub struct ServerInfo {
    pub name: String,
    pub version: String,
}

/// What the client calls itself.
pub struct ClientInfo {
    pub name: String,
    pub version: String,
}

/// The protocol revision the server answers with.
pub struct ProtocolVersion {
    pub major: u32,
    pub minor: u32,
}

impl Default for ProtocolVersion {
    /// The revision this server speaks.
    fn default() -> (r: Self)
        ensures
            r.major == 1 && r.minor == 0,
    {
        ProtocolVersion { major: 1, minor: 0 }
    }
}

/// The server's tool-related capability advertisement.
pub struct ToolsCapability {
    pub list_changed: Option<bool>,
}

/// A client capability over filesystem roots.
pub struct RootsCapability {
    pub list_changed: Option<bool>,
}

/// A client capability for model sampling.
pub struct SamplingCapability {}

/// A server capability for log forwarding.
pub struct LoggingCapability {}

/// A server capability over prompt templates.
pub struct PromptsCapability {
    pub list_changed: Option<bool>,
}

/// A server capability over readable resources.
pub struct ResourcesCapability {
    pub subscribe: Option<bool>,
    pub list_changed: Option<bool>,
}

/// A tool the server offers: its name, what it does, and the shape of
/// its arguments.
pub struct Tool {
    pub name: String,
    pub description: String,
    pub input_schema: Json,
}

/// The payload answering `tools/list`.
pub struct ListToolsResult {
    pub tools: Vec<Tool>,
}

/// One piece of content in a tool's answer.
pub enum ToolCallContent {
    Text { text: String },
}

/// The payload answering `tools/call`.
pub struct CallToolResult {
    pub content: Vec<ToolCallContent>,
    pub is_error: Option<bool>,
}

/// The parameters of a `tools/call` request.
pub struct CallToolParams {
    pub name: String,
    pub arguments: Option<Json>,
}

/// The JSON document a `serverInfo` payload is written as.
pub open spec fn server_info_json(name: Seq<char>, version: Seq<char>) -> JsonV {
    JsonV::Obj(seq![("name"@, JsonV::Str(name)), ("version"@, JsonV::Str(version))])
}

impl ServerInfo {
    /// The document this payload is written as.
    pub fn to_json(&self) -> (r: Json)
        ensures
            r@ == server_info_json(self.name@, self.version@),
    {
        let mut ms: Vec<(String, Json)> = Vec::new();
        ms.push((String::from_str("name"), Json::Str(self.name.clone())));
        ms.push((String::from_str("version"), Json::Str(self.version.clone())));
        proof {
            lemma_json_member_views(ms@);
            assert(json_member_views(ms@) =~= seq![
                ("name"@, JsonV::Str(self.name@)),
                ("version"@, JsonV::Str(self.version@)),
            ]);
        }
        Json::Obj(ms)
    }
}

/// The JSON document a protocol revision is written as.
pub open spec fn protocol_version_json(major: nat, minor: nat) -> JsonV {
    JsonV::Obj(seq![
        ("major"@, JsonV::Num(dec_digits(major))),
        ("minor"@, JsonV::Num(dec_digits(minor))),
    ])
}

impl ProtocolVersion {
    /// The document this payload is written as.
    pub fn to_json(&self) -> (r: Json)
        ensures
            r@ == protocol_version_json(self.major as nat, self.minor as nat),
    {
        let mut ms: Vec<(String, Json)> = Vec::new();
        ms.push((String::from_str("major"), Json::Num(u32_to_string(self.major))));
        ms.push((String::from_str("minor"), Json::Num(u32_to_string(self.minor))));
        proof {
            lemma_json_member_views(ms@);
            assert(json_member_views(ms@) =~= seq![
                ("major"@, JsonV::Num(dec_digits(self.major as nat))),
                ("minor"@, JsonV::Num(dec_digits(self.minor as nat))),
            ]);
        }
        Json::Obj(ms)
    }
}

/// The JSON document the capability advertisement is written as: the
/// one capability this server has is `tools`.
pub open spec fn server_capabilities_json(list_changed: bool) -> JsonV {
    JsonV::Obj(seq![
        ("tools"@, JsonV::Obj(seq![("listChanged"@, JsonV::Bool(list_changed))])),
    ])
}

impl ToolsCapability {
    /// The capability advertisement holding only this capability.
    pub fn capabilities_json(&self) -> (r: Json)
        ensures
            r@ == server_capabilities_json(self.list_changed == Some(true)),
    {
        let flag = match self.list_changed {
            Some(b) => b,
            None => false,
        };
        let mut inner: Vec<(String, Json)> = Vec::new();
        inner.push((String::from_str("listChanged"), Json::Bool(flag)));
        proof {
            lemma_json_member_views(inner@);
            assert(json_member_views(inner@) =~= seq![("listChanged"@, JsonV::Bool(flag))]);
        }
        let mut ms: Vec<(String, Json)> = Vec::new();
        ms.push((String::from_str("tools"), Json::Obj(inner)));
        proof {
            lemma_json_member_views(ms@);
            assert(json_member_views(ms@) =~= seq![
                ("tools"@, JsonV::Obj(seq![("listChanged"@, JsonV::Bool(flag))])),
            ]);
        }
        Json::Obj(ms)
    }
}

/// The JSON document a tool descriptor is written as.
pub open spec fn tool_json(name: Seq<char>, description: Seq<char>, schema: JsonV) -> JsonV {
    JsonV::Obj(seq![
        ("name"@, JsonV::Str(name)),
        ("description"@, JsonV::Str(description)),
        ("inputSchema"@, schema),
    ])
}

impl Tool {
    /// The document this descriptor is written as.
    pub fn to_json(&self) -> (r: Json)
        ensures
            r@ == tool_json(self.name@, self.description@, self.input_schema@),
    {
        let mut ms: Vec<(String, Json)> = Vec::new();
        ms.push((String::from_str("name"), Json::Str(self.name.clone())));
        ms.push((String::from_str("description"), Json::Str(self.description.clone())));
        ms.push((String::from_str("inputSchema"), self.input_schema.clone()));
        proof {
            lemma_json_member_views(ms@);
            assert(json_member_views(ms@) =~= seq![
                ("name"@, JsonV::Str(self.name@)),
                ("description"@, JsonV::Str(self.description@)),
                ("inputSchema"@, self.input_schema@),
            ]);
        }
        Json::Obj(ms)
    }
}

/// The JSON document a tool's answer is written as.
pub open spec fn call_tool_result_json(text: Seq<char>, is_error: bool) -> JsonV {
    JsonV::Obj(seq![
        ("content"@, JsonV::Arr(seq![
            JsonV::Obj(seq![("type"@, JsonV::Str("text"@)), ("text"@, JsonV::Str(text))]),
        ])),
        ("isError"@, JsonV::Bool(is_error)),
    ])
}

/// The answer of a tool call carrying one piece of text.
pub fn call_tool_result(text: String, is_error: bool) -> (r: Json)
    ensures
        r@ == call_tool_result_json(text@, is_error),
{
    let ghost text_view = text@;
    let mut item: Vec<(String, Json)> = Vec::new();
    item.push((String::from_str("type"), Json::Str(String::from_str("text"))));
    item.push((String::from_str("text"), Json::Str(text)));
    proof {
        lemma_json_member_views(item@);
        assert(json_member_views(item@) =~= seq![
            ("type"@, JsonV::Str("text"@)),
            ("text"@, JsonV::Str(text_view)),
        ]);
    }
    let mut arr: Vec<Json> = Vec::new();
    arr.push(Json::Obj(item));
    proof {
        crate::json::lemma_json_views(arr@);
        assert(crate::json::json_views(arr@) =~= seq![
            JsonV::Obj(seq![("type"@, JsonV::Str("text"@)), ("text"@, JsonV::Str(text_view))]),
        ]);
    }
    let mut ms: Vec<(String, Json)> = Vec::new();
    ms.push((String::from_str("content"), Json::Arr(arr)));
    ms.push((String::from_str("isError"), Json::Bool(is_error)));
    proof {
        lemma_json_member_views(ms@);
        assert(json_member_views(ms@) =~= match call_tool_result_json(text_view, is_error) {
            JsonV::Obj(target) => target,
            _ => Seq::<(Seq<char>, JsonV)>::empty(),
        });
    }
    Json::Obj(ms)
}

// ------------------------------------------------------------------
// Parameter checks
// ------------------------------------------------------------------

/// Whether a document holds well-formed `initialize` parameters:
/// `protocolVersion` a string, `capabilities` an object, `clientInfo`
/// an object with `name` and `version` strings.
pub open spec fn init_params_ok(p: JsonV) -> bool {
    &&& p is Obj
    &&& jv_get(p, "protocolVersion"@) matches Some(pv) && pv is Str
    &&& jv_get(p, "capabilities"@) matches Some(c) && c is Obj
    &&& jv_get(p, "clientInfo"@) matches Some(ci) && ci is Obj
    &&& jv_get(jv_get(p, "clientInfo"@)->Some_0, "name"@) matches Some(n) && n is Str
    &&& jv_get(jv_get(p, "clientInfo"@)->Some_0, "version"@) matches Some(ver) && ver is Str
}

/// The parameters of an `initialize` request.
pub struct InitializeParams {
    pub protocol_version: String,
    pub capabilities: Json,
    pub client_info: ClientInfo,
}

impl InitializeParams {
    /// Reads `initialize` parameters out of a document.
    pub fn from_json(p: &Json) -> (r: Option<InitializeParams>)
        ensures
            r is Some <==> init_params_ok(p@),
            r matches Some(ip) ==> {
                &&& JsonV::Str(ip.protocol_version@) == jv_get(p@, "protocolVersion"@)->Some_0
                &&& Some(ip.capabilities@) == jv_get(p@, "capabilities"@)
                &&& JsonV::Str(ip.client_info.name@) == jv_get(
                    jv_get(p@, "clientInfo"@)->Some_0,
                    "name"@,
                )->Some_0
                &&& JsonV::Str(ip.client_info.version@) == jv_get(
                    jv_get(p@, "clientInfo"@)->Some_0,
                    "version"@,
                )->Some_0
            },
    {
        if !p.is_object() {
            return None;
        }
        let protocol_version = match p.get("protocolVersion") {
            Some(pv) => match pv.as_string() {
                Some(s) => s.clone(),
                None => {
                    return None;
                },
            },
            None => {
                return None;
            },
        };
        let capabilities = match p.get("capabilities") {
            Some(c) => {
                if !c.is_object() {
                    return None;
                }
                c.clone()
            },
            None => {
                return None;
            },
        };
        let client_info = match p.get("clientInfo") {
            Some(ci) => {
                if !ci.is_object() {
                    return None;
                }
                let name = match ci.get("name") {
                    Some(n) => match n.as_string() {
                        Some(s) => s.clone(),
                        None => {
                            return None;
                        },
                    },
                    None => {
                        return None;
                    },
                };
                let version = match ci.get("version") {
                    Some(ver) => match ver.as_string() {
                        Some(s) => s.clone(),
                        None => {
                            return None;
                        },
                    },
                    None => {
                        return None;
                    },
                };
                ClientInfo { name, version }
            },
            None => {
                return None;
            },
        };
        Some(InitializeParams { protocol_version, capabilities, client_info })
    }
}

/// Whether a document holds well-formed `tools/call` parameters: an
/// object whose `name` field is a string.
pub open spec fn call_params_ok(p: JsonV) -> bool {
    &&& p is Obj
    &&& jv_get(p, "name"@) matches Some(n) && n is Str
}

impl CallToolParams {
    /// Reads `tools/call` parameters out of a document.
    pub fn from_json(p: &Json) -> (r: Option<CallToolParams>)
        ensures
            r is Some <==> call_params_ok(p@),
            r matches Some(cp) ==> {
                &&& JsonV::Str(cp.name@) == jv_get(p@, "name"@)->Some_0
                &&& match cp.arguments {
                    Some(a) => jv_get(p@, "arguments"@) == Some(a@),
                    None => jv_get(p@, "arguments"@) is None,
                }
            },
    {
        if !p.is_object() {
            return None;
        }
        let name = match p.get("name") {
            Some(n) => match n.as_string() {
                Some(s) => s.clone(),
                None => {
                    return None;
                },
            },
            None => {
                return None;
            },
        };
        let arguments = match p.get("arguments") {
            Some(a) => Some(a.clone()),
            None => None,
        };
        Some(CallToolParams { name, arguments })
    }
}

} // verus!
