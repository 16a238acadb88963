//! The protocol dispatcher.
//!
//! The server holds one session flag: it starts uninitialized, and a
//! successful `initialize` makes it initialized for the rest of its
//! life.  Every input line maps to exactly one outcome: a response
//! line, or — for a save whose pure checks passed — a request to the
//! embedding program to probe the filesystem and, if the probes pass
//! too, to perform one write.  The functions `step_state` and
//! `step_reply` state the whole transition; the laws at the end are
//! proved from them.

use vstd::prelude::*;
use crate::config::Config;
use crate::json::{json_text, json_views, jv_get, lemma_json_views, parse_json, str_eq, Json, JsonV};
use crate::registry::{find_tool, RegisteredTool, ToolKind, ToolOutcome, ToolRegistry};
use crate::rpc::{
    call_params_ok, call_tool_result, call_tool_result_json, envelope_ok, envelope_req,
    init_params_ok, response_json, server_capabilities_json, server_info_json, tool_json,
    protocol_version_json, CallToolParams, InitializeParams, JsonRpcRequest, JsonRpcResponse,
    McpError, McpErrorV, ProtocolVersion, ReqV, RespV, ServerInfo, Tool, ToolsCapability,
    INTERNAL_ERROR, INVALID_PARAMS, INVALID_REQUEST, METHOD_NOT_FOUND, PARSE_ERROR,
};
use crate::tools::{
    ping_result_json, save_params_ok, save_result_json, SaveMarkdownFileResult, TARGET_DIRECTORY,
};
use crate::vault::{
    filename_check, join_path, save_decision, vault_error_message, with_md, FsFacts, FsFactsV,
    VaultError, VaultOperations, VaultOpsV,
};

verus! {

broadcast use vstd::seq::group_seq_axioms, vstd::std_specs::vec::group_vec_axioms;

// ------------------------------------------------------------------
// Model
// ------------------------------------------------------------------

/// Model of the server.
pub struct McpServerV {
    pub initialized: bool,
    pub server_name: Seq<char>,
    pub server_version: Seq<char>,
    pub vault: VaultOpsV,
    pub tools: Seq<RegisteredTool>,
}

/// Model of a pending save, after the pure checks and before the
/// filesystem probes.
pub struct SaveTicketV {
    pub id: JsonV,
    pub filename: Seq<char>,
    pub content: Seq<char>,
    pub vault_path: Seq<char>,
    pub target_directory: Seq<char>,
    pub target_dir_path: Seq<char>,
    pub candidate: Seq<char>,
}

/// Model of an approved write.
pub struct WriteTicketV {
    pub id: JsonV,
    pub path: Seq<char>,
    pub content: Seq<char>,
    pub filename: Seq<char>,
}

/// Model of a line's outcome.
pub enum StepV {
    Reply(Seq<char>),
    FsCheck(SaveTicketV),
}

/// Model of a probed save's outcome.
pub enum SaveStepV {
    Reply(Seq<char>),
    Write(WriteTicketV),
}

/// A value-level outcome, before serialization.
pub enum RespondV {
    Resp(RespV),
    Check(SaveTicketV),
}

/// A success response.
pub open spec fn ok_resp(id: JsonV, result: JsonV) -> RespV {
    RespV { jsonrpc: "2.0"@, id, result: Some(result), error: None }
}

/// An error response.
pub open spec fn err_resp(id: JsonV, code: int, message: Seq<char>) -> RespV {
    RespV {
        jsonrpc: "2.0"@,
        id,
        result: None,
        error: Some(McpErrorV { code, message, data: None }),
    }
}

/// The line a response is written as.
pub open spec fn resp_line(r: RespV) -> Seq<char> {
    json_text(response_json(r))
}

/// The id a response echoes: the request's, or `null` when absent.
pub open spec fn req_id(req: ReqV) -> JsonV {
    match req.id {
        Some(v) => v,
        None => JsonV::Null,
    }
}

/// The payload answering `initialize`.
pub open spec fn init_result_json(name: Seq<char>, version: Seq<char>) -> JsonV {
    JsonV::Obj(
        seq![
            ("protocolVersion"@, protocol_version_json(1, 0)),
            ("serverInfo"@, server_info_json(name, version)),
            ("capabilities"@, server_capabilities_json(false)),
        ],
    )
}

/// The documents of the registered tools' descriptors, in order.
pub open spec fn regs_json(ts: Seq<RegisteredTool>) -> Seq<JsonV>
    decreases ts.len(),
{
    if ts.len() == 0 {
        Seq::empty()
    } else {
        seq![tool_json(ts[0].tool.name@, ts[0].tool.description@, ts[0].tool.input_schema@)]
            + regs_json(ts.drop_first())
    }
}

/// `regs_json` maps the descriptor rendering over the sequence.
pub proof fn lemma_regs_json(ts: Seq<RegisteredTool>)
    ensures
        regs_json(ts).len() == ts.len(),
        forall|i: int|
            0 <= i < ts.len() ==> regs_json(ts)[i] == tool_json(
                ts[i].tool.name@,
                ts[i].tool.description@,
                ts[i].tool.input_schema@,
            ),
    decreases ts.len(),
{
    if ts.len() > 0 {
        lemma_regs_json(ts.drop_first());
    }
}

/// The payload answering `tools/list`.
pub open spec fn tools_list_json(ts: Seq<RegisteredTool>) -> JsonV {
    JsonV::Obj(seq![("tools"@, JsonV::Arr(regs_json(ts)))])
}

/// Whether handling the request leaves the session initialized: a
/// well-formed `initialize` does, and nothing ever takes it back.
pub open spec fn next_initialized(st: McpServerV, req: ReqV) -> bool {
    ||| st.initialized
    ||| (req.method == "initialize"@ && (req.params matches Some(p) && init_params_ok(p)))
}

/// What `tools/call` answers, once the session gate has passed.
pub open spec fn call_tool_outcome(st: McpServerV, id: JsonV, params: Option<JsonV>) -> RespondV {
    match params {
        None => RespondV::Resp(err_resp(id, INVALID_PARAMS as int, "Missing call tool parameters"@)),
        Some(p) => if !call_params_ok(p) {
            RespondV::Resp(err_resp(id, INVALID_PARAMS as int, "Invalid call tool parameters"@))
        } else {
            let name = jv_get(p, "name"@)->Some_0->Str_0;
            let args = jv_get(p, "arguments"@);
            match find_tool(st.tools, name) {
                None => RespondV::Resp(
                    ok_resp(
                        id,
                        call_tool_result_json("Error: Tool '"@ + name + "' not found"@, true),
                    ),
                ),
                Some(t) => match t.kind {
                    ToolKind::Ping => RespondV::Resp(ok_resp(id, ping_result_json(args))),
                    ToolKind::SaveMarkdown => match args {
                        None => RespondV::Resp(
                            ok_resp(id, call_tool_result_json("Error: Missing arguments"@, true)),
                        ),
                        Some(a) => if !save_params_ok(a) {
                            RespondV::Resp(
                                ok_resp(
                                    id,
                                    call_tool_result_json(
                                        "Error: Invalid parameters for save_markdown_file"@,
                                        true,
                                    ),
                                ),
                            )
                        } else {
                            let filename = jv_get(a, "filename"@)->Some_0->Str_0;
                            let content = jv_get(a, "content"@)->Some_0->Str_0;
                            match filename_check(filename) {
                                Err(e) => RespondV::Resp(
                                    ok_resp(
                                        id,
                                        call_tool_result_json(
                                            "Error: "@ + vault_error_message(e),
                                            true,
                                        ),
                                    ),
                                ),
                                Ok(u) => RespondV::Check(
                                    SaveTicketV {
                                        id,
                                        filename,
                                        content,
                                        vault_path: st.vault.vault_path,
                                        target_directory: st.vault.target_directory,
                                        target_dir_path: join_path(
                                            st.vault.vault_path,
                                            st.vault.target_directory,
                                        ),
                                        candidate: join_path(
                                            join_path(st.vault.vault_path, st.vault.target_directory),
                                            with_md(filename),
                                        ),
                                    },
                                ),
                            }
                        },
                    },
                },
            }
        },
    }
}

/// What a request is answered with.
pub open spec fn respond(st: McpServerV, req: ReqV) -> RespondV {
    let id = req_id(req);
    if req.method == "initialize"@ {
        match req.params {
            None => RespondV::Resp(
                err_resp(id, INVALID_PARAMS as int, "Missing initialize parameters"@),
            ),
            Some(p) => if init_params_ok(p) {
                RespondV::Resp(ok_resp(id, init_result_json(st.server_name, st.server_version)))
            } else {
                RespondV::Resp(err_resp(id, INVALID_PARAMS as int, "Invalid initialize parameters"@))
            },
        }
    } else if req.method == "initialized"@ {
        RespondV::Resp(ok_resp(id, JsonV::Obj(Seq::empty())))
    } else if req.method == "tools/list"@ {
        if !st.initialized {
            RespondV::Resp(err_resp(id, INTERNAL_ERROR as int, "Server not initialized"@))
        } else {
            RespondV::Resp(ok_resp(id, tools_list_json(st.tools)))
        }
    } else if req.method == "tools/call"@ {
        if !st.initialized {
            RespondV::Resp(err_resp(id, INTERNAL_ERROR as int, "Server not initialized"@))
        } else {
            call_tool_outcome(st, id, req.params)
        }
    } else {
        RespondV::Resp(
            err_resp(id, METHOD_NOT_FOUND as int, "Method not found: "@ + req.method),
        )
    }
}

/// A value-level outcome, serialized.
pub open spec fn lift(out: RespondV) -> StepV {
    match out {
        RespondV::Resp(r) => StepV::Reply(resp_line(r)),
        RespondV::Check(t) => StepV::FsCheck(t),
    }
}

/// The id an ill-formed envelope is answered under.
pub open spec fn bad_envelope_id(v: JsonV) -> JsonV {
    match jv_get(v, "id"@) {
        Some(x) => x,
        None => JsonV::Null,
    }
}

/// Whether the session is initialized after one line.
pub open spec fn step_state(st: McpServerV, line: Seq<char>) -> bool {
    match parse_json(line) {
        None => st.initialized,
        Some(v) => if envelope_ok(v) {
            next_initialized(st, envelope_req(v))
        } else {
            st.initialized
        },
    }
}

/// What one line is answered with.
pub open spec fn step_reply(st: McpServerV, line: Seq<char>) -> StepV {
    match parse_json(line) {
        None => StepV::Reply(resp_line(err_resp(JsonV::Null, PARSE_ERROR as int, "Parse error"@))),
        Some(v) => if envelope_ok(v) {
            lift(respond(st, envelope_req(v)))
        } else {
            StepV::Reply(
                resp_line(err_resp(bad_envelope_id(v), INVALID_REQUEST as int, "Invalid Request"@)),
            )
        },
    }
}

/// What a probed save is answered with: a refusal becomes a reply,
/// an allowed save becomes the one write the program may perform.
pub open spec fn resolve_model(t: SaveTicketV, facts: FsFactsV) -> SaveStepV {
    let ops = VaultOpsV { vault_path: t.vault_path, target_directory: t.target_directory };
    match save_decision(ops, t.filename, facts) {
        Err(e) => SaveStepV::Reply(
            resp_line(ok_resp(t.id, call_tool_result_json("Error: "@ + vault_error_message(e), true))),
        ),
        Ok(path) => SaveStepV::Write(
            WriteTicketV { id: t.id, path, content: t.content, filename: t.filename },
        ),
    }
}

/// What a performed (or failed) write is answered with.
pub open spec fn finish_model(t: WriteTicketV, write_ok: bool) -> Seq<char> {
    if write_ok {
        resp_line(
            ok_resp(
                t.id,
                call_tool_result_json(json_text(save_result_json(t.path, t.filename)), false),
            ),
        )
    } else {
        resp_line(
            ok_resp(
                t.id,
                call_tool_result_json("Error: Failed to write file: "@ + t.path, true),
            ),
        )
    }
}

// ------------------------------------------------------------------
// Laws
// ------------------------------------------------------------------

/// A well-formed `initialize` request moves an uninitialized session
/// to initialized, and its answer carries the configured server name
/// and version under `serverInfo`.
pub proof fn lemma_initialize_transitions(st: McpServerV, req: ReqV)
    requires
        !st.initialized,
        req.method == "initialize"@,
        req.params matches Some(p) && init_params_ok(p),
    ensures
        next_initialized(st, req),
        respond(st, req) == RespondV::Resp(
            ok_resp(req_id(req), init_result_json(st.server_name, st.server_version)),
        ),
        jv_get(init_result_json(st.server_name, st.server_version), "serverInfo"@) == Some(
            server_info_json(st.server_name, st.server_version),
        ),
{
    reveal_strlit("protocolVersion");
    reveal_strlit("serverInfo");
    let result = init_result_json(st.server_name, st.server_version);
    let ms = seq![
        ("protocolVersion"@, protocol_version_json(1, 0)),
        ("serverInfo"@, server_info_json(st.server_name, st.server_version)),
        ("capabilities"@, server_capabilities_json(false)),
    ];
    assert("protocolVersion"@ != "serverInfo"@) by {
        assert("protocolVersion"@.len() == 15);
        assert("serverInfo"@.len() == 10);
    }
    assert(ms.drop_first() =~= seq![
        ("serverInfo"@, server_info_json(st.server_name, st.server_version)),
        ("capabilities"@, server_capabilities_json(false)),
    ]);
    assert(crate::json::obj_get(ms, "serverInfo"@) == crate::json::obj_get(
        ms.drop_first(),
        "serverInfo"@,
    ));
    assert(crate::json::obj_get(ms.drop_first(), "serverInfo"@) == Some(
        server_info_json(st.server_name, st.server_version),
    ));
    assert(result == JsonV::Obj(ms));
    assert(jv_get(result, "serverInfo"@) == Some(
        server_info_json(st.server_name, st.server_version),
    ));
}

/// The session never leaves the initialized state: whatever comes
/// next, an initialized session stays initialized, so the transition
/// of the first successful `initialize` happens exactly once.
pub proof fn lemma_initialized_is_stable(st: McpServerV, req: ReqV)
    requires
        st.initialized,
    ensures
        next_initialized(st, req),
{
}

/// A gated method while uninitialized is refused with the internal
/// error code, and the session does not change.
pub proof fn lemma_uninitialized_gate(st: McpServerV, req: ReqV)
    requires
        !st.initialized,
        req.method == "tools/list"@ || req.method == "tools/call"@,
    ensures
        !next_initialized(st, req),
        respond(st, req) == RespondV::Resp(
            err_resp(req_id(req), INTERNAL_ERROR as int, "Server not initialized"@),
        ),
{
    reveal_strlit("initialize");
    reveal_strlit("initialized");
    reveal_strlit("tools/list");
    reveal_strlit("tools/call");
    assert(req.method != "initialize"@) by {
        if req.method == "tools/list"@ {
            assert("tools/list"@[0] == 't');
            assert("initialize"@[0] == 'i');
        } else {
            assert("tools/call"@[0] == 't');
            assert("initialize"@[0] == 'i');
        }
    }
    assert(req.method != "initialized"@) by {
        assert("initialized"@.len() == 11);
        assert("tools/list"@.len() == 10);
        assert("tools/call"@.len() == 10);
    }
}

/// No method but `initialize` ever changes the session.
pub proof fn lemma_only_initialize_transitions(st: McpServerV, req: ReqV)
    requires
        req.method != "initialize"@,
    ensures
        next_initialized(st, req) == st.initialized,
{
}

/// Every immediate response carries exactly one of the result and
/// error halves.
pub proof fn lemma_one_response_half(st: McpServerV, req: ReqV)
    ensures
        respond(st, req) matches RespondV::Resp(r) ==> ((r.result is Some) != (r.error is Some)),
{
}

/// Every outcome echoes the request's id: an immediate response
/// carries it, and a pending save's ticket carries it into the
/// eventual response.
pub proof fn lemma_id_echo(st: McpServerV, req: ReqV)
    ensures
        match respond(st, req) {
            RespondV::Resp(r) => r.id == req_id(req),
            RespondV::Check(t) => t.id == req_id(req),
        },
{
}

/// A ticket's id reaches the response whichever way the probes go:
/// an approved write keeps it, and a refusal answers under it.
pub proof fn lemma_ticket_id_kept(t: SaveTicketV, facts: FsFactsV)
    ensures
        (resolve_model(t, facts) matches SaveStepV::Write(w) ==> w.id == t.id),
        (resolve_model(t, facts) matches SaveStepV::Reply(line) ==> line == resp_line(
            ok_resp(
                t.id,
                call_tool_result_json(
                    "Error: "@ + vault_error_message(
                        save_decision(
                            VaultOpsV {
                                vault_path: t.vault_path,
                                target_directory: t.target_directory,
                            },
                            t.filename,
                            facts,
                        )->Err_0,
                    ),
                    true,
                ),
            ),
        )),
        (resolve_model(t, facts) matches SaveStepV::Write(w) ==> finish_model(w, true) == resp_line(
            ok_resp(
                t.id,
                call_tool_result_json(json_text(save_result_json(w.path, t.filename)), false),
            ),
        )),
{
}

// ------------------------------------------------------------------
// Executable types
// ------------------------------------------------------------------

/// A pending save: the pure checks passed; the embedding program must
/// now probe the filesystem and resolve the ticket.
pub struct SaveTicket {
    pub id: Json,
    pub filename: String,
    pub content: String,
    pub vault_path: String,
    pub target_directory: String,
    pub target_dir_path: String,
    pub candidate: String,
}

impl View for SaveTicket {
    type V = SaveTicketV;

    open spec fn view(&self) -> SaveTicketV {
        SaveTicketV {
            id: self.id@,
            filename: self.filename@,
            content: self.content@,
            vault_path: self.vault_path@,
            target_directory: self.target_directory@,
            target_dir_path: self.target_dir_path@,
            candidate: self.candidate@,
        }
    }
}

/// An approved write: the embedding program may write `content` to
/// `path`, and must then finish the ticket with the write's outcome.
pub struct WriteTicket {
    pub id: Json,
    pub path: String,
    pub content: String,
    pub filename: String,
}

impl View for WriteTicket {
    type V = WriteTicketV;

    open spec fn view(&self) -> WriteTicketV {
        WriteTicketV {
            id: self.id@,
            path: self.path@,
            content: self.content@,
            filename: self.filename@,
        }
    }
}

/// What one input line comes to.
pub enum DispatchStep {
    /// The response line to write out.
    Reply(String),
    /// A save awaiting filesystem probes.
    FsCheck(SaveTicket),
}

impl View for DispatchStep {
    type V = StepV;

    open spec fn view(&self) -> StepV {
        match self {
            DispatchStep::Reply(s) => StepV::Reply(s@),
            DispatchStep::FsCheck(t) => StepV::FsCheck(t@),
        }
    }
}

/// What a probed save comes to.
pub enum SaveStep {
    /// The response line to write out.
    Reply(String),
    /// The one write the program may perform.
    Write(WriteTicket),
}

impl View for SaveStep {
    type V = SaveStepV;

    open spec fn view(&self) -> SaveStepV {
        match self {
            SaveStep::Reply(s) => SaveStepV::Reply(s@),
            SaveStep::Write(t) => SaveStepV::Write(t@),
        }
    }
}

/// Serializes a response to its line.
fn reply_line(resp: JsonRpcResponse) -> (r: String)
    ensures
        r@ == resp_line(resp@),
{
    let j = resp.to_json();
    j.to_text()
}

impl SaveTicket {
    /// Resolves the ticket against the filesystem probes.
    pub fn resolve(self, facts: &FsFacts) -> (r: SaveStep)
        ensures
            r@ == resolve_model(self@, facts@),
    {
        let SaveTicket { id, filename, content, vault_path, target_directory, .. } = self;
        let ops = VaultOperations::new(vault_path, target_directory);
        match ops.save_markdown_file(filename.as_str(), facts) {
            Err(e) => {
                let text = String::from_str("Error: ").concat(e.message().as_str());
                SaveStep::Reply(reply_line(JsonRpcResponse::success(id, call_tool_result(text, true))))
            },
            Ok(path) => SaveStep::Write(WriteTicket { id, path, content, filename }),
        }
    }
}

impl WriteTicket {
    /// Turns the write's outcome into the response line.
    pub fn finish(self, write_ok: bool) -> (r: String)
        ensures
            r@ == finish_model(self@, write_ok),
    {
        if write_ok {
            let result = SaveMarkdownFileResult::new(self.path, self.filename.as_str());
            let doc = result.to_json();
            let text = doc.to_text();
            reply_line(JsonRpcResponse::success(self.id, call_tool_result(text, false)))
        } else {
            let text = String::from_str("Error: Failed to write file: ").concat(self.path.as_str());
            reply_line(JsonRpcResponse::success(self.id, call_tool_result(text, true)))
        }
    }
}

// ------------------------------------------------------------------
// The server
// ------------------------------------------------------------------

/// The protocol dispatcher and its session state.
pub struct McpServer {
    config: Config,
    initialized: bool,
    vault_ops: VaultOperations,
    registry: ToolRegistry,
}

impl View for McpServer {
    type V = McpServerV;

    closed spec fn view(&self) -> McpServerV {
        McpServerV {
            initialized: self.initialized,
            server_name: self.config.server.name@,
            server_version: self.config.server.version@,
            vault: self.vault_ops@,
            tools: self.registry.spec_tools(),
        }
    }
}

/// The shape of the markdown writer's arguments, as advertised.
pub open spec fn save_schema_json() -> JsonV {
    JsonV::Obj(
        seq![
            ("type"@, JsonV::Str("object"@)),
            (
                "properties"@,
                JsonV::Obj(
                    seq![
                        (
                            "filename"@,
                            JsonV::Obj(
                                seq![
                                    ("type"@, JsonV::Str("string"@)),
                                    (
                                        "description"@,
                                        JsonV::Str(
                                            "The filename for the markdown file (without .md extension)"@,
                                        ),
                                    ),
                                ],
                            ),
                        ),
                        (
                            "content"@,
                            JsonV::Obj(
                                seq![
                                    ("type"@, JsonV::Str("string"@)),
                                    ("description"@, JsonV::Str("The markdown content to save"@)),
                                ],
                            ),
                        ),
                    ],
                ),
            ),
            (
                "required"@,
                JsonV::Arr(seq![JsonV::Str("filename"@), JsonV::Str("content"@)]),
            ),
        ],
    )
}

/// Builds the markdown writer's advertised argument shape.
fn save_schema_x() -> (r: Json)
    ensures
        r@ == save_schema_json(),
{
    let mut filename: Vec<(String, Json)> = Vec::new();
    filename.push((String::from_str("type"), Json::Str(String::from_str("string"))));
    filename.push(
        (
            String::from_str("description"),
            Json::Str(String::from_str("The filename for the markdown file (without .md extension)")),
        ),
    );
    proof {
        crate::json::lemma_json_member_views(filename@);
        assert(crate::json::json_member_views(filename@) =~= seq![
            ("type"@, JsonV::Str("string"@)),
            (
                "description"@,
                JsonV::Str("The filename for the markdown file (without .md extension)"@),
            ),
        ]);
    }
    let mut content: Vec<(String, Json)> = Vec::new();
    content.push((String::from_str("type"), Json::Str(String::from_str("string"))));
    content.push(
        (
            String::from_str("description"),
            Json::Str(String::from_str("The markdown content to save")),
        ),
    );
    proof {
        crate::json::lemma_json_member_views(content@);
        assert(crate::json::json_member_views(content@) =~= seq![
            ("type"@, JsonV::Str("string"@)),
            ("description"@, JsonV::Str("The markdown content to save"@)),
        ]);
    }
    let mut properties: Vec<(String, Json)> = Vec::new();
    properties.push((String::from_str("filename"), Json::Obj(filename)));
    properties.push((String::from_str("content"), Json::Obj(content)));
    proof {
        crate::json::lemma_json_member_views(properties@);
        assert(crate::json::json_member_views(properties@) =~= seq![
            (
                "filename"@,
                JsonV::Obj(
                    seq![
                        ("type"@, JsonV::Str("string"@)),
                        (
                            "description"@,
                            JsonV::Str("The filename for the markdown file (without .md extension)"@),
                        ),
                    ],
                ),
            ),
            (
                "content"@,
                JsonV::Obj(
                    seq![
                        ("type"@, JsonV::Str("string"@)),
                        ("description"@, JsonV::Str("The markdown content to save"@)),
                    ],
                ),
            ),
        ]);
    }
    let mut required: Vec<Json> = Vec::new();
    required.push(Json::Str(String::from_str("filename")));
    required.push(Json::Str(String::from_str("content")));
    proof {
        lemma_json_views(required@);
        assert(json_views(required@) =~= seq![JsonV::Str("filename"@), JsonV::Str("content"@)]);
    }
    let mut ms: Vec<(String, Json)> = Vec::new();
    ms.push((String::from_str("type"), Json::Str(String::from_str("object"))));
    ms.push((String::from_str("properties"), Json::Obj(properties)));
    ms.push((String::from_str("required"), Json::Arr(required)));
    proof {
        crate::json::lemma_json_member_views(ms@);
        assert(crate::json::json_member_views(ms@) =~= match save_schema_json() {
            JsonV::Obj(target) => target,
            _ => Seq::<(Seq<char>, JsonV)>::empty(),
        });
    }
    Json::Obj(ms)
}

impl McpServer {
    /// A server over the configured vault, offering the markdown
    /// writer, with the session uninitialized.
    pub fn new(config: Config) -> (r: Self)
        ensures
            !r@.initialized,
            r@.server_name == config.server.name@,
            r@.server_version == config.server.version@,
            r@.vault == (VaultOpsV { vault_path: config.vault_path@, target_directory: TARGET_DIRECTORY@ }),
            r@.tools.len() == 1,
            r@.tools[0].tool.name@ == "save_markdown_file"@,
            r@.tools[0].kind is SaveMarkdown,
            r@.tools[0].tool.input_schema@ == save_schema_json(),
            r.wf(),
    {
        let vault_ops = VaultOperations::new(
            config.vault_path.clone(),
            String::from_str(TARGET_DIRECTORY),
        );
        let mut registry = ToolRegistry::new();
        let descriptor = Tool {
            name: String::from_str("save_markdown_file"),
            description: String::from_str("Save a markdown file to the Obsidian vault"),
            input_schema: save_schema_x(),
        };
        let entry = RegisteredTool { tool: descriptor, kind: ToolKind::SaveMarkdown };
        let outcome = registry.register(entry);
        proof {
            assert(outcome is Ok);
        }
        McpServer { config, initialized: false, vault_ops, registry }
    }

    /// Tool names are unique among the registered tools.
    pub open spec fn wf(&self) -> bool {
        forall|i: int, j: int|
            0 <= i < j < self@.tools.len() ==> (#[trigger] self@.tools[i]).tool.name@ != (
            #[trigger] self@.tools[j]).tool.name@
    }

    /// Offers one more tool, unless its name is taken; a refusal
    /// changes nothing, and the session is untouched either way.
    pub fn register(&mut self, tool: RegisteredTool) -> (r: Result<(), String>)
        requires
            old(self).wf(),
        ensures
            final(self).wf(),
            match r {
                Ok(u) => !crate::registry::has_tool(old(self)@.tools, tool.tool.name@)
                    && final(self)@ == (McpServerV { tools: old(self)@.tools.push(tool), ..old(self)@ }),
                Err(m) => crate::registry::has_tool(old(self)@.tools, tool.tool.name@)
                    && final(self)@ == old(self)@
                    && m@ == "Tool '"@ + tool.tool.name@ + "' is already registered"@,
            },
    {
        self.registry.register(tool)
    }

    /// Handles `initialize`: valid parameters initialize the session
    /// and are answered with the server's identity and capabilities;
    /// anything else is refused without touching the session.
    fn handle_initialize(&mut self, id: Json, params: Option<Json>) -> (r: String)
        ensures
            final(self)@ == (McpServerV {
                initialized: old(self)@.initialized || (params matches Some(p) && init_params_ok(
                    p@,
                )),
                ..old(self)@
            }),
            ({
                let idv = id@;
                let st = old(self)@;
                r@ == match params {
                    None => resp_line(
                        err_resp(idv, INVALID_PARAMS as int, "Missing initialize parameters"@),
                    ),
                    Some(p) => if init_params_ok(p@) {
                        resp_line(ok_resp(idv, init_result_json(st.server_name, st.server_version)))
                    } else {
                        resp_line(
                            err_resp(idv, INVALID_PARAMS as int, "Invalid initialize parameters"@),
                        )
                    },
                }
            }),
    {
        let p = match params {
            Some(p) => p,
            None => {
                return reply_line(
                    JsonRpcResponse::error(
                        id,
                        McpError::invalid_params("Missing initialize parameters"),
                    ),
                );
            },
        };
        match InitializeParams::from_json(&p) {
            None => reply_line(
                JsonRpcResponse::error(id, McpError::invalid_params("Invalid initialize parameters")),
            ),
            Some(_parsed) => {
                self.initialized = true;
                let result = self.init_result_x();
                reply_line(JsonRpcResponse::success(id, result))
            },
        }
    }

    /// Builds the `initialize` answer.
    fn init_result_x(&self) -> (r: Json)
        ensures
            r@ == init_result_json(self@.server_name, self@.server_version),
    {
        let pv = ProtocolVersion::default();
        let info = ServerInfo {
            name: self.config.server.name.clone(),
            version: self.config.server.version.clone(),
        };
        let caps = ToolsCapability { list_changed: Some(false) };
        let mut ms: Vec<(String, Json)> = Vec::new();
        ms.push((String::from_str("protocolVersion"), pv.to_json()));
        ms.push((String::from_str("serverInfo"), info.to_json()));
        ms.push((String::from_str("capabilities"), caps.capabilities_json()));
        proof {
            crate::json::lemma_json_member_views(ms@);
            assert(crate::json::json_member_views(ms@) =~= match init_result_json(
                self@.server_name,
                self@.server_version,
            ) {
                JsonV::Obj(target) => target,
                _ => Seq::<(Seq<char>, JsonV)>::empty(),
            });
        }
        Json::Obj(ms)
    }

    /// Handles `tools/list` once the session gate has passed.
    fn handle_list_tools(&self, id: Json) -> (r: String)
        ensures
            r@ == resp_line(ok_resp(id@, tools_list_json(self@.tools))),
    {
        let descrs = self.registry.list_tools();
        let n = descrs.len();
        let mut arr: Vec<Json> = Vec::new();
        let mut i: usize = 0;
        proof {
            lemma_regs_json(self@.tools);
        }
        while i < n
            invariant
                i <= n,
                n == descrs@.len(),
                descrs@.len() == self@.tools.len(),
                forall|k: int|
                    0 <= k < descrs@.len() ==> {
                        &&& (#[trigger] descrs@[k]).name@ == self@.tools[k].tool.name@
                        &&& descrs@[k].description@ == self@.tools[k].tool.description@
                        &&& descrs@[k].input_schema@ == self@.tools[k].tool.input_schema@
                    },
                regs_json(self@.tools).len() == self@.tools.len(),
                forall|k: int|
                    0 <= k < self@.tools.len() ==> regs_json(self@.tools)[k] == tool_json(
                        self@.tools[k].tool.name@,
                        self@.tools[k].tool.description@,
                        self@.tools[k].tool.input_schema@,
                    ),
                arr@.len() == i,
                forall|k: int|
                    0 <= k < i ==> crate::json::json_view(#[trigger] arr@[k]) == regs_json(
                        self@.tools,
                    )[k],
            decreases n - i,
        {
            arr.push(descrs[i].to_json());
            i = i + 1;
        }
        proof {
            lemma_json_views(arr@);
            assert(json_views(arr@) =~= regs_json(self@.tools));
        }
        let mut ms: Vec<(String, Json)> = Vec::new();
        ms.push((String::from_str("tools"), Json::Arr(arr)));
        proof {
            crate::json::lemma_json_member_views(ms@);
            assert(crate::json::json_member_views(ms@) =~= seq![
                ("tools"@, JsonV::Arr(regs_json(self@.tools))),
            ]);
        }
        reply_line(JsonRpcResponse::success(id, Json::Obj(ms)))
    }

    /// Handles `tools/call` once the session gate has passed: a
    /// protocol-level fault is an error envelope; everything a tool
    /// itself refuses is a success envelope whose payload says so.
    fn handle_call_tool(&self, id: Json, params: Option<Json>) -> (r: DispatchStep)
        ensures
            r@ == lift(
                call_tool_outcome(
                    self@,
                    id@,
                    match params {
                        Some(p) => Some(p@),
                        None => None,
                    },
                ),
            ),
    {
        let p = match params {
            Some(p) => p,
            None => {
                return DispatchStep::Reply(
                    reply_line(
                        JsonRpcResponse::error(
                            id,
                            McpError::invalid_params("Missing call tool parameters"),
                        ),
                    ),
                );
            },
        };
        let cp = match CallToolParams::from_json(&p) {
            Some(cp) => cp,
            None => {
                return DispatchStep::Reply(
                    reply_line(
                        JsonRpcResponse::error(
                            id,
                            McpError::invalid_params("Invalid call tool parameters"),
                        ),
                    ),
                );
            },
        };
        match self.registry.execute_tool(cp.name.as_str(), cp.arguments) {
            ToolOutcome::NotFound => {
                let text = String::from_str("Error: Tool '").concat(cp.name.as_str()).concat(
                    "' not found",
                );
                proof {
                    assert(text@ =~= "Error: Tool '"@ + cp.name@ + "' not found"@);
                }
                DispatchStep::Reply(
                    reply_line(JsonRpcResponse::success(id, call_tool_result(text, true))),
                )
            },
            ToolOutcome::Done(out) => DispatchStep::Reply(
                reply_line(JsonRpcResponse::success(id, out)),
            ),
            ToolOutcome::Refused(m) => {
                let text = String::from_str("Error: ").concat(m.as_str());
                proof {
                    reveal_strlit("Error: ");
                    reveal_strlit("Missing arguments");
                    reveal_strlit("Error: Missing arguments");
                    reveal_strlit("Invalid parameters for save_markdown_file");
                    reveal_strlit("Error: Invalid parameters for save_markdown_file");
                    if m@ == "Missing arguments"@ {
                        assert(text@ =~= "Error: Missing arguments"@);
                    } else {
                        assert(text@ =~= "Error: Invalid parameters for save_markdown_file"@);
                    }
                }
                DispatchStep::Reply(
                    reply_line(JsonRpcResponse::success(id, call_tool_result(text, true))),
                )
            },
            ToolOutcome::Save(sp) => {
                match VaultOperations::validate_filename(sp.filename.as_str()) {
                    Err(e) => {
                        let text = String::from_str("Error: ").concat(e.message().as_str());
                        DispatchStep::Reply(
                            reply_line(JsonRpcResponse::success(id, call_tool_result(text, true))),
                        )
                    },
                    Ok(u) => {
                        let candidate = self.vault_ops.candidate_path(sp.filename.as_str());
                        let target_dir_path = self.vault_ops.get_target_directory_path();
                        DispatchStep::FsCheck(
                            SaveTicket {
                                id,
                                filename: sp.filename,
                                content: sp.content,
                                vault_path: self.vault_ops.vault_path().clone(),
                                target_directory: self.vault_ops.target_directory().clone(),
                                target_dir_path,
                                candidate,
                            },
                        )
                    },
                }
            },
        }
    }

    /// Handles one input line: parses it, gates the session, routes
    /// the method, and either answers at once or hands back a save
    /// awaiting filesystem probes.
    pub fn handle_request(&mut self, line: &str) -> (r: DispatchStep)
        ensures
            final(self)@ == (McpServerV { initialized: step_state(old(self)@, line@), ..old(self)@ }),
            r@ == step_reply(old(self)@, line@),
    {
        let doc = match Json::parse(line) {
            Some(doc) => doc,
            None => {
                let err = McpError { code: PARSE_ERROR, message: String::from_str("Parse error"), data: None };
                return DispatchStep::Reply(reply_line(JsonRpcResponse::error(Json::Null, err)));
            },
        };
        let req = match JsonRpcRequest::from_json(&doc) {
            Some(req) => req,
            None => {
                let id = match doc.get("id") {
                    Some(x) => x.clone(),
                    None => Json::Null,
                };
                return DispatchStep::Reply(
                    reply_line(JsonRpcResponse::error(id, McpError::invalid_request("Invalid Request"))),
                );
            },
        };
        let JsonRpcRequest { id, method, params, .. } = req;
        let id = match id {
            Some(v) => v,
            None => Json::Null,
        };
        if str_eq(method.as_str(), "initialize") {
            DispatchStep::Reply(self.handle_initialize(id, params))
        } else if str_eq(method.as_str(), "initialized") {
            let empty: Vec<(String, Json)> = Vec::new();
            proof {
                assert(crate::json::json_member_views(empty@) =~= Seq::<(Seq<char>, JsonV)>::empty());
            }
            DispatchStep::Reply(reply_line(JsonRpcResponse::success(id, Json::Obj(empty))))
        } else if str_eq(method.as_str(), "tools/list") {
            if !self.initialized {
                DispatchStep::Reply(
                    reply_line(
                        JsonRpcResponse::error(id, McpError::internal_error("Server not initialized")),
                    ),
                )
            } else {
                DispatchStep::Reply(self.handle_list_tools(id))
            }
        } else if str_eq(method.as_str(), "tools/call") {
            if !self.initialized {
                DispatchStep::Reply(
                    reply_line(
                        JsonRpcResponse::error(id, McpError::internal_error("Server not initialized")),
                    ),
                )
            } else {
                self.handle_call_tool(id, params)
            }
        } else {
            DispatchStep::Reply(
                reply_line(JsonRpcResponse::error(id, McpError::method_not_found(method.as_str()))),
            )
        }
    }
}

} // verus!
