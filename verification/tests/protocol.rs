use obsidian_mcp_server::config::Config;
use obsidian_mcp_server::json::Json;
use obsidian_mcp_server::server::{DispatchStep, McpServer, SaveStep};
use obsidian_mcp_server::registry::{RegisteredTool, ToolKind};
use obsidian_mcp_server::rpc::Tool;
use obsidian_mcp_server::tools::PingTool;
use obsidian_mcp_server::vault::FsFacts;

fn server() -> McpServer {
    McpServer::new(Config::default())
}

fn reply_of(step: DispatchStep) -> Json {
    match step {
        DispatchStep::Reply(line) => Json::parse(&line).expect("the response must be one JSON line"),
        DispatchStep::FsCheck(_) => panic!("expected an immediate reply"),
    }
}

fn field<'a>(v: &'a Json, key: &str) -> &'a Json {
    v.get(key).expect("field must be present")
}

fn text_of(v: &Json) -> String {
    match v {
        Json::Str(s) => s.clone(),
        _ => panic!("expected a string"),
    }
}

fn raw_num(v: &Json) -> String {
    match v {
        Json::Num(s) => s.clone(),
        _ => panic!("expected a number"),
    }
}

const INIT_LINE: &str = "{\"jsonrpc\":\"2.0\",\"id\":1,\"method\":\"initialize\",\"params\":{\"protocolVersion\":\"2024-11-05\",\"capabilities\":{},\"clientInfo\":{\"name\":\"t\",\"version\":\"0\"}}}";

#[test]
fn initialize_reports_the_configured_identity() {
    let mut srv = server();
    let resp = reply_of(srv.handle_request(INIT_LINE));
    assert_eq!(raw_num(field(&resp, "id")), "1");
    let result = field(&resp, "result");
    let info = field(result, "serverInfo");
    assert_eq!(text_of(field(info, "name")), "obsidian-mcp-server");
    assert_eq!(text_of(field(info, "version")), "0.1.0");
    assert!(resp.get("error").is_none());
}

#[test]
fn initialize_with_bad_params_keeps_the_session_closed() {
    let mut srv = server();
    let resp = reply_of(srv.handle_request(
        "{\"jsonrpc\":\"2.0\",\"id\":7,\"method\":\"initialize\",\"params\":{\"protocolVersion\":\"x\"}}",
    ));
    let error = field(&resp, "error");
    assert_eq!(raw_num(field(error, "code")), "-32602");
    // The session must still be uninitialized.
    let listed = reply_of(srv.handle_request("{\"jsonrpc\":\"2.0\",\"id\":8,\"method\":\"tools/list\"}"));
    assert_eq!(raw_num(field(field(&listed, "error"), "code")), "-32603");
}

#[test]
fn gated_methods_before_initialize_fail_with_internal_code() {
    let mut srv = server();
    let line = "{\"jsonrpc\":\"2.0\",\"id\":2,\"method\":\"tools/call\",\"params\":{\"name\":\"save_markdown_file\",\"arguments\":{\"filename\":\"note\",\"content\":\"hi\"}}}";
    let resp = reply_of(srv.handle_request(line));
    let error = field(&resp, "error");
    assert_eq!(raw_num(field(error, "code")), "-32603");
    assert_eq!(text_of(field(error, "message")), "Server not initialized");
}

#[test]
fn unknown_method_fails_with_method_not_found() {
    let mut srv = server();
    reply_of(srv.handle_request(INIT_LINE));
    let resp = reply_of(srv.handle_request("{\"jsonrpc\":\"2.0\",\"id\":9,\"method\":\"foo/bar\"}"));
    let error = field(&resp, "error");
    assert_eq!(raw_num(field(error, "code")), "-32601");
    assert_eq!(text_of(field(error, "message")), "Method not found: foo/bar");
}

#[test]
fn malformed_json_fails_with_parse_error() {
    let mut srv = server();
    let resp = reply_of(srv.handle_request("{not json"));
    let error = field(&resp, "error");
    assert_eq!(raw_num(field(error, "code")), "-32700");
    assert!(matches!(field(&resp, "id"), Json::Null));
}

#[test]
fn malformed_envelope_fails_with_invalid_request() {
    let mut srv = server();
    let resp = reply_of(srv.handle_request("{\"jsonrpc\":\"2.0\",\"id\":4}"));
    let error = field(&resp, "error");
    assert_eq!(raw_num(field(error, "code")), "-32600");
    assert_eq!(raw_num(field(&resp, "id")), "4");
}

#[test]
fn responses_echo_the_request_id() {
    let mut srv = server();
    reply_of(srv.handle_request(INIT_LINE));

    let with_num = reply_of(srv.handle_request("{\"jsonrpc\":\"2.0\",\"id\":1,\"method\":\"tools/list\"}"));
    assert_eq!(raw_num(field(&with_num, "id")), "1");

    let with_str =
        reply_of(srv.handle_request("{\"jsonrpc\":\"2.0\",\"id\":\"abc\",\"method\":\"tools/list\"}"));
    assert_eq!(text_of(field(&with_str, "id")), "abc");

    let with_null =
        reply_of(srv.handle_request("{\"jsonrpc\":\"2.0\",\"id\":null,\"method\":\"tools/list\"}"));
    assert!(matches!(field(&with_null, "id"), Json::Null));

    let absent = reply_of(srv.handle_request("{\"jsonrpc\":\"2.0\",\"method\":\"tools/list\"}"));
    assert!(matches!(field(&absent, "id"), Json::Null));
}

#[test]
fn initialized_notification_gets_an_empty_result() {
    let mut srv = server();
    let resp = reply_of(srv.handle_request("{\"jsonrpc\":\"2.0\",\"id\":3,\"method\":\"initialized\"}"));
    match field(&resp, "result") {
        Json::Obj(ms) => assert!(ms.is_empty()),
        _ => panic!("expected an empty object"),
    }
}

#[test]
fn tools_list_names_the_markdown_writer() {
    let mut srv = server();
    reply_of(srv.handle_request(INIT_LINE));
    let resp = reply_of(srv.handle_request("{\"jsonrpc\":\"2.0\",\"id\":5,\"method\":\"tools/list\"}"));
    let tools = field(field(&resp, "result"), "tools");
    match tools {
        Json::Arr(items) => {
            assert_eq!(items.len(), 1);
            assert_eq!(text_of(field(&items[0], "name")), "save_markdown_file");
            let schema = field(&items[0], "inputSchema");
            assert_eq!(text_of(field(schema, "type")), "object");
        }
        _ => panic!("expected an array of tools"),
    }
}

fn call_save_line(id: u32, filename: &str, content: &str) -> String {
    format!(
        "{{\"jsonrpc\":\"2.0\",\"id\":{},\"method\":\"tools/call\",\"params\":{{\"name\":\"save_markdown_file\",\"arguments\":{{\"filename\":\"{}\",\"content\":\"{}\"}}}}}}",
        id, filename, content
    )
}

fn tool_text(resp: &Json) -> (String, bool) {
    let result = field(resp, "result");
    let content = match field(result, "content") {
        Json::Arr(items) => items,
        _ => panic!("expected content items"),
    };
    let text = text_of(field(&content[0], "text"));
    let is_error = match field(result, "isError") {
        Json::Bool(b) => *b,
        _ => panic!("expected a flag"),
    };
    (text, is_error)
}

#[test]
fn saving_twice_succeeds_once_and_then_refuses() {
    let mut srv = server();
    reply_of(srv.handle_request(INIT_LINE));

    // First call: every probe is clean, so the server asks for the write.
    let ticket = match srv.handle_request(&call_save_line(10, "x", "hi")) {
        DispatchStep::FsCheck(t) => t,
        DispatchStep::Reply(line) => panic!("expected a probe request, got {}", line),
    };
    assert_eq!(ticket.candidate, "./vault/Tips/x.md");
    assert_eq!(ticket.content, "hi");
    let facts = FsFacts {
        target_dir_is_dir: true,
        canonical_vault: Some(ticket.vault_path.clone()),
        canonical_candidate: Some(ticket.candidate.clone()),
        candidate_exists: false,
    };
    let write = match ticket.resolve(&facts) {
        SaveStep::Write(w) => w,
        SaveStep::Reply(line) => panic!("expected an approved write, got {}", line),
    };
    assert_eq!(write.path, "./vault/Tips/x.md");
    assert_eq!(write.content, "hi");
    let line = write.finish(true);
    let resp = Json::parse(&line).expect("one JSON line");
    let (text, is_error) = tool_text(&resp);
    assert!(!is_error);
    assert!(text.contains("Successfully saved markdown file: x"));
    assert!(text.contains("./vault/Tips/x.md"));

    // Second call: the file is there now, so the save is refused.
    let ticket2 = match srv.handle_request(&call_save_line(11, "x", "hi")) {
        DispatchStep::FsCheck(t) => t,
        DispatchStep::Reply(line) => panic!("expected a probe request, got {}", line),
    };
    let facts2 = FsFacts {
        target_dir_is_dir: true,
        canonical_vault: Some(ticket2.vault_path.clone()),
        canonical_candidate: Some(ticket2.candidate.clone()),
        candidate_exists: true,
    };
    let line2 = match ticket2.resolve(&facts2) {
        SaveStep::Reply(line) => line,
        SaveStep::Write(_) => panic!("the second save must be refused"),
    };
    let resp2 = Json::parse(&line2).expect("one JSON line");
    let (text2, is_error2) = tool_text(&resp2);
    assert!(is_error2);
    assert!(text2.contains("already exists"));
}

#[test]
fn traversal_names_are_refused_before_any_probe() {
    let mut srv = server();
    reply_of(srv.handle_request(INIT_LINE));
    // The reply comes back at once: no probe, no write.
    let resp = reply_of(srv.handle_request(&call_save_line(12, "../escape", "boom")));
    let (text, is_error) = tool_text(&resp);
    assert!(is_error);
    assert_eq!(text, "Error: Filename contains invalid character: /");
    assert_eq!(raw_num(field(&resp, "id")), "12");
}

#[test]
fn unknown_tool_is_a_domain_failure() {
    let mut srv = server();
    reply_of(srv.handle_request(INIT_LINE));
    let line = "{\"jsonrpc\":\"2.0\",\"id\":13,\"method\":\"tools/call\",\"params\":{\"name\":\"nope\"}}";
    let resp = reply_of(srv.handle_request(line));
    let (text, is_error) = tool_text(&resp);
    assert!(is_error);
    assert_eq!(text, "Error: Tool 'nope' not found");
}

#[test]
fn missing_tool_arguments_are_a_domain_failure() {
    let mut srv = server();
    reply_of(srv.handle_request(INIT_LINE));
    let line =
        "{\"jsonrpc\":\"2.0\",\"id\":14,\"method\":\"tools/call\",\"params\":{\"name\":\"save_markdown_file\"}}";
    let resp = reply_of(srv.handle_request(line));
    let (text, is_error) = tool_text(&resp);
    assert!(is_error);
    assert_eq!(text, "Error: Missing arguments");
}

#[test]
fn a_registered_tool_is_listed_and_callable() {
    let mut srv = server();
    let ping = PingTool;
    let entry = RegisteredTool {
        tool: Tool {
            name: ping.name().to_string(),
            description: ping.description().to_string(),
            input_schema: ping.input_schema(),
        },
        kind: ToolKind::Ping,
    };
    assert!(srv.register(entry).is_ok());

    reply_of(srv.handle_request(INIT_LINE));
    let listed = reply_of(srv.handle_request("{\"jsonrpc\":\"2.0\",\"id\":20,\"method\":\"tools/list\"}"));
    match field(field(&listed, "result"), "tools") {
        Json::Arr(items) => {
            assert_eq!(items.len(), 2);
            assert_eq!(text_of(field(&items[1], "name")), "ping");
        }
        _ => panic!("expected an array of tools"),
    }

    let call = "{\"jsonrpc\":\"2.0\",\"id\":21,\"method\":\"tools/call\",\"params\":{\"name\":\"ping\",\"arguments\":{\"message\":\"hi\"}}}";
    let resp = reply_of(srv.handle_request(call));
    let (text, is_error) = tool_text(&resp);
    assert!(!is_error);
    assert_eq!(text, "Echo: hi");
}

#[test]
fn failed_write_is_reported_as_a_domain_failure() {
    let mut srv = server();
    reply_of(srv.handle_request(INIT_LINE));
    let ticket = match srv.handle_request(&call_save_line(15, "y", "z")) {
        DispatchStep::FsCheck(t) => t,
        DispatchStep::Reply(line) => panic!("expected a probe request, got {}", line),
    };
    let facts = FsFacts {
        target_dir_is_dir: true,
        canonical_vault: Some(ticket.vault_path.clone()),
        canonical_candidate: Some(ticket.candidate.clone()),
        candidate_exists: false,
    };
    let write = match ticket.resolve(&facts) {
        SaveStep::Write(w) => w,
        SaveStep::Reply(line) => panic!("expected an approved write, got {}", line),
    };
    let line = write.finish(false);
    let resp = Json::parse(&line).expect("one JSON line");
    let (text, is_error) = tool_text(&resp);
    assert!(is_error);
    assert_eq!(text, "Error: Failed to write file: ./vault/Tips/y.md");
}
