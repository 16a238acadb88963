use obsidian_mcp_server::json::Json;
use obsidian_mcp_server::registry::{RegisteredTool, ToolKind, ToolOutcome, ToolRegistry};
use obsidian_mcp_server::rpc::Tool;
use obsidian_mcp_server::tools::PingTool;
use obsidian_mcp_server::vault::{FsFacts, VaultOperations};
use obsidian_mcp_server::tools::execute_save_markdown_file;

fn ping_entry() -> RegisteredTool {
    let ping = PingTool;
    RegisteredTool {
        tool: Tool {
            name: ping.name().to_string(),
            description: ping.description().to_string(),
            input_schema: ping.input_schema(),
        },
        kind: ToolKind::Ping,
    }
}

#[test]
fn registration_keeps_order_and_refuses_duplicates() {
    let mut reg = ToolRegistry::new();
    assert!(reg.register(ping_entry()).is_ok());
    let mut second = ping_entry();
    second.tool.name = "other".to_string();
    assert!(reg.register(second).is_ok());

    let err = reg.register(ping_entry());
    assert_eq!(err.unwrap_err(), "Tool 'ping' is already registered");

    let listed = reg.list_tools();
    assert_eq!(listed.len(), 2);
    assert_eq!(listed[0].name, "ping");
    assert_eq!(listed[1].name, "other");

    assert!(reg.get_tool("ping").is_some());
    assert!(reg.get_tool("missing").is_none());
}

#[test]
fn execute_tool_dispatches_by_name() {
    let mut reg = ToolRegistry::default();
    assert!(reg.register(ping_entry()).is_ok());

    assert!(matches!(reg.execute_tool("missing", None), ToolOutcome::NotFound));

    let args = Json::parse("{\"message\":\"hey\"}").unwrap();
    match reg.execute_tool("ping", Some(args)) {
        ToolOutcome::Done(out) => assert_eq!(ping_text(&out), "Echo: hey"),
        _ => panic!("the ping must answer outright"),
    }

    let mut save = ping_entry();
    save.tool.name = "save_markdown_file".to_string();
    save.kind = ToolKind::SaveMarkdown;
    assert!(reg.register(save).is_ok());

    match reg.execute_tool("save_markdown_file", None) {
        ToolOutcome::Refused(m) => assert_eq!(m, "Missing arguments"),
        _ => panic!("absent arguments must be refused"),
    }
    let bad = Json::parse("{\"filename\":\"x\"}").unwrap();
    match reg.execute_tool("save_markdown_file", Some(bad)) {
        ToolOutcome::Refused(m) => assert_eq!(m, "Invalid parameters for save_markdown_file"),
        _ => panic!("half-shaped arguments must be refused"),
    }
    let good = Json::parse("{\"filename\":\"x\",\"content\":\"hi\"}").unwrap();
    match reg.execute_tool("save_markdown_file", Some(good)) {
        ToolOutcome::Save(p) => {
            assert_eq!(p.filename, "x");
            assert_eq!(p.content, "hi");
        }
        _ => panic!("well-shaped arguments must go on to the filesystem stage"),
    }
}

fn ping_text(out: &Json) -> String {
    let content = match out.get("content") {
        Some(Json::Arr(items)) => items,
        _ => panic!("expected content items"),
    };
    match content[0].get("text") {
        Some(Json::Str(s)) => s.clone(),
        _ => panic!("expected a text item"),
    }
}

#[test]
fn ping_echoes_its_message_or_pongs() {
    let ping = PingTool;
    let args = Json::parse("{\"message\":\"hello\"}").unwrap();
    assert_eq!(ping_text(&ping.execute(Some(&args))), "Echo: hello");

    let empty = Json::parse("{}").unwrap();
    assert_eq!(ping_text(&ping.execute(Some(&empty))), "Echo: pong");
    assert_eq!(ping_text(&ping.execute(None)), "Echo: pong");

    let wrong_type = Json::parse("{\"message\":3}").unwrap();
    assert_eq!(ping_text(&ping.execute(Some(&wrong_type))), "Echo: pong");
}

#[test]
fn test_execute_save_markdown_file() {
    let vault_ops = VaultOperations::new("/vault".to_string(), "notes".to_string());
    let params = Json::parse(
        "{\"filename\":\"test-note\",\"content\":\"# Test Note\\n\\nThis is a test.\"}",
    )
    .unwrap();
    let facts = FsFacts {
        target_dir_is_dir: true,
        canonical_vault: Some("/vault".to_string()),
        canonical_candidate: Some("/vault/notes/test-note.md".to_string()),
        candidate_exists: false,
    };
    let result = execute_save_markdown_file(&vault_ops, &params, &facts).unwrap();
    assert!(result.file_path.contains("test-note.md"));
    assert!(result.message.contains("Successfully saved"));
}

#[test]
fn test_execute_save_markdown_file_invalid_params() {
    let vault_ops = VaultOperations::new("/vault".to_string(), "notes".to_string());
    let invalid_params = Json::parse("{\"invalid_field\":\"value\"}").unwrap();
    let facts = FsFacts {
        target_dir_is_dir: true,
        canonical_vault: Some("/vault".to_string()),
        canonical_candidate: None,
        candidate_exists: false,
    };
    let result = execute_save_markdown_file(&vault_ops, &invalid_params, &facts);
    assert!(result.is_err());
}
