//! The built-in tools: the markdown writer and a ping echo.

use vstd::prelude::*;
use crate::json::{json_member_views, jv_get, lemma_json_member_views, Json, JsonV};
use crate::rpc::call_tool_result_json;
use crate::vault::{save_decision, FsFacts, VaultOperations, vault_error_message};

verus! {

broadcast use vstd::seq::group_seq_axioms, vstd::std_specs::vec::group_vec_axioms;

/// The one directory under the vault root that files are created in.
pub const TARGET_DIRECTORY: &'static str = "Tips";

// ------------------------------------------------------------------
// The markdown writer
// ------------------------------------------------------------------

/// The arguments of the markdown writer.
pub struct SaveMarkdownFileParams {
    /// The filename; the markdown extension is appended if absent.
    pub filename: String,
    /// The content to write.
    pub content: String,
}

/// What the markdown writer answers on success.
pub struct SaveMarkdownFileResult {
    /// Where the file was written.
    pub file_path: String,
    /// A message naming the saved file.
    pub message: String,
}

/// Whether a document holds the writer's arguments: an object whose
/// `filename` and `content` fields are strings.
pub open spec fn save_params_ok(v: JsonV) -> bool {
    &&& v is Obj
    &&& jv_get(v, "filename"@) matches Some(f) && f is Str
    &&& jv_get(v, "content"@) matches Some(c) && c is Str
}

impl SaveMarkdownFileParams {
    /// Reads the writer's arguments out of a document.
    pub fn from_json(v: &Json) -> (r: Option<SaveMarkdownFileParams>)
        ensures
            r is Some <==> save_params_ok(v@),
            r matches Some(p) ==> {
                &&& JsonV::Str(p.filename@) == jv_get(v@, "filename"@)->Some_0
                &&& JsonV::Str(p.content@) == jv_get(v@, "content"@)->Some_0
            },
    {
        if !v.is_object() {
            return None;
        }
        let filename = match v.get("filename") {
            Some(f) => match f.as_string() {
                Some(s) => s.clone(),
                None => {
                    return None;
                },
            },
            None => {
                return None;
            },
        };
        let content = match v.get("content") {
            Some(c) => match c.as_string() {
                Some(s) => s.clone(),
                None => {
                    return None;
                },
            },
            None => {
                return None;
            },
        };
        Some(SaveMarkdownFileParams { filename, content })
    }
}

/// The message answering a successful save.
pub open spec fn save_success_message(filename: Seq<char>) -> Seq<char> {
    "Successfully saved markdown file: "@ + filename
}

/// The JSON document a successful save is reported as.
pub open spec fn save_result_json(file_path: Seq<char>, filename: Seq<char>) -> JsonV {
    JsonV::Obj(
        seq![
            ("file_path"@, JsonV::Str(file_path)),
            ("message"@, JsonV::Str(save_success_message(filename))),
        ],
    )
}

impl SaveMarkdownFileResult {
    /// The answer for a file written at the given path.
    pub fn new(file_path: String, filename: &str) -> (r: Self)
        ensures
            r.file_path@ == file_path@,
            r.message@ == save_success_message(filename@),
    {
        let message = String::from_str("Successfully saved markdown file: ").concat(filename);
        SaveMarkdownFileResult { file_path, message }
    }

    /// The document this answer is written as.
    pub fn to_json(&self) -> (r: Json)
        ensures
            r@ == JsonV::Obj(
                seq![
                    ("file_path"@, JsonV::Str(self.file_path@)),
                    ("message"@, JsonV::Str(self.message@)),
                ],
            ),
    {
        let mut ms: Vec<(String, Json)> = Vec::new();
        ms.push((String::from_str("file_path"), Json::Str(self.file_path.clone())));
        ms.push((String::from_str("message"), Json::Str(self.message.clone())));
        proof {
            lemma_json_member_views(ms@);
            assert(json_member_views(ms@) =~= seq![
                ("file_path"@, JsonV::Str(self.file_path@)),
                ("message"@, JsonV::Str(self.message@)),
            ]);
        }
        Json::Obj(ms)
    }
}

/// What the markdown writer decides for given arguments and probes.
pub open spec fn save_tool_decision(
    ops: crate::vault::VaultOpsV,
    args: JsonV,
    facts: crate::vault::FsFactsV,
) -> Result<(Seq<char>, Seq<char>), Seq<char>> {
    if !save_params_ok(args) {
        Err("Invalid parameters for save_markdown_file"@)
    } else {
        let filename = jv_get(args, "filename"@)->Some_0->Str_0;
        match save_decision(ops, filename, facts) {
            Ok(path) => Ok((path, save_success_message(filename))),
            Err(e) => Err(vault_error_message(e)),
        }
    }
}

/// Runs the markdown writer's checks for one call: reads the
/// arguments, decides the save against the filesystem probes, and on
/// success names the path the embedding program may now write.
pub fn execute_save_markdown_file(
    vault_ops: &VaultOperations,
    params: &Json,
    facts: &FsFacts,
) -> (r: Result<SaveMarkdownFileResult, String>)
    ensures
        match r {
            Ok(res) => save_tool_decision(vault_ops@, params@, facts@) == Result::<
                (Seq<char>, Seq<char>),
                Seq<char>,
            >::Ok((res.file_path@, res.message@)),
            Err(m) => save_tool_decision(vault_ops@, params@, facts@) == Result::<
                (Seq<char>, Seq<char>),
                Seq<char>,
            >::Err(m@),
        },
{
    let p = match SaveMarkdownFileParams::from_json(params) {
        Some(p) => p,
        None => {
            return Err(String::from_str("Invalid parameters for save_markdown_file"));
        },
    };
    match vault_ops.save_markdown_file(p.filename.as_str(), facts) {
        Ok(path) => Ok(SaveMarkdownFileResult::new(path, p.filename.as_str())),
        Err(e) => Err(e.message()),
    }
}

// ------------------------------------------------------------------
// Ping
// ------------------------------------------------------------------

/// A no-op tool answering with an echo, for checking connectivity.
pub struct PingTool;

/// The text a ping answers with.
pub open spec fn ping_message(args: Option<JsonV>) -> Seq<char> {
    match args {
        Some(a) => match jv_get(a, "message"@) {
            Some(m) => if m is Str {
                m->Str_0
            } else {
                "pong"@
            },
            None => "pong"@,
        },
        None => "pong"@,
    }
}

/// The document a ping answers with.
pub open spec fn ping_result_json(args: Option<JsonV>) -> JsonV {
    call_tool_result_json("Echo: "@ + ping_message(args), false)
}

impl PingTool {
    /// The name the tool is registered under.
    pub fn name(&self) -> (r: &'static str)
        ensures
            r@ == "ping"@,
    {
        "ping"
    }

    /// What the tool does.
    pub fn description(&self) -> (r: &'static str)
        ensures
            r@ == "A simple ping tool for testing connectivity"@,
    {
        "A simple ping tool for testing connectivity"
    }

    /// The shape of the tool's arguments.
    pub fn input_schema(&self) -> (r: Json)
        ensures
            r@ == ping_schema_json(),
    {
        let mut message: Vec<(String, Json)> = Vec::new();
        message.push((String::from_str("type"), Json::Str(String::from_str("string"))));
        message.push(
            (String::from_str("description"), Json::Str(String::from_str("Message to echo back"))),
        );
        message.push((String::from_str("default"), Json::Str(String::from_str("pong"))));
        proof {
            lemma_json_member_views(message@);
            assert(json_member_views(message@) =~= seq![
                ("type"@, JsonV::Str("string"@)),
                ("description"@, JsonV::Str("Message to echo back"@)),
                ("default"@, JsonV::Str("pong"@)),
            ]);
        }
        let mut properties: Vec<(String, Json)> = Vec::new();
        properties.push((String::from_str("message"), Json::Obj(message)));
        proof {
            lemma_json_member_views(properties@);
            assert(json_member_views(properties@) =~= seq![
                ("message"@, JsonV::Obj(seq![
                    ("type"@, JsonV::Str("string"@)),
                    ("description"@, JsonV::Str("Message to echo back"@)),
                    ("default"@, JsonV::Str("pong"@)),
                ])),
            ]);
        }
        let mut ms: Vec<(String, Json)> = Vec::new();
        ms.push((String::from_str("type"), Json::Str(String::from_str("object"))));
        ms.push((String::from_str("properties"), Json::Obj(properties)));
        proof {
            lemma_json_member_views(ms@);
            assert(json_member_views(ms@) =~= match ping_schema_json() {
                JsonV::Obj(target) => target,
                _ => Seq::<(Seq<char>, JsonV)>::empty(),
            });
        }
        Json::Obj(ms)
    }

    /// Answers one ping: echoes the `message` argument, or `pong`.
    pub fn execute(&self, params: Option<&Json>) -> (r: Json)
        ensures
            r@ == ping_result_json(
                match params {
                    Some(p) => Some(p@),
                    None => None,
                },
            ),
    {
        let message: String = match params {
            Some(p) => match p.get("message") {
                Some(m) => match m.as_string() {
                    Some(s) => s.clone(),
                    None => String::from_str("pong"),
                },
                None => String::from_str("pong"),
            },
            None => String::from_str("pong"),
        };
        let text = String::from_str("Echo: ").concat(message.as_str());
        crate::rpc::call_tool_result(text, false)
    }
}

/// The shape of the ping tool's arguments.
pub open spec fn ping_schema_json() -> JsonV {
    JsonV::Obj(
        seq![
            ("type"@, JsonV::Str("object"@)),
            (
                "properties"@,
                JsonV::Obj(
                    seq![
                        (
                            "message"@,
                            JsonV::Obj(
                                seq![
                                    ("type"@, JsonV::Str("string"@)),
                                    ("description"@, JsonV::Str("Message to echo back"@)),
                                    ("default"@, JsonV::Str("pong"@)),
                                ],
                            ),
                        ),
                    ],
                ),
            ),
        ],
    )
}

} // verus!
