//! A name-keyed registry of callable tools.
//!
//! Each entry pairs a descriptor with a tag naming the behaviour that
//! runs it; dispatch is a match on the tag.  Names are unique and the
//! listing keeps registration order.

use vstd::prelude::*;
use crate::json::{jv_get, str_eq, Json, JsonV};
use crate::rpc::Tool;
use crate::tools::{ping_result_json, save_params_ok, PingTool, SaveMarkdownFileParams};

verus! {

broadcast use vstd::seq::group_seq_axioms, vstd::std_specs::vec::group_vec_axioms;

/// Which behaviour runs a registered tool.
pub enum ToolKind {
    /// The markdown writer.
    SaveMarkdown,
    /// The ping echo.
    Ping,
}

/// One registry entry: a descriptor and the behaviour that runs it.
pub struct RegisteredTool {
    pub tool: Tool,
    pub kind: ToolKind,
}

/// The registry: entries in registration order, names unique.
pub struct ToolRegistry {
    tools: Vec<RegisteredTool>,
}

/// Whether a sequence of entries holds one with the given name.
pub open spec fn has_tool(ts: Seq<RegisteredTool>, name: Seq<char>) -> bool {
    exists|i: int| 0 <= i < ts.len() && (#[trigger] ts[i]).tool.name@ == name
}

/// The first entry with the given name.
pub open spec fn find_tool(ts: Seq<RegisteredTool>, name: Seq<char>) -> Option<RegisteredTool>
    decreases ts.len(),
{
    if ts.len() == 0 {
        None
    } else if ts[0].tool.name@ == name {
        Some(ts[0])
    } else {
        find_tool(ts.drop_first(), name)
    }
}

/// A found entry is a held entry, and the other way round.
pub proof fn lemma_find_tool(ts: Seq<RegisteredTool>, name: Seq<char>)
    ensures
        find_tool(ts, name) is Some <==> has_tool(ts, name),
        find_tool(ts, name) matches Some(t) ==> exists|i: int|
            0 <= i < ts.len() && #[trigger] ts[i] == t && t.tool.name@ == name,
    decreases ts.len(),
{
    if ts.len() > 0 {
        lemma_find_tool(ts.drop_first(), name);
        if ts[0].tool.name@ == name {
            assert(ts[0].tool.name@ == name);
        } else {
            if has_tool(ts.drop_first(), name) {
                let i = choose|i: int|
                    0 <= i < ts.drop_first().len() && (#[trigger] ts.drop_first()[i]).tool.name@
                        == name;
                assert(ts[i + 1] == ts.drop_first()[i]);
            }
            if has_tool(ts, name) {
                let i = choose|i: int| 0 <= i < ts.len() && (#[trigger] ts[i]).tool.name@ == name;
                assert(ts.drop_first()[i - 1] == ts[i]);
            }
            if find_tool(ts.drop_first(), name) is Some {
                let t = find_tool(ts.drop_first(), name)->Some_0;
                let i = choose|i: int|
                    0 <= i < ts.drop_first().len() && #[trigger] ts.drop_first()[i] == t
                        && t.tool.name@ == name;
                assert(ts[i + 1] == ts.drop_first()[i]);
            }
        }
    }
}

/// What one tool call comes to, before any filesystem work.
pub enum ToolOutcome {
    /// No tool of that name is registered.
    NotFound,
    /// The tool answered outright; the payload is its result document.
    Done(Json),
    /// The markdown writer accepted the shape of its arguments; the
    /// save goes on against the filesystem.
    Save(SaveMarkdownFileParams),
    /// The tool refused its arguments; the payload says why.
    Refused(String),
}

/// Model of a tool call's outcome.
pub enum ToolOutcomeV {
    NotFound,
    Done(JsonV),
    Save { filename: Seq<char>, content: Seq<char> },
    Refused(Seq<char>),
}

impl View for ToolOutcome {
    type V = ToolOutcomeV;

    open spec fn view(&self) -> ToolOutcomeV {
        match self {
            ToolOutcome::NotFound => ToolOutcomeV::NotFound,
            ToolOutcome::Done(j) => ToolOutcomeV::Done(j@),
            ToolOutcome::Save(p) => ToolOutcomeV::Save {
                filename: p.filename@,
                content: p.content@,
            },
            ToolOutcome::Refused(m) => ToolOutcomeV::Refused(m@),
        }
    }
}

/// What executing a named tool comes to: an absent name is reported,
/// the ping answers outright, and the markdown writer hands its
/// accepted arguments on for the filesystem stage.
pub open spec fn tool_exec_model(
    ts: Seq<RegisteredTool>,
    name: Seq<char>,
    args: Option<JsonV>,
) -> ToolOutcomeV {
    match find_tool(ts, name) {
        None => ToolOutcomeV::NotFound,
        Some(t) => match t.kind {
            ToolKind::Ping => ToolOutcomeV::Done(ping_result_json(args)),
            ToolKind::SaveMarkdown => match args {
                None => ToolOutcomeV::Refused("Missing arguments"@),
                Some(a) => if !save_params_ok(a) {
                    ToolOutcomeV::Refused("Invalid parameters for save_markdown_file"@)
                } else {
                    ToolOutcomeV::Save {
                        filename: jv_get(a, "filename"@)->Some_0->Str_0,
                        content: jv_get(a, "content"@)->Some_0->Str_0,
                    }
                },
            },
        },
    }
}

impl ToolRegistry {
    /// The entries, in registration order.
    pub closed spec fn spec_tools(&self) -> Seq<RegisteredTool> {
        self.tools@
    }

    /// Names are unique among the entries.
    pub open spec fn wf(&self) -> bool {
        forall|i: int, j: int|
            0 <= i < j < self.spec_tools().len() ==> (#[trigger] self.spec_tools()[i]).tool.name@
                != (#[trigger] self.spec_tools()[j]).tool.name@
    }

    /// An empty registry.
    pub fn new() -> (r: Self)
        ensures
            r.spec_tools().len() == 0,
            r.wf(),
    {
        ToolRegistry { tools: Vec::new() }
    }

    /// Adds a tool, unless its name is taken; a refusal changes
    /// nothing.
    pub fn register(&mut self, tool: RegisteredTool) -> (r: Result<(), String>)
        requires
            old(self).wf(),
        ensures
            final(self).wf(),
            match r {
                Ok(u) => !has_tool(old(self).spec_tools(), tool.tool.name@)
                    && final(self).spec_tools() == old(self).spec_tools().push(tool),
                Err(m) => has_tool(old(self).spec_tools(), tool.tool.name@)
                    && final(self).spec_tools() == old(self).spec_tools()
                    && m@ == "Tool '"@ + tool.tool.name@ + "' is already registered"@,
            },
    {
        let n = self.tools.len();
        let mut i: usize = 0;
        while i < n
            invariant
                i <= n,
                n == self.tools@.len(),
                *self == *old(self),
                old(self).wf(),
                forall|k: int| 0 <= k < i ==> (#[trigger] self.tools@[k]).tool.name@ != tool.tool.name@,
            decreases n - i,
        {
            if str_eq(self.tools[i].tool.name.as_str(), tool.tool.name.as_str()) {
                proof {
                    assert(old(self).spec_tools()[i as int].tool.name@ == tool.tool.name@);
                    assert(has_tool(old(self).spec_tools(), tool.tool.name@));
                    assert(self.spec_tools() == old(self).spec_tools());
                }
                let m = String::from_str("Tool '").concat(tool.tool.name.as_str()).concat(
                    "' is already registered",
                );
                return Err(m);
            }
            i = i + 1;
        }
        self.tools.push(tool);
        Ok(())
    }

    /// The first entry with the given name.
    pub fn get_tool(&self, name: &str) -> (r: Option<&RegisteredTool>)
        ensures
            match r {
                Some(t) => find_tool(self.spec_tools(), name@) == Some(*t),
                None => find_tool(self.spec_tools(), name@) is None,
            },
    {
        let ghost ts = self.spec_tools();
        proof {
            assert(ts.skip(0) =~= ts);
        }
        let n = self.tools.len();
        let mut i: usize = 0;
        while i < n
            invariant
                i <= n,
                ts == self.spec_tools(),
                n == ts.len(),
                find_tool(ts, name@) == find_tool(ts.skip(i as int), name@),
            decreases n - i,
        {
            proof {
                assert(ts.skip(i as int)[0] == ts[i as int]);
                assert(ts.skip(i as int).drop_first() =~= ts.skip(i + 1 as int));
            }
            if str_eq(self.tools[i].tool.name.as_str(), name) {
                return Some(&self.tools[i]);
            }
            i = i + 1;
        }
        proof {
            assert(ts.skip(n as int) =~= Seq::<RegisteredTool>::empty());
        }
        None
    }

    /// Executes the named tool on the given arguments, as far as any
    /// tool can run without touching the filesystem.  The registry
    /// only finds the tool and delegates; what a tool makes of its
    /// arguments is its own.
    pub fn execute_tool(&self, name: &str, arguments: Option<Json>) -> (r: ToolOutcome)
        ensures
            r@ == tool_exec_model(
                self.spec_tools(),
                name@,
                match arguments {
                    Some(a) => Some(a@),
                    None => None,
                },
            ),
    {
        let entry = match self.get_tool(name) {
            Some(entry) => entry,
            None => {
                return ToolOutcome::NotFound;
            },
        };
        match entry.kind {
            ToolKind::Ping => {
                let args = match &arguments {
                    Some(a) => Some(a),
                    None => None,
                };
                ToolOutcome::Done(PingTool.execute(args))
            },
            ToolKind::SaveMarkdown => {
                let a = match arguments {
                    Some(a) => a,
                    None => {
                        return ToolOutcome::Refused(String::from_str("Missing arguments"));
                    },
                };
                match SaveMarkdownFileParams::from_json(&a) {
                    Some(p) => ToolOutcome::Save(p),
                    None => ToolOutcome::Refused(
                        String::from_str("Invalid parameters for save_markdown_file"),
                    ),
                }
            },
        }
    }

    /// The descriptors, in registration order.
    pub fn list_tools(&self) -> (r: Vec<Tool>)
        ensures
            r@.len() == self.spec_tools().len(),
            forall|i: int|
                0 <= i < r@.len() ==> {
                    &&& (#[trigger] r@[i]).name@ == self.spec_tools()[i].tool.name@
                    &&& r@[i].description@ == self.spec_tools()[i].tool.description@
                    &&& r@[i].input_schema@ == self.spec_tools()[i].tool.input_schema@
                },
    {
        let n = self.tools.len();
        let mut r: Vec<Tool> = Vec::new();
        let mut i: usize = 0;
        while i < n
            invariant
                i <= n,
                n == self.tools@.len(),
                r@.len() == i,
                forall|k: int|
                    0 <= k < i ==> {
                        &&& (#[trigger] r@[k]).name@ == self.spec_tools()[k].tool.name@
                        &&& r@[k].description@ == self.spec_tools()[k].tool.description@
                        &&& r@[k].input_schema@ == self.spec_tools()[k].tool.input_schema@
                    },
            decreases n - i,
        {
            let t = &self.tools[i];
            r.push(
                Tool {
                    name: t.tool.name.clone(),
                    description: t.tool.description.clone(),
                    input_schema: t.tool.input_schema.clone(),
                },
            );
            i = i + 1;
        }
        r
    }
}

impl Default for ToolRegistry {
    /// An empty registry.
    fn default() -> (r: Self)
        ensures
            r.spec_tools().len() == 0,
            r.wf(),
    {
        ToolRegistry::new()
    }
}

} // verus!
