use vstd::prelude::*;

use crate::json::{arr_view, lemma_arr_view, lemma_obj_view, obj_view, Json, JsonV};
use crate::text::json_text;
use vstd::pervasive::unreached;
use vstd::string::StringExecFns;

verus! {

/// JSON-RPC error code for an unknown method.
pub const CODE_METHOD_NOT_FOUND: i32 = -32601;

/// JSON-RPC error code for missing or malformed parameters.
pub const CODE_INVALID_PARAMS: i32 = -32602;

/// JSON-RPC error code for internal failures (timeout, lost handler).
pub const CODE_INTERNAL_ERROR: i32 = -32603;

/// JSON-RPC error payload.
pub struct JsonRpcError {
    pub code: i32,
    pub message: String,
}

/// One decoded JSON-RPC request. A missing id marks a notification.
pub struct JsonRpcRequest {
    pub id: Option<Json>,
    pub method: String,
    pub params: Option<Json>,
}

/// One JSON-RPC response: exactly one of result and error is present.
pub struct JsonRpcResponse {
    pub id: Json,
    pub result: Option<Json>,
    pub error: Option<JsonRpcError>,
}

impl JsonRpcResponse {
    /// A result and an error never travel together.
    pub open spec fn wf(self) -> bool {
        (self.result is Some) <==> (self.error is None)
    }

    /// A successful response carrying `result`.
    pub fn success(id: Json, result: Json) -> (r: Self)
        ensures
            r.wf(),
            r.id == id,
            r.result == Some(result),
            r.error is None,
    {
        JsonRpcResponse { id, result: Some(result), error: None }
    }

    /// An error response carrying `code` and `message`.
    pub fn error(id: Json, code: i32, message: String) -> (r: Self)
        ensures
            r.wf(),
            r.id == id,
            r.result is None,
            r.error matches Some(e) && e.code == code && e.message == message,
    {
        JsonRpcResponse { id, result: None, error: Some(JsonRpcError { code, message }) }
    }

    /// The wire envelope of the response: the fixed protocol version tag,
    /// the originating id, and the result or the error.
    pub open spec fn model(self) -> JsonV {
        match self.result {
            Some(res) => JsonV::Obj(
                seq![
                    ("jsonrpc"@, JsonV::Str("2.0"@)),
                    ("id"@, self.id.deep_view()),
                    ("result"@, res.deep_view()),
                ],
            ),
            None => {
                let e = self.error->0;
                JsonV::Obj(
                    seq![
                        ("jsonrpc"@, JsonV::Str("2.0"@)),
                        ("id"@, self.id.deep_view()),
                        (
                            "error"@,
                            JsonV::Obj(
                                seq![
                                    ("code"@, JsonV::Int(e.code as int)),
                                    ("message"@, JsonV::Str(e.message@)),
                                ],
                            ),
                        ),
                    ],
                )
            },
        }
    }

    /// Builds the wire envelope. The result and error fields are laid out
    /// exclusively, which keeps the envelope's XOR shape.
    pub fn to_json(self) -> (r: Json)
        requires
            self.wf(),
        ensures
            r.deep_view() == self.model(),
    {
        let ghost m = self.model();
        let JsonRpcResponse { id, result, error } = self;
        let mut fields: Vec<(String, Json)> = Vec::new();
        fields.push((String::from_str("jsonrpc"), Json::Str(String::from_str("2.0"))));
        fields.push((String::from_str("id"), id));
        match result {
            Some(res) => {
                fields.push((String::from_str("result"), res));
            },
            None => {
                let e = match error {
                    Some(e) => e,
                    None => unreached(),
                };
                let ghost codev = e.code as int;
                let ghost msgv = e.message@;
                let mut efields: Vec<(String, Json)> = Vec::new();
                efields.push((String::from_str("code"), Json::Int(e.code as i64)));
                efields.push((String::from_str("message"), Json::Str(e.message)));
                proof {
                    lemma_obj_view(efields@);
                    assert(obj_view(efields@) =~= seq![
                        ("code"@, JsonV::Int(codev)),
                        ("message"@, JsonV::Str(msgv)),
                    ]);
                }
                let err = Json::Obj(efields);
                proof {
                    assert(err.deep_view() == m.fields()[2].1);
                }
                fields.push((String::from_str("error"), err));
            },
        }
        proof {
            lemma_obj_view(fields@);
        }
        let r = Json::Obj(fields);
        proof {
            assert(r.deep_view().fields() =~= m.fields());
        }
        r
    }
}

/// The capability-negotiation payload: protocol version, advertised
/// capabilities, and the server's name and version.
pub open spec fn initialize_model() -> JsonV {
    JsonV::Obj(
        seq![
            ("protocolVersion"@, JsonV::Str("2024-11-05"@)),
            ("capabilities"@, JsonV::Obj(seq![("tools"@, JsonV::Obj(Seq::empty()))])),
            (
                "serverInfo"@,
                JsonV::Obj(
                    seq![
                        ("name"@, JsonV::Str("aiTerm"@)),
                        ("version"@, JsonV::Str("0.1.0"@)),
                    ],
                ),
            ),
        ],
    )
}

/// Builds the capability-negotiation payload.
pub fn initialize_response() -> (r: Json)
    ensures
        r.deep_view() == initialize_model(),
{
    let mut caps: Vec<(String, Json)> = Vec::new();
    caps.push((String::from_str("tools"), Json::Obj(Vec::new())));
    proof {
        lemma_obj_view(caps@);
    }
    let mut info: Vec<(String, Json)> = Vec::new();
    info.push((String::from_str("name"), Json::Str(String::from_str(crate::app_display_name()))));
    info.push((String::from_str("version"), Json::Str(String::from_str(crate::app_version()))));
    proof {
        lemma_obj_view(info@);
    }
    let mut fields: Vec<(String, Json)> = Vec::new();
    fields.push(
        (String::from_str("protocolVersion"), Json::Str(String::from_str("2024-11-05"))),
    );
    fields.push((String::from_str("capabilities"), Json::Obj(caps)));
    fields.push((String::from_str("serverInfo"), Json::Obj(info)));
    proof {
        lemma_obj_view(fields@);
    }
    let r = Json::Obj(fields);
    proof {
        assert(r.deep_view().fields()[1].1.fields() =~= initialize_model().fields()[1].1.fields());
        assert(r.deep_view().fields()[2].1.fields() =~= initialize_model().fields()[2].1.fields());
        assert(r.deep_view().fields() =~= initialize_model().fields());
    }
    r
}

/// The names of the advertised tools, in catalog order. This list is a
/// published contract: external clients dispatch on these names.
pub open spec fn tool_names() -> Seq<Seq<char>> {
    seq![
        "getOpenEditors"@,
        "getWorkspaceFolders"@,
        "getDiagnostics"@,
        "checkDocumentDirty"@,
        "saveDocument"@,
        "getCurrentSelection"@,
        "getLatestSelection"@,
        "openFile"@,
        "openDiff"@,
        "closeAllDiffTabs"@,
    ]
}

/// The required parameters of each advertised tool, in catalog order.
/// Like the names, these are a published contract: changing a tool's
/// required-parameter set breaks external clients.
pub open spec fn tool_required() -> Seq<Seq<Seq<char>>> {
    seq![
        seq![],
        seq![],
        seq![],
        seq!["filePath"@],
        seq!["filePath"@],
        seq![],
        seq![],
        seq!["filePath"@],
        seq!["new_file_path"@, "new_file_contents"@],
        seq![],
    ]
}

/// A parameter descriptor of the JSON-schema shape: an object type,
/// its typed properties, and exactly these required parameters.
pub open spec fn wf_schema(v: JsonV, required: Seq<Seq<char>>) -> bool {
    &&& v matches JsonV::Obj(sf)
    &&& sf.len() == 3
    &&& sf[0] == ("type"@, JsonV::Str("object"@))
    &&& sf[1].0 == "properties"@
    &&& sf[1].1 is Obj
    &&& sf[2].0 == "required"@
    &&& sf[2].1 matches JsonV::Arr(req)
    &&& req.len() == required.len()
    &&& forall|i: int| 0 <= i < req.len() ==> #[trigger] req[i] == JsonV::Str(required[i])
}

/// A well-formed catalog entry: its name, a textual description, and a
/// parameter descriptor naming exactly its required parameters.
pub open spec fn wf_tool_entry(t: JsonV, name: Seq<char>, required: Seq<Seq<char>>) -> bool {
    &&& t matches JsonV::Obj(f)
    &&& f.len() == 3
    &&& f[0] == ("name"@, JsonV::Str(name))
    &&& f[1].0 == "description"@
    &&& f[1].1 is Str
    &&& f[2].0 == "inputSchema"@
    &&& wf_schema(f[2].1, required)
}

/// A well-formed catalog: one `tools` array holding exactly the
/// advertised tools, in order, each with its published required
/// parameters.
pub open spec fn wf_tool_list(v: JsonV) -> bool {
    &&& v matches JsonV::Obj(f)
    &&& f.len() == 1
    &&& f[0].0 == "tools"@
    &&& f[0].1 matches JsonV::Arr(ts)
    &&& ts.len() == tool_names().len()
    &&& forall|i: int|
        0 <= i < ts.len() ==> wf_tool_entry(#[trigger] ts[i], tool_names()[i], tool_required()[i])
}

/// One catalog entry.
fn tool_entry(name: &str, description: &str, schema: Json, Ghost(required): Ghost<Seq<Seq<char>>>) -> (t: Json)
    requires
        wf_schema(schema.deep_view(), required),
    ensures
        wf_tool_entry(t.deep_view(), name@, required),
{
    let mut f: Vec<(String, Json)> = Vec::new();
    f.push((String::from_str("name"), Json::Str(String::from_str(name))));
    f.push((String::from_str("description"), Json::Str(String::from_str(description))));
    f.push((String::from_str("inputSchema"), schema));
    proof {
        lemma_obj_view(f@);
    }
    Json::Obj(f)
}

/// A JSON-schema-shaped descriptor for an object parameter: its typed
/// properties and which of them are required.
fn schema_obj(properties: Vec<(String, Json)>, required: Vec<String>) -> (s: Json)
    ensures
        wf_schema(s.deep_view(), crate::bridge::ids_view(required@)),
{
    let ghost rv = crate::bridge::ids_view(required@);
    proof {
        crate::bridge::lemma_ids_view(required@);
    }
    let mut req: Vec<Json> = Vec::new();
    let mut i: usize = 0;
    while i < required.len()
        invariant
            i <= required@.len(),
            rv == crate::bridge::ids_view(required@),
            rv.len() == required@.len(),
            forall|j: int| 0 <= j < required@.len() ==> #[trigger] rv[j] == required@[j]@,
            req@.len() == i,
            forall|j: int| 0 <= j < i ==> (#[trigger] req@[j]).deep_view() == JsonV::Str(rv[j]),
        decreases required@.len() - i,
    {
        req.push(Json::Str(required[i].clone()));
        i = i + 1;
    }
    proof {
        lemma_arr_view(req@);
    }
    let mut f: Vec<(String, Json)> = Vec::new();
    f.push((String::from_str("type"), Json::Str(String::from_str("object"))));
    f.push((String::from_str("properties"), Json::Obj(properties)));
    f.push((String::from_str("required"), Json::Arr(req)));
    proof {
        lemma_obj_view(f@);
    }
    Json::Obj(f)
}

/// One typed property of a schema.
fn schema_prop(name: &str, kind: &str) -> (p: (String, Json)) {
    let mut f: Vec<(String, Json)> = Vec::new();
    f.push((String::from_str("type"), Json::Str(String::from_str(kind))));
    (String::from_str(name), Json::Obj(f))
}

/// An empty required-parameter list.
fn required_none() -> (r: Vec<String>)
    ensures
        crate::bridge::ids_view(r@) == Seq::<Seq<char>>::empty(),
{
    let r: Vec<String> = Vec::new();
    proof {
        crate::bridge::lemma_ids_view(r@);
        assert(crate::bridge::ids_view(r@) =~= Seq::<Seq<char>>::empty());
    }
    r
}

/// A required-parameter list of one name.
fn required_one(name: &str) -> (r: Vec<String>)
    ensures
        crate::bridge::ids_view(r@) == seq![name@],
{
    let mut r: Vec<String> = Vec::new();
    r.push(String::from_str(name));
    proof {
        crate::bridge::lemma_ids_view(r@);
        assert(crate::bridge::ids_view(r@) =~= seq![name@]);
    }
    r
}

/// Builds the advertised tool catalog. The descriptions are static
/// configuration; the names, the catalog shape, and each tool's
/// required parameters are the contract.
pub fn tool_list_response() -> (r: Json)
    ensures
        wf_tool_list(r.deep_view()),
{
    let ghost none: Seq<Seq<char>> = Seq::empty();
    let ghost file_path_only: Seq<Seq<char>> = seq!["filePath"@];
    let ghost diff_required: Seq<Seq<char>> = seq!["new_file_path"@, "new_file_contents"@];
    let mut tools: Vec<Json> = Vec::new();
    tools.push(
        tool_entry(
            "getOpenEditors",
            "Get a list of all currently open editor tabs in the aiTerm IDE. Returns file paths, active state, language, and dirty (unsaved changes) status.",
            schema_obj(Vec::new(), required_none()),
            Ghost(none),
        ),
    );
    tools.push(
        tool_entry(
            "getWorkspaceFolders",
            "Get the workspace folder paths currently open in aiTerm. Returns root paths for each workspace.",
            schema_obj(Vec::new(), required_none()),
            Ghost(none),
        ),
    );
    {
        let mut props: Vec<(String, Json)> = Vec::new();
        props.push(schema_prop("uri", "string"));
        tools.push(
            tool_entry(
                "getDiagnostics",
                "Get language diagnostics (errors, warnings) for a file in the aiTerm editor.",
                schema_obj(props, required_none()),
                Ghost(none),
            ),
        );
    }
    {
        let mut props: Vec<(String, Json)> = Vec::new();
        props.push(schema_prop("filePath", "string"));
        tools.push(
            tool_entry(
                "checkDocumentDirty",
                "Check whether a document open in the aiTerm editor has unsaved changes.",
                schema_obj(props, required_one("filePath")),
                Ghost(file_path_only),
            ),
        );
    }
    {
        let mut props: Vec<(String, Json)> = Vec::new();
        props.push(schema_prop("filePath", "string"));
        tools.push(
            tool_entry(
                "saveDocument",
                "Save a document that is open in the aiTerm editor to disk.",
                schema_obj(props, required_one("filePath")),
                Ghost(file_path_only),
            ),
        );
    }
    tools.push(
        tool_entry(
            "getCurrentSelection",
            "Get the currently selected text and cursor position in the active aiTerm editor tab.",
            schema_obj(Vec::new(), required_none()),
            Ghost(none),
        ),
    );
    tools.push(
        tool_entry(
            "getLatestSelection",
            "Get the most recent text selection made in any aiTerm editor tab.",
            schema_obj(Vec::new(), required_none()),
            Ghost(none),
        ),
    );
    {
        let mut props: Vec<(String, Json)> = Vec::new();
        props.push(schema_prop("filePath", "string"));
        props.push(schema_prop("startLine", "number"));
        props.push(schema_prop("endLine", "number"));
        props.push(schema_prop("startText", "string"));
        props.push(schema_prop("endText", "string"));
        tools.push(
            tool_entry(
                "openFile",
                "Open a file in the aiTerm IDE editor tab. Use this tool whenever you need to show the user a file — do NOT use shell 'open' or other OS commands. Supports optional line range or text range selection to highlight a specific section.",
                schema_obj(props, required_one("filePath")),
                Ghost(file_path_only),
            ),
        );
    }
    {
        let mut props: Vec<(String, Json)> = Vec::new();
        props.push(schema_prop("old_file_path", "string"));
        props.push(schema_prop("new_file_path", "string"));
        props.push(schema_prop("new_file_contents", "string"));
        props.push(schema_prop("tab_name", "string"));
        let mut req: Vec<String> = Vec::new();
        req.push(String::from_str("new_file_path"));
        req.push(String::from_str("new_file_contents"));
        proof {
            crate::bridge::lemma_ids_view(req@);
            assert(crate::bridge::ids_view(req@) =~= seq!["new_file_path"@, "new_file_contents"@]);
        }
        tools.push(
            tool_entry(
                "openDiff",
                "Show a diff of proposed file changes in the aiTerm IDE for the user to review, accept, or reject. Use this tool instead of directly writing files when you want the user to review changes. This is a blocking call — it waits for the user to accept or reject before returning.",
                schema_obj(props, req),
                Ghost(diff_required),
            ),
        );
    }
    tools.push(
        tool_entry(
            "closeAllDiffTabs",
            "Close all open diff review tabs in the aiTerm IDE, rejecting any pending changes.",
            schema_obj(Vec::new(), required_none()),
            Ghost(none),
        ),
    );
    proof {
        lemma_arr_view(tools@);
    }
    let list = Json::Arr(tools);
    let mut fields: Vec<(String, Json)> = Vec::new();
    fields.push((String::from_str("tools"), list));
    proof {
        lemma_obj_view(fields@);
    }
    let r = Json::Obj(fields);
    proof {
        let ts = r.deep_view().fields()[0].1->Arr_0;
        assert forall|i: int| 0 <= i < ts.len() implies wf_tool_entry(
            #[trigger] ts[i],
            tool_names()[i],
            tool_required()[i],
        ) by {
            assert(ts[i] == arr_view(tools@)[i]);
        }
    }
    r
}

/// The envelope a successful tool response carries: one text content
/// block whose text is the serialized result payload.
pub open spec fn tool_content_model(result: JsonV) -> JsonV {
    JsonV::Obj(
        seq![
            (
                "content"@,
                JsonV::Arr(
                    seq![
                        JsonV::Obj(
                            seq![
                                ("type"@, JsonV::Str("text"@)),
                                ("text"@, JsonV::Str(json_text(result))),
                            ],
                        ),
                    ],
                ),
            ),
        ],
    )
}

/// Wraps a tool result payload: the payload is serialized and carried as
/// one text content block.
pub fn tool_content(result: &Json) -> (r: Json)
    ensures
        r.deep_view() == tool_content_model(result.deep_view()),
{
    let text = crate::text::to_text(result);
    let mut block: Vec<(String, Json)> = Vec::new();
    block.push((String::from_str("type"), Json::Str(String::from_str("text"))));
    block.push((String::from_str("text"), Json::Str(text)));
    proof {
        lemma_obj_view(block@);
    }
    let mut items: Vec<Json> = Vec::new();
    items.push(Json::Obj(block));
    proof {
        lemma_arr_view(items@);
    }
    let mut fields: Vec<(String, Json)> = Vec::new();
    fields.push((String::from_str("content"), Json::Arr(items)));
    proof {
        lemma_obj_view(fields@);
    }
    let r = Json::Obj(fields);
    proof {
        let m = tool_content_model(result.deep_view());
        assert(r.deep_view().fields()[0].1->Arr_0[0].fields() =~= m.fields()[0].1->Arr_0[0].fields());
        assert(r.deep_view().fields()[0].1->Arr_0 =~= m.fields()[0].1->Arr_0);
        assert(r.deep_view().fields() =~= m.fields());
    }
    r
}

} // verus!
