use vstd::prelude::*;

use crate::assoc::{
    assoc_get, assoc_has, assoc_remove, assoc_set, lemma_assoc_get_at,
    lemma_assoc_none_means_absent, lemma_assoc_remove_at, lemma_assoc_set_missing,
};
use crate::bridge::{ids_view, lemma_ids_view};
use crate::json::{arr_view, lemma_arr_view, lemma_obj_view, obj_set, obj_view, Json, JsonV};
use crate::text::{decimal_string, nat_text};
use vstd::pervasive::unreached;
use vstd::string::StringExecFns;

verus! {

/// Why a registry operation refused the settings document.
#[derive(Debug)]
pub enum RegistryError {
    /// The shared settings document's root is not an object.
    NotAnObject,
}

/// The string items of a path list, in order.
pub open spec fn str_items(roots: Seq<Seq<char>>) -> Seq<JsonV> {
    Seq::new(roots.len(), |i: int| JsonV::Str(roots[i]))
}

/// One lock descriptor: the fields an external tool scans to find and
/// authenticate against a running bridge, keyed by its listening port.
pub open spec fn lock_descriptor_model(
    pid: int,
    roots: Seq<Seq<char>>,
    auth: Seq<char>,
    port: int,
) -> JsonV {
    JsonV::Obj(
        seq![
            ("pid"@, JsonV::Int(pid)),
            ("workspaceFolders"@, JsonV::Arr(str_items(roots))),
            ("ideName"@, JsonV::Str("aiTerm"@)),
            ("ideVersion"@, JsonV::Str("0.1.0"@)),
            ("transport"@, JsonV::Str("ws"@)),
            ("authToken"@, JsonV::Str(auth)),
            ("serverPort"@, JsonV::Int(port)),
        ],
    )
}

/// Builds the lock descriptor to write for this instance.
pub fn lock_descriptor(pid: u32, workspace_folders: &Vec<String>, auth: &String, port: u16) -> (r:
    Json)
    ensures
        r.deep_view() == lock_descriptor_model(
            pid as int,
            ids_view(workspace_folders@),
            auth@,
            port as int,
        ),
{
    let ghost rv = ids_view(workspace_folders@);
    proof {
        lemma_ids_view(workspace_folders@);
    }
    let mut items: Vec<Json> = Vec::new();
    let mut i: usize = 0;
    while i < workspace_folders.len()
        invariant
            i <= workspace_folders@.len(),
            rv == ids_view(workspace_folders@),
            rv.len() == workspace_folders@.len(),
            forall|j: int|
                0 <= j < workspace_folders@.len() ==> #[trigger] rv[j] == workspace_folders@[j]@,
            items@.len() == i,
            forall|j: int| 0 <= j < i ==> (#[trigger] items@[j]).deep_view() == JsonV::Str(rv[j]),
        decreases workspace_folders@.len() - i,
    {
        items.push(Json::Str(workspace_folders[i].clone()));
        i = i + 1;
    }
    proof {
        lemma_arr_view(items@);
        assert(arr_view(items@) =~= str_items(rv));
    }
    let mut fields: Vec<(String, Json)> = Vec::new();
    fields.push((String::from_str("pid"), Json::Int(pid as i64)));
    fields.push((String::from_str("workspaceFolders"), Json::Arr(items)));
    fields.push((String::from_str("ideName"), Json::Str(String::from_str(crate::app_display_name()))));
    fields.push((String::from_str("ideVersion"), Json::Str(String::from_str(crate::app_version()))));
    fields.push((String::from_str("transport"), Json::Str(String::from_str("ws"))));
    fields.push((String::from_str("authToken"), Json::Str(auth.clone())));
    fields.push((String::from_str("serverPort"), Json::Int(port as i64)));
    proof {
        lemma_obj_view(fields@);
    }
    let r = Json::Obj(fields);
    proof {
        assert(r.deep_view().fields() =~= lock_descriptor_model(
            pid as int,
            rv,
            auth@,
            port as int,
        ).fields());
    }
    r
}

/// The workspace roots advertised in the lock descriptor: the user's
/// home directory, when one is known.
pub fn collect_workspace_folders(home: Option<String>) -> (r: Vec<String>)
    ensures
        match home {
            Some(h) => r@.len() == 1 && r@[0] == h,
            None => r@.len() == 0,
        },
{
    let mut folders: Vec<String> = Vec::new();
    match home {
        Some(h) => {
            folders.push(h);
        },
        None => {},
    }
    folders
}

/// The event-stream URL an external tool connects to for this port.
pub open spec fn sse_url_text(port: int) -> Seq<char> {
    "http://127.0.0.1:"@ + nat_text(port as nat) + "/sse"@
}

/// Builds the event-stream URL for this port.
pub fn sse_url(port: u16) -> (r: String)
    ensures
        r@ == sse_url_text(port as int),
{
    let digits = decimal_string(port as u64);
    String::from_str("http://127.0.0.1:").concat(digits.as_str()).concat("/sse")
}

/// The Shared Registration Entry: where to reach the event stream and
/// which auth header to send.
pub open spec fn registration_entry_model(port: int, auth: Seq<char>) -> JsonV {
    JsonV::Obj(
        seq![
            ("type"@, JsonV::Str("sse"@)),
            ("url"@, JsonV::Str(sse_url_text(port))),
            (
                "headers"@,
                JsonV::Obj(seq![("x-aiterm-ide-authorization"@, JsonV::Str(auth))]),
            ),
        ],
    )
}

/// Builds the Shared Registration Entry.
fn registration_entry(port: u16, auth: &String) -> (r: Json)
    ensures
        r.deep_view() == registration_entry_model(port as int, auth@),
{
    let mut headers: Vec<(String, Json)> = Vec::new();
    headers.push((String::from_str("x-aiterm-ide-authorization"), Json::Str(auth.clone())));
    proof {
        lemma_obj_view(headers@);
    }
    let mut fields: Vec<(String, Json)> = Vec::new();
    fields.push((String::from_str("type"), Json::Str(String::from_str("sse"))));
    fields.push((String::from_str("url"), Json::Str(sse_url(port))));
    fields.push((String::from_str("headers"), Json::Obj(headers)));
    proof {
        lemma_obj_view(fields@);
    }
    let r = Json::Obj(fields);
    proof {
        assert(r.deep_view().fields()[2].1.fields() =~= registration_entry_model(
            port as int,
            auth@,
        ).fields()[2].1.fields());
        assert(r.deep_view().fields() =~= registration_entry_model(port as int, auth@).fields());
    }
    r
}

/// The settings document after registering this bridge: the existing
/// `mcpServers` object (or a fresh one) gains this application's entry
/// under its fixed key; every other field is untouched, in place.
pub open spec fn upsert_model(settings: JsonV, port: int, auth: Seq<char>) -> JsonV
    recommends
        settings is Obj,
{
    let servers0 = match assoc_get(settings.fields(), "mcpServers"@) {
        Some(JsonV::Obj(s)) => s,
        _ => Seq::empty(),
    };
    JsonV::Obj(
        assoc_set(
            settings.fields(),
            "mcpServers"@,
            JsonV::Obj(assoc_set(servers0, "aiterm"@, registration_entry_model(port, auth))),
        ),
    )
}

/// Registers this bridge in the shared settings document. Succeeds on
/// every document whose root is an object — exactly those — and leaves
/// every unrelated field in place; a non-object root is refused.
pub fn upsert_registration(settings: Json, port: u16, auth: &String) -> (r: Result<
    Json,
    RegistryError,
>)
    ensures
        match r {
            Ok(doc) => settings.deep_view() is Obj && doc.deep_view() == upsert_model(
                settings.deep_view(),
                port as int,
                auth@,
            ),
            Err(e) => !(settings.deep_view() is Obj) && e is NotAnObject,
        },
{
    let entry = registration_entry(port, auth);
    let key = String::from_str("mcpServers");
    let current: Json = match settings.get(&key) {
        Some(j) => j.clone(),
        None => Json::Obj(Vec::new()),
    };
    let mut server_fields: Vec<(String, Json)> = match current {
        Json::Obj(f) => f,
        _ => Vec::new(),
    };
    obj_set(&mut server_fields, String::from_str("aiterm"), entry);
    match settings {
        Json::Obj(mut fields) => {
            obj_set(&mut fields, key, Json::Obj(server_fields));
            Ok(Json::Obj(fields))
        },
        _ => Err(RegistryError::NotAnObject),
    }
}

/// The settings document after unregistering this bridge: its entry
/// leaves the `mcpServers` object, and the object itself leaves the
/// document when nothing else is registered. A document without an
/// `mcpServers` object has nothing to remove and stays as it is.
pub open spec fn remove_model(settings: JsonV) -> JsonV {
    if settings is Obj {
        match assoc_get(settings.fields(), "mcpServers"@) {
            Some(JsonV::Obj(s)) => {
                let s1 = assoc_remove(s, "aiterm"@);
                if s1.len() == 0 {
                    JsonV::Obj(assoc_remove(settings.fields(), "mcpServers"@))
                } else {
                    JsonV::Obj(assoc_set(settings.fields(), "mcpServers"@, JsonV::Obj(s1)))
                }
            },
            _ => settings,
        }
    } else {
        settings
    }
}

/// Unregisters this bridge from the shared settings document.
/// Idempotent: with nothing registered the document comes back as it
/// went in.
pub fn remove_registration(settings: Json) -> (r: Json)
    ensures
        r.deep_view() == remove_model(settings.deep_view()),
{
    let key = String::from_str("mcpServers");
    let current: Option<Json> = match settings.get(&key) {
        Some(j) => Some(j.clone()),
        None => None,
    };
    let server_fields: Option<Vec<(String, Json)>> = match current {
        Some(Json::Obj(f)) => Some(f),
        _ => None,
    };
    match server_fields {
        Some(mut sf) => {
            let _ = crate::json::obj_remove(&mut sf, &String::from_str("aiterm"));
            match settings {
                Json::Obj(mut fields) => {
                    if sf.is_empty() {
                        let _ = crate::json::obj_remove(&mut fields, &key);
                        proof {
                            lemma_obj_view(sf@);
                        }
                        Json::Obj(fields)
                    } else {
                        proof {
                            lemma_obj_view(sf@);
                        }
                        obj_set(&mut fields, key, Json::Obj(sf));
                        Json::Obj(fields)
                    }
                },
                _ => unreached(),
            }
        },
        None => settings,
    }
}

/// Law: registering and immediately unregistering restores the shared
/// settings document exactly. On a document with no `mcpServers` key —
/// one where this bridge's entry would be the only registration — the
/// round trip is the identity, every field in its place.
pub proof fn law_register_unregister_roundtrip(settings: JsonV, port: int, auth: Seq<char>)
    requires
        settings is Obj,
        !assoc_has(settings.fields(), "mcpServers"@),
    ensures
        remove_model(upsert_model(settings, port, auth)) == settings,
{
    let fields = settings.fields();
    let entry = registration_entry_model(port, auth);
    let servers = assoc_set(Seq::empty(), "aiterm"@, entry);
    lemma_assoc_none_means_absent(fields, "mcpServers"@);
    lemma_assoc_set_missing(fields, "mcpServers"@, JsonV::Obj(servers));
    let fields1 = fields.push(("mcpServers"@, JsonV::Obj(servers)));
    assert(upsert_model(settings, port, auth) == JsonV::Obj(fields1));
    lemma_assoc_get_at(fields1, "mcpServers"@, fields.len() as int);
    assert(assoc_get(fields1, "mcpServers"@) == Some(JsonV::Obj(servers)));
    assert(servers =~= seq![("aiterm"@, entry)]);
    assert(assoc_remove(servers, "aiterm"@) =~= Seq::<(Seq<char>, JsonV)>::empty());
    lemma_assoc_remove_at(fields1, "mcpServers"@, fields.len() as int);
    assert(fields1.remove(fields.len() as int) =~= fields);
    assert(remove_model(JsonV::Obj(fields1)) == JsonV::Obj(fields));
    assert(settings == JsonV::Obj(fields));
}

/// What the sweep decides for one lock file from its parsed content.
pub enum SweepCheck {
    /// The content was not valid JSON: the file is deleted outright,
    /// whatever the content was.
    DeleteUnparsable,
    /// The recorded process id: the file is deleted exactly when that
    /// process is no longer running.
    CheckPid(u64),
    /// No usable process id was recorded: the file is left alone.
    Keep,
}

/// The decision for one lock file's parsed content; `None` marks
/// content that did not parse.
pub open spec fn sweep_check_model(content: Option<JsonV>) -> SweepCheck {
    match content {
        None => SweepCheck::DeleteUnparsable,
        Some(doc) => {
            if doc is Obj {
                match assoc_get(doc.fields(), "pid"@) {
                    Some(JsonV::Int(p)) => if 0 <= p {
                        SweepCheck::CheckPid(p as u64)
                    } else {
                        SweepCheck::Keep
                    },
                    _ => SweepCheck::Keep,
                }
            } else {
                SweepCheck::Keep
            }
        },
    }
}

/// Classifies one lock file's parsed content; `None` marks content that
/// did not parse.
pub fn classify_lockfile(content: &Option<Json>) -> (r: SweepCheck)
    ensures
        r == sweep_check_model(content.deep_view()),
{
    match content {
        None => SweepCheck::DeleteUnparsable,
        Some(doc) => match doc.get(&String::from_str("pid")) {
            Some(j) => match j.as_int() {
                Some(p) => if p >= 0 {
                    SweepCheck::CheckPid(p as u64)
                } else {
                    SweepCheck::Keep
                },
                None => SweepCheck::Keep,
            },
            None => SweepCheck::Keep,
        },
    }
}

/// Whether the sweep deletes a lock file with this parsed content,
/// given whether its recorded process is alive.
pub open spec fn sweep_deletes(content: Option<JsonV>, alive: bool) -> bool {
    match sweep_check_model(content) {
        SweepCheck::DeleteUnparsable => true,
        SweepCheck::CheckPid(_) => !alive,
        SweepCheck::Keep => false,
    }
}

/// The verdict for one classified lock file: `true` orders deletion.
pub fn sweep_verdict(check: &SweepCheck, alive: bool) -> (r: bool)
    ensures
        r == match *check {
            SweepCheck::DeleteUnparsable => true,
            SweepCheck::CheckPid(_) => !alive,
            SweepCheck::Keep => false,
        },
{
    match check {
        SweepCheck::DeleteUnparsable => true,
        SweepCheck::CheckPid(_) => !alive,
        SweepCheck::Keep => false,
    }
}

/// One scanned lock file: its parsed content (`None` when the content
/// was not valid JSON) and whether the process it records is alive —
/// consulted only when a process id is recorded.
pub struct LockScan {
    pub content: Option<Json>,
    pub alive: bool,
}

/// The sweep over a directory of scanned lock files: one verdict per
/// file, in order, `true` ordering deletion.
pub fn sweep_decisions(scans: &Vec<LockScan>) -> (r: Vec<bool>)
    ensures
        r@.len() == scans@.len(),
        forall|i: int|
            0 <= i < scans@.len() ==> #[trigger] r@[i] == sweep_deletes(
                scans@[i].content.deep_view(),
                scans@[i].alive,
            ),
{
    let mut r: Vec<bool> = Vec::new();
    let mut i: usize = 0;
    while i < scans.len()
        invariant
            i <= scans@.len(),
            r@.len() == i,
            forall|j: int|
                0 <= j < i ==> #[trigger] r@[j] == sweep_deletes(
                    scans@[j].content.deep_view(),
                    scans@[j].alive,
                ),
        decreases scans@.len() - i,
    {
        let check = classify_lockfile(&scans[i].content);
        r.push(sweep_verdict(&check, scans[i].alive));
        i = i + 1;
    }
    r
}

/// How many scanned lock files the sweep keeps.
pub open spec fn count_kept(files: Seq<(Option<JsonV>, bool)>) -> int
    decreases files.len(),
{
    if files.len() == 0 {
        0
    } else {
        (if sweep_deletes(files[0].0, files[0].1) {
            0int
        } else {
            1int
        }) + count_kept(files.drop_first())
    }
}

/// How many scanned lock files record a living process.
pub open spec fn count_alive(files: Seq<(Option<JsonV>, bool)>) -> int
    decreases files.len(),
{
    if files.len() == 0 {
        0
    } else {
        (if files[0].1 {
            1int
        } else {
            0int
        }) + count_alive(files.drop_first())
    }
}

/// Law: the sweep keeps exactly the living. Over lock files that all
/// parse and record a process id, the files kept are exactly those
/// whose process is alive: of N files with M dead ones, N − M remain,
/// and nothing in the content beyond the process id plays any part.
pub proof fn law_sweep_keeps_exactly_the_living(files: Seq<(Option<JsonV>, bool)>)
    requires
        forall|i: int|
            0 <= i < files.len() ==> sweep_check_model(#[trigger] files[i].0) is CheckPid,
    ensures
        count_kept(files) == count_alive(files),
    decreases files.len(),
{
    if files.len() > 0 {
        assert(sweep_check_model(files[0].0) is CheckPid);
        assert forall|i: int|
            0 <= i < files.drop_first().len() implies sweep_check_model(
            #[trigger] files.drop_first()[i].0,
        ) is CheckPid by {
            assert(files.drop_first()[i] == files[i + 1]);
        }
        law_sweep_keeps_exactly_the_living(files.drop_first());
    }
}

} // verus!
