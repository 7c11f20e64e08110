use aiterm::json::Json;
use aiterm::registry::{
    classify_lockfile, collect_workspace_folders, lock_descriptor, remove_registration, sse_url,
    sweep_decisions, sweep_verdict, upsert_registration, LockScan, SweepCheck,
};
use aiterm::text::to_text;

fn s(text: &str) -> String {
    String::from(text)
}

#[test]
fn lock_descriptor_records_the_connection_parameters() {
    let folders = vec![s("/home/someone")];
    let doc = lock_descriptor(4242, &folders, &s("tok3n"), 12345);
    assert_eq!(
        to_text(&doc),
        "{\"pid\":4242,\"workspaceFolders\":[\"/home/someone\"],\"ideName\":\"aiTerm\",\"ideVersion\":\"0.1.0\",\"transport\":\"ws\",\"authToken\":\"tok3n\",\"serverPort\":12345}"
    );
}

#[test]
fn sse_url_names_the_port() {
    assert_eq!(sse_url(12345), "http://127.0.0.1:12345/sse");
    assert_eq!(sse_url(80), "http://127.0.0.1:80/sse");
}

#[test]
fn collect_workspace_folders_uses_the_home_directory() {
    assert_eq!(collect_workspace_folders(Some(s("/home/u"))), vec![s("/home/u")]);
    assert!(collect_workspace_folders(None).is_empty());
}

#[test]
fn registration_entry_is_upserted_and_removed() {
    let settings = Json::Obj(vec![(s("unrelated"), Json::Int(1))]);
    let registered = upsert_registration(settings, 23456, &s("tok")).unwrap();
    assert_eq!(
        to_text(&registered),
        "{\"unrelated\":1,\"mcpServers\":{\"aiterm\":{\"type\":\"sse\",\"url\":\"http://127.0.0.1:23456/sse\",\"headers\":{\"x-aiterm-ide-authorization\":\"tok\"}}}}"
    );
    let removed = remove_registration(registered);
    assert_eq!(to_text(&removed), "{\"unrelated\":1}");
}

#[test]
fn register_then_unregister_restores_the_document_byte_for_byte() {
    let settings = Json::Obj(vec![
        (s("theme"), Json::Str(s("dark"))),
        (s("count"), Json::Int(3)),
    ]);
    let before = to_text(&settings);
    let registered = upsert_registration(settings, 40000, &s("secret")).unwrap();
    let after = to_text(&remove_registration(registered));
    assert_eq!(before, after);
}

#[test]
fn unregister_with_nothing_registered_is_idempotent() {
    let settings = Json::Obj(vec![(s("a"), Json::Bool(true))]);
    let before = to_text(&settings);
    let once = remove_registration(settings);
    assert_eq!(to_text(&once), before);
    let twice = remove_registration(once);
    assert_eq!(to_text(&twice), before);
}

#[test]
fn other_registrations_survive_unregister() {
    let settings = Json::Obj(vec![(
        s("mcpServers"),
        Json::Obj(vec![(s("other"), Json::Str(s("keep")))]),
    )]);
    let registered = upsert_registration(settings, 50000, &s("t")).unwrap();
    let removed = remove_registration(registered);
    assert_eq!(to_text(&removed), "{\"mcpServers\":{\"other\":\"keep\"}}");
}

#[test]
fn non_object_settings_are_refused_on_register() {
    assert!(upsert_registration(Json::Arr(vec![]), 1, &s("t")).is_err());
    assert!(upsert_registration(Json::Null, 1, &s("t")).is_err());
}

fn lock_with_pid(pid: i64) -> Option<Json> {
    Some(Json::Obj(vec![(s("pid"), Json::Int(pid))]))
}

#[test]
fn classify_lockfile_distinguishes_the_cases() {
    assert!(matches!(classify_lockfile(&None), SweepCheck::DeleteUnparsable));
    assert!(matches!(
        classify_lockfile(&lock_with_pid(1234)),
        SweepCheck::CheckPid(1234)
    ));
    assert!(matches!(
        classify_lockfile(&lock_with_pid(-5)),
        SweepCheck::Keep
    ));
    assert!(matches!(
        classify_lockfile(&Some(Json::Obj(vec![(s("other"), Json::Int(1))]))),
        SweepCheck::Keep
    ));
    assert!(matches!(
        classify_lockfile(&Some(Json::Arr(vec![]))),
        SweepCheck::Keep
    ));
}

#[test]
fn sweep_verdict_deletes_the_dead_and_the_unparsable() {
    assert!(sweep_verdict(&SweepCheck::DeleteUnparsable, true));
    assert!(sweep_verdict(&SweepCheck::DeleteUnparsable, false));
    assert!(!sweep_verdict(&SweepCheck::CheckPid(1), true));
    assert!(sweep_verdict(&SweepCheck::CheckPid(1), false));
    assert!(!sweep_verdict(&SweepCheck::Keep, true));
    assert!(!sweep_verdict(&SweepCheck::Keep, false));
}

#[test]
fn sweep_keeps_exactly_the_living() {
    // five lock files, two of them for dead processes
    let scans = vec![
        LockScan { content: lock_with_pid(100), alive: true },
        LockScan { content: lock_with_pid(200), alive: false },
        LockScan { content: lock_with_pid(300), alive: true },
        LockScan { content: lock_with_pid(400), alive: false },
        LockScan { content: lock_with_pid(500), alive: true },
    ];
    let verdicts = sweep_decisions(&scans);
    assert_eq!(verdicts, vec![false, true, false, true, false]);
    let remaining = verdicts.iter().filter(|d| !**d).count();
    assert_eq!(remaining, 5 - 2);
}

#[test]
fn sweep_content_does_not_matter_for_liveness_removal() {
    // same pid and liveness, very different content: same verdict
    let plain = LockScan { content: lock_with_pid(7), alive: false };
    let rich = LockScan {
        content: Some(Json::Obj(vec![
            (s("pid"), Json::Int(7)),
            (s("workspaceFolders"), Json::Arr(vec![Json::Str(s("/x"))])),
            (s("extra"), Json::Str(s("data"))),
        ])),
        alive: false,
    };
    let verdicts = sweep_decisions(&vec![plain, rich]);
    assert_eq!(verdicts, vec![true, true]);
}
