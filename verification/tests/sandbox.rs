use agent_core::sandbox::envprep::{
    deps_hash, env_id, finalize, marker_paths, normalize_deps, plan, prepared, tail, uv_result,
    PrepPlan, UvEnd,
};
use agent_core::sandbox::exec::{
    bwrap_args, run_error, CappedOutput, RunFault, RunSpec, ScriptOutcome, MAX_STREAM_BYTES,
};
use agent_core::sandbox::limits::{
    count_user_threads, nproc_limit_from, Limits, ProcEntry, SANDBOX_FSIZE_BYTES,
    SANDBOX_NPROC_FALLBACK, SANDBOX_NPROC_MARGIN,
};
use agent_core::sandbox::workspace::{
    candidate_path, inline_mime, is_inside, is_internal_name, mime_hint, resolve_workspace_file,
    safe_file_name, EntryKind, FileStamp, Resolved, Scan, Visit, MAX_SCAN_ENTRIES,
};
use agent_core::sandbox::{find_python, python_candidates, HostRun, HOST_HELP};
use agent_core::{ApiErrorKind, Sandbox, SandboxConfig};

fn texts(items: &[&str]) -> Vec<String> {
    items.iter().map(|s| s.to_string()).collect()
}

fn spec<'a>(workspace: &'a str, read_paths: &'a Vec<String>) -> RunSpec<'a> {
    RunSpec {
        workspace,
        env: None,
        read_paths,
        python: "/usr/bin/python3",
        network: false,
        limits: Limits {
            memory_bytes: 512 * 1024 * 1024,
            cpu_secs: 15,
            fsize_bytes: 64 * 1024 * 1024,
            wall_secs: 10,
        },
    }
}

fn sandbox() -> Sandbox {
    let config = SandboxConfig {
        workspace: "/srv/ws".into(),
        read_paths: vec![],
        timeout_secs: 10,
        memory_mb: 128,
    };
    Sandbox::new(
        &config,
        "/srv/envs",
        &vec![Some("/srv/a".into()), None, Some("/srv/b".into())],
        "/usr/bin/python3",
    )
}

#[test]
fn dep_sets_normalize_and_hash_order_independently() {
    let a = normalize_deps(&vec![
        " pandas ".into(),
        "".into(),
        "numpy".into(),
        "pandas".into(),
    ]);
    assert_eq!(a, vec!["pandas", "numpy"]);
    let b = normalize_deps(&vec!["numpy".into(), "pandas".into()]);
    assert_eq!(deps_hash(&a), deps_hash(&b));
    assert_ne!(deps_hash(&a), deps_hash(&vec!["pandas".into()]));
    assert_eq!(deps_hash(&a).len(), 16);
}

#[test]
fn the_hash_of_nothing_is_the_offset_basis() {
    assert_eq!(deps_hash(&vec![]), "cbf29ce484222325");
    // One zero byte behind the empty text: the basis times the prime.
    assert_eq!(deps_hash(&vec!["".into()]), "af63bd4c8601b7df");
}

#[test]
fn a_completed_env_is_reused_without_running_uv() {
    let deps = vec!["pandas".to_owned()];
    let id = env_id(&deps);
    assert!(!prepared(false, false));
    assert!(!prepared(true, false));
    assert!(prepared(true, true));
    let (marker, python) = marker_paths("/srv/envs", &deps);
    assert_eq!(marker, format!("/srv/envs/{}/.complete", id.as_str()));
    assert_eq!(python, format!("/srv/envs/{}/bin/python", id.as_str()));
    match plan("/srv/envs", "/nonexistent/python", &deps, true, 7).unwrap() {
        PrepPlan::Reuse(found) => assert_eq!(found, id),
        other => panic!("expected a reuse, got {other:?}"),
    }
}

#[test]
fn an_env_is_built_aside_and_moved_into_place() {
    let deps = vec![" pandas".to_owned(), "numpy".to_owned()];
    let id = env_id(&deps);
    let install = match plan("/srv/envs", "/usr/bin/python3", &deps, false, 7).unwrap() {
        PrepPlan::Install(install) => install,
        other => panic!("expected an installation, got {other:?}"),
    };
    let tmp = format!("/srv/envs/.{}.tmp-7", id.as_str());
    assert_eq!(install.tmp, tmp);
    assert_eq!(install.target, format!("/srv/envs/{}", id.as_str()));
    assert_eq!(install.cache, "/srv/envs/.cache");
    assert_eq!(
        install.venv_args,
        vec!["venv", "--python", "/usr/bin/python3", tmp.as_str()]
    );
    assert_eq!(
        install.install_args,
        vec![
            "pip",
            "install",
            "--python",
            format!("{tmp}/bin/python").as_str(),
            "--",
            "pandas",
            "numpy"
        ]
    );
    assert_eq!(install.marker, format!("{tmp}/.complete"));
    assert_eq!(finalize(install, Ok(()), false).unwrap(), id);
    assert_eq!(
        plan("/e", "/p", &vec![" ".into()], false, 1).unwrap_err().kind,
        ApiErrorKind::Config
    );
}

#[test]
fn a_lost_race_still_gives_the_env() {
    let deps = vec!["pandas".to_owned()];
    for (now, good) in [(true, true), (false, false)] {
        let PrepPlan::Install(install) = plan("/e", "/p", &deps, false, 1).unwrap() else {
            panic!("expected an installation");
        };
        let moved = finalize(install, Err("exists".into()), now);
        assert_eq!(moved.is_ok(), good);
        if let Err(e) = moved {
            assert_eq!(e.kind, ApiErrorKind::Internal);
            assert!(e.message.ends_with(": exists"));
        }
    }
}

#[test]
fn installer_failures_say_what_happened() {
    assert!(uv_result("uv venv", UvEnd::Success).is_ok());
    let e = uv_result("uv venv", UvEnd::NotStarted("no such file".into())).unwrap_err();
    assert!(e.message.starts_with("cannot run `uv` (no such file)."));
    let stderr = format!("  {}END\n", "x".repeat(2000)).into_bytes();
    let end = UvEnd::Failed { status: "exit status: 1".into(), stderr };
    let e = uv_result("uv pip install", end).unwrap_err();
    assert_eq!(e.kind, ApiErrorKind::Config);
    assert_eq!(
        e.message,
        format!("uv pip install failed (exit status: 1): {}END", "x".repeat(797))
    );
    let e = uv_result("uv venv", UvEnd::Lost("gone".into())).unwrap_err();
    assert_eq!(e.message, "uv venv failed: gone");
    let e = uv_result("uv venv", UvEnd::TimedOut).unwrap_err();
    assert_eq!(
        e.message,
        "uv venv timed out after 300s; try again or request fewer packages"
    );
    assert_eq!(tail(" abc ", 2), "bc");
}

#[test]
fn recipe_pins_the_sandbox_flags_in_order() {
    let none = vec![];
    let args = bwrap_args(&spec("/tmp/ws", &none));
    assert_eq!(args[0], "--unshare-all");
    assert!(args.contains(&"--new-session".to_owned()));
    assert!(args.contains(&"--die-with-parent".to_owned()));
    let bind = args.iter().position(|a| a == "--bind").unwrap();
    assert_eq!(&args[bind..bind + 3], ["--bind", "/tmp/ws", "/workspace"]);
    assert!(args.windows(2).any(|w| w == ["--chdir", "/workspace"]));
    assert!(args.windows(2).any(|w| w == ["--remount-ro", "/"]));
    assert_eq!(args.last().unwrap(), "-");
    assert!(args.iter().any(|a| a == "/usr/bin/python3"));
    assert!(!args.iter().any(|a| a == "--share-net"));
    assert!(!args.iter().any(|a| a == "/opt/env"));
    assert!(args
        .windows(3)
        .any(|w| w == ["--setenv", "PATH", "/usr/bin:/usr/bin:/bin"]));
}

#[test]
fn network_is_opt_in_and_prepared_envs_mount_read_only() {
    let reads = texts(&["/srv/notes"]);
    let mut spec = spec("/tmp/ws", &reads);
    spec.env = Some("/tmp/envs/abc");
    spec.network = true;
    let args = bwrap_args(&spec);
    // --share-net must follow --unshare-all to undo just the net namespace.
    let unshare = args.iter().position(|a| a == "--unshare-all").unwrap();
    let share = args.iter().position(|a| a == "--share-net").unwrap();
    assert!(share > unshare);
    assert!(args.windows(2).any(|w| w == ["--ro-bind", "/tmp/envs/abc"]));
    assert!(args
        .windows(2)
        .any(|w| w == ["--ro-bind-try", "/srv/notes"]));
    assert_eq!(args.last().unwrap(), "-");
    assert!(args.iter().any(|a| a == "/opt/env/bin/python"));
    assert!(args
        .windows(3)
        .any(|w| w == ["--setenv", "PATH", "/opt/env/bin:/usr/bin:/bin"]));
}

#[test]
fn limits_derive_from_config_with_a_cpu_margin() {
    let config = SandboxConfig {
        timeout_secs: 10,
        memory_mb: 128,
        ..SandboxConfig::default()
    };
    let limits = Limits::from_config(&config);
    assert_eq!(limits.memory_bytes, 128 * 1024 * 1024);
    assert_eq!(limits.wall_secs, 10);
    assert_eq!(limits.cpu_secs, 15);
    assert_eq!(limits.fsize_bytes, SANDBOX_FSIZE_BYTES);
    assert_eq!(limits.timeout_secs(), 10);
}

#[test]
fn limits_saturate() {
    let config = SandboxConfig {
        timeout_secs: u64::MAX,
        memory_mb: u64::MAX,
        ..SandboxConfig::default()
    };
    let limits = Limits::from_config(&config);
    assert_eq!(limits.memory_bytes, u64::MAX);
    assert_eq!(limits.cpu_secs, u64::MAX);
}

#[test]
fn the_process_cap_leaves_room_above_the_current_thread_count() {
    assert_eq!(nproc_limit_from(Some(100)), 100 + SANDBOX_NPROC_MARGIN);
    assert_eq!(nproc_limit_from(None), SANDBOX_NPROC_FALLBACK);
    let entry = |name: &str, uid: Option<u32>, threads: Option<u64>| ProcEntry {
        name: name.into(),
        uid,
        threads,
    };
    let entries = vec![
        entry("1", Some(0), Some(9)),
        entry("42", Some(1000), Some(3)),
        entry("43", Some(1000), None),
        entry("44", None, Some(5)),
        entry("self", Some(1000), Some(7)),
    ];
    assert_eq!(count_user_threads(&entries, 1000), 4);
    // The live count is always at least one (the current process itself exists),
    // so the computed cap exceeds the margin.
    assert!(nproc_limit_from(Some(count_user_threads(&entries, 1000))) > SANDBOX_NPROC_MARGIN);
}

#[test]
fn new_creates_the_workspace_and_envs_dirs() {
    let sandbox = sandbox();
    assert_eq!(sandbox.workspace(), "/srv/ws");
    assert_eq!(sandbox.envs(), "/srv/envs");
    assert_eq!(sandbox.limits().wall_secs, 10);
    assert_eq!(sandbox.limits().memory_bytes, 128 * 1024 * 1024);
    assert_eq!(sandbox.read_paths(), &texts(&["/srv/a", "/srv/b"]));
    let spec = sandbox.run_spec(Some("/srv/envs/x"), false);
    assert_eq!(spec.workspace, "/srv/ws");
    assert_eq!(spec.limits, sandbox.limits());
    assert!(sandbox.needs_env(&texts(&["a"])));
    assert!(!sandbox.needs_env(&texts(&["", "  "])));
}

#[test]
fn the_host_check_fails_closed_with_help() {
    let sandbox = sandbox();
    assert!(sandbox
        .check_host(HostRun::Success, HostRun::Success, true, HostRun::Success)
        .is_ok());
    let e = sandbox
        .check_host(
            HostRun::Failed(b" broken \n".to_vec()),
            HostRun::Success,
            true,
            HostRun::Success,
        )
        .unwrap_err();
    assert_eq!(e.message, format!("`bwrap --version` failed: broken\n{HOST_HELP}"));
    let e = sandbox
        .check_host(
            HostRun::Success,
            HostRun::NotStarted("not found".into()),
            true,
            HostRun::Success,
        )
        .unwrap_err();
    assert_eq!(e.message, format!("cannot run `uv`: not found\n{HOST_HELP}"));
    let e = sandbox
        .check_host(HostRun::Success, HostRun::Success, false, HostRun::Success)
        .unwrap_err();
    assert_eq!(
        e.message,
        format!("system Python /usr/bin/python3 does not exist\n{HOST_HELP}")
    );
    let e = sandbox
        .check_host(
            HostRun::Success,
            HostRun::Success,
            true,
            HostRun::Failed(b"no userns".to_vec()),
        )
        .unwrap_err();
    assert!(e.message.starts_with("bubblewrap cannot create the sandbox: no userns\n"));
    let args = sandbox.probe_args();
    assert_eq!(args[0], "--unshare-all");
    assert_eq!(&args[args.len() - 4..], ["--", "/usr/bin/python3", "-c", "pass"]);
}

#[test]
fn the_interpreter_is_the_first_that_is_there() {
    let candidates = python_candidates(&texts(&["/opt/bin", "/usr/local/bin/"]));
    assert_eq!(
        candidates,
        vec!["/opt/bin/python3", "/usr/local/bin/python3", "/usr/bin/python3"]
    );
    assert_eq!(
        find_python(&candidates, &vec![false, true, true]).unwrap(),
        "/usr/local/bin/python3"
    );
    let e = find_python(&candidates, &vec![false, false, false]).unwrap_err();
    assert_eq!(e.kind, ApiErrorKind::Config);
}

#[test]
fn snapshot_lists_files_relative_and_skips_internal_names() {
    let stamp = |path: &str| FileStamp { path: path.into(), size: 3, modified: None };
    let mut scan = Scan::new();
    let sub = scan.visit("sub", EntryKind::Directory, stamp("sub"));
    assert_eq!(sub, Visit::Descend);
    assert_eq!(scan.visit("data.csv", EntryKind::File, stamp("sub/data.csv")), Visit::Next);
    assert_eq!(scan.visit("plot.png", EntryKind::File, stamp("plot.png")), Visit::Next);
    assert_eq!(scan.visit(".hidden", EntryKind::File, stamp(".hidden")), Visit::Next);
    assert_eq!(
        scan.visit("__pycache__", EntryKind::Directory, stamp("__pycache__")),
        Visit::Next
    );
    assert_eq!(scan.visit("pipe", EntryKind::Other, stamp("pipe")), Visit::Next);
    let paths: Vec<String> = scan.finish().into_iter().map(|stamp| stamp.path).collect();
    assert_eq!(paths, vec!["plot.png", "sub/data.csv"]);
}

#[test]
fn links_are_reported_and_not_followed() {
    let stamp = |path: &str| FileStamp { path: path.into(), size: 3, modified: None };
    let mut scan = Scan::new();
    assert_eq!(scan.visit("link", EntryKind::Link, stamp("link")), Visit::Next);
    assert_eq!(scan.visit(".link", EntryKind::Link, stamp(".link")), Visit::Next);
    let files = scan.finish();
    assert_eq!(files.len(), 1);
    assert_eq!(files[0].path, "link");
}

#[test]
fn a_scan_stops_at_its_bound() {
    let mut scan = Scan::new();
    for i in 0..MAX_SCAN_ENTRIES {
        let stamp = FileStamp { path: format!("{i}"), size: 0, modified: Some(1) };
        assert_eq!(scan.visit("f", EntryKind::File, stamp), Visit::Next);
    }
    assert!(scan.is_full());
    let stamp = FileStamp { path: "more".into(), size: 0, modified: None };
    assert_eq!(scan.visit("f", EntryKind::File, stamp), Visit::Stop);
    assert_eq!(scan.finish().len(), MAX_SCAN_ENTRIES);
}

#[test]
fn output_is_captured_up_to_its_bound() {
    let mut out = CappedOutput::new();
    out.push(&vec![b'a'; MAX_STREAM_BYTES - 1], MAX_STREAM_BYTES);
    out.push(&b"bc".to_vec(), MAX_STREAM_BYTES);
    out.push(&b"d".to_vec(), MAX_STREAM_BYTES);
    let mut err = CappedOutput::new();
    err.push(&b"\xFFoops".to_vec(), MAX_STREAM_BYTES);
    let outcome = ScriptOutcome::of_run(&out, &err, Some(0), None, false, 12);
    assert_eq!(outcome.stdout.len(), MAX_STREAM_BYTES);
    assert!(outcome.stdout.ends_with("ab"));
    assert_eq!(outcome.stderr, "\u{FFFD}oops");
    assert!(outcome.truncated);
    assert!(outcome.success());
    assert_eq!(outcome.duration_ms, 12);
    let killed = ScriptOutcome::of_run(&err, &err, None, Some(9), true, 1);
    assert!(!killed.success());
    assert!(!killed.truncated);
}

#[test]
fn a_run_that_did_not_take_place_says_why() {
    let e = run_error(RunFault::Start("no bwrap".into()));
    assert_eq!(e.kind, ApiErrorKind::Config);
    assert!(e.message.starts_with("cannot start bubblewrap: no bwrap. Install"));
    let e = run_error(RunFault::Script("pipe".into()));
    assert_eq!(e.message, "cannot deliver the script to python: pipe");
    let e = run_error(RunFault::Wait("gone".into()));
    assert_eq!(e.message, "cannot wait for the sandboxed process: gone");
}

#[test]
fn upload_names_must_be_single_ordinary_components() {
    assert_eq!(safe_file_name("notes.csv").unwrap(), "notes.csv");
    for bad in [
        "",
        ".",
        "..",
        ".env",
        "a/b",
        "a\\b",
        "a\nb",
        "x".repeat(256).as_str(),
    ] {
        assert!(safe_file_name(bad).is_err(), "{bad:?} must be rejected");
    }
    assert!(safe_file_name("wéird name.txt").is_ok());
    assert!(safe_file_name(&"x".repeat(255)).is_ok());
    // The bound counts bytes.
    assert!(safe_file_name(&"é".repeat(128)).is_err());
}

#[test]
fn resolution_reads_inside_the_workspace_and_refuses_escapes() {
    let root: Result<String, String> = Ok("/real/ws".into());
    let candidate = |rel: &str| candidate_path("/ws", &root, rel).unwrap();
    let plot = candidate("plot.png");
    assert_eq!(plot.path(), "/real/ws/plot.png");
    let found = Resolved::Path(plot.path().to_string());
    assert_eq!(resolve_workspace_file(&plot, found).unwrap(), "/real/ws/plot.png");
    assert_eq!(candidate("sub/data.csv").path(), "/real/ws/sub/data.csv");
    for bad in ["../secret.txt", "sub/../../secret.txt", "/etc/passwd", "", "a//b", "a/./b", "a\\b"] {
        let err = candidate_path("/ws", &root, bad).unwrap_err();
        assert!(
            err.kind == ApiErrorKind::Forbidden || err.kind == ApiErrorKind::Config,
            "{bad:?} must be refused, got {err:?}"
        );
    }
    assert_eq!(
        resolve_workspace_file(&candidate("missing.txt"), Resolved::Missing)
            .unwrap_err()
            .kind,
        ApiErrorKind::NotFound
    );
    assert_eq!(
        resolve_workspace_file(
            &candidate("link.txt"),
            Resolved::Path("/outside/secret.txt".into())
        )
        .unwrap_err()
        .kind,
        ApiErrorKind::Forbidden
    );
    assert!(!is_inside("/real/ws", "/real/ws2/x"));
    assert!(is_inside("/real/ws", "/real/ws"));
    let err = candidate_path("/ws", &Err("gone".into()), "a").unwrap_err();
    assert_eq!(err.message, "workspace /ws is not usable: gone");
    let err =
        resolve_workspace_file(&candidate("a"), Resolved::Failed("denied".into())).unwrap_err();
    assert_eq!(err.message, "cannot read a: denied");
}

#[test]
fn mime_hints_cover_images_and_common_data_files() {
    assert_eq!(mime_hint("plot.PNG"), Some("image/png"));
    assert_eq!(mime_hint("data.csv"), Some("text/csv"));
    assert_eq!(mime_hint("archive.bin"), None);
    assert_eq!(inline_mime("plot.png"), Some("image/png"));
    assert_eq!(inline_mime("evil.svg"), None);
    assert_eq!(inline_mime("notes.txt"), None);
    assert_eq!(mime_hint("sub.dir/.png"), None);
    assert_eq!(mime_hint("a/b.jpeg/"), Some("image/jpeg"));
    assert_eq!(mime_hint("noext"), None);
}

#[test]
fn internal_names_are_ignored_by_the_artifact_scan() {
    for name in [".complete", ".cache", "__pycache__", "mod.pyc"] {
        assert!(is_internal_name(name), "{name}");
    }
    for name in ["plot.png", "data.csv", "pyc-notes.txt"] {
        assert!(!is_internal_name(name), "{name}");
    }
}
