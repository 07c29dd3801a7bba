use agent_harness::sandbox::tools::{
    ArgValue, BashTool, ListDirectoryTool, ReadFileTool, ReplaceOutcome, ReplaceRequest, StrReplaceTool,
    ToolArgs, WriteFileTool,
};
use agent_harness::sandbox::{
    command_timeout, finished_command, local_sandbox_id_str, timed_out_command, DirWalk,
    LocalSandbox, LocalSandboxProvider, RawDirEntry, SandboxCommandResult, SandboxDirEntry,
    SandboxFileResult, VirtualPathMapping,
};
use agent_harness::error::ToolError;

fn args(pairs: Vec<(&str, ArgValue)>) -> ToolArgs {
    ToolArgs { entries: pairs.into_iter().map(|(k, v)| (k.to_string(), v)).collect() }
}

#[test]
fn test_local_sandbox_id() {
    let sandbox = LocalSandbox::new("/tmp/test", None);
    assert_eq!(sandbox.id(), local_sandbox_id_str());
}

#[test]
fn test_virtual_path_mapping() {
    let mapping = VirtualPathMapping::new("/mnt/data", "/real/data");
    assert_eq!(mapping.virtual_prefix, "/mnt/data");
    assert_eq!(mapping.real_path, "/real/data");
}

#[test]
fn test_local_sandbox_new() {
    let sandbox = LocalSandbox::new("/tmp/test", None);
    assert_eq!(sandbox.root(), "/tmp/test");
    assert!(sandbox.mappings().is_empty());
}

#[test]
fn test_translate_virtual_no_mapping() {
    let sandbox = LocalSandbox::new("/tmp/test", None);
    let real = sandbox.translate_virtual("subdir/file.txt");
    assert_eq!(real, "/tmp/test/subdir/file.txt");
}

#[test]
fn test_translate_virtual_with_mapping() {
    let mappings = vec![VirtualPathMapping::new("/mnt/data", "/real/data")];
    let sandbox = LocalSandbox::new("/tmp/test", Some(mappings));
    let real = sandbox.translate_virtual("/mnt/data/file.txt");
    assert_eq!(real, "/real/data/file.txt");
}

#[test]
fn test_bash_tool_schema() {
    let tool = BashTool::new();
    assert_eq!(tool.schema().name, "bash");
    assert_eq!(tool.schema().group.as_deref(), Some("sandbox"));
}

#[test]
fn thread_sandboxes_map_user_data_and_skills() {
    let s = LocalSandbox::with_thread_dir("t1", "/base");
    assert_eq!(s.id(), "local");
    assert_eq!(s.root(), "/base/t1");
    assert_eq!(s.translate_virtual("/mnt/user-data/outputs/a.txt"), "/base/t1/user-data/outputs/a.txt");
    assert_eq!(s.translate_real("/base/t1/user-data/x"), "/mnt/user-data/x");
    assert_eq!(s.translate_real("/base/t1/user-data"), "/mnt/user-data");
    assert_eq!(s.translate_real("/elsewhere"), "/elsewhere");
    assert_eq!(s.translate_virtual("/a/b"), "/base/t1/a/b");
    let p = LocalSandboxProvider::new("/base");
    assert_eq!(p.acquire("t1").root(), "/base/t1");
}

#[test]
fn commands_use_real_paths_longest_prefix_first() {
    let s = LocalSandbox::new(
        "/r",
        Some(vec![
            VirtualPathMapping::new("/mnt", "/M"),
            VirtualPathMapping::new("/mnt/data", "/D"),
        ]),
    );
    assert_eq!(s.translate_command_paths("cat /mnt/data/x /mnt/y"), "cat /D/x /M/y");
    assert_eq!(s.work_dir(None), "/r");
    assert_eq!(command_timeout(None), 30);
    assert_eq!(command_timeout(Some(5)), 5);
}

#[test]
fn command_results() {
    assert!(SandboxCommandResult::success("o".to_string()).is_success());
    assert!(!SandboxCommandResult::failure(2, String::new(), String::new()).is_success());
    let t = timed_out_command(30);
    assert!(t.timed_out && !t.is_success());
    assert_eq!(t.stderr, "Command timed out after 30s");
    assert_eq!(finished_command(None, String::new(), String::new()).exit_code, -1);
}

#[test]
fn bash_reports() {
    let tool = BashTool::new();
    let req = tool.plan(&args(vec![("command", ArgValue::Str("ls".to_string()))])).unwrap();
    assert_eq!(req.timeout_secs, 30);
    assert!(matches!(tool.plan(&args(vec![])), Err(ToolError::InvalidArguments(m)) if m == "Missing 'command' parameter"));
    let ok = SandboxCommandResult::success("out".to_string());
    assert_eq!(tool.render(&ok, 30), "out");
    let failed = SandboxCommandResult::failure(1, "o".to_string(), "e".to_string());
    assert_eq!(tool.render(&failed, 30), "Command failed with exit code 1\n\nSTDOUT:\no\n\nSTDERR:\ne");
    let slow = SandboxCommandResult::timeout("o".to_string(), "e".to_string());
    assert_eq!(tool.render(&slow, 7), "Command timed out after 7 seconds\n\nSTDOUT:\no\n\nSTDERR:\ne");
}

#[test]
fn read_file_selects_lines() {
    let tool = ReadFileTool::new();
    let file = SandboxFileResult { content: "a\r\nb\nc\n".to_string(), path: "/p".to_string(), exists: true };
    assert_eq!(tool.render("p", &file, Some(2), None), "b\nc");
    assert_eq!(tool.render("p", &file, Some(1), Some(2)), "a\nb");
    assert_eq!(tool.render("p", &file, Some(1), Some(99)), "a\nb\nc");
    assert_eq!(tool.render("p", &file, Some(5), None), "Start line 5 exceeds file length 3");
    assert_eq!(tool.render("p", &file, None, None), "a\r\nb\nc\n");
    let missing = SandboxFileResult { content: String::new(), path: "/p".to_string(), exists: false };
    assert_eq!(tool.render("p", &missing, None, None), "File not found: p");
}

#[test]
fn write_and_replace_reports() {
    let w = WriteFileTool::new();
    assert_eq!(w.render("f.txt", "héllo"), "Successfully wrote 6 bytes to f.txt");
    assert!(matches!(
        w.plan(&args(vec![("path", ArgValue::Str("f".to_string()))])),
        Err(ToolError::InvalidArguments(m)) if m == "Missing 'content' parameter"
    ));
    let r = StrReplaceTool::new();
    assert_eq!(r.replace("a-a-a", "a", "b", true).as_deref(), Some("b-b-b"));
    assert_eq!(r.replace("a-a-a", "a", "b", false).as_deref(), Some("b-a-a"));
    assert_eq!(r.replace("abc", "x", "y", true), None);
    assert_eq!(r.render_not_found("f", "x"), "Substring 'x' not found in f");
    assert_eq!(r.render_replaced("f", "a", "b"), "Replaced 'a' with 'b' in f");
}

#[test]
fn listings() {
    let l = ListDirectoryTool::new();
    let req = l.plan(&args(vec![]));
    assert_eq!(req.path, ".");
    assert_eq!(req.max_depth, 2);
    assert!(!req.recursive);
    assert_eq!(l.render("d", &vec![]), "Directory is empty or does not exist: d");
    let entries = vec![SandboxDirEntry { name: "x".to_string(), path: "/d/x".to_string(), is_dir: true, size: 4096 }];
    assert_eq!(l.render("d", &entries), "[DIR] x (4096 bytes)\n");
}

fn raw(name: &str, is_dir: bool) -> RawDirEntry {
    RawDirEntry { name: name.to_string(), path: format!("/r/{}", name), is_dir, path_is_dir: is_dir, size: Some(1) }
}

#[test]
fn walks_skip_hidden_directories_and_respect_depth() {
    let mut w = DirWalk::new("/r", true, 1);
    let (p, d) = w.next_dir().unwrap();
    assert_eq!((p.as_str(), d), ("/r", 0));
    w.take_entries(0, vec![raw(".git", true), raw("src", true), raw("a.txt", false)]);
    assert!(w.next_dir().is_none());
    let entries = w.into_entries();
    let names: Vec<&str> = entries.iter().map(|e| e.name.as_str()).collect();
    assert_eq!(names, vec!["src", "a.txt"]);
    assert_eq!(entries[0].size, 0);
    assert_eq!(entries[1].size, 1);
}

#[test]
fn read_range_fits_where_slicing_is_defined() {
    let tool = ReadFileTool::new();
    let file = SandboxFileResult { content: "a\nb\nc".to_string(), path: "/f".to_string(), exists: true };
    assert!(tool.range_fits(&file, None, None));
    assert!(tool.range_fits(&file, Some(2), Some(3)));
    assert!(tool.range_fits(&file, Some(9), None));
    assert!(!tool.range_fits(&file, Some(0), None));
    assert!(!tool.range_fits(&file, Some(3), Some(1)));
    let missing = SandboxFileResult { content: String::new(), path: "/g".to_string(), exists: false };
    assert!(tool.range_fits(&missing, Some(0), None));
    assert_eq!(tool.render("g", &missing, Some(0), None), "File not found: g");
}

#[test]
fn str_replace_decides_after_reading() {
    let tool = StrReplaceTool::new();
    let req = ReplaceRequest {
        path: "f.txt".to_string(),
        old: "a".to_string(),
        new: "b".to_string(),
        replace_all: false,
    };
    let missing = SandboxFileResult { content: String::new(), path: "/f.txt".to_string(), exists: false };
    match tool.decide(&req, &missing) {
        ReplaceOutcome::Report(m) => assert_eq!(m, "File not found: f.txt"),
        _ => panic!("expected a report"),
    }
    let plain = SandboxFileResult { content: "xyz".to_string(), path: "/f.txt".to_string(), exists: true };
    match tool.decide(&req, &plain) {
        ReplaceOutcome::Report(m) => assert_eq!(m, "Substring 'a' not found in f.txt"),
        _ => panic!("expected a report"),
    }
    let file = SandboxFileResult { content: "aXa".to_string(), path: "/f.txt".to_string(), exists: true };
    match tool.decide(&req, &file) {
        ReplaceOutcome::Write { content, report } => {
            assert_eq!(content, "bXa");
            assert_eq!(report, "Replaced 'a' with 'b' in f.txt");
        }
        _ => panic!("expected a write"),
    }
}

#[test]
fn joined_paths_follow_path_join() {
    let s = LocalSandbox::with_thread_dir("t1", "/base/");
    assert_eq!(s.root(), "/base/t1");
    let s = LocalSandbox::with_thread_dir("/abs", "/base");
    assert_eq!(s.root(), "/abs");
}
