use mcp_server::child::{
    frame_line, resolved_program, stdin_closed, Candidate, ProgramSearch, SearchStep,
};

#[test]
fn one_message_is_one_line() {
    assert_eq!(frame_line("{}"), "{}\n");
    assert_eq!(frame_line("{}\n"), "{}\n");
    assert_eq!(frame_line(""), "\n");
}

#[test]
fn a_closed_child_is_named() {
    assert_eq!(
        stdin_closed("echo").to_string(),
        "child process for echo exited unexpectedly: stdin channel closed"
    );
}

/// Searches for `program` among `files`, with the directories of the search path in `dirs`.
fn find(program: &str, dirs: &[&str], files: &[&str]) -> Option<String> {
    let has_extension = std::path::Path::new(program).extension().is_some();
    let file = |candidate: &Candidate| match candidate {
        Candidate::WithExtension(ext) => format!("{}.{}", program, ext),
        Candidate::InDirectory { dir, name } => format!("{}\\{}", dirs[*dir], name),
    };
    let mut search = ProgramSearch::new(program, has_extension, dirs.len());
    let mut exists = false;
    loop {
        match search.step(exists) {
            SearchStep::Look(candidate) => exists = files.contains(&file(&candidate).as_str()),
            SearchStep::Found(candidate) => return Some(file(&candidate)),
            SearchStep::NotFound => return None,
        }
    }
}

#[test]
fn test_find_windows_program() {
    let dirs = ["C:\\Tools", "C:\\Windows\\System32"];
    let cmd_resolved = find("cmd", &dirs, &["C:\\Windows\\System32\\cmd.exe"]);
    assert!(cmd_resolved.is_some());
    let path = cmd_resolved.unwrap();
    assert!(path.to_lowercase().ends_with("cmd.exe"));
}

#[test]
fn directories_come_before_extensions() {
    let dirs = ["D1", "D2"];
    assert_eq!(find("npx", &dirs, &["D2\\npx.exe", "D1\\npx.com"]), Some("D1\\npx.com".to_string()));
    assert_eq!(find("npx", &dirs, &["D1\\npx.bat", "D1\\npx.cmd"]), Some("D1\\npx.cmd".to_string()));
    assert_eq!(find("npx", &dirs, &["D3\\npx.cmd"]), None);
    assert_eq!(find("npx.cmd", &dirs, &["D1\\npx.cmd"]), None);
}

#[test]
fn a_path_is_searched_in_place() {
    assert_eq!(find("bin/tool", &["D1"], &["bin/tool.bat", "D1\\bin/tool.exe"]), Some("bin/tool.bat".to_string()));
    assert_eq!(find("bin\\tool", &["D1"], &["bin\\tool.com"]), Some("bin\\tool.com".to_string()));
    assert_eq!(find("bin/tool", &["D1"], &[]), None);
}

#[test]
fn a_program_that_is_not_found_is_taken_as_named() {
    assert_eq!(resolved_program("npx", None), "npx");
    assert_eq!(resolved_program("npx", Some("D1\\npx.cmd".to_string())), "D1\\npx.cmd");
}

#[test]
fn a_search_begins_before_the_first_file() {
    let mut search = ProgramSearch::new("npx", false, 1);
    assert!(matches!(search.step(true), SearchStep::Look(_)));
    assert!(matches!(search.step(true), SearchStep::Found(_)));
    let mut search = ProgramSearch::new("npx", true, 1);
    assert!(matches!(search.step(true), SearchStep::NotFound));
}
