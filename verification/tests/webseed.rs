use opentorrent::webseed::{
    check_response, check_written, fetch_failure, file_url, finished_state, getright_bases,
    is_single_file, new_registry, plan_webseed, parse_content_range_total, part_file_name, plan_file,
    range_header, ready_to_join, relative_path_text, start_progress, webseed_totals, FilePlan,
    FileUrlError, SharedProgress, WebseedConfig, WebseedFile, WebseedProgress, WebseedState,
    WebseedTask,
};

fn config(base: &str) -> WebseedConfig {
    WebseedConfig {
        bases: vec![base.to_string()],
        name: "linuxmint-collection".to_string(),
    }
}

fn file(relative: &str, len: u64) -> WebseedFile {
    WebseedFile {
        relative_path: relative.split('/').map(|p| p.to_string()).collect(),
        length: len,
        is_padding: false,
    }
}

fn padding(len: u64) -> WebseedFile {
    WebseedFile {
        relative_path: vec![".____padding_file".to_string(), "1".to_string()],
        length: len,
        is_padding: true,
    }
}

#[test]
fn getright_bases_keeps_list_of_bases() {
    let urls = vec![
        "https://archive.org/download/".to_string(),
        "http://x/items/".to_string(),
    ];
    assert_eq!(getright_bases(Some(urls.clone())), Some(urls));
}

#[test]
fn getright_bases_none_without_field() {
    assert_eq!(getright_bases(None), None);
}

#[test]
fn getright_bases_filters_non_getright_bases() {
    assert_eq!(
        getright_bases(Some(vec!["https://a.com/file.iso".to_string()])),
        None
    );
    assert_eq!(
        getright_bases(Some(vec![
            "https://a.com/file.iso".to_string(),
            "https://a.com/download/".to_string(),
        ])),
        Some(vec!["https://a.com/download/".to_string()])
    );
}

#[test]
fn file_url_multi_file_uses_name_and_encoded_path() {
    let cfg = config("https://archive.org/download/");
    let f = file("20.1/x iso.bin", 10);
    let url = file_url("https://archive.org/download/", &cfg, &f).unwrap();
    assert_eq!(
        url,
        "https://archive.org/download/linuxmint-collection/20.1/x%20iso.bin"
    );
}

#[test]
fn file_url_single_file_uses_name_without_subfolder() {
    let cfg = WebseedConfig {
        bases: vec!["https://archive.org/download/".to_string()],
        name: "single.iso".to_string(),
    };
    let f = file("single.iso", 10);
    let url = file_url("https://archive.org/download/", &cfg, &f).unwrap();
    assert_eq!(url, "https://archive.org/download/single.iso");
}

#[test]
fn file_url_refuses_bad_bases() {
    let cfg = config("nope");
    let f = file("a.bin", 1);
    match file_url("not a url/", &cfg, &f) {
        Err(e @ FileUrlError::InvalidBase(_)) => {
            assert!(e.message().starts_with("base webseed inválida: "))
        }
        _ => panic!("esperava base inválida"),
    }
    match file_url("mailto:someone@example.com", &cfg, &f) {
        Err(e @ FileUrlError::NoPath) => assert_eq!(e.message(), "base webseed sem path válido"),
        _ => panic!("esperava base sem path"),
    }
}

#[test]
fn relative_paths_and_single_files() {
    assert_eq!(
        relative_path_text(&vec!["20.1".to_string(), "x.iso".to_string()]),
        "20.1/x.iso"
    );
    assert_eq!(relative_path_text(&vec![]), "");
    assert!(is_single_file("single.iso", &vec!["single.iso".to_string()]));
    assert!(!is_single_file("col", &vec!["col".to_string(), "a".to_string()]));
    assert!(!is_single_file("col", &vec!["a".to_string()]));
}

#[test]
fn parse_content_range_total_extracts_total() {
    assert_eq!(parse_content_range_total("bytes 0-1023/4096"), Some(4096));
    assert_eq!(parse_content_range_total("bytes */4096"), Some(4096));
    assert_eq!(parse_content_range_total("bytes 0-1"), None);
}

#[test]
fn parse_content_range_total_edge_values() {
    assert_eq!(parse_content_range_total("b/+7"), Some(7));
    assert_eq!(parse_content_range_total("b/"), None);
    assert_eq!(parse_content_range_total("b/-7"), None);
    assert_eq!(
        parse_content_range_total("b/18446744073709551615"),
        Some(u64::MAX)
    );
    assert_eq!(parse_content_range_total("b/18446744073709551616"), None);
    assert_eq!(parse_content_range_total("12"), Some(12));
}

#[test]
fn plan_skips_complete_files_and_creates_padding_locally() {
    assert_eq!(plan_file(&file("a", 10), Some(10)), FilePlan::Skip);
    assert_eq!(plan_file(&file("a", 10), Some(3)), FilePlan::Fetch);
    assert_eq!(plan_file(&file("a", 10), None), FilePlan::Fetch);
    assert_eq!(plan_file(&file("a", 0), None), FilePlan::CreateLocal);
    assert_eq!(plan_file(&padding(4096), Some(4096)), FilePlan::CreateLocal);
}

#[test]
fn range_header_asks_for_the_whole_file() {
    assert_eq!(range_header(23), "bytes=0-22");
    assert_eq!(range_header(0), "bytes=0-0");
}

#[test]
fn responses_with_a_divergent_size_are_refused() {
    let f = file("dir/e.bin", 23);
    assert_eq!(check_response(&f, true, Some("bytes 0-22/23"), None), Ok(()));
    assert_eq!(check_response(&f, true, None, Some(5)), Ok(()));
    assert_eq!(check_response(&f, true, Some("bytes 0-22/x"), None), Ok(()));
    assert_eq!(
        check_response(&f, true, Some("bytes 0-22/123"), None),
        Err("tamanho divergente para dir/e.bin (content-range 123 != 23 do torrent)".to_string())
    );
    assert_eq!(check_response(&f, false, None, None), Ok(()));
    assert_eq!(check_response(&f, false, None, Some(23)), Ok(()));
    assert_eq!(
        check_response(&f, false, None, Some(123)),
        Err("tamanho divergente para dir/e.bin (123 != 23 do torrent)".to_string())
    );
    assert_eq!(check_written(&f, 23), Ok(()));
    assert_eq!(
        check_written(&f, 20),
        Err("tamanho divergente para dir/e.bin (20 baixado != 23 do torrent)".to_string())
    );
}

#[test]
fn part_file_and_fallback_messages() {
    assert_eq!(part_file_name("a.iso", 77), ".a.iso.part77");
    assert_eq!(fetch_failure(Some("falha".to_string())), "falha");
    assert_eq!(fetch_failure(None), "nenhuma base webseed disponível");
}

#[test]
fn download_webseed_empty_files_list_completes() {
    let cfg = config("http://127.0.0.1:9/");
    let p = start_progress(&cfg, &vec![]).unwrap();
    assert!(p.all_done());
    let s = p.snapshot();
    assert_eq!(s.total_files, 0);
    assert_eq!(s.state, WebseedState::Downloading);
}

#[test]
fn start_progress_refuses_a_task_without_bases() {
    let cfg = WebseedConfig {
        bases: vec![],
        name: "x".to_string(),
    };
    match start_progress(&cfg, &vec![file("a", 1)]) {
        Err(m) => assert_eq!(m, "sem bases webseed para download"),
        Ok(_) => panic!("esperava erro"),
    }
}

#[test]
fn totals_leave_padding_out() {
    let files = vec![file("a", 10), padding(4096), file("b", 5)];
    assert_eq!(webseed_totals(&files), (15, 2));
}

#[test]
fn download_webseed_writes_files_and_progress() {
    let files = vec![file("a.txt", 23)];
    let mut p = start_progress(&config("http://h/"), &files).unwrap();
    assert_eq!(p.snapshot().state, WebseedState::Downloading);
    p.mark_done(&files[0], None);
    let s = p.snapshot();
    assert_eq!(s.done_files, 1);
    assert_eq!(s.total_bytes, 23);
    assert_eq!(s.downloaded_bytes, 23);
    assert_eq!(s.state, WebseedState::Done);
}

#[test]
fn download_webseed_creates_padding_without_http() {
    let files = vec![file("data.bin", 23), padding(4096)];
    let mut p = start_progress(&config("http://h/"), &files).unwrap();
    p.mark_done(&files[1], None);
    p.mark_done(&files[0], None);
    let s = p.snapshot();
    assert_eq!(s.done_files, 1);
    assert_eq!(s.total_files, 1);
    assert_eq!(s.downloaded_bytes, 23);
    assert_eq!(s.state, WebseedState::Done);
}

#[test]
fn download_webseed_marks_partial_error() {
    let files = vec![file("exists.bin", 23), file("missing.bin", 1234)];
    let mut p = start_progress(&config("http://h/"), &files).unwrap();
    p.mark_done(&files[1], Some("404".to_string()));
    p.mark_done(&files[0], None);
    let s = p.snapshot();
    assert_eq!(s.done_files, 2);
    assert_eq!(s.downloaded_bytes, 23);
    assert!(matches!(s.state, WebseedState::Error(_)));
}

#[test]
fn first_error_is_kept() {
    let files = vec![file("a", 1), file("b", 1)];
    let mut p = SharedProgress::new(2, 2);
    p.mark_done(&files[0], Some("primeiro".to_string()));
    p.mark_done(&files[1], Some("segundo".to_string()));
    assert_eq!(p.snapshot().state, WebseedState::Error("primeiro".to_string()));
    assert_eq!(p.snapshot().state.label(), "primeiro");
}

#[test]
fn finished_task_joins_only_when_done() {
    let done = WebseedProgress {
        total_bytes: 1,
        downloaded_bytes: 0,
        total_files: 1,
        done_files: 1,
        state: WebseedState::Done,
    };
    let failed = WebseedProgress {
        state: WebseedState::Error("x".to_string()),
        ..done.clone()
    };
    assert!(ready_to_join(&Ok(done.clone())));
    assert!(!ready_to_join(&Ok(failed.clone())));
    assert!(!ready_to_join(&Err("sem bases".to_string())));
    assert_eq!(finished_state(&Ok(done)), WebseedState::Done);
    assert_eq!(finished_state(&Ok(failed)), WebseedState::Error("x".to_string()));
    assert_eq!(
        finished_state(&Err("sem bases".to_string())),
        WebseedState::Error("sem bases".to_string())
    );
}

#[test]
fn registry_gives_fresh_ids_and_reports_tasks() {
    let mut reg = new_registry();
    assert_eq!(reg.next_id(), 0);
    let a = reg.register("src-a".to_string(), "a".to_string(), 10, 1);
    let b = reg.register("src-b".to_string(), "b".to_string(), 20, 2);
    assert_eq!((a, b), (0, 1));
    reg.remove(0);
    assert_eq!(reg.next_id(), 2);
    let snaps = reg.snapshots();
    assert_eq!(snaps.len(), 1);
    assert_eq!(snaps[0].id, 1);
    assert_eq!(snaps[0].source, "src-b");
    assert_eq!(snaps[0].state, "Downloading");
    assert_eq!(snaps[0].total_files, 2);
}

#[test]
fn registry_updates_only_the_task_of_an_id() {
    let mut reg = new_registry();
    reg.register("s".to_string(), "a".to_string(), 10, 1);
    reg.register("t".to_string(), "b".to_string(), 20, 2);
    reg.set_state(1, WebseedState::Error("falhou".to_string()));
    reg.set_progress(
        0,
        WebseedProgress {
            total_bytes: 10,
            downloaded_bytes: 0,
            total_files: 1,
            done_files: 1,
            state: WebseedState::Done,
        },
    );
    reg.set_state(9, WebseedState::Done);
    let snaps = reg.snapshots();
    assert_eq!(snaps[0].state, "Done");
    assert_eq!(snaps[0].done_files, 1);
    assert_eq!(snaps[1].state, "falhou");
}

#[test]
fn task_snapshot_mirrors_its_progress() {
    let task = WebseedTask {
        id: 3,
        source: "https://archive.org/download/x/x.torrent".to_string(),
        name: "x".to_string(),
        progress: WebseedProgress {
            total_bytes: 100,
            downloaded_bytes: 10,
            total_files: 3,
            done_files: 1,
            state: WebseedState::Downloading,
        },
    };
    let s = task.snapshot();
    assert_eq!(s.id, 3);
    assert_eq!(s.name, "x");
    assert_eq!(s.downloaded_bytes, 10);
    assert_eq!(s.total_bytes, 100);
    assert_eq!(s.done_files, 1);
    assert_eq!(s.total_files, 3);
    assert_eq!(s.state, "Downloading");
}

fn torrent_bytes(name: Option<&str>) -> Vec<u8> {
    let mut t = Vec::new();
    t.extend_from_slice(b"d4:infod6:lengthi1024e");
    if let Some(n) = name {
        t.extend_from_slice(format!("4:name{}:{}", n.len(), n).as_bytes());
    }
    t.extend_from_slice(b"12:piece lengthi16384e6:pieces20:");
    t.extend_from_slice(&[0x5a; 20]);
    t.extend_from_slice(b"ee");
    t
}

#[test]
fn plan_webseed_registers_a_single_file_task() {
    let mut reg = new_registry();
    let bases = vec!["http://h/base/".to_string()];
    let start = plan_webseed(&mut reg, "src".to_string(), &torrent_bytes(Some("data.bin")), bases)
        .expect("task starts");
    assert_eq!(start.id, 0);
    assert_eq!(start.config.name, "data.bin");
    assert_eq!(start.config.bases, vec!["http://h/base/".to_string()]);
    assert_eq!(start.subfolder, None);
    assert_eq!(start.files.len(), 1);
    assert_eq!(start.files[0].length, 1024);
    assert_eq!(reg.tasks.len(), 1);
    assert_eq!(reg.tasks[0].id, 0);
    assert_eq!(reg.tasks[0].source, "src");
    assert_eq!(reg.tasks[0].progress.total_bytes, 1024);
    assert_eq!(reg.tasks[0].progress.total_files, 1);
}

#[test]
fn plan_webseed_refuses_a_torrent_without_name() {
    let mut reg = new_registry();
    match plan_webseed(&mut reg, "src".to_string(), &torrent_bytes(None), vec![]) {
        Err(m) => assert_eq!(m, "torrent sem nome"),
        Ok(_) => panic!("esperava erro"),
    }
    assert!(reg.tasks.is_empty());
}

#[test]
fn plan_webseed_refuses_incomplete_bencode() {
    let mut reg = new_registry();
    match plan_webseed(&mut reg, "src".to_string(), b"d13:announce-list", vec![]) {
        Err(m) => assert_eq!(m, "torrent inválido: bencode incompleto"),
        Ok(_) => panic!("esperava erro"),
    }
    assert!(reg.tasks.is_empty());
}
