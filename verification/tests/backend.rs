use std::path::Path;

use opentorrent::cli::{
    action_at_column, actions_string, add_summary, confirm_delete_click, bar_index_at, bar_position, config_folder,
    default_output_folder, default_output_folder_from, existing_state, main_file, retain_seen,
    smart_resume, AddSummary, ClickAction, ExistingState, FileOnDisk, ResumeDecision,
};
use opentorrent::daemon::{
    install_message, not_found_message, order_by_id, queue_totals, service_unit_content,
    service_unit_path, service_unit_path_in, status_message, unit_needs_write,
};
use opentorrent::downloads::{
    format_completed_row, history_header, list_completed_downloads, CompletedItem,
    HISTORY_DATE_W, HISTORY_SIZE_W,
};
use opentorrent::ipc::{encode_frame, frame_len, DaemonPaths, FrameError, MAX_FRAME_LEN};
use opentorrent::note::project_note;
use opentorrent::resolve::{
    classify_body, extract_torrent_links, is_bencode_prefix, is_http_source, is_valid_torrent,
    looks_like_html,
    resolve_candidate, value_after_marker, BodyKind,
};
use opentorrent::update::{
    asset_name, asset_url, has_update, signature_url, signing_dir_from, update_command,
};

#[test]
fn daemon_paths_under_config_dir() {
    let paths = DaemonPaths::new("/tmp/cfg/opentorrent");
    assert_eq!(paths.socket, "/tmp/cfg/opentorrent/daemon.sock");
    assert_eq!(paths.pid, "/tmp/cfg/opentorrent/daemon.pid");
}

#[test]
fn service_unit_lives_under_systemd_user_dir() {
    let path = service_unit_path().expect("caminho do unit resolvido");
    let config = config_folder().expect("config dir");
    let expected = Path::new(&config)
        .parent()
        .expect("parent")
        .join("systemd/user/opentorrent-daemon.service");
    assert_eq!(Path::new(&path), expected.as_path());
}

#[test]
fn service_unit_path_in_joins_systemd_user() {
    assert_eq!(
        service_unit_path_in("/home/u/.config"),
        "/home/u/.config/systemd/user/opentorrent-daemon.service"
    );
}

#[test]
fn service_unit_content_points_at_current_binary() {
    let exe = "/usr/local/bin/opentorrent";
    let content = service_unit_content(exe);
    assert!(content.contains(&format!("ExecStart={} --daemon-headless", exe)));
    assert!(content.contains("Restart=on-failure"));
    assert!(content.contains("WantedBy=default.target"));
    assert!(content.starts_with("[Unit]\n"));
}

#[test]
fn unit_is_written_only_when_it_differs() {
    let content = service_unit_content("/bin/x");
    assert!(unit_needs_write(None, &content));
    assert!(!unit_needs_write(Some(&content), &content));
    assert!(unit_needs_write(Some("[Unit]\n"), &content));
}

#[test]
fn daemon_messages() {
    assert_eq!(status_message(true, " 4242\n"), "daemon rodando (pid=4242)");
    assert_eq!(status_message(false, "4242"), "daemon não está rodando");
    assert_eq!(install_message(true), "service instalado (opentorrent-daemon)");
    assert!(install_message(false).starts_with("systemd user indisponível"));
    assert_eq!(not_found_message(42), "torrent não encontrado (id=42)");
}

#[test]
fn queue_is_reported_by_id() {
    let order = order_by_id(&vec![7, 2, 9, 2]);
    assert_eq!(order, vec![1, 3, 0, 2]);
    assert!(order_by_id(&vec![]).is_empty());
}

#[test]
fn queue_totals_count_finished_and_bytes() {
    assert_eq!(queue_totals(&vec![true, false, true], &vec![10, 20, 30]), (2, 60));
    assert_eq!(queue_totals(&vec![], &vec![]), (0, 0));
}

fn item(name: &str, size: u64, modified: i64) -> CompletedItem {
    CompletedItem {
        path: format!("/tmp/{name}"),
        name: name.to_string(),
        size,
        modified,
    }
}

#[test]
fn returns_empty_when_directory_does_not_exist() {
    let result = list_completed_downloads(Vec::new());
    assert!(result.is_empty());
}

#[test]
fn lists_files_sorted_by_newest() {
    let result = list_completed_downloads(vec![
        item("old.txt", 3, 1_000),
        item("new.bin", 512, 121_000),
    ]);
    assert_eq!(result.len(), 2);
    assert_eq!(result[0].name, "new.bin");
    assert_eq!(result[1].name, "old.txt");
    assert_eq!(result[1].size, 3);
}

#[test]
fn history_ties_keep_a_total_order() {
    let result = list_completed_downloads(vec![
        item("b", 1, 5),
        item("a", 1, 5),
        item("c", 1, 9),
    ]);
    let names: Vec<&str> = result.iter().map(|i| i.name.as_str()).collect();
    assert_eq!(names[0], "c");
    assert_eq!(names.len(), 3);
}

#[test]
fn formats_item_with_name_size_and_date() {
    let it = item("x.iso", 700 * 1024 * 1024, 0);
    let line = format_completed_row(&it, 40);
    assert!(line.contains("31/12/1969") || line.contains("01/01/1970"));
    assert!(line.contains("x.iso"));
    assert!(line.contains("700"));
}

#[test]
fn history_header_matches_row_width() {
    let it = item("x.iso", 5 * 1024 * 1024, 0);
    let name_w = 30;
    let header = history_header(name_w);
    let row = format_completed_row(&it, name_w);
    assert_eq!(header.chars().count(), row.chars().count());
    assert_eq!(
        header.chars().count(),
        HISTORY_DATE_W + 1 + name_w + 1 + HISTORY_SIZE_W
    );
    assert!(header.contains("DATA CRIAÇÃO"));
    assert!(header.contains("TAMANHO"));
}

#[test]
fn format_completed_row_truncates_long_names() {
    let it = item("arquivo-com-nome-muito-longo.iso", 1, 0);
    let line = format_completed_row(&it, 10);
    let name_field = line
        .split_whitespace()
        .find(|p| p.contains('…'))
        .unwrap_or_default();
    assert!(name_field.chars().count() <= 10);
    assert!(name_field.contains('…'));
}

#[test]
fn frame_len_rejects_oversized() {
    let mut header = (MAX_FRAME_LEN + 1).to_le_bytes();
    assert!(frame_len(&header).is_err());
    header = MAX_FRAME_LEN.to_le_bytes();
    assert_eq!(frame_len(&header).unwrap(), MAX_FRAME_LEN);
}

#[test]
fn frame_header_le() {
    let mut buf = Vec::new();
    encode_frame(&mut buf, b"abcd").unwrap();
    let len = u32::from_le_bytes([buf[0], buf[1], buf[2], buf[3]]);
    assert_eq!(len, 4);
}

#[test]
fn frame_round_trips_its_length() {
    let payload = vec![7u8; 300];
    let mut buf = vec![1u8];
    encode_frame(&mut buf, &payload).unwrap();
    assert_eq!(buf[0], 1);
    assert_eq!(&buf[5..], payload.as_slice());
    assert_eq!(frame_len(&buf[1..5]), Ok(300));
    assert_eq!(frame_len(&[0, 0, 2, 0]), Err(FrameError::FrameTooLarge));
}

#[test]
fn default_output_folder_uses_platform_downloads_dir() {
    let folder = default_output_folder_from("/home/usuario", true);
    assert_eq!(folder, "/home/usuario/Downloads/torrent-downloads");
    let folder = default_output_folder_from("/home/usuario", false);
    assert_eq!(folder, "/home/usuario/downloads/torrent-downloads");
}

#[test]
fn default_output_folder_resolves_cross_platform() {
    let folder = default_output_folder(false).expect("pasta pessoal resolvida");
    assert!(folder.ends_with("torrent-downloads"));
}

#[test]
fn config_folder_is_opentorrent_under_config_dir() {
    let folder = config_folder().expect("diretório de configuração resolvido");
    assert_eq!(Path::new(&folder).file_name().unwrap(), "opentorrent");
}

#[test]
fn smart_resume_decisions() {
    let files = vec![
        FileOnDisk { padding: false, length: 10, on_disk: Some(10) },
        FileOnDisk { padding: true, length: 5, on_disk: None },
        FileOnDisk { padding: false, length: 4, on_disk: Some(2) },
    ];
    assert_eq!(existing_state(&files, None), ExistingState::Partial);
    assert_eq!(existing_state(&files, Some(&vec![0])), ExistingState::Complete);
    let none = vec![FileOnDisk { padding: false, length: 4, on_disk: None }];
    assert_eq!(existing_state(&none, None), ExistingState::Missing);
    assert_eq!(smart_resume(ExistingState::Complete, false), ResumeDecision::SkipComplete);
    assert_eq!(
        smart_resume(ExistingState::Complete, true),
        ResumeDecision::Download { overwrite: true }
    );
    assert_eq!(smart_resume(ExistingState::Partial, false), ResumeDecision::ResumePartial);
    assert_eq!(
        smart_resume(ExistingState::Missing, false),
        ResumeDecision::Download { overwrite: false }
    );
}

#[test]
fn add_summary_outcomes() {
    assert_eq!(add_summary(true, true, true), AddSummary::Listed);
    assert_eq!(add_summary(false, true, false), AddSummary::Wait);
    assert_eq!(add_summary(false, false, true), AddSummary::NothingToDo);
    assert_eq!(add_summary(false, false, false), AddSummary::Failed);
}

#[test]
fn progress_bar_buttons_and_rows() {
    let running = actions_string(false);
    let paused = actions_string(true);
    assert_ne!(running, paused);
    assert_eq!(bar_index_at(24, 24, 3), Some(2));
    assert_eq!(bar_index_at(22, 24, 3), Some(0));
    assert_eq!(bar_index_at(21, 24, 3), None);
    assert_eq!(action_at_column(0), None);
    assert_eq!(action_at_column(64), None);
    assert_eq!(action_at_column(65), Some(ClickAction::Toggle));
    assert_eq!(action_at_column(75), Some(ClickAction::Stop));
    assert_eq!(action_at_column(85), Some(ClickAction::Delete));
    assert_eq!(action_at_column(94), None);
}

#[test]
fn main_file_and_bar_position() {
    assert_eq!(main_file(&vec![]), None);
    assert_eq!(main_file(&vec![5, 90, 90, 3]), Some((2, 90)));
    assert_eq!(bar_position(Some((1, 90)), &vec![0, 45], 0, 0), (45, 90));
    assert_eq!(bar_position(Some((4, 0)), &vec![0], 0, 0), (0, 1));
    assert_eq!(bar_position(None, &vec![], 10, 0), (10, 1));
}

#[test]
fn retain_seen_drops_finished_ids() {
    let mut order = vec![3, 1, 4, 1, 5];
    let dropped = retain_seen(&mut order, &vec![1, 5]);
    assert_eq!(order, vec![1, 1, 5]);
    assert_eq!(dropped, vec![3, 4]);
}

#[test]
fn note_is_embedded_and_readable() {
    let note = project_note();
    assert!(!note.is_empty());
    let text = String::from_utf8_lossy(&note);
    assert!(text.contains("opentorrent"));
    assert!(text.contains("Repositorio:"));
    assert!(text.contains("Objetivo:"));
}

#[test]
fn note_has_valid_elf_note_header() {
    let note = project_note();
    assert!(note.len() >= 12);
    let namesz = u32::from_le_bytes([note[0], note[1], note[2], note[3]]) as usize;
    let descsz = u32::from_le_bytes([note[4], note[5], note[6], note[7]]) as usize;
    assert!(namesz > 0);
    assert!(descsz > 0);
    let name = String::from_utf8_lossy(&note[12..12 + namesz]);
    assert_eq!(name.trim_end_matches('\0'), "opentorrent");
    assert!(note.len() >= 12 + namesz + descsz);
    assert_eq!(note.len() % 4, 0);
}

fn sample_html() -> &'static str {
    r#"<html><head><title>Thank You</title>
        <script type="text/javascript">function startDownload() {window.location = "/files/download.php?file=arcoplasma-v25.05.01-x86_64.iso.torrent";}</script>
        </head><body onload="startDownload();">
        <a href="https://fosstorrents.com/files/download.php?file=alt.torrent">retry</a>
        </body></html>"#
}

const BASE_URL: &str = "https://fosstorrents.com/thankyou/?name=arcoplasma&id=1";

/// A single-file torrent of 1 KiB in one piece.
fn smallest_torrent_bytes() -> Vec<u8> {
    let mut t = Vec::new();
    t.extend_from_slice(b"d4:infod6:lengthi1024e4:name8:data.bin12:piece lengthi16384e6:pieces20:");
    t.extend_from_slice(&[0x5a; 20]);
    t.extend_from_slice(b"ee");
    t
}

#[test]
fn extract_torrent_links_picks_window_location_and_href() {
    let links = extract_torrent_links(sample_html(), BASE_URL);
    assert_eq!(links.len(), 2);
    assert!(links.iter().any(|l| l.ends_with(".iso.torrent")));
    assert!(links.iter().any(|l| l.ends_with("alt.torrent")));
    assert!(links.iter().all(|l| l.ends_with(".torrent")));
}

#[test]
fn extract_torrent_links_resolves_relative_paths() {
    let html = r#"<a href="/files/download.php?file=x.torrent">dl</a>"#;
    let links = extract_torrent_links(html, BASE_URL);
    assert_eq!(links.len(), 1);
    assert_eq!(
        links[0],
        "https://fosstorrents.com/files/download.php?file=x.torrent"
    );
}

#[test]
fn extract_torrent_links_dedupes_and_filters_non_torrent() {
    let html = r#"<a href="/files/a.torrent">a</a><a href="/files/a.torrent">dup</a><a href="/files/image.png">img</a>"#;
    assert_eq!(extract_torrent_links(html, BASE_URL).len(), 1);
}

#[test]
fn extract_torrent_links_empty_without_torrent_href() {
    let html = r#"<html><body>nope</body></html>"#;
    assert!(extract_torrent_links(html, BASE_URL).is_empty());
}

#[test]
fn looks_like_html_detects_doctype_and_body() {
    assert!(looks_like_html(b"<!DOCTYPE html><html>"));
    assert!(looks_like_html(b"<html><body>x</body></html>"));
    assert!(looks_like_html(b"<a href=\"/x\">"));
    assert!(!looks_like_html(b"d8:announce36:udp://tracker/announce"));
}

#[test]
fn is_valid_torrent_accepts_bencode_and_rejects_garbage() {
    let good = smallest_torrent_bytes();
    assert!(is_valid_torrent(&good));
    assert!(!is_valid_torrent(b"<html>not a torrent</html>"));
    assert!(!is_valid_torrent(b"387a0nb"));
}

#[test]
fn value_after_marker_handles_quotes_and_plain() {
    assert_eq!(
        value_after_marker("window.location = '/files/a.torrent';", "window.location = "),
        vec!["/files/a.torrent"]
    );
    assert_eq!(
        value_after_marker(&format!(r#"href="{}""#, "/x.torrent"), "href=\""),
        vec!["/x.torrent"]
    );
}

#[test]
fn resolve_candidate_joins_relative() {
    assert_eq!(
        resolve_candidate("/files/a.torrent", BASE_URL).unwrap(),
        "https://fosstorrents.com/files/a.torrent"
    );
}

#[test]
fn http_sources_are_the_ones_downloaded() {
    assert!(is_http_source("https://example.com/a.torrent"));
    assert!(is_http_source("http://example.com/a"));
    assert!(!is_http_source("magnet:?xt=urn:btih:abc"));
    assert!(!is_http_source("/tmp/a.torrent"));
}

#[test]
fn classify_body_tells_torrents_pages_and_junk_apart() {
    assert!(matches!(classify_body(&smallest_torrent_bytes(), BASE_URL), BodyKind::Torrent));
    assert!(matches!(classify_body(b"junk", BASE_URL), BodyKind::NotTorrent));
    match classify_body(sample_html().as_bytes(), BASE_URL) {
        BodyKind::Page(links) => assert_eq!(links.len(), 2),
        _ => panic!("esperava uma página com links"),
    }
}

#[test]
fn has_update_detects_newer_release() {
    assert!(has_update("v0.1.12", "0.1.10"));
    assert!(has_update("v0.2.0", "0.1.99"));
}

#[test]
fn has_update_false_when_equal_or_older() {
    assert!(!has_update("v0.1.11", "0.1.11"));
    assert!(!has_update("v0.1.10", "0.1.11"));
}

#[test]
fn has_update_ignores_malformed_versions() {
    assert!(!has_update("not-a-version", "0.1.15"));
    assert!(!has_update("v0.1.16", "junk"));
    assert!(!has_update("", "0.1.15"));
}

#[test]
fn asset_name_targets_linux_x86_64() {
    let name = asset_name("v0.1.16");
    assert_eq!(name, "opentorrent-v0.1.16-linux-x86_64");
    let url = asset_url("v0.1.16");
    assert!(url.contains("/download/v0.1.16/opentorrent-v0.1.16-linux-x86_64"));
}

#[test]
fn update_command_native_subcommand() {
    assert_eq!(update_command(), "opentorrent update");
}

#[test]
fn signing_material_locations() {
    assert_eq!(
        signing_dir_from(Some("/home/u/.local/share")),
        "/home/u/.local/share/opentorrent/signing"
    );
    assert_eq!(
        signing_dir_from(None),
        "~/.local/share/opentorrent/opentorrent/signing"
    );
    assert!(signature_url("v1").ends_with("/download/v1/opentorrent-v1-linux-x86_64.sig"));
}

#[test]
fn larger_file_on_disk_is_not_complete() {
    let files = vec![FileOnDisk { padding: false, length: 10, on_disk: Some(12) }];
    assert_eq!(existing_state(&files, None), ExistingState::Partial);
}

#[test]
fn truncated_bencode_is_not_a_torrent() {
    assert!(!is_bencode_prefix(b"d13:announce-list"));
    assert!(!is_valid_torrent(b"d13:announce-list"));
    assert!(!is_valid_torrent(b""));
    assert!(!is_valid_torrent(b"d3:fooi12"));
}

#[test]
fn bencode_prefix_shapes() {
    assert!(is_bencode_prefix(b"i-42e"));
    assert!(is_bencode_prefix(b"4:spam"));
    assert!(is_bencode_prefix(b"l4:spami3ee"));
    assert!(is_bencode_prefix(b"d3:cow3:moo4:spaml1:a1:bee"));
    assert!(is_bencode_prefix(b"le trailing"));
    assert!(!is_bencode_prefix(b"ie"));
    assert!(!is_bencode_prefix(b"5:abc"));
    assert!(!is_bencode_prefix(b"di1e1:ae"));
    assert!(!is_bencode_prefix(b"l4:spam"));
}

#[test]
fn torrent_with_trailing_newline_is_valid() {
    let mut good = smallest_torrent_bytes();
    good.push(b'\n');
    assert!(is_valid_torrent(&good));
}

#[test]
fn closing_html_tag_counts_as_html() {
    assert!(looks_like_html(b"</html>"));
    assert!(looks_like_html(b"  </HTML>"));
}

#[test]
fn delete_click_needs_a_second_click_on_the_same_torrent() {
    assert_eq!(confirm_delete_click(None, 3), (false, Some(3)));
    assert_eq!(confirm_delete_click(Some(3), 3), (true, None));
    assert_eq!(confirm_delete_click(Some(2), 3), (false, Some(3)));
}

#[test]
fn history_keeps_found_order_for_equal_time_and_name() {
    let item = |path: &str, modified: i64| CompletedItem {
        path: path.to_string(),
        name: "same.iso".to_string(),
        size: 1,
        modified,
    };
    let result = list_completed_downloads(vec![item("a/same.iso", 5), item("z/same.iso", 9), item("b/same.iso", 5)]);
    let paths: Vec<&str> = result.iter().map(|i| i.path.as_str()).collect();
    assert_eq!(paths, vec!["z/same.iso", "a/same.iso", "b/same.iso"]);
}

#[test]
fn value_after_marker_handles_page_end_and_non_ascii() {
    assert_eq!(value_after_marker("x href=", "href="), Vec::<String>::new());
    assert_eq!(value_after_marker("href=é", "href="), vec!["é".to_string()]);
    assert_eq!(value_after_marker("<a href=é.torrent>", "href="), vec!["é.torrent".to_string()]);
}
