use subserve::args::{ArgWarning, ParsedArgs};
use subserve::framer::{frame_lines, LineFramer};
use subserve::plan::{
    base_url_of, classify_pull, clone_url, get_subserver_cwd, get_subserver_root_cwd,
    presence_phase, start_command, subserver_descriptors, subservers_initialize,
    subservers_present, subservers_run, subservers_sync, Phase, PullResult, Role,
    ServerDescriptor, Step,
};
use subserve::tagger::{end_marker, start_marker, stream_tag, tagged_line, Style, TagColor};
use subserve::text::{decimal_text, parse_u16, same_text, trimmed_equals};

fn strings(v: &[&str]) -> Vec<String> {
    v.iter().map(|s| s.to_string()).collect()
}

fn two_servers() -> Vec<ServerDescriptor> {
    vec![
        ServerDescriptor { name: "frontend".to_string(), role: Role::Frontend },
        ServerDescriptor { name: "backend".to_string(), role: Role::Backend },
    ]
}

#[test]
fn framer_drops_trailing_fragment() {
    let lines = frame_lines(&b"one\ntwo\nfrag".to_vec());
    assert_eq!(lines, vec![b"one\n".to_vec(), b"two\n".to_vec()]);
}

#[test]
fn framer_counts_complete_lines() {
    assert!(frame_lines(&Vec::new()).is_empty());
    assert!(frame_lines(&b"no newline".to_vec()).is_empty());
    let lines = frame_lines(&b"\n\nx\n".to_vec());
    assert_eq!(lines, vec![b"\n".to_vec(), b"\n".to_vec(), b"x\n".to_vec()]);
}

#[test]
fn framer_push_byte_by_byte() {
    let mut f = LineFramer::new();
    assert_eq!(f.push(b'h'), None);
    assert_eq!(f.push(b'i'), None);
    assert_eq!(f.push(b'\n'), Some(b"hi\n".to_vec()));
    assert!(f.pending().is_empty());
    assert_eq!(f.push(b'z'), None);
    assert_eq!(f.pending(), &b"z".to_vec());
}

#[test]
fn args_defaults() {
    let (cfg, warns) = ParsedArgs::parse(&strings(&["prog"]));
    assert!(cfg.distinguish_child_stdouts);
    assert_eq!(cfg.server_alternate_port, None);
    assert!(warns.is_empty());
}

#[test]
fn args_inherit_and_port() {
    let (cfg, warns) = ParsedArgs::parse(&strings(&["prog", "-m", "-bp", "4000"]));
    assert!(!cfg.distinguish_child_stdouts);
    assert_eq!(cfg.server_alternate_port, Some(4000));
    assert!(warns.is_empty());
    let (cfg, _) = ParsedArgs::parse(&strings(&["prog", "backend_port", "+81", "inherit_stdouts"]));
    assert!(!cfg.distinguish_child_stdouts);
    assert_eq!(cfg.server_alternate_port, Some(81));
}

#[test]
fn args_warnings() {
    let (cfg, warns) = ParsedArgs::parse(&strings(&["prog", "-bp", "port", "-x", "-bp", "70000", "-bp"]));
    assert!(cfg.distinguish_child_stdouts);
    assert_eq!(cfg.server_alternate_port, None);
    assert_eq!(
        warns,
        vec![
            ArgWarning::InvalidPort { position: 1 },
            ArgWarning::InvalidArgument { position: 3 },
            ArgWarning::InvalidPort { position: 4 },
            ArgWarning::InvalidPort { position: 6 },
        ]
    );
}

#[test]
fn u16_parsing() {
    assert_eq!(parse_u16("0"), Some(0));
    assert_eq!(parse_u16("007"), Some(7));
    assert_eq!(parse_u16("65535"), Some(65535));
    assert_eq!(parse_u16("65536"), None);
    assert_eq!(parse_u16("999999999999"), None);
    assert_eq!(parse_u16("+"), None);
    assert_eq!(parse_u16(""), None);
    assert_eq!(parse_u16("-1"), None);
    assert_eq!(parse_u16("12a"), None);
}

#[test]
fn decimal_rendering() {
    assert_eq!(decimal_text(0), "0");
    assert_eq!(decimal_text(4000), "4000");
    assert_eq!(decimal_text(65535), "65535");
}

#[test]
fn text_comparisons() {
    assert!(same_text("abc", "abc"));
    assert!(!same_text("abc", "abd"));
    assert!(!same_text("ab", "abc"));
    assert!(trimmed_equals(" \t x y\r\n", "x y"));
    assert!(!trimmed_equals("x  y", "x y"));
}

#[test]
fn presence_sets() {
    let descs = two_servers();
    assert!(!subservers_present(&descs, &None));
    assert!(!subservers_present(&descs, &Some(Vec::new())));
    assert!(!subservers_present(&descs, &Some(strings(&["frontend"]))));
    assert!(subservers_present(&descs, &Some(strings(&["frontend", "backend"]))));
    assert!(subservers_present(&descs, &Some(strings(&["notes", "backend", "frontend"]))));
}

#[test]
fn presence_phases() {
    let descs = two_servers();
    assert_eq!(presence_phase(&descs, &Some(Vec::new())), Phase::Initialize);
    assert_eq!(presence_phase(&descs, &Some(strings(&["frontend"]))), Phase::Initialize);
    assert_eq!(presence_phase(&descs, &Some(strings(&["frontend", "backend"]))), Phase::Sync);
}

#[test]
fn pull_classification() {
    assert_eq!(classify_pull("Already up to date."), PullResult::Unchanged);
    assert_eq!(classify_pull("Already up to date.\n"), PullResult::Unchanged);
    assert_eq!(classify_pull("Updating a1b2c3..def456"), PullResult::Updated);
    assert_eq!(classify_pull(""), PullResult::Updated);
}

#[test]
fn sync_builds_only_updated() {
    let outs = strings(&["Already up to date.", "Already up to date.\n", "Updating a1b2c3..def456"]);
    assert_eq!(subservers_sync(&outs), vec![2]);
    let outs = strings(&["Updating a1b2c3..def456", "Fast-forward\n"]);
    assert_eq!(subservers_sync(&outs), vec![0, 1]);
}

#[test]
fn backend_port_override() {
    let descs = two_servers();
    let args = ParsedArgs { distinguish_child_stdouts: true, server_alternate_port: Some(4000) };
    let cmds = subservers_run(&descs, &args);
    assert_eq!(cmds.len(), 2);
    assert_eq!(cmds[0].args, strings(&["start"]));
    assert!(!cmds[0].args.iter().any(|a| a.starts_with("-p=")));
    assert_eq!(cmds[1].args, strings(&["start", "--", "-p=4000"]));
    assert!(cmds[1].args.contains(&"-p=4000".to_string()));
    assert_eq!(cmds[1].dir, "./sub/backend");
    assert!(cmds[1].capture_output);
}

#[test]
fn no_port_without_override() {
    let descs = two_servers();
    let args = ParsedArgs { distinguish_child_stdouts: false, server_alternate_port: None };
    let c = start_command(&descs[1], 1, &args);
    assert_eq!(c.index, 1);
    assert_eq!(c.args, strings(&["start"]));
    assert!(!c.capture_output);
}

#[test]
fn paths_and_urls() {
    assert_eq!(get_subserver_root_cwd(), "./sub/");
    assert_eq!(get_subserver_cwd("backend"), "./sub/backend");
    assert_eq!(base_url_of("git@github.com:org/launcher.git\n"), "git@github.com:org/");
    assert_eq!(base_url_of("https://host/a/b"), "https://host/a/");
    assert_eq!(base_url_of("noslash"), "");
    assert_eq!(clone_url("https://host/a/", "backend"), "https://host/a/backend.git");
}

#[test]
fn configured_descriptors() {
    let d = subserver_descriptors();
    assert_eq!(d.len(), 2);
    assert_eq!(d[0].name, "floormedia_frontend");
    assert_eq!(d[0].role, Role::Frontend);
    assert_eq!(d[1].name, "floormedia_backend");
    assert_eq!(d[1].role, Role::Backend);
}

#[test]
fn fresh_run_clones_builds_then_launches() {
    let descs = two_servers();
    assert_eq!(presence_phase(&descs, &None), Phase::Initialize);
    let steps = subservers_initialize(&descs, "https://host/org/", false);
    assert_eq!(steps.len(), 5);
    assert!(matches!(steps[0], Step::CreateRoot));
    assert!(matches!(&steps[1], Step::Clone { index: 0, url } if url == "https://host/org/frontend.git"));
    assert!(matches!(&steps[2], Step::Clone { index: 1, url } if url == "https://host/org/backend.git"));
    assert!(matches!(steps[3], Step::Build { index: 0 }));
    assert!(matches!(steps[4], Step::Build { index: 1 }));
    let args = ParsedArgs { distinguish_child_stdouts: true, server_alternate_port: None };
    let cmds = subservers_run(&descs, &args);
    assert_eq!(cmds.iter().map(|c| c.index).collect::<Vec<_>>(), vec![0, 1]);
}

#[test]
fn initialize_with_existing_root() {
    let descs = two_servers();
    let steps = subservers_initialize(&descs, "u/", true);
    assert_eq!(steps.len(), 4);
    assert!(matches!(&steps[0], Step::Clone { index: 0, url } if url == "u/frontend.git"));
}

#[test]
fn up_to_date_run_skips_builds() {
    let descs = two_servers();
    let listing = Some(strings(&["frontend", "backend"]));
    assert_eq!(presence_phase(&descs, &listing), Phase::Sync);
    let outs = strings(&["Already up to date.\n", "Already up to date.\n"]);
    assert!(subservers_sync(&outs).is_empty());
    let args = ParsedArgs { distinguish_child_stdouts: true, server_alternate_port: None };
    assert_eq!(subservers_run(&descs, &args).len(), 2);
}

#[test]
fn tags_are_aligned() {
    let d = subserver_descriptors();
    let front = stream_tag(&d, 0);
    let back = stream_tag(&d, 1);
    assert_eq!(front.label, " floormedia_frontend ");
    assert_eq!(back.label, " floormedia_backend  ");
    assert_eq!(front.color, TagColor::Primary);
    assert_eq!(back.color, TagColor::Secondary);
    let t = two_servers();
    assert_eq!(stream_tag(&t, 1).label, " backend  ");
    assert_eq!(stream_tag(&t, 0).label, " frontend ");
}

#[test]
fn markers_and_tagged_lines() {
    assert_eq!(start_marker("api"), " [api] :: start of stdout ");
    assert_eq!(end_marker("api"), "\n [api] :: end of stdout ");
    assert_eq!(tagged_line(&b"[api]|".to_vec(), &b"ready\n".to_vec()), b"[api]| ready\n".to_vec());
}

#[test]
fn banner_fill() {
    assert_eq!(Style::Header.fill_width(80, 20), Some(40));
    assert_eq!(Style::StatusInfo.fill_width(80, 20), Some(44));
    assert_eq!(Style::StatusInfo.fill_width(30, 20), None);
    assert_eq!(Style::SubHeader.fill_width(5, 20), Some(0));
}
