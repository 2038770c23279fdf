use readline_plugins::directive::{directive_keyword_bytes, parse_line, plugin_keyword_bytes, LineAction};
use readline_plugins::fields::{split_fields, Separator};
use readline_plugins::guard::{Entry, InitGuard, InitState};
use readline_plugins::plan::plugin_requests;
use readline_plugins::plugin::{directive_status, PluginError, DIRECTIVE_FAILED, DIRECTIVE_LOADED};
use readline_plugins::resolve::{lookup_order, Scope, SymbolKind};
use readline_plugins::stem::command_name;

fn directive_line(rest: &str) -> Vec<u8> {
    let mut line = directive_keyword_bytes();
    line.extend_from_slice(rest.as_bytes());
    line
}

fn expect_load(action: LineAction) -> (Vec<u8>, Vec<u8>) {
    match action {
        LineAction::Load(d) => (d.name, d.path),
        LineAction::Forward => panic!("expected a directive"),
    }
}

#[test]
fn colon_split_drops_empty_segments() {
    let r = split_fields(b"a::b:", Separator::Colon);
    assert_eq!(r, vec![b"a".to_vec(), b"b".to_vec()]);
    assert!(split_fields(b"", Separator::Colon).is_empty());
    assert!(split_fields(b":::", Separator::Colon).is_empty());
}

#[test]
fn whitespace_split_takes_runs() {
    let r = split_fields(b"  x \t y\r\n", Separator::Whitespace);
    assert_eq!(r, vec![b"x".to_vec(), b"y".to_vec()]);
}

#[test]
fn command_name_is_file_stem() {
    assert_eq!(command_name(b"/plugins/foo.so"), b"foo".to_vec());
    assert_eq!(command_name(b"foo.tar.gz"), b"foo.tar".to_vec());
    assert_eq!(command_name(b"/home/u/.profile"), b".profile".to_vec());
    assert_eq!(command_name(b"plain"), b"plain".to_vec());
    assert_eq!(command_name(b"/dir/"), b"".to_vec());
}

#[test]
fn plugin_list_with_missing_library() {
    let r = plugin_requests(b"/plugins/a.so:/missing.so:/plugins/b.so");
    assert_eq!(r.len(), 3);
    assert_eq!(r[0].name, b"a".to_vec());
    assert_eq!(r[0].path, b"/plugins/a.so".to_vec());
    assert_eq!(r[1].name, b"missing".to_vec());
    assert_eq!(r[1].path, b"/missing.so".to_vec());
    assert_eq!(r[2].name, b"b".to_vec());
    assert_eq!(r[2].path, b"/plugins/b.so".to_vec());
}

#[test]
fn plugin_list_skips_empty_segments() {
    let r = plugin_requests(b"::/p/x.so::");
    assert_eq!(r.len(), 1);
    assert_eq!(r[0].name, b"x".to_vec());
    assert_eq!(r[0].path, b"/p/x.so".to_vec());
    assert!(plugin_requests(b"").is_empty());
}

#[test]
fn malformed_segment_keeps_the_rest() {
    let r = plugin_requests(b"/p/a.so:not a library:/p/b.so");
    assert_eq!(r.len(), 3);
    assert_eq!(r[1].path, b"not a library".to_vec());
    assert_eq!(r[2].name, b"b".to_vec());
}

#[test]
fn directive_with_home_path() {
    let line = directive_line(" function greet ~/plugins/greet.so");
    let (name, path) = expect_load(parse_line(&line));
    assert_eq!(name, b"greet".to_vec());
    assert_eq!(path, b"~/plugins/greet.so".to_vec());
    assert_eq!(directive_status(&Ok(())), 0);
}

#[test]
fn directive_ignores_leading_space_and_trailing_text() {
    let mut line = b"  \t".to_vec();
    line.extend(directive_line("   function  x  /p/x.so  extra words\n"));
    let (name, path) = expect_load(parse_line(&line));
    assert_eq!(name, b"x".to_vec());
    assert_eq!(path, b"/p/x.so".to_vec());
}

#[test]
fn directive_missing_arguments() {
    let line = directive_line(" function");
    let (name, path) = expect_load(parse_line(&line));
    assert!(name.is_empty());
    assert!(path.is_empty());
}

#[test]
fn other_lines_are_forwarded() {
    assert!(matches!(parse_line(b"set editing-mode vi"), LineAction::Forward));
    assert!(matches!(parse_line(b""), LineAction::Forward));
    assert!(matches!(parse_line(&directive_line(" /etc/inputrc")), LineAction::Forward));
    assert!(matches!(parse_line(&directive_line("")), LineAction::Forward));
    let mut swapped = plugin_keyword_bytes();
    swapped.push(b' ');
    swapped.extend(directive_line(" greet /p/greet.so"));
    assert!(matches!(parse_line(&swapped), LineAction::Forward));
    assert!(matches!(parse_line(&directive_line("function greet /p/greet.so")), LineAction::Forward));
}

#[test]
fn directive_status_codes() {
    assert_eq!(DIRECTIVE_LOADED, 0);
    assert_eq!(DIRECTIVE_FAILED, 1);
    assert_eq!(directive_status(&Ok(())), 0);
    assert_eq!(directive_status(&Err(PluginError::LibraryLoadFailure(b"no such file".to_vec()))), 1);
    assert_eq!(directive_status(&Err(PluginError::PluginSymbolMissing(b"undefined symbol".to_vec()))), 1);
    assert_eq!(directive_status(&Err(PluginError::SymbolNotFound(b"rl_add_funmap_entry".to_vec()))), 1);
}

#[test]
fn guard_runs_load_once() {
    let mut g = InitGuard::new();
    assert_eq!(g.state(), InitState::Uninitialized);
    assert_eq!(g.enter(), Entry::RunLoad);
    assert_eq!(g.enter(), Entry::Wait);
    assert_eq!(g.enter(), Entry::Wait);
    g.finish();
    assert_eq!(g.state(), InitState::Initialized);
    for _ in 0..5 {
        assert_eq!(g.enter(), Entry::Proceed);
    }
}

#[test]
fn lookup_orders() {
    assert_eq!(lookup_order(SymbolKind::Shadowed), vec![Scope::Next, Scope::HostLibrary]);
    assert_eq!(lookup_order(SymbolKind::Helper), vec![Scope::Default, Scope::HostLibrary]);
}
