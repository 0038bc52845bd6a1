use nixinfo::terminal::{shell_or_multiplexer, MAX_HOPS, UNKNOWN_TERMINAL};
use nixinfo::{parse_status, resolve, terminal, terminal_name, AncestryWalk, Error, ProcessStatus, WalkStep};

fn record(pid: u32, name: &str, ppid: u32) -> ProcessStatus {
    ProcessStatus { name: name.to_string(), pid, ppid }
}

#[test]
fn shell_parent_is_skipped_for_its_terminal() {
    let table = vec![record(100, "nixinfo", 50), record(50, "bash", 10), record(10, "xterm", 1)];
    let (name, hops) = resolve(&table, 100).unwrap();
    assert_eq!(name, "xterm");
    assert_eq!(hops, 2);
    assert_eq!(terminal(&table, 100), Ok("xterm".to_string()));
}

#[test]
fn direct_parent_terminal_takes_one_hop() {
    let table = vec![record(7, "nixinfo", 6), record(6, "kitty", 1)];
    assert_eq!(resolve(&table, 7), Ok(("kitty".to_string(), 1)));
}

#[test]
fn walk_stops_at_the_hop_budget() {
    let table = vec![
        record(100, "nixinfo", 90),
        record(90, "tmux", 80),
        record(80, "tmux", 70),
        record(70, "tmux", 60),
        record(60, "tmux", 50),
        record(50, "alacritty", 1),
    ];
    let (name, hops) = resolve(&table, 100).unwrap();
    assert_eq!(name, "tmux");
    assert_eq!(hops, MAX_HOPS);
    assert_eq!(terminal(&table, 100), Ok("tmux".to_string()));
}

#[test]
fn shell_inside_multiplexer_inside_terminal() {
    let table = vec![
        record(100, "nixinfo", 90),
        record(90, "zsh", 80),
        record(80, "tmux: server", 70),
        record(70, "foot", 1),
    ];
    assert_eq!(resolve(&table, 100), Ok(("foot".to_string(), 3)));
}

#[test]
fn systemd_or_empty_name_gives_the_fallback() {
    assert_eq!(terminal_name("systemd".to_string()), UNKNOWN_TERMINAL);
    assert_eq!(terminal_name(String::new()), UNKNOWN_TERMINAL);
    assert_eq!(terminal_name("kitty".to_string()), "kitty");
    let table = vec![record(5, "nixinfo", 1), record(1, "systemd", 0)];
    assert_eq!(terminal(&table, 5), Ok(UNKNOWN_TERMINAL.to_string()));
}

#[test]
fn missing_record_is_an_error() {
    let table = vec![record(100, "nixinfo", 50), record(50, "bash", 10)];
    assert_eq!(resolve(&table, 100), Err(Error::ProcessStatusUnavailable));
    assert_eq!(terminal(&table, 3), Err(Error::ProcessStatusUnavailable));
}

#[test]
fn shell_and_multiplexer_names() {
    for name in ["bash", "zsh", "sh", "fish", "ion", "screen", "tmux", "tmux: client"] {
        assert!(shell_or_multiplexer(name), "{}", name);
    }
    for name in ["xterm", "kitty", "ionic", "screens", "", "systemd"] {
        assert!(!shell_or_multiplexer(name), "{}", name);
    }
}

const STATUS: &str = "Name:\tbash\nUmask:\t0022\nState:\tS (sleeping)\nTgid:\t4242\nNgid:\t0\n\
Pid:\t4242\nPPid:\t4100\nTracerPid:\t0\nUid:\t1000\t1000\t1000\t1000\n";

#[test]
fn status_record_is_parsed_by_label() {
    let st = parse_status(STATUS).unwrap();
    assert_eq!(st.name, "bash");
    assert_eq!(st.pid, 4242);
    assert_eq!(st.ppid, 4100);
}

#[test]
fn status_record_errors() {
    let no_ppid = "Name:\tbash\nPid:\t3\n";
    assert!(matches!(parse_status(no_ppid), Err(Error::NotFound)));
    let bad_pid = "Name:\tbash\nPid:\tthree\nPPid:\t1\n";
    assert!(matches!(parse_status(bad_pid), Err(Error::MalformedValue)));
    let big_ppid = "Name:\tbash\nPid:\t3\nPPid:\t4294967296\n";
    assert!(matches!(parse_status(big_ppid), Err(Error::MalformedValue)));
    assert!(matches!(parse_status(""), Err(Error::NotFound)));
}

#[test]
fn walk_by_steps() {
    let mut walk = AncestryWalk::new(100);
    assert_eq!(walk.pid, 100);
    let step = walk.advance(&record(100, "nixinfo", 50));
    assert!(matches!(step, WalkStep::Read(50)));
    assert_eq!(walk, AncestryWalk { pid: 50, hops: 1 });
    let step = walk.advance(&record(50, "fish-like-sh", 40));
    assert!(matches!(step, WalkStep::Read(40)));
    let step = walk.advance(&record(40, "wezterm", 1));
    match step {
        WalkStep::Resolved(name) => assert_eq!(name, "wezterm"),
        WalkStep::Read(_) => panic!("walk should have ended"),
    }
    assert_eq!(walk.hops, 2);
}
