use herdr_mirror::env::{default_state_dir, Env};
use herdr_mirror::socket::SocketError;
use herdr_mirror::util::{
    config_candidates, default_config_dir, earliest, err, home_dir, log_line, pidfile_pid, pidfile_text,
    sane_component, streamer_pid_path, Logger,
};

#[test]
fn an_error_carries_its_message() {
    assert_eq!(err("no").message, "no");
}

#[test]
fn home_defaults_to_the_root() {
    assert_eq!(home_dir(Some("/home/u".to_string())), "/home/u");
    assert_eq!(home_dir(Some(String::new())), "");
    assert_eq!(home_dir(None), "/");
    assert_eq!(default_config_dir("/home/u"), "/home/u/.config/herdr-mirror");
    assert_eq!(default_config_dir("/"), "/.config/herdr-mirror");
    assert_eq!(default_state_dir("/home/u"), "/home/u/.local/state/herdr-mirror");
}

#[test]
fn config_is_searched_in_order() {
    let plugin = "/h/.config/herdr/plugins/config/mirror";
    let canonical = "/h/.config/herdr-mirror";
    assert_eq!(config_candidates(None, "/h"), vec![plugin, canonical]);
    assert_eq!(config_candidates(Some(String::new()), "/h"), vec![plugin, canonical]);
    assert_eq!(config_candidates(Some("/p".to_string()), "/h"), vec!["/p", plugin, canonical]);
}

/// A plugin directory that is one of the conventional ones is searched once,
/// also where it is written differently.
#[test]
fn no_config_directory_is_searched_twice() {
    let plugin = "/h/.config/herdr/plugins/config/mirror";
    let canonical = "/h/.config/herdr-mirror";
    assert_eq!(config_candidates(Some(canonical.to_string()), "/h"), vec![canonical, plugin]);
    assert_eq!(config_candidates(Some(plugin.to_string()), "/h"), vec![plugin, canonical]);
    let slashed = "/h//.config/herdr-mirror/";
    assert_eq!(config_candidates(Some(slashed.to_string()), "/h"), vec![slashed, plugin]);
}

fn var(s: &str) -> Option<String> {
    Some(s.to_string())
}

#[test]
fn the_environment_is_resolved() {
    let env = Env::resolve(var("/h"), var("/p"), var("/run/s"), b"no report").ok().unwrap();
    assert_eq!(env.config_search.len(), 3);
    assert_eq!(env.config_search[0], "/p");
    assert_eq!(env.state_dir, "/h/.local/state/herdr-mirror");
    assert_eq!(env.local_socket, "/run/s");
}

#[test]
fn the_status_report_names_the_socket_where_no_variable_does() {
    let report = br#"{"server":{"socket":"/run/t"}}"#;
    for socket in [None, var("")] {
        let env = Env::resolve(None, None, socket, report).ok().unwrap();
        assert_eq!(env.local_socket, "/run/t");
        assert_eq!(env.state_dir, "/.local/state/herdr-mirror");
    }
    assert!(matches!(Env::resolve(None, None, None, b"{}"), Err(SocketError::NoSocket(_))));
    assert!(matches!(Env::resolve(None, None, None, b""), Err(SocketError::BadStatus(_))));
}

#[test]
fn log_lines_are_stamped() {
    assert_eq!(log_line("T", "hello"), "T hello\n");
    let log = Logger::new("/s", true);
    assert_eq!(log.file, "/s/daemon.log");
    assert!(log.also_stdout);
    let line = log.log("hello");
    assert!(line.ends_with("Z hello\n"));
    assert_eq!(line.len(), 24 + " hello\n".len());
}

#[test]
fn pidfiles_name_processes() {
    assert_eq!(pidfile_pid("123"), Some(123));
    assert_eq!(pidfile_pid(" 123\n"), Some(123));
    assert_eq!(pidfile_pid("+5"), Some(5));
    assert_eq!(pidfile_pid("0"), None);
    assert_eq!(pidfile_pid("-4"), None);
    assert_eq!(pidfile_pid(""), None);
    assert_eq!(pidfile_pid("12x"), None);
    assert_eq!(pidfile_pid("2147483648"), None);
}

/// A pidfile that is written for a process names that process.
#[test]
fn a_pidfile_reads_back() {
    for pid in [1u32, 42, i32::MAX as u32] {
        assert_eq!(pidfile_text(pid), pid.to_string());
        assert_eq!(pidfile_pid(&pidfile_text(pid)), Some(pid as i32));
    }
}

#[test]
fn streamer_pidfiles_are_one_component() {
    assert_eq!(sane_component("a/b.c-é9"), "a_b_c__9");
    assert_eq!(
        streamer_pid_path("/s", "niko@h:22", "w1:p2"),
        "/s/streamer-pids/niko_h_22--w1_p2.pid"
    );
}

#[test]
fn the_earliest_deadline_counts() {
    assert_eq!(earliest(&[]), None);
    assert_eq!(earliest(&[None, None]), None);
    assert_eq!(earliest(&[None, Some(7), Some(3), None, Some(5)]), Some(3));
}
