use mc_cli::console::{
    bytes_to_mb, console_command, console_scroll, input_line, log_style, players_label, ram_label,
    BootWatcher, ConsoleState, Key, KeyCode, KeyOutcome, LogStyle, ServerSession, SessionEnd,
    AUTO_RESTART_NOTICE, CRASH_TAIL_LINES, STOP_COMMAND,
};
use mc_cli::update::{
    falls_back_to_cargo, BinaryUpdateFailure, cargo_install_args, checksums_url, expected_hash_for, is_up_to_date, latest_release_api_url,
    platform_binary_name, release_download_base, release_file_url, replace_script,
    shell_special_in, uninstall_script, update_temp_file_name,
};

#[test]
fn platform_binaries() {
    assert_eq!(platform_binary_name("linux", "x86_64"), Some("mc-cli-x86_64-unknown-linux-gnu"));
    assert_eq!(platform_binary_name("macos", "aarch64"), Some("mc-cli-aarch64-apple-darwin"));
    assert_eq!(platform_binary_name("macos", "x86_64"), Some("mc-cli-x86_64-apple-darwin"));
    assert_eq!(platform_binary_name("linux", "aarch64"), Some("mc-cli-aarch64-unknown-linux-gnu"));
    assert_eq!(platform_binary_name("windows", "x86_64"), Some("mc-cli-x86_64-pc-windows-msvc.exe"));
    assert_eq!(platform_binary_name("windows", "aarch64"), None);
    assert_eq!(platform_binary_name("freebsd", "x86_64"), None);
}

#[test]
fn release_addresses() {
    assert_eq!(latest_release_api_url(), "https://api.github.com/repos/Mosuzzzz/mc-cli/releases/latest");
    let base = release_download_base("v1.2.0");
    assert_eq!(base, "https://github.com/Mosuzzzz/mc-cli/releases/download/v1.2.0");
    assert_eq!(checksums_url(&base), format!("{}/sha256sums.txt", base));
    assert_eq!(release_file_url(&base, "bin"), format!("{}/bin", base));
    assert_eq!(update_temp_file_name(4242), "mc-cli-update-4242");
}

#[test]
fn up_to_date_check() {
    assert!(is_up_to_date("v0.1.0", "0.1.0"));
    assert!(!is_up_to_date("v0.2.0", "0.1.0"));
    assert!(!is_up_to_date("0.1.0", "0.1.0"));
}

#[test]
fn checksum_list_lookup() {
    let list = "aaaa  mc-cli-x86_64-apple-darwin\r\nbbbb  mc-cli-x86_64-unknown-linux-gnu\n\ncccc mc-cli-x86_64-unknown-linux-gnu\n";
    assert_eq!(expected_hash_for(list, "mc-cli-x86_64-unknown-linux-gnu"), Some("bbbb".to_string()));
    assert_eq!(expected_hash_for(list, "mc-cli-x86_64-apple-darwin"), Some("aaaa".to_string()));
    assert_eq!(expected_hash_for(list, "mc-cli-aarch64-apple-darwin"), None);
    assert_eq!(expected_hash_for("", "x"), None);
    assert_eq!(expected_hash_for("x\nhash", "hash"), None);
    assert_eq!(expected_hash_for("  h1   name  extra", "name"), Some("h1".to_string()));
}

#[test]
fn shell_special_characters() {
    assert_eq!(shell_special_in("C:\\tmp\\new.exe", "C:\\bin\\mc-cli.exe"), None);
    assert_eq!(shell_special_in("C:\\a&b", "C:\\c\"d"), Some('"'));
    assert_eq!(shell_special_in("C:\\a|b", "C:\\c<d"), Some('|'));
    assert_eq!(shell_special_in("x", "y>z"), Some('>'));
}

#[test]
fn batch_scripts() {
    let s = replace_script(77, "C:\\new.exe", "C:\\mc.exe", "v1.0.0");
    assert_eq!(
        s,
        "@echo off\r\n:wait\r\ntasklist /FI \"PID eq 77\" 2>NUL | find \"77\" >NUL\r\nif not errorlevel 1 (\r\ntimeout /t 1 /nobreak >NUL\r\ngoto wait\r\n)\r\nmove /y \"C:\\new.exe\" \"C:\\mc.exe\"\r\necho mc-cli updated to v1.0.0 successfully!\r\ndel \"%~f0\"\r\n"
    );
    let u = uninstall_script(5, "C:\\mc.exe");
    assert_eq!(
        u,
        "@echo off\r\n:wait\r\ntasklist /FI \"PID eq 5\" 2>NUL | find \"5\" >NUL\r\nif not errorlevel 1 (\r\ntimeout /t 1 /nobreak >NUL\r\ngoto wait\r\n)\r\ndel /f /q \"C:\\mc.exe\"\r\necho mc-cli has been uninstalled successfully.\r\ndel \"%~f0\"\r\n"
    );
}

#[test]
fn cargo_arguments() {
    assert_eq!(
        cargo_install_args("v1.0.0", "/tmp/mc-cli-update"),
        vec!["install", "--git", "https://github.com/Mosuzzzz/mc-cli.git", "--tag", "v1.0.0", "--locked", "--root", "/tmp/mc-cli-update"]
    );
}

#[test]
fn players_are_counted() {
    let mut st = ConsoleState::new();
    let mut w = BootWatcher { is_first: false, triggered: false };
    assert!(!st.on_server_line(&mut w, "[12:00] Steve joined the game".to_string()));
    assert!(!st.on_server_line(&mut w, "[12:00] Alex joined the game".to_string()));
    assert_eq!(st.online_players, 2);
    st.on_server_line(&mut w, "[12:01] Steve left the game".to_string());
    assert_eq!(st.online_players, 1);
    st.on_server_line(&mut w, "[12:01] Alex left the game".to_string());
    st.on_server_line(&mut w, "[12:02] Ghost left the game".to_string());
    assert_eq!(st.online_players, 0);
    assert_eq!(st.logs.len(), 5);
    assert_eq!(st.logs[4], "[12:02] Ghost left the game");
}

#[test]
fn first_boot_restarts_once() {
    let mut session = ServerSession::new(true);
    let mut st = ConsoleState::new();
    let mut w = session.boot_watcher();
    assert!(!st.on_server_line(&mut w, "Preparing level".to_string()));
    assert!(st.on_server_line(&mut w, "Done (3.2s)! For help, type \"help\"".to_string()));
    assert!(!st.on_server_line(&mut w, "Done (again)".to_string()));
    assert_eq!(st.logs[1], AUTO_RESTART_NOTICE);
    assert_eq!(st.logs[2], "Done (3.2s)! For help, type \"help\"");
    assert_eq!(st.logs.len(), 4);
    assert!(matches!(session.finish(true, true), SessionEnd::Restart));
    let mut w2 = session.boot_watcher();
    assert!(!w2.is_first);
    assert!(!st.on_server_line(&mut w2, "Done (1.0s)!".to_string()));
}

#[test]
fn session_ends() {
    let mut s = ServerSession::new(false);
    assert!(matches!(s.finish(false, true), SessionEnd::StoppedCleanly));
    assert!(matches!(s.finish(false, false), SessionEnd::Crashed));
    assert!(!s.first_boot_finished);
    assert!(matches!(s.finish(true, false), SessionEnd::Restart));
    assert!(s.first_boot_finished);
    let mut w = s.boot_watcher();
    let mut st = ConsoleState::new();
    assert!(!st.on_server_line(&mut w, "Done (1s)".to_string()));
}

fn press(code: KeyCode) -> Key {
    Key { code, ctrl: false, press: true }
}

#[test]
fn typing_and_sending() {
    let mut st = ConsoleState::new();
    for c in "say hi".chars() {
        assert!(matches!(st.on_key(press(KeyCode::Char(c))), KeyOutcome::Continue));
    }
    assert_eq!(st.input, "say hi");
    st.on_key(press(KeyCode::Backspace));
    assert_eq!(st.input, "say h");
    st.on_key(Key { code: KeyCode::Char('x'), ctrl: false, press: false });
    assert_eq!(st.input, "say h");
    st.on_key(Key { code: KeyCode::Char('a'), ctrl: true, press: true });
    assert_eq!(st.input, "say h");
    match st.on_key(press(KeyCode::Enter)) {
        KeyOutcome::Send(cmd) => assert_eq!(cmd, "say h"),
        _ => panic!("expected the command to be sent"),
    }
    assert_eq!(st.input, "");
}

#[test]
fn blank_input_is_not_sent() {
    let mut st = ConsoleState::new();
    st.on_key(press(KeyCode::Char(' ')));
    assert!(matches!(st.on_key(press(KeyCode::Enter)), KeyOutcome::Continue));
    assert_eq!(st.input, "");
    st.on_key(press(KeyCode::Backspace));
    assert_eq!(st.input, "");
}

#[test]
fn ctrl_c_stops_the_server_and_quits() {
    let mut st = ConsoleState::new();
    st.on_key(press(KeyCode::Char('a')));
    match st.on_key(Key { code: KeyCode::Char('c'), ctrl: true, press: true }) {
        KeyOutcome::StopAndQuit(cmd) => assert_eq!(cmd, "stop"),
        _ => panic!("Ctrl+C must stop the server and quit"),
    }
    assert_eq!(st.input, "a");
    // the command it sends reaches the server as a stop
    assert_eq!(console_command(STOP_COMMAND), ("stop\n".to_string(), false));
}

#[test]
fn console_commands() {
    assert_eq!(console_command("restart"), ("stop\n".to_string(), true));
    assert_eq!(console_command("  ReStArT \t"), ("stop\n".to_string(), true));
    assert_eq!(console_command("restart now"), ("restart now\n".to_string(), false));
    assert_eq!(console_command("say hello"), ("say hello\n".to_string(), false));
    assert_eq!(console_command(" stop "), (" stop \n".to_string(), false));
}

#[test]
fn crash_tail() {
    let mut st = ConsoleState::new();
    for i in 0..50 {
        st.push_log(format!("line {}", i));
    }
    let tail = st.tail(CRASH_TAIL_LINES);
    assert_eq!(tail.len(), 40);
    assert_eq!(tail[0], "line 10");
    assert_eq!(tail[39], "line 49");
    let mut small = ConsoleState::new();
    small.push_log("only".to_string());
    assert_eq!(small.tail(40), vec!["only".to_string()]);
}

#[test]
fn dashboard_pieces() {
    assert!(matches!(log_style("[ERROR] boom WARN"), LogStyle::Error));
    assert!(matches!(log_style("[WARN] careful"), LogStyle::Warning));
    assert!(matches!(log_style("[INFO] fine"), LogStyle::Plain));
    assert_eq!(console_scroll(100, 30), 72);
    assert_eq!(console_scroll(10, 30), 0);
    assert_eq!(console_scroll(5, 1), 5);
    assert_eq!(console_scroll(65536, 22), 65516);
    assert_eq!(console_scroll(65536 + 3, 4), 65535);
    assert_eq!(console_scroll(200_000, 30), 65535);
    assert_eq!(bytes_to_mb(3 * 1024 * 1024 + 5), 3);
    assert_eq!(ram_label(1536), " RAM: 1536 MB ");
    assert_eq!(players_label(3), " Players: 3 ");
    assert_eq!(input_line("list"), "> list");
}

#[test]
fn cargo_fallback_only_without_a_binary() {
    assert!(falls_back_to_cargo(BinaryUpdateFailure::NoBinaryForPlatform));
    assert!(falls_back_to_cargo(BinaryUpdateFailure::NotInChecksums));
    assert!(falls_back_to_cargo(BinaryUpdateFailure::FetchFailed));
    assert!(!falls_back_to_cargo(BinaryUpdateFailure::IntegrityCheckFailed));
    assert!(!falls_back_to_cargo(BinaryUpdateFailure::InstallFailed));
}
