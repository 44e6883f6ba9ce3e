use vstd::prelude::*;
use crate::text::{
    ascii_lowercase, chars_equal, chars_of, contains_seq, is_ws, lemma_trim_end_exact,
    lemma_trim_start_exact, occurs_at, ws_pred, decimal, lowercase_chars, pop_char,
    push_char, push_decimal, str_contains, string_views, trim_range, trim_ws,
};

verus! {

/// The console line that announces the automatic restart after the first boot.
pub const AUTO_RESTART_NOTICE: &'static str = "--- First time auto-restart triggered for client ---";

/// The console line that announces a restart.
pub const RESTART_NOTICE: &'static str = "--- Server Restarting ---";

/// The console command that stops the server gracefully.
pub const STOP_COMMAND: &'static str = "stop";

/// How many lines of output are shown when the server fails.
pub const CRASH_TAIL_LINES: usize = 40;

// ---------------------------------------------------------------------
// One boot of the server
// ---------------------------------------------------------------------

/// Watches the output of one boot for the end of the first start-up.
pub struct BootWatcher {
    /// This boot is the first one after the jar was downloaded.
    pub is_first: bool,
    /// The automatic restart has been asked for during this boot.
    pub triggered: bool,
}

/// Whether a line of server output asks for the automatic restart.
pub open spec fn triggers_restart(w: BootWatcher, line: Seq<char>) -> bool {
    w.is_first && !w.triggered && contains_seq(line, "Done ("@)
}

/// The lines that a line of server output adds to the console.
pub open spec fn logged_lines(w: BootWatcher, line: Seq<char>) -> Seq<Seq<char>> {
    if triggers_restart(w, line) {
        seq![AUTO_RESTART_NOTICE@, line]
    } else {
        seq![line]
    }
}

/// The player count after a line of server output.
pub open spec fn players_after(players: u32, line: Seq<char>) -> u32 {
    if contains_seq(line, "joined the game"@) {
        (players + 1) as u32
    } else if contains_seq(line, "left the game"@) {
        if players == 0 { 0 } else { (players - 1) as u32 }
    } else {
        players
    }
}

/// What the dashboard shows and the user is typing.
pub struct ConsoleState {
    /// Every line the server printed, and the notices, oldest first.
    pub logs: Vec<String>,
    /// The memory the server process uses, in MiB.
    pub ram_usage_mb: u64,
    /// The players online, as the join and leave messages count them.
    pub online_players: u32,
    /// The command being typed.
    pub input: String,
    /// The server process is running.
    pub is_running: bool,
}

/// A key code of a key press.
pub enum KeyCode {
    Char(char),
    Backspace,
    Enter,
    Other,
}

/// A key event: its code, whether Control was held, and whether it is a press
/// (not a repeat or a release).
pub struct Key {
    pub code: KeyCode,
    pub ctrl: bool,
    pub press: bool,
}

/// What the dashboard does after a key event.
pub enum KeyOutcome {
    /// Keep running.
    Continue,
    /// Ctrl+C: send this command (`stop`) to the server console, so that the server stops
    /// gracefully, and then leave the dashboard.
    StopAndQuit(String),
    /// Send this command to the server console.
    Send(String),
}

/// Whether a key event is Ctrl+C.
pub open spec fn is_ctrl_c(key: Key) -> bool {
    key.press && key.code == KeyCode::Char('c') && key.ctrl
}

/// The input after a key event.
pub open spec fn input_after(input: Seq<char>, key: Key) -> Seq<char> {
    if !key.press || is_ctrl_c(key) {
        input
    } else {
        match key.code {
            KeyCode::Char(c) => if key.ctrl { input } else { input.push(c) },
            KeyCode::Backspace => if input.len() > 0 { input.drop_last() } else { input },
            KeyCode::Enter => Seq::<char>::empty(),
            KeyCode::Other => input,
        }
    }
}

/// Whether a key event sends the typed command: Enter, with more than whitespace typed.
pub open spec fn key_sends(input: Seq<char>, key: Key) -> bool {
    key.press && key.code == KeyCode::Enter && trim_ws(input).len() > 0
}

impl ConsoleState {
    /// The state at the start: nothing logged, nobody online, nothing typed, running.
    pub fn new() -> (s: ConsoleState)
        ensures
            s.logs@.len() == 0,
            s.ram_usage_mb == 0,
            s.online_players == 0,
            s.input@.len() == 0,
            s.is_running,
    {
        ConsoleState {
            logs: Vec::new(),
            ram_usage_mb: 0,
            online_players: 0,
            input: String::new(),
            is_running: true,
        }
    }

    /// Appends a line to the console.
    pub fn push_log(&mut self, line: String)
        ensures
            final(self).logs@ == old(self).logs@.push(line),
            final(self).ram_usage_mb == old(self).ram_usage_mb,
            final(self).online_players == old(self).online_players,
            final(self).input == old(self).input,
            final(self).is_running == old(self).is_running,
    {
        self.logs.push(line);
    }

    /// Takes one line of the server's standard output: counts players joining and leaving,
    /// asks for the automatic restart when the first boot is done (once), and logs the line.
    /// Returns whether the restart is asked for now.
    pub fn on_server_line(&mut self, watcher: &mut BootWatcher, line: String) -> (restart: bool)
        requires
            contains_seq(line@, "joined the game"@) ==> old(self).online_players < u32::MAX,
        ensures
            restart == triggers_restart(*old(watcher), line@),
            final(watcher).is_first == old(watcher).is_first,
            final(watcher).triggered == (old(watcher).triggered || restart),
            final(self).online_players == players_after(old(self).online_players, line@),
            string_views(final(self).logs@) == string_views(old(self).logs@) + logged_lines(
                *old(watcher),
                line@,
            ),
            final(self).ram_usage_mb == old(self).ram_usage_mb,
            final(self).input == old(self).input,
            final(self).is_running == old(self).is_running,
    {
        if str_contains(line.as_str(), "joined the game") {
            self.online_players = self.online_players + 1;
        } else if str_contains(line.as_str(), "left the game") {
            self.online_players = self.online_players.saturating_sub(1);
        }
        let mut restart = false;
        let ghost logs0 = self.logs@;
        if watcher.is_first && !watcher.triggered && str_contains(line.as_str(), "Done (") {
            watcher.triggered = true;
            restart = true;
            self.logs.push(String::from_str(AUTO_RESTART_NOTICE));
        }
        let ghost line_view = line@;
        self.logs.push(line);
        proof {
            if restart {
                assert(string_views(self.logs@) =~= string_views(logs0) + seq![
                    AUTO_RESTART_NOTICE@,
                    line_view,
                ]);
            } else {
                assert(string_views(self.logs@) =~= string_views(logs0) + seq![line_view]);
            }
        }
        restart
    }

    /// Takes one line of the server's error output: it is logged.
    pub fn on_error_line(&mut self, line: String)
        ensures
            final(self).logs@ == old(self).logs@.push(line),
            final(self).ram_usage_mb == old(self).ram_usage_mb,
            final(self).online_players == old(self).online_players,
            final(self).input == old(self).input,
            final(self).is_running == old(self).is_running,
    {
        self.push_log(line);
    }

    /// Takes one key event of the input bar.
    pub fn on_key(&mut self, key: Key) -> (r: KeyOutcome)
        ensures
            final(self).input@ == input_after(old(self).input@, key),
            is_ctrl_c(key) ==> (r matches KeyOutcome::StopAndQuit(cmd) && cmd@ == STOP_COMMAND@),
            !is_ctrl_c(key) && key_sends(old(self).input@, key) ==> (r matches KeyOutcome::Send(
                cmd,
            ) && cmd@ == old(self).input@),
            !is_ctrl_c(key) && !key_sends(old(self).input@, key) ==> r is Continue,
            final(self).logs == old(self).logs,
            final(self).ram_usage_mb == old(self).ram_usage_mb,
            final(self).online_players == old(self).online_players,
            final(self).is_running == old(self).is_running,
    {
        if !key.press {
            return KeyOutcome::Continue;
        }
        let is_c = match key.code {
            KeyCode::Char(c) => c == 'c',
            _ => false,
        };
        if is_c && key.ctrl {
            return KeyOutcome::StopAndQuit(String::from_str(STOP_COMMAND));
        }
        match key.code {
            KeyCode::Char(c) => {
                if !key.ctrl {
                    push_char(&mut self.input, c);
                }
                KeyOutcome::Continue
            },
            KeyCode::Backspace => {
                let _ = pop_char(&mut self.input);
                KeyOutcome::Continue
            },
            KeyCode::Enter => {
                let cmd = self.input.clone();
                self.input = String::new();
                let v = chars_of(cmd.as_str());
                let (a, b) = trim_range(&v, 0, v.len());
                proof {
                    assert(v@.subrange(0, v@.len() as int) =~= v@);
                }
                if a < b {
                    KeyOutcome::Send(cmd)
                } else {
                    KeyOutcome::Continue
                }
            },
            KeyCode::Other => KeyOutcome::Continue,
        }
    }

    /// The last `n` lines of the console (all of them if there are fewer), oldest first.
    pub fn tail(&self, n: usize) -> (r: Vec<String>)
        ensures
            ({
                let len = self.logs@.len();
                let start = if len > n { len - n } else { 0 };
                string_views(r@) == string_views(self.logs@.subrange(start as int, len as int))
            }),
    {
        let len = self.logs.len();
        let start = len.saturating_sub(n);
        let mut r: Vec<String> = Vec::new();
        let mut i = start;
        while i < len
            invariant
                len == self.logs@.len(),
                start <= i <= len,
                string_views(r@) == string_views(self.logs@.subrange(start as int, i as int)),
            decreases len - i,
        {
            let ghost before = r@;
            r.push(self.logs[i].clone());
            assert(r@ =~= before.push(self.logs@[i as int]));
            assert(self.logs@.subrange(start as int, i + 1) =~= self.logs@.subrange(
                start as int,
                i as int,
            ).push(self.logs@[i as int]));
            assert(string_views(r@) =~= string_views(before).push(self.logs@[i as int]@));
            assert(string_views(self.logs@.subrange(start as int, i + 1)) =~= string_views(
                self.logs@.subrange(start as int, i as int),
            ).push(self.logs@[i as int]@));
            i = i + 1;
        }
        r
    }
}

/// Joining and then leaving gives back the player count.
pub proof fn lemma_join_then_leave(players: u32, joined: Seq<char>, left: Seq<char>)
    requires
        players < u32::MAX,
        contains_seq(joined, "joined the game"@),
        !contains_seq(left, "joined the game"@),
        contains_seq(left, "left the game"@),
    ensures
        players_after(players_after(players, joined), left) == players,
{
}

/// The player count never goes below zero.
pub proof fn lemma_leave_at_zero(line: Seq<char>)
    requires
        !contains_seq(line, "joined the game"@),
    ensures
        players_after(0, line) == 0,
{
}

/// Typing a character and then Backspace gives back the input.
pub proof fn lemma_type_then_backspace(input: Seq<char>, c: char)
    ensures
        input_after(
            input_after(input, Key { code: KeyCode::Char(c), ctrl: false, press: true }),
            Key { code: KeyCode::Backspace, ctrl: false, press: true },
        ) == input,
{
    assert(input.push(c).drop_last() =~= input);
}

/// Enter always leaves the input empty.
pub proof fn lemma_enter_clears(input: Seq<char>, ctrl: bool)
    ensures
        input_after(input, Key { code: KeyCode::Enter, ctrl, press: true }).len() == 0,
{
}

/// The first-boot restart is asked for exactly when the line holds the text `Done (`
/// (as Minecraft's "Done (12.3s)! For help" does), on the first boot, before it was asked
/// for: a line with `Done` but without `Done (`, such as "Done preparing level", never
/// asks for it.
pub proof fn lemma_restart_exactly_on_done_paren(w: BootWatcher, line: Seq<char>)
    ensures
        triggers_restart(w, line) <==> (w.is_first && !w.triggered && exists|i: int|
            0 <= i && i + 6 <= line.len() && #[trigger] line.subrange(i, i + 6) == "Done ("@),
{
    reveal_strlit("Done (");
    if w.is_first && !w.triggered {
        if contains_seq(line, "Done ("@) {
            let i = choose|i: int| occurs_at(line, "Done ("@, i);
            assert(line.subrange(i, i + 6) == "Done ("@);
        }
        if exists|i: int| 0 <= i && i + 6 <= line.len() && #[trigger] line.subrange(i, i + 6)
            == "Done ("@ {
            let i = choose|i: int|
                0 <= i && i + 6 <= line.len() && #[trigger] line.subrange(i, i + 6) == "Done ("@;
            assert(occurs_at(line, "Done ("@, i));
        }
    }
}

/// A press of a character key without Control appends exactly that character (any case,
/// any character) to the input; Backspace takes back exactly the last one.
pub proof fn lemma_typing_appends_the_character(input: Seq<char>, c: char)
    ensures
        input_after(input, Key { code: KeyCode::Char(c), ctrl: false, press: true }) == input.push(
            c,
        ),
        input_after(input, Key { code: KeyCode::Char(c), ctrl: false, press: true }).len()
            == input.len() + 1,
        input_after(input, Key { code: KeyCode::Char(c), ctrl: false, press: true }).last() == c,
        input_after(input, Key { code: KeyCode::Char(c), ctrl: false, press: true }).drop_last()
            == input,
        input.len() > 0 ==> input_after(input, Key { code: KeyCode::Backspace, ctrl: false, press: true })
            == input.take(input.len() - 1),
{
    assert(input.push(c).drop_last() =~= input);
    if input.len() > 0 {
        assert(input.drop_last() =~= input.take(input.len() - 1));
    }
}

/// A key that is not a press, or that is pressed with Control (other than Backspace and
/// Enter), leaves the input as it is.
pub proof fn lemma_ctrl_and_release_leave_input(input: Seq<char>, c: char, press: bool)
    ensures
        input_after(input, Key { code: KeyCode::Char(c), ctrl: true, press }) == input,
        input_after(input, Key { code: KeyCode::Char(c), ctrl: false, press: false }) == input,
{
}

/// A boot whose restart was triggered never triggers it again.
pub proof fn lemma_trigger_once(w: BootWatcher, line: Seq<char>)
    requires
        w.triggered,
    ensures
        !triggers_restart(w, line),
{
}

// ---------------------------------------------------------------------
// Commands typed into the console
// ---------------------------------------------------------------------

/// Whether a console command is `restart`, in any ASCII case, with whitespace around it.
pub open spec fn is_restart_command(cmd: Seq<char>) -> bool {
    ascii_lowercase(trim_ws(cmd)) == "restart"@
}

/// What the server's standard input receives for a console command.
pub open spec fn stdin_text(cmd: Seq<char>) -> Seq<char> {
    if is_restart_command(cmd) {
        "stop\n"@
    } else {
        cmd + "\n"@
    }
}

/// `restart` in any ASCII case, with any whitespace around it, stops the server to restart
/// it; the command sent is `stop`.
pub proof fn lemma_restart_command(a: Seq<char>, r: Seq<char>, b: Seq<char>)
    requires
        forall|i: int| 0 <= i < a.len() ==> is_ws(#[trigger] a[i]),
        forall|i: int| 0 <= i < b.len() ==> is_ws(#[trigger] b[i]),
        ascii_lowercase(r) == "restart"@,
    ensures
        is_restart_command(a + r + b),
        stdin_text(a + r + b) == "stop\n"@,
{
    reveal_strlit("restart");
    let s = a + r + b;
    assert("restart"@.len() == 7);
    assert(ascii_lowercase(r).len() == r.len());
    assert(r.len() == 7);
    assert("restart"@[0] == 'r');
    assert("restart"@[6] == 't');
    assert(ascii_lowercase(r)[0] == 'r');
    assert(ascii_lowercase(r)[6] == 't');
    assert(!is_ws(r[0]));
    assert(!is_ws(r[6]));
    assert forall|i: int| 0 <= i < a.len() implies ws_pred()(#[trigger] s[i]) by {
        assert(s[i] == a[i]);
    }
    assert(s[a.len() as int] == r[0]);
    lemma_trim_start_exact(s, ws_pred(), a.len() as int);
    let t = s.skip(a.len() as int);
    assert(t =~= r + b);
    assert forall|i: int| 7 <= i < t.len() implies ws_pred()(#[trigger] t[i]) by {
        assert(t[i] == b[i - 7]);
    }
    assert(t[6] == r[6]);
    lemma_trim_end_exact(t, ws_pred(), 7);
    assert(t.take(7) =~= r);
}

/// Any other command reaches the server as typed, with a newline.
pub proof fn lemma_other_command_passes_through(cmd: Seq<char>)
    requires
        ascii_lowercase(trim_ws(cmd)) != "restart"@,
    ensures
        stdin_text(cmd) == cmd + "\n"@,
        !is_restart_command(cmd),
{
}

/// The text written to the server for a command and whether it asks for a restart:
/// `restart` stops the server (to start it again), anything else is passed on with a newline.
pub fn console_command(cmd: &str) -> (r: (String, bool))
    ensures
        r.1 == is_restart_command(cmd@),
        r.0@ == stdin_text(cmd@),
{
    let v = chars_of(cmd);
    let (a, b) = trim_range(&v, 0, v.len());
    proof {
        assert(v@.subrange(0, v@.len() as int) =~= v@);
    }
    let mut trimmed = String::new();
    let mut i = a;
    while i < b
        invariant
            a <= i <= b <= v@.len(),
            trimmed@ == v@.subrange(a as int, i as int),
        decreases b - i,
    {
        push_char(&mut trimmed, v[i]);
        assert(trimmed@ =~= v@.subrange(a as int, i + 1));
        i = i + 1;
    }
    let lowered = lowercase_chars(trimmed.as_str());
    if chars_equal(&lowered, &chars_of("restart")) {
        (String::from_str("stop\n"), true)
    } else {
        let mut line = String::from_str(cmd);
        line.append("\n");
        (line, false)
    }
}

// ---------------------------------------------------------------------
// The run of the server, boot after boot
// ---------------------------------------------------------------------

/// How a boot of the server ended, and so what comes next.
pub enum SessionEnd {
    /// A restart was asked for: the server is started again.
    Restart,
    /// The server stopped with success.
    StoppedCleanly,
    /// The server failed: its last output is shown.
    Crashed,
}

/// The run of one server: whether its jar was just downloaded, and whether the first
/// boot has already been restarted.
pub struct ServerSession {
    pub is_first_run: bool,
    pub first_boot_finished: bool,
}

/// The watcher that a boot of the session starts with.
pub open spec fn watcher_for(s: ServerSession) -> BootWatcher {
    BootWatcher { is_first: s.is_first_run && !s.first_boot_finished, triggered: false }
}

/// How a boot ends: a requested restart wins over the exit status.
pub open spec fn session_end_for(restart_requested: bool, exit_ok: bool) -> SessionEnd {
    if restart_requested {
        SessionEnd::Restart
    } else if exit_ok {
        SessionEnd::StoppedCleanly
    } else {
        SessionEnd::Crashed
    }
}

impl ServerSession {
    /// A session for a server whose jar was (`is_first_run`) or was not just downloaded.
    pub fn new(is_first_run: bool) -> (s: ServerSession)
        ensures
            s.is_first_run == is_first_run,
            !s.first_boot_finished,
    {
        ServerSession { is_first_run, first_boot_finished: false }
    }

    /// The watcher for the next boot: it restarts the server once only on the first boot
    /// after a download.
    pub fn boot_watcher(&self) -> (w: BootWatcher)
        ensures
            w == watcher_for(*self),
    {
        BootWatcher { is_first: self.is_first_run && !self.first_boot_finished, triggered: false }
    }

    /// Decides what follows the end of a boot; after a restart the first boot is over.
    pub fn finish(&mut self, restart_requested: bool, exit_ok: bool) -> (r: SessionEnd)
        ensures
            r == session_end_for(restart_requested, exit_ok),
            final(self).is_first_run == old(self).is_first_run,
            final(self).first_boot_finished == (old(self).first_boot_finished
                || restart_requested),
    {
        if restart_requested {
            self.first_boot_finished = true;
            SessionEnd::Restart
        } else if exit_ok {
            SessionEnd::StoppedCleanly
        } else {
            SessionEnd::Crashed
        }
    }
}

/// After any restart, no later boot of the session restarts by itself.
pub proof fn lemma_auto_restart_at_most_once(s: ServerSession, line: Seq<char>)
    requires
        s.first_boot_finished,
    ensures
        !triggers_restart(watcher_for(s), line),
{
}

/// A session whose jar was already there never restarts by itself.
pub proof fn lemma_no_auto_restart_without_download(s: ServerSession, line: Seq<char>)
    requires
        !s.is_first_run,
    ensures
        !triggers_restart(watcher_for(s), line),
{
}

// ---------------------------------------------------------------------
// The dashboard
// ---------------------------------------------------------------------

/// How a console line is coloured.
pub enum LogStyle {
    /// Red: the line holds `ERROR`.
    Error,
    /// Yellow: the line holds `WARN` and not `ERROR`.
    Warning,
    /// The default colour.
    Plain,
}

/// The colour of a console line.
pub fn log_style(line: &str) -> (r: LogStyle)
    ensures
        contains_seq(line@, "ERROR"@) ==> r is Error,
        !contains_seq(line@, "ERROR"@) && contains_seq(line@, "WARN"@) ==> r is Warning,
        !contains_seq(line@, "ERROR"@) && !contains_seq(line@, "WARN"@) ==> r is Plain,
{
    if str_contains(line, "ERROR") {
        LogStyle::Error
    } else if str_contains(line, "WARN") {
        LogStyle::Warning
    } else {
        LogStyle::Plain
    }
}

/// How far the console is scrolled so that its newest lines show: the line count less the
/// rows inside the frame (the frame takes two), at most `u16::MAX`, or 0 when all lines fit.
pub fn console_scroll(log_count: usize, area_height: u16) -> (r: u16)
    ensures
        ({
            let rows = if area_height >= 2 { area_height - 2 } else { 0 };
            r == if log_count > rows {
                if log_count - rows > 65535 { 65535 } else { log_count - rows }
            } else {
                0
            }
        }),
{
    let rows: usize = area_height.saturating_sub(2) as usize;
    if log_count > rows {
        let d: usize = log_count - rows;
        if d > 65535 {
            65535
        } else {
            d as u16
        }
    } else {
        0
    }
}

/// Bytes in whole MiB, rounded down.
pub fn bytes_to_mb(bytes: u64) -> (r: u64)
    ensures
        r == bytes / 1024 / 1024,
{
    bytes / 1024 / 1024
}

/// The memory box of the dashboard.
pub fn ram_label(mb: u64) -> (s: String)
    ensures
        s@ == " RAM: "@ + decimal(mb as nat) + " MB "@,
{
    let mut s = String::from_str(" RAM: ");
    push_decimal(&mut s, mb);
    s.append(" MB ");
    s
}

/// The player box of the dashboard.
pub fn players_label(players: u32) -> (s: String)
    ensures
        s@ == " Players: "@ + decimal(players as nat) + " "@,
{
    let mut s = String::from_str(" Players: ");
    push_decimal(&mut s, players as u64);
    s.append(" ");
    s
}

/// The input bar of the dashboard.
pub fn input_line(input: &str) -> (s: String)
    ensures
        s@ == "> "@ + input@,
{
    let mut s = String::from_str("> ");
    s.append(input);
    s
}

} // verus!
