//! What a plugin run computes: its command line, workspace name, credentials,
//! environment and published output, and the decisions of its I/O loop.
use vstd::prelude::*;
use crate::text::{chars_of, is_whitespace, push_char, slice_string, string_of, whitespace_char};

verus! {

/// A piece of text is cut into the pieces between separators; `cur` is the piece still open.
pub open spec fn flush(done: Seq<Seq<char>>, cur: Seq<char>) -> Seq<Seq<char>> {
    if cur.len() == 0 {
        done
    } else {
        done.push(cur)
    }
}

/// Scans `s` for whitespace-separated tokens: the closed tokens and the open one.
pub open spec fn token_scan(s: Seq<char>) -> (Seq<Seq<char>>, Seq<char>)
    decreases s.len(),
{
    if s.len() == 0 {
        (Seq::empty(), Seq::empty())
    } else {
        let (done, cur) = token_scan(s.drop_last());
        if whitespace_char(s.last()) {
            (flush(done, cur), Seq::empty())
        } else {
            (done, cur.push(s.last()))
        }
    }
}

/// The whitespace-separated tokens of `s`, in order, none of them empty.
pub open spec fn entry_tokens(s: Seq<char>) -> Seq<Seq<char>> {
    flush(token_scan(s).0, token_scan(s).1)
}

/// The whitespace-separated tokens of a command line.
pub fn split_entry(entry: &str) -> (r: Vec<String>)
    ensures
        r@.map_values(|t: String| t@) == entry_tokens(entry@),
{
    let cs = chars_of(entry);
    let mut done: Vec<String> = Vec::new();
    let mut cur: Vec<char> = Vec::new();
    let mut i: usize = 0;
    while i < cs.len()
        invariant
            i <= cs@.len(),
            cs@ == entry@,
            (done@.map_values(|t: String| t@), cur@) == token_scan(cs@.subrange(0, i as int)),
        decreases cs@.len() - i,
    {
        let c = cs[i];
        assert(cs@.subrange(0, i as int + 1).drop_last() =~= cs@.subrange(0, i as int));
        if is_whitespace(c) {
            if cur.len() > 0 {
                let t = string_of(cur.as_slice());
                done.push(t);
            }
            cur = Vec::new();
        } else {
            cur.push(c);
        }
        assert(done@.map_values(|t: String| t@) =~= token_scan(cs@.subrange(0, i as int + 1)).0);
        assert(cur@ =~= token_scan(cs@.subrange(0, i as int + 1)).1);
        i = i + 1;
    }
    assert(cs@.subrange(0, i as int) =~= cs@);
    if cur.len() > 0 {
        let t = string_of(cur.as_slice());
        done.push(t);
    }
    assert(done@.map_values(|t: String| t@) =~= entry_tokens(entry@));
    done
}

/// A line without the carriage return that ends it, if any.
pub open spec fn strip_cr(l: Seq<char>) -> Seq<char> {
    if l.len() > 0 && l.last() == '\r' {
        l.drop_last()
    } else {
        l
    }
}

/// Adds a line to those kept, unless it is empty.
pub open spec fn keep_line(done: Seq<Seq<char>>, l: Seq<char>) -> Seq<Seq<char>> {
    if l.len() == 0 {
        done
    } else {
        done.push(l)
    }
}

/// Scans `s` for lines: the non-empty lines closed by a newline, and the line still open.
pub open spec fn line_scan(s: Seq<char>) -> (Seq<Seq<char>>, Seq<char>)
    decreases s.len(),
{
    if s.len() == 0 {
        (Seq::empty(), Seq::empty())
    } else {
        let (done, cur) = line_scan(s.drop_last());
        if s.last() == '\n' {
            (keep_line(done, strip_cr(cur)), Seq::empty())
        } else {
            (done, cur.push(s.last()))
        }
    }
}

/// The non-empty lines of `s`: split at `\n`, a `\r` before it dropped; the last line
/// needs no newline.
pub open spec fn output_lines(s: Seq<char>) -> Seq<Seq<char>> {
    keep_line(line_scan(s).0, line_scan(s).1)
}

/// The non-empty lines of a piece of output, in order.
pub fn output_lines_of(text: &str) -> (r: Vec<String>)
    ensures
        r@.map_values(|t: String| t@) == output_lines(text@),
{
    let cs = chars_of(text);
    let mut done: Vec<String> = Vec::new();
    let mut cur: Vec<char> = Vec::new();
    let mut i: usize = 0;
    while i < cs.len()
        invariant
            i <= cs@.len(),
            cs@ == text@,
            (done@.map_values(|t: String| t@), cur@) == line_scan(cs@.subrange(0, i as int)),
        decreases cs@.len() - i,
    {
        let c = cs[i];
        assert(cs@.subrange(0, i as int + 1).drop_last() =~= cs@.subrange(0, i as int));
        if c == '\n' {
            let n = cur.len();
            let end = if n > 0 && cur[n - 1] == '\r' { n - 1 } else { n };
            if end > 0 {
                let t = slice_string(&cur, 0, end);
                assert(t@ =~= strip_cr(cur@));
                done.push(t);
            }
            cur = Vec::new();
        } else {
            cur.push(c);
        }
        assert(done@.map_values(|t: String| t@) =~= line_scan(cs@.subrange(0, i as int + 1)).0);
        assert(cur@ =~= line_scan(cs@.subrange(0, i as int + 1)).1);
        i = i + 1;
    }
    assert(cs@.subrange(0, i as int) =~= cs@);
    if cur.len() > 0 {
        let t = string_of(cur.as_slice());
        done.push(t);
    }
    assert(done@.map_values(|t: String| t@) =~= output_lines(text@));
    done
}

/// The bytes that `strip_ansi_escapes::strip` leaves of `b`.
pub uninterp spec fn ansi_stripped(b: Seq<u8>) -> Seq<u8>;

/// The characters that `String::from_utf8_lossy` reads from `b`.
pub uninterp spec fn utf8_lossy(b: Seq<u8>) -> Seq<char>;

/// Relies on `strip_ansi_escapes::strip`: the bytes without terminal escape sequences.
#[verifier::external_body]
fn strip_ansi(b: &[u8]) -> (r: Vec<u8>)
    ensures
        r@ == ansi_stripped(b@),
{
    strip_ansi_escapes::strip(b)
}

/// Relies on `String::from_utf8_lossy`: the text of `b`, bad sequences replaced.
#[verifier::external_body]
fn decode_lossy(b: &[u8]) -> (r: String)
    ensures
        r@ == utf8_lossy(b@),
{
    String::from_utf8_lossy(b).to_string()
}

/// The lines that a chunk of terminal output publishes: escapes stripped, decoded, split,
/// empty lines left out.
pub fn decode_output(bytes: &[u8]) -> (r: Vec<String>)
    ensures
        r@.map_values(|t: String| t@) == output_lines(utf8_lossy(ansi_stripped(bytes@))),
{
    let stripped = strip_ansi(bytes);
    let text = decode_lossy(stripped.as_slice());
    output_lines_of(text.as_str())
}

/// The lower-case hexadecimal digit of `d`.
pub open spec fn hex_digit(d: u8) -> char {
    if d < 10 {
        (('0' as u8) + d) as char
    } else {
        (('a' as u8) + (d - 10)) as char
    }
}

/// Two lower-case hexadecimal digits for each byte, in order.
pub open spec fn hex_spec(b: Seq<u8>) -> Seq<char>
    decreases b.len(),
{
    if b.len() == 0 {
        Seq::empty()
    } else {
        hex_spec(b.drop_last()).push(hex_digit(b.last() / 16)).push(hex_digit(b.last() % 16))
    }
}

fn hex_char(d: u8) -> (r: char)
    requires
        d < 16,
    ensures
        r == hex_digit(d),
{
    if d < 10 {
        (('0' as u8) + d) as char
    } else {
        (('a' as u8) + (d - 10)) as char
    }
}

/// Bytes as lower-case hexadecimal.
pub fn hex_encode(b: &[u8]) -> (r: String)
    ensures
        r@ == hex_spec(b@),
{
    let mut r = String::new();
    let mut i: usize = 0;
    while i < b.len()
        invariant
            i <= b@.len(),
            r@ == hex_spec(b@.subrange(0, i as int)),
        decreases b@.len() - i,
    {
        assert(b@.subrange(0, i as int + 1).drop_last() =~= b@.subrange(0, i as int));
        push_char(&mut r, hex_char(b[i] / 16));
        push_char(&mut r, hex_char(b[i] % 16));
        i = i + 1;
    }
    assert(b@.subrange(0, i as int) =~= b@);
    r
}

/// Relies on `rand::rng` and `Rng::fill`: `n` bytes from the thread-local secure generator.
#[verifier::external_body]
fn random_bytes(n: usize) -> (r: Vec<u8>)
    ensures
        r@.len() == n,
{
    let mut v = vec![0u8; n];
    rand::Rng::fill(&mut rand::rng(), v.as_mut_slice());
    v
}

/// A fresh credential for one run: 32 random bytes as hexadecimal.
pub fn generate_plugin_api_token() -> (r: String)
    ensures
        exists|b: Seq<u8>| b.len() == 32 && r@ == hex_spec(b),
{
    let b = random_bytes(32);
    hex_encode(b.as_slice())
}

/// A random suffix for a run's workspace: 8 random bytes as hexadecimal.
pub fn generate_tmp_run_suffix() -> (r: String)
    ensures
        exists|b: Seq<u8>| b.len() == 8 && r@ == hex_spec(b),
{
    let b = random_bytes(8);
    hex_encode(b.as_slice())
}

/// The decimal digits of `n`.
pub open spec fn decimal_spec(n: nat) -> Seq<char>
    decreases n,
{
    if n < 10 {
        seq![(('0' as nat) + n) as char]
    } else {
        decimal_spec(n / 10).push((('0' as nat) + n % 10) as char)
    }
}

/// `n` in decimal.
pub fn decimal_string(n: u64) -> (r: String)
    ensures
        r@ == decimal_spec(n as nat),
    decreases n,
{
    if n < 10 {
        let mut r = String::new();
        push_char(&mut r, (('0' as u8) + n as u8) as char);
        r
    } else {
        let mut r = decimal_string(n / 10);
        push_char(&mut r, (('0' as u8) + (n % 10) as u8) as char);
        r
    }
}

/// Appends the characters of `t` to `s`.
pub fn append_str(s: &mut String, t: &str)
    ensures
        final(s)@ == old(s)@ + t@,
{
    let cs = chars_of(t);
    let mut i: usize = 0;
    while i < cs.len()
        invariant
            i <= cs@.len(),
            cs@ == t@,
            s@ == old(s)@ + cs@.subrange(0, i as int),
        decreases cs@.len() - i,
    {
        push_char(s, cs[i]);
        assert(old(s)@ + cs@.subrange(0, i as int + 1) =~= (old(s)@ + cs@.subrange(0, i as int)).push(cs@[i as int]));
        i = i + 1;
    }
    assert(cs@.subrange(0, i as int) =~= cs@);
}

/// The name of a run's workspace directory.
pub open spec fn run_dir_spec(run_id: u64, suffix: Seq<char>) -> Seq<char> {
    "run-"@ + decimal_spec(run_id as nat) + "-"@ + suffix
}

/// `run-<run_id>-<suffix>`.
pub fn run_dir_name(run_id: u64, suffix: &str) -> (r: String)
    ensures
        r@ == run_dir_spec(run_id, suffix@),
{
    let mut r = String::new();
    append_str(&mut r, "run-");
    let d = decimal_string(run_id);
    append_str(&mut r, d.as_str());
    append_str(&mut r, "-");
    append_str(&mut r, suffix);
    r
}

/// A string holding `t`.
pub fn owned(t: &str) -> (r: String)
    ensures
        r@ == t@,
{
    let mut r = String::new();
    append_str(&mut r, t);
    r
}

/// What a plugin process finds in its environment, over what it inherits.
pub struct ChildEnv {
    pub milky_host: String,
    pub milky_api_port: u16,
    pub milky_event_port: u16,
    pub token: String,
    pub host_port: u16,
    pub data_dir: String,
}

/// The variables a plugin process gets, as name and value.
pub open spec fn child_env_spec(e: ChildEnv) -> Seq<(Seq<char>, Seq<char>)> {
    seq![
        ("MILKY_HOST"@, e.milky_host@),
        ("MILKY_API_PORT"@, decimal_spec(e.milky_api_port as nat)),
        ("MILKY_EVENT_PORT"@, decimal_spec(e.milky_event_port as nat)),
        ("MILKY_TOKEN"@, e.token@),
        ("YUYU_DATA_DIR"@, e.data_dir@),
        ("YUYU_HOST"@, "localhost"@),
        ("YUYU_PORT"@, decimal_spec(e.host_port as nat)),
        ("YUYU_TOKEN"@, e.token@),
    ]
}

pub open spec fn pairs_view(v: Seq<(String, String)>) -> Seq<(Seq<char>, Seq<char>)> {
    v.map_values(|p: (String, String)| (p.0@, p.1@))
}

/// The variables to set on a plugin process, after those it inherits.
pub fn child_env(e: &ChildEnv) -> (r: Vec<(String, String)>)
    ensures
        pairs_view(r@) == child_env_spec(*e),
{
    let mut r: Vec<(String, String)> = Vec::new();
    r.push((owned("MILKY_HOST"), e.milky_host.clone()));
    r.push((owned("MILKY_API_PORT"), decimal_string(e.milky_api_port as u64)));
    r.push((owned("MILKY_EVENT_PORT"), decimal_string(e.milky_event_port as u64)));
    r.push((owned("MILKY_TOKEN"), e.token.clone()));
    r.push((owned("YUYU_DATA_DIR"), e.data_dir.clone()));
    r.push((owned("YUYU_HOST"), owned("localhost")));
    r.push((owned("YUYU_PORT"), decimal_string(e.host_port as u64)));
    r.push((owned("YUYU_TOKEN"), e.token.clone()));
    assert(pairs_view(r@) =~= child_env_spec(*e));
    r
}

/// What the I/O loop does on waking, before it reads.
#[derive(Clone, Copy, Debug, PartialEq, Eq, Structural)]
pub enum WakeAction {
    /// A stop was asked for this run: interrupt the process and drain.
    BeginShutdown,
    /// The process is gone: read what is left, then end.
    DrainAndExit,
    /// Read the next output.
    Read,
}

/// How a read of the terminal went.
#[derive(Clone, Copy, Debug, PartialEq, Eq, Structural)]
pub enum ReadOutcome {
    Data,
    Eof,
    WouldBlock,
    Failed,
}

/// What the I/O loop does after a read.
#[derive(Clone, Copy, Debug, PartialEq, Eq, Structural)]
pub enum ReadAction {
    /// Publish the lines read and go on.
    Publish,
    /// Nothing came in time: go on.
    Continue,
    /// End the loop.
    Exit,
    /// Publish the read error as a line, then end the loop.
    ReportAndExit,
}

/// What the graceful shutdown does next.
#[derive(Clone, Copy, Debug, PartialEq, Eq, Structural)]
pub enum ShutdownPhase {
    /// Keep draining output.
    Drain,
    /// The window is over and the process is still there: kill its tree.
    ForceKill,
    /// The process is gone.
    Done,
}

/// How long a stopped process may drain before it is killed.
pub const GRACEFUL_WINDOW_MS: u64 = 5000;

/// The first decision on each wake: a stop request comes first, then the process's death.
pub fn on_wake(stop_requested: bool, child_alive: bool) -> (r: WakeAction)
    ensures
        stop_requested ==> r == WakeAction::BeginShutdown,
        !stop_requested && !child_alive ==> r == WakeAction::DrainAndExit,
        !stop_requested && child_alive ==> r == WakeAction::Read,
{
    if stop_requested {
        WakeAction::BeginShutdown
    } else if !child_alive {
        WakeAction::DrainAndExit
    } else {
        WakeAction::Read
    }
}

/// The decision after a read: data is published, a timeout goes on, the end of output
/// ends the loop; a failed read ends it quietly when the run was stopped or the process
/// is gone, and otherwise is reported first.
pub fn after_read(outcome: ReadOutcome, stop_requested: bool, child_alive: bool) -> (r: ReadAction)
    ensures
        outcome == ReadOutcome::Data ==> r == ReadAction::Publish,
        outcome == ReadOutcome::WouldBlock ==> r == ReadAction::Continue,
        outcome == ReadOutcome::Eof ==> r == ReadAction::Exit,
        outcome == ReadOutcome::Failed ==> r == (if stop_requested || !child_alive {
            ReadAction::Exit
        } else {
            ReadAction::ReportAndExit
        }),
{
    match outcome {
        ReadOutcome::Data => ReadAction::Publish,
        ReadOutcome::WouldBlock => ReadAction::Continue,
        ReadOutcome::Eof => ReadAction::Exit,
        ReadOutcome::Failed => if stop_requested || !child_alive {
            ReadAction::Exit
        } else {
            ReadAction::ReportAndExit
        },
    }
}

/// One step of the graceful shutdown, `elapsed_ms` after the interrupt was sent.
pub fn shutdown_phase(child_alive: bool, elapsed_ms: u64) -> (r: ShutdownPhase)
    ensures
        !child_alive ==> r == ShutdownPhase::Done,
        child_alive && elapsed_ms < GRACEFUL_WINDOW_MS ==> r == ShutdownPhase::Drain,
        child_alive && elapsed_ms >= GRACEFUL_WINDOW_MS ==> r == ShutdownPhase::ForceKill,
{
    if !child_alive {
        ShutdownPhase::Done
    } else if elapsed_ms < GRACEFUL_WINDOW_MS {
        ShutdownPhase::Drain
    } else {
        ShutdownPhase::ForceKill
    }
}

/// A program and its arguments joined by single spaces.
pub open spec fn command_line_spec(program: Seq<char>, args: Seq<Seq<char>>) -> Seq<char>
    decreases args.len(),
{
    if args.len() == 0 {
        program
    } else {
        command_line_spec(program, args.drop_last()) + " "@ + args.last()
    }
}

/// The command line as shown to the user.
pub fn display_command(program: &str, args: &Vec<String>) -> (r: String)
    ensures
        r@ == command_line_spec(program@, args@.map_values(|a: String| a@)),
{
    let ghost v = args@.map_values(|a: String| a@);
    let mut r = owned(program);
    let mut i: usize = 0;
    while i < args.len()
        invariant
            i <= args@.len(),
            v == args@.map_values(|a: String| a@),
            r@ == command_line_spec(program@, v.subrange(0, i as int)),
        decreases args@.len() - i,
    {
        assert(v.subrange(0, i as int + 1).drop_last() =~= v.subrange(0, i as int));
        append_str(&mut r, " ");
        append_str(&mut r, args[i].as_str());
        i = i + 1;
    }
    assert(v.subrange(0, i as int) =~= v);
    r
}

} // verus!
