//! The terminal tab's decisions: the bytes a key press sends to the pty, and
//! the shell name shown in its header.
//!
//! The tab decides here what a key stands for; writing the bytes to the pty
//! and redrawing happen in the caller.

use vstd::prelude::*;
use vstd::string::StringSliceAdditionalSpecFns;

use crate::text;

verus! {

/// Bytes for a key with Control held: `^C`, `^D`, `^Z`, `^L`; nothing for
/// other keys.
pub open spec fn control_bytes(key: Seq<char>) -> Option<Seq<u8>> {
    if key == "c"@ {
        Some(seq![0x03u8])
    } else if key == "d"@ {
        Some(seq![0x04u8])
    } else if key == "z"@ {
        Some(seq![0x1au8])
    } else if key == "l"@ {
        Some(seq![0x0cu8])
    } else {
        None
    }
}

/// Bytes for a named key: Enter, Backspace, Tab, Escape, the arrows, Home,
/// End, PageUp, PageDown.
pub open spec fn named_bytes(key: Seq<char>) -> Option<Seq<u8>> {
    if key == "enter"@ {
        Some(seq![0x0du8])
    } else if key == "backspace"@ {
        Some(seq![0x7fu8])
    } else if key == "tab"@ {
        Some(seq![0x09u8])
    } else if key == "escape"@ {
        Some(seq![0x1bu8])
    } else if key == "up"@ {
        Some(seq![0x1bu8, 0x5b, 0x41])
    } else if key == "down"@ {
        Some(seq![0x1bu8, 0x5b, 0x42])
    } else if key == "right"@ {
        Some(seq![0x1bu8, 0x5b, 0x43])
    } else if key == "left"@ {
        Some(seq![0x1bu8, 0x5b, 0x44])
    } else if key == "home"@ {
        Some(seq![0x1bu8, 0x5b, 0x48])
    } else if key == "end"@ {
        Some(seq![0x1bu8, 0x5b, 0x46])
    } else if key == "pageup"@ {
        Some(seq![0x1bu8, 0x5b, 0x35, 0x7e])
    } else if key == "pagedown"@ {
        Some(seq![0x1bu8, 0x5b, 0x36, 0x7e])
    } else {
        None
    }
}

/// The UTF-8 bytes of the typed text, if any.
pub open spec fn typed_bytes(key_char: Option<&str>) -> Option<Seq<u8>> {
    match key_char {
        Some(ch) => Some(ch.spec_bytes()),
        None => None,
    }
}

/// What a key press writes to the pty.
pub open spec fn key_bytes(
    key: Seq<char>,
    control: bool,
    alt: bool,
    platform: bool,
    typed: Option<Seq<u8>>,
) -> Option<Seq<u8>> {
    if control {
        control_bytes(key)
    } else if named_bytes(key) is Some {
        named_bytes(key)
    } else if !alt && !platform {
        typed
    } else {
        None
    }
}

fn bytes(v: &[u8]) -> (r: Vec<u8>)
    ensures
        r@ == v@,
{
    let mut r: Vec<u8> = Vec::new();
    let mut i: usize = 0;
    while i < v.len()
        invariant
            i <= v.len(),
            r@ == v@.take(i as int),
        decreases v.len() - i,
    {
        r.push(v[i]);
        i = i + 1;
        assert(r@ =~= v@.take(i as int));
    }
    assert(v@.take(v.len() as int) =~= v@);
    r
}

/// What a key press writes to the pty: with Control only the four control
/// keys; otherwise the named keys' sequences, else the typed text unless
/// Alt or the platform modifier is held. `None` writes nothing.
pub fn key_input(key: &str, control: bool, alt: bool, platform: bool, key_char: Option<&str>) -> (r:
    Option<Vec<u8>>)
    ensures
        match r {
            Some(v) => key_bytes(key@, control, alt, platform, typed_bytes(key_char)) == Some(v@),
            None => key_bytes(key@, control, alt, platform, typed_bytes(key_char)) is None,
        },
{
    let k = text::chars_of(key);
    if control {
        if text::eq_str(&k, "c") {
            return Some(vec![0x03u8]);
        } else if text::eq_str(&k, "d") {
            return Some(vec![0x04u8]);
        } else if text::eq_str(&k, "z") {
            return Some(vec![0x1au8]);
        } else if text::eq_str(&k, "l") {
            return Some(vec![0x0cu8]);
        }
        return None;
    }
    if text::eq_str(&k, "enter") {
        Some(vec![0x0du8])
    } else if text::eq_str(&k, "backspace") {
        Some(vec![0x7fu8])
    } else if text::eq_str(&k, "tab") {
        Some(vec![0x09u8])
    } else if text::eq_str(&k, "escape") {
        Some(vec![0x1bu8])
    } else if text::eq_str(&k, "up") {
        Some(vec![0x1bu8, 0x5b, 0x41])
    } else if text::eq_str(&k, "down") {
        Some(vec![0x1bu8, 0x5b, 0x42])
    } else if text::eq_str(&k, "right") {
        Some(vec![0x1bu8, 0x5b, 0x43])
    } else if text::eq_str(&k, "left") {
        Some(vec![0x1bu8, 0x5b, 0x44])
    } else if text::eq_str(&k, "home") {
        Some(vec![0x1bu8, 0x5b, 0x48])
    } else if text::eq_str(&k, "end") {
        Some(vec![0x1bu8, 0x5b, 0x46])
    } else if text::eq_str(&k, "pageup") {
        Some(vec![0x1bu8, 0x5b, 0x35, 0x7e])
    } else if text::eq_str(&k, "pagedown") {
        Some(vec![0x1bu8, 0x5b, 0x36, 0x7e])
    } else {
        match key_char {
            Some(ch) => {
                if !alt && !platform {
                    Some(bytes(ch.as_bytes()))
                } else {
                    None
                }
            },
            None => None,
        }
    }
}

/// The header's shell name: the last `/`-separated part of `$SHELL`, or
/// `sh` when the variable is unset.
pub open spec fn shell_label(shell: Option<Seq<char>>) -> Seq<char> {
    match shell {
        Some(s) => text::tail(s, text::rfind_char(s, '/') + 1),
        None => "sh"@,
    }
}

/// Shell name for the header from the value of `$SHELL`, if set.
pub fn shell_name(shell: Option<String>) -> (r: String)
    ensures
        r@ == shell_label(match shell {
            Some(s) => Some(s@),
            None => None,
        }),
{
    match shell {
        Some(s) => {
            let v = text::chars_of(s.as_str());
            proof {
                text::lemma_rfind_char_range(v@, '/');
            }
            let start: usize = match text::rfind(&v, '/') {
                Some(i) => {
                    assert(i < v.len());
                    i + 1
                },
                None => 0,
            };
            let base = text::suffix_from(&v, start);
            text::string_of(&base)
        },
        None => text::owned("sh"),
    }
}

/// Lifecycle of the tab's shell.
#[derive(Debug, Clone, PartialEq, Eq)]
pub enum TermStatus {
    Running,
    /// The pty did not start; the error is shown.
    Failed(String),
    /// The shell exited; the last screen stays, dimmed.
    Exited,
}

/// What one poll tick decides.
#[derive(Debug, Clone, PartialEq, Eq)]
pub struct PollStep {
    /// Pull a new grid snapshot into the render cache.
    pub refresh: bool,
    /// The shell just exited: the status becomes `Exited`, the cursor hides.
    pub exited: bool,
    /// Repaint.
    pub notify: bool,
    /// Schedule the next tick.
    pub keep_polling: bool,
}

/// One tick of the pty poll loop, given whether a terminal exists, whether
/// draining it produced output, and whether its shell is alive. Polling
/// stops once the shell has exited, or when there is no terminal.
pub open spec fn poll_decision(status: TermStatus, has_terminal: bool, dirty: bool, alive: bool) -> PollStep {
    if !has_terminal {
        PollStep { refresh: false, exited: false, notify: false, keep_polling: false }
    } else {
        let exited = !alive && status == TermStatus::Running;
        let now_exited = exited || status == TermStatus::Exited;
        PollStep { refresh: dirty, exited, notify: dirty || now_exited, keep_polling: !now_exited }
    }
}

/// One poll tick, as `poll_decision` states it.
pub fn poll_step(status: &TermStatus, has_terminal: bool, dirty: bool, alive: bool) -> (r: PollStep)
    ensures
        r == poll_decision(*status, has_terminal, dirty, alive),
{
    if !has_terminal {
        return PollStep { refresh: false, exited: false, notify: false, keep_polling: false };
    }
    let running = match status {
        TermStatus::Running => true,
        _ => false,
    };
    let was_exited = match status {
        TermStatus::Exited => true,
        _ => false,
    };
    let exited = !alive && running;
    let now_exited = exited || was_exited;
    PollStep { refresh: dirty, exited, notify: dirty || now_exited, keep_polling: !now_exited }
}

/// The status after a launch attempt: running when the pty started, else
/// failed with its error.
pub fn launch_status(outcome: Result<(), String>) -> (r: TermStatus)
    ensures
        match outcome {
            Ok(()) => r == TermStatus::Running,
            Err(m) => r == TermStatus::Failed(m),
        },
{
    match outcome {
        Ok(()) => TermStatus::Running,
        Err(m) => TermStatus::Failed(m),
    }
}

/// The cursor shows only while the shell runs and the screen wants it.
pub fn cursor_visible(status: &TermStatus, wanted: bool) -> (r: bool)
    ensures
        r == (wanted && *status == TermStatus::Running),
{
    wanted && match status {
        TermStatus::Running => true,
        _ => false,
    }
}

/// Exited is final for the poll loop: a tick in that state reports no new
/// exit and stops polling, whatever the terminal reports; a running shell
/// keeps being polled while it is alive.
pub proof fn lemma_exited_stops_polling(dirty: bool, alive: bool)
    ensures
        !poll_decision(TermStatus::Exited, true, dirty, alive).keep_polling,
        !poll_decision(TermStatus::Exited, true, dirty, alive).exited,
        alive ==> poll_decision(TermStatus::Running, true, dirty, alive).keep_polling,
        !alive ==> poll_decision(TermStatus::Running, true, dirty, alive).exited,
{
}

/// A key press on the tab: ignored unless the shell runs, else the bytes of
/// `key_input`.
pub fn handle_key(
    status: &TermStatus,
    key: &str,
    control: bool,
    alt: bool,
    platform: bool,
    key_char: Option<&str>,
) -> (r: Option<Vec<u8>>)
    ensures
        *status != TermStatus::Running ==> r is None,
        *status == TermStatus::Running ==> match r {
            Some(v) => key_bytes(key@, control, alt, platform, typed_bytes(key_char)) == Some(v@),
            None => key_bytes(key@, control, alt, platform, typed_bytes(key_char)) is None,
        },
{
    match status {
        TermStatus::Running => key_input(key, control, alt, platform, key_char),
        _ => None,
    }
}

/// The arrow keys send the standard cursor sequences `ESC [ A` (up),
/// `ESC [ B` (down), `ESC [ C` (right) and `ESC [ D` (left) whenever
/// Control is not held, whatever Alt, the platform key or the typed text.
pub proof fn lemma_arrow_keys(alt: bool, platform: bool, typed: Option<Seq<u8>>)
    ensures
        key_bytes("up"@, false, alt, platform, typed) == Some(seq![0x1bu8, 0x5bu8, 0x41u8]),
        key_bytes("down"@, false, alt, platform, typed) == Some(seq![0x1bu8, 0x5bu8, 0x42u8]),
        key_bytes("right"@, false, alt, platform, typed) == Some(seq![0x1bu8, 0x5bu8, 0x43u8]),
        key_bytes("left"@, false, alt, platform, typed) == Some(seq![0x1bu8, 0x5bu8, 0x44u8]),
{
    reveal_strlit("up");
    reveal_strlit("down");
    reveal_strlit("right");
    reveal_strlit("left");
    reveal_strlit("enter");
    reveal_strlit("backspace");
    reveal_strlit("tab");
    reveal_strlit("escape");
    assert("up"@ =~= seq!['u', 'p']);
    assert("down"@ =~= seq!['d', 'o', 'w', 'n']);
    assert("right"@ =~= seq!['r', 'i', 'g', 'h', 't']);
    assert("left"@ =~= seq!['l', 'e', 'f', 't']);
    assert("enter"@ =~= seq!['e', 'n', 't', 'e', 'r']);
    assert("backspace"@ =~= seq!['b', 'a', 'c', 'k', 's', 'p', 'a', 'c', 'e']);
    assert("tab"@ =~= seq!['t', 'a', 'b']);
    assert("escape"@ =~= seq!['e', 's', 'c', 'a', 'p', 'e']);
}

/// The other named keys: Enter sends CR, Backspace DEL, Tab HT, Escape
/// ESC, Home `ESC [ H`, End `ESC [ F`, PageUp `ESC [ 5 ~`, PageDown
/// `ESC [ 6 ~`; and with Control held, C, D, Z and L send the control codes
/// ETX, EOT, SUB and FF.
pub proof fn lemma_named_and_control_keys(alt: bool, platform: bool, typed: Option<Seq<u8>>)
    ensures
        key_bytes("enter"@, false, alt, platform, typed) == Some(seq![0x0du8]),
        key_bytes("backspace"@, false, alt, platform, typed) == Some(seq![0x7fu8]),
        key_bytes("tab"@, false, alt, platform, typed) == Some(seq![0x09u8]),
        key_bytes("escape"@, false, alt, platform, typed) == Some(seq![0x1bu8]),
        key_bytes("home"@, false, alt, platform, typed) == Some(seq![0x1bu8, 0x5bu8, 0x48u8]),
        key_bytes("end"@, false, alt, platform, typed) == Some(seq![0x1bu8, 0x5bu8, 0x46u8]),
        key_bytes("pageup"@, false, alt, platform, typed) == Some(seq![0x1bu8, 0x5bu8, 0x35u8, 0x7eu8]),
        key_bytes("pagedown"@, false, alt, platform, typed) == Some(
            seq![0x1bu8, 0x5bu8, 0x36u8, 0x7eu8],
        ),
        key_bytes("c"@, true, alt, platform, typed) == Some(seq![0x03u8]),
        key_bytes("d"@, true, alt, platform, typed) == Some(seq![0x04u8]),
        key_bytes("z"@, true, alt, platform, typed) == Some(seq![0x1au8]),
        key_bytes("l"@, true, alt, platform, typed) == Some(seq![0x0cu8]),
{
    reveal_strlit("enter");
    reveal_strlit("backspace");
    reveal_strlit("tab");
    reveal_strlit("escape");
    reveal_strlit("up");
    reveal_strlit("down");
    reveal_strlit("right");
    reveal_strlit("left");
    reveal_strlit("home");
    reveal_strlit("end");
    reveal_strlit("pageup");
    reveal_strlit("pagedown");
    reveal_strlit("c");
    reveal_strlit("d");
    reveal_strlit("z");
    reveal_strlit("l");
    assert("enter"@ =~= seq!['e', 'n', 't', 'e', 'r']);
    assert("backspace"@ =~= seq!['b', 'a', 'c', 'k', 's', 'p', 'a', 'c', 'e']);
    assert("tab"@ =~= seq!['t', 'a', 'b']);
    assert("escape"@ =~= seq!['e', 's', 'c', 'a', 'p', 'e']);
    assert("up"@ =~= seq!['u', 'p']);
    assert("down"@ =~= seq!['d', 'o', 'w', 'n']);
    assert("right"@ =~= seq!['r', 'i', 'g', 'h', 't']);
    assert("left"@ =~= seq!['l', 'e', 'f', 't']);
    assert("home"@ =~= seq!['h', 'o', 'm', 'e']);
    assert("end"@ =~= seq!['e', 'n', 'd']);
    assert("pageup"@ =~= seq!['p', 'a', 'g', 'e', 'u', 'p']);
    assert("pagedown"@ =~= seq!['p', 'a', 'g', 'e', 'd', 'o', 'w', 'n']);
    assert("c"@ =~= seq!['c']);
    assert("d"@ =~= seq!['d']);
    assert("z"@ =~= seq!['z']);
    assert("l"@ =~= seq!['l']);
    assert("d"@[0] != "c"@[0]);
    assert("z"@[0] != "c"@[0] && "z"@[0] != "d"@[0]);
    assert("l"@[0] != "c"@[0] && "l"@[0] != "d"@[0] && "l"@[0] != "z"@[0]);
}

} // verus!
