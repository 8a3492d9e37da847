//! Media card of the right side panel — the text it derives from the player
//! state: title, remaining-time code, and the local path of `file://` art.

use vstd::prelude::*;

use vstd::string::StringSliceAdditionalSpecFns;

use crate::text::{self, decimal, decimal2};

verus! {

/// The player state the card reads.
#[derive(Debug, Clone, PartialEq, Eq, Default)]
pub struct MprisState {
    pub title: String,
    pub artist: String,
    pub playing: bool,
    pub has_player: bool,
    pub player_count: usize,
    pub player_index: usize,
    pub player_id: String,
}

/// The card's headline: the title, else the artist, else the player id;
/// `No player` without a player.
pub open spec fn title_of(s: MprisState) -> Seq<char> {
    if s.has_player {
        if s.title@.len() > 0 {
            s.title@
        } else if s.artist@.len() > 0 {
            s.artist@
        } else {
            s.player_id@
        }
    } else {
        "No player"@
    }
}

/// The title the card shows for a player state.
pub fn display_title(state: &MprisState) -> (r: &str)
    ensures
        r@ == title_of(*state),
{
    if state.has_player {
        if state.title.as_str().unicode_len() == 0 {
            if state.artist.as_str().unicode_len() == 0 {
                state.player_id.as_str()
            } else {
                state.artist.as_str()
            }
        } else {
            state.title.as_str()
        }
    } else {
        "No player"
    }
}

/// Remaining time as `-M:SS`, or `-H:MM:SS` from one hour on.
pub open spec fn timecode(us: int) -> Seq<char> {
    let total = us / 1_000_000;
    let hours = total / 3600;
    let mins = (total % 3600) / 60;
    let secs = total % 60;
    if hours > 0 {
        seq!['-'] + decimal(hours as nat) + seq![':'] + decimal2(mins as nat) + seq![':'] + decimal2(
            secs as nat,
        )
    } else {
        seq!['-'] + decimal(mins as nat) + seq![':'] + decimal2(secs as nat)
    }
}

/// The remaining-time code for a position and length (µs): none without a
/// positive length; a missing or negative position counts as zero; the
/// remainder is floored at zero.
pub open spec fn remaining_spec(position_us: Option<i64>, length_us: Option<i64>) -> Option<Seq<char>> {
    match length_us {
        Some(len) if len > 0 => {
            let pos: int = match position_us {
                Some(p) => if p > 0 { p as int } else { 0 },
                None => 0,
            };
            let remain = if len - pos > 0 { len - pos } else { 0 };
            Some(timecode(remain))
        },
        _ => None,
    }
}

fn format_remaining_us(us: i64) -> (r: String)
    requires
        us >= 0,
    ensures
        r@ == timecode(us as int),
{
    let total_secs = us / 1_000_000;
    let hours = total_secs / 3600;
    let mins = (total_secs % 3600) / 60;
    let secs = total_secs % 60;
    let mut v: Vec<char> = Vec::new();
    v.push('-');
    if hours > 0 {
        text::push_decimal(&mut v, hours as u64);
        v.push(':');
        text::push_decimal2(&mut v, mins as u64);
        v.push(':');
        text::push_decimal2(&mut v, secs as u64);
    } else {
        text::push_decimal(&mut v, mins as u64);
        v.push(':');
        text::push_decimal2(&mut v, secs as u64);
    }
    assert(v@ =~= timecode(us as int));
    text::string_of(&v)
}

/// Remaining time as `-M:SS` (or `-H:MM:SS` when ≥1h). `None` if no length.
pub fn remaining_timecode(position_us: Option<i64>, length_us: Option<i64>) -> (r: Option<String>)
    ensures
        match r {
            Some(s) => remaining_spec(position_us, length_us) == Some(s@),
            None => remaining_spec(position_us, length_us) is None,
        },
{
    let length = match length_us {
        Some(l) => {
            if l > 0 {
                l
            } else {
                return None;
            }
        },
        None => {
            return None;
        },
    };
    let position = match position_us {
        Some(p) => if p > 0 { p } else { 0 },
        None => 0,
    };
    let remain_us = if length - position > 0 { length - position } else { 0 };
    Some(format_remaining_us(remain_us))
}

/// Value of an ASCII hex digit.
pub open spec fn hex_value(b: u8) -> int {
    if 48 <= b && b <= 57 {
        b - 48
    } else if 97 <= b && b <= 102 {
        b - 87
    } else {
        b - 55
    }
}

/// An ASCII hexadecimal digit.
pub open spec fn is_hex(b: u8) -> bool {
    (48 <= b && b <= 57) || (97 <= b && b <= 102) || (65 <= b && b <= 70)
}

/// The byte a `%hi lo` escape stands for, as `u8::from_str_radix(.., 16)`
/// reads the two characters: two hex digits, or `+` and one hex digit.
pub open spec fn escape_value(hi: u8, lo: u8) -> Option<u8> {
    if hi == 43 && is_hex(lo) {
        Some(hex_value(lo) as u8)
    } else if is_hex(hi) && is_hex(lo) {
        Some((16 * hex_value(hi) + hex_value(lo)) as u8)
    } else {
        None
    }
}

/// Percent-decoding of `s` from `i`: `None` on a bad or cut-off escape.
pub open spec fn decode_from(s: Seq<u8>, i: int) -> Option<Seq<u8>>
    decreases s.len() - i,
{
    if i < 0 || i >= s.len() {
        Some(Seq::empty())
    } else if s[i] == 37 {
        if i + 2 >= s.len() {
            None
        } else {
            match escape_value(s[i + 1], s[i + 2]) {
                None => None,
                Some(v) => match decode_from(s, i + 3) {
                    Some(rest) => Some(seq![v] + rest),
                    None => None,
                },
            }
        }
    } else {
        match decode_from(s, i + 1) {
            Some(rest) => Some(seq![s[i]] + rest),
            None => None,
        }
    }
}

/// The path bytes of a `file://` URI: what follows the scheme,
/// percent-decoded. Other schemes and bad escapes give `None`.
pub open spec fn file_uri_bytes(uri: Seq<u8>) -> Option<Seq<u8>> {
    if uri.len() >= 7 && uri.take(7) == seq![102u8, 105, 108, 101, 58, 47, 47] {
        decode_from(uri, 7)
    } else {
        None
    }
}

/// Text without `%` decodes to itself.
pub proof fn lemma_decode_plain(s: Seq<u8>, i: int)
    requires
        0 <= i <= s.len(),
        forall|k: int| i <= k < s.len() ==> s[k] != 37,
    ensures
        decode_from(s, i) == Some(s.subrange(i, s.len() as int)),
    decreases s.len() - i,
{
    if i < s.len() {
        lemma_decode_plain(s, i + 1);
        assert(seq![s[i]] + s.subrange(i + 1, s.len() as int) =~= s.subrange(i, s.len() as int));
    } else {
        assert(s.subrange(i, s.len() as int) =~= Seq::<u8>::empty());
    }
}

fn hex_digit(b: u8) -> (r: Option<u8>)
    ensures
        match r {
            Some(v) => is_hex(b) && v == hex_value(b),
            None => !is_hex(b),
        },
{
    if 48 <= b && b <= 57 {
        Some(b - 48)
    } else if 97 <= b && b <= 102 {
        Some(b - 87)
    } else if 65 <= b && b <= 70 {
        Some(b - 55)
    } else {
        None
    }
}

fn escape(hi: u8, lo: u8) -> (r: Option<u8>)
    ensures
        r == escape_value(hi, lo),
{
    let l = match hex_digit(lo) {
        Some(v) => v,
        None => {
            return None;
        },
    };
    if hi == 43 {
        return Some(l);
    }
    match hex_digit(hi) {
        Some(h) => Some(16 * h + l),
        None => None,
    }
}

/// `file:///home/x/my%20dir` → the bytes of `/home/x/my dir`. Non-file
/// schemes → `None`.
pub fn file_uri_to_path(uri: &str) -> (r: Option<Vec<u8>>)
    ensures
        match r {
            Some(v) => file_uri_bytes(uri.spec_bytes()) == Some(v@),
            None => file_uri_bytes(uri.spec_bytes()) is None,
        },
{
    let s = uri.as_bytes();
    let n = s.len();
    if n < 7 || !(s[0] == 102 && s[1] == 105 && s[2] == 108 && s[3] == 101 && s[4] == 58 && s[5]
        == 47 && s[6] == 47) {
        proof {
            if n >= 7 {
                assert(s@.take(7)[0] == s@[0]);
                assert(s@.take(7)[1] == s@[1]);
                assert(s@.take(7)[2] == s@[2]);
                assert(s@.take(7)[3] == s@[3]);
                assert(s@.take(7)[4] == s@[4]);
                assert(s@.take(7)[5] == s@[5]);
                assert(s@.take(7)[6] == s@[6]);
            }
        }
        return None;
    }
    assert(s@.take(7) =~= seq![102u8, 105, 108, 101, 58, 47, 47]);
    assert(file_uri_bytes(s@) == decode_from(s@, 7));
    let mut out: Vec<u8> = Vec::new();
    let mut i: usize = 7;
    while i < n
        invariant
            7 <= i <= n,
            n == s@.len(),
            s@ == uri.spec_bytes(),
            file_uri_bytes(s@) == decode_from(s@, 7),
            decode_from(s@, 7) == match decode_from(s@, i as int) {
                Some(rest) => Some(out@ + rest),
                None => None,
            },
        decreases n - i,
    {
        let b = s[i];
        if b == 37 {
            if n - i <= 2 {
                return None;
            }
            let v = match escape(s[i + 1], s[i + 2]) {
                Some(v) => v,
                None => {
                    return None;
                },
            };
            proof {
                match decode_from(s@, i + 3) {
                    Some(rest) => {
                        assert(out@ + (seq![v] + rest) =~= out@.push(v) + rest);
                    },
                    None => {},
                }
            }
            out.push(v);
            i = i + 3;
        } else {
            proof {
                match decode_from(s@, i + 1) {
                    Some(rest) => {
                        assert(out@ + (seq![b] + rest) =~= out@.push(b) + rest);
                    },
                    None => {},
                }
            }
            out.push(b);
            i = i + 1;
        }
    }
    assert(out@ + Seq::<u8>::empty() =~= out@);
    Some(out)
}

} // verus!
