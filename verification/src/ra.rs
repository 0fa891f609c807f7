//! RetroAchievements lookup support: the URL builder and the response
//! parser.  The HTTP transport lives outside the library and hands the
//! response body in as plain text.

use vstd::prelude::*;
use vstd::string::{StringExecFns, StringSliceAdditionalSpecFns};

verus! {

/// A game-id lookup response.
#[derive(Debug)]
pub struct GameIdResponse {
    pub success: bool,
    pub game_id: u32,
}

/// The decimal digits of `n`, most significant first.
pub open spec fn spec_decimal(n: nat) -> Seq<char>
    decreases n,
{
    if n < 10 {
        seq![spec_digit_char(n)]
    } else {
        spec_decimal(n / 10).push(spec_digit_char(n % 10))
    }
}

/// The character for one decimal digit.
pub open spec fn spec_digit_char(d: nat) -> char {
    if d == 0 {
        '0'
    } else if d == 1 {
        '1'
    } else if d == 2 {
        '2'
    } else if d == 3 {
        '3'
    } else if d == 4 {
        '4'
    } else if d == 5 {
        '5'
    } else if d == 6 {
        '6'
    } else if d == 7 {
        '7'
    } else if d == 8 {
        '8'
    } else {
        '9'
    }
}

/// Appends the decimal digits of `n` to `s`.
fn push_decimal(s: &mut String, n: u32)
    ensures
        final(s)@ == old(s)@ + spec_decimal(n as nat),
    decreases n,
{
    if n >= 10 {
        push_decimal(s, n / 10);
    }
    let d = n % 10;
    let ds: &str = if d == 0 {
        "0"
    } else if d == 1 {
        "1"
    } else if d == 2 {
        "2"
    } else if d == 3 {
        "3"
    } else if d == 4 {
        "4"
    } else if d == 5 {
        "5"
    } else if d == 6 {
        "6"
    } else if d == 7 {
        "7"
    } else if d == 8 {
        "8"
    } else {
        "9"
    };
    proof {
        reveal_strlit("0");
        reveal_strlit("1");
        reveal_strlit("2");
        reveal_strlit("3");
        reveal_strlit("4");
        reveal_strlit("5");
        reveal_strlit("6");
        reveal_strlit("7");
        reveal_strlit("8");
        reveal_strlit("9");
    }
    s.append(ds);
    proof {
        assert(s@ =~= old(s)@ + spec_decimal(n as nat));
    }
}

/// The RetroAchievements page URL for a game id.
pub fn game_url(game_id: u32) -> (r: String)
    ensures
        r@ == "https://retroachievements.org/game/"@ + spec_decimal(game_id as nat),
{
    let mut s = String::from_str("https://retroachievements.org/game/");
    push_decimal(&mut s, game_id);
    s
}

/// The byte pattern `"Success":true`.
pub open spec fn success_pat() -> Seq<u8> {
    seq![
        0x22u8, 0x53u8, 0x75u8, 0x63u8, 0x63u8, 0x65u8, 0x73u8, 0x73u8, 0x22u8, 0x3Au8, 0x74u8,
        0x72u8, 0x75u8, 0x65u8,
    ]
}

/// The byte pattern `"GameID":`.
pub open spec fn gameid_pat() -> Seq<u8> {
    seq![0x22u8, 0x47u8, 0x61u8, 0x6Du8, 0x65u8, 0x49u8, 0x44u8, 0x22u8, 0x3Au8]
}

/// `pat` occurs in `b` at position `i`.
pub open spec fn pat_at(b: Seq<u8>, pat: Seq<u8>, i: int) -> bool {
    0 <= i && i + pat.len() <= b.len() && b.subrange(i, i + pat.len()) == pat
}

/// The first occurrence of `pat` in `b` at or after `from`.
pub open spec fn find_pat(b: Seq<u8>, pat: Seq<u8>, from: int) -> Option<int>
    decreases b.len() + 1 - from,
{
    if from < 0 || from + pat.len() > b.len() {
        None
    } else if pat_at(b, pat, from) {
        Some(from)
    } else {
        find_pat(b, pat, from + 1)
    }
}

/// A byte is ASCII whitespace.
pub open spec fn is_ws(c: u8) -> bool {
    c == 0x20 || c == 0x09 || c == 0x0A || c == 0x0C || c == 0x0D
}

/// The first non-whitespace position at or after `i`.
pub open spec fn skip_ws(b: Seq<u8>, i: int) -> int
    decreases b.len() - i,
{
    if i < 0 || i >= b.len() {
        i
    } else if is_ws(b[i]) {
        skip_ws(b, i + 1)
    } else {
        i
    }
}

/// A byte is an ASCII digit.
pub open spec fn is_digit(c: u8) -> bool {
    0x30 <= c <= 0x39
}

/// The first non-digit position at or after `i`.
pub open spec fn digits_end(b: Seq<u8>, i: int) -> int
    decreases b.len() - i,
{
    if i < 0 || i >= b.len() {
        i
    } else if is_digit(b[i]) {
        digits_end(b, i + 1)
    } else {
        i
    }
}

/// The value of the digit run `b[q..e]`.
pub open spec fn digits_val(b: Seq<u8>, q: int, e: int) -> nat
    decreases e - q,
{
    if e <= q {
        0
    } else {
        digits_val(b, q, e - 1) * 10 + (b[e - 1] - 0x30) as nat
    }
}

/// The game id in a lookup response body: present when the body carries
/// `"Success":true` and a positive `"GameID"` that fits 32 bits.
pub open spec fn spec_parse_game_id(b: Seq<u8>) -> Option<u32> {
    if find_pat(b, success_pat(), 0) is None {
        None
    } else {
        match find_pat(b, gameid_pat(), 0) {
            None => None,
            Some(p) => {
                let q = skip_ws(b, p + 9);
                let e = digits_end(b, q);
                if e > q && digits_val(b, q, e) <= u32::MAX && digits_val(b, q, e) > 0 {
                    Some(digits_val(b, q, e) as u32)
                } else {
                    None
                }
            },
        }
    }
}

/// Whether `pat` occurs at position `i` of `b`.
fn pat_at_exec(b: &[u8], pat: &[u8], i: usize) -> (r: bool)
    requires
        i + pat@.len() <= b@.len(),
    ensures
        r == pat_at(b@, pat@, i as int),
{
    let blen = b.len();
    let m = pat.len();
    let mut k: usize = 0;
    while k < m
        invariant
            k <= m,
            i + m <= blen,
            blen == b@.len(),
            m == pat@.len(),
            forall|j: int| 0 <= j < k ==> b@[i + j] == pat@[j],
        decreases m - k,
    {
        if b[i + k] != pat[k] {
            proof {
                assert(b@.subrange(i as int, i as int + m as int)[k as int] != pat@[k as int]);
            }
            return false;
        }
        k = k + 1;
    }
    proof {
        assert(b@.subrange(i as int, i as int + m as int) =~= pat@);
    }
    true
}

/// The first occurrence of `pat` in `b`.
fn find_pat_exec(b: &[u8], pat: &[u8]) -> (r: Option<usize>)
    requires
        pat@.len() >= 1,
    ensures
        match r {
            Some(p) => find_pat(b@, pat@, 0) == Some(p as int) && p + pat@.len() <= b@.len(),
            None => find_pat(b@, pat@, 0) is None,
        },
{
    let n = b.len();
    let m = pat.len();
    let mut i: usize = 0;
    loop
        invariant
            i <= n,
            n == b@.len(),
            m == pat@.len(),
            m >= 1,
            find_pat(b@, pat@, i as int) == find_pat(b@, pat@, 0),
        decreases n - i,
    {
        if m > n || i > n - m {
            return None;
        }
        if pat_at_exec(b, pat, i) {
            return Some(i);
        }
        i = i + 1;
    }
}

/// Parse a game-id lookup response body of the shape
/// `{"Success":true,"GameID":12345}`.
pub fn parse_game_id_response(json: &str) -> (r: Result<Option<u32>, String>)
    ensures
        r matches Ok(o) && o == spec_parse_game_id(json.spec_bytes()),
{
    let b = json.as_bytes();
    let success: [u8; 14] = [
        0x22, 0x53, 0x75, 0x63, 0x63, 0x65, 0x73, 0x73, 0x22, 0x3A, 0x74, 0x72, 0x75, 0x65,
    ];
    let gameid: [u8; 9] = [0x22, 0x47, 0x61, 0x6D, 0x65, 0x49, 0x44, 0x22, 0x3A];
    proof {
        assert(success@ =~= success_pat());
        assert(gameid@ =~= gameid_pat());
    }
    if find_pat_exec(b, success.as_slice()).is_none() {
        return Ok(None);
    }
    let p = match find_pat_exec(b, gameid.as_slice()) {
        Some(p) => p,
        None => {
            return Ok(None);
        },
    };
    let n = b.len();
    let mut q: usize = p + 9;
    while q < n && (b[q] == 0x20 || b[q] == 0x09 || b[q] == 0x0A || b[q] == 0x0C || b[q] == 0x0D)
        invariant
            p + 9 <= q <= n,
            n == b@.len(),
            skip_ws(b@, q as int) == skip_ws(b@, p as int + 9),
        decreases n - q,
    {
        q = q + 1;
    }
    proof {
        assert(skip_ws(b@, q as int) == q as int);
    }
    let mut e: usize = q;
    let mut acc: u64 = 0;
    while e < n && 0x30 <= b[e] && b[e] <= 0x39
        invariant
            q <= e <= n,
            n == b@.len(),
            digits_end(b@, e as int) == digits_end(b@, q as int),
            acc <= 0x100000000u64,
            (digits_val(b@, q as int, e as int) <= u32::MAX ==> acc == digits_val(
                b@,
                q as int,
                e as int,
            )),
            (digits_val(b@, q as int, e as int) > u32::MAX ==> acc == 0x100000000u64),
        decreases n - e,
    {
        let d = (b[e] - 0x30) as u64;
        let next = acc * 10 + d;
        if next > u32::MAX as u64 {
            acc = 0x100000000;
        } else {
            acc = next;
        }
        proof {
            assert(digits_val(b@, q as int, e as int + 1) == digits_val(b@, q as int, e as int)
                * 10 + (b@[e as int] - 0x30));
        }
        e = e + 1;
    }
    proof {
        assert(digits_end(b@, e as int) == e as int);
    }
    if e > q && acc <= u32::MAX as u64 && acc > 0 {
        Ok(Some(acc as u32))
    } else {
        Ok(None)
    }
}

} // verus!
