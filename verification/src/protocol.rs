//! The mode-negotiation protocol: a line-oriented ASCII prologue exchanged
//! once per connection.
//!
//! The client writes one newline-terminated token naming the direction
//! ("upload", "download", "bidirectional", "quit"); when the server drives
//! the clock (Download, Bidirectional) a second line carries the duration in
//! whole seconds. The server parses those lines; anything unrecognized
//! abandons the connection.
//!
//! The handshake is not versioned or authenticated: any TCP peer that speaks
//! the line protocol can control the server, including stopping it remotely
//! with "quit". That openness is part of the protocol, not an accident.

use vstd::prelude::*;

use crate::Direction;

verus! {

/// The bytes `str::trim` removes from ASCII text: space and the five
/// control characters HT, LF, VT, FF, CR.
pub open spec fn is_ascii_ws(b: u8) -> bool {
    b == 32 || (9 <= b && b <= 13)
}

/// `s` with leading ASCII whitespace removed.
pub open spec fn trim_front(s: Seq<u8>) -> Seq<u8>
    decreases s.len(),
{
    if s.len() > 0 && is_ascii_ws(s[0]) {
        trim_front(s.drop_first())
    } else {
        s
    }
}

/// `s` with trailing ASCII whitespace removed.
pub open spec fn trim_back(s: Seq<u8>) -> Seq<u8>
    decreases s.len(),
{
    if s.len() > 0 && is_ascii_ws(s[s.len() - 1]) {
        trim_back(s.drop_last())
    } else {
        s
    }
}

/// `s` with whitespace removed at both ends, as `str::trim` leaves ASCII text.
pub open spec fn trimmed(s: Seq<u8>) -> Seq<u8> {
    trim_back(trim_front(s))
}

pub open spec fn token_upload() -> Seq<u8> {
    seq![('u' as u8), ('p' as u8), ('l' as u8), ('o' as u8), ('a' as u8), ('d' as u8)]
}

pub open spec fn token_download() -> Seq<u8> {
    seq![('d' as u8), ('o' as u8), ('w' as u8), ('n' as u8), ('l' as u8), ('o' as u8), ('a' as u8), ('d' as u8)]
}

pub open spec fn token_bidirectional() -> Seq<u8> {
    seq![('b' as u8), ('i' as u8), ('d' as u8), ('i' as u8), ('r' as u8), ('e' as u8), ('c' as u8), ('t' as u8), ('i' as u8), ('o' as u8), ('n' as u8), ('a' as u8), ('l' as u8)]
}

pub open spec fn token_quit() -> Seq<u8> {
    seq![('q' as u8), ('u' as u8), ('i' as u8), ('t' as u8)]
}

/// The newline-terminated token the client sends for `d`.
pub open spec fn token_of(d: Direction) -> Seq<u8> {
    match d {
        Direction::Upload => token_upload(),
        Direction::Download => token_download(),
        Direction::Bidirectional => token_bidirectional(),
        Direction::Quit => token_quit(),
    }
}

/// What the server makes of a received mode line: the exact lower-case
/// token, surrounded by any amount of whitespace, and nothing else.
pub open spec fn spec_parse_direction(line: Seq<u8>) -> Option<Direction> {
    let t = trimmed(line);
    if t == token_upload() {
        Some(Direction::Upload)
    } else if t == token_download() {
        Some(Direction::Download)
    } else if t == token_bidirectional() {
        Some(Direction::Bidirectional)
    } else if t == token_quit() {
        Some(Direction::Quit)
    } else {
        None
    }
}

pub open spec fn is_dec_digit(b: u8) -> bool {
    ('0' as u8) <= b && b <= ('9' as u8)
}

/// All bytes are decimal digits and there is at least one.
pub open spec fn all_dec_digits(s: Seq<u8>) -> bool {
    s.len() > 0 && forall|i: int| 0 <= i < s.len() ==> is_dec_digit(#[trigger] s[i])
}

/// The number the digit string denotes, most significant digit first.
pub open spec fn dec_value(s: Seq<u8>) -> int
    decreases s.len(),
{
    if s.len() == 0 {
        0
    } else {
        dec_value(s.drop_last()) * 10 + (s.last() - ('0' as u8))
    }
}

/// An optional leading `+`, as `u64::from_str` accepts.
pub open spec fn strip_plus(s: Seq<u8>) -> Seq<u8> {
    if s.len() > 0 && s[0] == ('+' as u8) {
        s.drop_first()
    } else {
        s
    }
}

/// What `line.trim().parse::<u64>()` yields: `Some` exactly when the trimmed
/// line is an optional `+` followed by one or more digits whose value fits
/// in a `u64`.
pub open spec fn spec_parse_u64(line: Seq<u8>) -> Option<u64> {
    let t = strip_plus(trimmed(line));
    if all_dec_digits(t) && dec_value(t) <= u64::MAX {
        Some(dec_value(t) as u64)
    } else {
        None
    }
}

proof fn lemma_trim_front_window(s: Seq<u8>, lo: int)
    requires
        0 <= lo <= s.len(),
        forall|k: int| 0 <= k < lo ==> is_ascii_ws(#[trigger] s[k]),
        lo < s.len() ==> !is_ascii_ws(s[lo]),
    ensures
        trim_front(s) == s.subrange(lo, s.len() as int),
    decreases lo,
{
    if lo == 0 {
        assert(s.subrange(0, s.len() as int) =~= s);
    } else {
        lemma_trim_front_window(s.drop_first(), lo - 1);
        assert(s.drop_first().subrange(lo - 1, s.drop_first().len() as int) =~= s.subrange(
            lo,
            s.len() as int,
        ));
    }
}

proof fn lemma_trim_back_window(s: Seq<u8>, hi: int)
    requires
        0 <= hi <= s.len(),
        forall|k: int| hi <= k < s.len() ==> is_ascii_ws(#[trigger] s[k]),
        hi > 0 ==> !is_ascii_ws(s[hi - 1]),
    ensures
        trim_back(s) == s.subrange(0, hi),
    decreases s.len(),
{
    if hi == s.len() {
        if s.len() == 0 || !is_ascii_ws(s[s.len() - 1]) {
            assert(s.subrange(0, s.len() as int) =~= s);
        }
    } else {
        lemma_trim_back_window(s.drop_last(), hi);
        assert(s.drop_last().subrange(0, hi) =~= s.subrange(0, hi));
    }
}

/// The trimmed view of `s`: the window from the first to the last byte that
/// is not ASCII whitespace.
fn trimmed_slice(s: &[u8]) -> (w: &[u8])
    ensures
        w@ == trimmed(s@),
{
    let n: usize = s.len();
    let mut lo: usize = 0;
    while lo < n && is_ws_byte(s[lo])
        invariant
            0 <= lo <= n == s@.len(),
            forall|k: int| 0 <= k < lo ==> is_ascii_ws(#[trigger] s@[k]),
        decreases n - lo,
    {
        lo += 1;
    }
    proof {
        lemma_trim_front_window(s@, lo as int);
    }
    let mut hi: usize = n;
    while hi > lo && is_ws_byte(s[hi - 1])
        invariant
            lo <= hi <= n == s@.len(),
            forall|k: int| hi <= k < n ==> is_ascii_ws(#[trigger] s@[k]),
        decreases hi,
    {
        hi -= 1;
    }
    proof {
        let f = trim_front(s@);
        assert(f == s@.subrange(lo as int, n as int));
        assert(forall|k: int| hi - lo <= k < f.len() ==> is_ascii_ws(#[trigger] f[k]));
        lemma_trim_back_window(f, hi - lo);
        assert(f.subrange(0, hi - lo) =~= s@.subrange(lo as int, hi as int));
    }
    vstd::slice::slice_subrange(s, lo, hi)
}

/// Executable twin of [`is_ascii_ws`].
#[verifier::when_used_as_spec(is_ascii_ws)]
fn is_ws_byte(b: u8) -> (r: bool)
    ensures
        r == is_ascii_ws(b),
{
    b == 32 || (9 <= b && b <= 13)
}

/// Byte-for-byte equality of two slices.
fn bytes_eq(a: &[u8], b: &[u8]) -> (r: bool)
    ensures
        r == (a@ == b@),
{
    if a.len() != b.len() {
        return false;
    }
    let n: usize = a.len();
    let mut i: usize = 0;
    while i < n
        invariant
            0 <= i <= n,
            n == a@.len() == b@.len(),
            forall|k: int| 0 <= k < i ==> a@[k] == b@[k],
        decreases n - i,
    {
        if a[i] != b[i] {
            return false;
        }
        i += 1;
    }
    proof {
        assert(a@ =~= b@);
    }
    true
}

/// Parse a received mode line, as the server does on the first line of a
/// connection: the exact direction token with optional surrounding
/// whitespace, anything else rejected.
pub fn parse_direction(line: &[u8]) -> (r: Option<Direction>)
    ensures
        r == spec_parse_direction(line@),
{
    let w = trimmed_slice(line);
    let mut tok: Vec<u8> = Vec::new();
    push_token(&mut tok, Direction::Upload);
    if bytes_eq(w, tok.as_slice()) {
        return Some(Direction::Upload);
    }
    tok.clear();
    push_token(&mut tok, Direction::Download);
    if bytes_eq(w, tok.as_slice()) {
        return Some(Direction::Download);
    }
    tok.clear();
    push_token(&mut tok, Direction::Bidirectional);
    if bytes_eq(w, tok.as_slice()) {
        return Some(Direction::Bidirectional);
    }
    tok.clear();
    push_token(&mut tok, Direction::Quit);
    if bytes_eq(w, tok.as_slice()) {
        return Some(Direction::Quit);
    }
    None
}

/// Append the direction token for `d` to `out`.
fn push_token(out: &mut Vec<u8>, d: Direction)
    ensures
        final (out)@ == old(out)@ + token_of(d),
{
    let ghost pre = out@;
    match d {
        Direction::Upload => {
            out.push(('u' as u8));
            out.push(('p' as u8));
            out.push(('l' as u8));
            out.push(('o' as u8));
            out.push(('a' as u8));
            out.push(('d' as u8));
        },
        Direction::Download => {
            out.push(('d' as u8));
            out.push(('o' as u8));
            out.push(('w' as u8));
            out.push(('n' as u8));
            out.push(('l' as u8));
            out.push(('o' as u8));
            out.push(('a' as u8));
            out.push(('d' as u8));
        },
        Direction::Bidirectional => {
            out.push(('b' as u8));
            out.push(('i' as u8));
            out.push(('d' as u8));
            out.push(('i' as u8));
            out.push(('r' as u8));
            out.push(('e' as u8));
            out.push(('c' as u8));
            out.push(('t' as u8));
            out.push(('i' as u8));
            out.push(('o' as u8));
            out.push(('n' as u8));
            out.push(('a' as u8));
            out.push(('l' as u8));
        },
        Direction::Quit => {
            out.push(('q' as u8));
            out.push(('u' as u8));
            out.push(('i' as u8));
            out.push(('t' as u8));
        },
    }
    proof {
        assert(out@ =~= pre + token_of(d));
    }
}

proof fn lemma_dec_value_nonneg(s: Seq<u8>)
    requires
        forall|i: int| 0 <= i < s.len() ==> is_dec_digit(#[trigger] s[i]),
    ensures
        dec_value(s) >= 0,
    decreases s.len(),
{
    if s.len() > 0 {
        lemma_dec_value_nonneg(s.drop_last());
    }
}

/// Appending digits never lowers the value: the value of a digit string is
/// at least the value of any of its prefixes.
proof fn lemma_dec_value_prefix(s: Seq<u8>, j: int)
    requires
        0 <= j <= s.len(),
        forall|i: int| 0 <= i < s.len() ==> is_dec_digit(#[trigger] s[i]),
    ensures
        dec_value(s) >= dec_value(s.subrange(0, j)),
    decreases s.len() - j,
{
    if j == s.len() {
        assert(s.subrange(0, j) =~= s);
    } else {
        lemma_dec_value_prefix(s, j + 1);
        let p = s.subrange(0, j + 1);
        assert(p.drop_last() =~= s.subrange(0, j));
        lemma_dec_value_nonneg(p.drop_last());
    }
}

/// Parse a received duration line as the server does:
/// `line.trim().parse::<u64>()`.
pub fn parse_u64(line: &[u8]) -> (r: Option<u64>)
    ensures
        r == spec_parse_u64(line@),
{
    let w = trimmed_slice(line);
    let d: &[u8] = if w.len() > 0 && w[0] == ('+' as u8) {
        vstd::slice::slice_subrange(w, 1, w.len())
    } else {
        w
    };
    proof {
        assert(d@ =~= strip_plus(trimmed(line@)));
    }
    let n: usize = d.len();
    if n == 0 {
        return None;
    }
    let mut i: usize = 0;
    let mut v: u64 = 0;
    while i < n
        invariant
            0 <= i <= n == d@.len(),
            n > 0,
            d@ == strip_plus(trimmed(line@)),
            forall|k: int| 0 <= k < i ==> is_dec_digit(#[trigger] d@[k]),
            v == dec_value(d@.subrange(0, i as int)),
        decreases n - i,
    {
        let b = d[i];
        if b < ('0' as u8) || b > ('9' as u8) {
            proof {
                assert(!is_dec_digit(d@[i as int]));
                assert(!all_dec_digits(d@));
            }
            return None;
        }
        let dig: u64 = (b - 48) as u64;
        proof {
            assert(d@.subrange(0, (i + 1) as int).drop_last() =~= d@.subrange(0, i as int));
        }
        let next = match v.checked_mul(10) {
            Some(x) => x.checked_add(dig),
            None => None,
        };
        match next {
            Some(x) => {
                v = x;
            },
            None => {
                proof {
                    assert(dec_value(d@.subrange(0, (i + 1) as int)) > u64::MAX);
                    if all_dec_digits(d@) {
                        lemma_dec_value_prefix(d@, (i + 1) as int);
                    }
                }
                return None;
            },
        }
        i += 1;
    }
    proof {
        assert(d@.subrange(0, n as int) =~= d@);
    }
    Some(v)
}

/// The decimal digit string for `n`, most significant digit first, with no
/// sign and no leading zeros.
pub open spec fn dec_digits(n: nat) -> Seq<u8>
    decreases n,
{
    if n < 10 {
        seq![(48 + n) as u8]
    } else {
        dec_digits(n / 10).push((48 + n % 10) as u8)
    }
}

/// The digit string for `n` really denotes `n`.
pub proof fn lemma_dec_digits_value(n: nat)
    ensures
        all_dec_digits(dec_digits(n)),
        dec_value(dec_digits(n)) == n,
    decreases n,
{
    if n < 10 {
        let s = dec_digits(n);
        assert(s.drop_last() =~= Seq::<u8>::empty());
        assert(dec_value(s) == dec_value(s.drop_last()) * 10 + (s.last() - 48));
    } else {
        lemma_dec_digits_value(n / 10);
        let s = dec_digits(n);
        assert(s.drop_last() =~= dec_digits(n / 10));
        assert(dec_value(s) == dec_value(dec_digits(n / 10)) * 10 + (s.last() - 48));
        assert(forall|i: int|
            0 <= i < s.len() ==> is_dec_digit(#[trigger] s[i]) == (if i < s.len() - 1 {
                is_dec_digit(dec_digits(n / 10)[i])
            } else {
                is_dec_digit(s.last())
            }));
    }
}

/// The decimal digits of `n`, most significant first.
pub fn u64_to_dec(n: u64) -> (v: Vec<u8>)
    ensures
        v@ == dec_digits(n as nat),
    decreases n,
{
    if n < 10 {
        let mut v: Vec<u8> = Vec::new();
        v.push((48 + n) as u8);
        proof {
            assert(v@ =~= dec_digits(n as nat));
        }
        v
    } else {
        let mut v = u64_to_dec(n / 10);
        v.push((48 + (n % 10) as u8));
        proof {
            assert(v@ =~= dec_digits(n as nat));
        }
        v
    }
}

/// The first line of a client request: the direction token and a newline.
pub open spec fn request_line1(d: Direction) -> Seq<u8> {
    token_of(d).push(10)
}

/// The second line of a client request, sent only when the server drives
/// the clock: the duration in whole seconds and a newline.
pub open spec fn request_line2(secs: u64) -> Seq<u8> {
    dec_digits(secs as nat).push(10)
}

/// Everything the client writes before raw data flows.
pub open spec fn spec_request(d: Direction, secs: u64) -> Seq<u8> {
    request_line1(d) + if d.spec_needs_duration() {
        request_line2(secs)
    } else {
        Seq::<u8>::empty()
    }
}

/// Build the negotiation prologue the client sends for `d`: the direction
/// token on one line, then the duration on a second line exactly when the
/// direction needs one (`Download`, `Bidirectional`).
pub fn negotiation_request(d: Direction, duration_secs: u64) -> (r: Vec<u8>)
    ensures
        r@ == spec_request(d, duration_secs),
{
    let mut v: Vec<u8> = Vec::new();
    push_token(&mut v, d);
    v.push(10);
    if d.needs_duration() {
        let mut ds = u64_to_dec(duration_secs);
        v.append(&mut ds);
        v.push(10);
    }
    proof {
        assert(v@ =~= spec_request(d, duration_secs));
    }
    v
}

proof fn lemma_trim_line(t: Seq<u8>)
    requires
        t.len() > 0,
        !is_ascii_ws(t[0]),
        !is_ascii_ws(t[t.len() - 1]),
    ensures
        trimmed(t.push(10)) == t,
{
    let s = t.push(10);
    assert(trim_front(s) == s);
    assert(s.drop_last() =~= t);
    assert(trim_back(s) == trim_back(t));
    assert(trim_back(t) == t);
}

/// Round trip of the handshake: the request a client builds parses back to
/// exactly what the client asked for. The first line names the direction;
/// when a duration line is sent, it parses to the requested seconds, and no
/// second line exists otherwise.
pub proof fn lemma_negotiation_round_trip(d: Direction, secs: u64)
    ensures
        spec_parse_direction(request_line1(d)) == Some(d),
        spec_parse_u64(request_line2(secs)) == Some(secs),
        !d.spec_needs_duration() ==> spec_request(d, secs) == request_line1(d),
{
    let t = token_of(d);
    lemma_trim_line(t);
    lemma_dec_digits_value(secs as nat);
    let g = dec_digits(secs as nat);
    lemma_trim_line(g);
    assert(strip_plus(g) == g);
    if !d.spec_needs_duration() {
        assert(spec_request(d, secs) =~= request_line1(d));
    }
}

/// What the server decides from the negotiation prologue of one connection.
#[derive(Copy, Clone, Debug, PartialEq, Eq)]
pub enum ServerDecision {
    /// Malformed first or second line: close the connection, touch nothing.
    Abandon,
    /// The client sent "quit": raise the shutdown flag, transfer no data.
    ShutdownRequested,
    /// Run a transfer loop in `local_dir`, bounded by `deadline_secs` when
    /// the client announced a duration, and by peer close or error alone
    /// when it did not (client uploads).
    Run { local_dir: Direction, deadline_secs: Option<u64> },
}

/// The direction of the server's own transfer loop, complementary to what
/// the client asked for: the server receives an upload, sends a download,
/// and alternates on a bidirectional run.
pub open spec fn spec_complement(d: Direction) -> Direction {
    match d {
        Direction::Upload => Direction::Download,
        Direction::Download => Direction::Upload,
        Direction::Bidirectional => Direction::Bidirectional,
        Direction::Quit => Direction::Quit,
    }
}

/// Executable twin of [`spec_complement`].
#[verifier::when_used_as_spec(spec_complement)]
pub fn complement(d: Direction) -> (r: Direction)
    ensures
        r == spec_complement(d),
{
    match d {
        Direction::Upload => Direction::Download,
        Direction::Download => Direction::Upload,
        Direction::Bidirectional => Direction::Bidirectional,
        Direction::Quit => Direction::Quit,
    }
}

/// The server handler's whole decision from the lines it read.
pub open spec fn spec_server_negotiate(first: Seq<u8>, second: Option<Seq<u8>>) -> ServerDecision {
    match spec_parse_direction(first) {
        None => ServerDecision::Abandon,
        Some(Direction::Quit) => ServerDecision::ShutdownRequested,
        Some(Direction::Upload) => ServerDecision::Run {
            local_dir: Direction::Download,
            deadline_secs: None,
        },
        Some(d) => match second {
            None => ServerDecision::Abandon,
            Some(l) => match spec_parse_u64(l) {
                None => ServerDecision::Abandon,
                Some(secs) => ServerDecision::Run {
                    local_dir: spec_complement(d),
                    deadline_secs: Some(secs),
                },
            },
        },
    }
}

/// A first line that does not announce a duration decides the handshake by
/// itself: whatever second line is or is not supplied, the decision is the
/// one made from the first line alone — no second line is consumed for
/// "upload", "quit", or an unrecognized token.
pub proof fn lemma_first_line_decides_without_duration(first: Seq<u8>, second: Seq<u8>)
    requires
        match spec_parse_direction(first) {
            Some(d) => !d.spec_needs_duration(),
            None => true,
        },
    ensures
        spec_server_negotiate(first, Some(second)) == spec_server_negotiate(first, None),
{
}

/// Exactly a "quit" line requests shutdown: the server decision is
/// `ShutdownRequested` if and only if the first line trims to the quit
/// token, whatever else was read.
pub proof fn lemma_quit_requests_shutdown(first: Seq<u8>, second: Option<Seq<u8>>)
    ensures
        spec_server_negotiate(first, second) == ServerDecision::ShutdownRequested <==> trimmed(
            first,
        ) == token_quit(),
{
}

/// The server's side of the handshake, from the first line and, where one
/// was read, the second: abandon anything malformed, turn "quit" into a
/// shutdown request, and otherwise run the complementary loop — with the
/// client's deadline for Download and Bidirectional, and with no deadline
/// for Upload, where the server runs until the client closes or errors.
pub fn server_negotiate(first: &[u8], second: Option<&[u8]>) -> (r: ServerDecision)
    ensures
        r == spec_server_negotiate(first@, match second {
            Some(l) => Some(l@),
            None => None,
        }),
{
    match parse_direction(first) {
        None => ServerDecision::Abandon,
        Some(Direction::Quit) => ServerDecision::ShutdownRequested,
        Some(Direction::Upload) => ServerDecision::Run {
            local_dir: Direction::Download,
            deadline_secs: None,
        },
        Some(d) => match second {
            None => ServerDecision::Abandon,
            Some(l) => match parse_u64(l) {
                None => ServerDecision::Abandon,
                Some(secs) => ServerDecision::Run {
                    local_dir: complement(d),
                    deadline_secs: Some(secs),
                },
            },
        },
    }
}

} // verus!
