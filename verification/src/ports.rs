//! Reclaiming network ports: finding the processes that listen on a port in
//! the output of the platform's listing tool, and planning their end.

use crate::platform::Platform;
use crate::terminate::{escalation, tree_kill, KillAction, Signal, GRACE_MS};
use crate::text::{
    decimal, is_whitespace, parse_i32, parse_u32, push_decimal, read_i32, read_u32, to_chars, trim,
    trim_range, trim_start,
};
use vstd::prelude::*;

verus! {

/// The ports that development servers commonly listen on, which a full
/// shutdown reclaims.
pub open spec fn dev_ports() -> Seq<u16> {
    seq![1420u16, 1421u16, 1422u16, 1423u16, 3000u16, 5173u16, 8080u16]
}

/// The ports that a full shutdown reclaims, in the order in which it does.
pub fn cleanup_dev_ports() -> (ports: Vec<u16>)
    ensures
        ports@ == dev_ports(),
{
    let mut ports: Vec<u16> = Vec::new();
    ports.push(1420);
    ports.push(1421);
    ports.push(1422);
    ports.push(1423);
    ports.push(3000);
    ports.push(5173);
    ports.push(8080);
    assert(ports@ =~= dev_ports());
    ports
}

/// The invocation of a listing tool, as plain values.
pub struct PortQueryModel {
    pub program: Seq<char>,
    pub args: Seq<Seq<char>>,
}

/// The invocation of the tool that lists the processes with open ports.
#[derive(Debug)]
pub struct PortQuery {
    pub program: String,
    pub args: Vec<String>,
}

impl View for PortQuery {
    type V = PortQueryModel;

    open spec fn view(&self) -> PortQueryModel {
        PortQueryModel { program: self.program@, args: self.args.deep_view() }
    }
}

/// A colon and the decimal numeral of the port: how a listing names it.
pub open spec fn port_suffix(port: u16) -> Seq<char> {
    ":"@ + decimal(port as nat)
}

/// How the platform is asked which processes hold a port: `lsof -ti :PORT`
/// prints the ids of the holders one per line; `netstat -ano` prints every
/// connection as protocol, local address, foreign address, state and the
/// id of its owner.
pub open spec fn port_query(platform: Platform, port: u16) -> PortQueryModel {
    match platform {
        Platform::Posix => PortQueryModel { program: "lsof"@, args: seq!["-ti"@, port_suffix(port)] },
        Platform::Windows => PortQueryModel { program: "netstat"@, args: seq!["-ano"@] },
    }
}

fn port_suffix_string(port: u16) -> (s: String)
    ensures
        s@ == port_suffix(port),
{
    let mut s = String::from_str(":");
    push_decimal(&mut s, port as u64);
    s
}

/// Builds the invocation that lists the holders of `port`.
pub fn build_port_query(platform: Platform, port: u16) -> (query: PortQuery)
    ensures
        query@ == port_query(platform, port),
{
    let mut args: Vec<String> = Vec::new();
    match platform {
        Platform::Posix => {
            args.push(String::from_str("-ti"));
            args.push(port_suffix_string(port));
            let query = PortQuery { program: String::from_str("lsof"), args };
            assert(query.args.deep_view() =~= seq!["-ti"@, port_suffix(port)]);
            query
        },
        Platform::Windows => {
            args.push(String::from_str("-ano"));
            let query = PortQuery { program: String::from_str("netstat"), args };
            assert(query.args.deep_view() =~= seq!["-ano"@]);
            query
        },
    }
}

/// The length of the first word of `s`: the place of its first white
/// space, or its length if it has none.
pub open spec fn first_word_len(s: Seq<char>) -> int
    decreases s.len(),
{
    if s.len() == 0 || is_whitespace(s[0]) {
        0
    } else {
        1 + first_word_len(s.skip(1))
    }
}

/// The word number `k`, counted from 0, of the words that white space
/// separates in `s`; empty if `s` has no more than `k` words.
pub open spec fn word(s: Seq<char>, k: nat) -> Seq<char>
    decreases k,
{
    let rest = trim_start(s);
    let n = first_word_len(rest);
    if k == 0 {
        rest.take(n)
    } else {
        word(rest.skip(n), (k - 1) as nat)
    }
}

/// Whether `s` ends with `suffix`.
pub open spec fn ends_with(s: Seq<char>, suffix: Seq<char>) -> bool {
    suffix.len() <= s.len() && s.skip(s.len() - suffix.len()) == suffix
}

/// The word that marks a listening socket in a connection listing.
pub open spec fn listening_word() -> Seq<char> {
    "LISTENING"@
}

/// Whether a line of a connection listing shows a socket that listens on
/// `port`: its second word, the local address, ends with the port, and its
/// fourth word, the state, says so. A port that merely ends or begins like
/// `port`, or that is the port of the far side, is another port.
pub open spec fn shows_listener(port: u16, line: Seq<char>) -> bool {
    ends_with(word(line, 1), port_suffix(port)) && word(line, 3) == listening_word()
}

/// What one line of a listing asks for.
///
/// Where the tool prints one process id per line, a line that reads as a
/// positive 32-bit integer once trimmed names a holder, which is asked to
/// terminate, given the grace period, and killed. Where it prints
/// connections, a line that shows a socket listening on the port names its
/// holder in its fifth word, and the holder is ended by force. Any other
/// line asks for nothing: zero and negative numbers name no process, and
/// as targets would address groups or every process.
pub open spec fn line_plan(platform: Platform, port: u16, line: Seq<char>) -> Seq<KillAction> {
    match platform {
        Platform::Posix => match parse_i32(trim(line)) {
            Some(pid) if pid > 0 => escalation(pid, GRACE_MS),
            _ => Seq::empty(),
        },
        Platform::Windows => if shows_listener(port, line) {
            match parse_u32(word(line, 4)) {
                Some(pid) => tree_kill(pid, false),
                None => Seq::empty(),
            }
        } else {
            Seq::empty()
        },
    }
}

/// The length of the first line of `text`: the place of its first line
/// feed, or its length if it has none.
pub open spec fn first_line_len(text: Seq<char>) -> int
    decreases text.len(),
{
    if text.len() == 0 || text[0] == '\n' {
        0
    } else {
        1 + first_line_len(text.skip(1))
    }
}

/// How the holders of `port` that a listing names are ended: what each line
/// asks for, line after line. Lines end at line feeds; a carriage return
/// before the line feed is white space like any other.
pub open spec fn listing_plan(platform: Platform, port: u16, text: Seq<char>) -> Seq<KillAction>
    decreases text.len(),
{
    if text.len() == 0 {
        Seq::empty()
    } else {
        let n = first_line_len(text);
        if 0 <= n < text.len() {
            line_plan(platform, port, text.take(n)) + listing_plan(platform, port, text.skip(n + 1))
        } else {
            line_plan(platform, port, text)
        }
    }
}

/// A run without line feeds that stops at a line feed or at the end is the
/// first line.
pub proof fn lemma_first_line_len(text: Seq<char>, n: int)
    requires
        0 <= n <= text.len(),
        forall|i: int| 0 <= i < n ==> text[i] != '\n',
        n < text.len() ==> text[n] == '\n',
    ensures
        first_line_len(text) == n,
    decreases n,
{
    if n > 0 {
        lemma_first_line_len(text.skip(1), n - 1);
    }
}

/// A run without white space that stops at white space or at the end is
/// the first word.
pub proof fn lemma_first_word_len(s: Seq<char>, n: int)
    requires
        0 <= n <= s.len(),
        forall|i: int| 0 <= i < n ==> !is_whitespace(s[i]),
        n < s.len() ==> is_whitespace(s[n]),
    ensures
        first_word_len(s) == n,
    decreases n,
{
    if n > 0 {
        lemma_first_word_len(s.skip(1), n - 1);
    }
}

fn matches_at(chars: &Vec<char>, at: usize, needle: &Vec<char>) -> (same: bool)
    requires
        at + needle@.len() <= chars@.len(),
    ensures
        same == (chars@.subrange(at as int, at + needle@.len()) == needle@),
{
    let ghost window = chars@.subrange(at as int, at + needle@.len());
    let total: usize = chars.len();
    let mut j: usize = 0;
    while j < needle.len()
        invariant
            j <= needle@.len(),
            at + needle@.len() <= chars@.len() == total,
            window == chars@.subrange(at as int, at + needle@.len()),
            forall|i: int| 0 <= i < j ==> window[i] == needle@[i],
        decreases needle.len() - j,
    {
        if chars[at + j] != needle[j] {
            assert(window[j as int] != needle@[j as int]);
            return false;
        }
        j += 1;
    }
    assert(window =~= needle@);
    true
}

fn word_range(chars: &Vec<char>, from: usize, to: usize, k: usize) -> (r: (usize, usize))
    requires
        from <= to <= chars@.len(),
    ensures
        from <= r.0 <= r.1 <= to,
        chars@.subrange(r.0 as int, r.1 as int) == word(
            chars@.subrange(from as int, to as int),
            k as nat,
        ),
{
    let ghost whole = chars@.subrange(from as int, to as int);
    let mut pos: usize = from;
    let mut j: usize = 0;
    loop
        invariant
            from <= pos <= to <= chars@.len(),
            j <= k,
            whole == chars@.subrange(from as int, to as int),
            word(whole, k as nat) == word(chars@.subrange(pos as int, to as int), (k - j) as nat),
        decreases k - j,
    {
        let mut lo: usize = pos;
        while lo < to && crate::text::char_is_whitespace(chars[lo])
            invariant
                pos <= lo <= to <= chars@.len(),
                forall|i: int| pos <= i < lo ==> is_whitespace(chars@[i]),
            decreases to - lo,
        {
            lo += 1;
        }
        let mut hi: usize = lo;
        while hi < to && !crate::text::char_is_whitespace(chars[hi])
            invariant
                lo <= hi <= to <= chars@.len(),
                forall|i: int| lo <= i < hi ==> !is_whitespace(chars@[i]),
            decreases to - hi,
        {
            hi += 1;
        }
        proof {
            let rest = chars@.subrange(pos as int, to as int);
            let front = chars@.subrange(lo as int, to as int);
            assert(rest.skip(lo - pos) =~= front);
            assert forall|i: int| 0 <= i < lo - pos implies is_whitespace(rest[i]) by {
                assert(rest[i] == chars@[pos + i]);
            }
            crate::text::lemma_trim_start_skip(rest, lo - pos);
            assert(trim_start(front) == front);
            assert forall|i: int| 0 <= i < hi - lo implies !is_whitespace(front[i]) by {
                assert(front[i] == chars@[lo + i]);
            }
            lemma_first_word_len(front, hi - lo);
            assert(front.take(hi - lo) =~= chars@.subrange(lo as int, hi as int));
            assert(front.skip(hi - lo) =~= chars@.subrange(hi as int, to as int));
        }
        if j == k {
            return (lo, hi);
        }
        pos = hi;
        j += 1;
    }
}

fn range_ends_with(chars: &Vec<char>, from: usize, to: usize, suffix: &Vec<char>) -> (found: bool)
    requires
        from <= to <= chars@.len(),
    ensures
        found == ends_with(chars@.subrange(from as int, to as int), suffix@),
{
    let ghost whole = chars@.subrange(from as int, to as int);
    if suffix.len() > to - from {
        return false;
    }
    let found = matches_at(chars, to - suffix.len(), suffix);
    assert(whole.skip(whole.len() - suffix@.len()) =~= chars@.subrange(
        to - suffix@.len(),
        to as int,
    ));
    found
}

fn range_equals(chars: &Vec<char>, from: usize, to: usize, wanted: &Vec<char>) -> (same: bool)
    requires
        from <= to <= chars@.len(),
    ensures
        same == (chars@.subrange(from as int, to as int) == wanted@),
{
    if wanted.len() != to - from {
        return false;
    }
    matches_at(chars, from, wanted)
}

fn push_line_plan(
    plan: &mut Vec<KillAction>,
    platform: Platform,
    port: u16,
    suffix: &Vec<char>,
    listening: &Vec<char>,
    chars: &Vec<char>,
    from: usize,
    to: usize,
)
    requires
        from <= to <= chars@.len(),
        suffix@ == port_suffix(port),
        listening@ == listening_word(),
    ensures
        final(plan)@ == old(plan)@ + line_plan(
            platform,
            port,
            chars@.subrange(from as int, to as int),
        ),
{
    match platform {
        Platform::Posix => {
            let (lo, hi) = trim_range(chars, from, to);
            match read_i32(chars, lo, hi) {
                Some(pid) => {
                    if pid > 0 {
                        plan.push(KillAction::Signal { target: pid, signal: Signal::Terminate });
                        plan.push(KillAction::Pause { millis: GRACE_MS });
                        plan.push(KillAction::Signal { target: pid, signal: Signal::Kill });
                    }
                },
                None => {},
            }
        },
        Platform::Windows => {
            let (local_lo, local_hi) = word_range(chars, from, to, 1);
            let (state_lo, state_hi) = word_range(chars, from, to, 3);
            if range_ends_with(chars, local_lo, local_hi, suffix) && range_equals(
                chars,
                state_lo,
                state_hi,
                listening,
            ) {
                let (lo, hi) = word_range(chars, from, to, 4);
                match read_u32(chars, lo, hi) {
                    Some(pid) => {
                        if pid > 0 {
                            plan.push(KillAction::KillTree { pid, recursive: false });
                        }
                    },
                    None => {},
                }
            }
        },
    }
    assert(plan@ =~= old(plan)@ + line_plan(
        platform,
        port,
        chars@.subrange(from as int, to as int),
    ));
}

/// Plans the end of the processes that hold `port`, from what the listing
/// tool printed.
pub fn kill_port_process(platform: Platform, port: u16, listing: &str) -> (plan: Vec<KillAction>)
    ensures
        plan@ == listing_plan(platform, port, listing@),
{
    let chars = to_chars(listing);
    let suffix = to_chars(port_suffix_string(port).as_str());
    let listening = to_chars("LISTENING");
    let mut plan: Vec<KillAction> = Vec::new();
    let mut start: usize = 0;
    assert(chars@.skip(0) =~= chars@);
    while start < chars.len()
        invariant
            start <= chars@.len(),
            suffix@ == port_suffix(port),
            listening@ == listening_word(),
            listing_plan(platform, port, chars@) == plan@ + listing_plan(
                platform,
                port,
                chars@.skip(start as int),
            ),
        decreases chars.len() - start,
    {
        let ghost rest = chars@.skip(start as int);
        let mut end: usize = start;
        while end < chars.len() && chars[end] != '\n'
            invariant
                start <= end <= chars@.len(),
                forall|i: int| start <= i < end ==> chars@[i] != '\n',
            decreases chars.len() - end,
        {
            end += 1;
        }
        proof {
            assert forall|i: int| 0 <= i < end - start implies rest[i] != '\n' by {
                assert(rest[i] == chars@[start + i]);
            }
            lemma_first_line_len(rest, end - start);
            assert(rest.take(end - start) =~= chars@.subrange(start as int, end as int));
        }
        let ghost before = plan@;
        push_line_plan(&mut plan, platform, port, &suffix, &listening, &chars, start, end);
        if end < chars.len() {
            proof {
                assert(rest.skip(end - start + 1) =~= chars@.skip(end + 1));
                assert(plan@ + listing_plan(platform, port, chars@.skip(end + 1)) =~= before + (
                line_plan(platform, port, rest.take(end - start)) + listing_plan(
                    platform,
                    port,
                    chars@.skip(end + 1),
                )));
            }
            start = end + 1;
        } else {
            proof {
                assert(rest =~= chars@.subrange(start as int, end as int));
                assert(chars@.skip(end as int) =~= Seq::<char>::empty());
                assert(plan@ + listing_plan(platform, port, chars@.skip(end as int)) =~= before
                    + line_plan(platform, port, rest));
            }
            start = end;
        }
    }
    proof {
        assert(chars@.skip(start as int) =~= Seq::<char>::empty());
        assert(plan@ + Seq::<KillAction>::empty() =~= plan@);
    }
    plan
}

} // verus!
