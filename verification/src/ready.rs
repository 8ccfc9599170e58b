//! The line by which `dsh` tells where it is listening.

use crate::numbers::{all_digits, digit, is_digit};
use crate::text::{
    blank, chars_of, first_word, first_word_is_the_first_word, first_word_is_told, first_word_of,
    has_prefix, ink, is_white_space, lead_len,
    lemma_lead_len, lemma_lead_len_is, strip_prefix, trim_start,
};
use vstd::prelude::*;

verus! {

/// What the line begins with.
pub const READY_LINE_PREFIX: &'static str = "dsh web: ";

/// What every address on this machine begins with, before the port.
pub const LOOPBACK_PREFIX: &'static str = "http://127.0.0.1:";

/// What stands between the port and the launch token.
pub const TOKEN_MARK: &'static str = "/?token=";

/// The address of a `dsh` that listens on `port` and wants `token`.
pub open spec fn ready_url(port: Seq<char>, token: Seq<char>) -> Seq<char> {
    LOOPBACK_PREFIX@ + port + TOKEN_MARK@ + token
}

/// The port of a ready address, as it is written there; `None` if `url` is no such address.
pub open spec fn ready_port(url: Seq<char>) -> Option<Seq<char>> {
    let rest = url.skip(LOOPBACK_PREFIX@.len() as int);
    let n = lead_len(rest, digit()) as int;
    if has_prefix(url, LOOPBACK_PREFIX@) && n > 0 && has_prefix(rest.skip(n), TOKEN_MARK@)
        && rest.len() > n + TOKEN_MARK@.len() {
        Some(rest.take(n))
    } else {
        None
    }
}

/// The address in a line of output: the first word after the prefix, if it is a ready address.
pub open spec fn ready_line_url(line: Seq<char>) -> Option<Seq<char>> {
    if has_prefix(line, READY_LINE_PREFIX@) {
        match first_word(line.skip(READY_LINE_PREFIX@.len() as int)) {
            Some(word) => if ready_port(word) is Some {
                Some(word)
            } else {
                None
            },
            None => None,
        }
    } else {
        None
    }
}

/// Whether `url` is a ready address.
pub fn is_ready_url(url: &str) -> (r: bool)
    ensures
        r == (ready_port(url@) is Some),
{
    let rest: &str = match strip_prefix(url, LOOPBACK_PREFIX) {
        Some(t) => t,
        None => return false,
    };
    let cs: Vec<char> = chars_of(rest);
    let len: usize = cs.len();
    let mut n: usize = 0;
    while n < len && '0' <= cs[n] && cs[n] <= '9'
        invariant
            n <= len,
            len == cs@.len(),
            cs@ == rest@,
            forall|j: int| 0 <= j < n ==> is_digit(#[trigger] rest@[j]),
        decreases len - n,
    {
        n = n + 1;
    }
    proof {
        assert forall|j: int| 0 <= j < n implies digit()(#[trigger] rest@[j]) by {}
        lemma_lead_len_is(rest@, digit(), n as int);
    }
    if n == 0 {
        return false;
    }
    match strip_prefix(rest.substring_char(n, len), TOKEN_MARK) {
        Some(token) => !token.is_empty(),
        None => false,
    }
}

/// The address in a line of output, if the line is the one that `dsh` prints when it is ready.
pub fn parse_ready_line(line: &str) -> (r: Option<String>)
    ensures
        r is Some <==> ready_line_url(line@) is Some,
        r matches Some(url) ==> ready_line_url(line@) == Some(url@),
{
    let rest: &str = match strip_prefix(line, READY_LINE_PREFIX) {
        Some(t) => t,
        None => return None,
    };
    match first_word_of(rest) {
        Some(word) => if is_ready_url(word) {
            Some(word.to_owned())
        } else {
            None
        },
        None => None,
    }
}

/// Whether `s` consists of line ends.
pub open spec fn line_ends(s: Seq<char>) -> bool {
    forall|i: int| 0 <= i < s.len() ==> (#[trigger] s[i] == '\r' || s[i] == '\n')
}

/// Whether `s` holds no white space.
pub open spec fn no_white_space(s: Seq<char>) -> bool {
    forall|i: int| 0 <= i < s.len() ==> !is_white_space(#[trigger] s[i])
}

/// Every address of the ready form is one, and its port is read.
pub proof fn ready_form_is_accepted(port: Seq<char>, token: Seq<char>)
    requires
        port.len() > 0,
        all_digits(port),
        token.len() > 0,
    ensures
        ready_port(ready_url(port, token)) == Some(port),
{
    reveal_strlit("/?token=");
    let url = ready_url(port, token);
    let rest = url.skip(LOOPBACK_PREFIX@.len() as int);
    assert(url.take(LOOPBACK_PREFIX@.len() as int) =~= LOOPBACK_PREFIX@);
    assert(rest =~= port + TOKEN_MARK@ + token);
    assert forall|j: int| 0 <= j < port.len() implies digit()(#[trigger] rest[j]) by {
        assert(rest[j] == port[j]);
    }
    assert(rest[port.len() as int] == '/');
    lemma_lead_len_is(rest, digit(), port.len() as int);
    assert(rest.take(port.len() as int) =~= port);
    assert(rest.skip(port.len() as int).take(TOKEN_MARK@.len() as int) =~= TOKEN_MARK@);
}

/// Nothing else is accepted: a ready address has a port of digits and a token.
pub proof fn accepted_has_ready_form(url: Seq<char>)
    ensures
        ready_port(url) matches Some(port) ==> {
            &&& port.len() > 0
            &&& all_digits(port)
            &&& exists|token: Seq<char>| token.len() > 0 && url == #[trigger] ready_url(port, token)
        },
{
    if let Some(port) = ready_port(url) {
        let rest = url.skip(LOOPBACK_PREFIX@.len() as int);
        lemma_lead_len(rest, digit());
        assert forall|j: int| 0 <= j < port.len() implies is_digit(#[trigger] port[j]) by {
            assert(digit()(rest[j]));
        }
        let after = rest.skip(port.len() as int);
        let token = after.skip(TOKEN_MARK@.len() as int);
        assert(after =~= after.take(TOKEN_MARK@.len() as int) + token);
        assert(rest =~= port + after);
        assert(url =~= url.take(LOOPBACK_PREFIX@.len() as int) + rest);
        assert(url =~= ready_url(port, token));
    }
}

/// What is read from a line is an address on this machine, without white space in it.
pub proof fn read_address_is_local(line: Seq<char>)
    ensures
        ready_line_url(line) matches Some(url) ==> has_prefix(url, LOOPBACK_PREFIX@)
            && no_white_space(url) && ready_port(url) is Some,
{
    if let Some(url) = ready_line_url(line) {
        let rest = line.skip(READY_LINE_PREFIX@.len() as int);
        let t = trim_start(rest);
        lemma_lead_len(t, ink());
        assert forall|i: int| 0 <= i < url.len() implies !is_white_space(#[trigger] url[i]) by {
            assert(ink()(t[i]));
        }
    }
}

/// An announced address is read, whatever follows it after white space.
pub proof fn announcement_is_read(port: Seq<char>, token: Seq<char>, suffix: Seq<char>)
    requires
        port.len() > 0,
        all_digits(port),
        token.len() > 0,
        no_white_space(token),
        suffix.len() > 0 ==> is_white_space(suffix[0]),
    ensures
        ready_line_url(READY_LINE_PREFIX@ + ready_url(port, token) + suffix) == Some(
            ready_url(port, token),
        ),
{
    reveal_strlit("http://127.0.0.1:");
    reveal_strlit("/?token=");
    let url = ready_url(port, token);
    let line = READY_LINE_PREFIX@ + url + suffix;
    ready_form_is_accepted(port, token);
    assert(line.take(READY_LINE_PREFIX@.len() as int) =~= READY_LINE_PREFIX@);
    let rest = line.skip(READY_LINE_PREFIX@.len() as int);
    assert(rest =~= url + suffix);
    assert(url[0] == 'h');
    lemma_lead_len_is(rest, blank(), 0);
    assert(rest.skip(0) =~= rest);
    let a = LOOPBACK_PREFIX@.len() as int;
    let b = a + port.len();
    let c = b + TOKEN_MARK@.len();
    assert forall|i: int| 0 <= i < url.len() implies ink()(#[trigger] rest[i]) by {
        assert(rest[i] == url[i]);
        if i < a {
            assert(url[i] == LOOPBACK_PREFIX@[i]);
        } else if i < b {
            assert(url[i] == port[i - a]);
            assert(is_digit(port[i - a]));
        } else if i < c {
            assert(url[i] == TOKEN_MARK@[i - b]);
        } else {
            assert(url[i] == token[i - c]);
        }
    }
    if suffix.len() > 0 {
        assert(rest[url.len() as int] == suffix[0]);
    }
    lemma_lead_len_is(rest, ink(), url.len() as int);
    assert(rest.take(url.len() as int) =~= url);
}

/// Line ends at the end of a line change nothing.
pub proof fn line_ends_do_not_matter(line: Seq<char>, ends: Seq<char>)
    requires
        line_ends(ends),
    ensures
        ready_line_url(line + ends) == ready_line_url(line),
{
    reveal_strlit("dsh web: ");
    let whole = line + ends;
    let k = READY_LINE_PREFIX@.len() as int;
    if has_prefix(whole, READY_LINE_PREFIX@) {
        if line.len() < k {
            let i = line.len() as int;
            assert(whole.take(k)[i] == whole[i]);
            assert(whole[i] == ends[0]);
        }
        assert(whole.take(k) =~= line.take(k));
    }
    if has_prefix(line, READY_LINE_PREFIX@) {
        assert(whole.take(k) =~= line.take(k));
        assert(whole.skip(k) =~= line.skip(k) + ends);
        lemma_first_word_extend(line.skip(k), ends);
    }
}

/// White space after a text does not change its first word.
proof fn lemma_first_word_extend(s: Seq<char>, ends: Seq<char>)
    requires
        line_ends(ends),
    ensures
        first_word(s + ends) == first_word(s),
{
    let whole = s + ends;
    let p = blank();
    lemma_lead_len(s, p);
    let n = lead_len(s, p) as int;
    assert forall|i: int| 0 <= i < ends.len() implies is_white_space(#[trigger] ends[i]) by {}
    if n == s.len() {
        assert forall|i: int| 0 <= i < whole.len() implies p(#[trigger] whole[i]) by {
            if i < n {
                assert(whole[i] == s[i]);
            } else {
                assert(whole[i] == ends[i - n]);
            }
        }
        lemma_lead_len_is(whole, p, whole.len() as int);
        assert(trim_start(whole).len() == 0);
        assert(trim_start(s).len() == 0);
    } else {
        assert forall|i: int| 0 <= i < n implies p(#[trigger] whole[i]) by {
            assert(whole[i] == s[i]);
        }
        assert(whole[n] == s[n]);
        lemma_lead_len_is(whole, p, n);
        let t = s.skip(n);
        let u = whole.skip(n);
        assert(u =~= t + ends);
        let m = lead_len(t, ink()) as int;
        lemma_lead_len(t, ink());
        assert forall|i: int| 0 <= i < m implies ink()(#[trigger] u[i]) by {
            assert(u[i] == t[i]);
        }
        if m < u.len() {
            if m < t.len() {
                assert(u[m] == t[m]);
            } else {
                assert(u[m] == ends[m - t.len()]);
            }
        }
        lemma_lead_len_is(u, ink(), m);
        assert(u.take(m) =~= t.take(m));
    }
}

/// A ready address is the fixed beginning, a port of digits, the token mark and a token, and
/// nothing else is one.
pub proof fn ready_address_is_port_and_token(url: Seq<char>, port: Seq<char>)
    ensures
        ready_port(url) == Some(port) <==> {
            &&& port.len() > 0
            &&& forall|i: int| 0 <= i < port.len() ==> '0' <= #[trigger] port[i] && port[i] <= '9'
            &&& exists|token: Seq<char>|
                token.len() > 0 && url == #[trigger] ("http://127.0.0.1:"@ + port + "/?token="@
                    + token)
        },
{
    accepted_has_ready_form(url);
    if ready_port(url) == Some(port) {
        let token = choose|token: Seq<char>|
            token.len() > 0 && url == #[trigger] ready_url(port, token);
        assert(url == "http://127.0.0.1:"@ + port + "/?token="@ + token);
        assert forall|i: int| 0 <= i < port.len() implies '0' <= #[trigger] port[i] && port[i]
            <= '9' by {
            assert(is_digit(port[i]));
        }
    }
    if {
        &&& port.len() > 0
        &&& forall|i: int| 0 <= i < port.len() ==> '0' <= #[trigger] port[i] && port[i] <= '9'
        &&& exists|token: Seq<char>|
            token.len() > 0 && url == #[trigger] ("http://127.0.0.1:"@ + port + "/?token="@ + token)
    } {
        let token = choose|token: Seq<char>|
            token.len() > 0 && url == #[trigger] ("http://127.0.0.1:"@ + port + "/?token="@
                + token);
        assert forall|i: int| 0 <= i < port.len() implies is_digit(#[trigger] port[i]) by {
            assert('0' <= port[i]);
        }
        assert(url == ready_url(port, token));
        ready_form_is_accepted(port, token);
    }
}

/// A line announces an address just where it is the fixed beginning, white space or none, the
/// address, and nothing more or white space and whatever follows it.
pub proof fn line_announces_one_address(line: Seq<char>, url: Seq<char>)
    ensures
        ready_line_url(line) == Some(url) <==> {
            &&& ready_port(url) is Some
            &&& forall|i: int| 0 <= i < url.len() ==> !is_white_space(#[trigger] url[i])
            &&& exists|gap: Seq<char>, rest: Seq<char>|
                {
                    &&& line == #[trigger] ("dsh web: "@ + gap + url + rest)
                    &&& forall|i: int| 0 <= i < gap.len() ==> is_white_space(#[trigger] gap[i])
                    &&& rest.len() > 0 ==> is_white_space(rest[0])
                }
        },
{
    reveal_strlit("dsh web: ");
    let k = READY_LINE_PREFIX@.len() as int;
    let body = line.skip(k);
    if ready_line_url(line) == Some(url) {
        first_word_is_the_first_word(body);
        let (gap, rest) = choose|gap: Seq<char>, rest: Seq<char>|
            {
                &&& body == #[trigger] (gap + url + rest)
                &&& forall|i: int| 0 <= i < gap.len() ==> is_white_space(#[trigger] gap[i])
                &&& rest.len() > 0 ==> is_white_space(rest[0])
            };
        assert(line =~= line.take(k) + body);
        assert(line =~= "dsh web: "@ + gap + url + rest);
    }
    if {
        &&& ready_port(url) is Some
        &&& forall|i: int| 0 <= i < url.len() ==> !is_white_space(#[trigger] url[i])
        &&& exists|gap: Seq<char>, rest: Seq<char>|
            {
                &&& line == #[trigger] ("dsh web: "@ + gap + url + rest)
                &&& forall|i: int| 0 <= i < gap.len() ==> is_white_space(#[trigger] gap[i])
                &&& rest.len() > 0 ==> is_white_space(rest[0])
            }
    } {
        let (gap, rest) = choose|gap: Seq<char>, rest: Seq<char>|
            {
                &&& line == #[trigger] ("dsh web: "@ + gap + url + rest)
                &&& forall|i: int| 0 <= i < gap.len() ==> is_white_space(#[trigger] gap[i])
                &&& rest.len() > 0 ==> is_white_space(rest[0])
            };
        assert(line.take(k) =~= "dsh web: "@);
        assert(body =~= gap + url + rest);
        accepted_has_ready_form(url);
        reveal_strlit("http://127.0.0.1:");
        assert(url.len() > 0);
        first_word_is_told(gap, url, rest);
    }
}

} // verus!
