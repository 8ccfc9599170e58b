//! Which addresses the content view may show.

use crate::numbers::{
    all_digits, decimal, decimal_reads_back, decimal_value, is_digit, parse_unsigned,
    parse_unsigned_up_to,
};
use crate::ready::{
    accepted_has_ready_form, ready_port, ready_url, LOOPBACK_PREFIX, TOKEN_MARK,
};
use crate::text::{
    chars_of, has_prefix, lead_len, lemma_lead_len, lemma_lead_len_is, strip_prefix,
};
use vstd::prelude::*;

verus! {

/// Whether `c` ends the part of an address that names the host and the port.
pub open spec fn ends_authority(c: char) -> bool {
    c == '/' || c == '?' || c == '#'
}

/// Whether `url` is at `site`, a scheme with a host: it begins with it, and the host ends there.
pub open spec fn is_at(url: Seq<char>, site: Seq<char>) -> bool {
    &&& has_prefix(url, site)
    &&& url.len() == site.len() || ends_authority(url[site.len() as int])
}

/// Whether `url` is a page of the shell itself.
pub open spec fn is_shell_page(url: Seq<char>) -> bool {
    is_at(url, "tauri://localhost"@) || is_at(url, "http://tauri.localhost"@)
}

/// The predicate that holds of the characters inside that part.
pub open spec fn in_authority() -> spec_fn(char) -> bool {
    |c: char| !ends_authority(c)
}

/// The port of an address on this machine, if it is one with a proper port.
pub open spec fn loopback_port(url: Seq<char>) -> Option<int> {
    if has_prefix(url, LOOPBACK_PREFIX@) {
        let rest = url.skip(LOOPBACK_PREFIX@.len() as int);
        parse_unsigned(rest.take(lead_len(rest, in_authority()) as int), u16::MAX as int)
    } else {
        None
    }
}

/// Whether the content view may show `url` while `dsh` listens on `port`: a page of the shell,
/// or, once the port is known, a page on this machine at that port.
pub open spec fn navigation_allowed(url: Seq<char>, port: Option<u16>) -> bool {
    ||| is_shell_page(url)
    ||| port is Some && loopback_port(url) == Some(port->0 as int)
}

/// Whether `url` is at `site`.
fn at_site(url: &str, site: &str) -> (r: bool)
    ensures
        r == is_at(url@, site@),
{
    match strip_prefix(url, site) {
        Some(rest) => {
            let cs: Vec<char> = chars_of(rest);
            cs.len() == 0 || cs[0] == '/' || cs[0] == '?' || cs[0] == '#'
        },
        None => false,
    }
}

/// Reads the port of an address on this machine.
fn port_on_loopback(url: &str) -> (r: Option<u16>)
    ensures
        r is Some <==> loopback_port(url@) is Some,
        r matches Some(p) ==> loopback_port(url@) == Some(p as int),
{
    let rest: &str = match strip_prefix(url, LOOPBACK_PREFIX) {
        Some(t) => t,
        None => return None,
    };
    let cs: Vec<char> = chars_of(rest);
    let n: usize = cs.len();
    let mut i: usize = 0;
    while i < n && cs[i] != '/' && cs[i] != '?' && cs[i] != '#'
        invariant
            i <= n,
            n == cs@.len(),
            cs@ == rest@,
            forall|j: int| 0 <= j < i ==> !ends_authority(#[trigger] rest@[j]),
        decreases n - i,
    {
        i = i + 1;
    }
    proof {
        assert forall|j: int| 0 <= j < i implies in_authority()(#[trigger] rest@[j]) by {}
        lemma_lead_len_is(rest@, in_authority(), i as int);
    }
    match parse_unsigned_up_to(rest.substring_char(0, i), u16::MAX as u64) {
        Some(v) => Some(v as u16),
        None => None,
    }
}

/// Whether the content view may show `url` while `dsh` listens on `port`; everything else is for
/// the system's browser.
pub fn is_allowed_navigation(url: &str, port: Option<u16>) -> (r: bool)
    ensures
        r == navigation_allowed(url@, port),
{
    if at_site(url, "tauri://localhost") || at_site(url, "http://tauri.localhost") {
        return true;
    }
    match port {
        None => false,
        Some(p) => match port_on_loopback(url) {
            Some(q) => p == q,
            None => false,
        },
    }
}

/// Until a port is known, nothing but the shell's own pages is shown.
pub proof fn nothing_remote_before_ready(url: Seq<char>)
    ensures
        navigation_allowed(url, None) == is_shell_page(url),
{
}

/// A host that only begins like the shell's own is a foreign one.
pub proof fn longer_hosts_are_foreign(site: Seq<char>, more: Seq<char>, port: Option<u16>)
    requires
        site == "tauri://localhost"@ || site == "http://tauri.localhost"@,
        more.len() > 0,
        !ends_authority(more[0]),
    ensures
        !navigation_allowed(site + more, port),
{
    reveal_strlit("tauri://localhost");
    reveal_strlit("http://tauri.localhost");
    reveal_strlit("http://127.0.0.1:");
    let url = site + more;
    assert(url[site.len() as int] == more[0]);
    assert(url[0] == site[0]);
    assert(url[7] == site[7]);
    if has_prefix(url, "tauri://localhost"@) {
        assert(url.take(17)[0] == "tauri://localhost"@[0]);
    }
    if has_prefix(url, "http://tauri.localhost"@) {
        assert(url.take(22)[0] == "http://tauri.localhost"@[0]);
    }
    if has_prefix(url, LOOPBACK_PREFIX@) {
        assert(url.take(17)[0] == LOOPBACK_PREFIX@[0]);
        assert(url.take(17)[7] == LOOPBACK_PREFIX@[7]);
    }
}

/// Shell pages are shown whatever the port.
pub proof fn shell_pages_are_always_allowed(url: Seq<char>, port: Option<u16>)
    requires
        is_shell_page(url),
    ensures
        navigation_allowed(url, port),
{
}

/// A page that is no shell page is allowed for one port at most, and only on this machine.
pub proof fn navigation_is_locked_to_one_port(url: Seq<char>, p: u16, q: u16)
    requires
        !is_shell_page(url),
        navigation_allowed(url, Some(p)),
        navigation_allowed(url, Some(q)),
    ensures
        p == q,
        has_prefix(url, LOOPBACK_PREFIX@),
{
}

/// Every page at the current port is allowed.
pub proof fn pages_at_the_port_are_allowed(port: u16, tail: Seq<char>)
    requires
        tail.len() > 0 ==> ends_authority(tail[0]),
    ensures
        navigation_allowed(LOOPBACK_PREFIX@ + decimal(port as nat) + tail, Some(port)),
{
    decimal_reads_back(port as nat);
    lemma_port_then_tail(decimal(port as nat), tail);
}

/// A ready address is allowed for the port that it names.
pub proof fn ready_address_is_allowed(url: Seq<char>, port: u16)
    requires
        ready_port(url) is Some,
        decimal_value(ready_port(url)->0) == port,
    ensures
        navigation_allowed(url, Some(port)),
{
    accepted_has_ready_form(url);
    let text = ready_port(url)->0;
    let token = choose|token: Seq<char>|
        token.len() > 0 && url == #[trigger] ready_url(text, token);
    reveal_strlit("/?token=");
    lemma_port_then_tail(text, TOKEN_MARK@ + token);
    assert(url =~= LOOPBACK_PREFIX@ + text + (TOKEN_MARK@ + token));
    assert(is_digit(text[0]));
}

proof fn lemma_port_then_tail(port: Seq<char>, tail: Seq<char>)
    requires
        port.len() > 0,
        all_digits(port),
        tail.len() > 0 ==> ends_authority(tail[0]),
    ensures
        loopback_port(LOOPBACK_PREFIX@ + port + tail) == parse_unsigned(port, u16::MAX as int),
{
    let url = LOOPBACK_PREFIX@ + port + tail;
    let k = LOOPBACK_PREFIX@.len() as int;
    assert(url.take(k) =~= LOOPBACK_PREFIX@);
    let rest = url.skip(k);
    assert(rest =~= port + tail);
    assert forall|j: int| 0 <= j < port.len() implies in_authority()(#[trigger] rest[j]) by {
        assert(rest[j] == port[j]);
        assert(is_digit(port[j]));
    }
    if tail.len() > 0 {
        assert(rest[port.len() as int] == tail[0]);
    }
    lemma_lead_len_is(rest, in_authority(), port.len() as int);
    assert(rest.take(port.len() as int) =~= port);
}

/// An address is at a site just where it is the site, and nothing more or a path, a query or a
/// fragment; the shell's own pages are those at its two sites.
pub proof fn shell_pages_are_at_two_sites(url: Seq<char>, site: Seq<char>)
    ensures
        is_at(url, site) <==> exists|tail: Seq<char>|
            {
                &&& url == #[trigger] (site + tail)
                &&& tail.len() > 0 ==> tail[0] == '/' || tail[0] == '?' || tail[0] == '#'
            },
        is_shell_page(url) <==> is_at(url, "tauri://localhost"@) || is_at(
            url,
            "http://tauri.localhost"@,
        ),
{
    if is_at(url, site) {
        let tail = url.skip(site.len() as int);
        assert(url =~= site + tail);
    }
    if exists|tail: Seq<char>|
        {
            &&& url == #[trigger] (site + tail)
            &&& tail.len() > 0 ==> tail[0] == '/' || tail[0] == '?' || tail[0] == '#'
        } {
        let tail = choose|tail: Seq<char>|
            {
                &&& url == #[trigger] (site + tail)
                &&& tail.len() > 0 ==> tail[0] == '/' || tail[0] == '?' || tail[0] == '#'
            };
        assert((site + tail).take(site.len() as int) =~= site);
    }
}

/// An address is on this machine, at a port, just where it is the fixed beginning, a numeral of
/// that port, and nothing more or a path, a query or a fragment.
pub proof fn loopback_port_stands_before_the_path(url: Seq<char>, port: int)
    ensures
        loopback_port(url) == Some(port) <==> exists|numeral: Seq<char>, tail: Seq<char>|
            {
                &&& url == #[trigger] ("http://127.0.0.1:"@ + numeral + tail)
                &&& !numeral.contains('/') && !numeral.contains('?') && !numeral.contains('#')
                &&& tail.len() > 0 ==> tail[0] == '/' || tail[0] == '?' || tail[0] == '#'
                &&& parse_unsigned(numeral, 65535) == Some(port)
            },
{
    let k = LOOPBACK_PREFIX@.len() as int;
    let rest = url.skip(k);
    if loopback_port(url) == Some(port) {
        let n = lead_len(rest, in_authority()) as int;
        lemma_lead_len(rest, in_authority());
        let numeral = rest.take(n);
        let tail = rest.skip(n);
        assert forall|i: int| 0 <= i < numeral.len() implies !ends_authority(numeral[i]) by {
            assert(in_authority()(rest[i]));
        }
        if tail.len() > 0 {
            assert(!in_authority()(rest[n]));
        }
        assert(url =~= url.take(k) + rest);
        assert(url =~= "http://127.0.0.1:"@ + numeral + tail);
    }
    if exists|numeral: Seq<char>, tail: Seq<char>|
        {
            &&& url == #[trigger] ("http://127.0.0.1:"@ + numeral + tail)
            &&& !numeral.contains('/') && !numeral.contains('?') && !numeral.contains('#')
            &&& tail.len() > 0 ==> tail[0] == '/' || tail[0] == '?' || tail[0] == '#'
            &&& parse_unsigned(numeral, 65535) == Some(port)
        } {
        let (numeral, tail) = choose|numeral: Seq<char>, tail: Seq<char>|
            {
                &&& url == #[trigger] ("http://127.0.0.1:"@ + numeral + tail)
                &&& !numeral.contains('/') && !numeral.contains('?') && !numeral.contains('#')
                &&& tail.len() > 0 ==> tail[0] == '/' || tail[0] == '?' || tail[0] == '#'
                &&& parse_unsigned(numeral, 65535) == Some(port)
            };
        assert(url.take(k) =~= LOOPBACK_PREFIX@);
        assert(rest =~= numeral + tail);
        assert forall|i: int| 0 <= i < numeral.len() implies in_authority()(#[trigger] rest[i]) by {
            assert(rest[i] == numeral[i]);
            assert(numeral.contains(numeral[i]));
        }
        if tail.len() > 0 {
            assert(rest[numeral.len() as int] == tail[0]);
        }
        lemma_lead_len_is(rest, in_authority(), numeral.len() as int);
        assert(rest.take(numeral.len() as int) =~= numeral);
    }
}

/// What is allowed: the shell's own pages whatever the port, and pages on this machine at the
/// port, once there is one; and nothing else.
pub proof fn allowed_pages_are_own_or_at_the_port(url: Seq<char>, port: u16)
    ensures
        navigation_allowed(url, None) <==> is_shell_page(url),
        navigation_allowed(url, Some(port)) <==> is_shell_page(url) || loopback_port(url) == Some(
            port as int,
        ),
{
}

} // verus!
