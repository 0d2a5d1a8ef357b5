//! Deployment-mode decisions of the data plane: `X-Forwarded-*` trust, the
//! client IP a reverse proxy reports, session-cookie flags, and the port walk
//! of the TCP listener.
use vstd::prelude::*;
use crate::text::{
    chars_of, find_char, find_char_in, lemma_find_char_first, lemma_find_char_none, string_from_range,
    trim, trim_bounds,
};

verus! {

/// How the instance is reached.
#[derive(Debug, Clone, Copy, PartialEq, Eq, Structural)]
pub enum DeploymentMode {
    /// Plain HTTP on the local network.
    Lan,
    /// Directly on the internet, over TLS.
    Internet,
    /// Behind a reverse proxy that sets `X-Forwarded-*`.
    ReverseProxy,
}

impl DeploymentMode {
    /// Only a reverse-proxy deployment trusts `X-Forwarded-*` headers.
    pub fn trust_forwarded(&self) -> (r: bool)
        ensures
            r == (*self == DeploymentMode::ReverseProxy),
    {
        match self {
            DeploymentMode::ReverseProxy => true,
            _ => false,
        }
    }
}

#[derive(Debug, Clone, Copy, PartialEq, Eq, Structural)]
enum Mode {
    Trust,
    Strip,
}

/// The request headers that are removed when forwarded headers are not
/// trusted.
pub const STRIPPED_FORWARDED_HEADERS: [&'static str; 3] = [
    "x-forwarded-for",
    "x-forwarded-proto",
    "x-forwarded-host",
];

/// Layer that trusts `X-Forwarded-For` in reverse-proxy deployments and
/// strips the `X-Forwarded-*` headers in every other mode.
#[derive(Clone)]
pub struct ForwardedLayer {
    mode: Mode,
}

/// What the forwarded-header service does to one request.
#[derive(Debug, Clone, PartialEq, Eq)]
pub enum ForwardedAction {
    /// Remove the `X-Forwarded-*` headers.
    StripHeaders,
    /// Record the originating client IP written in this text on the
    /// request, when it parses as an IP address.
    AttachClientIp(String),
    /// Leave the request as it is.
    PassThrough,
}

impl ForwardedLayer {
    /// Whether this layer trusts forwarded headers.
    pub closed spec fn trusts(&self) -> bool {
        self.mode == Mode::Trust
    }

    pub fn for_mode(mode: DeploymentMode) -> (r: Self)
        ensures
            r.trusts() == (mode == DeploymentMode::ReverseProxy),
    {
        Self {
            mode: if mode.trust_forwarded() {
                Mode::Trust
            } else {
                Mode::Strip
            },
        }
    }

    pub fn trusts_forwarded(&self) -> (r: bool)
        ensures
            r == self.trusts(),
    {
        self.mode == Mode::Trust
    }

    /// Wrap `inner` in the forwarded-header service.
    pub fn layer<S>(&self, inner: S) -> (r: ForwardedService<S>)
        ensures
            r.trusts() == self.trusts(),
            r.inner() == inner,
    {
        ForwardedService { inner, mode: self.mode }
    }
}

/// Service produced by [`ForwardedLayer`].
#[derive(Clone)]
pub struct ForwardedService<S> {
    inner: S,
    mode: Mode,
}

impl<S> ForwardedService<S> {
    pub closed spec fn trusts(&self) -> bool {
        self.mode == Mode::Trust
    }

    pub closed spec fn inner(&self) -> S {
        self.inner
    }

    /// The wrapped service.
    pub fn inner_mut(&mut self) -> (r: &mut S)
        ensures
            *r == old(self).inner(),
            final(self).inner() == *final(r),
            final(self).trusts() == old(self).trusts(),
    {
        &mut self.inner
    }

    /// The action for a request whose `X-Forwarded-For` header reads `xff`
    /// (`None` when absent or not visible ASCII): strip in every untrusting
    /// mode; when trusting, attach the leftmost forwarded entry.
    pub fn action_for(&self, xff: Option<&str>) -> (r: ForwardedAction)
        ensures
            !self.trusts() ==> r is StripHeaders,
            self.trusts() ==> match xff {
                Some(raw) => r matches ForwardedAction::AttachClientIp(t) && t@
                    == forwarded_candidate(raw@),
                None => r is PassThrough,
            },
    {
        match self.mode {
            Mode::Strip => ForwardedAction::StripHeaders,
            Mode::Trust => match xff {
                Some(raw) => ForwardedAction::AttachClientIp(forwarded_ip_text(raw)),
                None => ForwardedAction::PassThrough,
            },
        }
    }
}

/// `cs` up to (not including) the first `c`; all of `cs` when there is none.
pub open spec fn before_char(cs: Seq<char>, c: char) -> Seq<char> {
    match find_char(cs, c) {
        Some(i) => cs.take(i),
        None => cs,
    }
}

/// Whether `cs` holds more than one `:` (an unbracketed IPv6 address).
pub open spec fn has_two_colons(cs: Seq<char>) -> bool {
    match find_char(cs, ':') {
        Some(i) => find_char(cs.skip(i + 1), ':') is Some,
        None => false,
    }
}

/// The text that is parsed as the originating IP of an `X-Forwarded-For`
/// value: its leftmost comma-separated entry, trimmed; for a bracketed IPv6
/// entry (`[::1]:port`, `[::1]`) the text inside the brackets; for an entry
/// with more than one `:` (a bare IPv6 address) the whole entry; otherwise
/// (`a.b.c.d` or `a.b.c.d:port`) the text before the first `:`.
pub open spec fn forwarded_candidate(raw: Seq<char>) -> Seq<char> {
    let first = trim(before_char(raw, ','));
    if first.len() > 0 && first[0] == '[' {
        before_char(first.drop_first(), ']')
    } else if has_two_colons(first) {
        first
    } else {
        before_char(first, ':')
    }
}

proof fn lemma_before_char_range(cs: Seq<char>, lo: int, hi: int, c: char, r: Option<int>)
    requires
        0 <= lo <= hi <= cs.len(),
        find_char(cs.subrange(lo, hi), c) == r,
        r matches Some(k) ==> 0 <= k < hi - lo,
    ensures
        before_char(cs.subrange(lo, hi), c) == (match r {
            Some(k) => cs.subrange(lo, lo + k),
            None => cs.subrange(lo, hi),
        }),
{
    if let Some(k) = r {
        assert(cs.subrange(lo, hi).take(k) =~= cs.subrange(lo, lo + k));
    }
}

/// Only the first entry counts (RFC 7239): whatever proxies append after
/// the first comma leaves the candidate client address unchanged.
pub proof fn lemma_later_forwarded_entries_ignored(first: Seq<char>, rest: Seq<char>)
    requires
        forall|i: int| 0 <= i < first.len() ==> first[i] != ',',
    ensures
        forwarded_candidate(first + seq![','] + rest) == forwarded_candidate(first),
{
    let whole = first + seq![','] + rest;
    assert(whole[first.len() as int] == ',');
    assert forall|j: int| 0 <= j < first.len() implies whole[j] != ',' by {
        assert(whole[j] == first[j]);
    }
    lemma_find_char_first(whole, ',', first.len() as int);
    assert(whole.take(first.len() as int) =~= first);
    lemma_find_char_none(first, ',');
}

/// The text of the leftmost IP of an `X-Forwarded-For` value (RFC 7239: the
/// first entry is the originating client, later ones are proxies); the caller
/// parses it as an IP address and ignores it when it does not parse.
pub fn forwarded_ip_text(raw: &str) -> (r: String)
    ensures
        r@ == forwarded_candidate(raw@),
{
    let v = chars_of(raw);
    assert(v@.subrange(0, v@.len() as int) =~= v@);
    let comma = find_char_in(&v, 0, v.len(), ',');
    let end = match comma {
        Some(k) => k,
        None => v.len(),
    };
    proof {
        lemma_before_char_range(v@, 0, v@.len() as int, ',', match comma {
            Some(k) => Some(k as int),
            None => None,
        });
    }
    let (a, b) = trim_bounds(&v, 0, end);
    let ghost first = v@.subrange(a as int, b as int);
    assert(first == trim(before_char(raw@, ',')));
    let (lo, hi) = if a < b && v[a] == '[' {
        assert(first.drop_first() =~= v@.subrange(a + 1, b as int));
        let close = find_char_in(&v, a + 1, b, ']');
        proof {
            lemma_before_char_range(v@, a + 1, b as int, ']', match close {
                Some(k) => Some(k - (a + 1)),
                None => None,
            });
        }
        match close {
            Some(k) => (a + 1, k),
            None => (a + 1, b),
        }
    } else {
        let colon = find_char_in(&v, a, b, ':');
        proof {
            lemma_before_char_range(v@, a as int, b as int, ':', match colon {
                Some(k) => Some(k - a),
                None => None,
            });
        }
        match colon {
            Some(k) => {
                let second = find_char_in(&v, k + 1, b, ':');
                proof {
                    assert(first.skip(k - a + 1) =~= v@.subrange(k + 1, b as int));
                }
                match second {
                    Some(_) => (a, b),
                    None => (a, k),
                }
            },
            None => (a, b),
        }
    };
    let candidate = string_from_range(&v, lo, hi);
    assert(candidate@ == forwarded_candidate(raw@));
    candidate
}

/// The `SameSite` attribute of the session cookie.
#[derive(Debug, Clone, Copy, PartialEq, Eq, Structural)]
pub enum SameSite {
    Lax,
    Strict,
}

/// Session-cookie flags for a deployment mode.
pub struct SessionCookieFlags {
    pub secure: bool,
    pub same_site: SameSite,
    pub http_only: bool,
    /// Hours of inactivity after which the session expires.
    pub inactivity_hours: i64,
}

/// LAN runs plain HTTP with `SameSite=Lax` so shared links keep working;
/// internet and reverse-proxy deployments set `Secure` and
/// `SameSite=Strict`. The cookie is always `HttpOnly` and expires after 24
/// hours of inactivity.
pub fn session_cookie_flags(mode: DeploymentMode) -> (r: SessionCookieFlags)
    ensures
        r.secure == (mode != DeploymentMode::Lan),
        r.same_site == (if mode == DeploymentMode::Lan {
            SameSite::Lax
        } else {
            SameSite::Strict
        }),
        r.http_only,
        r.inactivity_hours == 24,
{
    let (secure, same_site) = match mode {
        DeploymentMode::Lan => (false, SameSite::Lax),
        DeploymentMode::Internet | DeploymentMode::ReverseProxy => (true, SameSite::Strict),
    };
    SessionCookieFlags { secure, same_site, http_only: true, inactivity_hours: 24 }
}

/// How one bind attempt of the listener ended.
#[derive(Debug, Clone, Copy, PartialEq, Eq, Structural)]
pub enum BindOutcome {
    Bound,
    AddrInUse,
    OtherError,
}

/// What the listener does next.
#[derive(Debug, Clone, Copy, PartialEq, Eq, Structural)]
pub enum BindStep {
    /// Listening on the port just tried.
    Listening,
    /// Try this port next.
    Try(u16),
    /// Every port of the range is in use.
    Exhausted,
    /// A bind error other than "in use": give up at once.
    Fail,
}

/// Last port of the range the listener walks from `port`: ten ports above
/// it, capped at the largest port.
pub fn last_bind_port(port: u16) -> (r: u16)
    ensures
        r == (if port as int + 10 > u16::MAX as int {
            u16::MAX as int
        } else {
            port as int + 10
        }),
{
    port.saturating_add(10)
}

/// The step after trying `port` (within `start..=end`) with `outcome`:
/// success stops, "in use" moves to the next port until the range is
/// exhausted, any other error stops the walk.
pub fn next_bind_step(port: u16, end: u16, outcome: BindOutcome) -> (r: BindStep)
    requires
        port <= end,
    ensures
        outcome == BindOutcome::Bound ==> r == BindStep::Listening,
        outcome == BindOutcome::OtherError ==> r == BindStep::Fail,
        outcome == BindOutcome::AddrInUse && port < end ==> r == BindStep::Try((port + 1) as u16),
        outcome == BindOutcome::AddrInUse && port == end ==> r == BindStep::Exhausted,
{
    match outcome {
        BindOutcome::Bound => BindStep::Listening,
        BindOutcome::OtherError => BindStep::Fail,
        BindOutcome::AddrInUse => if port < end {
            BindStep::Try(port + 1)
        } else {
            BindStep::Exhausted
        },
    }
}

} // verus!
