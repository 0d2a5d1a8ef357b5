//! SvelteKit single-page-application serving policy: which `Cache-Control`
//! each response gets, and what the embedded and on-disk variants serve.
use vstd::prelude::*;
use crate::text::{chars_of, range_starts_with, skip_char, starts_with, strip_leading, vec_of};

verus! {

/// The `_app/immutable/` prefix under which SvelteKit's `adapter-static`
/// publishes fingerprinted build artifacts.
pub open spec fn immutable_prefix() -> Seq<char> {
    seq!['_', 'a', 'p', 'p', '/', 'i', 'm', 'm', 'u', 't', 'a', 'b', 'l', 'e', '/']
}

/// Whether a (leading-`/`-stripped) asset path is an immutable artifact.
pub open spec fn is_immutable_asset(path: Seq<char>) -> bool {
    starts_with(path, immutable_prefix())
}

/// The cache policy of an asset path: one year, immutable, for
/// `_app/immutable/…`; one hour for everything else.
pub open spec fn cache_policy(path: Seq<char>) -> Seq<char> {
    if is_immutable_asset(path) {
        "public, max-age=31536000, immutable"@
    } else {
        "public, max-age=3600"@
    }
}

fn immutable_prefix_vec() -> (v: Vec<char>)
    ensures
        v@ == immutable_prefix(),
{
    let v = vec_of(&['_', 'a', 'p', 'p', '/', 'i', 'm', 'm', 'u', 't', 'a', 'b', 'l', 'e', '/']);
    assert(v@ =~= immutable_prefix());
    v
}

/// The `Cache-Control` value for an asset path that is already stripped of
/// its leading `/`: so `_app/immutable/x.js` is immutable, but
/// `app/_app/immutable/x.js` is not.
pub fn cache_policy_for(path: &str) -> (r: &'static str)
    ensures
        r@ == cache_policy(path@),
{
    let v = chars_of(path);
    let p = immutable_prefix_vec();
    assert(v@.subrange(0, v@.len() as int) =~= v@);
    if range_starts_with(&v, 0, &p) {
        "public, max-age=31536000, immutable"
    } else {
        "public, max-age=3600"
    }
}

/// `Cache-Control` for a response of the on-disk SPA: `no-store` for a 404
/// (a transient miss must not be cached); the asset policy for
/// `_app/immutable/…`; `no-cache` for an HTML response (the SPA shell served
/// for a client-side route, so new builds show on reload); otherwise the
/// asset policy.
pub open spec fn disk_cache_control(not_found: bool, uri_path: Seq<char>, content_type: Option<
    Seq<char>,
>) -> Seq<char> {
    let path = strip_leading(uri_path, '/');
    if not_found {
        "no-store"@
    } else if is_immutable_asset(path) {
        cache_policy(path)
    } else if content_type matches Some(ct) && starts_with(
        ct,
        seq!['t', 'e', 'x', 't', '/', 'h', 't', 'm', 'l'],
    ) {
        "no-cache"@
    } else {
        cache_policy(path)
    }
}

/// The `Cache-Control` value stamped on an on-disk SPA response, from its
/// status, the request's URI path and the response's content type.
pub fn disk_cache_control_for(not_found: bool, uri_path: &str, content_type: Option<&str>) -> (r:
    &'static str)
    ensures
        r@ == disk_cache_control(not_found, uri_path@, match content_type {
            Some(ct) => Some(ct@),
            None => None,
        }),
{
    if not_found {
        return "no-store";
    }
    let v = chars_of(uri_path);
    let start = skip_char(&v, 0, '/');
    assert(v@.subrange(0, v@.len() as int) =~= v@);
    let path = crate::text::string_from_range(&v, start, v.len());
    let p = immutable_prefix_vec();
    if range_starts_with(&v, start, &p) {
        return cache_policy_for(path.as_str());
    }
    let is_html = match content_type {
        Some(ct) => {
            let cv = chars_of(ct);
            let html = vec_of(&['t', 'e', 'x', 't', '/', 'h', 't', 'm', 'l']);
            assert(html@ =~= seq!['t', 'e', 'x', 't', '/', 'h', 't', 'm', 'l']);
            assert(cv@.subrange(0, cv@.len() as int) =~= cv@);
            range_starts_with(&cv, 0, &html)
        },
        None => false,
    };
    if is_html {
        "no-cache"
    } else {
        cache_policy_for(path.as_str())
    }
}

/// What the embedded SPA answers for a request path.
pub enum EmbeddedServe {
    /// The asset itself, status 200, with the asset cache policy.
    Asset,
    /// The `index.html` shell (client-side route), status 200, `no-cache`.
    Shell,
    /// The bundle has no `index.html`: status 404, `no-store`, and this
    /// body and content type, saying that the SPA was not built.
    NotBuilt { content_type: &'static str, body: &'static str },
}

/// The embedded SPA's choice: the asset when the bundle has it, else the
/// shell when the bundle has `index.html`, else the not-built answer; with
/// the status code and `Cache-Control` value that go with it.
pub fn embedded_serve(asset_found: bool, index_found: bool, path: &str) -> (r: (
    EmbeddedServe,
    u16,
    &'static str,
))
    ensures
        asset_found ==> r.0 == EmbeddedServe::Asset && r.1 == 200 && r.2@ == cache_policy(path@),
        !asset_found && index_found ==> r.0 == EmbeddedServe::Shell && r.1 == 200 && r.2@
            == "no-cache"@,
        !asset_found && !index_found ==> r.1 == 404 && r.2@ == "no-store"@ && (r.0 matches EmbeddedServe::NotBuilt { content_type, body } && content_type@ == "text/plain"@
            && body@ == "SPA not built. Run: moon run web:build"@),
{
    if asset_found {
        (EmbeddedServe::Asset, 200, cache_policy_for(path))
    } else if index_found {
        (EmbeddedServe::Shell, 200, "no-cache")
    } else {
        (
            EmbeddedServe::NotBuilt {
                content_type: "text/plain",
                body: "SPA not built. Run: moon run web:build",
            },
            404,
            "no-store",
        )
    }
}

/// Serves a SvelteKit build from an on-disk directory, which must hold an
/// `index.html` at its root; missing assets fall back to that shell.
pub struct SvelteKitSpaDir {
    pub dir: String,
}

impl SvelteKitSpaDir {
    pub fn new(dir: String) -> (r: Self)
        ensures
            r.dir == dir,
    {
        Self { dir }
    }
}

/// Only fingerprinted artifacts are pinned: an asset path gets the
/// one-year immutable policy exactly when it begins with the 15 characters
/// `_app/immutable/`; every other path, such as `_app/version.json`, gets
/// one hour.
pub proof fn lemma_only_immutable_prefix_pinned(path: Seq<char>)
    ensures
        cache_policy(path) == "public, max-age=31536000, immutable"@ <==> (path.len() >= 15
            && path.take(15) == seq![
            '_', 'a', 'p', 'p', '/', 'i', 'm', 'm', 'u', 't', 'a', 'b', 'l', 'e', '/',
        ]),
        cache_policy(path) == "public, max-age=31536000, immutable"@ || cache_policy(path)
            == "public, max-age=3600"@,
{
    reveal_strlit("public, max-age=31536000, immutable");
    reveal_strlit("public, max-age=3600");
    assert("public, max-age=31536000, immutable"@ != "public, max-age=3600"@) by {
        assert("public, max-age=31536000, immutable"@.len() != "public, max-age=3600"@.len());
    }
}

/// An on-disk response that is found and not HTML follows the same rule on
/// its path without the leading `/`: one year, immutable, exactly under
/// `_app/immutable/`.
pub proof fn lemma_disk_only_immutable_prefix_pinned(uri_path: Seq<char>, content_type: Option<Seq<char>>)
    requires
        !(content_type matches Some(ct) && starts_with(ct, seq!['t', 'e', 'x', 't', '/', 'h', 't', 'm', 'l'])),
    ensures
        disk_cache_control(false, uri_path, content_type) == "public, max-age=31536000, immutable"@
            <==> ({
            let p = strip_leading(uri_path, '/');
            p.len() >= 15 && p.take(15) == seq![
                '_', 'a', 'p', 'p', '/', 'i', 'm', 'm', 'u', 't', 'a', 'b', 'l', 'e', '/',
            ]
        }),
{
    lemma_only_immutable_prefix_pinned(strip_leading(uri_path, '/'));
}

} // verus!
