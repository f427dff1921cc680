//! Development-mode web server toolkit: a content-addressed asset naming
//! scheme, a dual-mode (filesystem or compiled-in) asset directory, and the
//! verified decision core of a watch-and-serve supervisor that rebuilds and
//! restarts a child server on file changes.

pub mod embed;
pub mod fspath;
mod hash;
pub mod include_dir;
pub mod strutil;
pub mod watchserve;

pub use crate::hash::{hash, hex_of, lemma_hex_of_len, sha256_of};

use crate::strutil::{has_suffix, last_index_of, rfind_char, split_char, split_on};
use vstd::prelude::*;
use vstd::string::StringSliceAdditionalSpecFns;

verus! {

/// The path components of a request path: the `/`-separated segments after
/// the leading one (for `/a/b` these are `a` and `b`).
pub fn path_components(path: &str) -> (r: Vec<String>)
    ensures
        r@.map_values(|s: String| s@) == split_on(path@, '/').skip(1),
{
    let mut segs = split_char(path, '/');
    proof {
        assert(segs@.len() >= 1) by {
            assert(segs@.map_values(|s: String| s@).len() == split_on(path@, '/').len());
        }
    }
    segs.remove(0);
    proof {
        assert(segs@.map_values(|s: String| s@) =~= split_on(path@, '/').skip(1));
    }
    segs
}

/// The name part of a path: everything after the last `/` (the whole path
/// when there is none).
pub open spec fn file_name_of(path: Seq<char>) -> Seq<char> {
    path.skip(last_index_of(path, '/') + 1)
}

/// Whether the path's file name has an extension: a `.` after its first
/// character.
pub open spec fn has_extension(path: Seq<char>) -> bool {
    last_index_of(file_name_of(path), '.') > 0
}

/// The extension of the path's file name: what follows the last `.`.
pub open spec fn extension_of(path: Seq<char>) -> Seq<char> {
    file_name_of(path).skip(last_index_of(file_name_of(path), '.') + 1)
}

/// The content-addressed URL of an asset file: `/assets/<hash>.<ext>`, where
/// the hash is taken over the asset's source path and the extension is kept.
pub fn asset_path(path: &str) -> (r: String)
    requires
        has_extension(path@),
    ensures
        r@ == "/assets/"@ + hex_of(sha256_of(path.spec_bytes())).take(16) + "."@
            + extension_of(path@),
{
    let n = path.unicode_len();
    let fs: usize = match rfind_char(path, '/') {
        None => 0,
        Some(k) => k + 1,
    };
    let fname = path.substring_char(fs, n);
    proof {
        assert(fname@ =~= file_name_of(path@));
    }
    let fl = fname.unicode_len();
    let dot: usize = match rfind_char(fname, '.') {
        Some(d) => d,
        None => {
            proof {
                assert(false);
            }
            0
        },
    };
    let ext = fname.substring_char(dot + 1, fl);
    proof {
        assert(ext@ =~= extension_of(path@));
    }
    let h = crate::hash::hash(path.as_bytes());
    let mut out = "/assets/".to_owned();
    out.append(h.as_str());
    out.append(".");
    out.append(ext);
    out
}

/// The URLs of a client crate's compiled artifacts, named by the hash of the
/// crate name.
pub struct ClientPaths {
    pub path_js: String,
    pub path_wasm: String,
}

/// Where a client crate's JavaScript glue and WebAssembly module are served:
/// `/js/<hash>.js` and `/js/<hash>_bg.wasm`.
pub fn client_paths(crate_name: &'static str) -> (r: ClientPaths)
    ensures
        r.path_js@ == "/js/"@ + hex_of(sha256_of(crate_name.spec_bytes())).take(16) + ".js"@,
        r.path_wasm@ == "/js/"@ + hex_of(sha256_of(crate_name.spec_bytes())).take(16)
            + "_bg.wasm"@,
{
    let h = crate::hash::hash(crate_name.as_bytes());
    let mut path_js = "/js/".to_owned();
    path_js.append(h.as_str());
    path_js.append(".js");
    let mut path_wasm = "/js/".to_owned();
    path_wasm.append(h.as_str());
    path_wasm.append("_bg.wasm");
    ClientPaths { path_js, path_wasm }
}

/// The `Content-Type` an asset is served with, decided by its path suffix;
/// `None` for a suffix this server does not know.
pub fn content_type(path: &str) -> (r: Option<&'static str>)
    ensures
        has_suffix(path@, ".css"@) ==> (r matches Some(ct) && ct@ == "text/css"@),
        !has_suffix(path@, ".css"@) && has_suffix(path@, ".js"@) ==> (r matches Some(ct)
            && ct@ == "text/javascript"@),
        !has_suffix(path@, ".css"@) && !has_suffix(path@, ".js"@) && has_suffix(
            path@,
            ".svg"@,
        ) ==> (r matches Some(ct) && ct@ == "image/svg+xml"@),
        !has_suffix(path@, ".css"@) && !has_suffix(path@, ".js"@) && !has_suffix(
            path@,
            ".svg"@,
        ) && has_suffix(path@, ".wasm"@) ==> (r matches Some(ct) && ct@
            == "application/wasm"@),
        !has_suffix(path@, ".css"@) && !has_suffix(path@, ".js"@) && !has_suffix(
            path@,
            ".svg"@,
        ) && !has_suffix(path@, ".wasm"@) ==> (r matches None),
{
    if crate::strutil::ends_with_str(path, ".css") {
        Some("text/css")
    } else if crate::strutil::ends_with_str(path, ".js") {
        Some("text/javascript")
    } else if crate::strutil::ends_with_str(path, ".svg") {
        Some("image/svg+xml")
    } else if crate::strutil::ends_with_str(path, ".wasm") {
        Some("application/wasm")
    } else {
        None
    }
}

/// How one route-pattern component relates to one request-path component:
/// `_` stands for any value, `index` stands for the empty component a
/// trailing slash leaves, anything else matches itself.
pub open spec fn spec_component_matches(pattern: Seq<char>, actual: Seq<char>) -> bool {
    if pattern == "_"@ {
        true
    } else if pattern == "index"@ {
        actual == Seq::<char>::empty()
    } else {
        actual == pattern
    }
}

/// Whether a route pattern matches a request path, component by component.
pub open spec fn spec_route_matches(pattern: Seq<Seq<char>>, actual: Seq<Seq<char>>) -> bool {
    pattern.len() == actual.len() && forall|i: int|
        0 <= i < pattern.len() ==> spec_component_matches(pattern[i], actual[i])
}

/// The route dispatch rule: a route's pattern components (from its location
/// under the routes directory) against a request's path components, with `_`
/// as a placeholder and `index` standing for the empty trailing component.
pub fn route_matches(pattern: &Vec<String>, path: &Vec<String>) -> (r: bool)
    ensures
        r == spec_route_matches(
            pattern@.map_values(|s: String| s@),
            path@.map_values(|s: String| s@),
        ),
{
    let ghost pat = pattern@.map_values(|s: String| s@);
    let ghost act = path@.map_values(|s: String| s@);
    if pattern.len() != path.len() {
        return false;
    }
    let mut i: usize = 0;
    while i < pattern.len()
        invariant
            0 <= i <= pattern.len(),
            pattern.len() == path.len(),
            pat == pattern@.map_values(|s: String| s@),
            act == path@.map_values(|s: String| s@),
            pat.len() == act.len(),
            forall|j: int| 0 <= j < i ==> spec_component_matches(pat[j], act[j]),
        decreases pattern.len() - i,
    {
        let pc = pattern[i].as_str();
        let ac = path[i].as_str();
        if strutil::str_eq(pc, "_") {
            proof {
                assert(spec_component_matches(pat[i as int], act[i as int]));
            }
        } else if strutil::str_eq(pc, "index") {
            if !ac.is_empty() {
                proof {
                    assert(!spec_component_matches(pat[i as int], act[i as int]));
                }
                return false;
            }
            proof {
                assert(act[i as int] =~= Seq::<char>::empty());
                assert(spec_component_matches(pat[i as int], act[i as int]));
            }
        } else {
            if !strutil::str_eq(pc, ac) {
                proof {
                    assert(!spec_component_matches(pat[i as int], act[i as int]));
                }
                return false;
            }
            proof {
                assert(spec_component_matches(pat[i as int], act[i as int]));
            }
        }
        i += 1;
    }
    true
}

/// The not-modified decision of the asset server: a conditional request is
/// answered `304` exactly when the asset has a content hash and the request's
/// `If-None-Match` value equals it.
pub fn etag_matches(file_hash: Option<&str>, if_none_match: Option<&str>) -> (r: bool)
    ensures
        r == (file_hash matches Some(h) && if_none_match matches Some(t) && h@ == t@),
{
    match (file_hash, if_none_match) {
        (Some(h), Some(t)) => crate::strutil::str_eq(h, t),
        _ => false,
    }
}

/// The relative location of a route's server manifest below the routes
/// directory.
pub open spec fn server_manifest_suffix() -> Seq<char> {
    "/server/Cargo.toml"@
}

/// The request path a route directory stands for: the directory's path
/// relative to the routes root, with a trailing `index` component dropped
/// (keeping the slash), so `/a/index` serves `/a/`.
pub open spec fn placeholder_path(routes: Seq<char>, manifest: Seq<char>) -> Seq<char> {
    let mid = manifest.subrange(routes.len() as int, manifest.len() - server_manifest_suffix().len());
    if has_suffix(mid, "/index"@) {
        mid.take(mid.len() - 5)
    } else {
        mid
    }
}

/// Turns the location of a route's server manifest into the request path that
/// route serves, with `_` components standing as placeholders.
pub fn path_with_placeholders(routes_path: &str, manifest_path: &str) -> (r: String)
    requires
        strutil::has_prefix(manifest_path@, routes_path@),
        has_suffix(manifest_path@, server_manifest_suffix()),
        routes_path@.len() + server_manifest_suffix().len() <= manifest_path@.len(),
    ensures
        r@ == placeholder_path(routes_path@, manifest_path@),
{
    proof {
        reveal_strlit("/server/Cargo.toml");
        assert(server_manifest_suffix().len() == 18);
    }
    let n = manifest_path.unicode_len();
    let k = routes_path.unicode_len();
    let mid = manifest_path.substring_char(k, n - 18);
    let ml = mid.unicode_len();
    if crate::strutil::ends_with_str(mid, "/index") {
        proof {
            reveal_strlit("/index");
        }
        let trimmed = mid.substring_char(0, ml - 5);
        proof {
            assert(trimmed@ =~= placeholder_path(routes_path@, manifest_path@));
        }
        trimmed.to_owned()
    } else {
        proof {
            assert(mid@ =~= placeholder_path(routes_path@, manifest_path@));
        }
        mid.to_owned()
    }
}

} // verus!
