//! Decisions of the desktop runtime: request routing for the browser-hosted
//! UI, port fallback, tick pacing and console output.
use vstd::prelude::*;
use crate::contracts::{RadarEnvelope, RadarSnapshot, PROTOCOL_VERSION};
use crate::dump_runtime::DumpRuntimeConfig;
use crate::engine::EngineConfig;
use crate::paths::{join, joined, path_from_text, path_of};
use crate::text::{
    Separator, chars_of, decimal, lemma_pieces_len, pieces, split_pieces, str_eq, u64_decimal,
    views_of,
};

verus! {

/// The address the UI server listens on.
pub const LOCALHOST_HOST: &'static str = "127.0.0.1";

/// The preferred UI port.
pub const DEFAULT_UI_PORT: u16 = 4173;

/// How many ports after the preferred one are tried.
pub const DEFAULT_UI_PORT_FALLBACK_SPAN: u16 = 10;

/// `s` without its leading run of `c`.
pub open spec fn trim_start(s: Seq<char>, c: char) -> Seq<char>
    decreases s.len(),
{
    if s.len() > 0 && s[0] == c {
        trim_start(s.drop_first(), c)
    } else {
        s
    }
}

/// The path conventions of the system the UI root lives on.
#[derive(Clone, Copy, Debug, PartialEq, Eq, Structural)]
pub enum PathStyle {
    /// Only `/` separates components.
    Unix,
    /// `/` and `\` separate components, and a path may begin with a root or
    /// a drive prefix such as `C:`.
    Windows,
}

/// What separates path components.
pub open spec fn path_separator(style: PathStyle) -> Separator {
    match style {
        PathStyle::Unix => Separator::Char('/'),
        PathStyle::Windows => Separator::Either('/', '\\'),
    }
}

/// What separates path components.
fn separator_of(style: PathStyle) -> (sep: Separator)
    ensures
        sep == path_separator(style),
{
    match style {
        PathStyle::Unix => Separator::Char('/'),
        PathStyle::Windows => Separator::Either('/', '\\'),
    }
}

/// Whether `c` is an ASCII letter.
pub open spec fn is_ascii_letter(c: char) -> bool {
    ('a' <= c && c <= 'z') || ('A' <= c && c <= 'Z')
}

/// Whether a path without leading slashes still begins with a root or a
/// prefix (a backslash, or a letter followed by `:`), as only Windows paths can.
pub open spec fn begins_with_root_or_prefix(t: Seq<char>, style: PathStyle) -> bool {
    &&& style == PathStyle::Windows
    &&& t.len() > 0
    &&& (t[0] == '\\' || (t.len() > 1 && is_ascii_letter(t[0]) && t[1] == ':'))
}

/// The segments of a request path: what lies between separators once
/// leading slashes are trimmed.
pub open spec fn path_segments(raw: Seq<char>, style: PathStyle) -> Seq<Seq<char>> {
    pieces(trim_start(raw, '/'), path_separator(style))
}

/// A segment that names something: neither empty nor `.`.
pub open spec fn is_named_segment(p: Seq<char>) -> bool {
    p.len() > 0 && p != "."@
}

/// The relative path a request path stands for, as path components; none
/// when a segment climbs with `..` or the path begins with a root or prefix.
/// Empty segments and `.` are dropped.
pub open spec fn spec_sanitize_request_path(raw: Seq<char>, style: PathStyle) -> Option<Seq<Seq<char>>> {
    let segs = path_segments(raw, style);
    if begins_with_root_or_prefix(trim_start(raw, '/'), style) {
        None
    } else if exists|i: int| 0 <= i < segs.len() && segs[i] == ".."@ {
        None
    } else {
        Some(segs.filter(|p: Seq<char>| is_named_segment(p)))
    }
}

/// Drops the leading slashes of `s`.
fn trim_leading_slashes(s: &str) -> (t: &str)
    ensures
        t@ == trim_start(s@, '/'),
{
    let v = chars_of(s);
    let mut i: usize = 0;
    assert(s@.skip(0) =~= s@);
    while i < v.len() && v[i] == '/'
        invariant
            v@ == s@,
            i <= v@.len(),
            trim_start(s@, '/') == trim_start(s@.skip(i as int), '/'),
        decreases v@.len() - i,
    {
        assert(s@.skip(i as int).drop_first() =~= s@.skip(i + 1));
        i = i + 1;
    }
    let t = s.substring_char(i, v.len());
    assert(t@ =~= s@.skip(i as int));
    t
}

/// Whether `t` begins with a root or a drive prefix under `style`.
fn has_root_or_prefix(t: &str, style: PathStyle) -> (found: bool)
    ensures
        found == begins_with_root_or_prefix(t@, style),
{
    match style {
        PathStyle::Unix => false,
        PathStyle::Windows => {
            let v = chars_of(t);
            if v.len() == 0 {
                false
            } else if v[0] == '\\' {
                true
            } else {
                v.len() > 1 && (('a' <= v[0] && v[0] <= 'z') || ('A' <= v[0] && v[0] <= 'Z')) && v[1] == ':'
            }
        },
    }
}

/// Maps a request path to a relative file path under the UI root, refusing
/// any path that climbs out of it or names a root or drive of its own.
pub fn sanitize_request_path(raw_path: &str, style: PathStyle) -> (relative: Option<Vec<String>>)
    ensures
        match relative {
            Some(parts) => spec_sanitize_request_path(raw_path@, style) == Some(views_of(parts@)),
            None => spec_sanitize_request_path(raw_path@, style) is None,
        },
{
    let trimmed = trim_leading_slashes(raw_path);
    if has_root_or_prefix(trimmed, style) {
        return None;
    }
    let segs = split_pieces(trimmed, separator_of(style));
    let ghost all = views_of(segs@);
    let mut out: Vec<String> = Vec::new();
    let mut i: usize = 0;
    assert(all.take(0) =~= Seq::<Seq<char>>::empty());
    while i < segs.len()
        invariant
            all == views_of(segs@),
            all == path_segments(raw_path@, style),
            !begins_with_root_or_prefix(trim_start(raw_path@, '/'), style),
            all.len() == segs@.len(),
            i <= segs@.len(),
            forall|j: int| 0 <= j < i ==> all[j] != ".."@,
            views_of(out@) == all.take(i as int).filter(|p: Seq<char>| is_named_segment(p)),
        decreases segs@.len() - i,
    {
        let seg = segs[i].as_str();
        proof {
            assert(all[i as int] == seg@);
            assert(all.take(i + 1) =~= all.take(i as int).push(seg@));
            all.take(i as int).lemma_filter_push(seg@, |p: Seq<char>| is_named_segment(p));
        }
        if str_eq(seg, "..") {
            return None;
        }
        if !seg.is_empty() && !str_eq(seg, ".") {
            let ghost prev = out@;
            out.push(String::from_str(seg));
            assert(views_of(out@) =~= views_of(prev).push(seg@));
        }
        i = i + 1;
    }
    assert(all.take(segs@.len() as int) =~= all);
    Some(out)
}

/// The path part of a request target: everything before the first `?`.
pub open spec fn spec_request_path(url: Seq<char>) -> Seq<char> {
    pieces(url, Separator::Char('?'))[0]
}

/// The path part of a request target.
pub fn request_path(url: &str) -> (path: String)
    ensures
        path@ == spec_request_path(url@),
{
    let parts = split_pieces(url, Separator::Char('?'));
    proof {
        lemma_pieces_len(url@, Separator::Char('?'));
    }
    assert(views_of(parts@)[0] == parts@[0]@);
    parts[0].clone()
}

/// A response that needs no file: status, body and content type.
#[derive(Clone, Debug)]
pub struct CannedResponse {
    pub status: u16,
    pub body: String,
    pub content_type: String,
}

/// How the UI server answers a request.
#[derive(Clone, Debug)]
pub enum RequestRoute {
    Canned(CannedResponse),
    /// Serve from the UI root; the relative path as components.
    Asset(Vec<String>),
}

/// Whether `r` is the given canned response.
pub open spec fn is_canned(r: RequestRoute, status: u16, body: Seq<char>, content_type: Seq<char>) -> bool {
    r matches RequestRoute::Canned(c) && c.status == status && c.body@ == body && c.content_type@ == content_type
}

/// The content type of plain-text replies.
pub open spec fn plain_text() -> Seq<char> {
    "text/plain; charset=utf-8"@
}

/// The content type of HTML replies.
pub open spec fn html_text() -> Seq<char> {
    "text/html; charset=utf-8"@
}

/// How a request is answered: anything but `GET` is not allowed; a path that
/// climbs out of the root is a bad request; otherwise the asset it names is
/// served from the UI root, or the fallback page when there is no UI root.
pub open spec fn is_route_for(
    r: RequestRoute,
    is_get: bool,
    url: Seq<char>,
    has_ui_dist: bool,
    style: PathStyle,
) -> bool {
    if !is_get {
        is_canned(r, 405, "Method Not Allowed"@, plain_text())
    } else {
        match spec_sanitize_request_path(spec_request_path(url), style) {
            None => is_canned(r, 400, "Bad Request"@, plain_text()),
            Some(rel) => if has_ui_dist {
                r matches RequestRoute::Asset(parts) && views_of(parts@) == rel
            } else {
                is_canned(r, 200, fallback_page_text(), html_text())
            },
        }
    }
}

/// A canned response.
fn canned(status: u16, body: String, content_type: &str) -> (r: RequestRoute)
    ensures
        is_canned(r, status, body@, content_type@),
{
    RequestRoute::Canned(CannedResponse { status, body, content_type: String::from_str(content_type) })
}

/// Decides how the UI server answers a request with the given method and target.
pub fn route_request(is_get: bool, url: &str, has_ui_dist: bool, style: PathStyle) -> (route: RequestRoute)
    ensures
        is_route_for(route, is_get, url@, has_ui_dist, style),
{
    if !is_get {
        return canned(405, String::from_str("Method Not Allowed"), "text/plain; charset=utf-8");
    }
    let path = request_path(url);
    match sanitize_request_path(path.as_str(), style) {
        None => canned(400, String::from_str("Bad Request"), "text/plain; charset=utf-8"),
        Some(parts) => if has_ui_dist {
            RequestRoute::Asset(parts)
        } else {
            canned(200, fallback_browser_page(), "text/html; charset=utf-8")
        },
    }
}

/// The page served when no UI build is found.
pub open spec fn fallback_page_text() -> Seq<char> {
    "<!doctype html><html><head><meta charset=\"utf-8\"><title>CS2 Webradar Extreme</title></head><body><h1>CS2 Webradar Extreme</h1><p>UI assets were not found.</p><p>Build the frontend with <code>npm --prefix ./ui run build</code> and run again, or set <code>CS2_WEBRADAR_UI_DIST</code> to a folder containing index.html.</p></body></html>"@
}

/// The page served when no UI build is found.
pub fn fallback_browser_page() -> (page: String)
    ensures
        page@ == fallback_page_text(),
{
    String::from_str(
        "<!doctype html><html><head><meta charset=\"utf-8\"><title>CS2 Webradar Extreme</title></head><body><h1>CS2 Webradar Extreme</h1><p>UI assets were not found.</p><p>Build the frontend with <code>npm --prefix ./ui run build</code> and run again, or set <code>CS2_WEBRADAR_UI_DIST</code> to a folder containing index.html.</p></body></html>",
    )
}


/// The position of the last `.` in `name`.
pub open spec fn last_dot(name: Seq<char>) -> Option<int>
    decreases name.len(),
{
    if name.len() == 0 {
        None
    } else if name.last() == '.' {
        Some(name.len() - 1)
    } else {
        last_dot(name.drop_last())
    }
}

/// The extension of a file name, as `Path::extension` gives it: what follows
/// the last `.`, unless there is none, the only one starts the name, or the
/// name is `..`.
pub open spec fn extension_of(name: Seq<char>) -> Option<Seq<char>> {
    if name == ".."@ {
        None
    } else {
        match last_dot(name) {
            Some(i) => if i == 0 {
                None
            } else {
                Some(name.skip(i + 1))
            },
            None => None,
        }
    }
}

/// The text of an optional string.
pub open spec fn opt_text(o: Option<String>) -> Option<Seq<char>> {
    match o {
        Some(s) => Some(s@),
        None => None,
    }
}

/// The extension of a file name.
pub fn extension(name: &str) -> (ext: Option<String>)
    ensures
        opt_text(ext) == extension_of(name@),
{
    if str_eq(name, "..") {
        return None;
    }
    let v = chars_of(name);
    let mut i: usize = v.len();
    assert(name@.take(i as int) =~= name@);
    while i > 0 && v[i - 1] != '.'
        invariant
            v@ == name@,
            i <= v@.len(),
            last_dot(name@) == last_dot(name@.take(i as int)),
        decreases i,
    {
        assert(name@.take(i as int).drop_last() =~= name@.take(i - 1));
        i = i - 1;
    }
    if i == 0 {
        assert(name@.take(0) =~= Seq::<char>::empty());
        return None;
    }
    assert(name@.take(i as int).last() == '.');
    if i == 1 {
        return None;
    }
    let ext = String::from_str(name.substring_char(i, v.len()));
    assert(ext@ =~= name@.skip(i as int));
    Some(ext)
}

/// The content type served for a file with the given extension.
pub open spec fn content_type_for_extension(ext: Seq<char>) -> Seq<char> {
    if ext == "html"@ {
        "text/html; charset=utf-8"@
    } else if ext == "css"@ {
        "text/css; charset=utf-8"@
    } else if ext == "js"@ {
        "text/javascript; charset=utf-8"@
    } else if ext == "json"@ {
        "application/json; charset=utf-8"@
    } else if ext == "svg"@ {
        "image/svg+xml"@
    } else if ext == "png"@ {
        "image/png"@
    } else if ext == "jpg"@ || ext == "jpeg"@ {
        "image/jpeg"@
    } else if ext == "ico"@ {
        "image/x-icon"@
    } else if ext == "woff"@ {
        "font/woff"@
    } else if ext == "woff2"@ {
        "font/woff2"@
    } else {
        "application/octet-stream"@
    }
}

/// The content type served for a file, by the extension of its name (a name
/// without extension counts as an empty one).
pub open spec fn content_type_for_name(name: Seq<char>) -> Seq<char> {
    content_type_for_extension(
        match extension_of(name) {
            Some(e) => e,
            None => Seq::empty(),
        },
    )
}

/// The content type served for a file whose final path component is `file_name`.
pub fn content_type_for_path(file_name: &str) -> (content_type: &'static str)
    ensures
        content_type@ == content_type_for_name(file_name@),
{
    let ext = match extension(file_name) {
        Some(e) => e,
        None => String::new(),
    };
    let e = ext.as_str();
    if str_eq(e, "html") {
        "text/html; charset=utf-8"
    } else if str_eq(e, "css") {
        "text/css; charset=utf-8"
    } else if str_eq(e, "js") {
        "text/javascript; charset=utf-8"
    } else if str_eq(e, "json") {
        "application/json; charset=utf-8"
    } else if str_eq(e, "svg") {
        "image/svg+xml"
    } else if str_eq(e, "png") {
        "image/png"
    } else if str_eq(e, "jpg") || str_eq(e, "jpeg") {
        "image/jpeg"
    } else if str_eq(e, "ico") {
        "image/x-icon"
    } else if str_eq(e, "woff") {
        "font/woff"
    } else if str_eq(e, "woff2") {
        "font/woff2"
    } else {
        "application/octet-stream"
    }
}

/// The file an asset request looks at, relative to the UI root: the
/// requested path (`index.html` for the root itself), and within it
/// `index.html` when that path is a directory.
pub open spec fn spec_asset_target(rel: Seq<Seq<char>>, primary_is_dir: bool) -> Seq<Seq<char>> {
    let primary = if rel.len() == 0 {
        seq!["index.html"@]
    } else {
        rel
    };
    if primary_is_dir {
        primary.push("index.html"@)
    } else {
        primary
    }
}

/// The file an asset request looks at, relative to the UI root.
pub fn asset_target(relative: &Vec<String>, primary_is_dir: bool) -> (target: Vec<String>)
    ensures
        views_of(target@) == spec_asset_target(views_of(relative@), primary_is_dir),
{
    let mut target: Vec<String> = Vec::new();
    if relative.len() == 0 {
        target.push(String::from_str("index.html"));
        assert(views_of(target@) =~= seq!["index.html"@]);
    } else {
        let mut i: usize = 0;
        while i < relative.len()
            invariant
                i <= relative@.len(),
                views_of(target@) == views_of(relative@).take(i as int),
            decreases relative@.len() - i,
        {
            let ghost prev = target@;
            let item = relative[i].clone();
            target.push(item);
            assert(views_of(target@) =~= views_of(prev).push(item@));
            assert(views_of(relative@).take(i + 1) =~= views_of(relative@).take(i as int).push(relative@[i as int]@));
            assert(views_of(target@) =~= views_of(relative@).take(i + 1));
            i = i + 1;
        }
        assert(views_of(relative@).take(relative@.len() as int) =~= views_of(relative@));
    }
    if primary_is_dir {
        let ghost prev = target@;
        target.push(String::from_str("index.html"));
        assert(views_of(target@) =~= views_of(prev).push("index.html"@));
    }
    target
}

/// How an asset request is answered.
#[derive(Clone, Debug)]
pub enum AssetReply {
    /// Serve this file (relative to the UI root) with this content type.
    File { path: Vec<String>, content_type: String },
    /// Serve the root `index.html` as HTML.
    Index,
    /// Answer `404 Not Found`.
    NotFound,
}

/// Whether a requested path has no extension (an empty path has none).
pub open spec fn lacks_extension(rel: Seq<Seq<char>>) -> bool {
    rel.len() == 0 || extension_of(rel.last()) is None
}

/// How an asset request is answered, given what the UI root holds: the
/// looked-at file when it exists; else, for a path without extension (a
/// client-side route), the root `index.html` when it exists; else not found.
pub open spec fn is_asset_reply(
    r: AssetReply,
    rel: Seq<Seq<char>>,
    primary_is_dir: bool,
    target_is_file: bool,
    index_is_file: bool,
) -> bool {
    if target_is_file {
        let target = spec_asset_target(rel, primary_is_dir);
        r matches AssetReply::File { path, content_type } && views_of(path@) == target
            && content_type@ == content_type_for_name(target.last())
    } else if lacks_extension(rel) && index_is_file {
        r is Index
    } else {
        r is NotFound
    }
}

/// Decides how an asset request is answered.
pub fn asset_reply(
    relative: &Vec<String>,
    primary_is_dir: bool,
    target_is_file: bool,
    index_is_file: bool,
) -> (reply: AssetReply)
    ensures
        is_asset_reply(reply, views_of(relative@), primary_is_dir, target_is_file, index_is_file),
{
    if target_is_file {
        let path = asset_target(relative, primary_is_dir);
        assert(views_of(path@).len() > 0);
        assert(path@.len() > 0);
        let last = path.len() - 1;
        assert(views_of(path@).last() == path@[last as int]@);
        let content_type = String::from_str(content_type_for_path(path[last].as_str()));
        return AssetReply::File { path, content_type };
    }
    let no_extension = if relative.len() == 0 {
        true
    } else {
        let last = relative.len() - 1;
        assert(views_of(relative@).last() == relative@[last as int]@);
        extension(relative[last].as_str()).is_none()
    };
    if no_extension && index_is_file {
        AssetReply::Index
    } else {
        AssetReply::NotFound
    }
}

/// The ports tried for the UI server, in order: the preferred one and the
/// next `span` ones, stopping at the last port number.
pub open spec fn spec_candidate_ports(preferred: u16, span: u16) -> Seq<u16> {
    let n = if span <= u16::MAX - preferred {
        span + 1
    } else {
        u16::MAX - preferred + 1
    };
    Seq::new(n as nat, |k: int| (preferred + k) as u16)
}

/// The ports tried for the UI server, in order.
pub fn candidate_ports(preferred_port: u16, fallback_span: u16) -> (ports: Vec<u16>)
    ensures
        ports@ == spec_candidate_ports(preferred_port, fallback_span),
{
    let mut ports: Vec<u16> = Vec::new();
    let mut offset: u16 = 0;
    loop
        invariant_except_break
            ports@ == Seq::new(offset as nat, |k: int| (preferred_port + k) as u16),
        invariant
            offset <= fallback_span,
            offset as int <= u16::MAX - preferred_port + 1,
        ensures
            ports@ == spec_candidate_ports(preferred_port, fallback_span),
        decreases fallback_span - offset,
    {
        match preferred_port.checked_add(offset) {
            Some(port) => {
                ports.push(port);
                assert(ports@ =~= Seq::new((offset + 1) as nat, |k: int| (preferred_port + k) as u16));
            },
            None => {
                assert(ports@ =~= spec_candidate_ports(preferred_port, fallback_span));
                break;
            },
        }
        if offset == fallback_span {
            assert(ports@ =~= spec_candidate_ports(preferred_port, fallback_span));
            break;
        }
        offset = offset + 1;
    }
    ports
}

/// The warning logged when the UI server could not bind `port`.
pub open spec fn bind_retry_text(port: u16) -> Seq<char> {
    "unable to bind UI server on "@ + LOCALHOST_HOST@ + ":"@ + decimal(port as nat)
        + ", trying next fallback port"@
}

/// The warning logged when the UI server could not bind `port`.
pub fn bind_retry_warning(port: u16) -> (text: String)
    ensures
        text@ == bind_retry_text(port),
{
    let mut text = String::from_str("unable to bind UI server on ");
    text.append(LOCALHOST_HOST);
    text.append(":");
    let digits = u64_decimal(port as u64);
    text.append(digits.as_str());
    text.append(", trying next fallback port");
    text
}

/// The warning logged when the UI server bound `bound` in place of the
/// preferred port; none when it bound the preferred port itself.
pub open spec fn fallback_port_text(preferred: u16, bound: u16) -> Option<Seq<char>> {
    if bound == preferred {
        None
    } else {
        Some(
            "default UI port "@ + decimal(preferred as nat) + " was unavailable; using fallback port "@
                + decimal(bound as nat),
        )
    }
}

/// The warning logged when the UI server bound a fallback port.
pub fn fallback_port_warning(preferred_port: u16, bound_port: u16) -> (text: Option<String>)
    ensures
        opt_text(text) == fallback_port_text(preferred_port, bound_port),
{
    if bound_port == preferred_port {
        return None;
    }
    let mut text = String::from_str("default UI port ");
    let p = u64_decimal(preferred_port as u64);
    text.append(p.as_str());
    text.append(" was unavailable; using fallback port ");
    let b = u64_decimal(bound_port as u64);
    text.append(b.as_str());
    Some(text)
}

/// The last port of the range tried, stopping at the last port number.
pub open spec fn range_end(preferred: u16, span: u16) -> u16 {
    if preferred + span > u16::MAX {
        u16::MAX
    } else {
        (preferred + span) as u16
    }
}

/// The error reported when no port of the range could be bound: the range
/// and the last binding error (or `unknown error` when none was seen).
pub open spec fn bind_failure_text(preferred: u16, span: u16, last_error: Option<Seq<char>>) -> Seq<char> {
    "unable to bind localhost UI server in range "@ + decimal(preferred as nat) + "-"@ + decimal(
        range_end(preferred, span) as nat,
    ) + " ("@ + match last_error {
        Some(e) => e,
        None => "unknown error"@,
    } + ")"@
}

/// The error reported when no port of the range could be bound.
pub fn bind_failure_message(preferred_port: u16, fallback_span: u16, last_error: Option<String>) -> (text: String)
    ensures
        text@ == bind_failure_text(preferred_port, fallback_span, opt_text(last_error)),
{
    let mut text = String::from_str("unable to bind localhost UI server in range ");
    let first = u64_decimal(preferred_port as u64);
    text.append(first.as_str());
    text.append("-");
    let last = u64_decimal(preferred_port.saturating_add(fallback_span) as u64);
    text.append(last.as_str());
    text.append(" (");
    match last_error {
        Some(e) => text.append(e.as_str()),
        None => text.append("unknown error"),
    }
    text.append(")");
    text
}

/// The milliseconds between ticks at `rate_hz` ticks per second: a zero rate
/// counts as one, and the interval is at least one millisecond.
pub open spec fn spec_tick_interval_ms(rate_hz: u16) -> u16 {
    let rate: u16 = if rate_hz < 1 {
        1
    } else {
        rate_hz
    };
    let t: u16 = 1000u16 / rate;
    if t < 1 {
        1
    } else {
        t
    }
}

/// The milliseconds between ticks at `rate_hz` ticks per second.
pub fn tick_interval_ms(rate_hz: u16) -> (ms: u16)
    ensures
        ms == spec_tick_interval_ms(rate_hz),
        1 <= ms <= 1000,
{
    let rate: u16 = if rate_hz < 1 {
        1
    } else {
        rate_hz
    };
    let t: u16 = 1000u16 / rate;
    if t < 1 {
        1
    } else {
        t
    }
}

/// The engine settings of a run at `rate_hz` ticks per second.
pub fn engine_config_for_rate(rate_hz: u16) -> (config: EngineConfig)
    ensures
        config.tick_interval_ms == spec_tick_interval_ms(rate_hz),
        config.interpolation_window_ms == 100,
        config.invalid_frame_threshold == 8,
{
    EngineConfig {
        tick_interval_ms: tick_interval_ms(rate_hz),
        interpolation_window_ms: 100,
        invalid_frame_threshold: 8,
    }
}

/// The address of the browser-hosted UI on `port`.
pub fn browser_url(port: u16) -> (url: String)
    ensures
        url@ == "http://"@ + LOCALHOST_HOST@ + ":"@ + decimal(port as nat),
{
    let mut url = String::from_str("http://");
    url.append(LOCALHOST_HOST);
    url.append(":");
    let digits = u64_decimal(port as u64);
    url.append(digits.as_str());
    url
}

/// How `Display` writes a `bool`.
pub open spec fn bool_text(b: bool) -> Seq<char> {
    if b {
        "true"@
    } else {
        "false"@
    }
}

/// The console line printed for a snapshot when JSON streaming is off.
pub open spec fn summary_text(s: RadarSnapshot) -> Seq<char> {
    "tick="@ + decimal(s.tick as nat) + " map="@ + s.match_state.map_name@ + " players="@
        + decimal(s.players@.len()) + " bomb="@ + bool_text(s.bomb is Some)
}

/// The console line printed for a snapshot when JSON streaming is off.
pub fn snapshot_summary(snapshot: &RadarSnapshot) -> (line: String)
    ensures
        line@ == summary_text(*snapshot),
{
    let mut line = String::from_str("tick=");
    let tick = u64_decimal(snapshot.tick);
    line.append(tick.as_str());
    line.append(" map=");
    line.append(snapshot.match_state.map_name.as_str());
    line.append(" players=");
    let players = u64_decimal(snapshot.players.len() as u64);
    line.append(players.as_str());
    line.append(" bomb=");
    if snapshot.bomb.is_some() {
        line.append("true");
    } else {
        line.append("false");
    }
    line
}

/// A path relative to the directory of the program's manifest.
pub open spec fn spec_manifest_join(manifest_dir: Seq<char>, relative: Seq<char>) -> std::path::PathBuf {
    joined(path_from_text(manifest_dir), relative)
}

/// A path relative to the directory of the program's manifest, `manifest_dir`.
pub fn manifest_join(manifest_dir: &str, relative: &str) -> (path: std::path::PathBuf)
    ensures
        path == spec_manifest_join(manifest_dir@, relative@),
{
    let base = path_of(manifest_dir);
    join(&base, relative)
}

/// Where the bundled dump pack lies, relative to the manifest directory.
pub open spec fn embedded_pack_location() -> Seq<char> {
    "../../../data/dumps/embedded"@
}

/// The directory of the bundled dump pack, for a program whose manifest
/// lies in `manifest_dir`.
pub fn embedded_dump_dir(manifest_dir: &str) -> (dir: std::path::PathBuf)
    ensures
        dir == spec_manifest_join(manifest_dir@, embedded_pack_location()),
{
    manifest_join(manifest_dir, "../../../data/dumps/embedded")
}

/// Where a run shows its UI.
#[derive(Clone, Copy, Debug, PartialEq, Eq, Structural)]
pub enum UiMode {
    /// In the desktop window; no local server.
    Desktop,
    /// In a browser, served from a local HTTP server.
    Browser,
}

/// The options of a run.
#[derive(Clone, Copy, Debug)]
pub struct RunArgs {
    pub rate_hz: u16,
    pub overlay: bool,
    pub click_through: bool,
    pub stream_json: bool,
    pub max_ticks: Option<u64>,
    pub ui_mode: UiMode,
    pub ui_port: u16,
    pub ui_port_fallback_span: u16,
    pub open_browser: bool,
}

impl Default for RunArgs {
    /// A desktop run at 25 ticks per second, without overlay, JSON streaming
    /// or tick limit, whose browser mode would use the default port range and
    /// open a browser.
    fn default() -> (args: Self)
        ensures
            args.rate_hz == 25,
            !args.overlay,
            !args.click_through,
            !args.stream_json,
            args.max_ticks is None,
            args.ui_mode == UiMode::Desktop,
            args.ui_port == DEFAULT_UI_PORT,
            args.ui_port_fallback_span == DEFAULT_UI_PORT_FALLBACK_SPAN,
            args.open_browser,
    {
        RunArgs {
            rate_hz: 25,
            overlay: false,
            click_through: false,
            stream_json: false,
            max_ticks: None,
            ui_mode: UiMode::Desktop,
            ui_port: DEFAULT_UI_PORT,
            ui_port_fallback_span: DEFAULT_UI_PORT_FALLBACK_SPAN,
            open_browser: true,
        }
    }
}

/// A message for the run's log.
#[derive(Clone, Debug)]
pub enum Notice {
    Info(String),
    Warn(String),
}

/// How a run starts: whether it hosts the browser UI (else it streams
/// snapshots from the engine), and what it logs first.
#[derive(Clone, Debug)]
pub struct RunStart {
    pub host_browser: bool,
    pub notices: Vec<Notice>,
}

/// Whether `n` is the informational notice `text`.
pub open spec fn is_info(n: Notice, text: Seq<char>) -> bool {
    n matches Notice::Info(t) && t@ == text
}

/// Whether `n` is the warning `text`.
pub open spec fn is_warn(n: Notice, text: Seq<char>) -> bool {
    n matches Notice::Warn(t) && t@ == text
}

/// How a run with `args` starts, on a platform that does (or does not)
/// support the overlay: a browser run hosts the UI and warns that overlay
/// flags have no effect there; a desktop run streams snapshots and reports
/// whether a requested overlay is on or falls back to the desktop window.
pub open spec fn is_run_start(start: RunStart, args: RunArgs, overlay_supported: bool) -> bool {
    let n = start.notices@;
    if args.ui_mode == UiMode::Browser {
        &&& start.host_browser
        &&& if args.overlay || args.click_through {
            n.len() == 1 && is_warn(n[0], "overlay flags are ignored when --ui-mode browser is selected"@)
        } else {
            n.len() == 0
        }
    } else {
        &&& !start.host_browser
        &&& if !args.overlay {
            n.len() == 0
        } else if overlay_supported {
            n.len() == 1 && is_info(
                n[0],
                "overlay mode enabled (click-through: "@ + bool_text(args.click_through) + ")"@,
            )
        } else {
            n.len() == 1 && is_warn(n[0], "overlay mode requested on unsupported platform, running in desktop mode"@)
        }
    }
}

/// Decides how a run with `args` starts.
pub fn run_start(args: &RunArgs, overlay_supported: bool) -> (start: RunStart)
    ensures
        is_run_start(start, *args, overlay_supported),
{
    let mut notices: Vec<Notice> = Vec::new();
    if args.ui_mode == UiMode::Browser {
        if args.overlay || args.click_through {
            notices.push(Notice::Warn(String::from_str("overlay flags are ignored when --ui-mode browser is selected")));
        }
        return RunStart { host_browser: true, notices };
    }
    if args.overlay {
        if overlay_supported {
            let mut text = String::from_str("overlay mode enabled (click-through: ");
            if args.click_through {
                text.append("true");
            } else {
                text.append("false");
            }
            text.append(")");
            notices.push(Notice::Info(text));
        } else {
            notices.push(Notice::Warn(String::from_str("overlay mode requested on unsupported platform, running in desktop mode")));
        }
    }
    RunStart { host_browser: false, notices }
}

/// Where a run looks for dump packs: the application's own data directory
/// for the user pack, and the bundled pack next to the program's manifest.
pub fn run_dump_config(manifest_dir: &str) -> (config: DumpRuntimeConfig)
    ensures
        config.app_id@ == "cs2_webradar_extreme"@,
        config.embedded_dir == spec_manifest_join(manifest_dir@, embedded_pack_location()),
        config.user_override_dir is None,
{
    DumpRuntimeConfig {
        app_id: String::from_str("cs2_webradar_extreme"),
        embedded_dir: embedded_dump_dir(manifest_dir),
        user_override_dir: None,
    }
}

/// Whether a run limited to `max_ticks` snapshots stops after `emitted` of them.
pub fn tick_limit_reached(emitted: u64, max_ticks: Option<u64>) -> (stop: bool)
    ensures
        stop == (max_ticks matches Some(limit) && emitted >= limit),
{
    match max_ticks {
        Some(limit) => emitted >= limit,
        None => false,
    }
}

/// The envelope that carries a snapshot to the UI.
pub fn envelope_for(snapshot: RadarSnapshot, emitted_at_ms: u64) -> (envelope: RadarEnvelope)
    ensures
        envelope.protocol_version == PROTOCOL_VERSION,
        envelope.emitted_at_ms == emitted_at_ms,
        envelope.snapshot == snapshot,
{
    RadarEnvelope { protocol_version: PROTOCOL_VERSION, emitted_at_ms, snapshot }
}


/// Every piece `pieces` yields is free of separators.
pub proof fn lemma_pieces_avoid_separator(s: Seq<char>, sep: Separator)
    ensures
        forall|k: int, m: int|
            0 <= k < pieces(s, sep).len() && 0 <= m < pieces(s, sep)[k].len() ==> !sep.cuts(
                #[trigger] pieces(s, sep)[k][m],
            ),
    decreases s.len(),
{
    if s.len() > 0 {
        lemma_pieces_avoid_separator(s.drop_last(), sep);
        lemma_pieces_len(s.drop_last(), sep);
        let prev = pieces(s.drop_last(), sep);
        assert forall|k: int, m: int|
            0 <= k < pieces(s, sep).len() && 0 <= m < pieces(s, sep)[k].len() implies !sep.cuts(
                #[trigger] pieces(s, sep)[k][m],
            ) by {
            if !sep.cuts(s.last()) && k == prev.len() - 1 && m == prev.last().len() {
            } else if !sep.cuts(s.last()) && k == prev.len() - 1 {
                assert(pieces(s, sep)[k][m] == prev[k][m]);
            }
        }
    }
}

/// A sanitized request path only names things below the UI root: each
/// component is neither empty, `.` nor `..`, and holds no separator.
pub proof fn law_sanitized_paths_stay_in_root(raw: Seq<char>, style: PathStyle)
    ensures
        spec_sanitize_request_path(raw, style) matches Some(parts) ==> forall|k: int|
            0 <= k < parts.len() ==> {
                &&& #[trigger] parts[k].len() > 0
                &&& parts[k] != "."@
                &&& parts[k] != ".."@
                &&& forall|m: int| 0 <= m < parts[k].len() ==> !path_separator(style).cuts(parts[k][m])
            },
{
    let segs = path_segments(raw, style);
    lemma_pieces_avoid_separator(trim_start(raw, '/'), path_separator(style));
    if spec_sanitize_request_path(raw, style) is Some {
        let parts = segs.filter(|p: Seq<char>| is_named_segment(p));
        assert forall|k: int| 0 <= k < parts.len() implies {
            &&& #[trigger] parts[k].len() > 0
            &&& parts[k] != "."@
            &&& parts[k] != ".."@
            &&& forall|m: int| 0 <= m < parts[k].len() ==> !path_separator(style).cuts(parts[k][m])
        } by {
            let pred = |p: Seq<char>| is_named_segment(p);
            assert(parts.contains(parts[k]));
            segs.lemma_filter_contains_rev(pred, parts[k]);
            segs.lemma_filter_pred(pred, k);
            let j = choose|j: int| 0 <= j < segs.len() && segs[j] == parts[k];
            assert(segs[j] != ".."@);
            assert forall|m: int| 0 <= m < parts[k].len() implies !path_separator(style).cuts(parts[k][m]) by {
                assert(!path_separator(style).cuts(pieces(trim_start(raw, '/'), path_separator(style))[j][m]));
            }
        }
    }
}


/// Path components joined with `/`, as a request path names them.
pub open spec fn slash_joined(parts: Seq<Seq<char>>) -> Seq<char>
    decreases parts.len(),
{
    if parts.len() == 0 {
        Seq::empty()
    } else if parts.len() == 1 {
        parts[0]
    } else {
        slash_joined(parts.drop_last()).push('/') + parts.last()
    }
}

/// Appending text without separators extends the last piece.
proof fn lemma_pieces_append_plain(s: Seq<char>, t: Seq<char>, sep: Separator)
    requires
        forall|i: int| 0 <= i < t.len() ==> !sep.cuts(#[trigger] t[i]),
    ensures
        pieces(s + t, sep) == pieces(s, sep).update(
            pieces(s, sep).len() - 1,
            pieces(s, sep).last() + t,
        ),
    decreases t.len(),
{
    lemma_pieces_len(s, sep);
    let ps = pieces(s, sep);
    if t.len() == 0 {
        assert(s + t =~= s);
        assert(ps.last() + t =~= ps.last());
        assert(ps.update(ps.len() - 1, ps.last() + t) =~= ps);
    } else {
        let t0 = t.drop_last();
        assert forall|i: int| 0 <= i < t0.len() implies !sep.cuts(#[trigger] t0[i]) by {
            assert(t0[i] == t[i]);
        }
        lemma_pieces_append_plain(s, t0, sep);
        assert((s + t).drop_last() =~= s + t0);
        assert((s + t).last() == t[t.len() - 1]);
        assert(!sep.cuts(t[t.len() - 1]));
        lemma_pieces_len(s + t0, sep);
        assert((ps.last() + t0).push(t[t.len() - 1]) =~= ps.last() + t);
        assert(pieces(s + t, sep) =~= ps.update(ps.len() - 1, ps.last() + t));
    }
}

/// Components without separators, joined with `/`, are cut back into the
/// same components.
proof fn lemma_pieces_of_slash_joined(parts: Seq<Seq<char>>, sep: Separator)
    requires
        parts.len() >= 1,
        sep.cuts('/'),
        forall|k: int, m: int| 0 <= k < parts.len() && 0 <= m < parts[k].len() ==> !sep.cuts(#[trigger] parts[k][m]),
    ensures
        pieces(slash_joined(parts), sep) == parts,
    decreases parts.len(),
{
    let last = parts[parts.len() - 1];
    assert forall|i: int| 0 <= i < last.len() implies !sep.cuts(#[trigger] last[i]) by {
        assert(!sep.cuts(parts[parts.len() - 1][i]));
    }
    if parts.len() == 1 {
        let e = Seq::<char>::empty();
        lemma_pieces_append_plain(e, last, sep);
        assert(e + last =~= last);
        assert(e + last =~= parts[0]);
        assert(pieces(e, sep).update(0, pieces(e, sep).last() + last) =~= parts);
    } else {
        let init = parts.drop_last();
        assert forall|k: int, m: int| 0 <= k < init.len() && 0 <= m < init[k].len() implies !sep.cuts(#[trigger] init[k][m]) by {
            assert(init[k] == parts[k]);
            assert(!sep.cuts(parts[k][m]));
        }
        lemma_pieces_of_slash_joined(init, sep);
        let head = slash_joined(init).push('/');
        assert(head.drop_last() =~= slash_joined(init));
        assert(pieces(head, sep) == init.push(Seq::<char>::empty()));
        lemma_pieces_append_plain(head, last, sep);
        assert(Seq::<char>::empty() + last =~= last);
        assert(init.push(Seq::<char>::empty()).update(init.len() as int, Seq::<char>::empty() + last) =~= parts);
    }
}

/// Joined components begin with the first character of the first component.
proof fn lemma_slash_joined_first(parts: Seq<Seq<char>>)
    requires
        parts.len() >= 1,
        parts[0].len() > 0,
    ensures
        slash_joined(parts).len() > 0,
        slash_joined(parts)[0] == parts[0][0],
    decreases parts.len(),
{
    if parts.len() > 1 {
        let init = parts.drop_last();
        assert(init[0] == parts[0]);
        lemma_slash_joined_first(init);
    }
}

/// Every element of `s` passes `pred`, so filtering keeps them all.
proof fn lemma_filter_keeps_all(s: Seq<Seq<char>>, pred: spec_fn(Seq<char>) -> bool)
    requires
        forall|i: int| 0 <= i < s.len() ==> pred(#[trigger] s[i]),
    ensures
        s.filter(pred) == s,
    decreases s.len(),
{
    if s.len() > 0 {
        let init = s.drop_last();
        assert forall|i: int| 0 <= i < init.len() implies pred(#[trigger] init[i]) by {
            assert(init[i] == s[i]);
        }
        lemma_filter_keeps_all(init, pred);
        assert(pred(s[s.len() - 1]));
        assert(init.push(s.last()) =~= s);
        init.lemma_filter_push(s.last(), pred);
    } else {
        reveal(Seq::filter);
    }
}

/// Sanitizing is a fixed point: the components of a sanitized request
/// path, joined with `/` and sanitized again, come back unchanged. (Under
/// Windows conventions the joined path must not begin with a drive prefix
/// such as `C:`, which a component after `./` may hold.)
pub proof fn law_sanitize_is_idempotent(raw: Seq<char>, style: PathStyle, parts: Seq<Seq<char>>)
    requires
        spec_sanitize_request_path(raw, style) == Some(parts),
        !begins_with_root_or_prefix(slash_joined(parts), style),
    ensures
        spec_sanitize_request_path(slash_joined(parts), style) == Some(parts),
{
    law_sanitized_paths_stay_in_root(raw, style);
    assert(spec_sanitize_request_path(raw, style)->0 == parts);
    let sep = path_separator(style);
    let named = |p: Seq<char>| is_named_segment(p);
    let j = slash_joined(parts);
    if parts.len() == 0 {
        assert(j =~= Seq::<char>::empty());
        let segs = path_segments(j, style);
        assert(segs =~= seq![Seq::<char>::empty()]);
        assert(segs[0].len() == 0);
        assert("..".view().len() == 2) by {
            reveal_strlit("..");
        }
        assert(!(exists|i: int| 0 <= i < segs.len() && segs[i] == ".."@));
        assert(!is_named_segment(segs[0]));
        assert(Seq::<Seq<char>>::empty().push(segs[0]) =~= segs);
        Seq::<Seq<char>>::empty().lemma_filter_push(segs[0], named);
        reveal(Seq::filter);
        assert(segs.filter(named) =~= parts);
    } else {
        assert(parts[0].len() > 0);
        assert forall|k: int, m: int| 0 <= k < parts.len() && 0 <= m < parts[k].len() implies !sep.cuts(#[trigger] parts[k][m]) by {
            assert(parts[k].len() > 0);
        }
        lemma_slash_joined_first(parts);
        assert(!sep.cuts(parts[0][0]));
        assert(trim_start(j, '/') == j);
        lemma_pieces_of_slash_joined(parts, sep);
        let segs = path_segments(j, style);
        assert(segs == parts);
        assert forall|i: int| 0 <= i < parts.len() implies named(#[trigger] parts[i]) by {
            assert(parts[i].len() > 0);
        }
        lemma_filter_keeps_all(parts, named);
        assert forall|i: int| 0 <= i < segs.len() implies segs[i] != ".."@ by {
            assert(parts[i].len() > 0);
        }
    }
}

/// A `.` at position `k` of a name means the name has a last `.`, at `k` or after.
proof fn lemma_last_dot_at_or_after(name: Seq<char>, k: int)
    requires
        0 <= k < name.len(),
        name[k] == '.',
    ensures
        last_dot(name) matches Some(i) && k <= i < name.len() && name[i] == '.',
    decreases name.len(),
{
    if name.last() != '.' {
        assert(name.drop_last()[k] == '.');
        lemma_last_dot_at_or_after(name.drop_last(), k);
    }
}

/// A name without `.` has no last `.`.
proof fn lemma_no_dot(name: Seq<char>)
    requires
        forall|m: int| 0 <= m < name.len() ==> name[m] != '.',
    ensures
        last_dot(name) is None,
    decreases name.len(),
{
    if name.len() > 0 {
        assert(name.last() == name[name.len() - 1]);
        lemma_no_dot(name.drop_last());
    }
}

/// The last `.` of `stem.ext` is the one before `ext`, when `ext` holds none.
proof fn lemma_last_dot_of_dotted(stem: Seq<char>, ext: Seq<char>)
    requires
        forall|m: int| 0 <= m < ext.len() ==> ext[m] != '.',
    ensures
        last_dot(stem + seq!['.'] + ext) == Some(stem.len() as int),
    decreases ext.len(),
{
    let name = stem + seq!['.'] + ext;
    if ext.len() > 0 {
        assert(name.drop_last() =~= stem + seq!['.'] + ext.drop_last());
        assert(name.last() == ext[ext.len() - 1]);
        lemma_last_dot_of_dotted(stem, ext.drop_last());
    }
}

/// A request for a missing file whose last component has an extension (a
/// `.` after its first character; the component is not `..`) is answered
/// `404 Not Found`, never with the UI's `index.html`.
pub proof fn law_missing_files_with_extension_are_not_found(
    r: AssetReply,
    rel: Seq<Seq<char>>,
    primary_is_dir: bool,
    index_is_file: bool,
    k: int,
)
    requires
        is_asset_reply(r, rel, primary_is_dir, false, index_is_file),
        rel.len() > 0,
        0 < k < rel[rel.len() - 1].len(),
        rel[rel.len() - 1][k] == '.',
        rel[rel.len() - 1] != ".."@,
    ensures
        r is NotFound,
{
    lemma_last_dot_at_or_after(rel.last(), k);
}

/// A request for a missing path with no `.` in its last component (a
/// client-side route), or for the root itself, is answered with the UI's
/// `index.html` when that exists, else `404 Not Found`.
pub proof fn law_routes_fall_back_to_index(
    r: AssetReply,
    rel: Seq<Seq<char>>,
    primary_is_dir: bool,
    index_is_file: bool,
)
    requires
        is_asset_reply(r, rel, primary_is_dir, false, index_is_file),
        rel.len() == 0 || forall|m: int| 0 <= m < rel[rel.len() - 1].len() ==> #[trigger] rel[rel.len() - 1][m] != '.',
    ensures
        index_is_file ==> r is Index,
        !index_is_file ==> r is NotFound,
{
    if rel.len() > 0 {
        lemma_no_dot(rel.last());
    }
}

/// A file is served with the content type of its extension: HTML, CSS,
/// JavaScript and JSON as UTF-8 text, SVG, PNG, JPEG, icon and WOFF fonts
/// by their media types.
pub proof fn law_content_types(stem: Seq<char>, ext: Seq<char>)
    requires
        stem.len() > 0,
        forall|m: int| 0 <= m < ext.len() ==> ext[m] != '.',
    ensures
        ext == "html"@ ==> content_type_for_name(stem + seq!['.'] + ext) == "text/html; charset=utf-8"@,
        ext == "css"@ ==> content_type_for_name(stem + seq!['.'] + ext) == "text/css; charset=utf-8"@,
        ext == "js"@ ==> content_type_for_name(stem + seq!['.'] + ext) == "text/javascript; charset=utf-8"@,
        ext == "json"@ ==> content_type_for_name(stem + seq!['.'] + ext) == "application/json; charset=utf-8"@,
        ext == "svg"@ ==> content_type_for_name(stem + seq!['.'] + ext) == "image/svg+xml"@,
        ext == "png"@ ==> content_type_for_name(stem + seq!['.'] + ext) == "image/png"@,
        ext == "jpg"@ ==> content_type_for_name(stem + seq!['.'] + ext) == "image/jpeg"@,
        ext == "jpeg"@ ==> content_type_for_name(stem + seq!['.'] + ext) == "image/jpeg"@,
        ext == "ico"@ ==> content_type_for_name(stem + seq!['.'] + ext) == "image/x-icon"@,
        ext == "woff"@ ==> content_type_for_name(stem + seq!['.'] + ext) == "font/woff"@,
        ext == "woff2"@ ==> content_type_for_name(stem + seq!['.'] + ext) == "font/woff2"@,
{
    let name = stem + seq!['.'] + ext;
    lemma_last_dot_of_dotted(stem, ext);
    reveal_strlit("..");
    assert(name.len() >= 2);
    if name =~= ".."@ {
        assert(ext.len() == 0);
    }
    assert(name.skip(stem.len() + 1int) =~= ext);
    reveal_strlit("html");
    reveal_strlit("css");
    reveal_strlit("js");
    reveal_strlit("json");
    reveal_strlit("svg");
    reveal_strlit("png");
    reveal_strlit("jpg");
    reveal_strlit("jpeg");
    reveal_strlit("ico");
    reveal_strlit("woff");
    reveal_strlit("woff2");
    if ext == "png"@ {
        assert(ext[0] != "svg"@[0] && ext.len() != "html"@.len() && ext.len() != "js"@.len());
        assert(ext[0] != "css"@[0] && ext.len() != "json"@.len());
    }
    if ext == "jpg"@ {
        assert(ext[0] != "svg"@[0] && ext[0] != "png"@[0] && ext[0] != "css"@[0]);
        assert(ext.len() != "html"@.len() && ext.len() != "js"@.len() && ext.len() != "json"@.len());
    }
}

/// Ticks are paced to the requested rate: a zero rate counts as one tick per
/// second; for rates up to a thousand per second the interval is the whole
/// number of milliseconds that `rate` ticks fit in a second; faster rates
/// get one millisecond.
pub proof fn law_tick_pacing(rate: u16)
    ensures
        rate == 0 ==> spec_tick_interval_ms(rate) == 1000,
        1 <= rate <= 1000 ==> spec_tick_interval_ms(rate) * rate <= 1000 < (spec_tick_interval_ms(rate) + 1) * rate,
        rate > 1000 ==> spec_tick_interval_ms(rate) == 1,
{
    if 1 <= rate <= 1000 {
        let q: int = 1000int / (rate as int);
        assert(q * rate <= 1000 < (q + 1) * rate) by (nonlinear_arith)
            requires
                1 <= rate <= 1000,
                q == 1000int / (rate as int),
        ;
        assert(q >= 1) by (nonlinear_arith)
            requires
                1 <= rate <= 1000,
                q == 1000int / (rate as int),
        ;
    }
    if rate > 1000 {
        assert(1000int / (rate as int) == 0) by (nonlinear_arith)
            requires
                rate > 1000,
        ;
    }
}

/// The UI server tries the preferred port and then the next ones in
/// order, one more than the span in all, stopping at the last port number.
pub proof fn law_port_range(preferred: u16, span: u16)
    ensures
        spec_candidate_ports(preferred, span).len() == if preferred + span <= 65535 {
            span + 1
        } else {
            65536 - preferred
        },
        forall|k: int|
            0 <= k < spec_candidate_ports(preferred, span).len() ==> #[trigger] spec_candidate_ports(preferred, span)[k]
                == preferred + k,
        spec_candidate_ports(preferred, span)[0] == preferred,
{
    let ps = spec_candidate_ports(preferred, span);
    assert forall|k: int| 0 <= k < ps.len() implies #[trigger] ps[k] == preferred + k by {
        assert(preferred + k <= 65535);
    }
}

/// How the UI server answers: `405 Method Not Allowed` to anything but
/// `GET`; `400 Bad Request` to a path that climbs out of the root; the
/// named asset when there is a UI build; else the fallback page as HTML.
pub proof fn law_request_answers(r: RequestRoute, is_get: bool, url: Seq<char>, has_ui_dist: bool, style: PathStyle)
    requires
        is_route_for(r, is_get, url, has_ui_dist, style),
    ensures
        !is_get ==> (r matches RequestRoute::Canned(c) && c.status == 405 && c.body@ == "Method Not Allowed"@
            && c.content_type@ == "text/plain; charset=utf-8"@),
        is_get && spec_sanitize_request_path(spec_request_path(url), style) is None ==> (r matches RequestRoute::Canned(c)
            && c.status == 400 && c.body@ == "Bad Request"@ && c.content_type@ == "text/plain; charset=utf-8"@),
        is_get && spec_sanitize_request_path(spec_request_path(url), style) is Some && has_ui_dist ==> (r matches RequestRoute::Asset(parts)
            && Some(views_of(parts@)) == spec_sanitize_request_path(spec_request_path(url), style)),
        is_get && spec_sanitize_request_path(spec_request_path(url), style) is Some && !has_ui_dist ==> (r matches RequestRoute::Canned(c)
            && c.status == 200 && c.body@ == fallback_page_text() && c.content_type@ == "text/html; charset=utf-8"@),
{
}

/// The pieces before the second one are fixed once a second piece exists.
proof fn lemma_first_piece_stays(s: Seq<char>, t: Seq<char>, sep: Separator)
    requires
        pieces(s, sep).len() >= 2,
    ensures
        pieces(s + t, sep).len() >= 2,
        pieces(s + t, sep)[0] == pieces(s, sep)[0],
    decreases t.len(),
{
    if t.len() == 0 {
        assert(s + t =~= s);
    } else {
        lemma_first_piece_stays(s, t.drop_last(), sep);
        assert((s + t).drop_last() =~= s + t.drop_last());
    }
}

/// The request path is the target up to its first `?`: all of it when it
/// holds no `?`.
pub proof fn law_request_path_stops_at_query(path: Seq<char>, query: Seq<char>)
    requires
        forall|i: int| 0 <= i < path.len() ==> #[trigger] path[i] != '?',
    ensures
        spec_request_path(path) == path,
        spec_request_path(path + seq!['?'] + query) == path,
{
    let sep = Separator::Char('?');
    let e = Seq::<char>::empty();
    lemma_pieces_append_plain(e, path, sep);
    assert(e + path =~= path);
    assert(pieces(e, sep).update(0, pieces(e, sep).last() + path) =~= seq![path]);
    let head = path + seq!['?'];
    assert(head.drop_last() =~= path);
    assert(pieces(head, sep) =~= seq![path, e]);
    lemma_first_piece_stays(head, query, sep);
    assert(head + query =~= path + seq!['?'] + query);
}

/// An asset request looks at the requested file, at `index.html` for the
/// root itself, and at `index.html` within a requested directory.
pub proof fn law_asset_target(rel: Seq<Seq<char>>)
    ensures
        spec_asset_target(Seq::empty(), false) == seq!["index.html"@],
        spec_asset_target(Seq::empty(), true) == seq!["index.html"@, "index.html"@],
        rel.len() > 0 ==> spec_asset_target(rel, false) == rel,
        rel.len() > 0 ==> spec_asset_target(rel, true) == rel.push("index.html"@),
{
}

/// The bundled pack lies at `../../../data/dumps/embedded` from the
/// manifest directory.
pub proof fn law_embedded_pack_location(manifest_dir: Seq<char>)
    ensures
        spec_manifest_join(manifest_dir, embedded_pack_location()) == joined(
            path_from_text(manifest_dir),
            "../../../data/dumps/embedded"@,
        ),
{
}

/// A browser run always hosts the UI and warns when overlay flags were
/// given; a desktop run never does, and reports a requested overlay as on
/// (with its click-through setting) where the platform supports it, else as
/// falling back to the desktop window.
pub proof fn law_run_start_notices(start: RunStart, args: RunArgs, overlay_supported: bool)
    requires
        is_run_start(start, args, overlay_supported),
    ensures
        start.host_browser == (args.ui_mode == UiMode::Browser),
        args.ui_mode == UiMode::Browser && (args.overlay || args.click_through) ==> start.notices@.len() == 1 && (
        start.notices@[0] matches Notice::Warn(t) && t@ == "overlay flags are ignored when --ui-mode browser is selected"@),
        args.ui_mode == UiMode::Browser && !args.overlay && !args.click_through ==> start.notices@.len() == 0,
        args.ui_mode == UiMode::Desktop && !args.overlay ==> start.notices@.len() == 0,
        args.ui_mode == UiMode::Desktop && args.overlay && overlay_supported ==> start.notices@.len() == 1 && (
        start.notices@[0] matches Notice::Info(t) && t@ == if args.click_through {
            "overlay mode enabled (click-through: true)"@
        } else {
            "overlay mode enabled (click-through: false)"@
        }),
        args.ui_mode == UiMode::Desktop && args.overlay && !overlay_supported ==> start.notices@.len() == 1 && (
        start.notices@[0] matches Notice::Warn(t) && t@ == "overlay mode requested on unsupported platform, running in desktop mode"@),
{
    reveal_strlit("overlay mode enabled (click-through: ");
    reveal_strlit("true");
    reveal_strlit("false");
    reveal_strlit(")");
    reveal_strlit("overlay mode enabled (click-through: true)");
    reveal_strlit("overlay mode enabled (click-through: false)");
    assert("overlay mode enabled (click-through: "@ + "true"@ + ")"@ =~= "overlay mode enabled (click-through: true)"@);
    assert("overlay mode enabled (click-through: "@ + "false"@ + ")"@ =~= "overlay mode enabled (click-through: false)"@);
}

} // verus!