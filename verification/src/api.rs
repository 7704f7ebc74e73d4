use vstd::prelude::*;
use vstd::string::StringSliceAdditionalSpecFns;
use vstd::utf8::{decode_utf8, encode_utf8, valid_utf8};

use crate::strmap::StrMap;
use crate::text::{
    chars_of, ends_with, is_white, matches_at, push_char, split_char, split_on, starts_with,
    str_eq, string_from_chars, vec_ends_with, vec_starts_with,
};
use crate::urlcode::{
    percent_decode, percent_encode, urldecode, urlencoding_encode, utf8_lossy, within_cap,
    MAX_COMPONENT_BYTES,
};

verus! {

/// Whether `out` is what `urldecode` makes of `raw`: the lossy UTF-8 reading
/// of the decoded bytes, which is their text where they are valid UTF-8.
pub open spec fn url_decodes_to(out: Seq<char>, raw: Seq<char>) -> bool {
    &&& out == utf8_lossy(percent_decode(encode_utf8(raw)))
    &&& valid_utf8(percent_decode(encode_utf8(raw))) ==> out == decode_utf8(
        percent_decode(encode_utf8(raw)),
    )
}

/// The key and the raw value of one `key=value` piece of a query; the value
/// is empty where there is no `=`.
pub open spec fn query_pair(piece: Seq<char>) -> (Seq<char>, Seq<char>) {
    let p = split_on(piece, '=');
    (p[0], if p.len() > 1 {
        piece.skip(p[0].len() + 1int)
    } else {
        Seq::empty()
    })
}

/// The pieces of a query that the API takes, as key and raw value, in order:
/// empty pieces, and pieces whose key or value is longer than
/// `MAX_COMPONENT_BYTES`, are passed over.
pub open spec fn query_pairs(pieces: Seq<Seq<char>>) -> Seq<(Seq<char>, Seq<char>)>
    decreases pieces.len(),
{
    if pieces.len() == 0 {
        Seq::empty()
    } else {
        let prev = query_pairs(pieces.drop_last());
        let (k, v) = query_pair(pieces.last());
        if pieces.last().len() == 0 || !within_cap(k) || !within_cap(v) {
            prev
        } else {
            prev.push((k, v))
        }
    }
}

/// Whether a map holds, for each key of the pairs, the decoded value of the
/// last pair with that key, and nothing else.
pub open spec fn query_map_ok(m: Map<Seq<char>, String>, pairs: Seq<(Seq<char>, Seq<char>)>) -> bool
    decreases pairs.len(),
{
    if pairs.len() == 0 {
        m.dom().len() == 0 && m.dom().finite()
    } else {
        let (k, v) = pairs.last();
        m.contains_key(k) && url_decodes_to(m[k]@, v) && exists|rest: Map<Seq<char>, String>|
            query_map_ok(rest, pairs.drop_last()) && #[trigger] rest.insert(k, m[k]) == m
    }
}

/// Splits a `key=value` piece at its first `=`.
fn split_pair(piece: &str) -> (r: (String, String))
    ensures
        (r.0@, r.1@) == query_pair(piece@),
{
    let parts = split_char(piece, '=');
    let ghost pv = parts@.map_values(|p: String| p@);
    proof {
        crate::text::lemma_split_on_nonempty(piece@, '=');
        assert(pv[0] == parts@[0]@);
    }
    let key = parts[0].clone();
    if parts.len() > 1 {
        let v = chars_of(piece);
        proof {
            lemma_first_piece(piece@, '=');
        }
        let klen = key.as_str().unicode_len();
        let value = string_from_chars(&v, klen + 1, v.len());
        proof {
            assert(value@ =~= piece@.skip(pv[0].len() + 1int));
        }
        (key, value)
    } else {
        (key, String::new())
    }
}

proof fn lemma_first_piece(s: Seq<char>, c: char)
    ensures
        split_on(s, c).len() >= 1,
        split_on(s, c)[0].len() <= s.len(),
        split_on(s, c)[0] == s.take(split_on(s, c)[0].len() as int),
        split_on(s, c).len() > 1 ==> split_on(s, c)[0].len() < s.len() && s[split_on(s, c)[0].len() as int] == c,
    decreases s.len(),
{
    crate::text::lemma_last_index_of(s, c);
    crate::text::lemma_split_on_nonempty(s, c);
    let i = crate::text::last_index_of(s, c);
    if 0 <= i < s.len() {
        lemma_first_piece(s.take(i), c);
        crate::text::lemma_split_on_nonempty(s.take(i), c);
        let p = split_on(s.take(i), c);
        assert(split_on(s, c) == p.push(s.skip(i + 1)));
        assert(split_on(s, c)[0] == p[0]);
        if p.len() > 1 {
        } else {
            assert(split_on(s.take(i), c).len() == 1);
            crate::text::lemma_last_index_of(s.take(i), c);
            let j = crate::text::last_index_of(s.take(i), c);
            if 0 <= j < s.take(i).len() {
                crate::text::lemma_split_on_nonempty(s.take(i).take(j), c);
                assert(p.len() >= 2);
            }
            assert(j < 0);
            assert(p[0] == s.take(i));
            assert(s.take(i).take(p[0].len() as int) =~= s.take(i));
        }
        assert(s.take(i).take(p[0].len() as int) =~= s.take(p[0].len() as int));
    } else {
        assert(s.take(s.len() as int) =~= s);
    }
}

} // verus!

verus! {

/// The parameters of a URL query (`a=1&b=2`): the value of each key is the
/// decoded value of its last occurrence; empty pieces, and pieces with a key
/// or value over `MAX_COMPONENT_BYTES`, are passed over.
pub fn parse_query(query: &str) -> (r: StrMap<String>)
    ensures
        r.wf(),
        query_map_ok(r@, query_pairs(split_on(query@, '&'))),
{
    let pieces = split_char(query, '&');
    let ghost pv = pieces@.map_values(|p: String| p@);
    let mut m: StrMap<String> = StrMap::new();
    let mut i: usize = 0;
    proof {
        assert(pv.take(0) =~= Seq::<Seq<char>>::empty());
        assert(m@.dom() =~= Set::<Seq<char>>::empty());
    }
    while i < pieces.len()
        invariant
            pv == pieces@.map_values(|p: String| p@),
            pv == split_on(query@, '&'),
            0 <= i <= pieces.len(),
            m.wf(),
            query_map_ok(m@, query_pairs(pv.take(i as int))),
        decreases pieces.len() - i,
    {
        let piece = &pieces[i];
        proof {
            assert(pv[i as int] == piece@);
            assert(pv.take(i + 1).drop_last() =~= pv.take(i as int));
            assert(pv.take(i + 1).last() == piece@);
        }
        let (key, raw) = split_pair(piece.as_str());
        if !piece.as_str().is_empty() && key.as_str().as_bytes().len() <= MAX_COMPONENT_BYTES
            && raw.as_str().as_bytes().len() <= MAX_COMPONENT_BYTES {
            let value = urldecode(raw.as_str());
            let ghost before = m@;
            let ghost k = key@;
            let ghost vv = value@;
            let ghost rv = raw@;
            m.insert(key, value);
            proof {
                let pairs = query_pairs(pv.take(i as int));
                assert(within_cap(k) && within_cap(rv));
                assert(query_pair(piece@) == (k, rv));
                assert(query_pairs(pv.take(i + 1)) == pairs.push((k, rv)));
                assert(m@[k]@ == vv);
                assert(url_decodes_to(m@[k]@, rv));
                assert(before.insert(k, m@[k]) == m@);
                assert(query_map_ok(before, pairs));
                assert(pairs.push((k, rv)).drop_last() =~= pairs);
                assert(pairs.push((k, rv)).last() == (k, rv));
                assert(query_map_ok(m@, pairs.push((k, rv))));
            }
        } else {
            proof {
                assert(query_pairs(pv.take(i + 1)) == query_pairs(pv.take(i as int)));
            }
        }
        i = i + 1;
    }
    proof {
        assert(pv.take(i as int) =~= pv);
    }
    m
}

/// `path` without `prefix` and `suffix`, decoded; none where it lacks
/// either, or where what lies between is longer than `MAX_COMPONENT_BYTES`.
pub fn extract_pane_id(path: &str, prefix: &str, suffix: &str) -> (r: Option<String>)
    ensures
        r is Some <==> (starts_with(path@, prefix@) && ends_with(
            path@.skip(prefix@.len() as int),
            suffix@,
        ) && within_cap(path@.subrange(prefix@.len() as int, path@.len() - suffix@.len()))),
        r matches Some(id) ==> url_decodes_to(
            id@,
            path@.subrange(prefix@.len() as int, path@.len() - suffix@.len()),
        ),
{
    let v = chars_of(path);
    let p = chars_of(prefix);
    if !vec_starts_with(&v, &p) {
        return None;
    }
    let rest = string_from_chars(&v, p.len(), v.len());
    let rv = chars_of(rest.as_str());
    let s = chars_of(suffix);
    proof {
        assert(rv@ =~= path@.skip(prefix@.len() as int));
    }
    if !vec_ends_with(&rv, &s) {
        return None;
    }
    let id = string_from_chars(&rv, 0, rv.len() - s.len());
    proof {
        assert(id@ =~= path@.subrange(prefix@.len() as int, path@.len() - suffix@.len()));
    }
    if id.as_str().as_bytes().len() > MAX_COMPONENT_BYTES {
        return None;
    }
    proof {
        assert(within_cap(id@));
    }
    Some(urldecode(id.as_str()))
}

/// What HTML escaping writes for one character.
pub open spec fn html_escape_char(c: char) -> Seq<char> {
    if c == '&' {
        "&amp;"@
    } else if c == '<' {
        "&lt;"@
    } else if c == '>' {
        "&gt;"@
    } else if c == '"' {
        "&quot;"@
    } else if c == '\'' {
        "&#x27;"@
    } else {
        seq![c]
    }
}

/// HTML escaping of a text: `&`, `<`, `>`, `"` and `'` as character references.
pub open spec fn html_escaped(s: Seq<char>) -> Seq<char>
    decreases s.len(),
{
    if s.len() == 0 {
        Seq::empty()
    } else {
        html_escaped(s.drop_last()) + html_escape_char(s.last())
    }
}

/// Escapes `&`, `<`, `>`, `"` and `'` for HTML.
pub fn html_escape(s: &str) -> (r: String)
    ensures
        r@ == html_escaped(s@),
{
    let v = chars_of(s);
    let mut out = String::new();
    let mut i: usize = 0;
    while i < v.len()
        invariant
            v@ == s@,
            0 <= i <= v.len(),
            out@ == html_escaped(v@.take(i as int)),
        decreases v.len() - i,
    {
        let c = v[i];
        proof {
            assert(v@.take(i + 1).drop_last() =~= v@.take(i as int));
            assert(v@.take(i + 1).last() == c);
        }
        if c == '&' {
            out.append("&amp;");
        } else if c == '<' {
            out.append("&lt;");
        } else if c == '>' {
            out.append("&gt;");
        } else if c == '"' {
            out.append("&quot;");
        } else if c == '\'' {
            out.append("&#x27;");
        } else {
            push_char(&mut out, c);
        }
        i = i + 1;
    }
    proof {
        assert(v@.take(i as int) =~= v@);
    }
    out
}

/// `s` with every occurrence of a non-empty `p` replaced by `t`, left to
/// right and without overlap (`str::replace`).
pub open spec fn replace_all(s: Seq<char>, p: Seq<char>, t: Seq<char>) -> Seq<char>
    decreases s.len(),
{
    if p.len() == 0 || s.len() == 0 {
        s
    } else if starts_with(s, p) {
        t + replace_all(s.skip(p.len() as int), p, t)
    } else {
        seq![s[0]] + replace_all(s.drop_first(), p, t)
    }
}

/// Replaces every occurrence of a non-empty `p` in `s` by `t`.
pub fn replace_str(s: &str, p: &str, t: &str) -> (r: String)
    ensures
        r@ == replace_all(s@, p@, t@),
{
    let v = chars_of(s);
    let pv = chars_of(p);
    let mut out = String::new();
    if pv.len() == 0 {
        out.append(s);
        return out;
    }
    let mut i: usize = 0;
    proof {
        assert(v@.skip(0) =~= s@);
    }
    while i < v.len()
        invariant
            v@ == s@,
            pv@ == p@,
            pv@.len() > 0,
            0 <= i <= v.len(),
            out@ + replace_all(v@.skip(i as int), p@, t@) == replace_all(s@, p@, t@),
        decreases v.len() - i,
    {
        let ghost u = v@.skip(i as int);
        let m = matches_at(&v, i, &pv);
        proof {
            if pv@.len() <= u.len() {
                assert(u.take(pv@.len() as int) =~= v@.subrange(i as int, i + pv@.len()));
            }
        }
        if m {
            out.append(t);
            proof {
                assert(u.skip(p@.len() as int) =~= v@.skip(i + pv@.len()));
                assert(out@ + replace_all(v@.skip(i + pv@.len()), p@, t@) =~= replace_all(
                    s@,
                    p@,
                    t@,
                ));
            }
            i = i + pv.len();
        } else {
            push_char(&mut out, v[i]);
            proof {
                assert(u.drop_first() =~= v@.skip(i + 1));
                assert(u[0] == v@[i as int]);
                assert(out@ + replace_all(v@.skip(i + 1), p@, t@) =~= replace_all(s@, p@, t@));
            }
            i = i + 1;
        }
    }
    proof {
        assert(v@.skip(i as int).len() == 0);
        assert(out@ + replace_all(v@.skip(i as int), p@, t@) =~= out@);
    }
    out
}

/// The tmux viewer page: the template with its pane ID and project
/// directory placeholders filled in, escaped for HTML.
pub fn render_viewer_page(template: &str, pane_id: &str, project_dir: &str) -> (r: String)
    ensures
        r@ == replace_all(
            replace_all(template@, "{{PANE_ID}}"@, html_escaped(pane_id@)),
            "{{PROJECT_DIR}}"@,
            html_escaped(project_dir@),
        ),
{
    let pane = html_escape(pane_id);
    let dir = html_escape(project_dir);
    let first = replace_str(template, "{{PANE_ID}}", pane.as_str());
    replace_str(first.as_str(), "{{PROJECT_DIR}}", dir.as_str())
}

/// The address of the tmux viewer window for a pane (and the session's
/// project directory, if known), with both values URL-encoded.
pub fn tmux_viewer_url(pane_id: &str, project_dir: Option<&str>) -> (r: String)
    ensures
        r@ == "index.html?tmux_pane="@ + percent_encode(encode_utf8(pane_id@), false) + match project_dir {
            Some(d) => "&project_dir="@ + percent_encode(encode_utf8(d@), false),
            None => Seq::empty(),
        },
{
    let mut url = "index.html?tmux_pane=".to_string();
    let enc = urlencoding_encode(pane_id);
    url.append(enc.as_str());
    if let Some(dir) = project_dir {
        url.append("&project_dir=");
        let d = urlencoding_encode(dir);
        url.append(d.as_str());
    }
    url
}

} // verus!

verus! {

/// A character with ASCII letters made lower case.
pub open spec fn ascii_lower(c: char) -> char {
    if 'A' <= c <= 'Z' {
        ((c as u32) + 32) as char
    } else {
        c
    }
}

/// Whether two texts are equal when ASCII case is ignored.
pub open spec fn eq_ignore_ascii_case(a: Seq<char>, b: Seq<char>) -> bool {
    a.len() == b.len() && forall|i: int| 0 <= i < a.len() ==> ascii_lower(#[trigger] a[i]) == ascii_lower(b[i])
}

fn ascii_lower_exec(c: char) -> (r: char)
    ensures
        r == ascii_lower(c),
{
    if 'A' <= c && c <= 'Z' {
        ((c as u32) + 32) as u8 as char
    } else {
        c
    }
}

/// Whether two texts are equal when ASCII case is ignored (as header names
/// are compared).
pub fn eq_ignore_case(a: &str, b: &str) -> (r: bool)
    ensures
        r == eq_ignore_ascii_case(a@, b@),
{
    let va = chars_of(a);
    let vb = chars_of(b);
    if va.len() != vb.len() {
        return false;
    }
    let mut i: usize = 0;
    while i < va.len()
        invariant
            va@ == a@,
            vb@ == b@,
            va.len() == vb.len(),
            0 <= i <= va.len(),
            forall|j: int| 0 <= j < i ==> ascii_lower(#[trigger] va@[j]) == ascii_lower(vb@[j]),
        decreases va.len() - i,
    {
        if ascii_lower_exec(va[i]) != ascii_lower_exec(vb[i]) {
            return false;
        }
        i = i + 1;
    }
    true
}

/// What the API server does with a request.
#[derive(Clone, Copy, Debug, PartialEq, Eq, Structural)]
pub enum ApiRoute {
    Unauthorized,
    PostEvents,
    TmuxCapture,
    TmuxSend,
    WebViewer,
    Root,
    NotFound,
}

/// A request's route, and its path and query (split at the first `?`).
#[derive(Clone, Debug)]
pub struct RoutedRequest {
    pub route: ApiRoute,
    pub path: String,
    pub query: String,
}

/// Whether the headers hold `Authorization: Bearer <token>` (the header name
/// in any ASCII case).
pub open spec fn authorized(headers: Seq<(Seq<char>, Seq<char>)>, token: Seq<char>) -> bool {
    exists|i: int|
        0 <= i < headers.len() && eq_ignore_ascii_case(#[trigger] headers[i].0, "Authorization"@)
            && headers[i].1 == "Bearer "@ + token
}

/// The route of a request with method `m` and path `p`.
pub open spec fn route_of(m: Seq<char>, p: Seq<char>) -> ApiRoute {
    if m == "POST"@ && p == "/api/events"@ {
        ApiRoute::PostEvents
    } else if m == "GET"@ && starts_with(p, "/api/tmux/"@) && ends_with(p, "/capture"@) {
        ApiRoute::TmuxCapture
    } else if m == "POST"@ && starts_with(p, "/api/tmux/"@) && ends_with(p, "/send"@) {
        ApiRoute::TmuxSend
    } else if m == "GET"@ && starts_with(p, "/tmux/"@) {
        ApiRoute::WebViewer
    } else if m == "GET"@ && p == "/"@ {
        ApiRoute::Root
    } else {
        ApiRoute::NotFound
    }
}

/// The path and query of a URL: split at the first `?`; no query where
/// there is none.
pub open spec fn url_parts(url: Seq<char>) -> (Seq<char>, Seq<char>) {
    let p = split_on(url, '?');
    if p.len() > 1 {
        (p[0], url.skip(p[0].len() + 1int))
    } else {
        (url, Seq::empty())
    }
}

fn starts_with_str(s: &str, p: &str) -> (r: bool)
    ensures
        r == starts_with(s@, p@),
{
    let v = chars_of(s);
    let pv = chars_of(p);
    vec_starts_with(&v, &pv)
}

fn ends_with_str(s: &str, p: &str) -> (r: bool)
    ensures
        r == ends_with(s@, p@),
{
    let v = chars_of(s);
    let pv = chars_of(p);
    vec_ends_with(&v, &pv)
}

/// Routes a request: without the bearer token (where one is configured) it
/// is refused; otherwise the method and path choose the handler.
pub fn route_request(
    method: &str,
    url: &str,
    headers: &Vec<(String, String)>,
    api_token: &Option<String>,
) -> (r: RoutedRequest)
    ensures
        (r.path@, r.query@) == url_parts(url@),
        r.route == (match api_token {
            Some(t) => if !authorized(headers@.map_values(|h: (String, String)| (h.0@, h.1@)), t@) {
                ApiRoute::Unauthorized
            } else {
                route_of(method@, url_parts(url@).0)
            },
            None => route_of(method@, url_parts(url@).0),
        }),
{
    let ghost hv = headers@.map_values(|h: (String, String)| (h.0@, h.1@));
    let (path, query) = split_pair_at(url, '?');
    proof {
        crate::text::lemma_split_on_nonempty(url@, '?');
        lemma_first_piece(url@, '?');
        if split_on(url@, '?').len() <= 1 {
            assert(split_on(url@, '?').len() == 1);
        }
    }
    let route = if str_eq(method, "POST") && str_eq(path.as_str(), "/api/events") {
        ApiRoute::PostEvents
    } else if str_eq(method, "GET") && starts_with_str(path.as_str(), "/api/tmux/") && ends_with_str(path.as_str(), "/capture") {
        ApiRoute::TmuxCapture
    } else if str_eq(method, "POST") && starts_with_str(path.as_str(), "/api/tmux/") && ends_with_str(path.as_str(), "/send") {
        ApiRoute::TmuxSend
    } else if str_eq(method, "GET") && starts_with_str(path.as_str(), "/tmux/") {
        ApiRoute::WebViewer
    } else if str_eq(method, "GET") && str_eq(path.as_str(), "/") {
        ApiRoute::Root
    } else {
        ApiRoute::NotFound
    };
    let route = match api_token {
        Some(t) => {
            let mut expected = "Bearer ".to_string();
            expected.append(t.as_str());
            let mut ok = false;
            let mut i: usize = 0;
            while i < headers.len()
                invariant
                    hv == headers@.map_values(|h: (String, String)| (h.0@, h.1@)),
                    expected@ == "Bearer "@ + t@,
                    0 <= i <= headers.len(),
                    ok == exists|j: int|
                        0 <= j < i && eq_ignore_ascii_case(#[trigger] hv[j].0, "Authorization"@)
                            && hv[j].1 == "Bearer "@ + t@,
                decreases headers.len() - i,
            {
                let h = &headers[i];
                proof {
                    assert(hv[i as int] == (h.0@, h.1@));
                }
                if eq_ignore_case(h.0.as_str(), "Authorization") && h.1 == expected {
                    ok = true;
                }
                proof {
                    if ok {
                        if eq_ignore_ascii_case(hv[i as int].0, "Authorization"@) && hv[i as int].1
                            == "Bearer "@ + t@ {
                        }
                    }
                }
                i = i + 1;
            }
            if ok {
                route
            } else {
                ApiRoute::Unauthorized
            }
        },
        None => route,
    };
    RoutedRequest { route, path, query }
}

/// Splits `s` at the first `c`: the part before it and the part after it;
/// the whole text and nothing where there is no `c`.
fn split_pair_at(s: &str, c: char) -> (r: (String, String))
    ensures
        (r.0@, r.1@) == (if split_on(s@, c).len() > 1 {
            (split_on(s@, c)[0], s@.skip(split_on(s@, c)[0].len() + 1int))
        } else {
            (s@, Seq::<char>::empty())
        }),
{
    let parts = split_char(s, c);
    let ghost pv = parts@.map_values(|p: String| p@);
    proof {
        crate::text::lemma_split_on_nonempty(s@, c);
        assert(pv[0] == parts@[0]@);
        lemma_first_piece(s@, c);
    }
    if parts.len() > 1 {
        let key = parts[0].clone();
        let v = chars_of(s);
        let klen = key.as_str().unicode_len();
        proof {
            assert(pv.len() == parts@.len());
            assert(klen == pv[0].len());
            assert(pv[0].len() < s@.len());
            assert(v@.len() == s@.len());
        }
        let rest = string_from_chars(&v, klen + 1, v.len());
        proof {
            assert(rest@ =~= s@.skip(pv[0].len() + 1int));
        }
        (key, rest)
    } else {
        proof {
            if split_on(s@, c).len() == 1 {
                crate::text::lemma_last_index_of(s@, c);
            }
        }
        (s.to_string(), String::new())
    }
}

/// Whether a request body holds a JSON array: its first character that is
/// not white space is `[`.
pub open spec fn is_array_body(s: Seq<char>) -> bool {
    exists|i: int|
        0 <= i < s.len() && s[i] == '[' && forall|j: int| 0 <= j < i ==> is_white(#[trigger] s[j])
}

/// Whether a request body holds a JSON array rather than one object.
pub fn is_json_array(body: &str) -> (r: bool)
    ensures
        r == is_array_body(body@),
{
    let v = chars_of(body);
    let mut i: usize = 0;
    while i < v.len() && crate::text::is_white_exec(v[i])
        invariant
            v@ == body@,
            0 <= i <= v.len(),
            forall|j: int| 0 <= j < i ==> is_white(#[trigger] v@[j]),
        decreases v.len() - i,
    {
        i = i + 1;
    }
    let r = i < v.len() && v[i] == '[';
    proof {
        if !r {
            assert forall|k: int| 0 <= k < v@.len() && v@[k] == '[' implies !(forall|j: int|
                0 <= j < k ==> is_white(#[trigger] v@[j])) by {
                if k < i {
                    assert(is_white(v@[k]));
                    assert(!is_white('['));
                } else if k == i {
                } else {
                    assert(!is_white(v@[i as int]));
                }
            }
        }
    }
    r
}

} // verus!
