//! The HTTP request handler: status and MIME tables, the response builder,
//! the static-file GET path and the 501 fallback.
//!
//! A response is laid out bit-exactly as
//! status line + header block + blank line + body, where the status line is
//! `"HTTP/1.1 <code> <reason>\r\n"` and each header line is
//! `"<name>: <value>\r\n"`.

use vstd::prelude::*;

use crate::request::{
    first_word, has_second_word, request_line_of, second_word, utf8_lossy, HTTPRequest,
};
use crate::tables::{
    assoc_find, assoc_has_key, assoc_merge, assoc_set, distinct_keys, lemma_assoc_find_at,
    lemma_assoc_find_none, lemma_assoc_merge_find, lemma_assoc_merge_push, lemma_assoc_set_at,
    lemma_assoc_set_push,
};
use crate::text::{dec_digits, digit_char, push_decimal};
use vstd::string::{StrSliceExecFns, StringExecFns};
use vstd::utf8::encode_utf8;

verus! {

/// The two default headers sent with every response.
pub open spec fn default_header_list() -> Seq<(Seq<char>, Seq<char>)> {
    seq![("Server"@, "CrudeServer"@), ("Content-Type"@, "text/html"@)]
}

/// The status table: code to reason phrase.
pub open spec fn default_status_list() -> Seq<(u16, Seq<char>)> {
    seq![(200u16, "OK"@), (404u16, "Not Found"@), (501u16, "Not Implemented"@)]
}

/// The MIME table: lowercase file extension (no dot) to content type.
pub open spec fn default_mime_list() -> Seq<(Seq<char>, Seq<char>)> {
    seq![
        ("html"@, "text/html"@),
        ("htm"@, "text/html"@),
        ("css"@, "text/css"@),
        ("js"@, "application/javascript"@),
        ("jpg"@, "image/jpeg"@),
        ("jpeg"@, "image/jpeg"@),
        ("png"@, "image/png"@),
        ("gif"@, "image/gif"@),
        ("svg"@, "image/svg+xml"@),
        ("ico"@, "image/x-icon"@),
    ]
}

/// The reason phrase for `code`: the table's entry, `"Unknown"` on a miss.
pub open spec fn reason_text(m: Seq<(u16, Seq<char>)>, code: u16) -> Seq<char> {
    match assoc_find(m, code) {
        Some(v) => v,
        None => "Unknown"@,
    }
}

/// The text of the status line for `code` with reason phrase `reason`.
pub open spec fn status_line_text(code: u16, reason: Seq<char>) -> Seq<char> {
    "HTTP/1.1 "@ + dec_digits(code as nat) + " "@ + reason + "\r\n"@
}

/// The text of one header line.
pub open spec fn header_line_text(name: Seq<char>, value: Seq<char>) -> Seq<char> {
    name + ": "@ + value + "\r\n"@
}

/// The text of the whole header block, one line per entry, in entry order.
pub open spec fn header_text(m: Seq<(Seq<char>, Seq<char>)>) -> Seq<char>
    decreases m.len(),
{
    if m.len() == 0 {
        Seq::empty()
    } else {
        header_line_text(m[0].0, m[0].1) + header_text(m.drop_first())
    }
}

proof fn lemma_header_text_push(m: Seq<(Seq<char>, Seq<char>)>, p: (Seq<char>, Seq<char>))
    ensures
        header_text(m.push(p)) == header_text(m) + header_line_text(p.0, p.1),
    decreases m.len(),
{
    if m.len() == 0 {
        assert(m.push(p)[0] == p);
        assert(m.push(p).drop_first() =~= Seq::<(Seq<char>, Seq<char>)>::empty());
        assert(header_text(m.push(p).drop_first()) == Seq::<char>::empty());
        assert(header_text(m.push(p)) =~= header_text(m) + header_line_text(p.0, p.1));
    } else {
        assert(m.push(p)[0] == m[0]);
        assert(m.push(p).drop_first() =~= m.drop_first().push(p));
        lemma_header_text_push(m.drop_first(), p);
        assert(header_text(m.push(p)) =~= header_text(m) + header_line_text(p.0, p.1));
    }
}

/// The character-level view of a vector of header pairs.
pub open spec fn pairs_model(v: Seq<(String, String)>) -> Seq<(Seq<char>, Seq<char>)> {
    v.map_values(|p: (String, String)| (p.0@, p.1@))
}

/// The character-level view of the optional extra headers.
pub open spec fn extra_model(e: Option<Vec<(String, String)>>) -> Seq<(Seq<char>, Seq<char>)> {
    match e {
        Some(v) => pairs_model(v@),
        None => Seq::empty(),
    }
}

/// The handler for HTTP requests over a static file tree: parses the request
/// line, serves `GET` from the file system, and answers 501 otherwise.
pub struct HTTPHandler {
    headers: Vec<(String, String)>,
    status_codes: Vec<(u16, String)>,
    mime_types: Vec<(String, String)>,
}

impl HTTPHandler {
    /// The default header set held by this handler.
    pub closed spec fn headers_model(&self) -> Seq<(Seq<char>, Seq<char>)> {
        pairs_model(self.headers@)
    }

    /// The status table held by this handler.
    pub closed spec fn status_model(&self) -> Seq<(u16, Seq<char>)> {
        self.status_codes@.map_values(|p: (u16, String)| (p.0, p.1@))
    }

    /// The MIME table held by this handler.
    pub closed spec fn mime_model(&self) -> Seq<(Seq<char>, Seq<char>)> {
        pairs_model(self.mime_types@)
    }

    /// A handler with the default header, status and MIME tables.
    pub fn new() -> (r: HTTPHandler)
        ensures
            r.headers_model() == default_header_list(),
            r.status_model() == default_status_list(),
            r.mime_model() == default_mime_list(),
    {
        let mut headers: Vec<(String, String)> = Vec::new();
        headers.push((String::from_str("Server"), String::from_str("CrudeServer")));
        headers.push((String::from_str("Content-Type"), String::from_str("text/html")));

        let mut status_codes: Vec<(u16, String)> = Vec::new();
        status_codes.push((200, String::from_str("OK")));
        status_codes.push((404, String::from_str("Not Found")));
        status_codes.push((501, String::from_str("Not Implemented")));

        let mut mime_types: Vec<(String, String)> = Vec::new();
        mime_types.push((String::from_str("html"), String::from_str("text/html")));
        mime_types.push((String::from_str("htm"), String::from_str("text/html")));
        mime_types.push((String::from_str("css"), String::from_str("text/css")));
        mime_types.push((String::from_str("js"), String::from_str("application/javascript")));
        mime_types.push((String::from_str("jpg"), String::from_str("image/jpeg")));
        mime_types.push((String::from_str("jpeg"), String::from_str("image/jpeg")));
        mime_types.push((String::from_str("png"), String::from_str("image/png")));
        mime_types.push((String::from_str("gif"), String::from_str("image/gif")));
        mime_types.push((String::from_str("svg"), String::from_str("image/svg+xml")));
        mime_types.push((String::from_str("ico"), String::from_str("image/x-icon")));

        let r = HTTPHandler { headers, status_codes, mime_types };
        proof {
            assert(r.headers_model() =~= default_header_list());
            assert(r.status_model() =~= default_status_list());
            assert(r.mime_model() =~= default_mime_list());
        }
        r
    }

    /// The reason phrase this handler's table gives for `status_code`.
    fn reason_phrase(&self, status_code: u16) -> (r: String)
        ensures
            r@ == reason_text(self.status_model(), status_code),
    {
        let n = self.status_codes.len();
        let mut i: usize = 0;
        loop
            invariant
                n == self.status_codes@.len(),
                self.status_model().len() == n,
                0 <= i <= n,
                forall|j: int| 0 <= j < i ==> (#[trigger] self.status_model()[j]).0 != status_code,
            decreases n - i,
        {
            if i >= n {
                proof {
                    lemma_assoc_find_none(self.status_model(), status_code);
                }
                return String::from_str("Unknown");
            }
            let entry = &self.status_codes[i];
            if entry.0 == status_code {
                proof {
                    lemma_assoc_find_at(self.status_model(), status_code, i as int);
                }
                return entry.1.clone();
            }
            i = i + 1;
        }
    }

    /// The status line `"HTTP/1.1 <code> <reason>\r\n"` as bytes, with the
    /// reason phrase looked up in the status table (`"Unknown"` on a miss).
    pub fn response_line(&self, status_code: u16) -> (r: Vec<u8>)
        ensures
            r@ == encode_utf8(
                status_line_text(status_code, reason_text(self.status_model(), status_code)),
            ),
    {
        let mut line = String::from_str("HTTP/1.1 ");
        push_decimal(status_code, &mut line);
        line.append(" ");
        let reason = self.reason_phrase(status_code);
        line.append(reason.as_str());
        line.append("\r\n");
        proof {
            assert(line@ =~= status_line_text(
                status_code,
                reason_text(self.status_model(), status_code),
            ));
        }
        line.as_str().as_bytes_vec()
    }

    /// The header block for the default headers merged with `extra_headers`,
    /// one `"<name>: <value>\r\n"` line per entry, in entry order; an extra
    /// header overrides a default of the same name in place.
    pub fn response_headers(&self, extra_headers: Option<Vec<(String, String)>>) -> (r: Vec<u8>)
        ensures
            r@ == encode_utf8(
                header_text(assoc_merge(self.headers_model(), extra_model(extra_headers))),
            ),
    {
        let mut merged: Vec<(String, String)> = Vec::new();
        let base_len = self.headers.len();
        let mut i: usize = 0;
        while i < base_len
            invariant
                base_len == self.headers@.len(),
                0 <= i <= base_len,
                merged@.len() == i,
                pairs_model(merged@) =~= pairs_model(self.headers@.take(i as int)),
            decreases base_len - i,
        {
            let ghost before = merged@;
            let p = &self.headers[i];
            merged.push((p.0.clone(), p.1.clone()));
            proof {
                assert(pairs_model(merged@) =~= pairs_model(before).push((
                    self.headers@[i as int].0@,
                    self.headers@[i as int].1@,
                )));
                assert(pairs_model(self.headers@.take(i + 1)) =~= pairs_model(
                    self.headers@.take(i as int),
                ).push((self.headers@[i as int].0@, self.headers@[i as int].1@)));
                assert(pairs_model(merged@) =~= pairs_model(self.headers@.take(i + 1)));
            }
            i = i + 1;
        }
        proof {
            assert(self.headers@.take(base_len as int) =~= self.headers@);
        }
        if let Some(extra) = extra_headers {
            let extra_len = extra.len();
            let mut j: usize = 0;
            while j < extra_len
                invariant
                    extra_len == extra@.len(),
                    0 <= j <= extra_len,
                    pairs_model(merged@) == assoc_merge(
                        self.headers_model(),
                        pairs_model(extra@.take(j as int)),
                    ),
                decreases extra_len - j,
            {
                let q = &extra[j];
                insert_header(&mut merged, q.0.clone(), q.1.clone());
                proof {
                    assert(extra@.take(j + 1) =~= extra@.take(j as int).push(extra@[j as int]));
                    assert(pairs_model(extra@.take(j + 1)) =~= pairs_model(
                        extra@.take(j as int),
                    ).push((extra@[j as int].0@, extra@[j as int].1@)));
                    lemma_assoc_merge_push(
                        self.headers_model(),
                        pairs_model(extra@.take(j as int)),
                        (extra@[j as int].0@, extra@[j as int].1@),
                    );
                }
                j = j + 1;
            }
            proof {
                assert(extra@.take(extra_len as int) =~= extra@);
            }
        }
        let merged_len = merged.len();
        let ghost merged_model = pairs_model(merged@);
        let mut out = String::new();
        let mut k: usize = 0;
        while k < merged_len
            invariant
                merged_len == merged@.len(),
                0 <= k <= merged_len,
                pairs_model(merged@) == merged_model,
                out@ == header_text(pairs_model(merged@.take(k as int))),
            decreases merged_len - k,
        {
            let p = &merged[k];
            out.append(p.0.as_str());
            out.append(": ");
            out.append(p.1.as_str());
            out.append("\r\n");
            proof {
                assert(merged@.take(k + 1) =~= merged@.take(k as int).push(merged@[k as int]));
                assert(pairs_model(merged@.take(k + 1)) =~= pairs_model(
                    merged@.take(k as int),
                ).push((merged@[k as int].0@, merged@[k as int].1@)));
                lemma_header_text_push(
                    pairs_model(merged@.take(k as int)),
                    (merged@[k as int].0@, merged@[k as int].1@),
                );
                assert(out@ =~= header_text(pairs_model(merged@.take(k + 1))));
            }
            k = k + 1;
        }
        proof {
            assert(merged@.take(merged_len as int) =~= merged@);
        }
        out.as_str().as_bytes_vec()
    }
}

/// Binds `name` to `value` in the header list: the first entry with that
/// name is replaced in place, or a new entry is appended.
fn insert_header(list: &mut Vec<(String, String)>, name: String, value: String)
    ensures
        pairs_model(final(list)@) == assoc_set(pairs_model(old(list)@), name@, value@),
{
    let n = list.len();
    let mut i: usize = 0;
    while i < n
        invariant
            n == list@.len(),
            list@ == old(list)@,
            0 <= i <= n,
            forall|j: int| 0 <= j < i ==> (#[trigger] pairs_model(list@)[j]).0 != name@,
        decreases n - i,
    {
        if list[i].0 == name {
            proof {
                lemma_assoc_set_at(pairs_model(list@), name@, value@, i as int);
            }
            list[i] = (name, value);
            proof {
                assert(pairs_model(list@) =~= pairs_model(old(list)@).update(
                    i as int,
                    (name@, value@),
                ));
                assert(pairs_model(old(list)@).update(i as int, (name@, value@)) =~= assoc_set(
                    pairs_model(old(list)@),
                    name@,
                    value@,
                ));
            }
            return;
        }
        i = i + 1;
    }
    proof {
        lemma_assoc_set_push(pairs_model(list@), name@, value@);
    }
    list.push((name, value));
    proof {
        assert(pairs_model(list@) =~= pairs_model(old(list)@).push((name@, value@)));
    }
}

/// Index of the last occurrence of `c` in `s`, or -1 when none occurs.
pub open spec fn last_index_of(s: Seq<char>, c: char) -> int
    decreases s.len(),
{
    if s.len() == 0 {
        -1
    } else if s[s.len() - 1] == c {
        s.len() - 1
    } else {
        last_index_of(s.drop_last(), c)
    }
}

pub proof fn lemma_last_index_bounds(s: Seq<char>, c: char)
    ensures
        -1 <= last_index_of(s, c) < s.len(),
    decreases s.len(),
{
    if s.len() > 0 && s[s.len() - 1] != c {
        lemma_last_index_bounds(s.drop_last(), c);
    }
}

/// A backward scan that found its last match at `k` agrees with `last_index_of`.
pub proof fn lemma_last_index_found(s: Seq<char>, c: char, k: int)
    requires
        0 <= k < s.len(),
        s[k] == c,
        forall|j: int| k < j < s.len() ==> (#[trigger] s[j]) != c,
    ensures
        last_index_of(s, c) == k,
    decreases s.len(),
{
    if k < s.len() - 1 {
        assert(forall|j: int| k < j < s.drop_last().len() ==> (#[trigger] s.drop_last()[j]) != c);
        assert(s.drop_last()[k] == c);
        lemma_last_index_found(s.drop_last(), c, k);
    }
}

/// A backward scan that found no match agrees with `last_index_of`.
pub proof fn lemma_last_index_none(s: Seq<char>, c: char)
    requires
        forall|j: int| 0 <= j < s.len() ==> (#[trigger] s[j]) != c,
    ensures
        last_index_of(s, c) == -1,
    decreases s.len(),
{
    if s.len() > 0 {
        assert(forall|j: int| 0 <= j < s.drop_last().len() ==> (#[trigger] s.drop_last()[j]) != c);
        lemma_last_index_none(s.drop_last(), c);
    }
}

/// Index of the last occurrence of `c` in `st`, if any.
fn rfind_char(st: &str, c: char) -> (r: Option<usize>)
    ensures
        match r {
            Some(k) => last_index_of(st@, c) == k,
            None => last_index_of(st@, c) == -1,
        },
{
    let n = st.unicode_len();
    let mut i: usize = n;
    while i > 0
        invariant
            n == st@.len(),
            i <= n,
            forall|j: int| i <= j < n ==> (#[trigger] st@[j]) != c,
        decreases i,
    {
        let k = i - 1;
        if st.get_char(k) == c {
            proof {
                lemma_last_index_found(st@, c, k as int);
            }
            return Some(k);
        }
        i = k;
    }
    proof {
        lemma_last_index_none(st@, c);
    }
    None
}

/// The final component of `name`: everything after its last `'/'`.
pub open spec fn file_base(name: Seq<char>) -> Seq<char> {
    name.subrange(last_index_of(name, '/') + 1, name.len() as int)
}

/// The extension of `name`: what follows the last `'.'` of its final
/// component, none when that component has no `'.'` past its first
/// character.
pub open spec fn extension_of(name: Seq<char>) -> Option<Seq<char>> {
    let base = file_base(name);
    let d = last_index_of(base, '.');
    if d > 0 {
        Some(base.subrange(d + 1, base.len() as int))
    } else {
        None
    }
}

/// The content type for a file name: the MIME table's entry for its
/// extension, `"text/html"` when the extension is absent or unknown.
pub open spec fn mime_text(m: Seq<(Seq<char>, Seq<char>)>, name: Seq<char>) -> Seq<char> {
    match extension_of(name) {
        Some(e) => match assoc_find(m, e) {
            Some(v) => v,
            None => "text/html"@,
        },
        None => "text/html"@,
    }
}

/// The URI with exactly one leading `'/'` stripped: the served file's path.
pub open spec fn file_path_of(uri: Seq<char>) -> Seq<char> {
    if uri.len() > 0 && uri[0] == '/' {
        uri.drop_first()
    } else {
        uri
    }
}

fn strip_one_slash(uri: &str) -> (r: String)
    ensures
        r@ == file_path_of(uri@),
{
    let n = uri.unicode_len();
    if n > 0 && uri.get_char(0) == '/' {
        let rest = uri.substring_char(1, n);
        proof {
            assert(uri@.subrange(1, n as int) =~= uri@.drop_first());
        }
        String::from_str(rest)
    } else {
        String::from_str(uri)
    }
}

/// The URI a request carries, the empty text when the field is unset.
pub open spec fn req_uri_text(r: HTTPRequest) -> Seq<char> {
    match r.uri {
        Some(u) => u@,
        None => Seq::empty(),
    }
}

/// Whether a request's method is exactly `"GET"`.
pub open spec fn req_is_get(r: HTTPRequest) -> bool {
    match r.method {
        Some(m) => m@ == "GET"@,
        None => false,
    }
}

/// Whether the method word of the decoded request text is exactly `"GET"`.
pub open spec fn is_get_text(t: Seq<char>) -> bool {
    first_word(request_line_of(t)) == "GET"@
}

/// The URI word of the decoded request text, empty when absent.
pub open spec fn uri_text(t: Seq<char>) -> Seq<char> {
    if has_second_word(request_line_of(t)) {
        second_word(request_line_of(t))
    } else {
        Seq::empty()
    }
}

/// The bytes of the blank line separating headers from body.
pub open spec fn crlf_bytes() -> Seq<u8> {
    seq![13u8, 10u8]
}

/// The body sent with a 404 response.
pub open spec fn err_404_body() -> Seq<u8> {
    encode_utf8("<h1>404 Not Found</h1>"@)
}

/// The body sent with a 501 response.
pub open spec fn err_501_body() -> Seq<u8> {
    encode_utf8("<h1>501 Not Implemented</h1>"@)
}

/// The bit-exact response layout: status line, header block, blank line,
/// raw body.
pub open spec fn response_bytes(
    code: u16,
    reason: Seq<char>,
    hdrs: Seq<(Seq<char>, Seq<char>)>,
    body: Seq<u8>,
) -> Seq<u8> {
    encode_utf8(status_line_text(code, reason)) + encode_utf8(header_text(hdrs)) + crlf_bytes()
        + body
}

impl HTTPHandler {
    /// The 200 response this handler builds for a GET of `path` whose file
    /// contents are `body`.
    pub open spec fn ok_response_bytes(&self, path: Seq<char>, body: Seq<u8>) -> Seq<u8> {
        response_bytes(
            200,
            reason_text(self.status_model(), 200),
            assoc_merge(
                self.headers_model(),
                seq![("Content-Type"@, mime_text(self.mime_model(), path))],
            ),
            body,
        )
    }

    /// The 404 response this handler builds.
    pub open spec fn not_found_bytes(&self) -> Seq<u8> {
        response_bytes(404, reason_text(self.status_model(), 404), self.headers_model(), err_404_body())
    }

    /// The 501 response this handler builds.
    pub open spec fn not_implemented_bytes(&self) -> Seq<u8> {
        response_bytes(
            501,
            reason_text(self.status_model(), 501),
            self.headers_model(),
            err_501_body(),
        )
    }

    /// The content type for `filename` from this handler's MIME table,
    /// `"text/html"` when the extension is absent or unknown.
    pub fn get_mime_type(&self, filename: &str) -> (r: String)
        ensures
            r@ == mime_text(self.mime_model(), filename@),
    {
        let n = filename.unicode_len();
        proof {
            lemma_last_index_bounds(filename@, '/');
        }
        let start: usize = match rfind_char(filename, '/') {
            Some(k) => k + 1,
            None => 0,
        };
        let base = filename.substring_char(start, n);
        proof {
            assert(base@ =~= file_base(filename@));
            lemma_last_index_bounds(base@, '.');
        }
        let blen = base.unicode_len();
        match rfind_char(base, '.') {
            Some(d) => {
                if d > 0 {
                    let ext = base.substring_char(d + 1, blen);
                    self.mime_lookup(ext)
                } else {
                    String::from_str("text/html")
                }
            },
            None => String::from_str("text/html"),
        }
    }

    /// The MIME table's entry for `ext`, `"text/html"` on a miss.
    fn mime_lookup(&self, ext: &str) -> (r: String)
        ensures
            r@ == match assoc_find(self.mime_model(), ext@) {
                Some(v) => v,
                None => "text/html"@,
            },
    {
        let key = String::from_str(ext);
        let n = self.mime_types.len();
        let mut i: usize = 0;
        loop
            invariant
                n == self.mime_types@.len(),
                self.mime_model().len() == n,
                0 <= i <= n,
                key@ == ext@,
                forall|j: int| 0 <= j < i ==> (#[trigger] self.mime_model()[j]).0 != ext@,
            decreases n - i,
        {
            if i >= n {
                proof {
                    lemma_assoc_find_none(self.mime_model(), ext@);
                }
                return String::from_str("text/html");
            }
            let entry = &self.mime_types[i];
            if entry.0 == key {
                proof {
                    lemma_assoc_find_at(self.mime_model(), ext@, i as int);
                }
                return entry.1.clone();
            }
            i = i + 1;
        }
    }

    /// The GET path: a 200 response carrying `file_content` when the request
    /// names a nonempty path and the file was read, the 404 fallback
    /// otherwise.  The caller resolves the path against the file system and
    /// hands the bytes in; a missing or unreadable file arrives as `None`.
    #[allow(non_snake_case)]
    pub fn handle_GET(&self, request: &HTTPRequest, file_content: Option<Vec<u8>>) -> (r: Vec<u8>)
        ensures
            ({
                let path = file_path_of(req_uri_text(*request));
                &&& (file_content matches Some(b) ==> (path.len() > 0 ==> r@
                    == self.ok_response_bytes(path, b@)))
                &&& (path.len() == 0 || file_content is None) ==> r@ == self.not_found_bytes()
            }),
    {
        let uri: &str = match &request.uri {
            Some(u) => u.as_str(),
            None => "",
        };
        proof {
            reveal_strlit("");
            assert(""@ =~= Seq::<char>::empty());
        }
        let filename = strip_one_slash(uri);
        if !filename.as_str().is_empty() {
            if let Some(body) = file_content {
                let line = self.response_line(200);
                let content_type = self.get_mime_type(filename.as_str());
                let mut extra: Vec<(String, String)> = Vec::new();
                extra.push((String::from_str("Content-Type"), content_type));
                proof {
                    assert(pairs_model(extra@) =~= seq![
                        ("Content-Type"@, mime_text(self.mime_model(), filename@)),
                    ]);
                }
                let headers = self.response_headers(Some(extra));
                let mut response = line;
                response.extend_from_slice(headers.as_slice());
                response.push(13);
                response.push(10);
                response.extend_from_slice(body.as_slice());
                proof {
                    assert(response@ =~= self.ok_response_bytes(
                        file_path_of(req_uri_text(*request)),
                        body@,
                    ));
                }
                return response;
            }
        }
        let line = self.response_line(404);
        let headers = self.response_headers(None);
        let mut response = line;
        response.extend_from_slice(headers.as_slice());
        response.push(13);
        response.push(10);
        let body = "<h1>404 Not Found</h1>".as_bytes_vec();
        response.extend_from_slice(body.as_slice());
        proof {
            assert(response@ =~= self.not_found_bytes());
        }
        response
    }

    /// The fallback for every request whose method is not `"GET"`: a 501
    /// response with the default headers and the literal body
    /// `<h1>501 Not Implemented</h1>`.
    #[allow(non_snake_case)]
    pub fn HTTP_501_handler(&self, request: &HTTPRequest) -> (r: Vec<u8>)
        ensures
            r@ == self.not_implemented_bytes(),
    {
        let line = self.response_line(501);
        let headers = self.response_headers(None);
        let mut response = line;
        response.extend_from_slice(headers.as_slice());
        response.push(13);
        response.push(10);
        let body = "<h1>501 Not Implemented</h1>".as_bytes_vec();
        response.extend_from_slice(body.as_slice());
        proof {
            assert(response@ =~= self.not_implemented_bytes());
        }
        response
    }

    /// The path of the file a request asks for: set exactly when the method
    /// is `"GET"` and the URI names a nonempty path.  The caller reads that
    /// file and passes its contents to `handle_request` or `handle_GET`.
    pub fn requested_file(&self, request: &HTTPRequest) -> (r: Option<String>)
        ensures
            ({
                let path = file_path_of(req_uri_text(*request));
                if req_is_get(*request) && path.len() > 0 {
                    r matches Some(f) && f@ == path
                } else {
                    r is None
                }
            }),
    {
        match &request.method {
            Some(m) => {
                let get = String::from_str("GET");
                if *m == get {
                    let uri: &str = match &request.uri {
                        Some(u) => u.as_str(),
                        None => "",
                    };
                    proof {
                        reveal_strlit("");
                        assert(""@ =~= Seq::<char>::empty());
                    }
                    let filename = strip_one_slash(uri);
                    if !filename.as_str().is_empty() {
                        Some(filename)
                    } else {
                        None
                    }
                } else {
                    None
                }
            },
            None => None,
        }
    }

    /// One full request: parses `data`, serves `"GET"` through the file
    /// contents the caller resolved, and answers 501 for any other method.
    pub fn handle_request(&self, data: &[u8], file_content: Option<Vec<u8>>) -> (r: Vec<u8>)
        ensures
            ({
                let t = utf8_lossy(data@);
                let path = file_path_of(uri_text(t));
                &&& (file_content matches Some(b) ==> (is_get_text(t) && path.len() > 0 ==> r@
                    == self.ok_response_bytes(path, b@)))
                &&& is_get_text(t) && (path.len() == 0 || file_content is None) ==> r@
                    == self.not_found_bytes()
                &&& !is_get_text(t) ==> r@ == self.not_implemented_bytes()
            }),
            vstd::utf8::valid_utf8(data@) ==> utf8_lossy(data@) == vstd::utf8::decode_utf8(data@),
    {
        let request = HTTPRequest::new(data);
        proof {
            reveal_strlit("GET");
            let line = request_line_of(utf8_lossy(data@));
            if line.len() == 0 {
                assert(first_word(line) =~= Seq::<char>::empty());
                assert(!is_get_text(utf8_lossy(data@)));
            }
        }
        let is_get = match &request.method {
            Some(m) => {
                let get = String::from_str("GET");
                *m == get
            },
            None => false,
        };
        if is_get {
            self.handle_GET(&request, file_content)
        } else {
            self.HTTP_501_handler(&request)
        }
    }
}

/// The reason phrases the default status table assigns, including the
/// `"Unknown"` fallback for a code outside the table.
pub proof fn lemma_default_reasons()
    ensures
        reason_text(default_status_list(), 200) == "OK"@,
        reason_text(default_status_list(), 404) == "Not Found"@,
        reason_text(default_status_list(), 501) == "Not Implemented"@,
        reason_text(default_status_list(), 999) == "Unknown"@,
{
    let m = default_status_list();
    assert(m.drop_first() =~= seq![(404u16, "Not Found"@), (501u16, "Not Implemented"@)]);
    assert(m.drop_first().drop_first() =~= seq![(501u16, "Not Implemented"@)]);
    assert(m.drop_first().drop_first().drop_first() =~= Seq::<(u16, Seq<char>)>::empty());
    assert(assoc_find(m, 200u16) == Some("OK"@));
    assert(assoc_find(m.drop_first(), 404u16) == Some("Not Found"@));
    assert(assoc_find(m.drop_first().drop_first(), 501u16) == Some("Not Implemented"@));
    assert(assoc_find(m.drop_first(), 501u16) == Some("Not Implemented"@));
    assert(assoc_find(m.drop_first().drop_first().drop_first(), 999u16) is None);
    assert(assoc_find(m.drop_first().drop_first(), 999u16) is None);
    assert(assoc_find(m.drop_first(), 999u16) is None);
}

/// The exact text of the status lines of the three canned statuses under
/// the default status table: bit-exactly what the response builder's
/// contract promises for codes 200, 404 and 501.
pub proof fn lemma_default_status_lines()
    ensures
        status_line_text(200, reason_text(default_status_list(), 200)) == "HTTP/1.1 200 OK\r\n"@,
        status_line_text(404, reason_text(default_status_list(), 404)) == "HTTP/1.1 404 Not Found\r\n"@,
        status_line_text(501, reason_text(default_status_list(), 501))
            == "HTTP/1.1 501 Not Implemented\r\n"@,
{
    lemma_default_reasons();
    lemma_dec_digits_3(200);
    lemma_dec_digits_3(404);
    lemma_dec_digits_3(501);
    reveal_strlit("HTTP/1.1 ");
    reveal_strlit(" ");
    reveal_strlit("\r\n");
    reveal_strlit("OK");
    reveal_strlit("Not Found");
    reveal_strlit("Not Implemented");
    reveal_strlit("HTTP/1.1 200 OK\r\n");
    reveal_strlit("HTTP/1.1 404 Not Found\r\n");
    reveal_strlit("HTTP/1.1 501 Not Implemented\r\n");
    assert(status_line_text(200, "OK"@) =~= "HTTP/1.1 200 OK\r\n"@);
    assert(status_line_text(404, "Not Found"@) =~= "HTTP/1.1 404 Not Found\r\n"@);
    assert(status_line_text(501, "Not Implemented"@) =~= "HTTP/1.1 501 Not Implemented\r\n"@);
}

/// The decimal rendering of a three-digit number, digit by digit.
proof fn lemma_dec_digits_3(n: u16)
    requires
        100 <= n < 1000,
    ensures
        dec_digits(n as nat) =~= seq![
            digit_char((n as nat) / 100),
            digit_char(((n as nat) / 10) % 10),
            digit_char((n as nat) % 10),
        ],
{
    let nn = n as nat;
    assert(dec_digits(nn / 100) =~= seq![digit_char(nn / 100)]);
    assert(nn / 10 / 10 == nn / 100) by (nonlinear_arith)
        requires 100 <= nn < 1000;
    assert(dec_digits(nn / 10) =~= dec_digits(nn / 100).push(digit_char((nn / 10) % 10)));
    assert(dec_digits(nn) =~= dec_digits(nn / 10).push(digit_char(nn % 10)));
}

/// The law of the default headers: both are present in every merged header
/// set, with their default values, unless an extra header of the same name
/// overrides them, in which case the override's value is observed instead.
pub proof fn lemma_default_headers_present(extra: Seq<(Seq<char>, Seq<char>)>)
    requires
        distinct_keys(extra),
    ensures
        assoc_find(assoc_merge(default_header_list(), extra), "Server"@) == if assoc_has_key(
            extra,
            "Server"@,
        ) {
            assoc_find(extra, "Server"@)
        } else {
            Some("CrudeServer"@)
        },
        assoc_find(assoc_merge(default_header_list(), extra), "Content-Type"@)
            == if assoc_has_key(extra, "Content-Type"@) {
            assoc_find(extra, "Content-Type"@)
        } else {
            Some("text/html"@)
        },
{
    lemma_assoc_merge_find(default_header_list(), extra, "Server"@);
    lemma_assoc_merge_find(default_header_list(), extra, "Content-Type"@);
    reveal_strlit("Server");
    reveal_strlit("Content-Type");
    assert("Server"@.len() != "Content-Type"@.len());
    let base = default_header_list();
    assert(assoc_find(base, "Server"@) == Some("CrudeServer"@));
    assert(base.drop_first() =~= seq![("Content-Type"@, "text/html"@)]);
    assert(assoc_find(base.drop_first(), "Content-Type"@) == Some("text/html"@));
}

/// The exact text of the header block emitted for the default header set:
/// one line per default header, in table order.
pub proof fn lemma_default_header_block()
    ensures
        header_text(default_header_list()) == "Server: CrudeServer\r\nContent-Type: text/html\r\n"@,
{
    let m = default_header_list();
    reveal_strlit("Server");
    reveal_strlit("CrudeServer");
    reveal_strlit("Content-Type");
    reveal_strlit("text/html");
    reveal_strlit(": ");
    reveal_strlit("\r\n");
    reveal_strlit("Server: CrudeServer\r\nContent-Type: text/html\r\n");
    assert(m.drop_first() =~= seq![("Content-Type"@, "text/html"@)]);
    assert(m.drop_first().drop_first() =~= Seq::<(Seq<char>, Seq<char>)>::empty());
    assert(header_text(m.drop_first().drop_first()) == Seq::<char>::empty());
    assert(header_text(m.drop_first()) =~= header_line_text("Content-Type"@, "text/html"@));
    assert(header_text(m) =~= "Server: CrudeServer\r\nContent-Type: text/html\r\n"@);
}

} // verus!
