//! The HTTP request-line parser.  The whole buffer is decoded as UTF-8 with
//! replacement characters for invalid sequences, the first CR-LF-delimited
//! line is taken as the request line, and its first three space-delimited
//! words become method, URI and HTTP version.  Absent words, and an empty
//! request line, leave the corresponding fields unset; the parser never
//! fails.

use vstd::prelude::*;

use crate::text::{
    crlf_from, lemma_crlf_found, lemma_crlf_from_bounds, lemma_crlf_none, lemma_space_found,
    lemma_space_from_bounds, lemma_space_none, space_from,
};
use vstd::string::{StrSliceExecFns, StringExecFns};

verus! {

/// The characters that `String::from_utf8_lossy` decodes `bytes` to.
pub uninterp spec fn utf8_lossy(bytes: Seq<u8>) -> Seq<char>;

/// Relies on `String::from_utf8_lossy`: the decoding is a function of the
/// bytes alone, and bytes that already are valid UTF-8 decode to exactly the
/// characters they encode.
#[verifier::external_body]
fn decode_utf8_lossy(data: &[u8]) -> (r: String)
    ensures
        r@ == utf8_lossy(data@),
        vstd::utf8::valid_utf8(data@) ==> r@ == vstd::utf8::decode_utf8(data@),
{
    String::from_utf8_lossy(data).into_owned()
}

/// The request line: everything before the first CR-LF pair, or the whole
/// text when none occurs.
pub open spec fn request_line_of(t: Seq<char>) -> Seq<char> {
    t.subrange(0, crlf_from(t, 0))
}

pub open spec fn first_space_of(line: Seq<char>) -> int {
    space_from(line, 0)
}

/// The first space-delimited word of the line (the whole line when it has
/// no space; empty when the line is empty).
pub open spec fn first_word(line: Seq<char>) -> Seq<char> {
    line.subrange(0, first_space_of(line))
}

/// Whether the line has a second word, that is, at least one space.
pub open spec fn has_second_word(line: Seq<char>) -> bool {
    first_space_of(line) < line.len()
}

pub open spec fn second_space_of(line: Seq<char>) -> int {
    space_from(line, first_space_of(line) + 1)
}

pub open spec fn second_word(line: Seq<char>) -> Seq<char> {
    line.subrange(first_space_of(line) + 1, second_space_of(line))
}

/// Whether the line has a third word, that is, at least two spaces.
pub open spec fn has_third_word(line: Seq<char>) -> bool {
    has_second_word(line) && second_space_of(line) < line.len()
}

pub open spec fn third_space_of(line: Seq<char>) -> int {
    space_from(line, second_space_of(line) + 1)
}

pub open spec fn third_word(line: Seq<char>) -> Seq<char> {
    line.subrange(second_space_of(line) + 1, third_space_of(line))
}

/// What `parse` leaves in the three fields, given the decoded text `t` and
/// the field values `method0`, `uri0`, `version0` from before the call: the
/// method is the first word of the request line; an empty request line and
/// absent second or third words leave the corresponding fields untouched.
pub open spec fn parse_result(
    r: HTTPRequest,
    t: Seq<char>,
    method0: Option<String>,
    uri0: Option<String>,
    version0: String,
) -> bool {
    let line = request_line_of(t);
    &&& if line.len() > 0 {
        r.method matches Some(m) && m@ == first_word(line)
    } else {
        r.method == method0
    }
    &&& if has_second_word(line) {
        r.uri matches Some(u) && u@ == second_word(line)
    } else {
        r.uri == uri0
    }
    &&& if has_third_word(line) {
        r.http_version@ == third_word(line)
    } else {
        r.http_version == version0
    }
}

/// A structured HTTP request: the three words of the request line.  `method`
/// and `uri` stay unset when the request line is too short to supply them;
/// the version defaults to `"1.1"`.
pub struct HTTPRequest {
    pub method: Option<String>,
    pub uri: Option<String>,
    pub http_version: String,
}

/// Index of the first CR-LF pair of `st`, or its length when none occurs.
fn find_crlf(st: &str) -> (r: usize)
    ensures
        r == crlf_from(st@, 0),
{
    let n = st.unicode_len();
    let mut i: usize = 0;
    loop
        invariant
            n == st@.len(),
            0 <= i <= n,
            forall|j: int| 0 <= j < i ==> !((#[trigger] st@[j]) == '\r' && st@[j + 1] == '\n'),
        decreases n - i,
    {
        if n - i < 2 {
            proof {
                lemma_crlf_none(st@, 0);
            }
            return n;
        }
        if st.get_char(i) == '\r' && st.get_char(i + 1) == '\n' {
            proof {
                lemma_crlf_found(st@, 0, i as int);
            }
            return i;
        }
        i = i + 1;
    }
}

/// Index of the first space of `st` at or after `from`, or the length of
/// `st` when none occurs there.
fn find_space(st: &str, from: usize) -> (r: usize)
    requires
        from <= st@.len(),
    ensures
        r == space_from(st@, from as int),
{
    let n = st.unicode_len();
    let mut i: usize = from;
    loop
        invariant
            n == st@.len(),
            from <= i <= n,
            forall|j: int| from <= j < i ==> (#[trigger] st@[j]) != ' ',
        decreases n - i,
    {
        if i >= n {
            proof {
                lemma_space_none(st@, from as int);
            }
            return n;
        }
        if st.get_char(i) == ' ' {
            proof {
                lemma_space_found(st@, from as int, i as int);
            }
            return i;
        }
        i = i + 1;
    }
}

impl HTTPRequest {
    /// A request parsed from `data`, with unset fields where the request
    /// line is empty or too short and the default `"1.1"` version.
    pub fn new(data: &[u8]) -> (r: HTTPRequest)
        ensures
            ({
                let line = request_line_of(utf8_lossy(data@));
                &&& if line.len() > 0 {
                    r.method matches Some(m) && m@ == first_word(line)
                } else {
                    r.method is None
                }
                &&& if has_second_word(line) {
                    r.uri matches Some(u) && u@ == second_word(line)
                } else {
                    r.uri is None
                }
                &&& if has_third_word(line) {
                    r.http_version@ == third_word(line)
                } else {
                    r.http_version@ == "1.1"@
                }
            }),
            vstd::utf8::valid_utf8(data@) ==> utf8_lossy(data@) == vstd::utf8::decode_utf8(data@),
    {
        let mut request = HTTPRequest {
            method: None,
            uri: None,
            http_version: String::from_str("1.1"),
        };
        request.parse(data);
        request
    }

    /// Decodes `data` leniently and fills the fields from the first three
    /// words of its request line, leaving each field untouched when the
    /// corresponding word is absent and every field untouched when the
    /// request line is empty.  When `data` is valid UTF-8, the decoded text
    /// is exactly its character sequence.
    pub fn parse(&mut self, data: &[u8])
        ensures
            parse_result(
                *final(self),
                utf8_lossy(data@),
                old(self).method,
                old(self).uri,
                old(self).http_version,
            ),
            vstd::utf8::valid_utf8(data@) ==> utf8_lossy(data@) == vstd::utf8::decode_utf8(data@),
    {
        let text = decode_utf8_lossy(data);
        self.parse_text(text.as_str());
    }

    /// Fills the fields from the first three words of the request line of
    /// the already decoded text, leaving each field untouched when the
    /// corresponding word is absent and every field untouched when the
    /// request line is empty.
    pub fn parse_text(&mut self, st: &str)
        ensures
            parse_result(
                *final(self),
                st@,
                old(self).method,
                old(self).uri,
                old(self).http_version,
            ),
    {
        let line_end = find_crlf(st);
        proof {
            lemma_crlf_from_bounds(st@, 0);
        }
        let line: &str = st.substring_char(0, line_end);
        let llen = line.unicode_len();
        if llen == 0 {
            return;
        }
        let s0 = find_space(line, 0);
        proof {
            lemma_space_from_bounds(line@, 0);
        }
        let w0 = line.substring_char(0, s0);
        self.method = Some(String::from_str(w0));
        if s0 < llen {
            let s1 = find_space(line, s0 + 1);
            proof {
                lemma_space_from_bounds(line@, s0 + 1);
            }
            let w1 = line.substring_char(s0 + 1, s1);
            self.uri = Some(String::from_str(w1));
            if s1 < llen {
                let s2 = find_space(line, s1 + 1);
                proof {
                    lemma_space_from_bounds(line@, s1 + 1);
                }
                let w2 = line.substring_char(s1 + 1, s2);
                self.http_version = String::from_str(w2);
            }
        }
    }
}

} // verus!
