//! Parsing a raw HTTP request into its request line, selected headers and body.
use vstd::prelude::*;
use crate::text::{
    chars_of, find, find_in, line_ranges, sub_vec, lines, parse_u32, parse_u32_spec,
    split_once, substring, trim, trim_range, word_ranges, words,
};

verus! {

/// A parsed HTTP request. Headers that were not sent read as empty, and a
/// missing or unreadable `Content-Length` reads as zero.
pub struct Request {
    pub method: String,
    pub target: String,
    pub version: String,
    pub user_agent: String,
    pub accept: String,
    pub content_type: String,
    pub content_length: u32,
    pub accept_encoding: String,
    pub content: String,
}

/// The line terminator `"\r\n"`.
pub open spec fn crlf() -> Seq<char> {
    seq!['\r', '\n']
}

/// The blank line `"\r\n\r\n"` that ends the header block.
pub open spec fn blank_line() -> Seq<char> {
    seq!['\r', '\n', '\r', '\n']
}

/// The separator `": "` between a header's name and its value.
pub open spec fn colon_space() -> Seq<char> {
    seq![':', ' ']
}

/// The (name, value) pair that a header line gives: split at the first `": "`,
/// both parts trimmed; a line without the separator is a name with an empty value.
pub open spec fn header_entry(line: Seq<char>) -> (Seq<char>, Seq<char>) {
    match split_once(line, colon_space()) {
        Some(kv) => (trim(kv.0), trim(kv.1)),
        None => (trim(line), seq![]),
    }
}

/// The (name, value) pairs of a header block, one per line.
pub open spec fn header_entries(block: Seq<char>) -> Seq<(Seq<char>, Seq<char>)> {
    lines(block).map_values(|l: Seq<char>| header_entry(l))
}

/// The value that the last pair named `key` holds, or empty when none is.
pub open spec fn header_lookup(entries: Seq<(Seq<char>, Seq<char>)>, key: Seq<char>) -> Seq<char>
    decreases entries.len(),
{
    if entries.len() == 0 {
        seq![]
    } else if entries.last().0 == key {
        entries.last().1
    } else {
        header_lookup(entries.drop_last(), key)
    }
}

/// The value of header `key` in a header block.
pub open spec fn header_value(block: Seq<char>, key: Seq<char>) -> Seq<char> {
    header_lookup(header_entries(block), key)
}

/// The pairs of a list of string pairs, as character sequences.
pub open spec fn entries_view(v: Seq<(String, String)>) -> Seq<(Seq<char>, Seq<char>)> {
    v.map_values(|e: (String, String)| (e.0@, e.1@))
}

/// A request that can be parsed: it holds a blank line, and its first line
/// holds at least three words.
pub open spec fn well_formed(raw: Seq<char>) -> bool {
    &&& find(raw, blank_line()) is Some
    &&& find(raw, crlf()) is Some
    &&& words(request_line(raw)).len() >= 3
}

/// Everything before the first line terminator.
pub open spec fn request_line(raw: Seq<char>) -> Seq<char> {
    split_once(raw, crlf()).unwrap().0
}

/// Everything after the first line terminator: the header lines, and past
/// them whatever follows.
pub open spec fn header_block(raw: Seq<char>) -> Seq<char> {
    split_once(raw, crlf()).unwrap().1
}

/// Everything after the first blank line.
pub open spec fn body(raw: Seq<char>) -> Seq<char> {
    split_once(raw, blank_line()).unwrap().1
}

/// The `Content-Length` that a header block declares: zero when absent or unreadable.
pub open spec fn declared_length(block: Seq<char>) -> u32 {
    match parse_u32_spec(header_value(block, "Content-Length"@)) {
        Some(n) => n,
        None => 0,
    }
}

/// What parsing `raw` gives, field by field.
pub open spec fn parsed_as(r: Request, raw: Seq<char>) -> bool {
    let w = words(request_line(raw));
    let h = header_block(raw);
    &&& r.method@ == w[0]
    &&& r.target@ == w[1]
    &&& r.version@ == w[2]
    &&& r.user_agent@ == header_value(h, "User-Agent"@)
    &&& r.accept@ == header_value(h, "Accept"@)
    &&& r.content_type@ == header_value(h, "Content-Type"@)
    &&& r.accept_encoding@ == header_value(h, "Accept-Encoding"@)
    &&& r.content_length == declared_length(h)
    &&& r.content@ == body(raw)
}

/// The first three words of a request line: method, target and version.
/// `None` when the line holds fewer than three.
pub fn parse_first_line(request_line: &str) -> (r: Option<(String, String, String)>)
    ensures
        match r {
            Some(t) => words(request_line@).len() >= 3 && t.0@ == words(request_line@)[0]
                && t.1@ == words(request_line@)[1] && t.2@ == words(request_line@)[2],
            None => words(request_line@).len() < 3,
        },
{
    let c = chars_of(request_line);
    let n: usize = c.len();
    let w = word_ranges(&c, 0, n);
    assert(c@.subrange(0, n as int) =~= request_line@);
    if w.len() < 3 {
        return None;
    }
    let method = substring(request_line, w[0].0, w[0].1);
    let target = substring(request_line, w[1].0, w[1].1);
    let version = substring(request_line, w[2].0, w[2].1);
    Some((method, target, version))
}

/// The (name, value) pairs of a header block, one per `"\r\n"`-separated line,
/// in order.
pub fn parse_headers(headers: &str) -> (r: Vec<(String, String)>)
    ensures
        entries_view(r@) == header_entries(headers@),
{
    let c = chars_of(headers);
    let n: usize = c.len();
    assert(c@.subrange(0, n as int) =~= headers@);
    let ls = line_ranges(&c, 0, n);
    let sep: Vec<char> = vec![':', ' '];
    assert(sep@ =~= colon_space());
    let mut out: Vec<(String, String)> = Vec::new();
    let mut k: usize = 0;
    while k < ls.len()
        invariant
            c@ == headers@,
            n == c@.len(),
            sep@ == colon_space(),
            ls@.len() == lines(headers@).len(),
            forall|j: int|
                0 <= j < ls@.len() ==> 0 <= #[trigger] ls@[j].0 <= ls@[j].1 <= n && c@.subrange(
                    ls@[j].0 as int,
                    ls@[j].1 as int,
                ) == lines(headers@)[j],
            k <= ls@.len(),
            out@.len() == k,
            forall|j: int|
                0 <= j < k ==> (#[trigger] out@[j].0@, out@[j].1@) == header_entry(
                    lines(headers@)[j],
                ),
        decreases ls@.len() - k,
    {
        let la: usize = ls[k].0;
        let lb: usize = ls[k].1;
        let line = sub_vec(&c, la, lb);
        let ghost l = lines(headers@)[k as int];
        match find_in(&line, &sep) {
            Some(i) => {
                assert(c@.subrange(la as int, la + i) =~= l.take(i as int));
                assert(c@.subrange(la + i + 2, lb as int) =~= l.skip(i + 2));
                let (ka, kb) = trim_range(&c, la, la + i);
                let (va, vb) = trim_range(&c, la + i + 2, lb);
                out.push((substring(headers, ka, kb), substring(headers, va, vb)));
            },
            None => {
                let (ka, kb) = trim_range(&c, la, lb);
                out.push((substring(headers, ka, kb), String::new()));
                assert(out@[k as int].1@ =~= Seq::<char>::empty());
            },
        }
        k += 1;
    }
    assert(entries_view(out@) =~= header_entries(headers@));
    out
}

/// The value of header `key` among `map`'s pairs: the last pair of that name
/// wins, and a missing header reads as empty.
pub fn get_from_map(key: &str, map: &Vec<(String, String)>) -> (r: String)
    ensures
        r@ == header_lookup(entries_view(map@), key@),
{
    let k = String::from_str(key);
    let mut i: usize = map.len();
    assert(map@.take(i as int) =~= map@);
    while i > 0
        invariant
            i <= map@.len(),
            k@ == key@,
            header_lookup(entries_view(map@), key@) == header_lookup(
                entries_view(map@.take(i as int)),
                key@,
            ),
        decreases i,
    {
        let ghost e = entries_view(map@.take(i as int));
        assert(e.drop_last() =~= entries_view(map@.take(i - 1)));
        if map[i - 1].0 == k {
            return map[i - 1].1.clone();
        }
        i -= 1;
    }
    String::new()
}

impl Request {
    /// Parses `request`, or gives `None` when it holds no blank line or its
    /// first line holds fewer than three words.
    pub fn try_from_string(request: &str) -> (r: Option<Request>)
        ensures
            match r {
                Some(q) => well_formed(request@) && parsed_as(q, request@),
                None => !well_formed(request@),
            },
    {
        let c = chars_of(request);
        let n: usize = c.len();
        let blank_pat: Vec<char> = vec!['\r', '\n', '\r', '\n'];
        let eol_pat: Vec<char> = vec!['\r', '\n'];
        assert(blank_pat@ =~= blank_line());
        assert(eol_pat@ =~= crlf());
        let blank = match find_in(&c, &blank_pat) {
            Some(i) => i,
            None => return None,
        };
        let eol = match find_in(&c, &eol_pat) {
            Some(i) => i,
            None => return None,
        };
        let first_line = substring(request, 0, eol);
        let rest = substring(request, eol + 2, n);
        assert(first_line@ =~= request_line(request@));
        assert(rest@ =~= header_block(request@));
        let (method, target, version) = match parse_first_line(first_line.as_str()) {
            Some(t) => t,
            None => return None,
        };
        let content = substring(request, blank + 4, n);
        assert(content@ =~= body(request@));
        let headers = parse_headers(rest.as_str());
        let length_text = get_from_map("Content-Length", &headers);
        let lc = chars_of(length_text.as_str());
        assert(lc@.subrange(0, lc@.len() as int) =~= length_text@);
        let content_length: u32 = match parse_u32(&lc, 0, lc.len()) {
            Some(v) => v,
            None => 0,
        };
        Some(
            Request {
                method,
                target,
                version,
                user_agent: get_from_map("User-Agent", &headers),
                accept: get_from_map("Accept", &headers),
                content_type: get_from_map("Content-Type", &headers),
                accept_encoding: get_from_map("Accept-Encoding", &headers),
                content_length,
                content,
            },
        )
    }

    /// Parses a request that holds a blank line and whose first line holds at
    /// least three words.
    pub fn from_string(request: &str) -> (r: Request)
        requires
            well_formed(request@),
        ensures
            parsed_as(r, request@),
    {
        match Request::try_from_string(request) {
            Some(q) => q,
            None => unreached(),
        }
    }
}

} // verus!
