//! Browser-based login over a loopback server: the browser comes back to a local port
//! with a one-time code, which is accepted only with the `state` that this process
//! made up. The state defends against another local process that hits the port with
//! a code of its own, so checking it is this module's responsibility.
use vstd::prelude::*;
use crate::api::{encoded_byte, encoded_segment, is_unreserved};
use crate::text::{byte_len, decimal, decimal_text, hex_bytes, hex_text, is_digit, is_space, lemma_skip_until_at, lossy_text, same_text, scan_until, skip_until, slice_text, space_char, span_texts, split, split_spans, text_of, to_chars};

verus! {

// ── State ─────────────────────────────────────────────────────────────────────

/// `getrandom::getrandom` fills a buffer of 32 bytes from the operating system's
/// generator, or fails; nothing is known of the bytes or of the error.
#[verifier::external_body]
fn random_bytes() -> (r: Result<Vec<u8>, String>)
    ensures
        r matches Ok(b) ==> b@.len() == 32,
{
    let mut buf = [0u8; 32];
    match getrandom::getrandom(&mut buf) {
        Ok(()) => Ok(buf.to_vec()),
        Err(e) => Err(e.to_string()),
    }
}

/// The state made of some random bytes: two hexadecimal digits for each of them.
pub fn state_from(bytes: Result<Vec<u8>, String>) -> (r: Result<String, String>)
    ensures
        match bytes {
            Ok(b) => r matches Ok(s) && s@ == hex_bytes(b@),
            Err(e) => r matches Err(m) && m@ == "could not read OS randomness: "@ + e@,
        },
{
    match bytes {
        Ok(b) => Ok(hex_text(b.as_slice())),
        Err(e) => Err("could not read OS randomness: ".to_owned().concat(e.as_str())),
    }
}

/// Makes up a random state: 64 hexadecimal digits.
pub fn generate_state() -> (r: Result<String, String>)
    ensures
        match r {
            Ok(s) => s@.len() == 64 && forall|k: int|
                0 <= k < s@.len() ==> is_digit(#[trigger] s@[k]) || 'a' <= s@[k] <= 'f',
            Err(m) => exists|e: Seq<char>| m@ == #[trigger] ("could not read OS randomness: "@ + e),
        },
{
    let bytes = random_bytes();
    proof {
        if bytes is Ok {
            crate::text::lemma_hex_bytes(bytes->Ok_0@);
        }
    }
    state_from(bytes)
}

// ── Request line ──────────────────────────────────────────────────────────────

/// The longest request line that is read.
pub const MAX_REQUEST_LINE: usize = 8192;

/// A request line as far as it has been read.
#[derive(Debug)]
pub struct RequestLine {
    pub bytes: Vec<u8>,
}

/// Whether a request line is complete.
#[derive(Clone, Copy, Debug, PartialEq, Eq, Structural)]
pub enum LineStatus {
    More,
    Complete,
    TooLong,
}

/// Whether a line that held `before` holds `after` once it took the byte, and stands as `r`
/// says.
pub open spec fn is_pushed(before: Seq<u8>, byte: u8, after: Seq<u8>, r: LineStatus) -> bool {
    &&& byte == 10 ==> r == LineStatus::Complete && after == before
    &&& byte != 10 ==> after == before.push(byte) && r == (if before.len() + 1 > MAX_REQUEST_LINE {
        LineStatus::TooLong
    } else {
        LineStatus::More
    })
}

/// A line without the carriage returns at its end.
pub open spec fn without_end_cr(s: Seq<char>) -> Seq<char>
    decreases s.len(),
{
    if s.len() > 0 && s.last() == '\r' {
        without_end_cr(s.drop_last())
    } else {
        s
    }
}

impl RequestLine {
    pub fn new() -> (r: RequestLine)
        ensures
            r.bytes@ == Seq::<u8>::empty(),
    {
        RequestLine { bytes: Vec::new() }
    }

    /// Takes the next byte. A line feed completes the line; a line beyond the limit is
    /// refused, so that a connection cannot make it grow without bound.
    pub fn push(&mut self, byte: u8) -> (r: LineStatus)
        ensures
            is_pushed(old(self).bytes@, byte, final(self).bytes@, r),
    {
        if byte == 10 {
            return LineStatus::Complete;
        }
        self.bytes.push(byte);
        if self.bytes.len() > MAX_REQUEST_LINE {
            LineStatus::TooLong
        } else {
            LineStatus::More
        }
    }

    /// The line that has been read, without the carriage return of its line ending.
    pub fn text(&self) -> (r: String)
        ensures
            r@ == without_end_cr(text_of(self.bytes@)),
    {
        let cs = to_chars(lossy_text(self.bytes.as_slice()).as_str());
        let mut n: usize = cs.len();
        let ghost whole = cs@;
        assert(cs@.subrange(0, n as int) =~= whole);
        while n > 0 && cs[n - 1] == '\r'
            invariant
                n <= cs@.len(),
                whole == cs@,
                without_end_cr(whole) == without_end_cr(cs@.subrange(0, n as int)),
            decreases n,
        {
            assert(cs@.subrange(0, n as int).drop_last() =~= cs@.subrange(0, n - 1));
            n = n - 1;
        }
        slice_text(cs.as_slice(), 0, n)
    }
}

/// The first position from `i` on that holds no white space.
pub open spec fn skip_spaces(s: Seq<char>, i: int) -> int
    decreases s.len() - i,
{
    if i < s.len() && is_space(s[i]) {
        skip_spaces(s, i + 1)
    } else {
        i
    }
}

/// The first position from `i` on that holds white space, or the end.
pub open spec fn skip_word(s: Seq<char>, i: int) -> int
    decreases s.len() - i,
{
    if i < s.len() && !is_space(s[i]) {
        skip_word(s, i + 1)
    } else {
        i
    }
}

/// The target of a `GET` request line: the word behind `GET`.
pub open spec fn get_target(line: Seq<char>) -> Option<Seq<char>> {
    let a = skip_spaces(line, 0);
    let b = skip_word(line, a);
    let c = skip_spaces(line, b);
    let d = skip_word(line, c);
    if line.subrange(a, b) == "GET"@ && c < line.len() {
        Some(line.subrange(c, d))
    } else {
        None
    }
}

fn scan_spaces(s: &[char], from: usize) -> (r: usize)
    requires
        from <= s@.len(),
    ensures
        r == skip_spaces(s@, from as int),
        from <= r <= s@.len(),
{
    let mut i: usize = from;
    while i < s.len() && space_char(s[i])
        invariant
            from <= i <= s@.len(),
            skip_spaces(s@, from as int) == skip_spaces(s@, i as int),
        decreases s@.len() - i,
    {
        i = i + 1;
    }
    i
}

fn scan_word(s: &[char], from: usize) -> (r: usize)
    requires
        from <= s@.len(),
    ensures
        r == skip_word(s@, from as int),
        from <= r <= s@.len(),
{
    let mut i: usize = from;
    while i < s.len() && !space_char(s[i])
        invariant
            from <= i <= s@.len(),
            skip_word(s@, from as int) == skip_word(s@, i as int),
        decreases s@.len() - i,
    {
        i = i + 1;
    }
    i
}

/// Extracts `/path?query` from a request line `GET /path?query HTTP/1.1`.
pub fn parse_get_target(request_line: &str) -> (r: Option<String>)
    ensures
        crate::text::opt_view(r) == get_target(request_line@),
{
    let chars = to_chars(request_line);
    let s = chars.as_slice();
    let a = scan_spaces(s, 0);
    let b = scan_word(s, a);
    if !same_text(slice_text(s, a, b).as_str(), "GET") {
        return None;
    }
    let c = scan_spaces(s, b);
    let d = scan_word(s, c);
    if c >= s.len() {
        return None;
    }
    Some(slice_text(s, c, d))
}

// ── Query ─────────────────────────────────────────────────────────────────────

/// The value of a hexadecimal digit.
pub open spec fn hex_value(b: u8) -> Option<u8> {
    if 48 <= b <= 57 {
        Some((b - 48) as u8)
    } else if 97 <= b <= 102 {
        Some((b - 87) as u8)
    } else if 65 <= b <= 70 {
        Some((b - 55) as u8)
    } else {
        None
    }
}

/// The byte that two hexadecimal digits behind `%` stand for.
pub open spec fn escape_value(hi: u8, lo: u8) -> Option<u8> {
    match (hex_value(hi), hex_value(lo)) {
        (Some(h), Some(l)) => Some((h * 16 + l) as u8),
        _ => None,
    }
}

/// The bytes that an encoded text from `i` on stands for. `%` and two digits are a byte,
/// `+` is a space, and everything else stands for itself, a malformed escape included.
pub open spec fn unescaped(b: Seq<u8>, i: int) -> Seq<u8>
    decreases b.len() - i,
{
    if i < 0 || i >= b.len() {
        seq![]
    } else if b[i] == 37 && i + 2 < b.len() && escape_value(b[i + 1], b[i + 2]) is Some {
        seq![escape_value(b[i + 1], b[i + 2])->Some_0] + unescaped(b, i + 3)
    } else if b[i] == 43 {
        seq![32u8] + unescaped(b, i + 1)
    } else {
        seq![b[i]] + unescaped(b, i + 1)
    }
}

/// What an encoded text stands for.
pub open spec fn percent_decoded(s: Seq<char>) -> Seq<char> {
    text_of(unescaped(vstd::utf8::encode_utf8(s), 0))
}

fn read_hex(b: u8) -> (r: Option<u8>)
    ensures
        r == hex_value(b),
        r matches Some(v) ==> v < 16,
{
    if 48 <= b && b <= 57 {
        Some(b - 48)
    } else if 97 <= b && b <= 102 {
        Some(b - 87)
    } else if 65 <= b && b <= 70 {
        Some(b - 55)
    } else {
        None
    }
}

fn read_escape(hi: u8, lo: u8) -> (r: Option<u8>)
    ensures
        r == escape_value(hi, lo),
{
    match (read_hex(hi), read_hex(lo)) {
        (Some(h), Some(l)) => Some(h * 16 + l),
        _ => None,
    }
}

/// The bytes that an encoded text stands for.
pub fn percent_bytes(s: &str) -> (out: Vec<u8>)
    ensures
        out@ == unescaped(vstd::utf8::encode_utf8(s@), 0),
{
    let bytes = s.as_bytes();
    let n: usize = bytes.len();
    let mut out: Vec<u8> = Vec::new();
    let mut i: usize = 0;
    while i < n
        invariant
            n == bytes@.len(),
            i <= n,
            out@ + unescaped(bytes@, i as int) == unescaped(bytes@, 0),
        decreases n - i,
    {
        let b: u8 = bytes[i];
        let ghost so_far = out@;
        let escape: Option<u8> = if b == 37 && n >= 2 && i < n - 2 {
            read_escape(bytes[i + 1], bytes[i + 2])
        } else {
            None
        };
        if let Some(v) = escape {
            out.push(v);
            assert(out@ + unescaped(bytes@, i + 3) =~= so_far + unescaped(bytes@, i as int));
            i = i + 3;
        } else {
            let v: u8 = if b == 43 {
                32
            } else {
                b
            };
            out.push(v);
            assert(out@ + unescaped(bytes@, i + 1) =~= so_far + unescaped(bytes@, i as int));
            i = i + 1;
        }
    }
    assert(out@ =~= unescaped(bytes@, 0));
    out
}

/// Decodes `%XX` escapes and `+`. A malformed escape is passed through as it stands.
pub fn percent_decode(s: &str) -> (r: String)
    ensures
        r@ == percent_decoded(s@),
{
    lossy_text(percent_bytes(s).as_slice())
}

pub open spec fn ascii_bytes(s: Seq<char>) -> Seq<u8> {
    s.map_values(|c: char| c as u8)
}

proof fn lemma_ascii_scalar(c: char)
    requires
        c < '\u{80}',
    ensures
        vstd::utf8::encode_scalar(c as u32) == seq![c as u8],
{
    let n = c as u32;
    assert((n & 0x7F) as u8 == n as u8) by (bit_vector)
        requires
            n < 0x80,
    ;
    assert(vstd::utf8::encode_scalar(n) =~= seq![c as u8]);
}

proof fn lemma_ascii_encoding(s: Seq<char>)
    requires
        forall|k: int| 0 <= k < s.len() ==> (#[trigger] s[k]) < '\u{80}',
    ensures
        vstd::utf8::encode_utf8(s) == ascii_bytes(s),
    decreases s.len(),
{
    if s.len() > 0 {
        let rest = s.drop_first();
        assert forall|k: int| 0 <= k < rest.len() implies (#[trigger] rest[k]) < '\u{80}' by {
            assert(rest[k] == s[k + 1]);
        }
        lemma_ascii_encoding(rest);
        let c = s[0];
        lemma_ascii_scalar(c);
        assert(ascii_bytes(s) =~= seq![c as u8] + ascii_bytes(rest));
    } else {
        assert(ascii_bytes(s) =~= vstd::utf8::encode_utf8(s));
    }
}

proof fn lemma_unescaped_skip(b: Seq<u8>, i: int, k: int)
    requires
        0 <= i <= b.len(),
        0 <= k,
    ensures
        unescaped(b, i + k) == unescaped(b.skip(i), k),
    decreases b.len() - i - k,
{
    if i + k < b.len() {
        lemma_unescaped_skip(b, i, k + 1);
        if i + k + 3 <= b.len() {
            lemma_unescaped_skip(b, i, k + 3);
        }
    }
}

proof fn lemma_encoded_front(bytes: Seq<u8>)
    requires
        bytes.len() > 0,
    ensures
        encoded_segment(bytes) == encoded_byte(bytes[0]) + encoded_segment(bytes.drop_first()),
    decreases bytes.len(),
{
    if bytes.len() == 1 {
        assert(bytes.drop_last() =~= seq![]);
        assert(bytes.drop_first() =~= seq![]);
        assert(encoded_segment(bytes) =~= encoded_byte(bytes[0]) + encoded_segment(
            bytes.drop_first(),
        ));
    } else {
        lemma_encoded_front(bytes.drop_last());
        assert(bytes.drop_last().drop_first() =~= bytes.drop_first().drop_last());
        assert(encoded_segment(bytes) =~= encoded_byte(bytes[0]) + encoded_segment(
            bytes.drop_first(),
        ));
    }
}

proof fn lemma_encoded_byte(b: u8, rest: Seq<u8>)
    ensures
        unescaped(ascii_bytes(encoded_byte(b)) + rest, 0) == seq![b] + unescaped(rest, 0),
{
    let x = ascii_bytes(encoded_byte(b));
    let all = x + rest;
    lemma_unescaped_skip(all, x.len() as int, 0);
    assert(all.skip(x.len() as int) =~= rest);
    if is_unreserved(b) {
        assert(x =~= seq![b]);
        assert(all[0] == b);
    } else {
        let h = crate::api::upper_hex_digit(b / 16);
        let l = crate::api::upper_hex_digit(b % 16);
        assert(x =~= seq![37u8, h as u8, l as u8]);
        assert(all[0] == 37 && all[1] == h as u8 && all[2] == l as u8);
        assert(hex_value(h as u8) == Some(b / 16));
        assert(hex_value(l as u8) == Some(b % 16));
        assert((b / 16) * 16 + b % 16 == b);
        assert(escape_value(all[1], all[2]) == Some(b));
    }
}

proof fn lemma_encoded_is_ascii(bytes: Seq<u8>, k: int)
    requires
        0 <= k < encoded_segment(bytes).len(),
    ensures
        encoded_segment(bytes)[k] < '\u{80}',
    decreases bytes.len(),
{
    let head = encoded_segment(bytes.drop_last());
    if k < head.len() {
        lemma_encoded_is_ascii(bytes.drop_last(), k);
    } else {
        assert(encoded_segment(bytes)[k] == encoded_byte(bytes.last())[k - head.len()]);
    }
}

proof fn lemma_unescaped_encoded(bytes: Seq<u8>)
    ensures
        unescaped(ascii_bytes(encoded_segment(bytes)), 0) == bytes,
    decreases bytes.len(),
{
    if bytes.len() == 0 {
        assert(ascii_bytes(encoded_segment(bytes)) =~= seq![]);
        assert(unescaped(seq![], 0) =~= bytes);
    } else {
        let rest = bytes.drop_first();
        lemma_encoded_front(bytes);
        lemma_unescaped_encoded(rest);
        assert(ascii_bytes(encoded_segment(bytes)) =~= ascii_bytes(encoded_byte(bytes[0]))
            + ascii_bytes(encoded_segment(rest)));
        lemma_encoded_byte(bytes[0], ascii_bytes(encoded_segment(rest)));
        assert(seq![bytes[0]] + rest =~= bytes);
    }
}

/// Decoding undoes the encoding of a path segment.
pub proof fn law_decoding_undoes_encoding(s: Seq<char>)
    ensures
        percent_decoded(encoded_segment(vstd::utf8::encode_utf8(s))) == s,
{
    let bytes = vstd::utf8::encode_utf8(s);
    assert forall|k: int| 0 <= k < encoded_segment(bytes).len() implies (#[trigger] encoded_segment(
        bytes,
    )[k]) < '\u{80}' by {
        lemma_encoded_is_ascii(bytes, k);
    }
    lemma_ascii_encoding(encoded_segment(bytes));
    lemma_unescaped_encoded(bytes);
    vstd::utf8::encode_utf8_valid_utf8(s);
    vstd::utf8::encode_utf8_decode_utf8(s);
}

/// The parameters of a query.
#[derive(Debug)]
pub struct QueryParams {
    pub pairs: Vec<(String, String)>,
}

/// The parameters that some pairs set, of two with one name the later.
pub open spec fn pairs_map(pairs: Seq<(Seq<char>, Seq<char>)>) -> Map<Seq<char>, Seq<char>>
    decreases pairs.len(),
{
    if pairs.len() == 0 {
        Map::empty()
    } else {
        pairs_map(pairs.drop_last()).insert(pairs.last().0, pairs.last().1)
    }
}

pub open spec fn pair_views(pairs: Seq<(String, String)>) -> Seq<(Seq<char>, Seq<char>)> {
    pairs.map_values(|p: (String, String)| (p.0@, p.1@))
}

impl View for QueryParams {
    type V = Map<Seq<char>, Seq<char>>;

    open spec fn view(&self) -> Map<Seq<char>, Seq<char>> {
        pairs_map(pair_views(self.pairs@))
    }
}

impl QueryParams {
    /// The value of a parameter.
    pub fn get(&self, key: &str) -> (r: Option<&String>)
        ensures
            match r {
                Some(v) => self@.contains_key(key@) && self@[key@] == v@,
                None => !self@.contains_key(key@),
            },
    {
        let ghost all = pair_views(self.pairs@);
        let mut i: usize = self.pairs.len();
        assert(all.take(i as int) =~= all);
        while i > 0
            invariant
                i <= self.pairs@.len(),
                all == pair_views(self.pairs@),
                self@.contains_key(key@) == pairs_map(all.take(i as int)).contains_key(key@),
                self@.contains_key(key@) ==> self@[key@] == pairs_map(all.take(i as int))[key@],
            decreases i,
        {
            assert(all.take(i as int).drop_last() =~= all.take(i - 1));
            assert(all.take(i as int).last() == (self.pairs@[i - 1].0@, self.pairs@[i - 1].1@));
            if same_text(self.pairs[i - 1].0.as_str(), key) {
                return Some(&self.pairs[i - 1].1);
            }
            i = i - 1;
        }
        None
    }
}

/// The pair in one piece of a query: what stands on either side of the first `=`.
pub open spec fn pair_in(piece: Seq<char>) -> Option<(Seq<char>, Seq<char>)> {
    let eq = skip_until(piece, 0, '=');
    if eq < piece.len() {
        Some(
            (
                percent_decoded(piece.subrange(0, eq)),
                percent_decoded(piece.subrange(eq + 1, piece.len() as int)),
            ),
        )
    } else {
        None
    }
}

/// The pairs in the pieces of a query; a piece without `=` is none.
pub open spec fn pairs_in(pieces: Seq<Seq<char>>) -> Seq<(Seq<char>, Seq<char>)>
    decreases pieces.len(),
{
    if pieces.len() == 0 {
        seq![]
    } else {
        match pair_in(pieces.last()) {
            Some(p) => pairs_in(pieces.drop_last()).push(p),
            None => pairs_in(pieces.drop_last()),
        }
    }
}

/// The parameters of a query.
pub open spec fn query_params(query: Seq<char>) -> Map<Seq<char>, Seq<char>> {
    pairs_map(pairs_in(split(query, '&')))
}

/// Reads a query: pieces parted at `&`, each a name and a value parted at `=`, both
/// percent-decoded.
pub fn parse_query(query: &str) -> (r: QueryParams)
    ensures
        pair_views(r.pairs@) == pairs_in(split(query@, '&')),
        r@ == query_params(query@),
{
    let chars = to_chars(query);
    let cs = chars.as_slice();
    let spans = split_spans(cs, '&');
    let ghost all = span_texts(cs@, spans@);
    let mut pairs: Vec<(String, String)> = Vec::new();
    let mut i: usize = 0;
    assert(pair_views(pairs@) =~= seq![]);
    while i < spans.len()
        invariant
            i <= spans@.len(),
            all == span_texts(cs@, spans@),
            forall|k: int|
                0 <= k < spans@.len() ==> (#[trigger] spans@[k]).0 <= spans@[k].1 <= cs@.len(),
            pair_views(pairs@) == pairs_in(all.take(i as int)),
        decreases spans@.len() - i,
    {
        assert(all.take(i + 1).drop_last() =~= all.take(i as int));
        let (from, to) = spans[i];
        assert(all.take(i + 1).last() == cs@.subrange(from as int, to as int));
        let piece = vstd::slice::slice_subrange(cs, from, to);
        let eq = scan_until(piece, 0, '=');
        let ghost so_far = pairs@;
        if eq < piece.len() {
            let name = percent_decode(slice_text(piece, 0, eq).as_str());
            let value = percent_decode(slice_text(piece, eq + 1, piece.len()).as_str());
            pairs.push((name, value));
            assert(pair_views(pairs@) =~= pair_views(so_far).push((name@, value@)));
        }
        i = i + 1;
    }
    assert(all.take(i as int) =~= all);
    QueryParams { pairs }
}

// ── Responses ─────────────────────────────────────────────────────────────────

pub open spec fn html_char(c: char) -> Seq<char> {
    if c == '&' {
        "&amp;"@
    } else if c == '<' {
        "&lt;"@
    } else if c == '>' {
        "&gt;"@
    } else {
        seq![c]
    }
}

pub open spec fn html_text(s: Seq<char>) -> Seq<char>
    decreases s.len(),
{
    if s.len() == 0 {
        seq![]
    } else {
        html_text(s.drop_last()) + html_char(s.last())
    }
}

/// Escapes what HTML treats specially in text.
pub fn html_escape(s: &str) -> (r: String)
    ensures
        r@ == html_text(s@),
{
    let cs = to_chars(s);
    let mut out: String = String::new();
    let mut i: usize = 0;
    while i < cs.len()
        invariant
            i <= cs@.len(),
            out@ == html_text(cs@.subrange(0, i as int)),
        decreases cs@.len() - i,
    {
        let c = cs[i];
        let ghost so_far = out@;
        if c == '&' {
            out.append("&amp;");
        } else if c == '<' {
            out.append("&lt;");
        } else if c == '>' {
            out.append("&gt;");
        } else {
            out.push(c);
        }
        assert(out@ =~= so_far + html_char(c));
        assert(cs@.subrange(0, i + 1).drop_last() =~= cs@.subrange(0, i as int));
        i = i + 1;
    }
    assert(cs@.subrange(0, i as int) =~= cs@);
    out
}

/// Escaped text holds no tag.
pub proof fn law_html_text_has_no_tags(s: Seq<char>, k: int)
    requires
        0 <= k < html_text(s).len(),
    ensures
        html_text(s)[k] != '<',
        html_text(s)[k] != '>',
    decreases s.len(),
{
    reveal_strlit("&amp;");
    reveal_strlit("&lt;");
    reveal_strlit("&gt;");
    let head = html_text(s.drop_last());
    if k < head.len() {
        law_html_text_has_no_tags(s.drop_last(), k);
        assert(html_text(s)[k] == head[k]);
    } else {
        assert(html_text(s)[k] == html_char(s.last())[k - head.len()]);
    }
}

pub open spec fn status_text_of(status: u16) -> Seq<char> {
    if status == 200 {
        "OK"@
    } else if status == 400 {
        "Bad Request"@
    } else if status == 404 {
        "Not Found"@
    } else {
        "Error"@
    }
}

pub open spec fn response_body(message: Seq<char>) -> Seq<char> {
    "<!doctype html><html><head><meta charset=\"utf-8\"><title>Vericto CLI</title></head><body style=\"font-family:sans-serif;text-align:center;padding:4rem 1rem\"><p>"@
        + html_text(message) + "</p></body></html>"@
}

/// The response to a browser: a page with a message.
pub open spec fn response_text(status: u16, message: Seq<char>) -> Seq<char> {
    "HTTP/1.1 "@ + decimal(status as nat) + " "@ + status_text_of(status)
        + "\r\nContent-Type: text/html; charset=utf-8\r\nContent-Length: "@ + decimal(
        byte_len(response_body(message)),
    ) + "\r\nConnection: close\r\n\r\n"@ + response_body(message)
}

pub fn response(status: u16, message: &str) -> (r: String)
    ensures
        r@ == response_text(status, message@),
{
    let mut body =
        "<!doctype html><html><head><meta charset=\"utf-8\"><title>Vericto CLI</title></head><body style=\"font-family:sans-serif;text-align:center;padding:4rem 1rem\"><p>".to_owned();
    body.append(html_escape(message).as_str());
    body.append("</p></body></html>");
    let mut out = "HTTP/1.1 ".to_owned();
    out.append(decimal_text(status as u128).as_str());
    out.append(" ");
    out.append(
        if status == 200 {
            "OK"
        } else if status == 400 {
            "Bad Request"
        } else if status == 404 {
            "Not Found"
        } else {
            "Error"
        },
    );
    out.append("\r\nContent-Type: text/html; charset=utf-8\r\nContent-Length: ");
    out.append(decimal_text(crate::text::byte_count(body.as_str()) as u128).as_str());
    out.append("\r\nConnection: close\r\n\r\n");
    out.append(body.as_str());
    out
}

// ── Callback ──────────────────────────────────────────────────────────────────

/// What one request to the loopback server is answered, and the code that it brought
/// where it is the callback that is waited for.
#[derive(Debug)]
pub struct Callback {
    pub status: u16,
    pub message: String,
    pub code: Option<String>,
}

pub struct CallbackView {
    pub status: u16,
    pub message: Seq<char>,
    pub code: Option<Seq<char>>,
}

impl View for Callback {
    type V = CallbackView;

    open spec fn view(&self) -> CallbackView {
        CallbackView {
            status: self.status,
            message: self.message@,
            code: crate::text::opt_view(self.code),
        }
    }
}

pub open spec fn refused(status: u16, message: Seq<char>) -> CallbackView {
    CallbackView { status, message, code: None }
}

/// The answer to a request line. Only a `GET /callback` that brings both parameters,
/// with the expected state, brings a code; everything else is answered and ignored.
pub open spec fn callback_for(line: Seq<char>, expected: Seq<char>) -> CallbackView {
    match get_target(line) {
        None => refused(400, "Bad request."@),
        Some(target) => {
            let q = skip_until(target, 0, '?');
            if q >= target.len() || target.subrange(0, q) != "/callback"@ {
                refused(404, "Not found."@)
            } else {
                let params = query_params(target.subrange(q + 1, target.len() as int));
                if !params.contains_key("state"@) || !params.contains_key("code"@) {
                    refused(400, "Missing state or code — this link looks incomplete."@)
                } else if params["state"@] != expected {
                    refused(
                        400,
                        "This login link doesn't match the request that opened your browser. Close this tab and run `vericto login` again."@,
                    )
                } else {
                    CallbackView {
                        status: 200,
                        message:
                            "Login successful — you can close this tab and return to your terminal."@,
                        code: Some(params["code"@]),
                    }
                }
            }
        },
    }
}

fn refuse(status: u16, message: &str) -> (r: Callback)
    ensures
        r@ == refused(status, message@),
{
    Callback { status, message: message.to_owned(), code: None }
}

/// Answers one request to the loopback server.
pub fn handle_request(request_line: &str, expected_state: &str) -> (r: Callback)
    ensures
        r@ == callback_for(request_line@, expected_state@),
{
    let target = match parse_get_target(request_line) {
        Some(t) => t,
        None => {
            return refuse(400, "Bad request.");
        },
    };
    let chars = to_chars(target.as_str());
    let cs = chars.as_slice();
    let q = scan_until(cs, 0, '?');
    if q >= cs.len() {
        return refuse(404, "Not found.");
    }
    if !same_text(slice_text(cs, 0, q).as_str(), "/callback") {
        return refuse(404, "Not found.");
    }
    let params = parse_query(slice_text(cs, q + 1, cs.len()).as_str());
    match (params.get("state"), params.get("code")) {
        (Some(state), Some(code)) => {
            if !same_text(state.as_str(), expected_state) {
                return refuse(
                    400,
                    "This login link doesn't match the request that opened your browser. Close this tab and run `vericto login` again.",
                );
            }
            Callback {
                status: 200,
                message:
                    "Login successful — you can close this tab and return to your terminal.".to_owned(),
                code: Some(code.clone()),
            }
        },
        _ => refuse(400, "Missing state or code — this link looks incomplete."),
    }
}

/// A code is only ever taken from a callback whose state is the one that this process
/// made up; a different local process cannot have one accepted.
pub proof fn law_codes_need_the_expected_state(line: Seq<char>, expected: Seq<char>)
    ensures
        callback_for(line, expected).code is Some ==> {
            &&& get_target(line) is Some
            &&& {
                let target = get_target(line)->Some_0;
                let q = skip_until(target, 0, '?');
                let params = query_params(target.subrange(q + 1, target.len() as int));
                &&& target.subrange(0, q) == "/callback"@
                &&& params.contains_key("state"@) && params["state"@] == expected
                &&& params.contains_key("code"@) && callback_for(line, expected).code == Some(
                    params["code"@],
                )
            }
        },
        callback_for(line, expected).code is Some <==> callback_for(line, expected).status == 200,
{
}

/// Whether a text stands for itself in an address.
pub open spec fn is_plain(s: Seq<char>) -> bool {
    forall|k: int|
        0 <= k < s.len() ==> (#[trigger] s[k]) < '\u{80}' && is_unreserved(s[k] as u8)
}

proof fn lemma_plain_char(c: char)
    requires
        c < '\u{80}',
        is_unreserved(c as u8),
    ensures
        !is_space(c),
{
    let n = c as u32;
    assert(n as u8 == n) by (bit_vector)
        requires
            n < 0x80,
    ;
    assert(c as u8 == n as u8);
}

proof fn lemma_plain_decoded(s: Seq<char>)
    requires
        is_plain(s),
    ensures
        percent_decoded(s) == s,
{
    lemma_ascii_encoding(s);
    lemma_unescaped_plain(ascii_bytes(s), 0);
    assert(ascii_bytes(s).skip(0) =~= ascii_bytes(s));
    vstd::utf8::encode_utf8_valid_utf8(s);
    vstd::utf8::encode_utf8_decode_utf8(s);
}

proof fn lemma_unescaped_plain(b: Seq<u8>, i: int)
    requires
        0 <= i <= b.len(),
        forall|k: int| 0 <= k < b.len() ==> is_unreserved(#[trigger] b[k]),
    ensures
        unescaped(b, i) == b.skip(i),
    decreases b.len() - i,
{
    if i < b.len() {
        lemma_unescaped_plain(b, i + 1);
        assert(b.skip(i) =~= seq![b[i]] + b.skip(i + 1));
        assert(is_unreserved(b[i]));
    } else {
        assert(b.skip(i) =~= seq![]);
    }
}

proof fn lemma_skip_word_at(s: Seq<char>, i: int, j: int)
    requires
        0 <= i <= j <= s.len(),
        forall|k: int| i <= k < j ==> !is_space(#[trigger] s[k]),
        j < s.len() ==> is_space(s[j]),
    ensures
        skip_word(s, i) == j,
    decreases j - i,
{
    if i < j {
        assert(!is_space(s[i]));
        lemma_skip_word_at(s, i + 1, j);
    }
}

/// The query of the callback.
pub open spec fn callback_query(state: Seq<char>, code: Seq<char>) -> Seq<char> {
    "state="@ + state + "&code="@ + code
}

proof fn lemma_callback_query(state: Seq<char>, code: Seq<char>)
    requires
        is_plain(state),
        is_plain(code),
    ensures
        query_params(callback_query(state, code)).contains_key("state"@),
        query_params(callback_query(state, code))["state"@] == state,
        query_params(callback_query(state, code)).contains_key("code"@),
        query_params(callback_query(state, code))["code"@] == code,
{
    reveal_strlit("state=");
    reveal_strlit("&code=");
    reveal_strlit("code=");
    reveal_strlit("state");
    reveal_strlit("code");
    let query = callback_query(state, code);
    let first = "state="@ + state;
    let second = "code="@ + code;
    let cut = first.len() as int;
    assert(query.len() == cut + 1 + second.len());
    assert(query.subrange(0, cut) =~= first);
    assert(query.subrange(cut + 1, query.len() as int) =~= second);
    assert forall|k: int| 0 <= k < cut implies (#[trigger] query[k]) != '&' by {
        assert(query[k] == first[k]);
        if k >= 6 {
            assert(first[k] == state[k - 6]);
        }
    }
    assert forall|k: int| cut + 1 <= k < query.len() implies (#[trigger] query[k]) != '&' by {
        assert(query[k] == second[k - cut - 1]);
        if k - cut - 1 >= 5 {
            assert(second[k - cut - 1] == code[k - cut - 6]);
        }
    }
    lemma_skip_until_at(query, 0, cut, '&');
    lemma_skip_until_at(query, cut + 1, query.len() as int, '&');
    reveal_with_fuel(crate::text::split_from, 3);
    assert(split(query, '&') =~= seq![first, second]);
    lemma_skip_until_at(first, 0, 5, '=');
    lemma_skip_until_at(second, 0, 4, '=');
    assert(first.subrange(0, 5) =~= "state"@);
    assert(first.subrange(6, cut) =~= state);
    assert(second.subrange(0, 4) =~= "code"@);
    assert(second.subrange(5, second.len() as int) =~= code);
    lemma_plain_decoded("state"@);
    lemma_plain_decoded("code"@);
    lemma_plain_decoded(state);
    lemma_plain_decoded(code);
    let pieces = seq![first, second];
    assert(pieces.drop_last() =~= seq![first]);
    assert(seq![first].drop_last() =~= seq![]);
    reveal_with_fuel(pairs_in, 3);
    assert(pairs_in(pieces) =~= seq![("state"@, state), ("code"@, code)]);
    let pairs = seq![("state"@, state), ("code"@, code)];
    assert(pairs.drop_last() =~= seq![("state"@, state)]);
    assert(seq![("state"@, state)].drop_last() =~= seq![]);
    reveal_with_fuel(pairs_map, 3);
    assert("state"@.len() == 5 && "code"@.len() == 4);
}

/// The login completes: the request line with which the browser comes back brings its
/// code, for every state and code that stand for themselves in an address, as hexadecimal
/// digits do.
pub proof fn law_the_expected_callback_is_accepted(state: Seq<char>, code: Seq<char>)
    requires
        is_plain(state),
        is_plain(code),
    ensures
        callback_for("GET /callback?"@ + callback_query(state, code) + " HTTP/1.1"@, state).code
            == Some(code),
{
    reveal_strlit("GET /callback?");
    reveal_strlit(" HTTP/1.1");
    reveal_strlit("GET");
    reveal_strlit("/callback");
    reveal_strlit("state=");
    reveal_strlit("&code=");
    let query = callback_query(state, code);
    let line = "GET /callback?"@ + query + " HTTP/1.1"@;
    let end = 14 + query.len() as int;
    let name = "state="@;
    let other = "&code="@;
    assert(!is_space(name[0]) && !is_space(name[1]) && !is_space(name[2]) && !is_space(name[3])
        && !is_space(name[4]) && !is_space(name[5]));
    assert(!is_space(other[0]) && !is_space(other[1]) && !is_space(other[2]) && !is_space(other[3])
        && !is_space(other[4]) && !is_space(other[5]));
    assert forall|k: int| 0 <= k < query.len() implies !is_space(#[trigger] query[k]) by {
        let n = state.len() as int;
        if k < 6 {
            assert(query[k] == name[k]);
            assert(k == 0 || k == 1 || k == 2 || k == 3 || k == 4 || k == 5);
        } else if k < 6 + n {
            assert(query[k] == state[k - 6]);
            lemma_plain_char(state[k - 6]);
        } else if k < 12 + n {
            let m = k - 6 - n;
            assert(query[k] == other[m]);
            assert(m == 0 || m == 1 || m == 2 || m == 3 || m == 4 || m == 5);
        } else {
            assert(query[k] == code[k - 12 - n]);
            lemma_plain_char(code[k - 12 - n]);
        }
    }
    lemma_skip_word_at(line, 0, 3);
    assert forall|k: int| 4 <= k < end implies !is_space(#[trigger] line[k]) by {
        if k >= 14 {
            assert(line[k] == query[k - 14]);
        }
    }
    assert(line[end] == " HTTP/1.1"@[0]);
    lemma_skip_word_at(line, 4, end);
    reveal_with_fuel(skip_spaces, 2);
    assert(line.subrange(0, 3) =~= "GET"@);
    let target = line.subrange(4, end);
    assert forall|k: int| 0 <= k < 9 implies (#[trigger] target[k]) != '?' by {
        assert(target[k] == line[k + 4]);
    }
    lemma_skip_until_at(target, 0, 9, '?');
    assert(target.subrange(0, 9) =~= "/callback"@);
    assert(target.subrange(10, target.len() as int) =~= query);
    lemma_callback_query(state, code);
}

/// What to do after a request to the loopback server.
#[derive(Debug)]
pub enum WaitStep {
    /// The login is complete.
    Finish(String),
    /// The time is up.
    TimedOut(String),
    /// Wait for the next request, after saying what went wrong, if anything did.
    Again(Option<String>),
}

/// Seconds that the browser has to complete a login.
pub const CALLBACK_TIMEOUT_SECS: u64 = 300;

/// Whether `r` is what to do after a request.
pub open spec fn is_wait_step(
    r: WaitStep,
    outcome: Result<Option<String>, String>,
    past_deadline: bool,
) -> bool {
    match outcome {
        Ok(Some(code)) => r == WaitStep::Finish(code),
        Ok(None) => if past_deadline {
            r matches WaitStep::TimedOut(m) && m@
                == "timed out waiting for the browser to complete login"@
        } else {
            r == WaitStep::Again(None)
        },
        Err(e) => if past_deadline {
            r matches WaitStep::TimedOut(m) && m@
                == "timed out waiting for the browser to complete login"@
        } else {
            r matches WaitStep::Again(Some(note)) && note@
                == "note: loopback callback error (retrying): "@ + e@
        },
    }
}

/// Decides after a request: a code completes the login; anything else is waited out
/// until the deadline has passed.
pub fn wait_step(outcome: Result<Option<String>, String>, past_deadline: bool) -> (r: WaitStep)
    ensures
        is_wait_step(r, outcome, past_deadline),
{
    match outcome {
        Ok(Some(code)) => WaitStep::Finish(code),
        Ok(None) => if past_deadline {
            WaitStep::TimedOut("timed out waiting for the browser to complete login".to_owned())
        } else {
            WaitStep::Again(None)
        },
        Err(e) => if past_deadline {
            WaitStep::TimedOut("timed out waiting for the browser to complete login".to_owned())
        } else {
            WaitStep::Again(
                Some("note: loopback callback error (retrying): ".to_owned().concat(e.as_str())),
            )
        },
    }
}

} // verus!
