//! Rewriting of HLS playlists: every reference to a resource is replaced by a
//! proxy-relative URL, line by line, and nothing else changes.

use crate::resolve::{
    encoded_byte, encoded_bytes, is_absolute_url, join, joined_url, parses_as_absolute,
    percent_encode, percent_encoded,
};
use crate::text::{
    append_all, append_range, chars_of, contains, find, find_from, find_in, is_whitespace,
    lemma_find_from, string_of, string_text, text_of, trim, trim_bounds, trim_end, trim_start,
};
use vstd::prelude::*;
use vstd::slice::slice_subrange;
use vstd::utf8::encode_utf8;

verus! {

/// The start of the attribute that holds a reference in a directive line.
pub const URI_ATTRIBUTE: &'static str = "URI=\"";

/// The character that ends the attribute's value.
pub const QUOTE: &'static str = "\"";

/// What a rewritten reference starts with.
pub const PROXY_PREFIX: &'static str = "proxy?url=";

/// What introduces the cookie in a rewritten reference.
pub const COOKIE_PARAMETER: &'static str = "&cookie=";

/// The base that references are resolved against when the request's own URL is not
/// an absolute URL.
pub const FALLBACK_BASE: &'static str = "http://unknown";

/// What a playlist line is, once the whitespace around it is gone.
#[derive(Clone, Copy, Debug, PartialEq, Eq, Structural)]
pub enum LineKind {
    /// Nothing is left of the line.
    Blank,
    /// The line starts with `#`.
    Directive,
    /// Any other line: it names a segment or another playlist.
    Reference,
}

/// The kind of a trimmed line.
pub open spec fn line_kind(line: Seq<char>) -> LineKind {
    if line.len() == 0 {
        LineKind::Blank
    } else if line[0] == '#' {
        LineKind::Directive
    } else {
        LineKind::Reference
    }
}

/// Where the reference stands in a trimmed line, as the bounds `(from, to)` of
/// `line[from..to]`: the whole of a reference line; in a directive the value of its
/// first `URI="` attribute, up to the next quote. A blank line has none, and neither
/// has a directive without the attribute or without the closing quote.
pub open spec fn reference_span(line: Seq<char>) -> Option<(int, int)> {
    match line_kind(line) {
        LineKind::Blank => None,
        LineKind::Reference => Some((0, line.len() as int)),
        LineKind::Directive => match find(line, URI_ATTRIBUTE@) {
            None => None,
            Some(at) => match find_from(line, QUOTE@, at + URI_ATTRIBUTE@.len()) {
                None => None,
                Some(to) => Some((at + URI_ATTRIBUTE@.len(), to)),
            },
        },
    }
}

/// Tells the kind of a trimmed line.
fn kind_of(line: &[char]) -> (kind: LineKind)
    ensures
        kind == line_kind(line@),
{
    if line.len() == 0 {
        LineKind::Blank
    } else if line[0] == '#' {
        LineKind::Directive
    } else {
        LineKind::Reference
    }
}

/// Finds where the reference stands in a trimmed line. `attribute` and `quote` hold
/// the characters of `URI_ATTRIBUTE` and `QUOTE`.
fn span_of(line: &[char], attribute: &[char], quote: &[char]) -> (span: Option<(usize, usize)>)
    requires
        attribute@ == URI_ATTRIBUTE@,
        quote@ == QUOTE@,
    ensures
        match span {
            Some((from, to)) => reference_span(line@) == Some((from as int, to as int)) && from
                <= to <= line@.len(),
            None => reference_span(line@) is None,
        },
{
    match kind_of(line) {
        LineKind::Blank => None,
        LineKind::Reference => Some((0, line.len())),
        LineKind::Directive => match find_in(line, attribute, 0) {
            None => None,
            Some(at) => {
                proof {
                    lemma_find_from(line@, attribute@, 0);
                }
                let from = at + attribute.len();
                match find_in(line, quote, from) {
                    None => None,
                    Some(to) => {
                        proof {
                            lemma_find_from(line@, quote@, from as int);
                        }
                        Some((from, to))
                    },
                }
            },
        },
    }
}

/// What stands for the cookie at the end of a rewritten reference.
pub open spec fn cookie_suffix(cookie: Option<Seq<char>>) -> Seq<char> {
    match cookie {
        Some(value) => COOKIE_PARAMETER@ + percent_encoded(value),
        None => Seq::empty(),
    }
}

/// The proxy-relative URL that stands for the absolute URL `absolute`.
pub open spec fn proxied_reference(absolute: Seq<char>, cookie: Option<Seq<char>>) -> Seq<char> {
    PROXY_PREFIX@ + percent_encoded(absolute) + cookie_suffix(cookie)
}

/// The text of the reference in a trimmed line, where it has one.
pub open spec fn reference_text(line: Seq<char>) -> Option<Seq<char>> {
    match reference_span(line) {
        Some((from, to)) => Some(line.subrange(from, to)),
        None => None,
    }
}

/// A trimmed line, rewritten for a given outcome of resolving its reference. Where
/// the line has a reference and it resolved to `absolute`, the reference gives way to
/// the proxied form of `absolute` and the rest of the line stays; else the line
/// stays whole.
pub open spec fn line_with_resolution(
    line: Seq<char>,
    resolved: Option<Seq<char>>,
    cookie: Option<Seq<char>>,
) -> Seq<char> {
    match (reference_span(line), resolved) {
        (Some((from, to)), Some(absolute)) => line.take(from) + proxied_reference(absolute, cookie)
            + line.skip(to),
        _ => line,
    }
}

/// What becomes of one line of a playlist: it is trimmed, and its reference, if it
/// has one that resolves against `base`, is replaced.
pub open spec fn rewritten_line(line: Seq<char>, base: Seq<char>, cookie: Option<Seq<char>>) -> Seq<
    char,
> {
    let trimmed = trim(line);
    match reference_text(trimmed) {
        Some(reference) => line_with_resolution(trimmed, joined_url(base, reference), cookie),
        None => trimmed,
    }
}

/// The base that references are resolved against for a request to `url`.
pub open spec fn resolution_base(url: Seq<char>) -> Seq<char> {
    if is_absolute_url(url) {
        url
    } else {
        FALLBACK_BASE@
    }
}

/// The length of the first line of `text`: the number of characters before its first
/// newline, or all of them where it has none.
pub open spec fn line_end(text: Seq<char>) -> nat
    decreases text.len(),
{
    if text.len() == 0 || text[0] == '\n' {
        0
    } else {
        1 + line_end(text.skip(1))
    }
}

/// The lines of `text`. A newline ends a line and is no part of it; the last line
/// need not end in one, and an empty text has no lines. (A carriage return before the
/// newline is left in the line here: it is whitespace, and goes when the line is
/// trimmed.)
pub open spec fn lines(text: Seq<char>) -> Seq<Seq<char>>
    decreases text.len(),
{
    if text.len() == 0 {
        Seq::empty()
    } else {
        let end = line_end(text);
        if end >= text.len() {
            seq![text]
        } else {
            seq![text.take(end as int)] + lines(text.skip(end as int + 1))
        }
    }
}

/// The lines, put together again with a newline between each two.
pub open spec fn join_lines(lines: Seq<Seq<char>>) -> Seq<char>
    decreases lines.len(),
{
    if lines.len() == 0 {
        Seq::empty()
    } else if lines.len() == 1 {
        lines[0]
    } else {
        join_lines(lines.drop_last()) + seq!['\n'] + lines.last()
    }
}

/// Each line rewritten, in the order of the lines.
pub open spec fn rewritten_lines(
    lines: Seq<Seq<char>>,
    base: Seq<char>,
    cookie: Option<Seq<char>>,
) -> Seq<Seq<char>> {
    Seq::new(lines.len(), |i: int| rewritten_line(lines[i], base, cookie))
}

/// A playlist rewritten with references resolved against `base`.
pub open spec fn rewritten_text(body: Seq<char>, base: Seq<char>, cookie: Option<Seq<char>>) -> Seq<
    char,
> {
    join_lines(rewritten_lines(lines(body), base, cookie))
}

/// The playlist `body`, fetched from `url`, rewritten.
pub open spec fn rewritten_playlist(
    body: Seq<char>,
    url: Seq<char>,
    cookie: Option<Seq<char>>,
) -> Seq<char> {
    rewritten_text(body, resolution_base(url), cookie)
}

/// `line_end` finds the end of the first line: it is the first index that holds a
/// newline, or the length of the text.
pub proof fn lemma_line_end(text: Seq<char>, end: int)
    requires
        0 <= end <= text.len(),
        forall|j: int| 0 <= j < end ==> text[j] != '\n',
        end < text.len() ==> text[end] == '\n',
    ensures
        line_end(text) == end,
    decreases end,
{
    if end > 0 {
        let rest = text.skip(1);
        assert forall|j: int| 0 <= j < end - 1 implies rest[j] != '\n' by {
            assert(rest[j] == text[j + 1]);
        }
        lemma_line_end(rest, end - 1);
    }
}

/// Rewrites playlists fetched from one URL, with one cookie.
pub struct PlaylistRewriter {
    base: String,
    cookie: Option<String>,
    attribute: Vec<char>,
    quote: Vec<char>,
    prefix: Vec<char>,
    suffix: Vec<char>,
}

impl PlaylistRewriter {
    /// The pieces kept ready for each line are what their names say.
    #[verifier::type_invariant]
    closed spec fn wf(self) -> bool {
        &&& self.attribute@ == URI_ATTRIBUTE@
        &&& self.quote@ == QUOTE@
        &&& self.prefix@ == PROXY_PREFIX@
        &&& self.suffix@ == cookie_suffix(string_text(self.cookie))
    }

    /// The base that references are resolved against.
    pub closed spec fn base(self) -> Seq<char> {
        self.base@
    }

    /// The cookie that rewritten references carry.
    pub closed spec fn cookie(self) -> Option<Seq<char>> {
        string_text(self.cookie)
    }

    /// A rewriter that resolves references against `base` as it is given.
    pub fn new(base: &str, cookie: Option<&str>) -> (rewriter: Self)
        ensures
            rewriter.base() == base@,
            rewriter.cookie() == text_of(cookie),
    {
        let mut suffix: Vec<char> = Vec::new();
        let kept = match cookie {
            Some(value) => {
                let parameter = chars_of(COOKIE_PARAMETER);
                append_all(&mut suffix, parameter.as_slice());
                let encoded = percent_encode(value);
                let encoded_chars = chars_of(encoded.as_str());
                append_all(&mut suffix, encoded_chars.as_slice());
                assert(suffix@ =~= COOKIE_PARAMETER@ + percent_encoded(value@));
                Some(value.to_owned())
            },
            None => None,
        };
        PlaylistRewriter {
            base: base.to_owned(),
            cookie: kept,
            attribute: chars_of(URI_ATTRIBUTE),
            quote: chars_of(QUOTE),
            prefix: chars_of(PROXY_PREFIX),
            suffix,
        }
    }

    /// A rewriter for a playlist that was fetched from `url`: references are resolved
    /// against `url` where it is an absolute URL, and against `FALLBACK_BASE` where
    /// it is not.
    pub fn for_request(url: &str, cookie: Option<&str>) -> (rewriter: Self)
        ensures
            rewriter.base() == resolution_base(url@),
            rewriter.cookie() == text_of(cookie),
    {
        let absolute = parses_as_absolute(url);
        Self::new(base_for(url, absolute), cookie)
    }

    /// Appends to `out` what becomes of the trimmed line `line`, whose reference
    /// stands at `from..to`, when the reference resolved as `resolved` says.
    fn splice(
        &self,
        out: &mut Vec<char>,
        line: &[char],
        from: usize,
        to: usize,
        resolved: Option<String>,
    )
        requires
            reference_span(line@) == Some((from as int, to as int)),
            from <= to <= line@.len(),
        ensures
            final(out)@ == old(out)@ + line_with_resolution(
                line@,
                string_text(resolved),
                self.cookie(),
            ),
    {
        proof {
            use_type_invariant(self);
        }
        match resolved {
            None => {
                append_all(out, line);
            },
            Some(absolute) => {
                let encoded = percent_encode(absolute.as_str());
                let encoded_chars = chars_of(encoded.as_str());
                append_range(out, line, 0, from);
                append_all(out, self.prefix.as_slice());
                append_all(out, encoded_chars.as_slice());
                append_all(out, self.suffix.as_slice());
                append_range(out, line, to, line.len());
                assert(out@ =~= old(out)@ + (line@.take(from as int) + proxied_reference(
                    absolute@,
                    self.cookie(),
                ) + line@.skip(to as int)));
            },
        }
    }

    /// Appends to `out` what becomes of `line`.
    fn rewrite_into(&self, out: &mut Vec<char>, line: &[char])
        ensures
            final(out)@ == old(out)@ + rewritten_line(line@, self.base(), self.cookie()),
    {
        proof {
            use_type_invariant(self);
        }
        let (start, end) = trim_bounds(line);
        let trimmed = slice_subrange(line, start, end);
        match span_of(trimmed, self.attribute.as_slice(), self.quote.as_slice()) {
            None => {
                append_all(out, trimmed);
            },
            Some((from, to)) => {
                let reference = string_of(slice_subrange(trimmed, from, to));
                let resolved = join(self.base.as_str(), reference.as_str());
                self.splice(out, trimmed, from, to, resolved);
            },
        }
    }

    /// One line of a playlist, rewritten.
    pub fn rewrite_line(&self, line: &str) -> (rewritten: String)
        ensures
            rewritten@ == rewritten_line(line@, self.base(), self.cookie()),
    {
        let chars = chars_of(line);
        let mut out: Vec<char> = Vec::new();
        self.rewrite_into(&mut out, chars.as_slice());
        assert(out@ =~= rewritten_line(line@, self.base(), self.cookie()));
        string_of(out.as_slice())
    }

    /// One line of a playlist, rewritten for a given outcome of resolving its
    /// reference: `resolved` holds the absolute URL that the reference stands for,
    /// or nothing where it stands for none.
    pub fn rewrite_line_resolved(&self, line: &str, resolved: Option<&str>) -> (rewritten: String)
        ensures
            rewritten@ == line_with_resolution(trim(line@), text_of(resolved), self.cookie()),
    {
        proof {
            use_type_invariant(self);
        }
        let chars = chars_of(line);
        let (start, end) = trim_bounds(chars.as_slice());
        let trimmed = slice_subrange(chars.as_slice(), start, end);
        let mut out: Vec<char> = Vec::new();
        match span_of(trimmed, self.attribute.as_slice(), self.quote.as_slice()) {
            None => {
                append_all(&mut out, trimmed);
            },
            Some((from, to)) => {
                let owned = match resolved {
                    Some(absolute) => Some(absolute.to_owned()),
                    None => None,
                };
                self.splice(&mut out, trimmed, from, to, owned);
            },
        }
        assert(out@ =~= line_with_resolution(trim(line@), text_of(resolved), self.cookie()));
        string_of(out.as_slice())
    }

    /// The playlist `body`, rewritten line by line. The lines come out in the order
    /// in which they went in, with one newline between each two.
    pub fn rewrite(&self, body: &str) -> (rewritten: String)
        ensures
            rewritten@ == rewritten_text(body@, self.base(), self.cookie()),
    {
        let chars = chars_of(body);
        let n = chars.len();
        let mut out: Vec<char> = Vec::new();
        let mut start: usize = 0;
        let mut i: usize = 0;
        let mut first = true;
        let ghost mut done: Seq<Seq<char>> = Seq::empty();
        assert(chars@.skip(0) =~= chars@);
        while i < n
            invariant
                n == chars@.len(),
                chars@ == body@,
                start <= i <= n,
                forall|j: int| start <= j < i ==> chars@[j] != '\n',
                lines(body@) == done + lines(chars@.skip(start as int)),
                first == (done.len() == 0),
                out@ == join_lines(rewritten_lines(done, self.base(), self.cookie())),
            decreases n - i,
        {
            if chars[i] == '\n' {
                let ghost rest = chars@.skip(start as int);
                let ghost line = chars@.subrange(start as int, i as int);
                proof {
                    assert forall|j: int| 0 <= j < i - start implies rest[j] != '\n' by {
                        assert(rest[j] == chars@[start + j]);
                    }
                    lemma_line_end(rest, i - start);
                    assert(rest.take(i - start) =~= line);
                    assert(rest.skip(i - start + 1) =~= chars@.skip(i + 1));
                    assert(done + (seq![line] + lines(chars@.skip(i + 1))) =~= done.push(line)
                        + lines(chars@.skip(i + 1)));
                    lemma_rewritten_push(done, line, self.base(), self.cookie());
                }
                if !first {
                    out.push('\n');
                }
                self.rewrite_into(&mut out, slice_subrange(chars.as_slice(), start, i));
                proof {
                    done = done.push(line);
                }
                first = false;
                start = i + 1;
            }
            i += 1;
        }
        if start < n {
            let ghost rest = chars@.skip(start as int);
            proof {
                assert forall|j: int| 0 <= j < n - start implies rest[j] != '\n' by {
                    assert(rest[j] == chars@[start + j]);
                }
                lemma_line_end(rest, n - start);
                assert(rest =~= chars@.subrange(start as int, n as int));
                assert(done + seq![rest] =~= done.push(rest));
                lemma_rewritten_push(done, rest, self.base(), self.cookie());
            }
            if !first {
                out.push('\n');
            }
            self.rewrite_into(&mut out, slice_subrange(chars.as_slice(), start, n));
        } else {
            assert(done + Seq::<Seq<char>>::empty() =~= done);
        }
        string_of(out.as_slice())
    }
}

/// Rewriting one more line adds its rewritten form to the end of the rewritten lines,
/// after a newline where it is not the first.
proof fn lemma_rewritten_push(
    done: Seq<Seq<char>>,
    line: Seq<char>,
    base: Seq<char>,
    cookie: Option<Seq<char>>,
)
    ensures
        join_lines(rewritten_lines(done.push(line), base, cookie)) == if done.len() == 0 {
            rewritten_line(line, base, cookie)
        } else {
            join_lines(rewritten_lines(done, base, cookie)) + seq!['\n'] + rewritten_line(
                line,
                base,
                cookie,
            )
        },
{
    let all = rewritten_lines(done.push(line), base, cookie);
    assert(all.last() == rewritten_line(line, base, cookie));
    assert(all.drop_last() =~= rewritten_lines(done, base, cookie));
}

/// The base for a request to `url`, given whether `url` is an absolute URL.
pub fn base_for<'a>(url: &'a str, absolute: bool) -> (base: &'a str)
    ensures
        base@ == if absolute {
            url@
        } else {
            FALLBACK_BASE@
        },
{
    if absolute {
        url
    } else {
        FALLBACK_BASE
    }
}

/// Rewrites the playlist `body` that was fetched from `url`: every line is trimmed,
/// and every reference that resolves against `url` is replaced by a proxy-relative
/// URL that carries `cookie`.
pub fn rewrite_playlist(body: &str, url: &str, cookie: Option<&str>) -> (rewritten: String)
    ensures
        rewritten@ == rewritten_playlist(body@, url@, text_of(cookie)),
{
    PlaylistRewriter::for_request(url, cookie).rewrite(body)
}

/// Whether a text holds no newline.
pub open spec fn is_single_line(text: Seq<char>) -> bool {
    forall|i: int| 0 <= i < text.len() ==> text[i] != '\n'
}

/// The pieces into which the newlines of a text cut it: one more than it has
/// newlines.
pub open spec fn pieces(text: Seq<char>) -> Seq<Seq<char>>
    decreases text.len(),
{
    let end = line_end(text);
    if end >= text.len() {
        seq![text]
    } else {
        seq![text.take(end as int)] + pieces(text.skip(end as int + 1))
    }
}

/// The first line of a text ends at its first newline, or where the text ends.
pub proof fn lemma_first_line(text: Seq<char>)
    ensures
        line_end(text) <= text.len(),
        is_single_line(text.take(line_end(text) as int)),
        line_end(text) < text.len() ==> text[line_end(text) as int] == '\n',
    decreases text.len(),
{
    if text.len() > 0 && text[0] != '\n' {
        let rest = text.skip(1);
        lemma_first_line(rest);
        let end = line_end(text) as int;
        assert forall|i: int| 0 <= i < end implies text.take(end)[i] != '\n' by {
            if i > 0 {
                assert(rest.take(end - 1)[i - 1] == text[i]);
            }
        }
    }
}

/// No line of a text holds a newline.
pub proof fn lemma_lines_are_single(text: Seq<char>)
    ensures
        forall|i: int| 0 <= i < lines(text).len() ==> is_single_line(#[trigger] lines(text)[i]),
    decreases text.len(),
{
    if text.len() > 0 {
        lemma_first_line(text);
        let end = line_end(text);
        if end >= text.len() {
            assert(text.take(end as int) =~= text);
        } else {
            let rest = lines(text.skip(end as int + 1));
            lemma_lines_are_single(text.skip(end as int + 1));
            assert forall|i: int| 0 <= i < lines(text).len() implies is_single_line(
                #[trigger] lines(text)[i],
            ) by {
                if i > 0 {
                    assert(lines(text)[i] == rest[i - 1]);
                }
            }
        }
    }
}

/// Trimming a text that holds no newline leaves a text that holds none.
proof fn lemma_trim_is_single(text: Seq<char>)
    requires
        is_single_line(text),
    ensures
        is_single_line(trim(text)),
{
    lemma_trim_start_is_single(text);
    lemma_trim_end_is_single(trim_start(text));
}

/// Taking the leading whitespace off a text that holds no newline leaves a text
/// that holds none.
proof fn lemma_trim_start_is_single(text: Seq<char>)
    requires
        is_single_line(text),
    ensures
        is_single_line(trim_start(text)),
    decreases text.len(),
{
    if text.len() > 0 && is_whitespace(text[0]) {
        let rest = text.skip(1);
        assert forall|i: int| 0 <= i < rest.len() implies rest[i] != '\n' by {
            assert(rest[i] == text[i + 1]);
        }
        lemma_trim_start_is_single(rest);
    }
}

/// Taking the trailing whitespace off a text that holds no newline leaves a text
/// that holds none.
proof fn lemma_trim_end_is_single(text: Seq<char>)
    requires
        is_single_line(text),
    ensures
        is_single_line(trim_end(text)),
    decreases text.len(),
{
    if text.len() > 0 && is_whitespace(text.last()) {
        let rest = text.drop_last();
        assert forall|i: int| 0 <= i < rest.len() implies rest[i] != '\n' by {
            assert(rest[i] == text[i]);
        }
        lemma_trim_end_is_single(rest);
    }
}

/// Percent-encoding writes no newline.
proof fn lemma_encoded_is_single(bytes: Seq<u8>)
    ensures
        is_single_line(encoded_bytes(bytes)),
    decreases bytes.len(),
{
    if bytes.len() > 0 {
        lemma_encoded_is_single(bytes.drop_last());
        let last = encoded_byte(bytes.last());
        assert(is_single_line(last));
    }
}

/// A rewritten reference holds no newline.
proof fn lemma_proxied_is_single(absolute: Seq<char>, cookie: Option<Seq<char>>)
    ensures
        is_single_line(proxied_reference(absolute, cookie)),
{
    reveal_strlit("proxy?url=");
    reveal_strlit("&cookie=");
    lemma_encoded_is_single(encode_utf8(absolute));
    match cookie {
        Some(value) => {
            lemma_encoded_is_single(encode_utf8(value));
        },
        None => {},
    }
}

/// What becomes of a line that holds no newline holds none either.
pub proof fn lemma_rewritten_is_single(line: Seq<char>, base: Seq<char>, cookie: Option<Seq<char>>)
    requires
        is_single_line(line),
    ensures
        is_single_line(rewritten_line(line, base, cookie)),
{
    let trimmed = trim(line);
    lemma_trim_is_single(line);
    match reference_span(trimmed) {
        Some((from, to)) => {
            match joined_url(base, trimmed.subrange(from, to)) {
                Some(absolute) => {
                    lemma_proxied_is_single(absolute, cookie);
                    lemma_reference_span(trimmed);
                },
                None => {},
            }
        },
        None => {},
    }
}

/// The reference of a line stands within the line.
pub proof fn lemma_reference_span(line: Seq<char>)
    ensures
        match reference_span(line) {
            Some((from, to)) => 0 <= from <= to <= line.len(),
            None => true,
        },
{
    if line_kind(line) == LineKind::Directive {
        lemma_find_from(line, URI_ATTRIBUTE@, 0);
        match find(line, URI_ATTRIBUTE@) {
            Some(at) => {
                lemma_find_from(line, QUOTE@, at + URI_ATTRIBUTE@.len());
            },
            None => {},
        }
    }
}

/// One more line after a text adds one more piece.
proof fn lemma_pieces_append(text: Seq<char>, line: Seq<char>)
    requires
        is_single_line(line),
    ensures
        pieces(text + seq!['\n'] + line) == pieces(text).push(line),
    decreases text.len(),
{
    let whole = text + seq!['\n'] + line;
    lemma_first_line(text);
    let end = line_end(text) as int;
    assert forall|j: int| 0 <= j < end implies whole[j] != '\n' by {
        assert(text.take(end)[j] == whole[j]);
    }
    assert(whole[end] == '\n') by {
        if end < text.len() {
            assert(whole[end] == text[end]);
        }
    }
    lemma_line_end(whole, end);
    assert(whole.take(end) =~= text.take(end));
    assert(pieces(whole) == seq![whole.take(end)] + pieces(whole.skip(end + 1)));
    if end >= text.len() {
        assert(whole.skip(end + 1) =~= line);
        lemma_line_end(line, line.len() as int);
        assert(pieces(line) == seq![line]);
        assert(text.take(end) =~= text);
        assert(pieces(text) == seq![text]);
        assert(seq![text] + seq![line] =~= seq![text].push(line));
    } else {
        let rest = text.skip(end + 1);
        assert(whole.skip(end + 1) =~= rest + seq!['\n'] + line);
        assert(pieces(text) == seq![text.take(end)] + pieces(rest));
        lemma_pieces_append(rest, line);
        assert(seq![text.take(end)] + pieces(rest).push(line) =~= (seq![text.take(end)] + pieces(
            rest,
        )).push(line));
    }
}

/// Lines that hold no newline come back as the pieces of their joined text.
pub proof fn lemma_pieces_of_joined(lines: Seq<Seq<char>>)
    requires
        lines.len() > 0,
        forall|i: int| 0 <= i < lines.len() ==> is_single_line(#[trigger] lines[i]),
    ensures
        pieces(join_lines(lines)) == lines,
    decreases lines.len(),
{
    if lines.len() == 1 {
        lemma_line_end(lines[0], lines[0].len() as int);
        assert(seq![lines[0]] =~= lines);
    } else {
        let before = lines.drop_last();
        assert forall|i: int| 0 <= i < before.len() implies is_single_line(
            #[trigger] before[i],
        ) by {
            assert(before[i] == lines[i]);
        }
        lemma_pieces_of_joined(before);
        lemma_pieces_append(join_lines(before), lines.last());
        assert(before.push(lines.last()) =~= lines);
    }
}

/// Rewriting keeps the structure of a playlist. There are as many rewritten lines
/// as lines, and each stands where the line stood that it was made of. The
/// rewritten text is these lines with a newline between each two: where the
/// playlist has a line at all, the newlines of the rewritten text cut it into
/// exactly the rewritten lines, in their order.
pub proof fn law_line_structure_is_kept(body: Seq<char>, base: Seq<char>, cookie: Option<Seq<char>>)
    ensures
        rewritten_lines(lines(body), base, cookie).len() == lines(body).len(),
        forall|i: int|
            0 <= i < lines(body).len() ==> #[trigger] rewritten_lines(lines(body), base, cookie)[i]
                == rewritten_line(lines(body)[i], base, cookie),
        lines(body).len() > 0 ==> pieces(rewritten_text(body, base, cookie)) == rewritten_lines(
            lines(body),
            base,
            cookie,
        ),
{
    let before = lines(body);
    let after = rewritten_lines(before, base, cookie);
    if before.len() > 0 {
        lemma_lines_are_single(body);
        assert forall|i: int| 0 <= i < after.len() implies is_single_line(#[trigger] after[i]) by {
            lemma_rewritten_is_single(before[i], base, cookie);
        }
        lemma_pieces_of_joined(after);
    }
}

/// A playlist in which no line holds a `URI="` attribute keeps every blank line and
/// every directive as they are, trimmed, and has each reference line replaced by
/// the proxied form of the absolute URL that it stands for; a reference that stands
/// for no URL stays as it is.
pub proof fn law_plain_playlist(
    body: Seq<char>,
    base: Seq<char>,
    cookie: Option<Seq<char>>,
    i: int,
)
    requires
        0 <= i < lines(body).len(),
        forall|k: int|
            0 <= k < lines(body).len() ==> !contains(trim(#[trigger] lines(body)[k]), URI_ATTRIBUTE@),
    ensures
        rewritten_lines(lines(body), base, cookie)[i] == match line_kind(trim(lines(body)[i])) {
            LineKind::Reference => match joined_url(base, trim(lines(body)[i])) {
                Some(absolute) => proxied_reference(absolute, cookie),
                None => trim(lines(body)[i]),
            },
            _ => trim(lines(body)[i]),
        },
{
    let line = trim(lines(body)[i]);
    assert(!contains(trim(lines(body)[i]), URI_ATTRIBUTE@));
    if line_kind(line) == LineKind::Reference {
        assert(line.subrange(0, line.len() as int) =~= line);
        match joined_url(base, line) {
            Some(absolute) => {
                assert(line.take(0) + proxied_reference(absolute, cookie) + line.skip(
                    line.len() as int,
                ) =~= proxied_reference(absolute, cookie));
            },
            None => {},
        }
    }
}

} // verus!
