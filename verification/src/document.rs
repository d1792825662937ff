//! Documents and the transcript lines they hold.
use vstd::prelude::*;
use crate::clock::{default_instant, utc_now_seconds};
use crate::ids::{new_document_id, uuid_text, uuid_text_spec};
use crate::clock::clock_text;
use crate::text::{
    chars_of, count_char, count_in, find_char, find_in, is_first_pos, lemma_find_char_in_range,
    lemma_find_char_is, lines_spec, string_of, strip_cr, trim_bounds, trim_char_spec, trim_end_bound,
    lemma_trimmed_ends, trim_end_spec, trim_spec, trim_start_spec, white_space,
};
use vstd::string::StringExecFns;

verus! {

/// A transcript line as seen by specifications.
pub struct LineView {
    pub timestamp: Seq<char>,
    pub text: Seq<char>,
}

/// One timestamped line of a transcript, such as `[12:03:41] hello`.
#[derive(Debug, Clone)]
pub struct TranscriptLine {
    pub timestamp: String,
    pub text: String,
}

impl View for TranscriptLine {
    type V = LineView;

    open spec fn view(&self) -> LineView {
        LineView { timestamp: self.timestamp@, text: self.text@ }
    }
}

/// The views of a sequence of transcript lines.
pub open spec fn lines_view(v: Seq<TranscriptLine>) -> Seq<LineView> {
    v.map_values(|l: TranscriptLine| l@)
}

/// What one line of a document contributes to its transcript: a line that,
/// once its trailing whitespace is dropped, starts with `[`, has a `]` later
/// and holds one or two `:` between the two, gives the bracketed timestamp
/// and the trimmed text after the `]`; any other line gives nothing.
pub open spec fn parse_line_spec(l: Seq<char>) -> Option<LineView> {
    let t = trim_end_spec(l);
    if t.len() == 0 || t[0] != '[' {
        None
    } else {
        let rest = t.drop_first();
        match find_char(rest, ']') {
            None => None,
            Some(c) => {
                let ts = rest.take(c);
                let k = count_char(ts, ':');
                if k == 1 || k == 2 {
                    Some(
                        LineView {
                            timestamp: seq!['['] + ts + seq![']'],
                            text: trim_spec(rest.skip(c + 1)),
                        },
                    )
                } else {
                    None
                }
            },
        }
    }
}

/// The transcript lines that a sequence of text lines gives, in order.
pub open spec fn parsed_lines(ls: Seq<Seq<char>>) -> Seq<LineView>
    decreases ls.len(),
{
    if ls.len() == 0 {
        seq![]
    } else {
        parsed_lines(ls.drop_last()) + match parse_line_spec(ls.last()) {
            Some(l) => seq![l],
            None => seq![],
        }
    }
}

/// The transcript that a document's content holds.
pub open spec fn transcript_spec(content: Seq<char>) -> Seq<LineView> {
    parsed_lines(lines_spec(content))
}

/// The string `[` + `v[from..to]` + `]`.
fn bracketed(v: &Vec<char>, from: usize, to: usize) -> (s: String)
    requires
        from <= to <= v.len(),
    ensures
        s@ == seq!['['] + v@.subrange(from as int, to as int) + seq![']'],
{
    let mut s = String::new();
    s.push('[');
    let mut i = from;
    while i < to
        invariant
            from <= i <= to <= v.len(),
            s@ == seq!['['] + v@.subrange(from as int, i as int),
        decreases to - i,
    {
        s.push(v[i]);
        i = i + 1;
    }
    s.push(']');
    s
}

/// The transcript line held by the text line `v[from..to]`, if any.
fn parse_line_at(v: &Vec<char>, from: usize, to: usize) -> (r: Option<TranscriptLine>)
    requires
        from <= to <= v.len(),
    ensures
        match r {
            Some(t) => parse_line_spec(v@.subrange(from as int, to as int)) == Some(t@),
            None => parse_line_spec(v@.subrange(from as int, to as int)) is None,
        },
{
    let ghost l = v@.subrange(from as int, to as int);
    let e = trim_end_bound(v, from, to);
    let ghost t = v@.subrange(from as int, e as int);
    if e == from || v[from] != '[' {
        return None;
    }
    let ghost rest = t.drop_first();
    assert(rest =~= v@.subrange(from + 1, e as int));
    let c = find_in(v, from + 1, e, ']');
    if c == e {
        return None;
    }
    assert(rest.take(c - from - 1) =~= v@.subrange(from + 1, c as int));
    assert(rest.skip(c - from) =~= v@.subrange(c + 1, e as int));
    let k = count_in(v, from + 1, c, ':');
    if k == 1 || k == 2 {
        let timestamp = bracketed(v, from + 1, c);
        let (a, b) = trim_bounds(v, c + 1, e);
        let text = string_of(v, a, b);
        Some(TranscriptLine { timestamp, text })
    } else {
        None
    }
}

impl TranscriptLine {
    /// The transcript lines of a document's content, in order: each line of
    /// `content` that holds a timestamp in brackets gives one, the others none.
    pub fn parse_content(content: &str) -> (r: Vec<TranscriptLine>)
        ensures
            lines_view(r@) == transcript_spec(content@),
    {
        let v = chars_of(content);
        let n = v.len();
        let mut out: Vec<TranscriptLine> = Vec::new();
        let mut pos: usize = 0;
        let ghost mut done: Seq<Seq<char>> = seq![];
        assert(v@.subrange(0, n as int) =~= v@);
        while pos < n
            invariant
                pos <= n == v.len(),
                lines_spec(v@) == done + lines_spec(v@.subrange(pos as int, n as int)),
                lines_view(out@) == parsed_lines(done),
            decreases n - pos,
        {
            let ghost s = v@.subrange(pos as int, n as int);
            let j = find_in(&v, pos, n, '\n');
            let mut end = j;
            if j < n && end > pos && v[end - 1] == '\r' {
                end = end - 1;
            }
            let ghost line = v@.subrange(pos as int, end as int);
            let ghost rest_start: int = if j < n { j + 1 } else { n as int };
            proof {
                lemma_find_char_in_range(s, '\n');
                if j < n {
                    assert(s.take(j - pos) =~= v@.subrange(pos as int, j as int));
                    assert(s.skip(j - pos + 1) =~= v@.subrange(j + 1, n as int));
                    if end < j {
                        assert(v@.subrange(pos as int, j as int).drop_last() =~= line);
                    } else {
                        assert(v@.subrange(pos as int, j as int) =~= line);
                    }
                    assert(line == strip_cr(v@.subrange(pos as int, j as int)));
                    assert(lines_spec(s) == seq![line] + lines_spec(
                        v@.subrange(rest_start, n as int),
                    ));
                } else {
                    assert(line =~= s);
                    assert(lines_spec(s) == seq![line]);
                    assert(lines_spec(v@.subrange(n as int, n as int)) =~= seq![]);
                    assert(lines_spec(s) == seq![line] + lines_spec(
                        v@.subrange(rest_start, n as int),
                    ));
                }
            }
            let parsed = parse_line_at(&v, pos, end);
            let ghost old_out = out@;
            match parsed {
                Some(t) => {
                    out.push(t);
                    assert(lines_view(out@) =~= lines_view(old_out).push(t@));
                },
                None => {},
            }
            proof {
                let nd = done.push(line);
                assert(nd.drop_last() =~= done);
                assert(lines_view(out@) =~= parsed_lines(nd));
                assert(done + (seq![line] + lines_spec(v@.subrange(rest_start, n as int))) =~= nd
                    + lines_spec(v@.subrange(rest_start, n as int)));
                done = nd;
            }
            pos = if j < n { j + 1 } else { n };
        }
        proof {
            assert(lines_spec(v@.subrange(n as int, n as int)) =~= seq![]);
            assert(done + seq![] =~= done);
        }
        out
    }
}


/// `lines_spec` splits a content that is empty or ends with a newline apart
/// from whatever follows it.
proof fn lemma_lines_after_newline(c: Seq<char>, x: Seq<char>)
    requires
        c.len() == 0 || c.last() == '\n',
    ensures
        lines_spec(c + x) == lines_spec(c) + lines_spec(x),
    decreases c.len(),
{
    if c.len() == 0 {
        assert(c + x =~= x);
        assert(lines_spec(c) + lines_spec(x) =~= lines_spec(x));
    } else {
        let cx = c + x;
        lemma_find_char_in_range(c, '\n');
        match find_char(c, '\n') {
            Some(i) => {
                assert(is_first_pos(cx, '\n', i));
                lemma_find_char_is(cx, '\n', i);
                assert(cx.take(i) =~= c.take(i));
                assert(cx.skip(i + 1) =~= c.skip(i + 1) + x);
                let c2 = c.skip(i + 1);
                if c2.len() > 0 {
                    assert(c2.last() == c.last());
                }
                lemma_lines_after_newline(c2, x);
                assert(lines_spec(cx) =~= seq![strip_cr(c.take(i))] + lines_spec(c2 + x));
                assert(lines_spec(c) =~= seq![strip_cr(c.take(i))] + lines_spec(c2));
                assert(lines_spec(cx) =~= lines_spec(c) + lines_spec(x));
            },
            None => {
                assert(c[c.len() - 1] != '\n');
            },
        }
    }
}

/// The transcript lines of two runs of text lines, one after the other, are
/// those of the first run followed by those of the second.
proof fn lemma_parsed_lines_concat(a: Seq<Seq<char>>, b: Seq<Seq<char>>)
    ensures
        parsed_lines(a + b) == parsed_lines(a) + parsed_lines(b),
    decreases b.len(),
{
    if b.len() == 0 {
        assert(a + b =~= a);
        assert(parsed_lines(a) + parsed_lines(b) =~= parsed_lines(a));
    } else {
        lemma_parsed_lines_concat(a, b.drop_last());
        assert((a + b).drop_last() =~= a + b.drop_last());
        assert((a + b).last() == b.last());
        let tail = match parse_line_spec(b.last()) {
            Some(l) => seq![l],
            None => seq![],
        };
        assert(parsed_lines(a) + parsed_lines(b.drop_last()) + tail =~= parsed_lines(a) + (parsed_lines(
            b.drop_last(),
        ) + tail));
    }
}

/// Parsing a concatenation: when the first text is empty or ends with a
/// newline, the transcript of the two texts together is the transcript of
/// the first followed by the transcript of the second.
pub proof fn transcript_of_concatenation(a: Seq<char>, b: Seq<char>)
    requires
        a.len() == 0 || a.last() == '\n',
    ensures
        transcript_spec(a + b) == transcript_spec(a) + transcript_spec(b),
{
    lemma_lines_after_newline(a, b);
    lemma_parsed_lines_concat(lines_spec(a), lines_spec(b));
}

/// A single line without a newline, followed by one, is one line.
proof fn lemma_lines_single(l: Seq<char>)
    requires
        forall|j: int| 0 <= j < l.len() ==> l[j] != '\n',
    ensures
        lines_spec(l.push('\n')) == seq![strip_cr(l)],
{
    let s = l.push('\n');
    assert(is_first_pos(s, '\n', l.len() as int));
    lemma_find_char_is(s, '\n', l.len() as int);
    assert(s.take(l.len() as int) =~= l);
    assert(s.skip(l.len() as int + 1) =~= Seq::<char>::empty());
    assert(lines_spec(Seq::<char>::empty()) =~= Seq::<Seq<char>>::empty());
    assert(lines_spec(s) =~= seq![strip_cr(l)]);
}

/// How many times `c` occurs in a concatenation.
proof fn lemma_count_concat(a: Seq<char>, b: Seq<char>, c: char)
    ensures
        count_char(a + b, c) == count_char(a, c) + count_char(b, c),
    decreases b.len(),
{
    if b.len() == 0 {
        assert(a + b =~= a);
    } else {
        lemma_count_concat(a, b.drop_last(), c);
        assert((a + b).drop_last() =~= a + b.drop_last());
    }
}

/// `c` does not occur in a sequence none of whose elements is `c`.
proof fn lemma_count_none(s: Seq<char>, c: char)
    requires
        forall|j: int| 0 <= j < s.len() ==> s[j] != c,
    ensures
        count_char(s, c) == 0,
    decreases s.len(),
{
    if s.len() > 0 {
        lemma_count_none(s.drop_last(), c);
    }
}

/// A clock reading holds exactly two colons.
proof fn lemma_clock_colons(hms: Seq<char>)
    requires
        clock_text(hms),
    ensures
        count_char(hms, ':') == 2,
{
    let p = hms.take(2);
    let q = hms.subrange(3, 5);
    let r = hms.subrange(6, 8);
    assert(hms =~= p + seq![':'] + q + seq![':'] + r);
    assert forall|j: int| 0 <= j < p.len() implies p[j] != ':' by {
        assert('0' <= hms[j] <= '9');
    }
    assert forall|j: int| 0 <= j < q.len() implies q[j] != ':' by {
        assert('0' <= hms[j + 3] <= '9');
    }
    assert forall|j: int| 0 <= j < r.len() implies r[j] != ':' by {
        assert('0' <= hms[j + 6] <= '9');
    }
    lemma_count_none(p, ':');
    lemma_count_none(q, ':');
    lemma_count_none(r, ':');
    assert(count_char(seq![':'], ':') == 1) by {
        reveal_with_fuel(count_char, 2);
        assert(seq![':'].drop_last() =~= Seq::<char>::empty());
        assert(seq![':'].last() == ':');
    }
    lemma_count_concat(p, seq![':'], ':');
    lemma_count_concat(p + seq![':'], q, ':');
    lemma_count_concat(p + seq![':'] + q, seq![':'], ':');
    lemma_count_concat(p + seq![':'] + q + seq![':'], r, ':');
}

/// The line `[HH:MM:SS] <text>` parses to the timestamp `[HH:MM:SS]` and the text.
proof fn lemma_stamped_line_parses(hms: Seq<char>, text: Seq<char>)
    requires
        clock_text(hms),
        trim_spec(text) == text,
    ensures
        strip_cr(seq!['['] + hms + seq![']', ' '] + text) == seq!['['] + hms + seq![']', ' '] + text,
        parse_line_spec(seq!['['] + hms + seq![']', ' '] + text) == Some(
            LineView { timestamp: seq!['['] + hms + seq![']'], text },
        ),
{
    let l = seq!['['] + hms + seq![']', ' '] + text;
    let tail = if text.len() > 0 { seq![' '] + text } else { Seq::<char>::empty() };
    let t = seq!['['] + hms + seq![']'] + tail;
    assert(white_space('\r'));
    assert(white_space(' '));
    if text.len() > 0 {
        lemma_trimmed_ends(text);
        assert(l.last() == text.last());
        assert(l =~= t);
        assert(trim_end_spec(l) == t);
        assert(strip_cr(l) == l);
        assert(trim_start_spec(tail) == trim_start_spec(text)) by {
            assert(tail.drop_first() =~= text);
        }
        assert(trim_spec(tail) == text);
    } else {
        assert(l.last() == ' ');
        assert(l.drop_last() =~= t);
        assert(!white_space(']'));
        assert(trim_end_spec(l) == trim_end_spec(t));
        assert(trim_end_spec(t) == t);
        assert(strip_cr(l) == l);
        assert(trim_start_spec(tail) == tail);
        assert(trim_end_spec(tail) == tail);
        assert(trim_spec(tail) =~= text);
    }
    let rest = t.drop_first();
    assert(rest =~= hms + seq![']'] + tail);
    assert forall|j: int| 0 <= j < 8 implies rest[j] != ']' by {
        assert(rest[j] == hms[j]);
        if j != 2 && j != 5 {
            assert('0' <= hms[j] <= '9');
        }
    }
    assert(is_first_pos(rest, ']', 8));
    lemma_find_char_is(rest, ']', 8);
    assert(rest.take(8) =~= hms);
    assert(rest.skip(9) =~= tail);
    lemma_clock_colons(hms);
}

/// Appending a transcription line reads back: once the line
/// `[HH:MM:SS] <text>` and a newline are appended to a document's content
/// that is empty or ends with a newline, the content's transcript is the one
/// it held before followed by the line with timestamp `[HH:MM:SS]` and the
/// text, provided the text has no newline and no whitespace at either end.
pub proof fn appended_line_reads_back(content: Seq<char>, hms: Seq<char>, text: Seq<char>)
    requires
        content.len() == 0 || content.last() == '\n',
        clock_text(hms),
        trim_spec(text) == text,
        forall|j: int| 0 <= j < text.len() ==> text[j] != '\n',
    ensures
        transcript_spec(content + (seq!['['] + hms + seq![']', ' '] + text + seq!['\n']))
            == transcript_spec(content).push(
            LineView { timestamp: seq!['['] + hms + seq![']'], text },
        ),
{
    let stamp = seq!['['] + hms + seq![']', ' '];
    let l = stamp + text;
    assert(stamp + text + seq!['\n'] =~= l.push('\n'));
    assert forall|j: int| 0 <= j < l.len() implies l[j] != '\n' by {
        if j >= stamp.len() {
            assert(l[j] == text[j - stamp.len()]);
        } else if 1 <= j <= 8 && j != 3 && j != 6 {
            assert(l[j] == hms[j - 1]);
            assert('0' <= hms[j - 1] <= '9');
        }
    }
    lemma_lines_after_newline(content, l.push('\n'));
    lemma_lines_single(l);
    lemma_stamped_line_parses(hms, text);
    let ls = lines_spec(content);
    assert(lines_spec(content + l.push('\n')) == ls + seq![l]);
    assert((ls + seq![l]).drop_last() =~= ls);
    assert((ls + seq![l]).last() == l);
}

/// The Unicode `Alphabetic` or `Numeric` property of a character outside ASCII,
/// as decided by `char::is_alphanumeric`.
pub uninterp spec fn unicode_alphanumeric(c: char) -> bool;

/// An ASCII letter or digit.
pub open spec fn ascii_alphanumeric(c: char) -> bool {
    ('0' <= c <= '9') || ('A' <= c <= 'Z') || ('a' <= c <= 'z')
}

/// Whether `char::is_alphanumeric` holds of `c`: among ASCII characters
/// exactly the letters and digits; beyond ASCII, as named.
pub open spec fn alphanumeric(c: char) -> bool {
    if (c as u32) < 128 {
        ascii_alphanumeric(c)
    } else {
        unicode_alphanumeric(c)
    }
}

/// `char::is_alphanumeric`: documented to hold of the characters with the
/// Unicode `Alphabetic` or `Numeric` property, which among ASCII characters
/// are the letters and digits; beyond ASCII the property is named.
pub assume_specification[ char::is_alphanumeric ](c: char) -> (r: bool)
    ensures
        r == if (c as u32) < 128 {
            ascii_alphanumeric(c)
        } else {
            unicode_alphanumeric(c)
        },
;

/// The most transcript lines a document keeps.
pub const MAX_TRANSCRIPT_LINES: usize = 2000;

/// The most characters of a title that a file name keeps.
pub const MAX_TITLE_CHARS: usize = 50;

/// A title character as it goes into a file name: alphanumerics and `-`
/// stay, anything else becomes `-`.
pub open spec fn title_char(c: char) -> char {
    if alphanumeric(c) || c == '-' {
        c
    } else {
        '-'
    }
}

/// `s` with each `--`, taken from the left without overlap, replaced by `-`
/// (`str::replace("--", "-")`).
pub open spec fn collapse_dashes(s: Seq<char>) -> Seq<char>
    decreases s.len(),
{
    if s.len() < 2 {
        s
    } else if s[0] == '-' && s[1] == '-' {
        seq!['-'] + collapse_dashes(s.skip(2))
    } else {
        seq![s[0]] + collapse_dashes(s.drop_first())
    }
}

/// At most the first `n` elements of `s`.
pub open spec fn prefix_at_most(s: Seq<char>, n: nat) -> Seq<char> {
    if s.len() <= n {
        s
    } else {
        s.take(n as int)
    }
}

/// A title made fit for a file name: characters mapped by `title_char`, the
/// first 50 kept, dashes trimmed at both ends, then `--` collapsed to `-`.
pub open spec fn sanitize_spec(title: Seq<char>) -> Seq<char> {
    collapse_dashes(
        trim_char_spec(
            prefix_at_most(title.map_values(|c: char| title_char(c)), MAX_TITLE_CHARS as nat),
            '-',
        ),
    )
}

/// The file name under which a document is saved: its identifier, a dash
/// and the sanitized title when that is not empty, then `.md`.
pub open spec fn filename_spec(id: u128, title: Seq<char>) -> Seq<char> {
    let t = sanitize_spec(title);
    if t.len() == 0 {
        uuid_text_spec(id) + seq!['.', 'm', 'd']
    } else {
        uuid_text_spec(id) + seq!['-'] + t + seq!['.', 'm', 'd']
    }
}

/// A character that may stand in a sanitized title.
pub open spec fn title_safe(c: char) -> bool {
    c == '-' || alphanumeric(c)
}

/// Collapsing dashes never lengthens a text.
proof fn lemma_collapse_len(s: Seq<char>)
    ensures
        collapse_dashes(s).len() <= s.len(),
    decreases s.len(),
{
    if s.len() >= 2 {
        if s[0] == '-' && s[1] == '-' {
            lemma_collapse_len(s.skip(2));
        } else {
            lemma_collapse_len(s.drop_first());
        }
    }
}

/// Collapsing dashes keeps a text made of title characters so.
proof fn lemma_collapse_safe(s: Seq<char>)
    requires
        forall|i: int| 0 <= i < s.len() ==> title_safe(#[trigger] s[i]),
    ensures
        forall|i: int|
            0 <= i < collapse_dashes(s).len() ==> title_safe(#[trigger] collapse_dashes(s)[i]),
    decreases s.len(),
{
    if s.len() >= 2 {
        if s[0] == '-' && s[1] == '-' {
            assert forall|i: int| 0 <= i < s.skip(2).len() implies title_safe(
                #[trigger] s.skip(2)[i],
            ) by {
                assert(s.skip(2)[i] == s[i + 2]);
            }
            lemma_collapse_safe(s.skip(2));
            let r = collapse_dashes(s.skip(2));
            assert forall|i: int| 0 <= i < collapse_dashes(s).len() implies title_safe(
                #[trigger] collapse_dashes(s)[i],
            ) by {
                if i > 0 {
                    assert(collapse_dashes(s)[i] == r[i - 1]);
                }
            }
        } else {
            assert forall|i: int| 0 <= i < s.drop_first().len() implies title_safe(
                #[trigger] s.drop_first()[i],
            ) by {
                assert(s.drop_first()[i] == s[i + 1]);
            }
            lemma_collapse_safe(s.drop_first());
            let r = collapse_dashes(s.drop_first());
            assert forall|i: int| 0 <= i < collapse_dashes(s).len() implies title_safe(
                #[trigger] collapse_dashes(s)[i],
            ) by {
                if i > 0 {
                    assert(collapse_dashes(s)[i] == r[i - 1]);
                } else {
                    assert(collapse_dashes(s)[0] == s[0]);
                    assert(title_safe(s[0]));
                }
            }
        }
    }
}

/// Collapsing dashes keeps a text's first and last characters when they are not dashes.
proof fn lemma_collapse_ends(s: Seq<char>)
    requires
        s.len() > 0,
        s[0] != '-',
        s.last() != '-',
    ensures
        collapse_dashes(s).len() > 0,
        collapse_dashes(s)[0] == s[0],
        collapse_dashes(s).last() == s.last(),
{
    lemma_collapse_last(s);
}

/// Collapsing dashes keeps a text's last character when it is not a dash.
proof fn lemma_collapse_last(s: Seq<char>)
    requires
        s.len() > 0,
        s.last() != '-',
    ensures
        collapse_dashes(s).len() > 0,
        collapse_dashes(s).last() == s.last(),
        s[0] != '-' ==> collapse_dashes(s)[0] == s[0],
    decreases s.len(),
{
    if s.len() >= 2 {
        if s[0] == '-' && s[1] == '-' {
            if s.len() > 2 {
                assert(s.skip(2).last() == s.last());
                lemma_collapse_last(s.skip(2));
            } else {
                assert(s.last() == '-');
            }
        } else {
            assert(s.drop_first().last() == s.last());
            lemma_collapse_last(s.drop_first());
        }
    }
}

/// A document: a titled text that holds a transcript.
#[derive(Debug)]
pub struct Document {
    pub id: u128,
    pub title: String,
    pub content: String,
    pub transcript_lines: Vec<TranscriptLine>,
    pub created_at: i64,
    pub modified_at: i64,
    pub last_save_at: std::time::Instant,
}

impl Document {
    /// A new empty document with a fresh random identifier; both time stamps
    /// are the current time.
    pub fn new(title: String) -> (d: Document)
        ensures
            d.title@ == title@,
            d.content@ == Seq::<char>::empty(),
            d.transcript_lines@.len() == 0,
            d.created_at == d.modified_at,
            (d.id >> 76u128) & 0xf == 4,
            (d.id >> 62u128) & 0x3 == 2,
    {
        let now = utc_now_seconds();
        Document {
            id: new_document_id(),
            title,
            content: String::new(),
            transcript_lines: Vec::new(),
            created_at: now,
            modified_at: now,
            last_save_at: default_instant(),
        }
    }

    /// A title made fit for a file name (see `sanitize_spec`). The result is
    /// at most 50 characters long, holds only alphanumerics and dashes, and
    /// neither starts nor ends with a dash.
    pub fn sanitize_title(title: &str) -> (r: String)
        ensures
            r@ == sanitize_spec(title@),
            r@.len() <= MAX_TITLE_CHARS,
            forall|i: int| 0 <= i < r@.len() ==> title_safe(#[trigger] r@[i]),
            r@.len() > 0 ==> r@[0] != '-' && r@.last() != '-',
    {
        let v = chars_of(title);
        let n = if v.len() < MAX_TITLE_CHARS { v.len() } else { MAX_TITLE_CHARS };
        let ghost mapped = title@.map_values(|c: char| title_char(c));
        let ghost kept = prefix_at_most(mapped, MAX_TITLE_CHARS as nat);
        let mut m: Vec<char> = Vec::new();
        let mut i: usize = 0;
        while i < n
            invariant
                i <= n <= v.len(),
                v@ == title@,
                mapped == title@.map_values(|c: char| title_char(c)),
                n == kept.len(),
                kept.len() <= mapped.len() == v.len(),
                forall|j: int| 0 <= j < kept.len() ==> kept[j] == mapped[j],
                m@ =~= kept.take(i as int),
            decreases n - i,
        {
            let c = v[i];
            let d = if c.is_alphanumeric() || c == '-' { c } else { '-' };
            assert(d == title_char(c));
            assert(c == title@[i as int]);
            assert(mapped[i as int] == title_char(title@[i as int]));
            assert(d == kept[i as int]);
            m.push(d);
            assert(m@ =~= kept.take(i + 1));
            i = i + 1;
        }
        assert(m@ =~= kept);
        // Trim the dashes at both ends.
        let mut a: usize = 0;
        while a < n && m[a] == '-'
            invariant
                a <= n == m.len(),
                trim_char_spec(m@, '-') == trim_char_spec(m@.subrange(a as int, n as int), '-'),
            decreases n - a,
        {
            assert(m@.subrange(a as int, n as int).drop_first() =~= m@.subrange(a + 1, n as int));
            a = a + 1;
        }
        assert(m@.subrange(0, n as int) =~= m@);
        let mut b: usize = n;
        while b > a && m[b - 1] == '-'
            invariant
                a <= b <= n == m.len(),
                a < n ==> m@[a as int] != '-',
                a == n ==> b == n,
                trim_char_spec(m@, '-') == trim_char_spec(m@.subrange(a as int, b as int), '-'),
            decreases b,
        {
            assert(m@.subrange(a as int, b as int).drop_last() =~= m@.subrange(a as int, b - 1));
            b = b - 1;
        }
        let ghost t = m@.subrange(a as int, b as int);
        assert(trim_char_spec(m@, '-') == t);
        // Collapse double dashes, from the left.
        let mut out = String::new();
        let mut k = a;
        while k < b
            invariant
                a <= k <= b <= m.len(),
                collapse_dashes(t) == out@ + collapse_dashes(m@.subrange(k as int, b as int)),
            decreases b - k,
        {
            let ghost u = m@.subrange(k as int, b as int);
            if k + 1 < b && m[k] == '-' && m[k + 1] == '-' {
                assert(u.skip(2) =~= m@.subrange(k + 2, b as int));
                out.push('-');
                k = k + 2;
            } else {
                proof {
                    assert(u.drop_first() =~= m@.subrange(k + 1, b as int));
                    if u.len() < 2 {
                        assert(m@.subrange(k + 1, b as int) =~= Seq::<char>::empty());
                        assert(u =~= seq![m@[k as int]]);
                    }
                }
                out.push(m[k]);
                k = k + 1;
            }
        }
        assert(out@ =~= collapse_dashes(t));
        proof {
            lemma_collapse_len(t);
            assert forall|i: int| 0 <= i < t.len() implies title_safe(#[trigger] t[i]) by {
                assert(t[i] == kept[a + i]);
                assert(kept[a + i] == mapped[a + i]);
            }
            lemma_collapse_safe(t);
            if t.len() > 0 {
                lemma_collapse_ends(t);
            }
        }
        out
    }

    /// Keeps the last 2000 transcript lines, dropping the oldest ones.
    pub fn trim_transcript_lines(&mut self)
        ensures
            final(self).transcript_lines@ == if old(self).transcript_lines@.len()
                > MAX_TRANSCRIPT_LINES {
                old(self).transcript_lines@.subrange(
                    old(self).transcript_lines@.len() - MAX_TRANSCRIPT_LINES,
                    old(self).transcript_lines@.len() as int,
                )
            } else {
                old(self).transcript_lines@
            },
            final(self).id == old(self).id,
            final(self).title == old(self).title,
            final(self).content == old(self).content,
            final(self).created_at == old(self).created_at,
            final(self).modified_at == old(self).modified_at,
            final(self).last_save_at == old(self).last_save_at,
    {
        let len = self.transcript_lines.len();
        if len > MAX_TRANSCRIPT_LINES {
            let kept = self.transcript_lines.split_off(len - MAX_TRANSCRIPT_LINES);
            self.transcript_lines = kept;
        }
    }

    /// Rebuilds the transcript from the content, keeping its last 2000 lines.
    pub fn parse_lines_from_content(&mut self)
        ensures
            lines_view(final(self).transcript_lines@) == last_lines(
                transcript_spec(old(self).content@),
                MAX_TRANSCRIPT_LINES as nat,
            ),
            final(self).id == old(self).id,
            final(self).title == old(self).title,
            final(self).content == old(self).content,
            final(self).created_at == old(self).created_at,
            final(self).modified_at == old(self).modified_at,
    {
        self.transcript_lines = TranscriptLine::parse_content(self.content.as_str());
        let ghost before = self.transcript_lines@;
        self.trim_transcript_lines();
        proof {
            if before.len() > MAX_TRANSCRIPT_LINES {
                assert(lines_view(self.transcript_lines@) =~= lines_view(before).subrange(
                    before.len() - MAX_TRANSCRIPT_LINES,
                    before.len() as int,
                ));
            }
        }
    }

    /// The name of the file this document is saved under (see `filename_spec`).
    pub fn to_filename(&self) -> (r: String)
        ensures
            r@ == filename_spec(self.id, self.title@),
    {
        let sanitized = Self::sanitize_title(self.title.as_str());
        let mut name = uuid_text(self.id);
        if sanitized.as_str().is_empty() {
        } else {
            name.push('-');
            name.append(sanitized.as_str());
        }
        name.push('.');
        name.push('m');
        name.push('d');
        name
    }
}

/// The last `n` elements of `s` (all of them when there are fewer).
pub open spec fn last_lines<T>(s: Seq<T>, n: nat) -> Seq<T> {
    if s.len() > n {
        s.subrange(s.len() - n, s.len() as int)
    } else {
        s
    }
}

} // verus!
