use vstd::prelude::*;
use ansi_to_tui::IntoText;
use ratatui::style::Style;

verus! {

/// ratatui's `Style`, carried as an opaque value from the parser to the screen.
#[verifier::external_type_specification]
#[verifier::external_body]
pub struct ExStyle(Style);

/// A run of text with its colour and emphasis; `None` is unstyled text.
pub struct StyledSpan {
    pub text: String,
    pub style: Option<Style>,
}

/// One line of decoded output.
pub struct StyledLine {
    pub spans: Vec<StyledSpan>,
}

/// The span texts, line by line, that the escape-code parser reads from
/// `bytes` (`None`: the parser refuses them).
pub uninterp spec fn markup_texts(bytes: Seq<u8>) -> Option<Seq<Seq<Seq<char>>>>;

/// The text that lossy UTF-8 decoding gives for `bytes`.
pub uninterp spec fn lossy_utf8(bytes: Seq<u8>) -> Seq<char>;

/// The span texts of `lines`, line by line.
pub open spec fn texts_of(lines: Seq<StyledLine>) -> Seq<Seq<Seq<char>>> {
    lines.map_values(|l: StyledLine| l.spans@.map_values(|s: StyledSpan| s.text@))
}

/// Relies on ansi_to_tui's `IntoText::into_text`: it either refuses the bytes
/// or yields lines of styled spans; the texts depend on the bytes alone. The
/// styles are carried through as they come.
#[verifier::external_body]
fn parse_ansi(bytes: &[u8]) -> (r: Option<Vec<StyledLine>>)
    ensures
        r.is_some() == markup_texts(bytes@).is_some(),
        r.is_some() ==> texts_of(r.unwrap()@) == markup_texts(bytes@).unwrap(),
{
    bytes.into_text().ok().map(|text| text.lines.into_iter().map(|line| StyledLine {
        spans: line.spans.into_iter().map(|span| StyledSpan {
            text: span.content.to_string(),
            style: Some(span.style),
        }).collect(),
    }).collect())
}

/// Relies on `String::from_utf8_lossy`: each invalid sequence becomes U+FFFD,
/// so the text is empty exactly when the bytes are.
#[verifier::external_body]
fn lossy_text(bytes: &[u8]) -> (r: String)
    ensures
        r@ == lossy_utf8(bytes@),
        bytes@.len() == 0 <==> r@.len() == 0,
{
    String::from_utf8_lossy(bytes).into_owned()
}

pub const LINE_FEED: u8 = 10;

pub const CARRIAGE_RETURN: u8 = 13;

/// The pieces of `b` between line feeds; one more than there are line feeds.
pub open spec fn segments(b: Seq<u8>) -> Seq<Seq<u8>>
    decreases b.len(),
{
    if b.len() == 0 {
        seq![Seq::empty()]
    } else {
        let rest = segments(b.drop_last());
        if b.last() == LINE_FEED {
            rest.push(Seq::empty())
        } else {
            rest.update(rest.len() - 1, rest.last().push(b.last()))
        }
    }
}

/// A line ended by a line feed loses a carriage return before it.
pub open spec fn strip_cr(l: Seq<u8>) -> Seq<u8> {
    if l.len() > 0 && l.last() == CARRIAGE_RETURN {
        l.drop_last()
    } else {
        l
    }
}

/// The lines of `b`: split at line feeds (with an optional carriage return
/// before each); a final line feed ends the last line and opens no new one.
pub open spec fn text_lines(b: Seq<u8>) -> Seq<Seq<u8>> {
    let s = segments(b);
    let ended = s.drop_last().map_values(|l: Seq<u8>| strip_cr(l));
    if s.last().len() == 0 {
        ended
    } else {
        ended.push(s.last())
    }
}

/// `line` is the unstyled rendering of the raw line `raw`.
pub open spec fn is_plain_line(line: StyledLine, raw: Seq<u8>) -> bool {
    &&& line.spans@.len() == 1
    &&& line.spans@[0].style.is_none()
    &&& line.spans@[0].text@ == lossy_utf8(raw)
}

/// `lines` is the plain-text rendering of `b`: one unstyled span per line.
pub open spec fn is_plain_rendering(lines: Seq<StyledLine>, b: Seq<u8>) -> bool {
    &&& lines.len() == text_lines(b).len()
    &&& forall|i: int| 0 <= i < lines.len() ==> #[trigger] is_plain_line(lines[i], text_lines(b)[i])
}

/// What decoding yields for `b` given the parser's outcome `parsed`: the
/// parsed lines, unless the parser refused the bytes or found no line in
/// non-empty input; the plain-text rendering then.
pub open spec fn decoded(parsed: Option<Seq<StyledLine>>, b: Seq<u8>, r: Seq<StyledLine>) -> bool {
    match parsed {
        Some(ls) if ls.len() > 0 || b.len() == 0 => r == ls,
        _ => is_plain_rendering(r, b),
    }
}

proof fn lemma_segments_non_empty(b: Seq<u8>)
    ensures
        segments(b).len() >= 1,
        b.len() > 0 && b.last() == LINE_FEED ==> segments(b).len() >= 2,
        b.len() > 0 && b.last() != LINE_FEED ==> segments(b).last().len() > 0,
    decreases b.len(),
{
    if b.len() > 0 {
        lemma_segments_non_empty(b.drop_last());
    }
}

/// Non-empty input has at least one line.
pub proof fn lemma_text_lines_non_empty(b: Seq<u8>)
    requires
        b.len() > 0,
    ensures
        text_lines(b).len() >= 1,
{
    lemma_segments_non_empty(b);
}

fn plain_line(raw: &Vec<u8>) -> (r: StyledLine)
    ensures
        is_plain_line(r, raw@),
{
    let span = StyledSpan { text: lossy_text(raw.as_slice()), style: None };
    let mut spans: Vec<StyledSpan> = Vec::new();
    spans.push(span);
    StyledLine { spans }
}

/// Every line of `bytes` as one unstyled span.
pub fn plain_lines(bytes: &[u8]) -> (r: Vec<StyledLine>)
    ensures
        is_plain_rendering(r@, bytes@),
{
    let mut out: Vec<StyledLine> = Vec::new();
    let mut cur: Vec<u8> = Vec::new();
    let ghost mut segs: Seq<Seq<u8>> = Seq::empty();
    let mut i: usize = 0;
    while i < bytes.len()
        invariant
            i <= bytes@.len(),
            segments(bytes@.take(i as int)) == segs.push(cur@),
            out@.len() == segs.len(),
            forall|k: int| 0 <= k < out@.len() ==> #[trigger] is_plain_line(out@[k], strip_cr(segs[k])),
        decreases bytes@.len() - i,
    {
        let byte = bytes[i];
        assert(bytes@.take(i + 1).drop_last() =~= bytes@.take(i as int));
        assert(bytes@.take(i + 1).last() == byte);
        if byte == LINE_FEED {
            let ghost whole = cur@;
            if cur.len() > 0 && cur[cur.len() - 1] == CARRIAGE_RETURN {
                cur.pop();
            }
            assert(cur@ =~= strip_cr(whole));
            let line = plain_line(&cur);
            out.push(line);
            proof {
                segs = segs.push(whole);
            }
            cur = Vec::new();
            assert(segments(bytes@.take(i + 1)) =~= segs.push(cur@));
        } else {
            cur.push(byte);
            assert(segments(bytes@.take(i + 1)) =~= segs.push(cur@));
        }
        i += 1;
    }
    assert(bytes@.take(i as int) =~= bytes@);
    let ghost ended = segs.map_values(|l: Seq<u8>| strip_cr(l));
    assert(segments(bytes@).drop_last() =~= segs);
    if cur.len() > 0 {
        let line = plain_line(&cur);
        out.push(line);
        assert(text_lines(bytes@) =~= ended.push(cur@));
    } else {
        assert(text_lines(bytes@) =~= ended);
    }
    assert forall|k: int| 0 <= k < out@.len() implies #[trigger] is_plain_line(
        out@[k],
        text_lines(bytes@)[k],
    ) by {
        if k < segs.len() {
            assert(text_lines(bytes@)[k] == strip_cr(segs[k]));
        }
    }
    out
}

/// `r` is what decoding `b` yields: the parser's lines where it reads `b` and
/// finds a line (or `b` is empty), the plain-text lines otherwise.
pub open spec fn decodes_to(b: Seq<u8>, r: Seq<StyledLine>) -> bool {
    let t = markup_texts(b);
    if t is Some && (t.unwrap().len() > 0 || b.len() == 0) {
        texts_of(r) == t.unwrap()
    } else {
        is_plain_rendering(r, b)
    }
}

/// Decodes `bytes` given what the escape-code parser made of them: its lines
/// where it read any (or the input is empty), the plain-text lines otherwise.
pub fn decode_parsed(parsed: Option<Vec<StyledLine>>, bytes: &[u8]) -> (r: Vec<StyledLine>)
    ensures
        decoded(
            match parsed {
                Some(v) => Some(v@),
                None => None,
            },
            bytes@,
            r@,
        ),
{
    match parsed {
        Some(lines) => {
            if lines.len() > 0 || bytes.len() == 0 {
                lines
            } else {
                plain_lines(bytes)
            }
        },
        None => plain_lines(bytes),
    }
}

/// Decodes colour-coded output into styled lines; never fails, and non-empty
/// input gives at least one line.
pub fn decode_markup(bytes: &[u8]) -> (r: Vec<StyledLine>)
    ensures
        decodes_to(bytes@, r@),
        bytes@.len() > 0 ==> r@.len() >= 1,
{
    let parsed = parse_ansi(bytes);
    let r = decode_parsed(parsed, bytes);
    proof {
        if bytes@.len() > 0 {
            lemma_text_lines_non_empty(bytes@);
        }
    }
    r
}

} // verus!
