//! Structured answers from OpenAI-compatible engines.
//!
//! Local engines seldom honour a response format, so the JSON object is looked for
//! in the text of the answer: reasoning blocks and a surrounding code fence are
//! taken off, and what is left is either the object or holds it.
use crate::json::{
    escaped, escaped_char, json_shape, one_field_object, opens_privately, parse_json, JsonShape,
};
use crate::text::{digit_char, is_white_space, spells, trim_text, trimmed};
use vstd::prelude::*;
use vstd::utf8::{decode_utf8, encode_utf8};

verus! {

/// Matches the blocks in which reasoning models think aloud, in any letter case.
pub const REASONING_BLOCK: &'static str =
    r"(?is)(?:<think>.*?</think>|<thinking>.*?</thinking>|<analysis>.*?</analysis>|<reasoning>.*?</reasoning>)";

/// Matches a text that is one code fence, with the fence's content as its group.
pub const CODE_FENCE: &'static str = r"(?s)\A\s*```(?:json)?\s*\n(.*?)\n\s*```\s*\z";

/// What the provider calls itself.
pub const NAME_TAG: &'static str = "openai-compat";

/// The key that is sent where none is configured.
pub const PLACEHOLDER_KEY: &'static str = "dummy";

/// The message of an answer without a JSON object.
pub const NO_OBJECT: &'static str = "openai-compat response did not contain a JSON object";

/// Why no structured value came out of an answer.
#[derive(Debug)]
pub enum LlmError {
    /// The answer holds no JSON object.
    UnexpectedShape(String),
    /// What looked like a JSON object is none.
    Json(serde_json::Error),
}

/// `s` has no `</`.
pub open spec fn without_closing_tag(s: Seq<char>) -> bool {
    forall|i: int, j: int|
        0 <= i < s.len() && j == i + 1 && j < s.len() && #[trigger] s[i] == '<' ==> #[trigger] s[j]
            != '/'
}

/// `open` and `close` are the two tags of a reasoning block.
pub open spec fn reasoning_tags(open: Seq<char>, close: Seq<char>) -> bool {
    ||| spells(open, "<think>"@) && spells(close, "</think>"@)
    ||| spells(open, "<thinking>"@) && spells(close, "</thinking>"@)
    ||| spells(open, "<analysis>"@) && spells(close, "</analysis>"@)
    ||| spells(open, "<reasoning>"@) && spells(close, "</reasoning>"@)
}

/// `c` may be read as the character `t` of a tag: letters are read in either case,
/// and a letter outside ASCII may count as one of them.
pub open spec fn may_read_as(c: char, t: char) -> bool {
    ||| c == t
    ||| 'a' <= t <= 'z' && (c as u32 + 32 == t as u32 || c as u32 >= 128)
    ||| 'A' <= t <= 'Z' && (c as u32 == t as u32 + 32 || c as u32 >= 128)
}

/// `tag` may be read at `i` in `s`.
pub open spec fn may_stand_at(s: Seq<char>, tag: Seq<char>, i: int) -> bool {
    &&& 0 <= i <= s.len() - tag.len()
    &&& forall|k: int| 0 <= k < tag.len() ==> may_read_as(#[trigger] s[i + k], tag[k])
}

/// `open` and `close` are the two tags of a reasoning block, in lower case.
pub open spec fn lower_tags(open: Seq<char>, close: Seq<char>) -> bool {
    ||| open == "<think>"@ && close == "</think>"@
    ||| open == "<thinking>"@ && close == "</thinking>"@
    ||| open == "<analysis>"@ && close == "</analysis>"@
    ||| open == "<reasoning>"@ && close == "</reasoning>"@
}

/// A block may be read from `i` on, which is closed at `j`.
pub open spec fn may_hold_block(
    text: Seq<char>,
    open: Seq<char>,
    close: Seq<char>,
    i: int,
    j: int,
) -> bool {
    &&& lower_tags(open, close)
    &&& may_stand_at(text, open, i)
    &&& may_stand_at(text, close, j)
    &&& i + open.len() <= j
}

/// A block may be read from `i` on: its opening tag stands there, and its closing tag
/// somewhere behind.
pub open spec fn may_start_block(text: Seq<char>, i: int) -> bool {
    exists|open: Seq<char>, close: Seq<char>, j: int| #[trigger]
        may_hold_block(text, open, close, i, j)
}

/// The first reasoning block of `text` stands behind `lead`. It ends at its own closing
/// tag, whatever other tags its `body` holds.
pub open spec fn block_first(
    text: Seq<char>,
    lead: Seq<char>,
    open: Seq<char>,
    body: Seq<char>,
    close: Seq<char>,
    more: Seq<char>,
) -> bool {
    &&& text == lead + open + body + close + more
    &&& forall|i: int| 0 <= i < lead.len() ==> !#[trigger] may_start_block(text, i)
    &&& reasoning_tags(open, close)
    &&& forall|i: int| !#[trigger] may_stand_at(body, close, i)
}

/// `text` holds `n` reasoning blocks; `left` is the rest of it.
pub open spec fn blocks_removed(text: Seq<char>, left: Seq<char>, n: nat) -> bool
    decreases n,
{
    if n == 0 {
        (forall|i: int| !#[trigger] may_start_block(text, i)) && left == text
    } else {
        exists|
            lead: Seq<char>,
            open: Seq<char>,
            body: Seq<char>,
            close: Seq<char>,
            more: Seq<char>,
        |
            #[trigger] block_first(text, lead, open, body, close, more) && lead.is_prefix_of(left)
                && blocks_removed(more, left.skip(lead.len() as int), (n - 1) as nat)
    }
}

/// But for white space, `text` starts and ends with three backticks.
pub open spec fn in_fence(text: Seq<char>) -> bool {
    let s = trimmed(text);
    let n = s.len() as int;
    &&& n >= 3
    &&& s[0] == '`' && s[1] == '`' && s[2] == '`'
    &&& s[n - 3] == '`' && s[n - 2] == '`' && s[n - 1] == '`'
}

/// `text` is `body`, a text in braces without a backtick, in a code fence.
pub open spec fn fenced(text: Seq<char>, body: Seq<char>) -> bool {
    &&& text == "```json\n"@ + body + "\n```"@ || text == "```\n"@ + body + "\n```"@
    &&& body.len() > 0
    &&& body[0] == '{'
    &&& body.last() == '}'
    &&& !body.contains('`')
}

/// What `regex::Regex::replace_all` leaves of a text when the matches of a pattern
/// are replaced by nothing, where the pattern is one that `regex::Regex::new` takes.
pub uninterp spec fn without_matches(pattern: Seq<char>, text: Seq<char>) -> Option<Seq<char>>;

/// What the first group of a pattern holds where `regex::Regex::captures` finds the
/// pattern in a text; the outer option is about the pattern, the inner one about the
/// text.
pub uninterp spec fn first_group(pattern: Seq<char>, text: Seq<char>) -> Option<
    Option<Seq<char>>,
>;

/// Calls `regex::Regex::new` and `regex::Regex::replace_all` with an empty
/// replacement. Trusted: the result is a function of pattern and text, and no longer
/// than the text, in characters and in bytes. Of [`REASONING_BLOCK`] it is claimed that
/// the pattern is taken, and that the blocks of a text go, the first one first and each
/// up to its own closing tag; with no block the text is left as it is. Nothing is
/// claimed of a block whose tags are written with letters outside ASCII that the
/// pattern may count as theirs.
#[verifier::external_body]
pub(crate) fn remove_matches(pattern: &str, text: &str) -> (r: Option<String>)
    ensures
        match r {
            Some(t) => without_matches(pattern@, text@) == Some(t@) && t@.len() <= text@.len()
                && encode_utf8(t@).len() <= encode_utf8(text@).len(),
            None => without_matches(pattern@, text@) is None,
        },
        pattern@ == REASONING_BLOCK@ ==> r is Some,
        pattern@ == REASONING_BLOCK@ ==> forall|left: Seq<char>, n: nat| #[trigger]
            blocks_removed(text@, left, n) ==> r->0@ == left,
{
    match regex::Regex::new(pattern) {
        Ok(re) => Some(re.replace_all(text, "").into_owned()),
        Err(_) => None,
    }
}

/// Calls `regex::Regex::new` and `regex::Regex::captures`, and hands out group one.
/// Trusted: the result is a function of pattern and text. Of [`CODE_FENCE`] it is
/// claimed that the pattern is taken, that it is not found in a text which does not
/// start and end with three backticks, but for white space, and that of a fenced text
/// in braces the group is that text. A group is never longer than the text, in
/// characters and in bytes.
#[verifier::external_body]
pub(crate) fn capture_group(pattern: &str, text: &str) -> (r: Option<Option<String>>)
    ensures
        match r {
            Some(Some(t)) => first_group(pattern@, text@) == Some(Some(t@)) && t@.len()
                <= text@.len() && encode_utf8(t@).len() <= encode_utf8(text@).len(),
            Some(None) => first_group(pattern@, text@) == Some(None::<Seq<char>>),
            None => first_group(pattern@, text@) is None,
        },
        pattern@ == CODE_FENCE@ ==> r is Some,
        pattern@ == CODE_FENCE@ && !in_fence(text@) ==> r->0 is None,
        pattern@ == CODE_FENCE@ ==> forall|body: Seq<char>| #[trigger]
            fenced(text@, body) ==> r->0 is Some && r->0->0@ == body,
{
    match regex::Regex::new(pattern) {
        Ok(re) => Some(
            match re.captures(text) {
                Some(found) => found.get(1).map(|group| group.as_str().to_string()),
                None => None,
            },
        ),
        Err(_) => None,
    }
}

/// The payload of an answer whose reasoning blocks are gone: the content of the
/// fence where the answer is one, else the answer, without white space at the ends.
pub open spec fn payload(stripped: Seq<char>, fence: Option<Seq<char>>) -> Seq<char> {
    match fence {
        Some(content) => trimmed(content),
        None => trimmed(stripped),
    }
}

/// What [`strip_reasoning_blocks`] leaves of an answer.
pub open spec fn stripped_answer(s: Seq<char>) -> Seq<char> {
    let stripped = without_matches(REASONING_BLOCK@, s)->0;
    payload(stripped, first_group(CODE_FENCE@, stripped)->0)
}

/// Picks the payload: the content of the fence, or else the text, trimmed.
pub fn unwrap_fence(stripped: &str, fence: Option<&str>) -> (r: String)
    ensures
        r@ == payload(
            stripped@,
            match fence {
                Some(content) => Some(content@),
                None => None,
            },
        ),
{
    match fence {
        Some(content) => trim_text(content).to_string(),
        None => trim_text(stripped).to_string(),
    }
}

/// Takes the reasoning blocks out of `s`, then a surrounding code fence off.
pub fn strip_reasoning_blocks(s: &str) -> (r: String)
    ensures
        r@ == stripped_answer(s@),
        r@.len() <= s@.len(),
        encode_utf8(r@).len() <= encode_utf8(s@).len(),
        forall|left: Seq<char>, n: nat| #[trigger]
            blocks_removed(s@, left, n) && !in_fence(left) ==> r@ == trimmed(left),
        forall|left: Seq<char>, n: nat, body: Seq<char>| #[trigger]
            blocks_removed(s@, left, n) && #[trigger] fenced(left, body) ==> r@ == trimmed(body),
{
    let stripped = remove_matches(REASONING_BLOCK, s).unwrap();
    let fence = capture_group(CODE_FENCE, stripped.as_str()).unwrap();
    match &fence {
        Some(content) => {
            proof {
                crate::text::trimmed_is_no_longer(content@);
            }
            unwrap_fence(stripped.as_str(), Some(content.as_str()))
        },
        None => {
            proof {
                crate::text::trimmed_is_no_longer(stripped@);
            }
            unwrap_fence(stripped.as_str(), None)
        },
    }
}

/// A text in which none of the four closing tags can be read is left as it is.
pub proof fn text_without_closing_tags_has_no_blocks(text: Seq<char>)
    requires
        forall|j: int| !#[trigger] may_stand_at(text, "</think>"@, j),
        forall|j: int| !#[trigger] may_stand_at(text, "</thinking>"@, j),
        forall|j: int| !#[trigger] may_stand_at(text, "</analysis>"@, j),
        forall|j: int| !#[trigger] may_stand_at(text, "</reasoning>"@, j),
    ensures
        blocks_removed(text, text, 0),
{
}

/// A text without `</` is left as it is.
pub proof fn plain_text_has_no_blocks(text: Seq<char>)
    requires
        without_closing_tag(text),
    ensures
        blocks_removed(text, text, 0),
{
    assert forall|open: Seq<char>, close: Seq<char>, i: int, j: int| !#[trigger] may_hold_block(
        text,
        open,
        close,
        i,
        j,
    ) by {
        reveal_strlit("</think>");
        reveal_strlit("</thinking>");
        reveal_strlit("</analysis>");
        reveal_strlit("</reasoning>");
        if may_hold_block(text, open, close, i, j) {
            assert(may_read_as(text[j + 0], close[0]));
            assert(may_read_as(text[j + 1], close[1]));
            assert(text[j] == '<' && text[j + 1] == '/');
        }
    }
}

/// Of a block and a text behind it the text is left, and what is left of that text
/// where it holds blocks too: so any number of blocks goes.
pub proof fn a_block_more_is_removed(
    lead: Seq<char>,
    open: Seq<char>,
    body: Seq<char>,
    close: Seq<char>,
    more: Seq<char>,
    left: Seq<char>,
    n: nat,
)
    requires
        block_first(lead + open + body + close + more, lead, open, body, close, more),
        blocks_removed(more, left, n),
    ensures
        blocks_removed(lead + open + body + close + more, lead + left, n + 1),
{
    assert((lead + left).skip(lead.len() as int) == left);
    assert((lead + left).subrange(0, lead.len() as int) == lead);
}

/// A block whose body has no `</` is the first one behind a text without `<`.
pub proof fn block_behind_plain_text_is_first(
    lead: Seq<char>,
    open: Seq<char>,
    body: Seq<char>,
    close: Seq<char>,
    more: Seq<char>,
)
    requires
        !lead.contains('<'),
        reasoning_tags(open, close),
        without_closing_tag(body),
    ensures
        block_first(lead + open + body + close + more, lead, open, body, close, more),
{
    reveal_strlit("</think>");
    reveal_strlit("</thinking>");
    reveal_strlit("</analysis>");
    reveal_strlit("</reasoning>");
    assert(close.len() >= 2 && close[0] == '<' && close[1] == '/');
    assert forall|i: int| !#[trigger] may_stand_at(body, close, i) by {
        if may_stand_at(body, close, i) {
            assert(may_read_as(body[i + 0], close[0]));
            assert(may_read_as(body[i + 1], close[1]));
            assert(body[i] == '<' && body[i + 1] == '/');
        }
    }
    let text = lead + open + body + close + more;
    assert forall|i: int| 0 <= i < lead.len() implies !#[trigger] may_start_block(text, i) by {
        reveal_strlit("<think>");
        reveal_strlit("<thinking>");
        reveal_strlit("<analysis>");
        reveal_strlit("<reasoning>");
        if may_start_block(text, i) {
            let (tag, end, j) = choose|tag: Seq<char>, end: Seq<char>, j: int| #[trigger]
                may_hold_block(text, tag, end, i, j);
            assert(may_read_as(text[i + 0], tag[0]));
            assert(lead[i] == '<');
        }
    }
}

/// Where a scan of JSON text stands: how many braces are open, and whether the next
/// character belongs to a string literal, and there to an escape.
pub struct Scan {
    pub depth: int,
    pub in_string: bool,
    pub escape: bool,
}

/// The scan after one more character.
pub open spec fn scan_char(before: Scan, c: char) -> Scan {
    if before.in_string {
        if before.escape {
            Scan { escape: false, ..before }
        } else if c == '\\' {
            Scan { escape: true, ..before }
        } else if c == '"' {
            Scan { in_string: false, ..before }
        } else {
            before
        }
    } else if c == '"' {
        Scan { in_string: true, ..before }
    } else if c == '{' {
        Scan { depth: before.depth + 1, ..before }
    } else if c == '}' {
        Scan { depth: before.depth - 1, ..before }
    } else {
        before
    }
}

/// The scan after `s`. Braces inside string literals do not count.
pub open spec fn scan(s: Seq<char>) -> Scan
    decreases s.len(),
{
    if s.len() == 0 {
        Scan { depth: 0, in_string: false, escape: false }
    } else {
        scan_char(scan(s.drop_last()), s.last())
    }
}

/// `s` starts with a brace that is closed by its last character and not before.
pub open spec fn balanced_object(s: Seq<char>) -> bool {
    &&& s.len() > 0
    &&& s[0] == '{'
    &&& scan(s).depth == 0
    &&& forall|n: int| 0 < n < s.len() ==> #[trigger] scan(s.take(n)).depth != 0
}

/// The first brace of `s` stands at `f`.
pub open spec fn is_first_brace(s: Seq<char>, f: int) -> bool {
    &&& 0 <= f < s.len()
    &&& s[f] == '{'
    &&& !s.take(f).contains('{')
}

/// `i` is inside a string literal of `s`. Literals are looked for from the first brace
/// on: quotes in the text before it mean nothing.
pub open spec fn in_literal(s: Seq<char>, i: int) -> bool {
    exists|f: int| #[trigger] is_first_brace(s, f) && f <= i && scan(s.subrange(f, i)).in_string
}

/// `s[start..end]` is the first balanced object of `s`: it starts outside of the string
/// literals, and no balanced object starts outside of them before. A brace that is
/// never closed starts no object.
pub open spec fn is_first_object(s: Seq<char>, start: int, end: int) -> bool {
    &&& 0 <= start < end <= s.len()
    &&& !in_literal(s, start)
    &&& balanced_object(s.subrange(start, end))
    &&& forall|a: int, b: int|
        0 <= a < start && a < b <= s.len() && !in_literal(s, a) ==> !balanced_object(
            #[trigger] s.subrange(a, b),
        )
}

/// The first balanced object of `s`.
pub open spec fn first_object(s: Seq<char>) -> Option<Seq<char>> {
    if exists|start: int, end: int| is_first_object(s, start, end) {
        let (start, end) = choose|start: int, end: int| is_first_object(s, start, end);
        Some(s.subrange(start, end))
    } else {
        None
    }
}

/// Finds the first balanced `{...}` in a text, skipping braces inside string
/// literals, and braces that are never closed.
pub fn first_json_object(s: &str) -> (r: Option<&str>)
    ensures
        match r {
            Some(object) => first_object(s@) == Some(object@),
            None => first_object(s@) is None,
        },
{
    // The braces that are open, from the first one on.
    let mut opens: Vec<usize> = Vec::new();
    // The object with the earliest start that was closed.
    let mut best: Option<(usize, usize)> = None;
    let mut in_string = false;
    let mut escape = false;
    let mut i: usize = 0;
    let count: usize = s.unicode_len();
    for c in it: s.chars()
        invariant
            it.seq() == s@,
            i == it.index(),
            s@.len() == count,
            opens@.len() == 0 ==> !s@.take(i as int).contains('{') && best is None && !in_string
                && !escape,
            opens@.len() > 0 ==> is_first_brace(s@, opens@[0] as int) && opens@[0] < i,
            opens@.len() > 0 ==> scan(s@.subrange(opens@[0] as int, i as int)) == (Scan {
                depth: opens@.len() as int,
                in_string,
                escape,
            }),
            escape ==> in_string,
            all_open(s@, opens@, i as int),
            best matches Some((a, b)) ==> opens@.len() > 0 && opens@[0] < a < b <= i
                && is_start(s@, opens@[0] as int, a as int) && balanced_object(
                s@.subrange(a as int, b as int),
            ),
            opens@.len() > 0 ==> forall|a: int|
                opens@[0] <= a < i && #[trigger] is_start(s@, opens@[0] as int, a) ==> is_among(
                    opens@,
                    a,
                ) || (best matches Some((best_start, _)) && best_start <= a),
    {
        let ghost before = opens@;
        let ghost f: int = if opens@.len() > 0 { opens@[0] as int } else { i as int };
        proof {
            assert(s@.take(i + 1) == s@.take(i as int).push(c));
            assert(s@.subrange(f, i + 1).drop_last() == s@.subrange(f, i as int));
            assert(s@.subrange(f, i + 1).last() == c);
            if opens@.len() == 0 {
                assert(s@.subrange(f, i as int) == Seq::<char>::empty());
            }
        }
        if in_string {
            if escape {
                escape = false;
            } else if c == '\\' {
                escape = true;
            } else if c == '"' {
                in_string = false;
            }
        } else if c == '"' {
            in_string = opens.len() > 0;
        } else if c == '{' {
            opens.push(i);
        } else if c == '}' && opens.len() > 0 {
            let start = opens[opens.len() - 1];
            opens.pop();
            proof {
                lemma_closed_brace(s@, before, i as int);
            }
            if opens.len() == 0 {
                proof {
                    assert(start == f);
                    lemma_not_in_literal(s@, f, f);
                    assert forall|a: int, b: int|
                        0 <= a < start && a < b <= s@.len() implies !balanced_object(
                        #[trigger] s@.subrange(a, b),
                    ) by {
                        assert(s@.subrange(a, b)[0] == s@[a]);
                        assert(s@.take(f)[a] == s@[a]);
                    }
                    lemma_first_object_is(s@, start as int, i + 1);
                }
                return Some(s.substring_char(start, i + 1));
            }
            proof {
                assert(is_open(s@, before, i as int, before.len() - 1));
                assert(s@.subrange(f, f) == Seq::<char>::empty());
                assert(opens@[0] == before[0]);
            }
            let earlier = match best {
                Some((best_start, _)) => start < best_start,
                None => true,
            };
            if earlier {
                best = Some((start, i + 1));
            }
        }
        proof {
            lemma_open_braces_go_on(s@, before, opens@, f, i as int, c);
            assert(scan(s@.subrange(f, i + 1)) == scan_char(scan(s@.subrange(f, i as int)), c));
            if before.len() == 0 {
                assert(scan(s@.subrange(f, i as int)) == (Scan {
                    depth: 0,
                    in_string: false,
                    escape: false,
                }));
            }
        }
        i = i + 1;
    }
    proof {
        assert(s@.take(i as int) == s@);
    }
    match best {
        Some((start, end)) => {
            proof {
                let f = opens@[0] as int;
                lemma_not_in_literal(s@, f, start as int);
                assert forall|a: int, b: int|
                    0 <= a < start && a < b <= s@.len() && !in_literal(
                        s@,
                        a,
                    ) implies !balanced_object(#[trigger] s@.subrange(a, b)) by {
                    lemma_nothing_closes(s@, opens@, a, b);
                }
                lemma_first_object_is(s@, start as int, end as int);
            }
            Some(s.substring_char(start, end))
        },
        None => {
            proof {
                if exists|a: int, b: int| is_first_object(s@, a, b) {
                    let (a, b) = choose|a: int, b: int| is_first_object(s@, a, b);
                    assert(s@.subrange(a, b)[0] == s@[a]);
                    assert(s@.contains('{'));
                    lemma_nothing_closes(s@, opens@, a, b);
                }
            }
            None
        },
    }
}

/// A brace stands at `a`, outside of the literals of `s` from its first brace `f` on.
spec fn is_start(s: Seq<char>, f: int, a: int) -> bool {
    &&& f <= a < s.len()
    &&& s[a] == '{'
    &&& !scan(s.subrange(f, a)).in_string
}

/// `a` is among the open braces.
spec fn is_among(opens: Seq<usize>, a: int) -> bool {
    exists|k: int| 0 <= k < opens.len() && #[trigger] opens[k] == a
}

/// The `k`th of the open braces is open from its place to `i`.
spec fn is_open(s: Seq<char>, opens: Seq<usize>, i: int, k: int) -> bool {
    let f = opens[0] as int;
    let a = opens[k] as int;
    &&& f <= a < i <= s.len()
    &&& is_start(s, f, a)
    &&& scan(s.subrange(f, a)).depth == k
    &&& forall|n: int| a < n <= i ==> #[trigger] scan(s.subrange(f, n)).depth > k
}

/// All of the open braces are open up to `i`.
spec fn all_open(s: Seq<char>, opens: Seq<usize>, i: int) -> bool {
    forall|k: int| 0 <= k < opens.len() ==> is_open(s, opens, i, k)
}

/// A scan is at an escape only inside a literal.
proof fn lemma_escape_is_in_literal(s: Seq<char>)
    ensures
        scan(s).escape ==> scan(s).in_string,
    decreases s.len(),
{
    if s.len() > 0 {
        lemma_escape_is_in_literal(s.drop_last());
    }
}

/// A scan that starts outside of the literals sees the same literals, and the depth
/// from its start.
proof fn lemma_scan_from(s: Seq<char>, f: int, a: int, n: int)
    requires
        0 <= f <= a <= n <= s.len(),
        !scan(s.subrange(f, a)).in_string,
    ensures
        scan(s.subrange(a, n)) == (Scan {
            depth: scan(s.subrange(f, n)).depth - scan(s.subrange(f, a)).depth,
            ..scan(s.subrange(f, n))
        }),
    decreases n - a,
{
    lemma_escape_is_in_literal(s.subrange(f, a));
    if n > a {
        lemma_scan_from(s, f, a, n - 1);
        assert(s.subrange(a, n).drop_last() == s.subrange(a, n - 1));
        assert(s.subrange(f, n).drop_last() == s.subrange(f, n - 1));
        assert(s.subrange(a, n).last() == s[n - 1]);
        assert(s.subrange(f, n).last() == s[n - 1]);
    }
}

/// A place that the scan from the first brace sees outside of the literals is outside
/// of them.
proof fn lemma_not_in_literal(s: Seq<char>, f: int, a: int)
    requires
        is_first_brace(s, f),
        f <= a <= s.len(),
        !scan(s.subrange(f, a)).in_string,
    ensures
        !in_literal(s, a),
{
    if in_literal(s, a) {
        let g = choose|g: int| #[trigger]
            is_first_brace(s, g) && g <= a && scan(s.subrange(g, a)).in_string;
        lemma_first_brace_is_unique(s, f, g);
    }
}

/// The brace that was opened last is closed at `i`: an object.
proof fn lemma_closed_brace(s: Seq<char>, opens: Seq<usize>, i: int)
    requires
        opens.len() > 0,
        0 <= i < s.len(),
        s[i] == '}',
        scan(s.subrange(opens[0] as int, i)).depth == opens.len(),
        !scan(s.subrange(opens[0] as int, i)).in_string,
        is_open(s, opens, i, opens.len() - 1),
    ensures
        balanced_object(s.subrange(opens.last() as int, i + 1)),
{
    let f = opens[0] as int;
    let a = opens.last() as int;
    let object = s.subrange(a, i + 1);
    assert(s.subrange(f, i + 1).drop_last() == s.subrange(f, i));
    assert(s.subrange(f, i + 1).last() == '}');
    lemma_scan_from(s, f, a, i + 1);
    assert forall|n: int| 0 < n < object.len() implies #[trigger] scan(object.take(n)).depth
        != 0 by {
        assert(object.take(n) == s.subrange(a, a + n));
        lemma_scan_from(s, f, a, a + n);
        assert(scan(s.subrange(f, a + n)).depth > opens.len() - 1);
    }
}

/// The open braces stay open over one more character, but for the one that it closes.
proof fn lemma_open_braces_go_on(
    s: Seq<char>,
    before: Seq<usize>,
    after: Seq<usize>,
    f: int,
    i: int,
    c: char,
)
    requires
        0 <= i < s.len() <= usize::MAX,
        c == s[i],
        f == (if before.len() > 0 {
            before[0] as int
        } else {
            i
        }),
        before.len() > 0 ==> is_first_brace(s, f) && f < i,
        before.len() == 0 ==> !s.take(i).contains('{'),
        before.len() > 0 ==> scan(s.subrange(f, i)).depth == before.len(),
        all_open(s, before, i),
        ({
            let quiet = before.len() > 0 && scan(s.subrange(f, i)).in_string;
            if !quiet && c == '{' {
                after == before.push(i as usize)
            } else if !quiet && c == '}' && before.len() > 0 {
                after == before.drop_last() && after.len() > 0
            } else {
                after == before
            }
        }),
    ensures
        after.len() > 0 ==> after[0] == f && is_first_brace(s, f),
        after.len() > 0 ==> scan(s.subrange(f, i + 1)).depth == after.len(),
        all_open(s, after, i + 1),
        forall|a: int|
            f <= a < i + 1 && #[trigger] is_start(s, f, a) ==> a < i || is_among(after, a),
        forall|a: int| #[trigger]
            is_among(before, a) ==> is_among(after, a) || after == before.drop_last() && a
                == before.last(),
{
    let next = s.subrange(f, i + 1);
    assert(next.drop_last() == s.subrange(f, i));
    assert(next.last() == c);
    if before.len() == 0 {
        assert(s.subrange(f, i) == Seq::<char>::empty());
    }
    let j = i + 1;
    assert forall|k: int| 0 <= k < after.len() implies is_open(s, after, j, k) by {
        if k < before.len() {
            assert(is_open(s, before, i, k));
            assert(after[k] == before[k]);
            assert forall|n: int| after[k] < n <= i + 1 implies #[trigger] scan(
                s.subrange(f, n),
            ).depth > k by {
                if n <= i {
                    assert(scan(s.subrange(f, n)).depth > k);
                }
            }
        } else {
            assert(after[k] == i);
        }
    }
    assert forall|a: int| f <= a < i + 1 && #[trigger] is_start(s, f, a) implies a < i || is_among(
        after,
        a,
    ) by {
        if a == i {
            assert(after[after.len() - 1] == a);
        }
    }
    assert forall|a: int| #[trigger] is_among(before, a) implies is_among(after, a) || after
        == before.drop_last() && a == before.last() by {
        let k = choose|k: int| 0 <= k < before.len() && #[trigger] before[k] == a;
        if k < after.len() {
            assert(after[k] == a);
        }
    }
}

/// At the end of the text, no object starts outside of the literals but at a brace
/// that was closed.
proof fn lemma_nothing_closes(s: Seq<char>, opens: Seq<usize>, a: int, b: int)
    requires
        0 <= a < b <= s.len(),
        !in_literal(s, a),
        opens.len() > 0,
        is_first_brace(s, opens[0] as int),
        all_open(s, opens, s.len() as int),
        is_start(s, opens[0] as int, a) ==> is_among(opens, a),
    ensures
        !balanced_object(s.subrange(a, b)),
{
    let f = opens[0] as int;
    let object = s.subrange(a, b);
    if balanced_object(object) {
        assert(object[0] == s[a]);
        if a < f {
            assert(s.take(f)[a] == '{');
        }
        assert(is_start(s, f, a));
        let k = choose|k: int| 0 <= k < opens.len() && #[trigger] opens[k] == a;
        assert(is_open(s, opens, s.len() as int, k));
        lemma_scan_from(s, f, a, b);
        assert(scan(s.subrange(f, b)).depth > k);
    }
}

/// `s` where it has at most `n` bytes, else its first `n` bytes and an ellipsis.
pub open spec fn truncated(s: Seq<char>, n: nat) -> Seq<char> {
    if encode_utf8(s).len() <= n {
        s
    } else {
        decode_utf8(encode_utf8(s).take(n as int)).push('…')
    }
}

/// Cuts a text down to `n` bytes and marks the cut. The cut must not fall inside a
/// character.
pub fn truncate(s: &str, n: usize) -> (r: String)
    requires
        n < encode_utf8(s@).len() ==> vstd::utf8::is_char_boundary(encode_utf8(s@), n as int),
    ensures
        r@ == truncated(s@, n as nat),
{
    let bytes = s.as_bytes();
    if bytes.len() <= n {
        s.to_string()
    } else {
        let head = s.split_at(n).0;
        proof {
            vstd::utf8::encode_utf8_decode_utf8(head@);
            assert(encode_utf8(s@).subrange(0, n as int) == encode_utf8(s@).take(n as int));
        }
        let mut r = head.to_string();
        r.push('…');
        r
    }
}

/// What becomes of a cleaned answer, given what a JSON parse makes of it.
pub enum Extraction<'a> {
    /// The answer is the object.
    Whole,
    /// The answer holds this first balanced object.
    Inner(&'a str),
    /// The answer holds no balanced object.
    Absent,
}

/// Decides where the object is: the whole text where it parses as an object, else
/// the first balanced object in it.
pub fn extract(cleaned: &str, whole: Option<JsonShape>) -> (r: Extraction<'_>)
    ensures
        r is Whole <==> whole == Some(JsonShape::Object),
        r is Absent <==> whole != Some(JsonShape::Object) && first_object(cleaned@) is None,
        r matches Extraction::Inner(slice) ==> first_object(cleaned@) == Some(slice@),
{
    match whole {
        Some(JsonShape::Object) => Extraction::Whole,
        _ => match first_json_object(cleaned) {
            Some(slice) => Extraction::Inner(slice),
            None => Extraction::Absent,
        },
    }
}

/// The text of the structured value in a cleaned answer; `shape` says what a JSON
/// parse makes of a text.
pub open spec fn structured_value(
    cleaned: Seq<char>,
    shape: spec_fn(Seq<char>) -> Option<JsonShape>,
) -> Option<Seq<char>> {
    if shape(cleaned) == Some(JsonShape::Object) {
        Some(cleaned)
    } else {
        match first_object(cleaned) {
            Some(slice) => if shape(slice) is Some {
                Some(slice)
            } else {
                None
            },
            None => None,
        }
    }
}

/// OpenAI-compatible provider, parameterised by base URL.
pub struct OpenAiCompatProvider {
    base_url: String,
    api_key: String,
    model: String,
    name_tag: &'static str,
}

impl OpenAiCompatProvider {
    /// Where the engine listens.
    pub closed spec fn spec_base_url(&self) -> Seq<char> {
        self.base_url@
    }

    /// The key that is sent.
    pub closed spec fn spec_api_key(&self) -> Seq<char> {
        self.api_key@
    }

    /// The model that is asked.
    pub closed spec fn spec_model(&self) -> Seq<char> {
        self.model@
    }

    /// The provider's name.
    pub closed spec fn spec_name(&self) -> Seq<char> {
        self.name_tag@
    }

    /// A provider pointed at `base_url`. The key is optional; many local engines
    /// accept any that is not empty.
    pub fn new(base_url: String, api_key: Option<String>, model: String) -> (r: Self)
        ensures
            r.spec_base_url() == base_url@,
            r.spec_api_key() == (match api_key {
                Some(key) => key@,
                None => PLACEHOLDER_KEY@,
            }),
            r.spec_model() == model@,
            r.spec_name() == NAME_TAG@,
    {
        let key = match api_key {
            Some(key) => key,
            None => PLACEHOLDER_KEY.to_string(),
        };
        OpenAiCompatProvider { base_url, api_key: key, model, name_tag: NAME_TAG }
    }

    /// The provider's name.
    pub fn name(&self) -> (r: &'static str)
        ensures
            r@ == self.spec_name(),
    {
        self.name_tag
    }

    /// The model that is asked.
    pub fn model(&self) -> (r: &str)
        ensures
            r@ == self.spec_model(),
    {
        self.model.as_str()
    }

    /// Where the engine listens.
    pub fn base_url(&self) -> (r: &str)
        ensures
            r@ == self.spec_base_url(),
    {
        self.base_url.as_str()
    }

    /// The key that is sent.
    pub fn api_key(&self) -> (r: &str)
        ensures
            r@ == self.spec_api_key(),
    {
        self.api_key.as_str()
    }

    /// Reads the structured value out of the text of an answer, and returns the JSON
    /// text of it.
    pub fn complete_structured_raw(&self, response: &str) -> (r: Result<String, LlmError>)
        ensures
            match r {
                Ok(text) => structured_value(
                    stripped_answer(response@),
                    |t: Seq<char>| json_shape(t),
                ) == Some(text@),
                Err(_) => structured_value(
                    stripped_answer(response@),
                    |t: Seq<char>| json_shape(t),
                ) is None,
            },
            r matches Err(LlmError::UnexpectedShape(message)) ==> first_object(
                stripped_answer(response@),
            ) is None && message@ == NO_OBJECT@,
            r matches Err(LlmError::Json(_)) ==> first_object(stripped_answer(response@)) is Some,
            r matches Ok(text) ==> text@.len() > 0 && text@[0] == '{',
            // The cleaned answer itself where it is an object, or else the first object in
            // it, wherever that stands, as long as it parses.
            json_shape(stripped_answer(response@)) == Some(JsonShape::Object) ==> r is Ok
                && r->Ok_0@ == stripped_answer(response@),
            json_shape(stripped_answer(response@)) != Some(JsonShape::Object) ==> (r is Ok
                <==> first_object(stripped_answer(response@)) is Some && json_shape(
                first_object(stripped_answer(response@))->0,
            ) is Some),
            json_shape(stripped_answer(response@)) != Some(JsonShape::Object) && r is Ok ==> Some(
                r->Ok_0@,
            ) == first_object(stripped_answer(response@)),
            // What is handed out is an object, unless its first key is one by which
            // `serde_json` hands values on to itself.
            r matches Ok(text) ==> json_shape(text@) == Some(JsonShape::Object) || opens_privately(
                text@,
            ),
            // What a model thinks aloud has no part in the result; an object is handed out
            // as it is.
            forall|left: Seq<char>, n: nat| #[trigger]
                blocks_removed(response@, left, n) && !in_fence(left) && json_shape(
                    trimmed(left),
                ) == Some(JsonShape::Object) ==> r is Ok && r->Ok_0@ == trimmed(left),
            // A code fence round the object is taken off.
            forall|left: Seq<char>, n: nat, body: Seq<char>| #[trigger]
                blocks_removed(response@, left, n) && #[trigger] fenced(left, body) && json_shape(
                    body,
                ) == Some(JsonShape::Object) ==> r is Ok && r->Ok_0@ == body,
    {
        let cleaned = strip_reasoning_blocks(response);
        proof {
            assert forall|left: Seq<char>, body: Seq<char>| #[trigger]
                fenced(left, body) implies trimmed(body) == body by {
                crate::text::trimmed_keeps_text_without_white_ends(body);
            }
        }
        let whole = match parse_json(cleaned.as_str()) {
            Ok(shape) => Some(shape),
            Err(_) => None,
        };
        match extract(cleaned.as_str(), whole) {
            Extraction::Whole => {
                proof {
                    lemma_payload_has_no_white_start(response@);
                }
                Ok(cleaned)
            },
            Extraction::Absent => Err(LlmError::UnexpectedShape(NO_OBJECT.to_string())),
            Extraction::Inner(slice) => match parse_json(slice) {
                Ok(_) => {
                    proof {
                        first_object_is_in_braces(cleaned@);
                    }
                    Ok(slice.to_string())
                },
                Err(e) => Err(LlmError::Json(e)),
            },
        }
    }
}

/// The cleaned answer does not start with white space.
proof fn lemma_payload_has_no_white_start(s: Seq<char>)
    ensures
        stripped_answer(s).len() > 0 ==> !is_white_space(stripped_answer(s)[0]),
{
    let stripped = without_matches(REASONING_BLOCK@, s)->0;
    crate::text::trimmed_has_no_white_ends(stripped);
    crate::text::trimmed_has_no_white_ends(first_group(CODE_FENCE@, stripped)->0->0);
}

/// What is found is in braces: the first object of a text starts with `{` and ends
/// with `}`.
pub proof fn first_object_is_in_braces(s: Seq<char>)
    requires
        first_object(s) is Some,
    ensures
        first_object(s)->0.len() >= 2,
        first_object(s)->0[0] == '{',
        first_object(s)->0.last() == '}',
{
    let (a, b) = choose|a: int, b: int| is_first_object(s, a, b);
    let x = s.subrange(a, b);
    assert(x.take(x.len() as int) == x);
    reveal_with_fuel(scan, 2);
    assert(x.take(1).drop_last() == Seq::<char>::empty());
    assert(x.take(1).last() == '{');
    if x.len() > 1 {
        lemma_brace_is_open(x, x.len() - 1);
        assert(x.take(x.len() - 1) == x.drop_last());
    }
}

/// Before the last character of a balanced object a brace is open.
proof fn lemma_brace_is_open(s: Seq<char>, n: int)
    requires
        balanced_object(s),
        0 < n < s.len(),
    ensures
        scan(s.take(n)).depth > 0,
    decreases n,
{
    assert(s.take(n).drop_last() == s.take(n - 1));
    if n > 1 {
        lemma_brace_is_open(s, n - 1);
    } else {
        assert(s.take(1).last() == '{');
        reveal_with_fuel(scan, 2);
    }
}

/// An object is found behind any text without a brace, and whatever follows it is
/// left out.
pub proof fn object_is_found_in_noise(noise: Seq<char>, object: Seq<char>, trailing: Seq<char>)
    requires
        !noise.contains('{'),
        balanced_object(object),
    ensures
        first_object(noise + object + trailing) == Some(object),
{
    let s = noise + object + trailing;
    let (a, b) = (noise.len() as int, (noise.len() + object.len()) as int);
    assert(s.take(a) == noise);
    assert(s.subrange(a, b) == object);
    assert(s[a] == object[0]);
    assert(s.subrange(a, a) == Seq::<char>::empty());
    lemma_not_in_literal(s, a, a);
    assert forall|x: int, y: int| 0 <= x < a && x < y <= s.len() implies !balanced_object(
        #[trigger] s.subrange(x, y),
    ) by {
        assert(s.subrange(x, y)[0] == noise[x]);
    }
    lemma_first_object_is(s, a, b);
}

/// No object is missed: where a balanced object starts outside of the string literals,
/// an object is found, and it starts there or before.
pub proof fn no_object_is_missed(s: Seq<char>, a: int, b: int)
    requires
        0 <= a < b <= s.len(),
        !in_literal(s, a),
        balanced_object(s.subrange(a, b)),
    ensures
        first_object(s) is Some,
        exists|start: int, end: int| #[trigger] is_first_object(s, start, end) && start <= a,
    decreases a,
{
    if is_first_object(s, a, b) {
        lemma_first_object_is(s, a, b);
    } else {
        let (x, y) = choose|x: int, y: int|
            0 <= x < a && x < y <= s.len() && !in_literal(s, x) && balanced_object(
                #[trigger] s.subrange(x, y),
            );
        no_object_is_missed(s, x, y);
    }
}

/// A brace that is never closed hides no object behind it.
pub proof fn unclosed_brace_hides_no_object(
    noise: Seq<char>,
    gap: Seq<char>,
    object: Seq<char>,
    trailing: Seq<char>,
)
    requires
        !noise.contains('{'),
        !gap.contains('{'),
        !gap.contains('"'),
        balanced_object(object),
        forall|n: int|
            0 < n <= 1 + gap.len() + object.len() + trailing.len() ==> !balanced_object(
                #[trigger] (seq!['{'] + gap + object + trailing).take(n),
            ),
    ensures
        first_object(noise + (seq!['{'] + gap + object + trailing)) == Some(object),
{
    let tail = seq!['{'] + gap + object + trailing;
    let s = noise + tail;
    let f = noise.len() as int;
    let a = f + 1 + gap.len();
    let b = a + object.len();
    assert(s.take(f) == noise);
    assert(s[f] == '{');
    assert(s.subrange(a, b) == object);
    assert(s.subrange(f, a) == seq!['{'] + gap);
    lemma_scan_without_quotes(seq!['{'] + gap);
    lemma_not_in_literal(s, f, a);
    assert forall|x: int, y: int| 0 <= x < a && x < y <= s.len() implies !balanced_object(
        #[trigger] s.subrange(x, y),
    ) by {
        assert(s.subrange(x, y)[0] == s[x]);
        if x < f {
            assert(s[x] == noise[x]);
        } else if x == f {
            assert(s.subrange(x, y) == tail.take(y - f));
        } else {
            assert(s[x] == gap[x - f - 1]);
        }
    }
    lemma_first_object_is(s, a, b);
}

proof fn lemma_scan_without_quotes(s: Seq<char>)
    requires
        !s.contains('"'),
    ensures
        !scan(s).in_string,
    decreases s.len(),
{
    if s.len() > 0 {
        assert(s.contains(s.last()));
        assert forall|k: int| 0 <= k < s.drop_last().len() implies s.drop_last()[k] != '"' by {
            assert(s[k] == s.drop_last()[k]);
        }
        lemma_scan_without_quotes(s.drop_last());
    }
}

/// Looking for the object in the object finds all of it.
pub proof fn first_object_is_idempotent(s: Seq<char>)
    requires
        first_object(s) is Some,
    ensures
        first_object(first_object(s)->0) == first_object(s),
{
    let (a, b) = choose|a: int, b: int| is_first_object(s, a, b);
    let x = s.subrange(a, b);
    assert(Seq::<char>::empty() + x + Seq::<char>::empty() == x);
    object_is_found_in_noise(Seq::empty(), x, Seq::empty());
}

/// An object of one text field is found whole, behind any text without a brace and
/// before any text at all, whatever braces, quotes and backslashes its key and its
/// text hold.
pub proof fn object_is_found_whatever_its_text_holds(
    noise: Seq<char>,
    key: Seq<char>,
    value: Seq<char>,
    trailing: Seq<char>,
)
    requires
        !noise.contains('{'),
    ensures
        first_object(noise + one_field_object(key, value) + trailing) == Some(
            one_field_object(key, value),
        ),
{
    lemma_one_field_object_is_balanced(key, value);
    object_is_found_in_noise(noise, one_field_object(key, value), trailing);
}

proof fn lemma_scan_push(s: Seq<char>, c: char)
    ensures
        scan(s.push(c)) == scan_char(scan(s), c),
{
    assert(s.push(c).drop_last() == s);
}

/// What is written inside a string leaves a scan inside that string.
proof fn lemma_scan_of_escaped_char(p: Seq<char>, c: char, m: int)
    requires
        scan(p).in_string,
        !scan(p).escape,
        0 <= m <= escaped_char(c).len(),
    ensures
        scan(p + escaped_char(c).take(m)).depth == scan(p).depth,
        scan(p + escaped_char(c).take(m)).in_string,
        scan(p + escaped_char(c)) == scan(p),
{
    let e = escaped_char(c);
    let u = c as u32;
    assert(p + e.take(0) == p);
    assert(p + e.take(1) == p.push(e[0]));
    lemma_scan_push(p, e[0]);
    if e.len() == 1 {
        assert(e.take(1) == e);
    } else {
        assert(p + e.take(2) == p.push(e[0]).push(e[1]));
        lemma_scan_push(p.push(e[0]), e[1]);
        let q2 = p.push(e[0]).push(e[1]);
        if e.len() == 2 {
            assert(e.take(2) == e);
        } else {
            assert(e.len() == 6);
            assert(digit_char((u / 16) as int) != '"' && digit_char((u / 16) as int) != '\\');
            assert(digit_char((u % 16) as int) != '"' && digit_char((u % 16) as int) != '\\');
            lemma_scan_push(q2, e[2]);
            lemma_scan_push(q2.push(e[2]), e[3]);
            lemma_scan_push(q2.push(e[2]).push(e[3]), e[4]);
            lemma_scan_push(q2.push(e[2]).push(e[3]).push(e[4]), e[5]);
            assert(p + e.take(3) == q2.push(e[2]));
            assert(p + e.take(4) == q2.push(e[2]).push(e[3]));
            assert(p + e.take(5) == q2.push(e[2]).push(e[3]).push(e[4]));
            assert(p + e.take(6) == q2.push(e[2]).push(e[3]).push(e[4]).push(e[5]));
            assert(e.take(6) == e);
        }
    }
    assert(m == 0 || m == 1 || m == 2 || m == 3 || m == 4 || m == 5 || m == 6);
}

proof fn lemma_scan_of_escaped(p: Seq<char>, v: Seq<char>, m: int)
    requires
        scan(p).in_string,
        !scan(p).escape,
        0 <= m <= escaped(v).len(),
    ensures
        scan(p + escaped(v).take(m)).depth == scan(p).depth,
        scan(p + escaped(v)) == scan(p),
    decreases v.len(),
{
    if v.len() == 0 {
        assert(p + escaped(v).take(m) == p);
        assert(p + escaped(v) == p);
    } else {
        let head = escaped(v.drop_last());
        let tail = escaped_char(v.last());
        lemma_scan_of_escaped(p, v.drop_last(), if m <= head.len() { m } else { 0 });
        let k = if m <= head.len() { 0int } else { m - head.len() };
        lemma_scan_of_escaped_char(p + head, v.last(), k);
        assert((p + head) + tail == p + escaped(v));
        if m <= head.len() {
            assert(escaped(v).take(m) == head.take(m));
        } else {
            assert(p + escaped(v).take(m) == (p + head) + tail.take(k));
        }
    }
}

proof fn lemma_one_field_object_is_balanced(key: Seq<char>, value: Seq<char>)
    ensures
        balanced_object(one_field_object(key, value)),
{
    let whole = one_field_object(key, value);
    let start = seq!['{', '"'];
    let inner_key = start + escaped(key);
    let middle = inner_key.push('"').push(':').push('"');
    let inner_value = middle + escaped(value);
    assert(seq!['{'] == Seq::<char>::empty().push('{'));
    lemma_scan_push(Seq::empty(), '{');
    lemma_scan_push(seq!['{'], '"');
    assert(start == seq!['{'].push('"'));
    lemma_scan_of_escaped(start, key, 0);
    lemma_scan_push(inner_key, '"');
    lemma_scan_push(inner_key.push('"'), ':');
    lemma_scan_push(inner_key.push('"').push(':'), '"');
    lemma_scan_of_escaped(middle, value, 0);
    lemma_scan_push(inner_value, '"');
    lemma_scan_push(inner_value.push('"'), '}');
    assert(whole =~= inner_value.push('"').push('}'));
    assert forall|n: int| 0 < n < whole.len() implies #[trigger] scan(whole.take(n)).depth != 0 by {
        if n == 1 {
            assert(whole.take(n) == seq!['{']);
        } else if n <= inner_key.len() {
            lemma_scan_of_escaped(start, key, n - 2);
            assert(whole.take(n) == start + escaped(key).take(n - 2));
        } else if n == inner_key.len() + 1 {
            assert(whole.take(n) == inner_key.push('"'));
        } else if n == inner_key.len() + 2 {
            assert(whole.take(n) == inner_key.push('"').push(':'));
        } else if n <= inner_value.len() {
            lemma_scan_of_escaped(middle, value, n - middle.len());
            assert(whole.take(n) == middle + escaped(value).take(n - middle.len()));
        } else {
            assert(whole.take(n) == inner_value.push('"'));
        }
    }
    assert(whole[0] == '{');
}

/// Two places with a brace and none before are the same place.
proof fn lemma_first_brace_is_unique(s: Seq<char>, a: int, b: int)
    requires
        0 <= a < s.len(),
        0 <= b < s.len(),
        s[a] == '{',
        s[b] == '{',
        !s.take(a).contains('{'),
        !s.take(b).contains('{'),
    ensures
        a == b,
{
    if a < b {
        assert(s.take(b)[a] == '{');
    } else if b < a {
        assert(s.take(a)[b] == '{');
    }
}

/// The span of the first object is unique, so it is the one that `first_object` picks.
proof fn lemma_first_object_is(s: Seq<char>, start: int, end: int)
    requires
        is_first_object(s, start, end),
    ensures
        first_object(s) == Some(s.subrange(start, end)),
{
    let (a, b) = choose|a: int, b: int| is_first_object(s, a, b);
    let (x, y) = (s.subrange(start, end), s.subrange(a, b));
    assert(a == start);
    if b < end {
        assert(x.take(b - start) == y);
    } else if end < b {
        assert(y.take(end - start) == x);
    }
}

/// A character of a JSON string, or an escape.
pub enum Token {
    Char(char),
    Escape(char),
}

/// A part of a JSON text: one without quotes and braces, such as numbers, brackets and
/// commas; a string; or an object.
pub enum Piece {
    Plain(Seq<char>),
    Literal(Seq<Token>),
    Object(Seq<Piece>),
}

/// The characters of a JSON string.
pub open spec fn tokens_text(tokens: Seq<Token>) -> Seq<char>
    decreases tokens.len(),
{
    if tokens.len() == 0 {
        Seq::empty()
    } else {
        tokens_text(tokens.drop_last()) + match tokens.last() {
            Token::Char(c) => seq![c],
            Token::Escape(c) => seq!['\\', c],
        }
    }
}

/// A part of a JSON text, written out.
pub open spec fn piece_text(piece: Piece) -> Seq<char>
    decreases piece,
{
    match piece {
        Piece::Plain(text) => text,
        Piece::Literal(tokens) => seq!['"'] + tokens_text(tokens) + seq!['"'],
        Piece::Object(parts) => seq!['{'] + pieces_text(parts) + seq!['}'],
    }
}

/// Parts of a JSON text, written out one after the other.
pub open spec fn pieces_text(parts: Seq<Piece>) -> Seq<char>
    decreases parts,
{
    if parts.len() == 0 {
        Seq::empty()
    } else {
        pieces_text(parts.drop_last()) + piece_text(parts[parts.len() - 1])
    }
}

/// The part is what it says: no quotes and braces in what is plain, and no quotes and
/// backslashes in a string but as escapes.
pub open spec fn is_piece(piece: Piece) -> bool
    decreases piece,
{
    match piece {
        Piece::Plain(text) => !text.contains('"') && !text.contains('{') && !text.contains('}'),
        Piece::Literal(tokens) => forall|i: int|
            0 <= i < tokens.len() ==> (#[trigger] tokens[i] matches Token::Char(c) ==> c != '"' && c
                != '\\'),
        Piece::Object(parts) => are_pieces(parts),
    }
}

/// The parts are what they say.
pub open spec fn are_pieces(parts: Seq<Piece>) -> bool
    decreases parts,
{
    parts.len() > 0 ==> are_pieces(parts.drop_last()) && is_piece(parts[parts.len() - 1])
}

/// A scan of `part` behind `before` ends where it started and is nowhere less deep.
spec fn scans_level(before: Seq<char>, part: Seq<char>) -> bool {
    &&& scan(before + part) == scan(before)
    &&& forall|m: int|
        0 <= m <= part.len() ==> #[trigger] scan(before + part.take(m)).depth >= scan(before).depth
}

/// Two level parts one after the other are level.
proof fn lemma_level_parts(before: Seq<char>, a: Seq<char>, b: Seq<char>)
    requires
        scans_level(before, a),
        scans_level(before + a, b),
    ensures
        scans_level(before, a + b),
{
    assert(before + (a + b) == (before + a) + b);
    assert forall|m: int| 0 <= m <= (a + b).len() implies #[trigger] scan(
        before + (a + b).take(m),
    ).depth >= scan(before).depth by {
        if m <= a.len() {
            assert((a + b).take(m) == a.take(m));
        } else {
            assert(before + (a + b).take(m) == (before + a) + b.take(m - a.len()));
        }
    }
}

proof fn lemma_plain_is_level(before: Seq<char>, text: Seq<char>)
    requires
        !scan(before).in_string,
        !text.contains('"'),
        !text.contains('{'),
        !text.contains('}'),
    ensures
        scans_level(before, text),
    decreases text.len(),
{
    assert(before + text.take(0) == before);
    if text.len() == 0 {
        assert(before + text == before);
    } else {
        let head = text.drop_last();
        assert(text.contains(text.last()));
        assert forall|c: char| !text.contains(c) implies !#[trigger] head.contains(c) by {
            if head.contains(c) {
                let k = choose|k: int| 0 <= k < head.len() && head[k] == c;
                assert(text[k] == c);
            }
        }
        lemma_plain_is_level(before, head);
        lemma_scan_push(before + head, text.last());
        assert(before + text == (before + head).push(text.last()));
        assert forall|m: int| 0 <= m <= text.len() implies #[trigger] scan(
            before + text.take(m),
        ).depth >= scan(before).depth by {
            if m < text.len() {
                assert(text.take(m) == head.take(m));
            } else {
                assert(text.take(m) == text);
            }
        }
    }
}

/// Inside a string, its characters leave the scan inside it, at the same depth.
proof fn lemma_tokens_stay_inside(before: Seq<char>, tokens: Seq<Token>)
    requires
        scan(before).in_string,
        !scan(before).escape,
        forall|i: int|
            0 <= i < tokens.len() ==> (#[trigger] tokens[i] matches Token::Char(c) ==> c != '"' && c
                != '\\'),
    ensures
        scans_level(before, tokens_text(tokens)),
    decreases tokens.len(),
{
    let text = tokens_text(tokens);
    if tokens.len() == 0 {
        assert(before + text == before);
        assert forall|m: int| 0 <= m <= text.len() implies #[trigger] scan(
            before + text.take(m),
        ).depth >= scan(before).depth by {
            assert(before + text.take(m) == before);
        }
    } else {
        let head = tokens.drop_last();
        assert forall|i: int| 0 <= i < head.len() implies (#[trigger] head[i] matches Token::Char(c)
            ==> c != '"' && c != '\\') by {
            assert(head[i] == tokens[i]);
        }
        lemma_tokens_stay_inside(before, head);
        let q = before + tokens_text(head);
        assert(tokens.last() == tokens[tokens.len() - 1]);
        match tokens.last() {
            Token::Char(c) => {
                lemma_scan_push(q, c);
                let part = seq![c];
                assert(q + part == q.push(c));
                assert forall|m: int| 0 <= m <= part.len() implies #[trigger] scan(
                    q + part.take(m),
                ).depth >= scan(q).depth by {
                    if m == 0 {
                        assert(q + part.take(m) == q);
                    } else {
                        assert(part.take(m) == part);
                    }
                }
                lemma_level_parts(before, tokens_text(head), part);
            },
            Token::Escape(c) => {
                lemma_scan_push(q, '\\');
                lemma_scan_push(q.push('\\'), c);
                let part = seq!['\\', c];
                assert(q + part == q.push('\\').push(c));
                assert forall|m: int| 0 <= m <= part.len() implies #[trigger] scan(
                    q + part.take(m),
                ).depth >= scan(q).depth by {
                    if m == 0 {
                        assert(q + part.take(m) == q);
                    } else if m == 1 {
                        assert(q + part.take(m) == q.push('\\'));
                    } else {
                        assert(part.take(m) == part);
                    }
                }
                lemma_level_parts(before, tokens_text(head), part);
            },
        }
    }
}

proof fn lemma_literal_is_level(before: Seq<char>, tokens: Seq<Token>)
    requires
        !scan(before).in_string,
        !scan(before).escape,
        is_piece(Piece::Literal(tokens)),
    ensures
        scans_level(before, piece_text(Piece::Literal(tokens))),
{
    let inner = tokens_text(tokens);
    let text = piece_text(Piece::Literal(tokens));
    let open = before.push('"');
    lemma_scan_push(before, '"');
    lemma_tokens_stay_inside(open, tokens);
    lemma_scan_push(open + inner, '"');
    assert(before + text == (open + inner).push('"'));
    assert forall|m: int| 0 <= m <= text.len() implies #[trigger] scan(
        before + text.take(m),
    ).depth >= scan(before).depth by {
        if m == 0 {
            assert(before + text.take(m) == before);
        } else if m < text.len() {
            assert(before + text.take(m) == open + inner.take(m - 1));
        } else {
            assert(text.take(m) == text);
        }
    }
}

proof fn lemma_piece_is_level(before: Seq<char>, piece: Piece)
    requires
        !scan(before).in_string,
        !scan(before).escape,
        is_piece(piece),
    ensures
        scans_level(before, piece_text(piece)),
    decreases piece,
{
    match piece {
        Piece::Plain(text) => lemma_plain_is_level(before, text),
        Piece::Literal(tokens) => lemma_literal_is_level(before, tokens),
        Piece::Object(parts) => {
            let inner = pieces_text(parts);
            let text = piece_text(piece);
            let open = before.push('{');
            lemma_scan_push(before, '{');
            lemma_pieces_are_level(open, parts);
            lemma_scan_push(open + inner, '}');
            assert(before + text == (open + inner).push('}'));
            assert forall|m: int| 0 <= m <= text.len() implies #[trigger] scan(
                before + text.take(m),
            ).depth >= scan(before).depth by {
                if m == 0 {
                    assert(before + text.take(m) == before);
                } else if m < text.len() {
                    assert(before + text.take(m) == open + inner.take(m - 1));
                } else {
                    assert(text.take(m) == text);
                }
            }
        },
    }
}

proof fn lemma_pieces_are_level(before: Seq<char>, parts: Seq<Piece>)
    requires
        !scan(before).in_string,
        !scan(before).escape,
        are_pieces(parts),
    ensures
        scans_level(before, pieces_text(parts)),
    decreases parts,
{
    if parts.len() == 0 {
        let text = pieces_text(parts);
        assert(before + text == before);
        assert forall|m: int| 0 <= m <= text.len() implies #[trigger] scan(
            before + text.take(m),
        ).depth >= scan(before).depth by {
            assert(before + text.take(m) == before);
        }
    } else {
        let head = parts.drop_last();
        lemma_pieces_are_level(before, head);
        lemma_piece_is_level(before + pieces_text(head), parts[parts.len() - 1]);
        lemma_level_parts(before, pieces_text(head), piece_text(parts[parts.len() - 1]));
    }
}

/// A JSON object, written out in any way, is balanced.
proof fn lemma_written_object_is_balanced(parts: Seq<Piece>)
    requires
        are_pieces(parts),
    ensures
        balanced_object(piece_text(Piece::Object(parts))),
{
    let whole = piece_text(Piece::Object(parts));
    let inner = pieces_text(parts);
    let open = seq!['{'];
    assert(open == Seq::<char>::empty().push('{'));
    lemma_scan_push(Seq::empty(), '{');
    lemma_pieces_are_level(open, parts);
    lemma_scan_push(open + inner, '}');
    assert(whole == (open + inner).push('}'));
    assert forall|n: int| 0 < n < whole.len() implies #[trigger] scan(whole.take(n)).depth != 0 by {
        assert(whole.take(n) == open + inner.take(n - 1));
    }
}

/// Every JSON object is found whole, however it is written and whatever it holds,
/// strings with braces and quotes and objects in objects among it: behind any text
/// without a brace, and before any text at all.
pub proof fn every_object_is_found_whole(
    noise: Seq<char>,
    parts: Seq<Piece>,
    trailing: Seq<char>,
)
    requires
        !noise.contains('{'),
        are_pieces(parts),
    ensures
        first_object(noise + piece_text(Piece::Object(parts)) + trailing) == Some(
            piece_text(Piece::Object(parts)),
        ),
{
    lemma_written_object_is_balanced(parts);
    object_is_found_in_noise(noise, piece_text(Piece::Object(parts)), trailing);
}

/// A JSON object behind a brace that is never closed is found all the same.
pub proof fn every_object_is_found_behind_an_open_brace(
    noise: Seq<char>,
    gap: Seq<Piece>,
    parts: Seq<Piece>,
    trailing: Seq<Piece>,
)
    requires
        !noise.contains('{'),
        are_pieces(gap),
        forall|i: int| 0 <= i < gap.len() ==> !(#[trigger] gap[i] is Object),
        are_pieces(parts),
        are_pieces(trailing),
    ensures
        first_object(
            noise + (seq!['{'] + pieces_text(gap) + piece_text(Piece::Object(parts)) + pieces_text(
                trailing,
            )),
        ) == Some(piece_text(Piece::Object(parts))),
{
    let object = piece_text(Piece::Object(parts));
    let middle = pieces_text(gap);
    let end = pieces_text(trailing);
    let open = seq!['{'];
    let tail = open + middle + object + end;
    let s = noise + tail;
    let f = noise.len() as int;
    let a = f + 1 + middle.len();
    let b = a + object.len();
    lemma_written_object_is_balanced(parts);
    assert(open == Seq::<char>::empty().push('{'));
    lemma_scan_push(Seq::empty(), '{');
    lemma_pieces_are_level(open, gap);
    assert(piece_text(Piece::Object(parts)) == object);
    lemma_piece_is_level(open + middle, Piece::Object(parts));
    lemma_level_parts(open, middle, object);
    assert(open + (middle + object) == open + middle + object);
    lemma_pieces_are_level(open + (middle + object), trailing);
    lemma_level_parts(open, middle + object, end);
    let rest = middle + object + end;
    assert(tail == open + rest);
    assert(s.take(f) == noise);
    assert(s[f] == '{');
    assert(s.subrange(a, b) == object);
    assert(s.subrange(f, a) == open + middle);
    lemma_not_in_literal(s, f, a);
    assert forall|x: int, y: int|
        0 <= x < a && x < y <= s.len() && !in_literal(s, x) implies !balanced_object(
        #[trigger] s.subrange(x, y),
    ) by {
        let found = s.subrange(x, y);
        assert(found[0] == s[x]);
        if balanced_object(found) {
            if x < f {
                assert(s[x] == noise[x]);
            } else if x == f {
                assert(found == open + rest.take(y - f - 1));
            } else {
                assert(s[x] == middle[x - f - 1]);
                lemma_brace_in_plain_pieces(open, gap, x - f - 1);
                assert(s.subrange(f, x) == open + middle.take(x - f - 1));
                assert(is_first_brace(s, f));
            }
        }
    }
    lemma_first_object_is(s, a, b);
}

/// In parts that hold no object, a brace stands inside a string.
proof fn lemma_brace_in_plain_pieces(before: Seq<char>, parts: Seq<Piece>, i: int)
    requires
        !scan(before).in_string,
        !scan(before).escape,
        are_pieces(parts),
        forall|k: int| 0 <= k < parts.len() ==> !(#[trigger] parts[k] is Object),
        0 <= i < pieces_text(parts).len(),
        pieces_text(parts)[i] == '{',
    ensures
        scan(before + pieces_text(parts).take(i)).in_string,
    decreases parts.len(),
{
    let head = parts.drop_last();
    let first = pieces_text(head);
    let last = piece_text(parts[parts.len() - 1]);
    let n = first.len() as int;
    assert forall|k: int| 0 <= k < head.len() implies !(#[trigger] head[k] is Object) by {
        assert(head[k] == parts[k]);
    }
    assert(pieces_text(parts) == first + last);
    if i < n {
        lemma_brace_in_plain_pieces(before, head, i);
        assert(pieces_text(parts).take(i) == first.take(i));
    } else {
        lemma_pieces_are_level(before, head);
        let q = before + first;
        assert(before + pieces_text(parts).take(i) == q + last.take(i - n));
        assert(last[i - n] == '{');
        match parts[parts.len() - 1] {
            Piece::Plain(text) => {
                assert(is_piece(Piece::Plain(text)));
                assert(text[i - n] == '{');
                assert(text.contains('{'));
            },
            Piece::Literal(tokens) => {
                let inner = tokens_text(tokens);
                assert(is_piece(Piece::Literal(tokens)));
                lemma_scan_push(q, '"');
                assert(i - n > 0 && i - n < last.len() - 1);
                lemma_inside_a_string(q.push('"'), tokens, i - n - 1);
                assert(q + last.take(i - n) == q.push('"') + inner.take(i - n - 1));
            },
            Piece::Object(_) => {
                assert(parts[parts.len() - 1] is Object);
            },
        }
    }
}

/// Between the quotes of a string, a scan is inside it.
proof fn lemma_inside_a_string(before: Seq<char>, tokens: Seq<Token>, m: int)
    requires
        scan(before).in_string,
        !scan(before).escape,
        is_piece(Piece::Literal(tokens)),
        0 <= m <= tokens_text(tokens).len(),
    ensures
        scan(before + tokens_text(tokens).take(m)).in_string,
    decreases tokens.len(),
{
    let text = tokens_text(tokens);
    if tokens.len() == 0 {
        assert(before + text.take(m) == before);
    } else {
        let head = tokens.drop_last();
        let first = tokens_text(head);
        let n = first.len() as int;
        assert forall|i: int| 0 <= i < head.len() implies (#[trigger] head[i] matches Token::Char(c)
            ==> c != '"' && c != '\\') by {
            assert(head[i] == tokens[i]);
        }
        assert(is_piece(Piece::Literal(head)));
        if m <= n {
            lemma_inside_a_string(before, head, m);
            assert(text.take(m) == first.take(m));
        } else {
            lemma_tokens_stay_inside(before, head);
            let q = before + first;
            assert(tokens.last() == tokens[tokens.len() - 1]);
            match tokens.last() {
                Token::Char(c) => {
                    lemma_scan_push(q, c);
                    assert(before + text.take(m) == q.push(c));
                },
                Token::Escape(c) => {
                    lemma_scan_push(q, '\\');
                    lemma_scan_push(q.push('\\'), c);
                    if m == n + 1 {
                        assert(before + text.take(m) == q.push('\\'));
                    } else {
                        assert(before + text.take(m) == q.push('\\').push(c));
                    }
                },
            }
        }
    }
}

/// What is found stands in the text, and nothing is found in a text without an opening
/// or without a closing brace.
pub proof fn found_object_stands_in_the_text(s: Seq<char>)
    ensures
        first_object(s) matches Some(object) ==> exists|a: int|
            0 <= a && a + object.len() <= s.len() && #[trigger] s.subrange(a, a + object.len())
                == object,
        !s.contains('{') ==> first_object(s) is None,
        !s.contains('}') ==> first_object(s) is None,
{
    if let Some(object) = first_object(s) {
        let (a, b) = choose|a: int, b: int| is_first_object(s, a, b);
        first_object_is_in_braces(s);
        assert(s.subrange(a, b) == object);
        assert(s.subrange(a, a + object.len()) == object);
        assert(s[a] == object[0]);
        assert(s[b - 1] == object.last());
    }
}

/// The structured value of a cleaned answer is the answer itself where it is an object,
/// or else the first object in it, whatever stands before and behind; there is none
/// exactly where there is no such object, or it does not parse.
pub proof fn structured_value_is_the_first_object(
    cleaned: Seq<char>,
    shape: spec_fn(Seq<char>) -> Option<JsonShape>,
)
    ensures
        shape(cleaned) == Some(JsonShape::Object) ==> structured_value(cleaned, shape) == Some(
            cleaned,
        ),
        shape(cleaned) != Some(JsonShape::Object) && first_object(cleaned) is None
            ==> structured_value(cleaned, shape) is None,
        shape(cleaned) != Some(JsonShape::Object) && first_object(cleaned) is Some && shape(
            first_object(cleaned)->0,
        ) is Some ==> structured_value(cleaned, shape) == first_object(cleaned),
        shape(cleaned) != Some(JsonShape::Object) && first_object(cleaned) is Some && shape(
            first_object(cleaned)->0,
        ) is None ==> structured_value(cleaned, shape) is None,
{
}

/// An object in the prose of an answer is read: once the reasoning blocks are gone,
/// whatever stands before it without a brace and whatever stands behind it is left out.
pub proof fn object_in_prose_is_read(
    provider: OpenAiCompatProvider,
    response: &str,
    r: Result<String, LlmError>,
    noise: Seq<char>,
    parts: Seq<Piece>,
    trailing: Seq<char>,
    n: nat,
    cleaned: String,
)
    requires
        call_ensures(OpenAiCompatProvider::complete_structured_raw, (&provider, response), r),
        call_ensures(strip_reasoning_blocks, (response,), cleaned),
        ({
            let object = piece_text(Piece::Object(parts));
            let left = noise + object + trailing;
            &&& are_pieces(parts)
            &&& !noise.contains('{')
            &&& blocks_removed(response@, left, n)
            &&& !in_fence(left)
            &&& json_shape(object) is Some
            &&& json_shape(trimmed(left)) != Some(JsonShape::Object)
        }),
    ensures
        r is Ok,
        r->Ok_0@ == piece_text(Piece::Object(parts)),
{
    let object = piece_text(Piece::Object(parts));
    let left = noise + object + trailing;
    assert(cleaned@ == trimmed(left));
    let (lead, tail) = crate::text::trimming_takes_only_white_space(left);
    let (a, b) = (lead.len() as int, tail.len() as int);
    let (from, to) = (noise.len() as int, (noise.len() + object.len()) as int);
    if a > from {
        assert(left[from] == object[0]);
        assert(lead[from] == left[from]);
    }
    if b > trailing.len() {
        assert(left[to - 1] == object.last());
        assert(tail[to - 1 - (left.len() - b)] == left[to - 1]);
    }
    let before = noise.skip(a);
    let behind = trailing.take(trailing.len() - b);
    assert(trimmed(left) == left.subrange(a, left.len() - b));
    assert(trimmed(left) == before + object + behind);
    assert forall|k: int| 0 <= k < before.len() implies before[k] != '{' by {
        assert(noise[k + a] == before[k]);
    }
    every_object_is_found_whole(before, parts, behind);
}

/// A text is cut to its first `n` bytes, with a mark behind, and only where it has more.
pub proof fn truncation_keeps_the_first_bytes(s: Seq<char>, n: nat)
    requires
        n < encode_utf8(s).len() ==> vstd::utf8::is_char_boundary(encode_utf8(s), n as int),
    ensures
        encode_utf8(s).len() <= n ==> truncated(s, n) == s,
        encode_utf8(s).len() > n ==> truncated(s, n).len() > 0 && truncated(s, n).last() == '…'
            && encode_utf8(truncated(s, n).drop_last()) == encode_utf8(s).take(n as int),
{
    let bytes = encode_utf8(s);
    if bytes.len() > n {
        let head = bytes.take(n as int);
        vstd::utf8::encode_utf8_valid_utf8(s);
        vstd::utf8::valid_utf8_split(bytes, n as int);
        assert(bytes.subrange(0, n as int) == head);
        vstd::utf8::decode_utf8_encode_utf8(head);
        assert(truncated(s, n).drop_last() == decode_utf8(head));
    }
}

/// The payload of an answer is the content of its fence, or else the answer, in either
/// case without the white space round it.
pub proof fn payload_is_trimmed(stripped: Seq<char>, content: Seq<char>)
    ensures
        payload(stripped, Some(content)) == trimmed(content),
        payload(stripped, None) == trimmed(stripped),
{
}

/// A provider keeps what it is made with; without a key it sends a placeholder.
pub proof fn provider_keeps_what_it_is_made_with(
    base_url: String,
    api_key: Option<String>,
    model: String,
    r: OpenAiCompatProvider,
)
    requires
        call_ensures(OpenAiCompatProvider::new, (base_url, api_key, model), r),
    ensures
        r.spec_base_url() == base_url@,
        r.spec_model() == model@,
        api_key matches Some(key) ==> r.spec_api_key() == key@,
        api_key is None ==> r.spec_api_key() == "dummy"@,
        r.spec_name() == "openai-compat"@,
{
}

/// The object is the whole answer where that is one, or else the first in it.
pub proof fn whole_answer_comes_first(
    cleaned: &str,
    whole: Option<JsonShape>,
    r: Extraction<'_>,
    first: Option<&str>,
)
    requires
        call_ensures(extract, (cleaned, whole), r),
        call_ensures(first_json_object, (cleaned,), first),
    ensures
        whole == Some(JsonShape::Object) ==> r is Whole,
        whole != Some(JsonShape::Object) && first is Some ==> (r matches Extraction::Inner(slice)
            && slice@ == (first->0)@),
        whole != Some(JsonShape::Object) && first is None ==> r is Absent,
{
}

} // verus!
