//! Text: white space, decimal and hexadecimal digits, joining, byte order.
//!
//! Text is modelled by the sequence of its characters, `Seq<char>`.
use vstd::prelude::*;
use vstd::utf8::encode_utf8;

verus! {

/// The characters that have the Unicode property `White_Space`.
pub open spec fn is_white_space(c: char) -> bool {
    let u = c as u32;
    ||| 0x09 <= u <= 0x0d
    ||| u == 0x20
    ||| u == 0x85
    ||| u == 0xa0
    ||| u == 0x1680
    ||| 0x2000 <= u <= 0x200a
    ||| u == 0x2028
    ||| u == 0x2029
    ||| u == 0x202f
    ||| u == 0x205f
    ||| u == 0x3000
}

/// `s` without its leading white space.
pub open spec fn trimmed_start(s: Seq<char>) -> Seq<char>
    decreases s.len(),
{
    if s.len() > 0 && is_white_space(s[0]) {
        trimmed_start(s.drop_first())
    } else {
        s
    }
}

/// `s` without its trailing white space.
pub open spec fn trimmed_end(s: Seq<char>) -> Seq<char>
    decreases s.len(),
{
    if s.len() > 0 && is_white_space(s.last()) {
        trimmed_end(s.drop_last())
    } else {
        s
    }
}

/// `s` without the white space at its two ends.
pub open spec fn trimmed(s: Seq<char>) -> Seq<char> {
    trimmed_end(trimmed_start(s))
}

/// `s` without the characters `c` at its end.
pub open spec fn without_trailing(s: Seq<char>, c: char) -> Seq<char>
    decreases s.len(),
{
    if s.len() > 0 && s.last() == c {
        without_trailing(s.drop_last(), c)
    } else {
        s
    }
}

/// The first `n` characters of `s`, or all of `s` where it has fewer.
pub open spec fn first_chars(s: Seq<char>, n: nat) -> Seq<char> {
    if s.len() <= n {
        s
    } else {
        s.take(n as int)
    }
}

/// The `parts` one after another, with `separator` between neighbours.
pub open spec fn joined(parts: Seq<Seq<char>>, separator: Seq<char>) -> Seq<char>
    decreases parts.len(),
{
    if parts.len() == 0 {
        Seq::empty()
    } else if parts.len() == 1 {
        parts[0]
    } else {
        joined(parts.drop_last(), separator) + separator + parts.last()
    }
}

/// The digit for `d`, in lower case, for `d` below sixteen.
pub open spec fn digit_char(d: int) -> char {
    if d < 10 {
        (48 + d) as char
    } else {
        (87 + d) as char
    }
}

/// `n` in decimal, without leading zeros.
pub open spec fn decimal(n: nat) -> Seq<char>
    decreases n,
{
    if n < 10 {
        seq![digit_char(n as int)]
    } else {
        decimal(n / 10).push(digit_char((n % 10) as int))
    }
}

/// `s` spells `lower`, a text in lower case, in any letter case.
pub open spec fn spells(s: Seq<char>, lower: Seq<char>) -> bool {
    &&& s.len() == lower.len()
    &&& forall|i: int|
        0 <= i < s.len() ==> #[trigger] s[i] == lower[i] || ('a' <= lower[i] <= 'z' && s[i] as u32
            + 32 == lower[i] as u32)
}

/// The views of a vector's strings.
pub open spec fn views(strings: Seq<String>) -> Seq<Seq<char>> {
    strings.map_values(|s: String| s@)
}

/// The view of an optional text.
pub open spec fn opt_view(s: Option<String>) -> Option<Seq<char>> {
    match s {
        Some(t) => Some(t@),
        None => None,
    }
}

/// The view of an optional borrowed text.
pub open spec fn opt_str_view(s: Option<&str>) -> Option<Seq<char>> {
    match s {
        Some(t) => Some(t@),
        None => None,
    }
}

/// The text, or the empty text where there is none.
pub open spec fn or_empty(s: Option<Seq<char>>) -> Seq<char> {
    match s {
        Some(t) => t,
        None => Seq::empty(),
    }
}

/// `a` comes before `b` because they first differ at `i`: there `a` ends, or has
/// the smaller byte.
pub open spec fn precedes_at(a: Seq<u8>, b: Seq<u8>, i: int) -> bool {
    &&& 0 <= i <= a.len()
    &&& i < b.len()
    &&& forall|k: int| 0 <= k < i ==> a[k] == b[k]
    &&& i == a.len() || a[i] < b[i]
}

/// `a` comes before `b` in the lexicographic order of their bytes.
pub open spec fn bytes_precede(a: Seq<u8>, b: Seq<u8>) -> bool {
    exists|i: int| precedes_at(a, b, i)
}

/// `a` comes before `b` in the order of texts, which is that of their UTF-8 bytes.
pub open spec fn text_precedes(a: Seq<char>, b: Seq<char>) -> bool {
    bytes_precede(encode_utf8(a), encode_utf8(b))
}

/// Specification of `String::push`: the character is appended.
pub assume_specification[ String::push ](s: &mut String, c: char)
    ensures
        final(s)@ == old(s)@.push(c),
;

/// Calls `str::trim`. Trusted: the result is the text without the characters of
/// the Unicode property `White_Space` at its two ends.
#[verifier::external_body]
pub(crate) fn trim_text(s: &str) -> (r: &str)
    ensures
        r@ == trimmed(s@),
{
    s.trim()
}

/// Whether two texts are equal.
pub fn same_text(a: &str, b: &str) -> (r: bool)
    ensures
        r == (a@ == b@),
{
    a.to_string() == b.to_string()
}

/// The text that an option holds, borrowed.
pub fn opt_str(s: &Option<String>) -> (r: Option<&str>)
    ensures
        opt_str_view(r) == opt_view(*s),
{
    match s {
        Some(t) => Some(t.as_str()),
        None => None,
    }
}

/// A copy of an optional text.
pub fn opt_copy(s: &Option<String>) -> (r: Option<String>)
    ensures
        opt_view(r) == opt_view(*s),
{
    match s {
        Some(t) => Some(t.clone()),
        None => None,
    }
}

/// The given text, or the empty text where there is none.
pub fn text_or_empty(s: Option<&str>) -> (r: String)
    ensures
        r@ == or_empty(opt_str_view(s)),
{
    match s {
        Some(t) => t.to_string(),
        None => String::new(),
    }
}

/// The first `n` characters.
pub fn take_chars(s: &str, n: usize) -> (r: String)
    ensures
        r@ == first_chars(s@, n as nat),
{
    if s.unicode_len() <= n {
        s.to_string()
    } else {
        s.substring_char(0, n).to_string()
    }
}

/// The text without the characters `c` at its end.
pub fn strip_trailing(s: &str, c: char) -> (r: String)
    ensures
        r@ == without_trailing(s@, c),
{
    let mut end: usize = s.unicode_len();
    proof {
        assert(s@.take(end as int) == s@);
    }
    while end > 0 && s.get_char(end - 1) == c
        invariant
            end <= s@.len(),
            without_trailing(s@.take(end as int), c) == without_trailing(s@, c),
        decreases end,
    {
        proof {
            assert(s@.take(end as int).drop_last() == s@.take(end - 1));
        }
        end = end - 1;
    }
    proof {
        assert(s@.take(end as int) == s@.subrange(0, end as int));
    }
    s.substring_char(0, end).to_string()
}

/// The digit for `d`, in lower case.
pub fn digit_for(d: u8) -> (r: char)
    requires
        d < 16,
    ensures
        r == digit_char(d as int),
{
    if d < 10 {
        (48 + d) as char
    } else {
        (87 + d) as char
    }
}

/// `n` in decimal.
pub fn decimal_text(n: usize) -> (r: String)
    ensures
        r@ == decimal(n as nat),
    decreases n,
{
    if n < 10 {
        let mut s = String::new();
        s.push(digit_for(n as u8));
        s
    } else {
        let mut s = decimal_text(n / 10);
        s.push(digit_for((n % 10) as u8));
        s
    }
}

/// The texts one after another, with `separator` between neighbours.
pub fn join_texts(parts: &Vec<String>, separator: &str) -> (r: String)
    ensures
        r@ == joined(views(parts@), separator@),
{
    let mut out = String::new();
    let ghost all = views(parts@);
    let mut i: usize = 0;
    while i < parts.len()
        invariant
            i <= parts@.len(),
            all == views(parts@),
            out@ == joined(all.take(i as int), separator@),
        decreases parts.len() - i,
    {
        proof {
            assert(all.take(i + 1).drop_last() == all.take(i as int));
            assert(all.take(i + 1).last() == parts@[i as int]@);
        }
        if i > 0 {
            out.append(separator);
        }
        out.append(parts[i].as_str());
        proof {
            if i == 0 {
                assert(all.take(1)[0] == parts@[0]@);
                assert(Seq::<char>::empty() + parts@[0]@ == parts@[0]@);
            }
        }
        i = i + 1;
    }
    proof {
        assert(all.take(i as int) == all);
    }
    out
}

/// Whether `a` comes before `b` in the order of their UTF-8 bytes.
pub fn precedes(a: &str, b: &str) -> (r: bool)
    ensures
        r == text_precedes(a@, b@),
{
    let x = a.as_bytes();
    let y = b.as_bytes();
    let mut i: usize = 0;
    while i < x.len() && i < y.len() && x[i] == y[i]
        invariant
            i <= x@.len(),
            i <= y@.len(),
            x@ == encode_utf8(a@),
            y@ == encode_utf8(b@),
            forall|k: int| 0 <= k < i ==> x@[k] == y@[k],
        decreases x.len() - i,
    {
        i = i + 1;
    }
    let r = i < y.len() && (i == x.len() || x[i] < y[i]);
    proof {
        if r {
            assert(precedes_at(x@, y@, i as int));
        } else if bytes_precede(x@, y@) {
            let j = choose|j: int| precedes_at(x@, y@, j);
            if j < i {
                assert(x@[j] == y@[j]);
            }
        }
    }
    r
}

/// No text comes before itself.
pub proof fn text_order_is_irreflexive(a: Seq<char>)
    ensures
        !text_precedes(a, a),
{
}

/// The order of texts is transitive.
pub proof fn text_order_is_transitive(a: Seq<char>, b: Seq<char>, c: Seq<char>)
    requires
        text_precedes(a, b),
        text_precedes(b, c),
    ensures
        text_precedes(a, c),
{
    let (x, y, z) = (encode_utf8(a), encode_utf8(b), encode_utf8(c));
    let i = choose|i: int| precedes_at(x, y, i);
    let j = choose|j: int| precedes_at(y, z, j);
    if i < j {
        assert(precedes_at(x, z, i));
    } else {
        assert(precedes_at(x, z, j));
    }
}

/// Of two different texts one comes before the other.
pub proof fn text_order_is_total(a: Seq<char>, b: Seq<char>)
    ensures
        a == b || text_precedes(a, b) || text_precedes(b, a),
{
    let (x, y) = (encode_utf8(a), encode_utf8(b));
    if x == y {
        vstd::utf8::encode_utf8_decode_utf8(a);
        vstd::utf8::encode_utf8_decode_utf8(b);
    } else {
        let i = first_difference(x, y);
        lemma_first_difference(x, y);
        if precedes_at(x, y, i) {
        } else {
            assert(precedes_at(y, x, i));
        }
    }
}

/// Where `a` and `b` first differ, or the length of their common start.
spec fn first_difference(a: Seq<u8>, b: Seq<u8>) -> int
    decreases a.len(),
{
    if a.len() == 0 || b.len() == 0 || a[0] != b[0] {
        0
    } else {
        1 + first_difference(a.drop_first(), b.drop_first())
    }
}

proof fn lemma_first_difference(a: Seq<u8>, b: Seq<u8>)
    ensures
        0 <= first_difference(a, b) <= a.len(),
        first_difference(a, b) <= b.len(),
        forall|k: int| 0 <= k < first_difference(a, b) ==> a[k] == b[k],
        a != b ==> first_difference(a, b) < a.len() || first_difference(a, b) < b.len(),
        first_difference(a, b) < a.len() && first_difference(a, b) < b.len() ==> a[first_difference(
            a,
            b,
        )] != b[first_difference(a, b)],
    decreases a.len(),
{
    if a.len() == 0 || b.len() == 0 || a[0] != b[0] {
        if a.len() == 0 && b.len() == 0 {
            assert(a == b);
        }
    } else {
        let (p, q) = (a.drop_first(), b.drop_first());
        lemma_first_difference(p, q);
        let d = first_difference(p, q);
        assert forall|k: int| 0 <= k < 1 + d implies a[k] == b[k] by {
            if k > 0 {
                assert(p[k - 1] == q[k - 1]);
            }
        }
        if a != b && !(1 + d < a.len() || 1 + d < b.len()) {
            assert(a =~= b);
        }
        if 1 + d < a.len() && 1 + d < b.len() {
            assert(p[d] == a[1 + d] && q[d] == b[1 + d]);
        }
    }
}

/// The text without white space at its ends starts and ends with another character.
pub proof fn trimmed_has_no_white_ends(s: Seq<char>)
    ensures
        trimmed(s).len() > 0 ==> !is_white_space(trimmed(s)[0]) && !is_white_space(
            trimmed(s).last(),
        ),
{
    lemma_trimmed_start(s);
    lemma_trimmed_end(trimmed_start(s));
}

proof fn lemma_trimmed_start(s: Seq<char>)
    ensures
        trimmed_start(s).len() > 0 ==> !is_white_space(trimmed_start(s)[0]),
    decreases s.len(),
{
    if s.len() > 0 && is_white_space(s[0]) {
        lemma_trimmed_start(s.drop_first());
    }
}

proof fn lemma_trimmed_end(s: Seq<char>)
    ensures
        trimmed_end(s).len() > 0 ==> !is_white_space(trimmed_end(s).last()) && trimmed_end(s)[0]
            == s[0],
    decreases s.len(),
{
    if s.len() > 0 && is_white_space(s.last()) {
        lemma_trimmed_end(s.drop_last());
    }
}

/// Trimming makes no text longer.
pub proof fn trimmed_is_no_longer(s: Seq<char>)
    ensures
        trimmed(s).len() <= s.len(),
        encode_utf8(trimmed(s)).len() <= encode_utf8(s).len(),
{
    lemma_trimmed_start_len(s);
    lemma_trimmed_end_len(trimmed_start(s));
}

proof fn lemma_trimmed_start_len(s: Seq<char>)
    ensures
        trimmed_start(s).len() <= s.len(),
        encode_utf8(trimmed_start(s)).len() <= encode_utf8(s).len(),
    decreases s.len(),
{
    if s.len() > 0 && is_white_space(s[0]) {
        lemma_trimmed_start_len(s.drop_first());
    }
}

/// A text without its last character has no more bytes than the text.
proof fn lemma_shorter_has_no_more_bytes(s: Seq<char>)
    requires
        s.len() > 0,
    ensures
        encode_utf8(s.drop_last()).len() <= encode_utf8(s).len(),
    decreases s.len(),
{
    if s.len() > 1 {
        assert(s.drop_last().drop_first() == s.drop_first().drop_last());
        lemma_shorter_has_no_more_bytes(s.drop_first());
    }
}

proof fn lemma_trimmed_end_len(s: Seq<char>)
    ensures
        trimmed_end(s).len() <= s.len(),
        encode_utf8(trimmed_end(s)).len() <= encode_utf8(s).len(),
    decreases s.len(),
{
    if s.len() > 0 && is_white_space(s.last()) {
        lemma_shorter_has_no_more_bytes(s);
        lemma_trimmed_end_len(s.drop_last());
    }
}

/// A text that neither starts nor ends with white space is left as it is.
pub proof fn trimmed_keeps_text_without_white_ends(s: Seq<char>)
    requires
        s.len() > 0,
        !is_white_space(s[0]),
        !is_white_space(s.last()),
    ensures
        trimmed(s) == s,
{
}

/// Trimming takes white space off the two ends and nothing else: what is left stands in
/// the text between two runs of white space, and neither starts nor ends with any.
pub proof fn trimming_takes_only_white_space(s: Seq<char>) -> (r: (Seq<char>, Seq<char>))
    ensures
        s == r.0 + trimmed(s) + r.1,
        forall|i: int| 0 <= i < r.0.len() ==> is_white_space(#[trigger] r.0[i]),
        forall|i: int| 0 <= i < r.1.len() ==> is_white_space(#[trigger] r.1[i]),
        trimmed(s).len() > 0 ==> !is_white_space(trimmed(s)[0]) && !is_white_space(
            trimmed(s).last(),
        ),
{
    trimmed_has_no_white_ends(s);
    let lead = lemma_cut_start(s);
    let tail = lemma_cut_end(trimmed_start(s));
    assert(s == lead + (trimmed(s) + tail));
    assert(s == lead + trimmed(s) + tail);
    (lead, tail)
}

proof fn lemma_cut_start(s: Seq<char>) -> (lead: Seq<char>)
    ensures
        s == lead + trimmed_start(s),
        forall|i: int| 0 <= i < lead.len() ==> is_white_space(#[trigger] lead[i]),
    decreases s.len(),
{
    if s.len() > 0 && is_white_space(s[0]) {
        let rest = lemma_cut_start(s.drop_first());
        let lead = seq![s[0]] + rest;
        assert(s.drop_first() == rest + trimmed_start(s));
        assert(s == seq![s[0]] + s.drop_first());
        assert(lead + trimmed_start(s) == seq![s[0]] + (rest + trimmed_start(s)));
        lead
    } else {
        assert(s == Seq::<char>::empty() + s);
        Seq::empty()
    }
}

proof fn lemma_cut_end(s: Seq<char>) -> (tail: Seq<char>)
    ensures
        s == trimmed_end(s) + tail,
        forall|i: int| 0 <= i < tail.len() ==> is_white_space(#[trigger] tail[i]),
    decreases s.len(),
{
    if s.len() > 0 && is_white_space(s.last()) {
        let rest = lemma_cut_end(s.drop_last());
        let tail = rest.push(s.last());
        assert(s.drop_last() == trimmed_end(s) + rest);
        assert(s == s.drop_last().push(s.last()));
        assert(trimmed_end(s) + tail == (trimmed_end(s) + rest).push(s.last()));
        tail
    } else {
        assert(s == s + Seq::<char>::empty());
        Seq::empty()
    }
}

/// What is cut off the end of a text is `c` and nothing else, and all of it.
pub proof fn only_the_trailing_run_is_cut(s: Seq<char>, c: char)
    ensures
        without_trailing(s, c).len() <= s.len(),
        without_trailing(s, c) == s.take(without_trailing(s, c).len() as int),
        forall|i: int| without_trailing(s, c).len() <= i < s.len() ==> #[trigger] s[i] == c,
        without_trailing(s, c).len() > 0 ==> without_trailing(s, c).last() != c,
    decreases s.len(),
{
    if s.len() > 0 && s.last() == c {
        let head = s.drop_last();
        only_the_trailing_run_is_cut(head, c);
        let n = without_trailing(head, c).len() as int;
        assert(head.take(n) == s.take(n));
        assert forall|i: int| n <= i < s.len() implies #[trigger] s[i] == c by {
            if i < head.len() {
                assert(head[i] == c);
            }
        }
    } else {
        assert(s.take(s.len() as int) == s);
    }
}

/// The first characters of a text are its prefix of that length, or all of it.
pub proof fn first_chars_are_a_prefix(s: Seq<char>, n: nat)
    ensures
        first_chars(s, n).len() == (if n < s.len() {
            n
        } else {
            s.len()
        }),
        forall|i: int| 0 <= i < first_chars(s, n).len() ==> #[trigger] first_chars(s, n)[i] == s[i],
{
}

/// Two lists joined one after the other are the joined lists with the separator
/// between; one text joined is that text, and none is nothing.
pub proof fn joining_is_piecewise(a: Seq<Seq<char>>, b: Seq<Seq<char>>, separator: Seq<char>)
    ensures
        a.len() > 0 && b.len() > 0 ==> joined(a + b, separator) == joined(a, separator) + separator
            + joined(b, separator),
        a.len() == 1 ==> joined(a, separator) == a[0],
        a.len() == 0 ==> joined(a, separator).len() == 0,
    decreases b.len(),
{
    if a.len() > 0 && b.len() > 0 {
        assert((a + b).drop_last() == a + b.drop_last());
        if b.len() == 1 {
            assert(a + b.drop_last() == a);
            assert(b.last() == b[0]);
        } else {
            joining_is_piecewise(a, b.drop_last(), separator);
        }
        assert(joined(a + b, separator) == joined(a, separator) + separator + joined(b, separator));
    }
}

/// The number that decimal digits spell.
pub open spec fn decimal_value(digits: Seq<char>) -> int
    decreases digits.len(),
{
    if digits.len() == 0 {
        0
    } else {
        decimal_value(digits.drop_last()) * 10 + (digits.last() as u32 - '0' as u32)
    }
}

/// A number in decimal is read back: it consists of the ten digits, spells the number,
/// and has no zero in front, unless it is one.
pub proof fn decimal_reads_back(n: nat)
    ensures
        decimal(n).len() > 0,
        forall|i: int| 0 <= i < decimal(n).len() ==> '0' <= #[trigger] decimal(n)[i] <= '9',
        decimal_value(decimal(n)) == n,
        decimal(n).len() > 1 ==> decimal(n)[0] != '0',
    decreases n,
{
    if n < 10 {
        assert(decimal(n).drop_last() == Seq::<char>::empty());
        assert(decimal_value(Seq::empty()) == 0);
    } else {
        decimal_reads_back(n / 10);
        assert(decimal(n).drop_last() == decimal(n / 10));
        if n < 100 {
            assert(decimal(n / 10)[0] == digit_char((n / 10) as int));
        } else {
            decimal_reads_back((n / 10) / 10);
        }
    }
}

/// Of two texts that first differ in a byte, the one with the smaller byte comes first,
/// and a text comes before what only goes on further.
pub proof fn smaller_byte_comes_first(
    a: Seq<char>,
    b: Seq<char>,
    common: Seq<u8>,
    x: Seq<u8>,
    y: Seq<u8>,
)
    requires
        encode_utf8(a) == common + x,
        encode_utf8(b) == common + y,
        y.len() > 0,
        x.len() == 0 || x[0] < y[0],
    ensures
        text_precedes(a, b),
        !text_precedes(b, a),
{
    let i = common.len() as int;
    let (p, q) = (encode_utf8(a), encode_utf8(b));
    if x.len() > 0 {
        assert(p[i] == x[0]);
    }
    assert(q[i] == y[0]);
    assert(precedes_at(p, q, i));
    if text_precedes(b, a) {
        text_order_is_transitive(a, b, a);
        text_order_is_irreflexive(a);
    }
}

/// An optional text is looked at as it is, and a missing one counts as the empty text
/// where an empty one is asked for.
pub proof fn optional_text_is_kept(s: Option<String>, t: Option<&str>, list: Seq<String>)
    ensures
        s matches Some(text) ==> opt_view(s) == Some(text@) && or_empty(opt_view(s)) == text@,
        s is None ==> opt_view(s) is None && or_empty(opt_view(s)).len() == 0,
        t matches Some(text) ==> opt_str_view(t) == Some(text@),
        t is None ==> opt_str_view(t) is None,
        views(list).len() == list.len(),
        forall|i: int| 0 <= i < list.len() ==> #[trigger] views(list)[i] == list[i]@,
{
}

/// White space round a text goes, and the text is left as it is.
pub proof fn white_space_round_a_text_goes(lead: Seq<char>, text: Seq<char>, tail: Seq<char>)
    requires
        forall|i: int| 0 <= i < lead.len() ==> is_white_space(#[trigger] lead[i]),
        forall|i: int| 0 <= i < tail.len() ==> is_white_space(#[trigger] tail[i]),
        text.len() > 0,
        !is_white_space(text[0]),
        !is_white_space(text.last()),
    ensures
        trimmed(lead + text + tail) == text,
    decreases lead.len() + tail.len(),
{
    let whole = lead + text + tail;
    if lead.len() > 0 {
        let rest = lead.drop_first();
        assert forall|i: int| 0 <= i < rest.len() implies is_white_space(#[trigger] rest[i]) by {
            assert(is_white_space(lead[i + 1]));
        }
        assert(whole[0] == lead[0]);
        assert(whole.drop_first() == rest + text + tail);
        white_space_round_a_text_goes(rest, text, tail);
    } else {
        assert(whole == text + tail);
        assert(whole[0] == text[0]);
        assert(trimmed_start(whole) == whole);
        lemma_tail_goes(text, tail);
    }
}

proof fn lemma_tail_goes(text: Seq<char>, tail: Seq<char>)
    requires
        forall|i: int| 0 <= i < tail.len() ==> is_white_space(#[trigger] tail[i]),
        text.len() > 0,
        !is_white_space(text.last()),
    ensures
        trimmed_end(text + tail) == text,
    decreases tail.len(),
{
    let whole = text + tail;
    if tail.len() > 0 {
        let rest = tail.drop_last();
        assert forall|i: int| 0 <= i < rest.len() implies is_white_space(#[trigger] rest[i]) by {
            assert(is_white_space(tail[i]));
        }
        assert(whole.last() == tail.last());
        assert(whole.drop_last() == text + rest);
        lemma_tail_goes(text, rest);
    } else {
        assert(whole == text);
    }
}

} // verus!
