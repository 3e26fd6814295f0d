//! Notification body markup: the body is sanitized down to the supported
//! tags (b, i, u, a with href), break tags become newlines, a newline is
//! inserted before links, and the result is parsed into styled text segments
//! for the presentation layer.

use crate::strutil::{
    all_radix_digits, chars_to_string, parse_u32_radix, radix_value, str_chars, str_eq,
};
use vstd::prelude::*;

verus! {

broadcast use vstd::utf8::char_u32_cast;

/// The text style a segment is rendered with.
#[derive(Debug, Clone, Copy, PartialEq, Eq)]
pub struct StyleState {
    pub bold: bool,
    pub italic: bool,
    pub underline: bool,
}

/// The unstyled state.
pub open spec fn spec_plain() -> StyleState {
    StyleState { bold: false, italic: false, underline: false }
}

impl Default for StyleState {
    fn default() -> (r: Self)
        ensures
            r == spec_plain(),
    {
        StyleState { bold: false, italic: false, underline: false }
    }
}

/// A run of body text with one style.
#[derive(Debug, Clone, PartialEq, Eq)]
pub struct StyledSegment {
    pub text: String,
    pub style: StyleState,
}

/// The views of a sequence of styled segments.
pub open spec fn segs_view(s: Seq<StyledSegment>) -> Seq<(Seq<char>, StyleState)> {
    s.map_values(|g: StyledSegment| (g.text@, g.style))
}

/// One pass over the body that turns the break-tag variants into newlines
/// and puts a newline before each link tag, as the wire markup promises
/// neither.
pub open spec fn spec_preprocess(s: Seq<char>) -> Seq<char>
    decreases s.len(),
{
    if s.len() == 0 {
        Seq::empty()
    } else if s.len() >= 4 && s[0] == '<' && s[1] == 'b' && s[2] == 'r' && s[3] == '>' {
        seq!['\n'] + spec_preprocess(s.skip(4))
    } else if s.len() >= 5 && s[0] == '<' && s[1] == 'b' && s[2] == 'r' && s[3] == '/' && s[4]
        == '>' {
        seq!['\n'] + spec_preprocess(s.skip(5))
    } else if s.len() >= 6 && s[0] == '<' && s[1] == 'b' && s[2] == 'r' && s[3] == ' ' && s[4]
        == '/' && s[5] == '>' {
        seq!['\n'] + spec_preprocess(s.skip(6))
    } else if s.len() >= 3 && s[0] == '<' && s[1] == 'a' && s[2] == ' ' {
        seq!['\n', '<', 'a', ' '] + spec_preprocess(s.skip(3))
    } else {
        seq![s[0]] + spec_preprocess(s.skip(1))
    }
}

/// What the sanitizer's tag filter returns for the preprocessed body: only
/// b, i, u and a tags (with only the href attribute) survive.
pub uninterp spec fn cleaned_of(s: Seq<char>) -> Seq<char>;

/// Relies on ammonia::Builder::clean configured with the tag set {b, i, u, a}
/// and the sole attribute href on a: it removes every other tag and
/// attribute, and the result depends only on the input characters.
#[verifier::external_body]
fn clean_markup(s: &str) -> (r: String)
    ensures
        r@ == cleaned_of(s@),
{
    let mut tags = std::collections::HashSet::new();
    tags.insert("b");
    tags.insert("i");
    tags.insert("u");
    tags.insert("a");
    let mut a_attrs = std::collections::HashSet::new();
    a_attrs.insert("href");
    let mut attrs = std::collections::HashMap::new();
    attrs.insert("a", a_attrs);
    ammonia::Builder::new().tags(tags).tag_attributes(attrs).clean(s).to_string()
}

/// Rewrites break tags to newlines and inserts a newline before links, per
/// `spec_preprocess`.
#[verifier::loop_isolation(false)]
fn preprocess(html: &str) -> (r: Vec<char>)
    ensures
        r@ == spec_preprocess(html@),
{
    let chars = str_chars(html);
    let n = chars.len();
    let mut out: Vec<char> = Vec::new();
    let mut i: usize = 0;
    proof {
        assert(html@.skip(0) =~= html@);
        assert(Seq::<char>::empty() + spec_preprocess(html@) =~= spec_preprocess(html@));
    }
    while i < n
        invariant
            chars@ == html@,
            n == chars@.len(),
            i <= n,
            spec_preprocess(html@) == out@ + spec_preprocess(html@.skip(i as int)),
        decreases n - i,
    {
        let ghost pre = out@;
        let ghost rem = html@.skip(i as int);
        proof {
            assert(forall|j: int| 0 <= j < rem.len() ==> rem[j] == html@[i + j]);
        }
        let step: usize;
        if n - i >= 4 && chars[i] == '<' && chars[i + 1] == 'b' && chars[i + 2] == 'r' && chars[i
            + 3] == '>' {
            out.push('\n');
            step = 4;
            proof {
                assert(out@ =~= pre + seq!['\n']);
            }
        } else if n - i >= 5 && chars[i] == '<' && chars[i + 1] == 'b' && chars[i + 2] == 'r'
            && chars[i + 3] == '/' && chars[i + 4] == '>' {
            out.push('\n');
            step = 5;
            proof {
                assert(out@ =~= pre + seq!['\n']);
            }
        } else if n - i >= 6 && chars[i] == '<' && chars[i + 1] == 'b' && chars[i + 2] == 'r'
            && chars[i + 3] == ' ' && chars[i + 4] == '/' && chars[i + 5] == '>' {
            out.push('\n');
            step = 6;
            proof {
                assert(out@ =~= pre + seq!['\n']);
            }
        } else if n - i >= 3 && chars[i] == '<' && chars[i + 1] == 'a' && chars[i + 2] == ' ' {
            out.push('\n');
            out.push('<');
            out.push('a');
            out.push(' ');
            step = 3;
            proof {
                assert(out@ =~= pre + seq!['\n', '<', 'a', ' ']);
            }
        } else {
            out.push(chars[i]);
            step = 1;
            proof {
                assert(out@ =~= pre + seq![rem[0]]);
            }
        }
        proof {
            assert(rem.skip(step as int) =~= html@.skip(i as int + step as int));
            assert(pre + spec_preprocess(rem) =~= out@ + spec_preprocess(
                rem.skip(step as int),
            ));
        }
        i += step;
    }
    proof {
        assert(html@.skip(n as int) =~= Seq::<char>::empty());
        assert(out@ =~= out@ + Seq::<char>::empty());
    }
    out
}

/// Sanitizes a notification body: break tags become newlines, links get a
/// leading newline, and everything but the supported markup is stripped.
pub fn sanitize(html: &str) -> (r: String)
    ensures
        r@ == cleaned_of(spec_preprocess(html@)),
{
    let pre = preprocess(html);
    let pre_str = chars_to_string(pre.as_slice());
    clean_markup(pre_str.as_str())
}

/// Whether a code point is a Unicode scalar value (encodable as a char).
pub open spec fn spec_is_scalar(code: u32) -> bool {
    code < 0xD800 || (0xE000 <= code && code <= 0x10FFFF)
}

/// What one entity decodes to: the six named entities become their
/// characters; `&#xH;` and `&#D;` (hexadecimal and decimal digits only)
/// become the character with that code when it is a valid scalar value; and
/// anything else, including an unterminated or out-of-range reference, stays
/// as written.
pub open spec fn spec_decode_entity(e: Seq<char>) -> Seq<char> {
    if e == "&amp;"@ {
        "&"@
    } else if e == "&lt;"@ {
        "<"@
    } else if e == "&gt;"@ {
        ">"@
    } else if e == "&quot;"@ {
        "\""@
    } else if e == "&apos;"@ {
        "'"@
    } else if e == "&nbsp;"@ {
        " "@
    } else if e.len() >= 3 && e[0] == '&' && e[1] == '#' && e[2] == 'x' {
        if e.len() >= 5 && e.last() == ';' {
            let digits = e.subrange(3, e.len() - 1);
            if all_radix_digits(digits, 16) && radix_value(digits, 16) <= u32::MAX
                && spec_is_scalar(radix_value(digits, 16) as u32) {
                seq![(radix_value(digits, 16) as u32) as char]
            } else {
                e
            }
        } else {
            e
        }
    } else if e.len() >= 2 && e[0] == '&' && e[1] == '#' {
        if e.len() >= 4 && e.last() == ';' {
            let digits = e.subrange(2, e.len() - 1);
            if all_radix_digits(digits, 10) && radix_value(digits, 10) <= u32::MAX
                && spec_is_scalar(radix_value(digits, 10) as u32) {
                seq![(radix_value(digits, 10) as u32) as char]
            } else {
                e
            }
        } else {
            e
        }
    } else {
        e
    }
}

/// Decodes one HTML entity, per `spec_decode_entity`.
#[verifier::loop_isolation(false)]
pub fn decode_entity(entity: &str) -> (r: String)
    ensures
        r@ == spec_decode_entity(entity@),
{
    if str_eq(entity, "&amp;") {
        return "&".to_owned();
    }
    if str_eq(entity, "&lt;") {
        return "<".to_owned();
    }
    if str_eq(entity, "&gt;") {
        return ">".to_owned();
    }
    if str_eq(entity, "&quot;") {
        return "\"".to_owned();
    }
    if str_eq(entity, "&apos;") {
        return "'".to_owned();
    }
    if str_eq(entity, "&nbsp;") {
        return " ".to_owned();
    }
    let chars = str_chars(entity);
    let n = chars.len();
    if n >= 3 && chars[0] == '&' && chars[1] == '#' && chars[2] == 'x' {
        if n >= 5 && chars[n - 1] == ';' {
            let mut digits: Vec<char> = Vec::new();
            let mut k: usize = 3;
            while k < n - 1
                invariant
                    chars@ == entity@,
                    n == chars@.len(),
                    n >= 5,
                    3 <= k <= n - 1,
                    digits@ =~= chars@.subrange(3, k as int),
                decreases n - k,
            {
                digits.push(chars[k]);
                k += 1;
            }
            proof {
                assert(digits@ =~= entity@.subrange(3, n as int - 1));
            }
            if let Some(code) = parse_u32_radix(digits.as_slice(), 16) {
                if let Some(c) = char::from_u32(code) {
                    let mut out: Vec<char> = Vec::new();
                    out.push(c);
                    proof {
                        vstd::utf8::char_u32_cast(c, code);
                        assert(out@ =~= seq![(code as char)]);
                        assert(out@ =~= spec_decode_entity(entity@));
                    }
                    return chars_to_string(out.as_slice());
                }
            }
        }
        return entity.to_owned();
    }
    if n >= 2 && chars[0] == '&' && chars[1] == '#' {
        if n >= 4 && chars[n - 1] == ';' {
            let mut digits: Vec<char> = Vec::new();
            let mut k: usize = 2;
            while k < n - 1
                invariant
                    chars@ == entity@,
                    n == chars@.len(),
                    n >= 4,
                    2 <= k <= n - 1,
                    digits@ =~= chars@.subrange(2, k as int),
                decreases n - k,
            {
                digits.push(chars[k]);
                k += 1;
            }
            proof {
                assert(digits@ =~= entity@.subrange(2, n as int - 1));
            }
            if let Some(code) = parse_u32_radix(digits.as_slice(), 10) {
                if let Some(c) = char::from_u32(code) {
                    let mut out: Vec<char> = Vec::new();
                    out.push(c);
                    proof {
                        vstd::utf8::char_u32_cast(c, code);
                        assert(out@ =~= seq![(code as char)]);
                        assert(out@ =~= spec_decode_entity(entity@));
                    }
                    return chars_to_string(out.as_slice());
                }
            }
        }
        return entity.to_owned();
    }
    entity.to_owned()
}

/// ASCII whitespace, as trimmed around tag names.
pub open spec fn spec_is_ws(c: char) -> bool {
    c == ' ' || c == '\t' || c == '\n' || c == '\r'
}

/// A sequence without its leading whitespace.
pub open spec fn spec_trim_start(s: Seq<char>) -> Seq<char>
    decreases s.len(),
{
    if s.len() > 0 && spec_is_ws(s[0]) {
        spec_trim_start(s.drop_first())
    } else {
        s
    }
}

/// A sequence without its trailing whitespace.
pub open spec fn spec_trim_end(s: Seq<char>) -> Seq<char>
    decreases s.len(),
{
    if s.len() > 0 && spec_is_ws(s.last()) {
        spec_trim_end(s.drop_last())
    } else {
        s
    }
}

/// A sequence without surrounding whitespace.
pub open spec fn spec_trim(s: Seq<char>) -> Seq<char> {
    spec_trim_end(spec_trim_start(s))
}

proof fn lemma_trim_start_char(s: Seq<char>, a: int)
    requires
        0 <= a <= s.len(),
        forall|j: int| 0 <= j < a ==> spec_is_ws(#[trigger] s[j]),
        a < s.len() ==> !spec_is_ws(s[a]),
    ensures
        spec_trim_start(s) == s.skip(a),
    decreases s.len(),
{
    if a == 0 {
        if s.len() > 0 && spec_is_ws(s[0]) {
            assert(false);
        }
        assert(s.skip(0) =~= s);
    } else {
        assert(spec_is_ws(s[0]));
        assert(forall|j: int| 0 <= j < a - 1 ==> #[trigger] s.drop_first()[j] == s[j + 1]);
        lemma_trim_start_char(s.drop_first(), a - 1);
        assert(s.drop_first().skip(a - 1) =~= s.skip(a));
    }
}

proof fn lemma_trim_end_char(s: Seq<char>, b: int)
    requires
        0 <= b <= s.len(),
        forall|j: int| b <= j < s.len() ==> spec_is_ws(#[trigger] s[j]),
        b > 0 ==> !spec_is_ws(s[b - 1]),
    ensures
        spec_trim_end(s) == s.take(b),
    decreases s.len(),
{
    if b == s.len() {
        if s.len() > 0 && spec_is_ws(s.last()) {
            assert(false);
        }
        assert(s.take(b) =~= s);
    } else {
        assert(spec_is_ws(s.last()));
        assert(forall|j: int| 0 <= j < s.len() - 1 ==> #[trigger] s.drop_last()[j] == s[j]);
        lemma_trim_end_char(s.drop_last(), b);
        assert(s.drop_last().take(b) =~= s.take(b));
    }
}

/// Removes surrounding ASCII whitespace.
#[verifier::loop_isolation(false)]
fn trim_chars(v: &[char]) -> (r: Vec<char>)
    ensures
        r@ == spec_trim(v@),
{
    let n = v.len();
    let mut a: usize = 0;
    while a < n && (v[a] == ' ' || v[a] == '\t' || v[a] == '\n' || v[a] == '\r')
        invariant
            n == v@.len(),
            a <= n,
            forall|j: int| 0 <= j < a ==> spec_is_ws(#[trigger] v@[j]),
        decreases n - a,
    {
        a += 1;
    }
    proof {
        lemma_trim_start_char(v@, a as int);
    }
    let mut b: usize = n;
    while b > a && (v[b - 1] == ' ' || v[b - 1] == '\t' || v[b - 1] == '\n' || v[b - 1] == '\r')
        invariant
            n == v@.len(),
            a <= b <= n,
            forall|j: int| 0 <= j < a ==> spec_is_ws(#[trigger] v@[j]),
            forall|j: int| b <= j < n ==> spec_is_ws(#[trigger] v@[j]),
        decreases b,
    {
        b -= 1;
    }
    let ghost mid = v@.skip(a as int);
    proof {
        assert(forall|j: int|
            b - a <= j < mid.len() ==> spec_is_ws(#[trigger] mid[j]));
        if b > a {
            assert(!spec_is_ws(v@[b - 1]));
            assert(mid[b - a - 1] == v@[b - 1]);
        }
        lemma_trim_end_char(mid, b - a);
    }
    let mut r: Vec<char> = Vec::new();
    let mut k: usize = a;
    while k < b
        invariant
            n == v@.len(),
            a <= k <= b <= n,
            r@ =~= v@.subrange(a as int, k as int),
        decreases b - k,
    {
        r.push(v[k]);
        k += 1;
    }
    proof {
        assert(r@ =~= mid.take(b - a));
    }
    r
}

/// The lowercased form of an ASCII letter; other characters are unchanged.
pub open spec fn spec_lower_char(c: char) -> char {
    if 'A' <= c && c <= 'Z' {
        ((c as u32) + 32) as char
    } else {
        c
    }
}

/// A sequence with its ASCII letters lowercased.
pub open spec fn spec_lower(s: Seq<char>) -> Seq<char> {
    s.map_values(|c: char| spec_lower_char(c))
}

/// Lowercases ASCII letters.
#[verifier::loop_isolation(false)]
fn lower_chars(v: &[char]) -> (r: Vec<char>)
    ensures
        r@ == spec_lower(v@),
{
    let n = v.len();
    let mut r: Vec<char> = Vec::new();
    let mut k: usize = 0;
    while k < n
        invariant
            n == v@.len(),
            k <= n,
            r@.len() == k,
            forall|j: int| 0 <= j < k ==> #[trigger] r@[j] == spec_lower_char(v@[j]),
        decreases n - k,
    {
        let c = v[k];
        if c >= 'A' && c <= 'Z' {
            let code = (c as u32) + 32;
            match char::from_u32(code) {
                Some(l) => {
                    proof {
                        vstd::utf8::char_u32_cast(l, code);
                    }
                    r.push(l);
                },
                None => {
                    proof {
                        assert(false);
                    }
                },
            }
        } else {
            r.push(c);
        }
        k += 1;
    }
    proof {
        assert(r@ =~= spec_lower(v@));
    }
    r
}

/// The style at the top of the stack; unstyled when the stack is empty.
pub open spec fn spec_top_style(stack: Seq<StyleState>) -> StyleState {
    if stack.len() == 0 {
        spec_plain()
    } else {
        stack.last()
    }
}

/// How one scanned tag changes the style stack: a closing b, i, u or a tag
/// pops (never below the base style); an opening tag starting with b (but
/// not br), i, u or a pushes the current style with the matching flag set;
/// anything else leaves the stack alone.
pub open spec fn spec_apply_tag(t: Seq<char>, stack: Seq<StyleState>) -> Seq<StyleState> {
    let tag = spec_trim(t);
    if tag.len() > 0 && tag[0] == '/' {
        let name = spec_lower(spec_trim(tag.drop_first()));
        if name.len() == 1 && (name[0] == 'b' || name[0] == 'i' || name[0] == 'u' || name[0]
            == 'a') && stack.len() > 1 {
            stack.drop_last()
        } else {
            stack
        }
    } else {
        let low = spec_lower(tag);
        let cur = spec_top_style(stack);
        if low.len() >= 1 && low[0] == 'b' && !(low.len() >= 2 && low[1] == 'r') {
            stack.push(StyleState { bold: true, ..cur })
        } else if low.len() >= 1 && low[0] == 'i' {
            stack.push(StyleState { italic: true, ..cur })
        } else if low.len() >= 1 && low[0] == 'u' {
            stack.push(StyleState { underline: true, ..cur })
        } else if low.len() >= 1 && low[0] == 'a' {
            stack.push(StyleState { underline: true, ..cur })
        } else {
            stack
        }
    }
}

/// Applies one scanned tag to the style stack, per `spec_apply_tag`.
fn apply_tag(t: &Vec<char>, stack: &mut Vec<StyleState>)
    ensures
        final(stack)@ == spec_apply_tag(t@, old(stack)@),
{
    let tag = trim_chars(t.as_slice());
    if tag.len() > 0 && tag[0] == '/' {
        let mut rest: Vec<char> = Vec::new();
        let mut k: usize = 1;
        let tn = tag.len();
        while k < tn
            invariant
                tn == tag@.len(),
                1 <= k <= tn,
                rest@ =~= tag@.subrange(1, k as int),
            decreases tn - k,
        {
            rest.push(tag[k]);
            k += 1;
        }
        proof {
            assert(rest@ =~= tag@.drop_first());
        }
        let name = lower_chars(trim_chars(rest.as_slice()).as_slice());
        if name.len() == 1 && (name[0] == 'b' || name[0] == 'i' || name[0] == 'u' || name[0]
            == 'a') && stack.len() > 1 {
            let _ = stack.pop();
            proof {
                assert(stack@ =~= old(stack)@.drop_last());
            }
        }
    } else {
        let low = lower_chars(tag.as_slice());
        let cur = if stack.len() == 0 {
            StyleState { bold: false, italic: false, underline: false }
        } else {
            stack[stack.len() - 1]
        };
        if low.len() >= 1 && low[0] == 'b' && !(low.len() >= 2 && low[1] == 'r') {
            stack.push(StyleState { bold: true, ..cur });
        } else if low.len() >= 1 && low[0] == 'i' {
            stack.push(StyleState { italic: true, ..cur });
        } else if low.len() >= 1 && low[0] == 'u' {
            stack.push(StyleState { underline: true, ..cur });
        } else if low.len() >= 1 && low[0] == 'a' {
            stack.push(StyleState { underline: true, ..cur });
        }
    }
}

/// The parser's scanning mode: plain text, inside a tag, or inside an
/// entity reference.
pub enum PhModeV {
    Text,
    Tag(Seq<char>),
    Entity(Seq<char>),
}

/// Executable counterpart of [`PhModeV`].
pub enum PhMode {
    Text,
    Tag(Vec<char>),
    Entity(Vec<char>),
}

impl View for PhMode {
    type V = PhModeV;

    open spec fn view(&self) -> PhModeV {
        match self {
            PhMode::Text => PhModeV::Text,
            PhMode::Tag(t) => PhModeV::Tag(t@),
            PhMode::Entity(e) => PhModeV::Entity(e@),
        }
    }
}

/// Flushes pending text as a segment styled with the top of the stack.
pub open spec fn spec_flush(
    segs: Seq<(Seq<char>, StyleState)>,
    text: Seq<char>,
    stack: Seq<StyleState>,
) -> Seq<(Seq<char>, StyleState)> {
    if text.len() > 0 {
        segs.push((text, spec_top_style(stack)))
    } else {
        segs
    }
}

/// The markup parser, one character at a time: text accumulates until a tag
/// or entity starts; a `<` flushes the pending text and scans a tag through
/// `>` (or the end of input), which then adjusts the style stack; a `&`
/// scans an entity through `;`, the end of input, or length 11, and appends
/// its decoding to the text.
pub open spec fn spec_ph(
    s: Seq<char>,
    mode: PhModeV,
    text: Seq<char>,
    stack: Seq<StyleState>,
    segs: Seq<(Seq<char>, StyleState)>,
) -> Seq<(Seq<char>, StyleState)>
    decreases s.len(),
{
    if s.len() == 0 {
        match mode {
            PhModeV::Text => spec_flush(segs, text, stack),
            PhModeV::Tag(_) => spec_flush(segs, text, stack),
            PhModeV::Entity(e) => spec_flush(segs, text + spec_decode_entity(e), stack),
        }
    } else {
        let c = s[0];
        let rest = s.drop_first();
        match mode {
            PhModeV::Text => {
                if c == '<' {
                    spec_ph(
                        rest,
                        PhModeV::Tag(Seq::empty()),
                        Seq::empty(),
                        stack,
                        spec_flush(segs, text, stack),
                    )
                } else if c == '&' {
                    spec_ph(rest, PhModeV::Entity(seq!['&']), text, stack, segs)
                } else {
                    spec_ph(rest, PhModeV::Text, text.push(c), stack, segs)
                }
            },
            PhModeV::Tag(t) => {
                if c == '>' {
                    spec_ph(rest, PhModeV::Text, text, spec_apply_tag(t, stack), segs)
                } else {
                    spec_ph(rest, PhModeV::Tag(t.push(c)), text, stack, segs)
                }
            },
            PhModeV::Entity(e) => {
                let e2 = e.push(c);
                if c == ';' || e2.len() > 10 {
                    spec_ph(rest, PhModeV::Text, text + spec_decode_entity(e2), stack, segs)
                } else {
                    spec_ph(rest, PhModeV::Entity(e2), text, stack, segs)
                }
            },
        }
    }
}

/// The styled segments of a body: the parse of the whole input from plain
/// text, with empty pending text and the unstyled base stack.
pub open spec fn spec_parse_html(s: Seq<char>) -> Seq<(Seq<char>, StyleState)> {
    spec_ph(s, PhModeV::Text, Seq::empty(), seq![spec_plain()], Seq::empty())
}

/// Parses sanitized markup into styled segments, per `spec_parse_html`.
#[verifier::loop_isolation(false)]
pub fn parse_html(html: &str) -> (r: Vec<StyledSegment>)
    ensures
        segs_view(r@) == spec_parse_html(html@),
{
    let chars = str_chars(html);
    let n = chars.len();
    let mut segs: Vec<StyledSegment> = Vec::new();
    let mut text: Vec<char> = Vec::new();
    let mut stack: Vec<StyleState> = Vec::new();
    stack.push(StyleState { bold: false, italic: false, underline: false });
    let mut mode: PhMode = PhMode::Text;
    proof {
        assert(stack@ =~= seq![spec_plain()]);
        assert(segs_view(segs@) =~= Seq::<(Seq<char>, StyleState)>::empty());
        assert(chars@.skip(0) =~= chars@);
    }
    let mut i: usize = 0;
    while i < n
        invariant
            chars@ == html@,
            n == chars@.len(),
            i <= n,
            stack@.len() >= 1,
            spec_ph(html@.skip(i as int), mode@, text@, stack@, segs_view(segs@))
                == spec_parse_html(html@),
        decreases n - i,
    {
        let c = chars[i];
        let ghost rem = html@.skip(i as int);
        let ghost segs0 = segs_view(segs@);
        let ghost text0 = text@;
        let ghost stack0 = stack@;
        let ghost mode0 = mode@;
        proof {
            assert(rem[0] == c);
            assert(rem.drop_first() =~= html@.skip(i as int + 1));
        }
        mode = match mode {
            PhMode::Text => {
                if c == '<' {
                    if text.len() > 0 {
                        let seg_text = chars_to_string(text.as_slice());
                        let style = stack[stack.len() - 1];
                        proof {
                            assert(stack0.len() > 0);
                            assert(style == spec_top_style(stack0));
                        }
                        segs.push(StyledSegment { text: seg_text, style });
                        text.clear();
                        proof {
                            assert(segs_view(segs@) =~= spec_flush(segs0, text0, stack0));
                        }
                    }
                    proof {
                        assert(segs_view(segs@) =~= spec_flush(segs0, text0, stack0));
                        assert(text@ =~= Seq::<char>::empty());
                        assert(spec_ph(rem, mode0, text0, stack0, segs0) == spec_ph(
                            rem.drop_first(),
                            PhModeV::Tag(Seq::empty()),
                            Seq::empty(),
                            stack0,
                            spec_flush(segs0, text0, stack0),
                        ));
                    }
                    PhMode::Tag(Vec::new())
                } else if c == '&' {
                    let mut e: Vec<char> = Vec::new();
                    e.push('&');
                    proof {
                        assert(e@ =~= seq!['&']);
                        assert(spec_ph(rem, mode0, text0, stack0, segs0) == spec_ph(
                            rem.drop_first(),
                            PhModeV::Entity(seq!['&']),
                            text0,
                            stack0,
                            segs0,
                        ));
                    }
                    PhMode::Entity(e)
                } else {
                    text.push(c);
                    proof {
                        assert(spec_ph(rem, mode0, text0, stack0, segs0) == spec_ph(
                            rem.drop_first(),
                            PhModeV::Text,
                            text0.push(c),
                            stack0,
                            segs0,
                        ));
                    }
                    PhMode::Text
                }
            },
            PhMode::Tag(mut t) => {
                let ghost t0 = t@;
                if c == '>' {
                    apply_tag(&t, &mut stack);
                    proof {
                        assert(stack@ == spec_apply_tag(t0, stack0));
                        assert(spec_ph(rem, mode0, text0, stack0, segs0) == spec_ph(
                            rem.drop_first(),
                            PhModeV::Text,
                            text0,
                            spec_apply_tag(t0, stack0),
                            segs0,
                        ));
                    }
                    PhMode::Text
                } else {
                    t.push(c);
                    proof {
                        assert(spec_ph(rem, mode0, text0, stack0, segs0) == spec_ph(
                            rem.drop_first(),
                            PhModeV::Tag(t0.push(c)),
                            text0,
                            stack0,
                            segs0,
                        ));
                    }
                    PhMode::Tag(t)
                }
            },
            PhMode::Entity(mut e) => {
                let ghost e0 = e@;
                e.push(c);
                if c == ';' || e.len() > 10 {
                    let e_str = chars_to_string(e.as_slice());
                    let decoded = decode_entity(e_str.as_str());
                    let mut decoded_chars = str_chars(decoded.as_str());
                    text.append(&mut decoded_chars);
                    proof {
                        assert(text@ == text0 + spec_decode_entity(e0.push(c)));
                        assert(spec_ph(rem, mode0, text0, stack0, segs0) == spec_ph(
                            rem.drop_first(),
                            PhModeV::Text,
                            text0 + spec_decode_entity(e0.push(c)),
                            stack0,
                            segs0,
                        ));
                    }
                    PhMode::Text
                } else {
                    proof {
                        assert(spec_ph(rem, mode0, text0, stack0, segs0) == spec_ph(
                            rem.drop_first(),
                            PhModeV::Entity(e0.push(c)),
                            text0,
                            stack0,
                            segs0,
                        ));
                    }
                    PhMode::Entity(e)
                }
            },
        };
        i += 1;
        proof {
            assert(spec_ph(html@.skip(i as int), mode@, text@, stack@, segs_view(segs@))
                == spec_ph(rem, mode0, text0, stack0, segs0));
        }
    }
    proof {
        assert(html@.skip(n as int) =~= Seq::<char>::empty());
    }
    match mode {
        PhMode::Text => {
            if text.len() > 0 {
                let seg_text = chars_to_string(text.as_slice());
                let style = stack[stack.len() - 1];
                proof {
                    assert(stack@.len() > 0);
                    assert(style == spec_top_style(stack@));
                }
                let ghost segs0 = segs_view(segs@);
                let ghost text0 = text@;
                segs.push(StyledSegment { text: seg_text, style });
                proof {
                    assert(segs_view(segs@) =~= spec_flush(segs0, text0, stack@));
                }
            }
        },
        PhMode::Tag(_) => {
            if text.len() > 0 {
                let seg_text = chars_to_string(text.as_slice());
                let style = stack[stack.len() - 1];
                let ghost segs0 = segs_view(segs@);
                let ghost text0 = text@;
                segs.push(StyledSegment { text: seg_text, style });
                proof {
                    assert(segs_view(segs@) =~= spec_flush(segs0, text0, stack@));
                }
            }
        },
        PhMode::Entity(e) => {
            let e_str = chars_to_string(e.as_slice());
            let decoded = decode_entity(e_str.as_str());
            let mut decoded_chars = str_chars(decoded.as_str());
            text.append(&mut decoded_chars);
            if text.len() > 0 {
                let seg_text = chars_to_string(text.as_slice());
                let style = stack[stack.len() - 1];
                let ghost segs0 = segs_view(segs@);
                let ghost text0 = text@;
                segs.push(StyledSegment { text: seg_text, style });
                proof {
                    assert(segs_view(segs@) =~= spec_flush(segs0, text0, stack@));
                }
            }
        },
    }
    segs
}

/// Parses a notification body: the body is sanitized (supported tags kept,
/// break tags to newlines, links onto their own line) and converted into
/// styled segments for the presentation layer's rich text.
pub fn parse_body(html: &str) -> (r: Vec<StyledSegment>)
    ensures
        segs_view(r@) == spec_parse_html(cleaned_of(spec_preprocess(html@))),
{
    let sanitized = sanitize(html);
    parse_html(sanitized.as_str())
}

} // verus!
