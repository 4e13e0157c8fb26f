//! Looking into text: equality, prefixes, cutting at a separator, trimming.
//!
//! Every function here states its result over the characters of the text; the
//! bytes that the code walks through stay inside.

use vstd::prelude::*;
use vstd::string::*;
use vstd::utf8::*;

verus! {

/// The characters of a text that may be missing.
pub open spec fn view_str(text: Option<&str>) -> Option<Seq<char>> {
    match text {
        Some(t) => Some(t@),
        None => None,
    }
}

/// The characters of an owned text that may be missing.
pub open spec fn view_string(text: Option<String>) -> Option<Seq<char>> {
    match text {
        Some(t) => Some(t@),
        None => None,
    }
}

/// Two texts with the same UTF-8 bytes are the same text.
pub proof fn lemma_utf8_injective(a: Seq<char>, b: Seq<char>)
    requires
        encode_utf8(a) == encode_utf8(b),
    ensures
        a == b,
{
    encode_utf8_decode_utf8(a);
    encode_utf8_decode_utf8(b);
}

/// The bytes of a joined text are the joined bytes, and the seam is a
/// character boundary.
pub proof fn lemma_utf8_concat(a: Seq<char>, b: Seq<char>)
    ensures
        encode_utf8(a + b) == encode_utf8(a) + encode_utf8(b),
        is_char_boundary(encode_utf8(a + b), encode_utf8(a).len() as int),
    decreases a.len(),
{
    encode_utf8_valid_utf8(a + b);
    if a.len() == 0 {
        assert(a + b =~= b);
        assert(encode_utf8(a) + encode_utf8(b) =~= encode_utf8(b));
        is_char_boundary_start_end_of_seq(encode_utf8(b));
    } else {
        let rest = a.drop_first();
        assert((a + b).drop_first() =~= rest + b);
        lemma_utf8_concat(rest, b);
        assert(encode_utf8(a + b) =~= encode_utf8(a) + encode_utf8(b));
        encode_utf8_first_scalar(a + b);
        let bytes = encode_utf8(a + b);
        assert(pop_first_scalar(bytes) =~= encode_utf8(rest + b));
        assert(encode_utf8(a).len() == length_of_first_scalar(bytes) + encode_utf8(rest).len());
    }
}

/// A single ASCII character is encoded as its own byte.
pub proof fn lemma_utf8_ascii_char(c: char)
    requires
        c as u32 <= 0x7f,
    ensures
        encode_utf8(seq![c]) == seq![c as u8],
{
    is_ascii_chars_encode_utf8(seq![c]);
    assert(encode_utf8(seq![c]) =~= seq![c as u8]);
}

/// If the bytes of a text lack an ASCII byte, the text lacks that character.
proof fn lemma_no_byte_no_char(text: Seq<char>, c: char)
    requires
        c as u32 <= 0x7f,
        !encode_utf8(text).contains(c as u8),
    ensures
        !text.contains(c),
{
    if text.contains(c) {
        let i = text.index_of(c);
        let before = text.take(i);
        let after = text.skip(i + 1);
        assert(text =~= before + (seq![c] + after));
        lemma_utf8_concat(before, seq![c] + after);
        lemma_utf8_concat(seq![c], after);
        lemma_utf8_ascii_char(c);
        let at = encode_utf8(before).len() as int;
        assert(encode_utf8(text)[at] == c as u8);
        assert(encode_utf8(text).contains(c as u8));
    }
}

/// Cuts a text at a character boundary.
fn cut_at<'a>(text: &'a str, at: usize) -> (parts: (&'a str, &'a str))
    requires
        is_char_boundary(text.spec_bytes(), at as int),
    ensures
        text@ == parts.0@ + parts.1@,
        parts.0.spec_bytes() == text.spec_bytes().subrange(0, at as int),
        parts.1.spec_bytes() == text.spec_bytes().subrange(
            at as int,
            text.spec_bytes().len() as int,
        ),
{
    let parts = text.split_at(at);
    proof {
        encode_utf8_valid_utf8(text@);
        decode_utf8_split(text.spec_bytes(), at as int);
        encode_utf8_decode_utf8(text@);
        encode_utf8_decode_utf8(parts.0@);
        encode_utf8_decode_utf8(parts.1@);
    }
    parts
}

/// Whether two texts are the same.
pub fn same_text(a: &str, b: &str) -> (same: bool)
    ensures
        same == (a@ == b@),
{
    let x = a.as_bytes();
    let y = b.as_bytes();
    if x.len() != y.len() {
        return false;
    }
    let mut i: usize = 0;
    while i < x.len()
        invariant
            i <= x@.len(),
            x@.len() == y@.len(),
            x@ == a.spec_bytes(),
            y@ == b.spec_bytes(),
            forall|k: int| 0 <= k < i ==> x@[k] == y@[k],
        decreases x@.len() - i,
    {
        if x[i] != y[i] {
            return false;
        }
        i += 1;
    }
    proof {
        assert(x@ =~= y@);
        lemma_utf8_injective(a@, b@);
    }
    true
}

/// What stands behind a prefix, if the text has the prefix.
pub open spec fn after_prefix(text: Seq<char>, prefix: Seq<char>) -> Option<Seq<char>> {
    if prefix.is_prefix_of(text) {
        Some(text.skip(prefix.len() as int))
    } else {
        None
    }
}

/// What stands behind `prefix` in `text`, if `text` starts with it.
pub fn strip_prefix<'a>(text: &'a str, prefix: &str) -> (rest: Option<&'a str>)
    ensures
        rest is Some <==> prefix@.is_prefix_of(text@),
        rest matches Some(r) ==> text@ == prefix@ + r@,
        rest matches Some(r) ==> after_prefix(text@, prefix@) == Some(r@),
{
    let whole = text.as_bytes();
    let wanted = prefix.as_bytes();
    let at: usize = wanted.len();
    proof {
        if prefix@.is_prefix_of(text@) {
            let rest = text@.skip(prefix@.len() as int);
            assert(text@ =~= prefix@ + rest);
            lemma_utf8_concat(prefix@, rest);
        }
    }
    if at > whole.len() || !text.is_char_boundary(at) {
        return None;
    }
    let mut i: usize = 0;
    while i < at
        invariant
            i <= at == wanted@.len() <= whole@.len(),
            whole@ == text.spec_bytes(),
            wanted@ == prefix.spec_bytes(),
            prefix@.is_prefix_of(text@) ==> wanted@.is_prefix_of(whole@),
            forall|k: int| 0 <= k < i ==> whole@[k] == wanted@[k],
        decreases at - i,
    {
        if whole[i] != wanted[i] {
            return None;
        }
        i += 1;
    }
    let parts = cut_at(text, at);
    proof {
        assert(parts.0.spec_bytes() =~= prefix.spec_bytes());
        lemma_utf8_injective(parts.0@, prefix@);
        assert(text@.skip(prefix@.len() as int) =~= parts.1@);
    }
    Some(parts.1)
}

/// Whether `text` starts with `prefix`.
pub fn starts_with(text: &str, prefix: &str) -> (yes: bool)
    ensures
        yes == prefix@.is_prefix_of(text@),
{
    strip_prefix(text, prefix).is_some()
}

/// Cuts a text at the first `sep`: the part before it, and, if there is a
/// `sep`, the part behind it.
pub open spec fn cut(text: Seq<char>, sep: char) -> (Seq<char>, Option<Seq<char>>) {
    match text.index_of_first(sep) {
        Some(i) => (text.take(i), Some(text.skip(i + 1))),
        None => (text, None),
    }
}

/// The parts of a text between its separators, in order; at least one.
pub open spec fn split(text: Seq<char>, sep: char) -> Seq<Seq<char>>
    decreases text.len(),
{
    match cut(text, sep).1 {
        Some(rest) if rest.len() < text.len() => seq![cut(text, sep).0] + split(rest, sep),
        _ => seq![text],
    }
}

/// A text that is `head`, `sep` and `tail`, with no `sep` in `head`, is cut
/// into `head` and `tail`.
pub proof fn lemma_cut(head: Seq<char>, sep: char, tail: Seq<char>)
    requires
        !head.contains(sep),
    ensures
        cut(head + (seq![sep] + tail), sep) == (head, Some(tail)),
        split(head + (seq![sep] + tail), sep) == seq![head] + split(tail, sep),
{
    let text = head + (seq![sep] + tail);
    let i = head.len() as int;
    assert(text[i] == sep);
    assert(text.contains(sep));
    text.index_of_first_ensures(sep);
    let j = text.index_of_first(sep)->0;
    if j < i {
        assert(head[j] == sep);
    }
    assert(text.take(i) =~= head);
    assert(text.skip(i + 1) =~= tail);
}

/// A text without `sep` is one part.
pub proof fn lemma_cut_absent(text: Seq<char>, sep: char)
    requires
        !text.contains(sep),
    ensures
        cut(text, sep) == (text, None::<Seq<char>>),
        split(text, sep) == seq![text],
{
    text.index_of_first_ensures(sep);
}

/// Cuts `text` at the first `sep`, an ASCII character.
pub fn cut_text<'a>(text: &'a str, sep: char) -> (parts: (&'a str, Option<&'a str>))
    requires
        sep as u32 <= 0x7f,
    ensures
        parts.0@ == cut(text@, sep).0,
        parts.1 is Some <==> cut(text@, sep).1 is Some,
        parts.1 matches Some(rest) ==> cut(text@, sep).1 == Some(rest@),
        parts.1 matches Some(rest) ==> rest.spec_bytes().len() < text.spec_bytes().len(),
        parts.1 matches Some(rest) ==> rest@.len() < text@.len(),
{
    let bytes = text.as_bytes();
    let mark: u8 = sep as u8;
    let mut i: usize = 0;
    while i < bytes.len()
        invariant
            i <= bytes@.len(),
            bytes@ == text.spec_bytes(),
            forall|k: int| 0 <= k < i ==> bytes@[k] != mark,
            sep as u32 <= 0x7f,
        ensures
            i <= bytes@.len(),
            forall|k: int| 0 <= k < i ==> bytes@[k] != mark,
            i < bytes@.len() ==> bytes@[i as int] == mark,
        decreases bytes@.len() - i,
    {
        if bytes[i] == mark {
            break;
        }
        i += 1;
    }
    proof {
        encode_utf8_valid_utf8(text@);
    }
    if i == bytes.len() {
        proof {
            lemma_no_byte_no_char(text@, sep);
            lemma_cut_absent(text@, sep);
        }
        return (text, None);
    }
    proof {
        is_char_boundary_iff_not_is_continuation_byte(bytes@, i as int);
    }
    let (head, behind) = cut_at(text, i);
    proof {
        encode_utf8_valid_utf8(behind@);
        assert(behind.spec_bytes()[0] == mark);
        let popped = pop_first_scalar(behind.spec_bytes());
        is_char_boundary_start_end_of_seq(popped);
        assert(is_char_boundary(behind.spec_bytes(), 1));
    }
    let (cutter, tail) = cut_at(behind, 1);
    proof {
        lemma_utf8_ascii_char(sep);
        assert(cutter.spec_bytes() =~= seq![mark]);
        lemma_utf8_injective(cutter@, seq![sep]);
        assert(text@ =~= head@ + (seq![sep] + tail@));
        assert(!head.spec_bytes().contains(mark));
        lemma_no_byte_no_char(head@, sep);
        lemma_cut(head@, sep, tail@);
    }
    (head, Some(tail))
}

/// Blanks around a list item: spaces and tabs.
pub open spec fn is_blank(c: char) -> bool {
    c == ' ' || c == '\t'
}

/// A text without its leading blanks.
pub open spec fn trim_start(text: Seq<char>) -> Seq<char>
    decreases text.len(),
{
    if text.len() > 0 && is_blank(text[0]) {
        trim_start(text.drop_first())
    } else {
        text
    }
}

/// A text without its trailing blanks.
pub open spec fn trim_end(text: Seq<char>) -> Seq<char>
    decreases text.len(),
{
    if text.len() > 0 && is_blank(text.last()) {
        trim_end(text.drop_last())
    } else {
        text
    }
}

/// A text without the blanks around it.
pub open spec fn trim(text: Seq<char>) -> Seq<char> {
    trim_end(trim_start(text))
}

/// What is left of `text` behind a leading blank.
fn without_first_blank<'a>(text: &'a str) -> (rest: Option<&'a str>)
    ensures
        rest is Some <==> text@.len() > 0 && is_blank(text@[0]),
        rest matches Some(r) ==> r@ == text@.drop_first(),
{
    proof {
        reveal_strlit(" ");
        reveal_strlit("\t");
        assert(" "@ =~= seq![' ']);
        assert("\t"@ =~= seq!['\t']);
    }
    let rest = match strip_prefix(text, " ") {
        Some(rest) => Some(rest),
        None => strip_prefix(text, "\t"),
    };
    proof {
        if let Some(r) = rest {
            assert(r@ =~= text@.drop_first());
        }
        if text@.len() > 0 && is_blank(text@[0]) {
            assert(" "@.is_prefix_of(text@) || "\t"@.is_prefix_of(text@));
        }
    }
    rest
}

/// What is left of `text` before a trailing blank.
fn without_last_blank<'a>(text: &'a str) -> (rest: Option<&'a str>)
    ensures
        rest is Some <==> text@.len() > 0 && is_blank(text@.last()),
        rest matches Some(r) ==> r@ == text@.drop_last(),
{
    let bytes = text.as_bytes();
    let len: usize = bytes.len();
    proof {
        encode_utf8_valid_utf8(text@);
        if text@.len() > 0 && is_blank(text@.last()) {
            let c = text@.last();
            assert(text@ =~= text@.drop_last() + seq![c]);
            lemma_utf8_concat(text@.drop_last(), seq![c]);
            lemma_utf8_ascii_char(c);
            assert(bytes@.last() == c as u8);
        }
    }
    if len == 0 || (bytes[len - 1] != ' ' as u8 && bytes[len - 1] != '\t' as u8) {
        return None;
    }
    proof {
        is_char_boundary_iff_not_is_continuation_byte(bytes@, len - 1);
    }
    let (front, blank) = cut_at(text, len - 1);
    proof {
        let c = bytes@[len - 1] as char;
        lemma_utf8_ascii_char(c);
        assert(blank.spec_bytes() =~= seq![c as u8]);
        lemma_utf8_injective(blank@, seq![c]);
        assert(text@.drop_last() =~= front@);
    }
    Some(front)
}

/// `text` without the blanks around it.
pub fn trim_text<'a>(text: &'a str) -> (trimmed: &'a str)
    ensures
        trimmed@ == trim(text@),
{
    let mut rest: &'a str = text;
    let mut more: bool = true;
    while more
        invariant
            trim_start(rest@) == trim_start(text@),
            !more ==> rest@ == trim_start(text@),
        decreases rest@.len() + (if more { 1int } else { 0int }),
    {
        match without_first_blank(rest) {
            Some(shorter) => {
                rest = shorter;
            },
            None => {
                more = false;
            },
        }
    }
    more = true;
    while more
        invariant
            trim_end(rest@) == trim(text@),
            !more ==> rest@ == trim(text@),
        decreases rest@.len() + (if more { 1int } else { 0int }),
    {
        match without_last_blank(rest) {
            Some(shorter) => {
                rest = shorter;
            },
            None => {
                more = false;
            },
        }
    }
    rest
}

/// Trimming takes the blanks on both sides, and nothing else.
pub proof fn law_trim_takes_the_blanks(before: Seq<char>, core: Seq<char>, after: Seq<char>)
    requires
        forall|i: int| 0 <= i < before.len() ==> #[trigger] before[i] == ' ' || before[i] == '\t',
        forall|i: int| 0 <= i < after.len() ==> #[trigger] after[i] == ' ' || after[i] == '\t',
        core.len() > 0 ==> core[0] != ' ' && core[0] != '\t',
        core.len() > 0 ==> core.last() != ' ' && core.last() != '\t',
    ensures
        trim(before + core + after) == core,
    decreases before.len() + after.len(),
{
    let whole = before + core + after;
    if before.len() > 0 {
        let fewer = before.drop_first();
        assert forall|i: int| 0 <= i < fewer.len() implies #[trigger] fewer[i] == ' ' || fewer[i]
            == '\t' by {
            assert(fewer[i] == before[i + 1]);
        }
        assert(before[0] == ' ' || before[0] == '\t');
        assert(whole[0] == before[0]);
        assert(whole.drop_first() =~= fewer + core + after);
        law_trim_takes_the_blanks(fewer, core, after);
    } else if core.len() > 0 {
        assert(whole =~= core + after);
        assert(whole[0] == core[0]);
        lemma_trim_end(core, after);
    } else if after.len() > 0 {
        let fewer = after.drop_first();
        assert forall|i: int| 0 <= i < fewer.len() implies #[trigger] fewer[i] == ' ' || fewer[i]
            == '\t' by {
            assert(fewer[i] == after[i + 1]);
        }
        assert(after[0] == ' ' || after[0] == '\t');
        assert(whole =~= after);
        assert(whole.drop_first() =~= before + core + fewer);
        law_trim_takes_the_blanks(before, core, fewer);
    } else {
        assert(whole =~= core);
    }
}

/// Trailing blanks go, and nothing else.
proof fn lemma_trim_end(core: Seq<char>, after: Seq<char>)
    requires
        forall|i: int| 0 <= i < after.len() ==> #[trigger] after[i] == ' ' || after[i] == '\t',
        core.len() > 0 ==> core.last() != ' ' && core.last() != '\t',
    ensures
        trim_end(core + after) == core,
    decreases after.len(),
{
    let whole = core + after;
    if after.len() > 0 {
        let fewer = after.drop_last();
        assert forall|i: int| 0 <= i < fewer.len() implies #[trigger] fewer[i] == ' ' || fewer[i]
            == '\t' by {
            assert(fewer[i] == after[i]);
        }
        assert(whole.last() == after[after.len() - 1]);
        assert(whole.drop_last() =~= core + fewer);
        lemma_trim_end(core, fewer);
    } else {
        assert(whole =~= core);
    }
}

/// What stands behind a prefix makes up the text together with it.
pub proof fn law_prefix_and_rest_make_the_text(text: Seq<char>, prefix: Seq<char>, rest: Seq<char>)
    ensures
        after_prefix(text, prefix) == Some(rest) <==> text == prefix + rest,
{
    if text == prefix + rest {
        assert(text.skip(prefix.len() as int) =~= rest);
        assert(prefix.is_prefix_of(text));
    }
    if after_prefix(text, prefix) == Some(rest) {
        assert(text =~= prefix + rest);
    }
}

/// A text is seen with all its characters, and none where there is none.
pub proof fn law_views_keep_the_text(text: &str, owned: String)
    ensures
        view_str(Some(text)) == Some(text@),
        view_str(None) is None,
        view_string(Some(owned)) == Some(owned@),
        view_string(None) is None,
{
}

} // verus!
