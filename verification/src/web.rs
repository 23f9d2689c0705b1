//! HTML escaping, username validation and page templating shared by every page.
use vstd::prelude::*;
use crate::text::{
    chars_of, lemma_replaced_char_absent, lemma_replaced_char_concat, lemma_replaced_char_single,
    push_char, replace, replaced,
};
use vstd::string::StringSliceAdditionalSpecFns;
use vstd::utf8::{encode_scalar, encode_utf8, has_width_1_encoding, is_ascii_chars, is_ascii_chars_encode_utf8};

verus! {

broadcast use vstd::string::group_string_axioms;

/// The HTML text that stands for one character: the five characters that
/// are significant in markup become character references, every other
/// character stands for itself.
pub open spec fn escape_char(c: char) -> Seq<char> {
    if c == '&' {
        "&amp;"@
    } else if c == '<' {
        "&lt;"@
    } else if c == '>' {
        "&gt;"@
    } else if c == '"' {
        "&quot;"@
    } else if c == '\'' {
        "&#39;"@
    } else {
        seq![c]
    }
}

/// `s` escaped for HTML text and attribute values, character by character.
pub open spec fn escaped(s: Seq<char>) -> Seq<char>
    decreases s.len(),
{
    if s.len() == 0 {
        Seq::empty()
    } else {
        escaped(s.drop_last()) + escape_char(s.last())
    }
}

/// Escapes `value` for inclusion in HTML.
pub fn escape(value: &str) -> (r: String)
    ensures
        r@ == escaped(value@),
{
    let cs = chars_of(value);
    let mut r = String::new();
    for i in 0..cs.len()
        invariant
            cs@ == value@,
            r@ == escaped(cs@.take(i as int)),
    {
        let c = cs[i];
        if c == '&' {
            r.append("&amp;");
        } else if c == '<' {
            r.append("&lt;");
        } else if c == '>' {
            r.append("&gt;");
        } else if c == '"' {
            r.append("&quot;");
        } else if c == '\'' {
            r.append("&#39;");
        } else {
            push_char(&mut r, c);
        }
        assert(cs@.take(i + 1).drop_last() =~= cs@.take(i as int));
    }
    assert(cs@.take(cs.len() as int) =~= cs@);
    r
}

/// The ASCII code of `a`.
pub const ASCII_LOWER_A: u8 = 97;
/// The ASCII code of `z`.
pub const ASCII_LOWER_Z: u8 = 122;
/// The ASCII code of `0`.
pub const ASCII_DIGIT_0: u8 = 48;
/// The ASCII code of `9`.
pub const ASCII_DIGIT_9: u8 = 57;
/// The ASCII code of `_`.
pub const ASCII_UNDERSCORE: u8 = 95;
/// The ASCII code of `-`.
pub const ASCII_HYPHEN: u8 = 45;

/// Whether a byte may start a username: a lowercase ASCII letter or `_`.
pub open spec fn username_start(b: u8) -> bool {
    (ASCII_LOWER_A <= b <= ASCII_LOWER_Z) || b == ASCII_UNDERSCORE
}

/// Whether a byte may follow the first one in a username: a lowercase ASCII
/// letter, an ASCII digit, `_` or `-`.
pub open spec fn username_rest(b: u8) -> bool {
    (ASCII_LOWER_A <= b <= ASCII_LOWER_Z) || (ASCII_DIGIT_0 <= b <= ASCII_DIGIT_9) || b == ASCII_UNDERSCORE || b == ASCII_HYPHEN
}

/// A portable Unix username, judged on its UTF-8 bytes: one to 32 bytes, the
/// first a lowercase letter or `_`, the others lowercase letters, digits,
/// `_` or `-`.
pub open spec fn is_valid_username(bytes: Seq<u8>) -> bool {
    &&& 1 <= bytes.len() <= 32
    &&& username_start(bytes[0])
    &&& forall|i: int| 1 <= i < bytes.len() ==> username_rest(#[trigger] bytes[i])
}

/// Whether `username` is a portable Unix username.
pub fn valid_username(username: &str) -> (r: bool)
    ensures
        r == is_valid_username(username.spec_bytes()),
{
    if username.is_empty() || username.len() > 32 {
        return false;
    }
    let bytes = username.as_bytes();
    assert(vstd::utf8::encode_scalar(username@[0] as u32).len() > 0);
    let first = bytes[0];
    if !((ASCII_LOWER_A <= first && first <= ASCII_LOWER_Z) || first == ASCII_UNDERSCORE) {
        return false;
    }
    let mut i: usize = 1;
    while i < bytes.len()
        invariant
            bytes@ == username.spec_bytes(),
            1 <= i <= bytes@.len(),
            forall|j: int| 1 <= j < i ==> username_rest(#[trigger] bytes@[j]),
        decreases bytes.len() - i,
    {
        let b = bytes[i];
        if !((ASCII_LOWER_A <= b && b <= ASCII_LOWER_Z) || (ASCII_DIGIT_0 <= b && b <= ASCII_DIGIT_9) || b == ASCII_UNDERSCORE || b == ASCII_HYPHEN) {
            return false;
        }
        i = i + 1;
    }
    true
}

/// The page made from `template`: every `{{TITLE}}` becomes the escaped
/// title, then every `{{CONTENT}}` in the result becomes `content`.
pub open spec fn page_text(template: Seq<char>, title: Seq<char>, content: Seq<char>) -> Seq<char> {
    replaced(replaced(template, "{{TITLE}}"@, escaped(title)), "{{CONTENT}}"@, content)
}

/// Fills a page template with a title, which is escaped, and with content,
/// which is inserted as it is.
pub fn page(template: &str, title: &str, content: &str) -> (r: String)
    ensures
        r@ == page_text(template@, title@, content@),
{
    proof {
        reveal_strlit("{{TITLE}}");
        reveal_strlit("{{CONTENT}}");
    }
    let escaped_title = escape(title);
    let titled = replace(template, "{{TITLE}}", escaped_title.as_str());
    replace(titled.as_str(), "{{CONTENT}}", content)
}

/// Escaping distributes over concatenation.
pub proof fn law_escape_concat(a: Seq<char>, b: Seq<char>)
    ensures
        escaped(a + b) == escaped(a) + escaped(b),
    decreases b.len(),
{
    if b.len() == 0 {
        assert(a + b =~= a);
        assert(escaped(a) + escaped(b) =~= escaped(a));
    } else {
        law_escape_concat(a, b.drop_last());
        assert((a + b).drop_last() =~= a + b.drop_last());
        assert(escaped(a + b) =~= escaped(a) + escaped(b));
    }
}

/// Escaped text holds none of `<`, `>`, `"` and `'`, so it can neither open
/// or close a tag nor end an attribute value.
pub proof fn law_escaped_is_inert(s: Seq<char>)
    ensures
        forall|i: int|
            0 <= i < escaped(s).len() ==> {
                let c = #[trigger] escaped(s)[i];
                c != '<' && c != '>' && c != '"' && c != '\''
            },
    decreases s.len(),
{
    if s.len() > 0 {
        law_escaped_is_inert(s.drop_last());
        reveal_strlit("&amp;");
        reveal_strlit("&lt;");
        reveal_strlit("&gt;");
        reveal_strlit("&quot;");
        reveal_strlit("&#39;");
        let prefix = escaped(s.drop_last());
        let last = escape_char(s.last());
        assert forall|i: int| 0 <= i < escaped(s).len() implies {
            let c = #[trigger] escaped(s)[i];
            c != '<' && c != '>' && c != '"' && c != '\''
        } by {
            if i < prefix.len() {
                assert(escaped(s)[i] == prefix[i]);
            } else {
                assert(escaped(s)[i] == last[i - prefix.len()]);
            }
        }
    }
}

/// Whether a character may start a username.
pub open spec fn username_start_char(c: char) -> bool {
    ('a' <= c <= 'z') || c == '_'
}

/// Whether a character may follow the first one in a username.
pub open spec fn username_rest_char(c: char) -> bool {
    ('a' <= c <= 'z') || ('0' <= c <= '9') || c == '_' || c == '-'
}

/// A portable Unix username, judged on its characters.
pub open spec fn is_valid_username_chars(name: Seq<char>) -> bool {
    &&& 1 <= name.len() <= 32
    &&& username_start_char(name[0])
    &&& forall|i: int| 1 <= i < name.len() ==> username_rest_char(#[trigger] name[i])
}

proof fn lemma_ascii_bytes_ascii_chars(name: Seq<char>)
    requires
        forall|i: int| 0 <= i < encode_utf8(name).len() ==> #[trigger] encode_utf8(name)[i] < 0x80,
    ensures
        is_ascii_chars(name),
    decreases name.len(),
{
    if name.len() > 0 {
        let first = encode_scalar(name[0] as u32);
        let rest = encode_utf8(name.drop_first());
        assert(encode_utf8(name) == first + rest);
        assert forall|i: int| 0 <= i < rest.len() implies #[trigger] rest[i] < 0x80 by {
            assert(encode_utf8(name)[first.len() + i] == rest[i]);
        }
        lemma_ascii_bytes_ascii_chars(name.drop_first());
        let v = name[0] as u32;
        assert(encode_utf8(name)[0] == first[0]);
        assert((0xC0u8 | ((v >> 6) & 0x1F) as u8) >= 0x80) by (bit_vector);
        assert((0xE0u8 | ((v >> 12) & 0x0F) as u8) >= 0x80) by (bit_vector);
        assert((0xF0u8 | ((v >> 18) & 0x07) as u8) >= 0x80) by (bit_vector);
        assert(has_width_1_encoding(v));
        assert forall|i: int| 0 <= i < name.len() implies '\0' <= #[trigger] name[i] <= '\u{7f}' by {
            if i > 0 {
                assert(name[i] == name.drop_first()[i - 1]);
            } else {
                vstd::utf8::char_u32_cast(name[0], v);
                assert(v <= 0x7f);
                assert((v as char) <= '\u{7f}');
            }
        }
    }
}

/// The byte-wise check of a username accepts exactly the names whose
/// characters pass the same check; in particular every accepted name is
/// ASCII.
pub proof fn law_username_chars(name: Seq<char>)
    ensures
        is_valid_username(encode_utf8(name)) <==> is_valid_username_chars(name),
        is_valid_username(encode_utf8(name)) <==> {
            &&& 1 <= name.len() <= 32
            &&& ('a' <= name[0] <= 'z' || name[0] == '_')
            &&& forall|i: int|
                1 <= i < name.len() ==> {
                    let c = #[trigger] name[i];
                    'a' <= c <= 'z' || '0' <= c <= '9' || c == '_' || c == '-'
                }
        },
        is_valid_username(encode_utf8(name)) ==> is_ascii_chars(name),
{
    let bytes = encode_utf8(name);
    if is_valid_username(bytes) {
        assert forall|i: int| 0 <= i < bytes.len() implies #[trigger] bytes[i] < 0x80 by {
            if i > 0 {
                assert(username_rest(bytes[i]));
            }
        }
        lemma_ascii_bytes_ascii_chars(name);
    }
    if is_valid_username_chars(name) {
        assert(is_ascii_chars(name)) by {
            assert forall|i: int| 0 <= i < name.len() implies '\0' <= #[trigger] name[i] <= '\u{7f}' by {
                if i > 0 {
                    assert(username_rest_char(name[i]));
                }
            }
        }
    }
    if is_ascii_chars(name) {
        is_ascii_chars_encode_utf8(name);
        assert forall|i: int| 0 <= i < name.len() implies (#[trigger] name[i] as u32) == bytes[i] as u32 by {
            assert(name[i] as u8 == bytes[i]);
        }
    }
}

/// `s` with `&`, `<`, `>`, `"` and `'` replaced in turn, each throughout
/// the result of the replacement before.
pub open spec fn replaced_in_turn(s: Seq<char>) -> Seq<char> {
    replaced(
        replaced(
            replaced(replaced(replaced(s, "&"@, "&amp;"@), "<"@, "&lt;"@), ">"@, "&gt;"@),
            "\""@,
            "&quot;"@,
        ),
        "'"@,
        "&#39;"@,
    )
}

proof fn lemma_in_turn_concat(a: Seq<char>, b: Seq<char>)
    ensures
        replaced_in_turn(a + b) == replaced_in_turn(a) + replaced_in_turn(b),
{
    reveal_strlit("&");
    reveal_strlit("<");
    reveal_strlit(">");
    reveal_strlit("\"");
    reveal_strlit("'");
    assert("&"@ =~= seq!['&']);
    assert("<"@ =~= seq!['<']);
    assert(">"@ =~= seq!['>']);
    assert("\""@ =~= seq!['"']);
    assert("'"@ =~= seq!['\'']);
    let a1 = replaced(a, "&"@, "&amp;"@);
    let b1 = replaced(b, "&"@, "&amp;"@);
    lemma_replaced_char_concat(a, b, '&', "&amp;"@);
    let a2 = replaced(a1, "<"@, "&lt;"@);
    let b2 = replaced(b1, "<"@, "&lt;"@);
    lemma_replaced_char_concat(a1, b1, '<', "&lt;"@);
    let a3 = replaced(a2, ">"@, "&gt;"@);
    let b3 = replaced(b2, ">"@, "&gt;"@);
    lemma_replaced_char_concat(a2, b2, '>', "&gt;"@);
    let a4 = replaced(a3, "\""@, "&quot;"@);
    let b4 = replaced(b3, "\""@, "&quot;"@);
    lemma_replaced_char_concat(a3, b3, '"', "&quot;"@);
    lemma_replaced_char_concat(a4, b4, '\'', "&#39;"@);
}

proof fn lemma_absent_steps(t: Seq<char>, from: int)
    requires
        0 <= from <= 4,
        forall|i: int| 0 <= i < t.len() ==> {
            let c = #[trigger] t[i];
            (from <= 0 ==> c != '&') && (from <= 1 ==> c != '<') && (from <= 2 ==> c != '>')
                && (from <= 3 ==> c != '"') && c != '\''
        },
    ensures
        from <= 0 ==> replaced(t, seq!['&'], "&amp;"@) == t,
        from <= 1 ==> replaced(t, seq!['<'], "&lt;"@) == t,
        from <= 2 ==> replaced(t, seq!['>'], "&gt;"@) == t,
        from <= 3 ==> replaced(t, seq!['"'], "&quot;"@) == t,
        replaced(t, seq!['\''], "&#39;"@) == t,
{
    if from <= 0 {
        lemma_replaced_char_absent(t, '&', "&amp;"@);
    }
    if from <= 1 {
        lemma_replaced_char_absent(t, '<', "&lt;"@);
    }
    if from <= 2 {
        lemma_replaced_char_absent(t, '>', "&gt;"@);
    }
    if from <= 3 {
        lemma_replaced_char_absent(t, '"', "&quot;"@);
    }
    lemma_replaced_char_absent(t, '\'', "&#39;"@);
}

proof fn lemma_in_turn_single(c: char)
    ensures
        replaced_in_turn(seq![c]) == escape_char(c),
{
    reveal_strlit("&");
    reveal_strlit("<");
    reveal_strlit(">");
    reveal_strlit("\"");
    reveal_strlit("'");
    reveal_strlit("&amp;");
    reveal_strlit("&lt;");
    reveal_strlit("&gt;");
    reveal_strlit("&quot;");
    reveal_strlit("&#39;");
    assert("&"@ =~= seq!['&']);
    assert("<"@ =~= seq!['<']);
    assert(">"@ =~= seq!['>']);
    assert("\""@ =~= seq!['"']);
    assert("'"@ =~= seq!['\'']);
    lemma_replaced_char_single(c, '&', "&amp;"@);
    if c == '&' {
        lemma_absent_steps("&amp;"@, 1);
    } else {
        lemma_replaced_char_single(c, '<', "&lt;"@);
        if c == '<' {
            lemma_absent_steps("&lt;"@, 2);
        } else {
            lemma_replaced_char_single(c, '>', "&gt;"@);
            if c == '>' {
                lemma_absent_steps("&gt;"@, 3);
            } else {
                lemma_replaced_char_single(c, '"', "&quot;"@);
                if c == '"' {
                    lemma_absent_steps("&quot;"@, 4);
                } else {
                    lemma_replaced_char_single(c, '\'', "&#39;"@);
                }
            }
        }
    }
}

/// Escaping a character at a time is the same as replacing `&`, `<`, `>`,
/// `"` and `'` in turn throughout the text: `&` first, so that the `&` of
/// the references put in later is not escaped again.
pub proof fn law_escape_is_replacement_in_turn(s: Seq<char>)
    ensures
        escaped(s) == replaced_in_turn(s),
        escaped(s) == replaced(
            replaced(
                replaced(replaced(replaced(s, "&"@, "&amp;"@), "<"@, "&lt;"@), ">"@, "&gt;"@),
                "\""@,
                "&quot;"@,
            ),
            "'"@,
            "&#39;"@,
        ),
    decreases s.len(),
{
    if s.len() == 0 {
        reveal_strlit("&");
        reveal_strlit("<");
        reveal_strlit(">");
        reveal_strlit("\"");
        reveal_strlit("'");
        assert(replaced_in_turn(s) =~= Seq::<char>::empty());
    } else {
        law_escape_is_replacement_in_turn(s.drop_last());
        assert(s =~= s.drop_last() + seq![s.last()]);
        lemma_in_turn_concat(s.drop_last(), seq![s.last()]);
        lemma_in_turn_single(s.last());
    }
}

/// HTML escaping is written a character at a time: `&`, `<`, `>`, `"` and
/// `'` become character references, every other character stands for
/// itself.
pub proof fn law_escape_by_character(a: Seq<char>, b: Seq<char>, c: char)
    ensures
        escaped(a + b) == escaped(a) + escaped(b),
        (c != '&' && c != '<' && c != '>' && c != '"' && c != '\'') ==> escaped(seq![c]) == seq![c],
        escaped(seq!['&']) == "&amp;"@,
        escaped(seq!['<']) == "&lt;"@,
        escaped(seq!['>']) == "&gt;"@,
        escaped(seq!['"']) == "&quot;"@,
        escaped(seq!['\'']) == "&#39;"@,
{
    law_escape_concat(a, b);
    assert forall|x: char| #[trigger] escaped(seq![x]) == escape_char(x) by {
        assert(seq![x].drop_last() =~= Seq::<char>::empty());
        assert(seq![x].last() == x);
        assert(escaped(Seq::<char>::empty()) =~= Seq::<char>::empty());
        assert(escaped(seq![x]) =~= escape_char(x));
    }
}

} // verus!
