//! Text primitives: what the rest of the library needs from strings, each with its meaning
//! over sequences of characters.
use vstd::prelude::*;

verus! {

/// `String::push` adds one character at the end.
pub assume_specification[ std::string::String::push ](s: &mut std::string::String, c: char)
    ensures
        final(s)@ == old(s)@.push(c),
;

/// What is left of `s` once `prefix` is taken from its front, if it starts with it.
pub open spec fn stripped(s: Seq<char>, prefix: Seq<char>) -> Option<Seq<char>> {
    if prefix.is_prefix_of(s) {
        Some(s.skip(prefix.len() as int))
    } else {
        None
    }
}

/// Calls `str::strip_prefix`: the text after `prefix` when `s` starts with it, and `None`
/// when it does not.
#[verifier::external_body]
pub(crate) fn strip_prefix<'a>(s: &'a str, prefix: &str) -> (r: Option<&'a str>)
    ensures
        r.deep_view() == stripped(s@, prefix@),
{
    s.strip_prefix(prefix)
}

/// Whether two texts hold the same characters.
pub fn same_text(a: &str, b: &str) -> (r: bool)
    ensures
        r == (a@ == b@),
{
    match strip_prefix(a, b) {
        Some(rest) => {
            proof {
                if rest@.len() == 0 {
                    assert(a@ =~= b@);
                }
            }
            rest.is_empty()
        },
        None => false,
    }
}

/// The character with an ASCII lower-case letter made upper-case.
pub open spec fn ascii_upper(c: char) -> char {
    if 'a' <= c <= 'z' {
        (c as int - 32) as char
    } else {
        c
    }
}

fn char_upper(c: char) -> (r: char)
    ensures
        r == ascii_upper(c),
{
    if 'a' <= c && c <= 'z' {
        (c as u8 - 32) as char
    } else {
        c
    }
}

/// The character with an ASCII upper-case letter made lower-case.
pub open spec fn ascii_lower(c: char) -> char {
    if 'A' <= c <= 'Z' {
        (c as int + 32) as char
    } else {
        c
    }
}

fn char_lower(c: char) -> (r: char)
    ensures
        r == ascii_lower(c),
{
    if 'A' <= c && c <= 'Z' {
        (c as u8 + 32) as char
    } else {
        c
    }
}

/// The text with every ASCII letter in lower case.
pub open spec fn ascii_lower_text(s: Seq<char>) -> Seq<char> {
    s.map_values(|c: char| ascii_lower(c))
}

/// The text with every ASCII letter in lower case.
pub(crate) fn to_ascii_lower(s: &str) -> (r: String)
    ensures
        r@ == ascii_lower_text(s@),
{
    let mut out = String::new();
    for c in it: s.chars()
        invariant
            it.seq() == s@,
            out@ == ascii_lower_text(s@.take(it.index())),
    {
        assert(ascii_lower_text(s@.take(it.index() + 1)) =~= ascii_lower_text(
            s@.take(it.index()),
        ).push(ascii_lower(c)));
        out.push(char_lower(c));
    }
    assert(s@.take(s@.len() as int) == s@);
    out
}

/// The lower-case form of a text by the rules of Unicode, as `str::to_lowercase` gives it.
pub uninterp spec fn unicode_lower(s: Seq<char>) -> Seq<char>;

/// Calls `str::to_lowercase`. On a text of ASCII characters alone its result is the text with
/// every ASCII letter in lower case; on other texts only its name stands for it.
#[verifier::external_body]
pub(crate) fn to_lowercase(s: &str) -> (r: String)
    ensures
        r@ == unicode_lower(s@),
        is_ascii_text(s@) ==> r@ == ascii_lower_text(s@),
{
    s.to_lowercase()
}

/// Whether every character is an ASCII character.
pub open spec fn is_ascii_text(s: Seq<char>) -> bool {
    forall|i: int| 0 <= i < s.len() ==> (#[trigger] s[i] as int) < 128
}

/// Whether the character separates words in a name.
pub open spec fn is_separator(c: char) -> bool {
    c == '-' || c == '_'
}

/// The PascalCase form of a name: the separators are gone, and the first character of each
/// word between them is upper-case.
pub open spec fn pascal_case(s: Seq<char>) -> Seq<char>
    decreases s.len(),
{
    if s.len() == 0 {
        Seq::empty()
    } else {
        let before = pascal_case(s.drop_last());
        if is_separator(s.last()) {
            before
        } else if s.len() == 1 || is_separator(s[s.len() - 2]) {
            before.push(ascii_upper(s.last()))
        } else {
            before.push(s.last())
        }
    }
}

/// Converts a camelCase, kebab-case or snake_case name to PascalCase.
pub fn to_pascal_case(input: &str) -> (r: String)
    ensures
        r@ == pascal_case(input@),
{
    let mut out = String::new();
    let mut at_start: bool = true;
    for c in it: input.chars()
        invariant
            it.seq() == input@,
            out@ == pascal_case(input@.take(it.index())),
            at_start == (it.index() == 0 || is_separator(input@[it.index() - 1])),
    {
        assert(input@.take(it.index() + 1).drop_last() == input@.take(it.index()));
        if c == '-' || c == '_' {
            at_start = true;
        } else if at_start {
            out.push(char_upper(c));
            at_start = false;
        } else {
            out.push(c);
        }
    }
    assert(input@.take(input@.len() as int) == input@);
    out
}

/// What stands after the last slash, or the whole text where there is none.
pub open spec fn last_segment(s: Seq<char>) -> Seq<char>
    decreases s.len(),
{
    if s.len() == 0 || s.last() == '/' {
        Seq::empty()
    } else {
        last_segment(s.drop_last()).push(s.last())
    }
}

/// The text after the last slash.
pub(crate) fn after_last_slash(s: &str) -> (r: String)
    ensures
        r@ == last_segment(s@),
{
    let mut out = String::new();
    for c in it: s.chars()
        invariant
            it.seq() == s@,
            out@ == last_segment(s@.take(it.index())),
    {
        assert(s@.take(it.index() + 1).drop_last() == s@.take(it.index()));
        if c == '/' {
            out = String::new();
        } else {
            out.push(c);
        }
    }
    assert(s@.take(s@.len() as int) == s@);
    out
}

/// The decimal digits of a natural number.
pub open spec fn digits(n: nat) -> Seq<char>
    decreases n,
{
    let last = (48 + n % 10) as char;
    if n < 10 {
        seq![last]
    } else {
        digits(n / 10).push(last)
    }
}

/// The decimal form of an integer.
pub open spec fn decimal(n: int) -> Seq<char> {
    if n < 0 {
        seq!['-'] + digits((-n) as nat)
    } else {
        digits(n as nat)
    }
}

fn digits_text(n: u128) -> (r: String)
    ensures
        r@ == digits(n as nat),
    decreases n,
{
    let mut out = if n < 10 {
        String::new()
    } else {
        digits_text(n / 10)
    };
    out.push((48u8 + (n % 10) as u8) as char);
    assert(n < 10 ==> out@ =~= digits(n as nat));
    out
}

/// The decimal form of an integer of up to 64 bits.
pub(crate) fn decimal_text(n: i128) -> (r: String)
    requires
        i64::MIN <= n <= u64::MAX,
    ensures
        r@ == decimal(n as int),
{
    if n < 0 {
        let mut out = String::new();
        out.push('-');
        out.append(digits_text((-n) as u128).as_str());
        assert(out@ =~= decimal(n as int));
        out
    } else {
        digits_text(n as u128)
    }
}

/// The texts one after the other, with `separator` between each two.
pub open spec fn joined(parts: Seq<Seq<char>>, separator: Seq<char>) -> Seq<char>
    decreases parts.len(),
{
    if parts.len() == 0 {
        Seq::empty()
    } else if parts.len() == 1 {
        parts[0]
    } else {
        joined(parts.drop_last(), separator) + separator + parts.last()
    }
}

/// Joins texts with a separator between them.
pub(crate) fn join(parts: &Vec<String>, separator: &str) -> (r: String)
    ensures
        r@ == joined(parts.deep_view(), separator@),
{
    let mut out = String::new();
    for i in 0..parts.len()
        invariant
            out@ == joined(parts.deep_view().take(i as int), separator@),
    {
        assert(parts.deep_view().take(i + 1).drop_last() =~= parts.deep_view().take(i as int));
        if i > 0 {
            out.append(separator);
        }
        out.append(parts[i].as_str());
        assert(i == 0 ==> out@ =~= parts[0]@);
    }
    assert(parts.deep_view().take(parts.len() as int) =~= parts.deep_view());
    out
}

/// Two texts one after the other.
pub(crate) fn concat2(a: &str, b: &str) -> (r: String)
    ensures
        r@ == a@ + b@,
{
    let mut out = a.to_string();
    out.append(b);
    out
}

/// Three texts one after the other.
pub(crate) fn concat3(a: &str, b: &str, c: &str) -> (r: String)
    ensures
        r@ == a@ + b@ + c@,
{
    let mut out = a.to_string();
    out.append(b);
    out.append(c);
    out
}

/// The order of texts: by the first character in which they differ, and a text before those
/// that it is the beginning of.
pub open spec fn precedes(a: Seq<char>, b: Seq<char>) -> bool
    decreases a.len(),
{
    if b.len() == 0 {
        false
    } else if a.len() == 0 {
        true
    } else if a[0] != b[0] {
        a[0] < b[0]
    } else {
        precedes(a.drop_first(), b.drop_first())
    }
}

/// Whether `a` stands before `b` in the order of texts.
pub(crate) fn text_precedes(a: &str, b: &str) -> (r: bool)
    ensures
        r == precedes(a@, b@),
{
    let mut x = a.chars();
    let mut y = b.chars();
    loop
        invariant
            precedes(a@, b@) == precedes(
                vstd::std_specs::iter::IteratorSpec::remaining(&x),
                vstd::std_specs::iter::IteratorSpec::remaining(&y),
            ),
            vstd::std_specs::iter::IteratorSpec::obeys_prophetic_iter_laws(&x),
            vstd::std_specs::iter::IteratorSpec::obeys_prophetic_iter_laws(&y),
            vstd::std_specs::iter::IteratorSpec::decrease(&x) is Some,
        decreases vstd::std_specs::iter::IteratorSpec::decrease(&x)->0,
    {
        match (x.next(), y.next()) {
            (_, None) => {
                return false;
            },
            (None, Some(_)) => {
                return true;
            },
            (Some(c), Some(d)) => {
                if c != d {
                    return c < d;
                }
            },
        }
    }
}

/// No text stands before itself, of two different texts one stands before the other, and
/// the order is transitive.
pub proof fn lemma_precedes_is_an_order(a: Seq<char>, b: Seq<char>, c: Seq<char>)
    ensures
        !precedes(a, a),
        a == b || precedes(a, b) || precedes(b, a),
        !(precedes(a, b) && precedes(b, a)),
        precedes(a, b) && precedes(b, c) ==> precedes(a, c),
    decreases a.len() + b.len() + c.len(),
{
    if a.len() > 0 && b.len() > 0 && c.len() > 0 {
        lemma_precedes_is_an_order(a.drop_first(), b.drop_first(), c.drop_first());
    } else if a.len() > 0 && b.len() > 0 {
        lemma_precedes_is_an_order(a.drop_first(), b.drop_first(), c);
    } else if a.len() > 0 {
        lemma_precedes_is_an_order(a.drop_first(), b, c);
    }
    if a.len() > 0 && b.len() > 0 && a[0] == b[0] && a.drop_first() == b.drop_first() {
        assert(a =~= seq![a[0]] + a.drop_first());
        assert(b =~= seq![b[0]] + b.drop_first());
    }
    if a.len() == 0 && b.len() == 0 {
        assert(a =~= b);
    }
}

/// How many texts at the front of a list stand before the given one.
pub open spec fn place_of(texts: Seq<Seq<char>>, text: Seq<char>) -> int
    decreases texts.len(),
{
    if texts.len() > 0 && precedes(texts[0], text) {
        1 + place_of(texts.drop_first(), text)
    } else {
        0
    }
}

/// A place is within the list; the texts before it precede the given one, and the text at it
/// does not.
pub proof fn lemma_place_of(texts: Seq<Seq<char>>, text: Seq<char>)
    ensures
        0 <= place_of(texts, text) <= texts.len(),
        forall|i: int| 0 <= i < place_of(texts, text) ==> precedes(#[trigger] texts[i], text),
        place_of(texts, text) < texts.len() ==> !precedes(texts[place_of(texts, text)], text),
    decreases texts.len(),
{
    if texts.len() > 0 && precedes(texts[0], text) {
        lemma_place_of(texts.drop_first(), text);
        assert forall|i: int| 0 <= i < place_of(texts, text) implies precedes(
            #[trigger] texts[i],
            text,
        ) by {
            if i > 0 {
                assert(texts.drop_first()[i - 1] == texts[i]);
            }
        }
    }
}

/// Whether each text stands before those after it.
pub open spec fn ascending(texts: Seq<Seq<char>>) -> bool {
    forall|i: int, j: int|
        0 <= i < j < texts.len() ==> precedes(#[trigger] texts[i], #[trigger] texts[j])
}

/// An ascending list with one more text in its place.
pub open spec fn with_text(texts: Seq<Seq<char>>, text: Seq<char>) -> Seq<Seq<char>> {
    let i = place_of(texts, text);
    if i < texts.len() && texts[i] == text {
        texts
    } else {
        texts.insert(i, text)
    }
}

/// Adds a text to an ascending list, unless it is there.
pub(crate) fn add_text(texts: &mut Vec<String>, text: String)
    ensures
        final(texts).deep_view() == with_text(old(texts).deep_view(), text@),
{
    let ghost before = texts.deep_view();
    let mut i: usize = 0;
    assert(before.skip(0) =~= before);
    while i < texts.len() && text_precedes(texts[i].as_str(), text.as_str())
        invariant
            i <= texts.len(),
            before == texts.deep_view(),
            texts@ == old(texts)@,
            place_of(before, text@) == i + place_of(before.skip(i as int), text@),
        decreases texts.len() - i,
    {
        assert(before.skip(i as int).drop_first() =~= before.skip(i + 1));
        i += 1;
    }
    if i < texts.len() && same_text(texts[i].as_str(), text.as_str()) {
        return ;
    }
    texts.insert(i, text);
    assert(texts.deep_view() =~= before.insert(i as int, text@));
}

/// Adding a text keeps a list ascending, and adds nothing but the text.
pub proof fn lemma_with_text(texts: Seq<Seq<char>>, text: Seq<char>)
    requires
        ascending(texts),
    ensures
        ascending(with_text(texts, text)),
        forall|t: Seq<char>| #[trigger]
            with_text(texts, text).contains(t) <==> texts.contains(t) || t == text,
{
    let i = place_of(texts, text);
    let after = with_text(texts, text);
    lemma_place_of(texts, text);
    if after != texts {
        assert forall|j: int| i <= j < texts.len() implies precedes(text, #[trigger] texts[j]) by {
            lemma_precedes_is_an_order(texts[i], text, text);
            if j > i {
                lemma_precedes_is_an_order(text, texts[i], texts[j]);
            }
        }
        assert forall|t: Seq<char>| texts.contains(t) || t == text implies after.contains(t) by {
            if t == text {
                assert(after[i] == text);
            } else {
                let k = choose|k: int| 0 <= k < texts.len() && texts[k] == t;
                assert(after[if k < i { k } else { k + 1 }] == t);
            }
        }
        assert forall|t: Seq<char>| after.contains(t) implies texts.contains(t) || t == text by {
            let k = choose|k: int| 0 <= k < after.len() && after[k] == t;
            if k < i {
                assert(texts[k] == t);
            } else if k > i {
                assert(texts[k - 1] == t);
            }
        }
    }
}

} // verus!
