//! What holds of names, numbers and lists of texts.
use crate::openapi::lookup;
use crate::text::{
    ascii_lower_text, decimal, digits, joined, last_segment, pascal_case, precedes, stripped,
};
use vstd::prelude::*;

verus! {

/// Whether a character is a hyphen or an underscore.
pub open spec fn divides_words(c: char) -> bool {
    c == '-' || c == '_'
}

/// A word keeps its characters in PascalCase, but that a small letter at its front becomes the
/// capital one.
pub proof fn law_pascal_case_of_a_word(word: Seq<char>)
    requires
        forall|i: int| 0 <= i < word.len() ==> !divides_words(#[trigger] word[i]),
    ensures
        pascal_case(word).len() == word.len(),
        forall|i: int| 0 < i < word.len() ==> #[trigger] pascal_case(word)[i] == word[i],
        word.len() > 0 && 'a' <= word[0] <= 'z' ==> pascal_case(word)[0] as int == word[0] as int
            - 32,
        word.len() > 0 && !('a' <= word[0] <= 'z') ==> pascal_case(word)[0] == word[0],
    decreases word.len(),
{
    if word.len() > 0 {
        law_pascal_case_of_a_word(word.drop_last());
        assert(!divides_words(word.last()));
        if word.len() > 1 {
            assert(!divides_words(word[word.len() - 2]));
        }
        assert forall|i: int| 0 < i < word.len() implies #[trigger] pascal_case(word)[i]
            == word[i] by {
            if i < word.len() - 1 {
                assert(pascal_case(word.drop_last())[i] == word[i]);
            }
        }
    }
}

/// The PascalCase of two names with a hyphen or an underscore between them is that of the one
/// and then that of the other.
pub proof fn law_pascal_case_of_two_words(first: Seq<char>, c: char, second: Seq<char>)
    requires
        divides_words(c),
    ensures
        pascal_case(first + seq![c] + second) == pascal_case(first) + pascal_case(second),
    decreases second.len(),
{
    let whole = first + seq![c] + second;
    if second.len() == 0 {
        assert(whole.drop_last() =~= first);
        assert(pascal_case(second) =~= Seq::empty());
    } else {
        assert(whole.drop_last() =~= first + seq![c] + second.drop_last());
        law_pascal_case_of_two_words(first, c, second.drop_last());
        assert(whole[whole.len() - 2] == if second.len() == 1 {
            c
        } else {
            second[second.len() - 2]
        });
        assert(pascal_case(whole) =~= pascal_case(first) + pascal_case(second));
    }
}

/// The last segment of a text is what follows its last slash, and all of it where there is none.
pub proof fn law_last_segment(before: Seq<char>, segment: Seq<char>)
    requires
        !segment.contains('/'),
    ensures
        last_segment(before + seq!['/'] + segment) == segment,
        last_segment(segment) == segment,
    decreases segment.len(),
{
    let whole = before + seq!['/'] + segment;
    if segment.len() > 0 {
        assert(whole.drop_last() =~= before + seq!['/'] + segment.drop_last());
        assert forall|i: int| 0 <= i < segment.len() - 1 implies #[trigger] segment.drop_last()[i]
            != '/' by {
            assert(segment.contains(segment[i]));
        }
        assert(segment.contains(segment.last()));
        law_last_segment(before, segment.drop_last());
        assert(segment.drop_last().push(segment.last()) =~= segment);
    } else {
        assert(whole.last() == '/');
        assert(last_segment(whole) =~= segment);
    }
}

/// The number that some decimal digits denote.
pub open spec fn number_of(text: Seq<char>) -> int
    decreases text.len(),
{
    if text.len() == 0 {
        0
    } else {
        number_of(text.drop_last()) * 10 + (text.last() as int - '0' as int)
    }
}

proof fn lemma_digits(n: nat)
    ensures
        digits(n).len() > 0,
        number_of(digits(n)) == n,
        forall|i: int| 0 <= i < digits(n).len() ==> '0' <= #[trigger] digits(n)[i] <= '9',
        digits(n).len() > 1 ==> digits(n)[0] != '0',
    decreases n,
{
    reveal_with_fuel(number_of, 2);
    if n >= 10 {
        lemma_digits(n / 10);
        assert(digits(n).drop_last() =~= digits(n / 10));
        if n / 10 < 10 {
            assert(digits(n / 10).len() == 1);
            assert(digits(n)[0] as int == 48 + n / 10);
        }
    } else {
        assert(digits(n).drop_last() =~= Seq::empty());
    }
}

/// The decimal form of a natural number is made of digits that denote it, and starts with a
/// zero only where it is one; that of a negative number is that of its opposite behind a minus.
pub proof fn law_decimal(n: int)
    ensures
        n >= 0 ==> {
            &&& decimal(n).len() > 0
            &&& number_of(decimal(n)) == n
            &&& forall|i: int| 0 <= i < decimal(n).len() ==> '0' <= #[trigger] decimal(n)[i] <= '9'
            &&& decimal(n).len() > 1 ==> decimal(n)[0] != '0'
        },
        n < 0 ==> decimal(n) == seq!['-'] + decimal(-n),
{
    if n >= 0 {
        lemma_digits(n as nat);
    }
}

/// Texts that are joined in two steps come out as those joined in one, with the separator
/// between the two; one text comes out as it is, and none as nothing.
pub proof fn law_joined(first: Seq<Seq<char>>, second: Seq<Seq<char>>, separator: Seq<char>)
    ensures
        first.len() == 0 ==> joined(first, separator) == Seq::<char>::empty(),
        first.len() == 1 ==> joined(first, separator) == first[0],
        first.len() > 0 && second.len() > 0 ==> joined(first + second, separator) == joined(
            first,
            separator,
        ) + separator + joined(second, separator),
    decreases second.len(),
{
    if first.len() > 0 && second.len() > 0 {
        let whole = first + second;
        assert(whole.drop_last() =~= first + second.drop_last());
        if second.len() == 1 {
            assert(whole.drop_last() =~= first);
        } else {
            law_joined(first, second.drop_last(), separator);
        }
        assert(joined(whole, separator) =~= joined(first, separator) + separator + joined(
            second,
            separator,
        ));
    }
}

/// Whether two texts agree up to a place and the first has the smaller character there.
pub open spec fn is_smaller_at(a: Seq<char>, b: Seq<char>, i: int) -> bool {
    0 <= i < a.len() && i < b.len() && a.take(i) == b.take(i) && a[i] < b[i]
}

/// A text stands before another where it is the beginning of it and shorter, or has the smaller
/// character at the first place in which they differ; and nowhere else.
pub proof fn law_order_of_texts(a: Seq<char>, b: Seq<char>)
    ensures
        precedes(a, b) <==> (a.is_prefix_of(b) && a.len() < b.len()) || exists|i: int|
            is_smaller_at(a, b, i),
    decreases a.len(),
{
    if a.len() > 0 && b.len() > 0 {
        let x = a.drop_first();
        let y = b.drop_first();
        law_order_of_texts(x, y);
        if a[0] == b[0] {
            if x.is_prefix_of(y) {
                assert(a =~= b.take(a.len() as int)) by {
                    assert(x =~= y.take(x.len() as int));
                    assert forall|k: int| 0 <= k < a.len() implies a[k] == b[k] by {
                        if k > 0 {
                            assert(x[k - 1] == y[k - 1]);
                        }
                    }
                }
            }
            if a.is_prefix_of(b) {
                assert(x =~= y.take(x.len() as int)) by {
                    assert forall|k: int| 0 <= k < x.len() implies x[k] == y[k] by {
                        assert(a[k + 1] == b[k + 1]);
                    }
                }
            }
            assert forall|i: int| is_smaller_at(a, b, i) implies is_smaller_at(x, y, i - 1) by {
                assert(i > 0);
                assert(x.take(i - 1) =~= a.take(i).drop_first());
                assert(y.take(i - 1) =~= b.take(i).drop_first());
            }
            assert forall|i: int| is_smaller_at(x, y, i) implies is_smaller_at(a, b, i + 1) by {
                assert(a.take(i + 1) =~= seq![a[0]] + x.take(i));
                assert(b.take(i + 1) =~= seq![b[0]] + y.take(i));
            }
            if exists|i: int| is_smaller_at(x, y, i) {
                let i = choose|i: int| is_smaller_at(x, y, i);
                assert(is_smaller_at(a, b, i + 1));
            }
            if exists|i: int| is_smaller_at(a, b, i) {
                let i = choose|i: int| is_smaller_at(a, b, i);
                assert(is_smaller_at(x, y, i - 1));
            }
        } else {
            if a[0] < b[0] {
                assert(a.take(0) =~= b.take(0));
                assert(is_smaller_at(a, b, 0));
            }
            if exists|i: int| is_smaller_at(a, b, i) {
                let i = choose|i: int| is_smaller_at(a, b, i);
                if i > 0 {
                    assert(a.take(i)[0] == b.take(i)[0]);
                }
            }
        }
    } else if a.len() == 0 {
        assert(a.is_prefix_of(b));
    }
}

/// Lower case is the text itself, with the small letter in place of each ASCII capital.
pub proof fn law_ascii_lower_case(text: Seq<char>)
    ensures
        ascii_lower_text(text).len() == text.len(),
        forall|i: int|
            0 <= i < text.len() ==> (#[trigger] ascii_lower_text(text)[i]) as int == text[i] as int
                + if 'A' <= text[i] <= 'Z' {
                32int
            } else {
                0
            },
{
}

/// A prefix is taken off exactly the texts that it stands at the front of, and what is left is
/// what it was put in front of.
pub proof fn law_prefixes(prefix: Seq<char>, rest: Seq<char>, text: Seq<char>)
    ensures
        stripped(prefix + rest, prefix) == Some(rest),
        stripped(text, prefix) matches Some(r) ==> text == prefix + r,
{
    assert((prefix + rest).skip(prefix.len() as int) =~= rest);
    assert((prefix + rest).take(prefix.len() as int) =~= prefix);
    if prefix.is_prefix_of(text) {
        assert(text =~= prefix + text.skip(prefix.len() as int));
    }
}

/// What is found under a key is the value of the first entry with it, and nothing is found
/// where no entry has it.
pub proof fn law_first_entry_is_found<V>(entries: Seq<(Seq<char>, V)>, key: Seq<char>, i: int)
    ensures
        0 <= i < entries.len() && entries[i].0 == key && (forall|k: int|
            0 <= k < i ==> (#[trigger] entries[k]).0 != key) ==> lookup(entries, key) == Some(
            entries[i].1,
        ),
        (forall|k: int| 0 <= k < entries.len() ==> (#[trigger] entries[k]).0 != key) ==> lookup(
            entries,
            key,
        ) is None,
    decreases entries.len(),
{
    if entries.len() > 0 {
        let rest = entries.drop_first();
        law_first_entry_is_found(rest, key, i - 1);
        assert forall|k: int| 0 <= k < rest.len() implies #[trigger] rest[k] == entries[k + 1] by {}
    }
}

} // verus!
