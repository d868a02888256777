//! Texts: cutting, trimming, joining, and numbers written and read.

use vstd::prelude::*;
use vstd::utf8::*;

use crate::json::{array_json, boolean, member_text, object_json, quoted};
use crate::plugin::log::{cleaned, is_breaking};
use crate::table::text_before;
use crate::text::{
    clipped, decimal, is_white, joined, occurs_at, signed_decimal, spelled_u64, trimmed, truncated,
};

verus! {

broadcast use vstd::seq_lib::group_seq_properties;

/// All characters are whitespace.
pub open spec fn all_white(s: Seq<char>) -> bool {
    forall|i: int| 0 <= i < s.len() ==> is_white(#[trigger] s[i])
}

/// What is cut off a text at both ends is whitespace, and what is left neither
/// begins nor ends with any.
pub proof fn law_trimmed(s: Seq<char>)
    ensures
        exists|front: Seq<char>, back: Seq<char>|
            s == front + trimmed(s) + back && #[trigger] all_white(front) && #[trigger] all_white(
                back,
            ),
        trimmed(s).len() > 0 ==> !is_white(trimmed(s)[0]) && !is_white(trimmed(s).last()),
{
    let start = crate::text::trim_start(s);
    lemma_trim_start(s);
    lemma_trim_end(start);
    let front = choose|front: Seq<char>| s == front + start && #[trigger] all_white(front);
    let back = choose|back: Seq<char>|
        start == trimmed(s) + back && #[trigger] all_white(back);
    assert(s =~= front + trimmed(s) + back);
    assert(all_white(front) && all_white(back));
    if trimmed(s).len() > 0 {
        assert(trimmed(s)[0] == start[0]);
    }
}

proof fn lemma_trim_start(s: Seq<char>)
    ensures
        exists|front: Seq<char>|
            s == front + crate::text::trim_start(s) && #[trigger] all_white(front),
        crate::text::trim_start(s).len() > 0 ==> !is_white(crate::text::trim_start(s)[0]),
    decreases s.len(),
{
    if s.len() > 0 && is_white(s[0]) {
        lemma_trim_start(s.skip(1));
        let front = choose|front: Seq<char>|
            s.skip(1) == front + crate::text::trim_start(s.skip(1)) && #[trigger] all_white(front);
        let longer = seq![s[0]] + front;
        assert(s =~= longer + crate::text::trim_start(s));
        assert(all_white(longer));
    } else {
        let none = Seq::<char>::empty();
        assert(s =~= none + s);
        assert(all_white(none));
    }
}

proof fn lemma_trim_end(s: Seq<char>)
    ensures
        exists|back: Seq<char>| s == crate::text::trim_end(s) + back && #[trigger] all_white(back),
        crate::text::trim_end(s).len() > 0 ==> !is_white(crate::text::trim_end(s).last()),
    decreases s.len(),
{
    if s.len() > 0 && is_white(s.last()) {
        lemma_trim_end(s.drop_last());
        let back = choose|back: Seq<char>|
            s.drop_last() == crate::text::trim_end(s.drop_last()) + back && #[trigger] all_white(
                back,
            );
        let longer = back.push(s.last());
        let kept = crate::text::trim_end(s.drop_last());
        assert(s.drop_last().push(s.last()) =~= s);
        assert((kept + back).push(s.last()) =~= kept + longer);
        assert(crate::text::trim_end(s) == kept);
        assert(all_white(longer));
    } else {
        let none = Seq::<char>::empty();
        assert(s =~= s + none);
        assert(all_white(none));
    }
}

/// Cutting a text to a number of bytes gives its longest front of whole
/// characters that fits; a text that fits stays whole.
pub proof fn law_clipped(s: Seq<char>, max: int, k: int)
    requires
        0 <= max,
        0 <= k <= s.len(),
    ensures
        clipped(s, max).is_prefix_of(s),
        encode_utf8(clipped(s, max)).len() <= max,
        encode_utf8(s).len() <= max ==> clipped(s, max) == s,
        encode_utf8(s.take(k)).len() <= max ==> k <= clipped(s, max).len(),
{
    crate::text::lemma_clipped(s, max);
    if encode_utf8(s).len() <= max {
        crate::text::lemma_clipped_whole(s, max);
    }
    if encode_utf8(s.take(k)).len() <= max && k > clipped(s, max).len() {
        lemma_no_longer_front(s, max, k);
    }
}

proof fn lemma_no_longer_front(s: Seq<char>, max: int, k: int)
    requires
        0 <= max,
        clipped(s, max).len() < k <= s.len(),
    ensures
        encode_utf8(s.take(k)).len() > max,
{
    let front = clipped(s, max);
    let middle = s.subrange(front.len() as int, k);
    let at = encode_utf8(s.take(k)).len() as int;
    crate::text::lemma_clipped(s, max);
    assert(s.take(k) =~= front + middle) by {
        assert(front =~= s.take(front.len() as int));
    }
    crate::text::lemma_encode_concat(front, middle);
    assert(s =~= s.take(k) + s.skip(k));
    crate::text::lemma_encode_concat(s.take(k), s.skip(k));
    lemma_boundary_between(s, k);
    lemma_not_empty(middle);
    assert(encode_utf8(front).len() == crate::text::cut_end(s, max));
    if at <= max {
        assert(is_char_boundary(encode_utf8(s), at));
    }
}

proof fn lemma_not_empty(s: Seq<char>)
    requires
        s.len() > 0,
    ensures
        encode_utf8(s).len() > 0,
{
    encode_utf8_first_scalar(s);
}

proof fn lemma_boundary_between(s: Seq<char>, k: int)
    requires
        0 <= k <= s.len(),
    ensures
        is_char_boundary(encode_utf8(s), encode_utf8(s.take(k)).len() as int),
    decreases k,
{
    let bytes = encode_utf8(s);
    encode_utf8_valid_utf8(s);
    if k == 0 {
        assert(s.take(0) =~= Seq::<char>::empty());
        is_char_boundary_start_end_of_seq(bytes);
    } else {
        let rest = s.drop_first();
        lemma_boundary_between(rest, k - 1);
        assert(s.take(k).drop_first() =~= rest.take(k - 1));
        assert(s =~= seq![s[0]] + rest);
        assert(s.take(k) =~= seq![s[0]] + rest.take(k - 1));
        crate::text::lemma_encode_concat(seq![s[0]], rest);
        crate::text::lemma_encode_concat(seq![s[0]], rest.take(k - 1));
        encode_utf8_first_scalar(s);
        assert(seq![s[0]].drop_first() =~= Seq::<char>::empty());
        encode_utf8_first_scalar(seq![s[0]]);
        assert(pop_first_scalar(bytes) =~= encode_utf8(rest));
    }
}

/// A text that is too long is cut and marked with an ellipsis; any other stays
/// as it is.
pub proof fn law_truncated(s: Seq<char>, max: int)
    requires
        0 <= max,
    ensures
        encode_utf8(s).len() <= max ==> truncated(s, max) == s,
        encode_utf8(s).len() > max ==> truncated(s, max) == clipped(s, max).push('…'),
{
    assert(clipped(s, max) + seq!['…'] =~= clipped(s, max).push('…'));
}

/// Joining puts the separator between neighbours and nowhere else.
pub proof fn law_joined(parts: Seq<Seq<char>>, part: Seq<char>, sep: Seq<char>)
    ensures
        joined(Seq::<Seq<char>>::empty(), sep) == Seq::<char>::empty(),
        parts.len() == 0 ==> joined(parts.push(part), sep) == part,
        parts.len() > 0 ==> joined(parts.push(part), sep) == joined(parts, sep) + sep + part,
{
    assert(parts.push(part).drop_last() =~= parts);
}

/// A number ends with the digit of its remainder by ten, behind the number of
/// its tenth; below ten it is that digit alone. A negative one has a minus in
/// front.
pub proof fn law_decimal(n: nat)
    ensures
        decimal(n).len() > 0,
        decimal(n).last() as u32 == 48 + n % 10,
        n < 10 ==> decimal(n).len() == 1,
        n >= 10 ==> decimal(n).drop_last() == decimal(n / 10),
        signed_decimal(n as int) == decimal(n),
        n > 0 ==> signed_decimal(-n) == seq!['-'] + decimal(n),
{
    if n >= 10 {
        assert(decimal(n).drop_last() =~= decimal(n / 10));
    }
}

/// Numbers are read as they are written: with or without a plus, digit behind
/// digit, up to 64 bits. An empty text, and one with any other character, is no
/// number.
pub proof fn law_spelled_numbers(s: Seq<char>, c: char)
    ensures
        spelled_u64(Seq::empty()) is None,
        '0' <= c <= '9' ==> spelled_u64(seq![c]) == Some((c as u32 - 48) as u64),
        (spelled_u64(s) matches Some(n) && '0' <= c <= '9') ==> spelled_u64(s.push(c)) == (if
            spelled_u64(s)->0 * 10 + (c as u32 - 48) <= u64::MAX {
            Some((spelled_u64(s)->0 * 10 + (c as u32 - 48)) as u64)
        } else {
            None
        }),
        s.len() > 0 && s[0] != '+' ==> spelled_u64(seq!['+'] + s) == spelled_u64(s),
        forall|i: int|
            0 <= i < s.len() && !('0' <= (#[trigger] s[i]) <= '9') && !(i == 0 && s[0] == '+')
                ==> spelled_u64(s) is None,
{
    let none = Seq::<char>::empty();
    assert(crate::text::unsigned_part(none).len() == 0);
    if '0' <= c <= '9' {
        let one = seq![c];
        assert(crate::text::unsigned_part(one) == one);
        assert(one.drop_last() =~= none);
        assert(crate::text::digits_value(one) == crate::text::digits_value(none) * 10 + (c as u32
            - 48) as nat);
        assert(crate::text::digits_value(none) == 0);
        if spelled_u64(s) is Some {
            let digits = crate::text::unsigned_part(s);
            assert(crate::text::unsigned_part(s.push(c)) =~= digits.push(c));
            assert(digits.push(c).drop_last() =~= digits);
            assert(crate::text::all_digits(digits.push(c)));
        }
    }
    if s.len() > 0 && s[0] != '+' {
        assert((seq!['+'] + s).skip(1) =~= s);
    }
    assert forall|i: int|
        0 <= i < s.len() && !('0' <= (#[trigger] s[i]) <= '9') && !(i == 0 && s[0]
            == '+') implies spelled_u64(s) is None by {
        let digits = crate::text::unsigned_part(s);
        if s[0] == '+' {
            assert(digits[i - 1] == s[i]);
        } else {
            assert(digits[i] == s[i]);
        }
    }
}

/// A number that was written is read back.
pub proof fn law_written_numbers_are_read_back(n: nat)
    requires
        n <= u64::MAX,
    ensures
        spelled_u64(decimal(n)) == Some(n as u64),
    decreases n,
{
    law_decimal(n);
    let c = decimal(n).last();
    if n < 10 {
        assert(decimal(n) =~= seq![c]);
        law_spelled_numbers(decimal(n), c);
    } else {
        law_written_numbers_are_read_back(n / 10);
        law_spelled_numbers(decimal(n / 10), c);
        assert(decimal(n) =~= decimal(n / 10).push(c));
    }
}

/// A text occurs in another one where the same characters stand side by side
/// from some place on.
pub proof fn law_occurs(s: Seq<char>, needle: Seq<char>, at: int)
    ensures
        occurs_at(s, needle, at) <==> 0 <= at && at + needle.len() <= s.len() && forall|i: int|
            0 <= i < needle.len() ==> #[trigger] needle[i] == s[at + i],
{
    if 0 <= at && at + needle.len() <= s.len() {
        let there = s.skip(at).take(needle.len() as int);
        if forall|i: int| 0 <= i < needle.len() ==> #[trigger] needle[i] == s[at + i] {
            assert(needle =~= there);
        }
        if occurs_at(s, needle, at) {
            assert forall|i: int| 0 <= i < needle.len() implies #[trigger] needle[i] == s[at + i] by {
                assert(needle[i] == there[i]);
            }
        }
    }
}

/// Texts stand in the order of their bytes: the first byte that differs
/// decides, and a text comes before its continuations.
pub proof fn law_order_of_texts(a: Seq<char>, b: Seq<char>)
    ensures
        text_before(a, b) <==> exists|i: int|
            #![trigger encode_utf8(a).take(i)]
            0 <= i <= encode_utf8(a).len() && i < encode_utf8(b).len() && encode_utf8(a).take(i)
                == encode_utf8(b).take(i) && (i == encode_utf8(a).len() || encode_utf8(a)[i]
                < encode_utf8(b)[i]),
{
    lemma_order_of_bytes(encode_utf8(a), encode_utf8(b));
}

proof fn lemma_order_of_bytes(a: Seq<u8>, b: Seq<u8>)
    ensures
        crate::table::bytes_before(a, b) <==> exists|i: int|
            #![trigger a.take(i)]
            0 <= i <= a.len() && i < b.len() && a.take(i) == b.take(i) && (i == a.len() || a[i]
                < b[i]),
    decreases a.len(),
{
    if a.len() == 0 {
        if b.len() > 0 {
            assert(a.take(0) =~= b.take(0));
        }
    } else if b.len() > 0 {
        if a[0] < b[0] {
            assert(a.take(0) =~= b.take(0));
        } else if a[0] == b[0] {
            let x = a.skip(1);
            let y = b.skip(1);
            assert(x =~= a.drop_first() && y =~= b.drop_first());
            lemma_order_of_bytes(x, y);
            if crate::table::bytes_before(a, b) {
                let i = choose|i: int|
                    #![trigger x.take(i)]
                    0 <= i <= x.len() && i < y.len() && x.take(i) == y.take(i) && (i == x.len()
                        || x[i] < y[i]);
                assert(a.take(i + 1) =~= seq![a[0]] + x.take(i));
                assert(b.take(i + 1) =~= seq![b[0]] + y.take(i));
                assert(a.take(i + 1) == b.take(i + 1));
            } else if exists|i: int|
                #![trigger a.take(i)]
                0 <= i <= a.len() && i < b.len() && a.take(i) == b.take(i) && (i == a.len() || a[i]
                    < b[i]) {
                let i = choose|i: int|
                    #![trigger a.take(i)]
                    0 <= i <= a.len() && i < b.len() && a.take(i) == b.take(i) && (i == a.len()
                        || a[i] < b[i]);
                assert(i > 0);
                assert(x.take(i - 1) =~= a.take(i).skip(1));
                assert(y.take(i - 1) =~= b.take(i).skip(1));
            }
        } else if exists|i: int|
            #![trigger a.take(i)]
            0 <= i <= a.len() && i < b.len() && a.take(i) == b.take(i) && (i == a.len() || a[i]
                < b[i]) {
            let i = choose|i: int|
                #![trigger a.take(i)]
                0 <= i <= a.len() && i < b.len() && a.take(i) == b.take(i) && (i == a.len() || a[i]
                    < b[i]);
            assert(a.take(i)[0] == b.take(i)[0]);
        }
    }
}

/// A JSON object is its members, each as the quoted key, a colon and the value,
/// with commas between them, in braces.
pub proof fn law_object_text(
    members: Seq<(Seq<char>, Seq<char>)>,
    key: Seq<char>,
    value: Seq<char>,
)
    ensures
        object_json(Seq::empty()) == seq!['{', '}'],
        object_json(seq![(key, value)]) == seq!['{'] + quoted(key) + seq![':'] + value + seq!['}'],
        members.len() > 0 ==> object_json(members.push((key, value))) == object_json(
            members,
        ).drop_last() + seq![','] + quoted(key) + seq![':'] + value + seq!['}'],
{
    let f = |m: (Seq<char>, Seq<char>)| member_text(m);
    let none = Seq::<(Seq<char>, Seq<char>)>::empty();
    assert(none.map_values(f) =~= Seq::<Seq<char>>::empty());
    assert(object_json(none) =~= seq!['{', '}']);
    let one = seq![(key, value)];
    assert(one.map_values(f) =~= seq![member_text((key, value))]);
    assert(object_json(one) =~= seq!['{'] + quoted(key) + seq![':'] + value + seq!['}']);
    if members.len() > 0 {
        let parts = members.map_values(f);
        let part = member_text((key, value));
        assert(members.push((key, value)).map_values(f) =~= parts.push(part));
        law_joined(parts, part, seq![',']);
        assert(object_json(members.push((key, value))) =~= object_json(members).drop_last() + seq![
            ',',
        ] + quoted(key) + seq![':'] + value + seq!['}']);
    }
}

/// A JSON array is its elements with commas between them, in brackets.
pub proof fn law_array_text(elements: Seq<Seq<char>>, element: Seq<char>)
    ensures
        array_json(Seq::empty()) == seq!['[', ']'],
        array_json(seq![element]) == seq!['['] + element + seq![']'],
        elements.len() > 0 ==> array_json(elements.push(element)) == array_json(
            elements,
        ).drop_last() + seq![','] + element + seq![']'],
        boolean(true) == "true"@,
        boolean(false) == "false"@,
{
    assert(array_json(Seq::empty()) =~= seq!['[', ']']);
    assert(array_json(seq![element]) =~= seq!['['] + element + seq![']']);
    if elements.len() > 0 {
        law_joined(elements, element, seq![',']);
        assert(array_json(elements.push(element)) =~= array_json(elements).drop_last() + seq![',']
            + element + seq![']']);
    }
}

/// A line that is logged keeps every character in its place but those that would
/// break or disguise it, which become spaces; letters, digits and all that is
/// printed in ASCII are never among them, and every control character is.
pub proof fn law_cleaned(s: Seq<char>, i: int)
    requires
        0 <= i < s.len(),
    ensures
        cleaned(s).len() == s.len(),
        is_breaking(s[i]) ==> cleaned(s)[i] == ' ',
        !is_breaking(s[i]) ==> cleaned(s)[i] == s[i],
        0x20 <= s[i] as u32 <= 0x7E ==> cleaned(s)[i] == s[i],
        (s[i] as u32) < 0x20 || 0x7F <= s[i] as u32 <= 0x9F ==> cleaned(s)[i] == ' ',
{
}

/// The characters that are taken out of lines besides the control characters:
/// the line and paragraph separators and the invisible format characters.
pub proof fn law_breaking_characters(c: char)
    ensures
        ({
            let n = c as u32;
            &&& (n >= 0xA0 && is_breaking(c)) ==> {
                ||| n == 0xAD || n == 0x061C || n == 0x06DD || n == 0x070F || n == 0x08E2
                ||| n == 0x180E || n == 0xFEFF || n == 0x110BD || n == 0x110CD || n == 0xE0001
                ||| 0x0600 <= n < 0x0606 || 0x0890 <= n < 0x0892 || 0x200B <= n < 0x2010
                ||| 0x2028 <= n < 0x202F || 0x2060 <= n < 0x2065 || 0x2066 <= n < 0x2070
                ||| 0xFFF9 <= n < 0xFFFC || 0x13430 <= n < 0x13440 || 0x1BCA0 <= n < 0x1BCA4
                ||| 0x1D173 <= n < 0x1D17B || 0xE0020 <= n < 0xE0080
            }
            &&& (n == 0xAD || n == 0x061C || n == 0x06DD || n == 0x070F || n == 0x08E2) ==> is_breaking(
                c,
            )
            &&& (n == 0x180E || n == 0xFEFF || n == 0x110BD || n == 0x110CD || n == 0xE0001)
                ==> is_breaking(c)
            &&& (0x0600 <= n < 0x0606 || 0x0890 <= n < 0x0892 || 0x200B <= n < 0x2010)
                ==> is_breaking(c)
            &&& (0x2028 <= n < 0x202F || 0x2060 <= n < 0x2065 || 0x2066 <= n < 0x2070)
                ==> is_breaking(c)
            &&& (0xFFF9 <= n < 0xFFFC || 0x13430 <= n < 0x13440 || 0x1BCA0 <= n < 0x1BCA4)
                ==> is_breaking(c)
            &&& (0x1D173 <= n < 0x1D17B || 0xE0020 <= n < 0xE0080) ==> is_breaking(c)
        }),
{
}

} // verus!
