//! Text as sequences of characters: comparison, trimming, decimal numbers and
//! cuts that never split a character's UTF-8 encoding.

use vstd::prelude::*;
use vstd::string::*;
use vstd::utf8::*;

verus! {

/// `String::push` appends one character at the end.
pub assume_specification[ String::push ](s: &mut String, c: char)
    ensures
        final(s)@ == old(s)@.push(c),
;

// ---------------------------------------------------------------------------
// Encoding
// ---------------------------------------------------------------------------

/// Encoding distributes over concatenation.
pub proof fn lemma_encode_concat(a: Seq<char>, b: Seq<char>)
    ensures
        encode_utf8(a + b) == encode_utf8(a) + encode_utf8(b),
    decreases a.len(),
{
    if a.len() == 0 {
        assert(a + b =~= b);
    } else {
        lemma_encode_concat(a.drop_first(), b);
        assert((a + b).drop_first() =~= a.drop_first() + b);
    }
}

/// Two texts with the same encoding are the same text.
pub proof fn lemma_encode_injective(a: Seq<char>, b: Seq<char>)
    requires
        encode_utf8(a) == encode_utf8(b),
    ensures
        a == b,
{
    encode_utf8_decode_utf8(a);
    encode_utf8_decode_utf8(b);
}

/// The length of a text in bytes.
pub fn byte_len(s: &str) -> (n: usize)
    ensures
        n == encode_utf8(s@).len(),
{
    s.as_bytes().len()
}

/// The characters of a text.
pub fn chars_of(s: &str) -> (v: Vec<char>)
    ensures
        v@ == s@,
{
    let mut v: Vec<char> = Vec::new();
    for c in it: s.chars()
        invariant
            v@ == s@.take(it.index() as int),
            it.seq() == s@,
    {
        v.push(c);
    }
    v
}

/// The text made of the characters `from..to`.
pub fn text_of(chars: &Vec<char>, from: usize, to: usize) -> (s: String)
    requires
        from <= to <= chars@.len(),
    ensures
        s@ == chars@.subrange(from as int, to as int),
{
    let mut s = String::new();
    let mut i: usize = from;
    while i < to
        invariant
            from <= i <= to <= chars@.len(),
            s@ == chars@.subrange(from as int, i as int),
        decreases to - i,
    {
        s.push(chars[i]);
        i = i + 1;
    }
    s
}

/// Whether two texts are equal.
pub fn same_text(a: &str, b: &str) -> (r: bool)
    ensures
        r == (a@ == b@),
{
    let x = a.as_bytes();
    let y = b.as_bytes();
    if x.len() != y.len() {
        return false;
    }
    let mut i: usize = 0;
    while i < x.len()
        invariant
            i <= x@.len(),
            x@.len() == y@.len(),
            x@ == encode_utf8(a@),
            y@ == encode_utf8(b@),
            forall|j: int| 0 <= j < i ==> x@[j] == y@[j],
        decreases x@.len() - i,
    {
        if x[i] != y[i] {
            return false;
        }
        i = i + 1;
    }
    proof {
        assert(x@ =~= y@);
        lemma_encode_injective(a@, b@);
    }
    true
}

/// Whether `s` begins with `prefix`, character by character.
pub fn starts_with(s: &str, prefix: &str) -> (r: bool)
    ensures
        r == prefix@.is_prefix_of(s@),
{
    let c = chars_of(s);
    let p = chars_of(prefix);
    if p.len() > c.len() {
        return false;
    }
    let mut i: usize = 0;
    while i < p.len()
        invariant
            i <= p@.len() <= c@.len(),
            p@ == prefix@,
            c@ == s@,
            p@.take(i as int) == c@.take(i as int),
        decreases p@.len() - i,
    {
        if p[i] != c[i] {
            assert(p@[i as int] != c@.take(p@.len() as int)[i as int]);
            return false;
        }
        assert(p@.take(i + 1) =~= p@.take(i as int).push(p@[i as int]));
        assert(c@.take(i + 1) =~= c@.take(i as int).push(c@[i as int]));
        i = i + 1;
    }
    assert(p@.take(i as int) =~= p@);
    true
}

/// Whether `c` occurs in `s`.
pub fn contains_char(s: &str, c: char) -> (r: bool)
    ensures
        r == s@.contains(c),
{
    let v = chars_of(s);
    let mut i: usize = 0;
    while i < v.len()
        invariant
            i <= v@.len(),
            v@ == s@,
            forall|j: int| 0 <= j < i ==> v@[j] != c,
        decreases v@.len() - i,
    {
        if v[i] == c {
            assert(s@[i as int] == c);
            return true;
        }
        i = i + 1;
    }
    false
}

/// `needle` occurs in `s` from the character `at` on.
pub open spec fn occurs_at(s: Seq<char>, needle: Seq<char>, at: int) -> bool {
    0 <= at <= s.len() && needle.is_prefix_of(s.skip(at))
}

/// Whether `needle` occurs somewhere in `s`.
pub fn contains_text(s: &str, needle: &str) -> (r: bool)
    ensures
        r == exists|at: int| occurs_at(s@, needle@, at),
{
    let c = chars_of(s);
    let n = chars_of(needle);
    let mut at: usize = 0;
    while at <= c.len()
        invariant
            at <= c@.len() + 1,
            c@ == s@,
            n@ == needle@,
            forall|k: int| 0 <= k < at ==> !occurs_at(s@, needle@, k),
        decreases c@.len() + 1 - at,
    {
        let mut hit = n.len() <= c.len() - at;
        let mut i: usize = 0;
        while hit && i < n.len()
            invariant
                at <= c@.len() <= usize::MAX,
                i <= n@.len(),
                c@ == s@,
                n@ == needle@,
                hit ==> n@.len() <= c@.len() - at,
                hit ==> forall|j: int| 0 <= j < i ==> n@[j] == c@[at + j],
                !hit ==> !occurs_at(s@, needle@, at as int),
            decreases n@.len() - i,
        {
            if n[i] != c[at + i] {
                hit = false;
                assert(c@.skip(at as int).take(n@.len() as int)[i as int] == c@[at + i]);
            }
            i = i + 1;
        }
        if hit {
            assert(n@ =~= c@.skip(at as int).take(n@.len() as int));
            assert(occurs_at(s@, needle@, at as int));
            return true;
        }
        if at == c.len() {
            return false;
        }
        at = at + 1;
    }
    false
}

/// The texts of a sequence of strings.
pub open spec fn texts(v: Seq<String>) -> Seq<Seq<char>> {
    Seq::new(v.len(), |i: int| v[i]@)
}

pub proof fn lemma_texts_push(v: Seq<String>, s: String)
    ensures
        texts(v.push(s)) == texts(v).push(s@),
{
    assert(texts(v.push(s)) =~= texts(v).push(s@));
}

/// The parts one after the other, `sep` between neighbours.
pub open spec fn joined(parts: Seq<Seq<char>>, sep: Seq<char>) -> Seq<char>
    decreases parts.len(),
{
    if parts.len() == 0 {
        Seq::empty()
    } else if parts.len() == 1 {
        parts[0]
    } else {
        joined(parts.drop_last(), sep) + sep + parts.last()
    }
}

/// Joins the parts with `sep` between neighbours.
pub fn join(parts: &Vec<String>, sep: &str) -> (r: String)
    ensures
        r@ == joined(texts(parts@), sep@),
{
    let mut r = String::new();
    let mut i: usize = 0;
    assert(texts(parts@).take(0) =~= Seq::<Seq<char>>::empty());
    while i < parts.len()
        invariant
            i <= parts@.len(),
            r@ == joined(texts(parts@).take(i as int), sep@),
        decreases parts@.len() - i,
    {
        let ghost whole = texts(parts@).take(i + 1);
        assert(whole.drop_last() =~= texts(parts@).take(i as int));
        if i > 0 {
            r.append(sep);
        }
        r.append(parts[i].as_str());
        assert(r@ =~= joined(whole, sep@));
        i = i + 1;
    }
    assert(texts(parts@).take(i as int) =~= texts(parts@));
    r
}

// ---------------------------------------------------------------------------
// Whitespace
// ---------------------------------------------------------------------------

/// The Unicode `White_Space` property.
pub open spec fn is_white(c: char) -> bool {
    let n = c as u32;
    ||| 0x09 <= n <= 0x0D
    ||| n == 0x20
    ||| n == 0x85
    ||| n == 0xA0
    ||| n == 0x1680
    ||| 0x2000 <= n <= 0x200A
    ||| n == 0x2028
    ||| n == 0x2029
    ||| n == 0x202F
    ||| n == 0x205F
    ||| n == 0x3000
}

/// Whether a character is whitespace.
pub fn white(c: char) -> (r: bool)
    ensures
        r == is_white(c),
{
    let n: u32 = c as u32;
    (0x09 <= n && n <= 0x0D) || n == 0x20 || n == 0x85 || n == 0xA0 || n == 0x1680 || (0x2000 <= n
        && n <= 0x200A) || n == 0x2028 || n == 0x2029 || n == 0x202F || n == 0x205F || n == 0x3000
}

/// A text without its leading whitespace.
pub open spec fn trim_start(s: Seq<char>) -> Seq<char>
    decreases s.len(),
{
    if s.len() > 0 && is_white(s[0]) {
        trim_start(s.skip(1))
    } else {
        s
    }
}

/// A text without its trailing whitespace.
pub open spec fn trim_end(s: Seq<char>) -> Seq<char>
    decreases s.len(),
{
    if s.len() > 0 && is_white(s.last()) {
        trim_end(s.drop_last())
    } else {
        s
    }
}

/// A text without whitespace at either end.
pub open spec fn trimmed(s: Seq<char>) -> Seq<char> {
    trim_end(trim_start(s))
}

/// Drops the whitespace at both ends.
pub fn trim(s: &str) -> (r: String)
    ensures
        r@ == trimmed(s@),
{
    let v = chars_of(s);
    let mut from: usize = 0;
    assert(v@.skip(0) =~= s@);
    while from < v.len() && white(v[from])
        invariant
            from <= v@.len(),
            v@ == s@,
            trim_start(v@.skip(from as int)) == trim_start(s@),
        decreases v@.len() - from,
    {
        assert(v@.skip(from as int).skip(1) =~= v@.skip(from + 1));
        from = from + 1;
    }
    let mut to: usize = v.len();
    assert(v@.subrange(from as int, to as int) =~= v@.skip(from as int));
    while to > from && white(v[to - 1])
        invariant
            from <= to <= v@.len(),
            trim_end(v@.subrange(from as int, to as int)) == trimmed(s@),
        decreases to - from,
    {
        assert(v@.subrange(from as int, to as int).drop_last() =~= v@.subrange(
            from as int,
            to - 1,
        ));
        to = to - 1;
    }
    text_of(&v, from, to)
}

/// Whether nothing but whitespace is in `s`.
pub fn is_blank(s: &str) -> (r: bool)
    ensures
        r == (trimmed(s@).len() == 0),
{
    trim(s).as_str().is_empty()
}

// ---------------------------------------------------------------------------
// Decimal numbers
// ---------------------------------------------------------------------------

/// The character of a digit below ten.
pub open spec fn digit_char(d: nat) -> char {
    (48 + d) as char
}

/// A number in decimal notation, without leading zeros.
pub open spec fn decimal(n: nat) -> Seq<char>
    decreases n,
{
    if n < 10 {
        seq![digit_char(n)]
    } else {
        decimal(n / 10).push(digit_char(n % 10))
    }
}

/// An integer in decimal notation, with `-` in front of a negative one.
pub open spec fn signed_decimal(n: int) -> Seq<char> {
    if n < 0 {
        seq!['-'] + decimal((-n) as nat)
    } else {
        decimal(n as nat)
    }
}

/// Writes a number in decimal notation.
pub fn decimal_u64(n: u64) -> (s: String)
    ensures
        s@ == decimal(n as nat),
    decreases n,
{
    if n < 10 {
        let mut s = String::new();
        s.push((48u8 + n as u8) as char);
        assert(s@ =~= seq![digit_char(n as nat)]);
        s
    } else {
        let mut s = decimal_u64(n / 10);
        s.push((48u8 + (n % 10) as u8) as char);
        s
    }
}

/// Writes an integer in decimal notation.
pub fn decimal_i64(n: i64) -> (s: String)
    ensures
        s@ == signed_decimal(n as int),
{
    if n < 0 {
        let mut s = String::new();
        s.push('-');
        let magnitude: u64 = if n == i64::MIN {
            0x8000_0000_0000_0000
        } else {
            (-n) as u64
        };
        let digits = decimal_u64(magnitude);
        s.append(digits.as_str());
        assert(s@ =~= seq!['-'] + decimal((-(n as int)) as nat));
        s
    } else {
        decimal_u64(n as u64)
    }
}

/// A power of ten.
pub open spec fn ten_to(k: nat) -> nat
    decreases k,
{
    if k == 0 {
        1
    } else {
        10 * ten_to((k - 1) as nat)
    }
}

/// A number below a power of ten has no more digits than the power has zeros,
/// each of them one byte long.
pub proof fn lemma_decimal_len(n: nat, digits: nat)
    requires
        digits > 0,
        n < ten_to(digits),
    ensures
        1 <= decimal(n).len() <= digits,
        is_ascii_chars(decimal(n)),
        encode_utf8(decimal(n)).len() == decimal(n).len(),
    decreases n,
{
    if n < 10 {
        assert(decimal(n) =~= seq![digit_char(n)]);
    } else {
        let fewer = (digits - 1) as nat;
        assert(ten_to(digits) == 10 * ten_to(fewer));
        assert(digits > 1) by {
            assert(ten_to(0) == 1);
        }
        assert(n / 10 < ten_to(fewer));
        lemma_decimal_len(n / 10, fewer);
    }
    is_ascii_chars_encode_utf8(decimal(n));
}

/// A decimal digit.
pub open spec fn is_digit(c: char) -> bool {
    '0' <= c <= '9'
}

/// The value of a run of decimal digits.
pub open spec fn digits_value(s: Seq<char>) -> nat
    decreases s.len(),
{
    if s.len() == 0 {
        0
    } else {
        digits_value(s.drop_last()) * 10 + (s.last() as u32 - 48) as nat
    }
}

/// A text without the `+` it may begin with.
pub open spec fn unsigned_part(s: Seq<char>) -> Seq<char> {
    if s.len() > 0 && s[0] == '+' {
        s.skip(1)
    } else {
        s
    }
}

/// Nothing but decimal digits.
pub open spec fn all_digits(s: Seq<char>) -> bool {
    forall|i: int| 0 <= i < s.len() ==> is_digit(#[trigger] s[i])
}

/// The number that a text spells: decimal digits, an optional `+` before them,
/// and no more than 64 bits.
pub open spec fn spelled_u64(s: Seq<char>) -> Option<u64> {
    let digits = unsigned_part(s);
    if digits.len() > 0 && all_digits(digits) && digits_value(digits) <= u64::MAX {
        Some(digits_value(digits) as u64)
    } else {
        None
    }
}

/// Reads an unsigned number.
pub fn parse_u64(s: &str) -> (r: Option<u64>)
    ensures
        r == spelled_u64(s@),
{
    let v = chars_of(s);
    let from: usize = if v.len() > 0 && v[0] == '+' {
        1
    } else {
        0
    };
    let ghost digits = v@.skip(from as int);
    assert(from == 0 ==> digits =~= s@);
    if from == v.len() {
        return None;
    }
    assert(digits.take(0) =~= Seq::<char>::empty());
    let mut i: usize = from;
    let mut n: u64 = 0;
    let mut fits = true;
    while i < v.len()
        invariant
            from <= i <= v@.len(),
            digits == v@.skip(from as int),
            all_digits(digits.take(i - from)),
            fits ==> n == digits_value(digits.take(i - from)),
            !fits ==> digits_value(digits.take(i - from)) > u64::MAX,
            digits.len() > 0,
            digits == unsigned_part(s@),
        decreases v@.len() - i,
    {
        let c = v[i];
        assert(digits[i - from] == c);
        if !('0' <= c && c <= '9') {
            assert(!is_digit(digits[i - from]));
            return None;
        }
        let d: u64 = (c as u32 - 48) as u64;
        assert(digits.take(i - from + 1).drop_last() =~= digits.take(i - from));
        if fits {
            match n.checked_mul(10) {
                Some(m) => match m.checked_add(d) {
                    Some(k) => {
                        n = k;
                    },
                    None => {
                        fits = false;
                    },
                },
                None => {
                    fits = false;
                },
            }
        }
        i = i + 1;
    }
    assert(digits.take(i - from) =~= digits);
    if fits {
        Some(n)
    } else {
        None
    }
}

// ---------------------------------------------------------------------------
// Cuts on character boundaries
// ---------------------------------------------------------------------------

/// The greatest character boundary of `bytes` that is no greater than `at`.
pub open spec fn boundary_at_or_before(bytes: Seq<u8>, at: int) -> int
    decreases at,
{
    if at <= 0 {
        0
    } else if is_char_boundary(bytes, at) {
        at
    } else {
        boundary_at_or_before(bytes, at - 1)
    }
}

/// Where a cut of `s` to at most `max` bytes falls.
pub open spec fn cut_end(s: Seq<char>, max: int) -> int {
    let bytes = encode_utf8(s);
    boundary_at_or_before(
        bytes,
        if bytes.len() <= max {
            bytes.len() as int
        } else {
            max
        },
    )
}

/// The longest run of whole characters at the front of `s` that takes at most
/// `max` bytes.
pub open spec fn clipped(s: Seq<char>, max: int) -> Seq<char> {
    decode_utf8(encode_utf8(s).subrange(0, cut_end(s, max)))
}

/// `s`, or when it takes more than `max` bytes its clipped front and an
/// ellipsis.
pub open spec fn truncated(s: Seq<char>, max: int) -> Seq<char> {
    if encode_utf8(s).len() <= max {
        s
    } else {
        clipped(s, max) + seq!['…']
    }
}

proof fn lemma_boundary(bytes: Seq<u8>, at: int)
    requires
        valid_utf8(bytes),
        0 <= at <= bytes.len(),
    ensures
        0 <= boundary_at_or_before(bytes, at) <= at,
        is_char_boundary(bytes, boundary_at_or_before(bytes, at)),
        forall|k: int|
            boundary_at_or_before(bytes, at) < k <= at ==> !#[trigger] is_char_boundary(bytes, k),
    decreases at,
{
    is_char_boundary_start_end_of_seq(bytes);
    if at > 0 && !is_char_boundary(bytes, at) {
        lemma_boundary(bytes, at - 1);
    }
}

/// Characters take at most four bytes, so a boundary is never more than three
/// bytes away.
proof fn lemma_boundary_near(bytes: Seq<u8>, at: int)
    requires
        valid_utf8(bytes),
        0 <= at <= bytes.len(),
    ensures
        boundary_at_or_before(bytes, at) >= at - 3,
    decreases bytes.len(),
{
    lemma_boundary(bytes, at);
    if at > 3 {
        let rest = pop_first_scalar(bytes);
        let first = length_of_first_scalar(bytes);
        lemma_boundary_near(rest, at - first);
        lemma_boundary(rest, at - first);
        let b = boundary_at_or_before(rest, at - first) + first;
        assert(is_char_boundary(bytes, b));
    }
}

/// A clip is a front part of the text that fits, and no longer cut at a
/// character boundary fits.
pub proof fn lemma_clipped(s: Seq<char>, max: int)
    requires
        0 <= max,
    ensures
        clipped(s, max).is_prefix_of(s),
        encode_utf8(clipped(s, max)) == encode_utf8(s).subrange(0, cut_end(s, max)),
        0 <= cut_end(s, max) <= max,
        cut_end(s, max) <= encode_utf8(s).len(),
        max <= encode_utf8(s).len() ==> cut_end(s, max) >= max - 3,
        is_char_boundary(encode_utf8(s), cut_end(s, max)),
        forall|k: int|
            cut_end(s, max) < k <= max && k <= encode_utf8(s).len()
                ==> !#[trigger] is_char_boundary(encode_utf8(s), k),
{
    let bytes = encode_utf8(s);
    encode_utf8_valid_utf8(s);
    let at = if bytes.len() <= max {
        bytes.len() as int
    } else {
        max
    };
    lemma_boundary(bytes, at);
    lemma_boundary_near(bytes, at);
    let end = cut_end(s, max);
    valid_utf8_split(bytes, end);
    decode_utf8_split(bytes, end);
    encode_utf8_decode_utf8(s);
    decode_utf8_encode_utf8(bytes.subrange(0, end));
    let rest = decode_utf8(bytes.subrange(end, bytes.len() as int));
    assert(s == clipped(s, max) + rest);
    assert(s.take(clipped(s, max).len() as int) =~= clipped(s, max));
}

/// A text that fits is clipped to itself.
pub proof fn lemma_clipped_whole(s: Seq<char>, max: int)
    requires
        encode_utf8(s).len() <= max,
    ensures
        cut_end(s, max) == encode_utf8(s).len(),
        clipped(s, max) == s,
{
    let bytes = encode_utf8(s);
    encode_utf8_valid_utf8(s);
    is_char_boundary_start_end_of_seq(bytes);
    encode_utf8_decode_utf8(s);
    assert(bytes.subrange(0, bytes.len() as int) =~= bytes);
}

/// The ellipsis takes three bytes, so a truncated text takes at most three
/// more than its limit.
pub proof fn lemma_truncated_len(s: Seq<char>, max: int)
    requires
        0 <= max,
    ensures
        encode_utf8(truncated(s, max)).len() <= max + 3,
        encode_utf8(s).len() <= max ==> truncated(s, max) == s,
        encode_utf8(s).len() > max ==> encode_utf8(truncated(s, max)).len() == cut_end(s, max) + 3,
{
    lemma_clipped(s, max);
    lemma_encode_concat(clipped(s, max), seq!['…']);
    assert(seq!['…'].drop_first() =~= Seq::<char>::empty());
    assert(encode_utf8(seq!['…']).len() == 3) by {
        reveal_with_fuel(encode_utf8, 2);
        assert('…' as u32 == 0x2026);
    }
}

/// The greatest character boundary of `s` that is no greater than `max`.
pub fn char_boundary_end(s: &str, max: usize) -> (end: usize)
    ensures
        end == cut_end(s@, max as int),
{
    let len: usize = byte_len(s);
    let mut end: usize = if len <= max {
        len
    } else {
        max
    };
    while end > 0 && !s.is_char_boundary(end)
        invariant
            boundary_at_or_before(encode_utf8(s@), end as int) == cut_end(s@, max as int),
        decreases end,
    {
        end = end - 1;
    }
    end
}

/// Cuts `s` to at most `max` bytes of whole characters, with an ellipsis where
/// something was cut off.
pub fn truncate(s: &str, max: usize) -> (r: String)
    ensures
        r@ == truncated(s@, max as int),
{
    if byte_len(s) <= max {
        return s.to_owned();
    }
    proof {
        lemma_clipped(s@, max as int);
    }
    let end: usize = char_boundary_end(s, max);
    let (front, _) = s.split_at(end);
    proof {
        encode_utf8_decode_utf8(front@);
    }
    let mut r = front.to_owned();
    r.push('…');
    assert(r@ =~= clipped(s@, max as int) + seq!['…']);
    r
}

} // verus!
