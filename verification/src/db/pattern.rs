//! Texts that stand for themselves in a pattern.

use vstd::prelude::*;

verus! {

broadcast use vstd::seq_lib::group_seq_properties;

/// What `LIKE` with the escape character `\` says of a text: `%` stands for any
/// characters, `_` for one, and any other for one that is the same.
pub open spec fn like(pattern: Seq<char>, s: Seq<char>, same: spec_fn(char, char) -> bool) -> bool
    decreases pattern.len(),
{
    if pattern.len() == 0 {
        s.len() == 0
    } else if pattern[0] == '%' {
        exists|k: int| 0 <= k <= s.len() && like(pattern.skip(1), #[trigger] s.skip(k), same)
    } else if pattern[0] == '_' {
        s.len() > 0 && like(pattern.skip(1), s.skip(1), same)
    } else if pattern[0] == '\\' && pattern.len() > 1 {
        s.len() > 0 && same(pattern[1], s[0]) && like(pattern.skip(2), s.skip(1), same)
    } else {
        s.len() > 0 && same(pattern[0], s[0]) && like(pattern.skip(1), s.skip(1), same)
    }
}

/// A character that stands for itself in a pattern.
pub open spec fn literal(c: char) -> Seq<char> {
    if c == '%' || c == '_' || c == '\\' {
        seq!['\\', c]
    } else {
        seq![c]
    }
}

/// A text that stands for itself in a pattern.
pub open spec fn literal_text(s: Seq<char>) -> Seq<char>
    decreases s.len(),
{
    if s.len() == 0 {
        Seq::empty()
    } else {
        literal_text(s.drop_last()) + literal(s.last())
    }
}

/// Makes a text stand for itself in a pattern of `LIKE` with the escape
/// character `\`.
pub fn like_escaped(s: &str) -> (r: String)
    ensures
        r@ == literal_text(s@),
{
    let v = crate::text::chars_of(s);
    let mut r = String::new();
    let mut i: usize = 0;
    assert(s@.take(0) =~= Seq::<char>::empty());
    while i < v.len()
        invariant
            i <= v@.len(),
            v@ == s@,
            r@ == literal_text(s@.take(i as int)),
        decreases v@.len() - i,
    {
        let c = v[i];
        let ghost before = r@;
        assert(s@.take(i + 1).drop_last() =~= s@.take(i as int));
        if c == '%' || c == '_' || c == '\\' {
            r.push('\\');
        }
        r.push(c);
        assert(r@ =~= before + literal(c));
        i = i + 1;
    }
    assert(s@.take(i as int) =~= s@);
    r
}

proof fn lemma_literal_front(s: Seq<char>)
    requires
        s.len() > 0,
    ensures
        literal_text(s) == literal(s[0]) + literal_text(s.skip(1)),
    decreases s.len(),
{
    if s.len() == 1 {
        assert(s.drop_last() =~= Seq::<char>::empty());
        assert(s.skip(1) =~= Seq::<char>::empty());
        assert(literal_text(s) =~= literal(s[0]) + literal_text(s.skip(1)));
    } else {
        lemma_literal_front(s.drop_last());
        assert(s.drop_last().skip(1) =~= s.skip(1).drop_last());
        assert(literal_text(s) =~= literal(s[0]) + literal_text(s.skip(1)));
    }
}

/// A pattern made of an escaped text and `%` is met by exactly the texts that
/// begin with that text, whichever characters count as the same: no character
/// of the text acts as a wildcard.
pub proof fn law_escaped_pattern_is_a_prefix(
    prefix: Seq<char>,
    s: Seq<char>,
    same: spec_fn(char, char) -> bool,
)
    ensures
        like(literal_text(prefix) + seq!['%'], s, same) <==> prefix.len() <= s.len() && forall|
            i: int,
        |
            0 <= i < prefix.len() ==> same(#[trigger] prefix[i], s[i]),
    decreases prefix.len(),
{
    let pattern = literal_text(prefix) + seq!['%'];
    if prefix.len() == 0 {
        assert(pattern =~= seq!['%']);
        assert(pattern.skip(1) =~= Seq::<char>::empty());
        assert(like(pattern.skip(1), s.skip(s.len() as int), same));
    } else {
        let rest = prefix.skip(1);
        let c = prefix[0];
        lemma_literal_front(prefix);
        let tail = literal_text(rest) + seq!['%'];
        assert(pattern =~= literal(c) + tail);
        if c == '%' || c == '_' || c == '\\' {
            assert(pattern.skip(2) =~= tail);
        } else {
            assert(pattern.skip(1) =~= tail);
        }
        if s.len() > 0 {
            law_escaped_pattern_is_a_prefix(rest, s.skip(1), same);
            assert(like(pattern, s, same) == (same(c, s[0]) && like(tail, s.skip(1), same)));
            if like(pattern, s, same) {
                assert forall|i: int| 0 <= i < prefix.len() implies same(
                    #[trigger] prefix[i],
                    s[i],
                ) by {
                    if i > 0 {
                        assert(rest[i - 1] == prefix[i]);
                        assert(s.skip(1)[i - 1] == s[i]);
                        assert(same(rest[i - 1], s.skip(1)[i - 1]));
                    }
                }
            }
            if prefix.len() <= s.len() && (forall|i: int|
                0 <= i < prefix.len() ==> same(#[trigger] prefix[i], s[i])) {
                assert(same(prefix[0], s[0]));
                assert forall|i: int| 0 <= i < rest.len() implies same(
                    #[trigger] rest[i],
                    s.skip(1)[i],
                ) by {
                    assert(rest[i] == prefix[i + 1]);
                    assert(same(prefix[i + 1], s[i + 1]));
                }
            }
        }
    }
}

} // verus!
