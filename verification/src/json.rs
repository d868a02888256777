//! JSON texts, put together from their parts.

use vstd::prelude::*;
use vstd::string::*;

use crate::outside::quote;
use crate::text::{join, joined, texts};

verus! {

broadcast use vstd::seq_lib::group_seq_properties;

/// A hexadecimal digit.
pub open spec fn hex_digit(d: int) -> char {
    if d < 10 {
        (48 + d) as char
    } else {
        (87 + d) as char
    }
}

/// How a character stands in a JSON string.
pub open spec fn escaped_char(c: char) -> Seq<char> {
    let n = c as u32;
    if c == '"' || c == '\\' {
        seq!['\\', c]
    } else if n == 8 {
        seq!['\\', 'b']
    } else if n == 9 {
        seq!['\\', 't']
    } else if n == 10 {
        seq!['\\', 'n']
    } else if n == 12 {
        seq!['\\', 'f']
    } else if n == 13 {
        seq!['\\', 'r']
    } else if n < 0x20 {
        seq!['\\', 'u', '0', '0', hex_digit(n as int / 16), hex_digit(n as int % 16)]
    } else {
        seq![c]
    }
}

/// How a text stands in a JSON string.
pub open spec fn escaped(s: Seq<char>) -> Seq<char>
    decreases s.len(),
{
    if s.len() == 0 {
        Seq::empty()
    } else {
        escaped(s.drop_last()) + escaped_char(s.last())
    }
}

/// A text as a JSON string.
pub open spec fn quoted(s: Seq<char>) -> Seq<char> {
    seq!['"'] + escaped(s) + seq!['"']
}

/// `true` or `false`.
pub open spec fn boolean(b: bool) -> Seq<char> {
    if b {
        "true"@
    } else {
        "false"@
    }
}

/// One member of a JSON object: its key and the JSON text of its value.
pub open spec fn member_text(m: (Seq<char>, Seq<char>)) -> Seq<char> {
    quoted(m.0) + seq![':'] + m.1
}

/// The JSON object with these members, in this order.
pub open spec fn object_json(members: Seq<(Seq<char>, Seq<char>)>) -> Seq<char> {
    seq!['{'] + joined(members.map_values(|m: (Seq<char>, Seq<char>)| member_text(m)), seq![','])
        + seq!['}']
}

/// The JSON array with these elements.
pub open spec fn array_json(elements: Seq<Seq<char>>) -> Seq<char> {
    seq!['['] + joined(elements, seq![',']) + seq![']']
}

/// The members of an object under construction.
pub open spec fn member_models(members: Seq<(String, String)>) -> Seq<(Seq<char>, Seq<char>)> {
    Seq::new(members.len(), |i: int| (members[i].0@, members[i].1@))
}

pub proof fn lemma_member_push(members: Seq<(String, String)>, m: (String, String))
    ensures
        member_models(members.push(m)) == member_models(members).push((m.0@, m.1@)),
{
    assert(member_models(members.push(m)) =~= member_models(members).push((m.0@, m.1@)));
}

fn framed(open: char, parts: &Vec<String>, close: char) -> (r: String)
    ensures
        r@ == seq![open] + joined(texts(parts@), seq![',']) + seq![close],
{
    let mut r = String::new();
    r.push(open);
    let body = join(parts, ",");
    proof {
        reveal_strlit(",");
        assert(","@ =~= seq![',']);
    }
    r.append(body.as_str());
    r.push(close);
    assert(r@ =~= seq![open] + joined(texts(parts@), seq![',']) + seq![close]);
    r
}

/// Writes a JSON object.
pub fn object(members: &Vec<(String, String)>) -> (r: String)
    ensures
        r@ == object_json(member_models(members@)),
{
    let ghost models = member_models(members@);
    let ghost f = |m: (Seq<char>, Seq<char>)| member_text(m);
    let mut parts: Vec<String> = Vec::new();
    let mut i: usize = 0;
    while i < members.len()
        invariant
            i <= members@.len(),
            models == member_models(members@),
            f == (|m: (Seq<char>, Seq<char>)| member_text(m)),
            texts(parts@) == models.take(i as int).map_values(f),
        decreases members@.len() - i,
    {
        let mut part = quote(members[i].0.as_str());
        part.push(':');
        part.append(members[i].1.as_str());
        let ghost before = parts@;
        assert(part@ =~= member_text(models[i as int]));
        parts.push(part);
        proof {
            crate::text::lemma_texts_push(before, part);
            assert(models.take(i + 1).map_values(f) =~= models.take(i as int).map_values(f).push(
                f(models[i as int]),
            ));
        }
        i = i + 1;
    }
    assert(models.take(i as int) =~= models);
    framed('{', &parts, '}')
}

/// Writes a JSON array.
pub fn array(elements: &Vec<String>) -> (r: String)
    ensures
        r@ == array_json(texts(elements@)),
{
    framed('[', elements, ']')
}

/// Writes a boolean.
pub fn boolean_text(b: bool) -> (r: String)
    ensures
        r@ == boolean(b),
{
    if b {
        "true".to_owned()
    } else {
        "false".to_owned()
    }
}

} // verus!
