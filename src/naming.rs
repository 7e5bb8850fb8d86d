//! The rule that turns a record field's identifier into its wire name: every `_` is deleted,
//! and the ASCII letter that followed it is made upper case (`schema_string` becomes
//! `schemaString`).
use vstd::prelude::*;
use vstd::string::StrSliceExecFns;

verus! {

/// The upper-case form of an ASCII lower-case letter; any other character is kept.
pub open spec fn ascii_upper(c: char) -> char {
    if 'a' <= c && c <= 'z' {
        ((c as u32 - 32) as u8) as char
    } else {
        c
    }
}

/// The wire name of the first `n` characters of `s`, and whether the next letter is to be
/// made upper case.
pub open spec fn wire_prefix(s: Seq<char>, n: int) -> (Seq<char>, bool)
    decreases n,
{
    if n <= 0 {
        (Seq::empty(), false)
    } else {
        let (out, caps) = wire_prefix(s, n - 1);
        let c = s[n - 1];
        if c == '_' {
            (out, true)
        } else if caps {
            (out.push(ascii_upper(c)), false)
        } else {
            (out.push(c), false)
        }
    }
}

/// The wire name of the identifier `s`.
pub open spec fn wire_name(s: Seq<char>) -> Seq<char> {
    wire_prefix(s, s.len() as int).0
}

fn to_ascii_upper(c: char) -> (r: char)
    ensures
        r == ascii_upper(c),
{
    if 'a' <= c && c <= 'z' {
        ((c as u32 - 32) as u8) as char
    } else {
        c
    }
}

/// Relies on `String`'s `FromIterator<char>`: the string of the given characters, in order.
#[verifier::external_body]
fn string_from_chars(chars: &Vec<char>) -> (r: String)
    ensures
        r@ == chars@,
{
    chars.iter().collect()
}

/// The wire name of a record field's identifier.
pub fn get_schema_name(name: &str) -> (r: String)
    ensures
        r@ == wire_name(name@),
{
    let n = name.unicode_len();
    let mut out: Vec<char> = Vec::new();
    let mut next_caps = false;
    let mut i: usize = 0;
    while i < n
        invariant
            n == name@.len(),
            i <= n,
            (out@, next_caps) == wire_prefix(name@, i as int),
        decreases n - i,
    {
        let c = name.get_char(i);
        if c == '_' {
            next_caps = true;
        } else if next_caps {
            next_caps = false;
            out.push(to_ascii_upper(c));
        } else {
            out.push(c);
        }
        i = i + 1;
    }
    string_from_chars(&out)
}

/// A wire name holds no `_`.
pub proof fn lemma_wire_name_has_no_underscore(s: Seq<char>)
    ensures
        forall|i: int| 0 <= i < wire_name(s).len() ==> #[trigger] wire_name(s)[i] != '_',
{
    lemma_prefix_has_no_underscore(s, s.len() as int);
}

proof fn lemma_prefix_has_no_underscore(s: Seq<char>, n: int)
    ensures
        forall|i: int|
            0 <= i < wire_prefix(s, n).0.len() ==> #[trigger] wire_prefix(s, n).0[i] != '_',
    decreases n,
{
    if n > 0 {
        lemma_prefix_has_no_underscore(s, n - 1);
        let c = s[n - 1];
        let prev = wire_prefix(s, n - 1).0;
        let out = wire_prefix(s, n).0;
        if c != '_' {
            lemma_upper_is_not_underscore(c);
            assert forall|i: int| 0 <= i < out.len() implies #[trigger] out[i] != '_' by {
                if i < prev.len() {
                    assert(out[i] == prev[i]);
                }
            }
        }
    }
}

proof fn lemma_upper_is_not_underscore(c: char)
    requires
        c != '_',
    ensures
        ascii_upper(c) != '_',
{
    if 'a' <= c && c <= 'z' {
        let u = (c as u32 - 32) as u8;
        assert(65 <= u <= 90);
        assert((u as char) as u32 == u as u32);
    }
}

/// An identifier without `_` is its own wire name.
pub proof fn lemma_wire_name_of_plain_identifier(s: Seq<char>)
    requires
        forall|i: int| 0 <= i < s.len() ==> #[trigger] s[i] != '_',
    ensures
        wire_name(s) == s,
{
    lemma_plain_prefix(s, s.len() as int);
    assert(s.subrange(0, s.len() as int) =~= s);
}

proof fn lemma_plain_prefix(s: Seq<char>, n: int)
    requires
        0 <= n <= s.len(),
        forall|i: int| 0 <= i < s.len() ==> #[trigger] s[i] != '_',
    ensures
        wire_prefix(s, n) == (s.subrange(0, n), false),
    decreases n,
{
    if n > 0 {
        lemma_plain_prefix(s, n - 1);
        assert(s.subrange(0, n - 1).push(s[n - 1]) =~= s.subrange(0, n));
    } else {
        assert(s.subrange(0, 0) =~= Seq::<char>::empty());
    }
}

/// The wire name of an identifier is a function of its characters alone: two identifiers
/// with the same characters have the same wire name, and the rule applied to a wire name
/// that holds no `_` changes nothing.
pub proof fn lemma_wire_name_is_stable(s: Seq<char>)
    ensures
        wire_name(wire_name(s)) == wire_name(s),
{
    lemma_wire_name_has_no_underscore(s);
    lemma_wire_name_of_plain_identifier(wire_name(s));
}

} // verus!
