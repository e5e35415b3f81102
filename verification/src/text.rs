//! Text building blocks shared by the extractor and the generator.

use vstd::prelude::*;

verus! {

/// The texts of the elements of `s`, each given by `f`, one after another in
/// the order of `s`.
pub open spec fn concat_map<A>(s: Seq<A>, f: spec_fn(A) -> Seq<char>) -> Seq<char>
    decreases s.len(),
{
    if s.len() == 0 {
        Seq::empty()
    } else {
        concat_map(s.drop_last(), f) + f(s.last())
    }
}

/// Taking one more element appends that element's text.
pub proof fn lemma_concat_map_step<A>(s: Seq<A>, i: int, f: spec_fn(A) -> Seq<char>)
    requires
        0 <= i < s.len(),
    ensures
        concat_map(s.take(i + 1), f) == concat_map(s.take(i), f) + f(s[i]),
{
    assert(s.take(i + 1).drop_last() =~= s.take(i));
}

/// The text of a concatenation is the concatenation of the texts.
pub proof fn lemma_concat_map_append<A>(a: Seq<A>, b: Seq<A>, f: spec_fn(A) -> Seq<char>)
    ensures
        concat_map(a + b, f) == concat_map(a, f) + concat_map(b, f),
    decreases b.len(),
{
    if b.len() == 0 {
        assert(a + b =~= a);
        assert(concat_map(a, f) + Seq::<char>::empty() =~= concat_map(a, f));
    } else {
        lemma_concat_map_append(a, b.drop_last(), f);
        assert((a + b).drop_last() =~= a + b.drop_last());
        assert((a + b).last() == b.last());
        assert(concat_map(a, f) + (concat_map(b.drop_last(), f) + f(b.last())) =~= (concat_map(a, f)
            + concat_map(b.drop_last(), f)) + f(b.last()));
    }
}

/// The text of element `i` stands after the texts of exactly the elements
/// before it and is followed by the texts of exactly the elements after it.
pub proof fn lemma_concat_map_split<A>(s: Seq<A>, i: int, f: spec_fn(A) -> Seq<char>)
    requires
        0 <= i < s.len(),
    ensures
        concat_map(s, f) == concat_map(s.take(i), f) + f(s[i]) + concat_map(s.skip(i + 1), f),
{
    lemma_concat_map_step(s, i, f);
    lemma_concat_map_append(s.take(i + 1), s.skip(i + 1), f);
    assert(s.take(i + 1) + s.skip(i + 1) =~= s);
}

/// The decimal digit `d` as text.
pub open spec fn digit_text(d: nat) -> Seq<char>
    recommends
        d < 10,
{
    if d == 0 {
        "0"@
    } else if d == 1 {
        "1"@
    } else if d == 2 {
        "2"@
    } else if d == 3 {
        "3"@
    } else if d == 4 {
        "4"@
    } else if d == 5 {
        "5"@
    } else if d == 6 {
        "6"@
    } else if d == 7 {
        "7"@
    } else if d == 8 {
        "8"@
    } else {
        "9"@
    }
}

/// The number `n` in decimal notation, without leading zeros.
pub open spec fn decimal_text(n: nat) -> Seq<char>
    decreases n,
{
    if n < 10 {
        digit_text(n)
    } else {
        decimal_text(n / 10) + digit_text(n % 10)
    }
}

/// Appends `n` in decimal notation.
pub fn push_decimal(out: &mut String, n: u64)
    ensures
        final(out)@ == old(out)@ + decimal_text(n as nat),
    decreases n,
{
    if n >= 10 {
        push_decimal(out, n / 10);
    }
    let d: u64 = n % 10;
    let digit: &str = if d == 0 {
        "0"
    } else if d == 1 {
        "1"
    } else if d == 2 {
        "2"
    } else if d == 3 {
        "3"
    } else if d == 4 {
        "4"
    } else if d == 5 {
        "5"
    } else if d == 6 {
        "6"
    } else if d == 7 {
        "7"
    } else if d == 8 {
        "8"
    } else {
        "9"
    };
    out.append(digit);
    proof {
        if n >= 10 {
            assert(old(out)@ + decimal_text((n / 10) as nat) + digit_text((n % 10) as nat) =~= old(
                out,
            )@ + (decimal_text((n / 10) as nat) + digit_text((n % 10) as nat)));
        }
    }
}

/// Whether `s` reads as `literal`.
pub fn text_is(s: &String, literal: &str) -> (res: bool)
    ensures
        res == (s@ == literal@),
{
    let other: String = literal.to_owned();
    *s == other
}

/// Whether `item` is one of the texts of `list`.
pub fn contains_text(list: &Vec<String>, item: &String) -> (res: bool)
    ensures
        res == list.deep_view().contains(item@),
{
    let mut i: usize = 0;
    while i < list.len()
        invariant
            i <= list.len(),
            forall|j: int| 0 <= j < i ==> list.deep_view()[j] != item@,
        decreases list.len() - i,
    {
        if list[i] == *item {
            assert(list.deep_view()[i as int] == item@);
            return true;
        }
        i += 1;
    }
    false
}

/// One character as it is written inside a string literal: the quote, the
/// backslash and the common control characters are escaped, any other
/// character stands for itself.
pub open spec fn escaped_char(c: char) -> Seq<char> {
    if c == '"' {
        "\\\""@
    } else if c == '\\' {
        "\\\\"@
    } else if c == '\n' {
        "\\n"@
    } else if c == '\r' {
        "\\r"@
    } else if c == '\t' {
        "\\t"@
    } else {
        seq![c]
    }
}

/// [`escaped_char`] as a step over characters.
pub open spec fn escaped_char_fn() -> spec_fn(char) -> Seq<char> {
    |c: char| escaped_char(c)
}

/// A text as it is written inside a string literal.
pub open spec fn escaped_text(text: Seq<char>) -> Seq<char> {
    concat_map(text, escaped_char_fn())
}

/// Appends a text as it is written inside a string literal.
pub fn push_escaped(out: &mut String, text: &str)
    ensures
        final(out)@ == old(out)@ + escaped_text(text@),
{
    let ghost step = escaped_char_fn();
    let n: usize = text.unicode_len();
    let mut i: usize = 0;
    proof {
        assert(out@ =~= old(out)@ + concat_map(text@.take(0), step));
    }
    while i < n
        invariant
            i <= n,
            n == text@.len(),
            step == escaped_char_fn(),
            out@ == old(out)@ + concat_map(text@.take(i as int), step),
        decreases n - i,
    {
        let ghost before = out@;
        let c: char = text.get_char(i);
        proof {
            lemma_concat_map_step(text@, i as int, step);
        }
        if c == '"' {
            out.append("\\\"");
        } else if c == '\\' {
            out.append("\\\\");
        } else if c == '\n' {
            out.append("\\n");
        } else if c == '\r' {
            out.append("\\r");
        } else if c == '\t' {
            out.append("\\t");
        } else {
            let single: &str = text.substring_char(i, i + 1);
            assert(single@ =~= seq![c]);
            out.append(single);
        }
        proof {
            assert(out@ =~= before + escaped_char(c));
            assert(out@ =~= old(out)@ + concat_map(text@.take(i + 1), step));
        }
        i += 1;
    }
    proof {
        assert(text@.take(n as int) =~= text@);
    }
}

} // verus!
