use vstd::prelude::*;

verus! {

/// The decimal digit character for a value below ten.
pub open spec fn dec_digit_char(d: nat) -> char {
    if d == 0 {
        '0'
    } else if d == 1 {
        '1'
    } else if d == 2 {
        '2'
    } else if d == 3 {
        '3'
    } else if d == 4 {
        '4'
    } else if d == 5 {
        '5'
    } else if d == 6 {
        '6'
    } else if d == 7 {
        '7'
    } else if d == 8 {
        '8'
    } else {
        '9'
    }
}

/// The decimal numeral of a natural number, most significant digit first.
pub open spec fn dec_seq(n: nat) -> Seq<char>
    decreases n,
{
    if n < 10 {
        seq![dec_digit_char(n)]
    } else {
        dec_seq(n / 10).push(dec_digit_char(n % 10))
    }
}

/// The decimal numeral of a natural number, left-padded with zeros to at
/// least two digits.
pub open spec fn dec_seq_pad2(n: nat) -> Seq<char> {
    if n < 10 {
        seq!['0'].add(dec_seq(n))
    } else {
        dec_seq(n)
    }
}

fn digit_literal(d: u64) -> (r: &'static str)
    requires
        d < 10,
    ensures
        r@ =~= seq![dec_digit_char(d as nat)],
{
    proof {
        reveal_strlit("0");
        reveal_strlit("1");
        reveal_strlit("2");
        reveal_strlit("3");
        reveal_strlit("4");
        reveal_strlit("5");
        reveal_strlit("6");
        reveal_strlit("7");
        reveal_strlit("8");
        reveal_strlit("9");
    }
    match d {
        0 => "0",
        1 => "1",
        2 => "2",
        3 => "3",
        4 => "4",
        5 => "5",
        6 => "6",
        7 => "7",
        8 => "8",
        _ => "9",
    }
}

/// Appends the decimal numeral of `n` to `s`.
pub fn push_dec(s: &mut String, n: u64)
    ensures
        final(s)@ == old(s)@ + dec_seq(n as nat),
    decreases n,
{
    if n >= 10 {
        push_dec(s, n / 10);
    }
    s.append(digit_literal(n % 10));
    proof {
        assert(s@ =~= old(s)@ + dec_seq(n as nat));
    }
}

/// The decimal numeral of `n` as a string.
pub fn dec_string(n: u64) -> (r: String)
    ensures
        r@ == dec_seq(n as nat),
{
    let mut s = String::new();
    push_dec(&mut s, n);
    proof {
        assert(s@ =~= dec_seq(n as nat));
    }
    s
}

/// Appends the decimal numeral of `n`, zero-padded to at least two digits.
pub fn push_dec_pad2(s: &mut String, n: u64)
    ensures
        final(s)@ == old(s)@ + dec_seq_pad2(n as nat),
{
    if n < 10 {
        proof {
            reveal_strlit("0");
        }
        s.append("0");
    }
    push_dec(s, n);
    proof {
        assert(s@ =~= old(s)@ + dec_seq_pad2(n as nat));
    }
}

/// Joins the parts with a one-character separator between neighbours.
pub fn join_sep(parts: &Vec<String>, sep: &str) -> (r: String)
    requires
        sep@.len() == 1,
    ensures
        r@ == crate::command::join_with(crate::command::strs_view(parts@), sep@[0]),
{
    let ghost texts = crate::command::strs_view(parts@);
    let mut out = String::new();
    for i in 0..parts.len()
        invariant
            sep@.len() == 1,
            texts == crate::command::strs_view(parts@),
            out@ == crate::command::join_with(texts.take(i as int), sep@[0]),
    {
        if i > 0 {
            out.append(sep);
        }
        out.append(parts[i].as_str());
        proof {
            assert(texts.take(i as int).push(texts[i as int]) =~= texts.take(i + 1));
            crate::command::lemma_join_push(texts.take(i as int), texts[i as int], sep@[0]);
            assert(out@ =~= crate::command::join_with(texts.take(i + 1), sep@[0]));
        }
    }
    proof {
        assert(texts.take(parts@.len() as int) =~= texts);
    }
    out
}

/// Relies on `str`'s `PartialEq`: two string slices compare equal exactly
/// when their character sequences are equal.
#[verifier::external_body]
pub fn str_eq(a: &str, b: &str) -> (r: bool)
    ensures
        r == (a@ == b@),
{
    a == b
}

} // verus!
