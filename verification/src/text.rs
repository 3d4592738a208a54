//! Spelling values out for logs and errors.

use vstd::prelude::*;
use vstd::string::*;

verus! {

/// The character for one digit, in bases up to sixteen.
pub open spec fn digit(value: int) -> char {
    if value == 0 {
        '0'
    } else if value == 1 {
        '1'
    } else if value == 2 {
        '2'
    } else if value == 3 {
        '3'
    } else if value == 4 {
        '4'
    } else if value == 5 {
        '5'
    } else if value == 6 {
        '6'
    } else if value == 7 {
        '7'
    } else if value == 8 {
        '8'
    } else if value == 9 {
        '9'
    } else if value == 10 {
        'a'
    } else if value == 11 {
        'b'
    } else if value == 12 {
        'c'
    } else if value == 13 {
        'd'
    } else if value == 14 {
        'e'
    } else {
        'f'
    }
}

/// A number in positional notation without leading zeroes.
pub open spec fn numeral(value: nat, base: nat) -> Seq<char>
    decreases value,
{
    if base < 2 || value < base {
        seq![digit(value as int)]
    } else {
        proof {
            assert(value / base < value) by (nonlinear_arith)
                requires
                    2 <= base <= value,
            ;
        }
        numeral(value / base, base).push(digit((value % base) as int))
    }
}

proof fn lemma_shrinks(value: nat, base: nat)
    requires
        2 <= base <= value,
    ensures
        value / base < value,
{
    assert(value / base < value) by (nonlinear_arith)
        requires
            2 <= base <= value,
    ;
}

/// A number in decimal.
pub open spec fn decimal(value: nat) -> Seq<char> {
    numeral(value, 10)
}

/// A number in hexadecimal, with its prefix.
pub open spec fn hex(value: nat) -> Seq<char> {
    "0x"@ + numeral(value, 16)
}

/// A signed number in decimal.
pub open spec fn signed(value: int) -> Seq<char> {
    if value < 0 {
        "-"@ + decimal((-value) as nat)
    } else {
        decimal(value as nat)
    }
}

/// `parts` one after another with `separator` between them.
pub open spec fn joined(parts: Seq<Seq<char>>, separator: Seq<char>) -> Seq<char>
    decreases parts.len(),
{
    if parts.len() == 0 {
        Seq::empty()
    } else if parts.len() == 1 {
        parts[0]
    } else {
        joined(parts.drop_last(), separator) + separator + parts.last()
    }
}

fn digit_str(value: u64) -> (r: &'static str)
    requires
        value < 16,
    ensures
        r@ == seq![digit(value as int)],
{
    proof {
        reveal_strlit("0");
        reveal_strlit("1");
        reveal_strlit("2");
        reveal_strlit("3");
        reveal_strlit("4");
        reveal_strlit("5");
        reveal_strlit("6");
        reveal_strlit("7");
        reveal_strlit("8");
        reveal_strlit("9");
        reveal_strlit("a");
        reveal_strlit("b");
        reveal_strlit("c");
        reveal_strlit("d");
        reveal_strlit("e");
        reveal_strlit("f");
    }
    let r = match value {
        0 => "0",
        1 => "1",
        2 => "2",
        3 => "3",
        4 => "4",
        5 => "5",
        6 => "6",
        7 => "7",
        8 => "8",
        9 => "9",
        10 => "a",
        11 => "b",
        12 => "c",
        13 => "d",
        14 => "e",
        _ => "f",
    };
    assert(r@ =~= seq![digit(value as int)]);
    r
}

/// Append a number in positional notation.
fn push_numeral(out: &mut String, value: u64, base: u64)
    requires
        2 <= base <= 16,
    ensures
        final(out)@ == old(out)@ + numeral(value as nat, base as nat),
    decreases value,
{
    if value >= base {
        proof {
            lemma_shrinks(value as nat, base as nat);
        }
        push_numeral(out, value / base, base);
    }
    out.append(digit_str(value % base));
    proof {
        if value < base {
            assert(value % base == value) by (nonlinear_arith)
                requires
                    value < base,
            ;
            assert(numeral(value as nat, base as nat) =~= seq![digit(value as int)]);
        } else {
            assert(old(out)@ + numeral((value / base) as nat, base as nat) + seq![
                digit((value % base) as int),
            ] =~= old(out)@ + numeral((value / base) as nat, base as nat).push(
                digit((value % base) as int),
            ));
        }
    }
}

/// Append a number in decimal.
pub fn push_decimal(out: &mut String, value: u64)
    ensures
        final(out)@ == old(out)@ + decimal(value as nat),
{
    push_numeral(out, value, 10);
}

/// Append a number in hexadecimal, with its prefix.
pub fn push_hex(out: &mut String, value: u64)
    ensures
        final(out)@ == old(out)@ + hex(value as nat),
{
    out.append("0x");
    push_numeral(out, value, 16);
    assert(out@ =~= old(out)@ + hex(value as nat));
}

/// Append a signed number in decimal.
pub fn push_signed(out: &mut String, value: i32)
    ensures
        final(out)@ == old(out)@ + signed(value as int),
{
    if value < 0 {
        out.append("-");
        push_decimal(out, (-(value as i64)) as u64);
        assert(out@ =~= old(out)@ + signed(value as int));
    } else {
        push_decimal(out, value as u64);
    }
}

/// The text of each string.
pub open spec fn texts(parts: Seq<String>) -> Seq<Seq<char>> {
    parts.map_values(|part: String| part@)
}

/// Join `parts` with `separator` between them.
pub fn join(parts: &Vec<String>, separator: &str) -> (r: String)
    ensures
        r@ == joined(texts(parts@), separator@),
{
    let mut out = String::new();
    let mut at: usize = 0;
    while at < parts.len()
        invariant
            at <= parts@.len(),
            out@ == joined(texts(parts@).take(at as int), separator@),
        decreases parts@.len() - at,
    {
        if at > 0 {
            out.append(separator);
        }
        out.append(parts[at].as_str());
        at = at + 1;
        assert(texts(parts@).take(at as int).drop_last() =~= texts(parts@).take(at - 1));
        assert(out@ =~= joined(texts(parts@).take(at as int), separator@));
    }
    assert(texts(parts@).take(at as int) =~= texts(parts@));
    out
}

/// The number a digit stands for.
pub open spec fn value_of(c: char) -> int {
    if '0' <= c <= '9' {
        c as int - '0' as int
    } else {
        c as int - 'a' as int + 10
    }
}

/// The number a run of digits stands for.
pub open spec fn read_back(digits: Seq<char>, base: int) -> int
    decreases digits.len(),
{
    if digits.len() == 0 {
        0
    } else {
        read_back(digits.drop_last(), base) * base + value_of(digits.last())
    }
}

/// A number that is spelled out reads back as itself, and has no leading zero unless it is
/// zero.
pub proof fn law_a_number_reads_back(value: nat, base: nat)
    requires
        2 <= base <= 16,
    ensures
        read_back(numeral(value, base), base as int) == value,
        numeral(value, base).len() > 0,
        value > 0 ==> numeral(value, base)[0] != '0',
        value == 0 ==> numeral(value, base).len() == 1,
    decreases value,
{
    if value < base {
        let digits = seq![digit(value as int)];
        assert(numeral(value, base) =~= digits);
        assert(digits.drop_last() =~= Seq::empty());
        assert(read_back(digits.drop_last(), base as int) == 0);
        assert(0 * base == 0);
    } else {
        lemma_shrinks(value, base);
        assert(value / base > 0) by (nonlinear_arith)
            requires
                2 <= base <= value,
        ;
        law_a_number_reads_back(value / base, base);
        let digits = numeral(value, base);
        assert(digits.drop_last() =~= numeral(value / base, base));
        vstd::arithmetic::div_mod::lemma_fundamental_div_mod(value as int, base as int);
        assert(0 <= value % base < base) by (nonlinear_arith)
            requires
                2 <= base,
        ;
        assert((value / base) * base == base * (value / base)) by (nonlinear_arith);
    }
}

/// The decimal, hexadecimal and signed spellings are the number in that base behind the
/// prefix or sign it takes.
pub proof fn law_what_a_spelling_says(value: nat, below: int)
    requires
        below < 0,
    ensures
        read_back(decimal(value), 10) == value,
        hex(value).len() > 2,
        hex(value)[0] == '0',
        hex(value)[1] == 'x',
        read_back(hex(value).subrange(2, hex(value).len() as int), 16) == value,
        signed(value as int) == decimal(value),
        signed(below)[0] == '-',
        read_back(signed(below).subrange(1, signed(below).len() as int), 10) == -below,
{
    reveal_strlit("0x");
    reveal_strlit("-");
    law_a_number_reads_back(value, 10);
    law_a_number_reads_back(value, 16);
    law_a_number_reads_back((-below) as nat, 10);
    assert(hex(value).subrange(2, hex(value).len() as int) =~= numeral(value, 16));
    assert(signed(below).subrange(1, signed(below).len() as int) =~= decimal((-below) as nat));
}

/// Joining puts every part in, in order, with the separator between each two and nowhere
/// else.
pub proof fn law_parts_are_joined_in_order(
    parts: Seq<Seq<char>>,
    part: Seq<char>,
    separator: Seq<char>,
)
    ensures
        joined(Seq::empty(), separator) == Seq::<char>::empty(),
        parts.len() == 0 ==> joined(parts.push(part), separator) == part,
        parts.len() > 0 ==> joined(parts.push(part), separator) == joined(parts, separator)
            + separator + part,
{
    assert(parts.push(part).drop_last() =~= parts);
}

} // verus!
