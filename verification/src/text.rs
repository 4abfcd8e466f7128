//! Decimal rendering of counters and the text of generated identifiers.

use vstd::prelude::*;

verus! {

/// The character that stands for the decimal digit `d`.
pub open spec fn digit_char(d: nat) -> char {
    if d == 0 {
        '0'
    } else if d == 1 {
        '1'
    } else if d == 2 {
        '2'
    } else if d == 3 {
        '3'
    } else if d == 4 {
        '4'
    } else if d == 5 {
        '5'
    } else if d == 6 {
        '6'
    } else if d == 7 {
        '7'
    } else if d == 8 {
        '8'
    } else {
        '9'
    }
}

/// The value of a decimal digit character; ten for any other character.
pub open spec fn digit_value(c: char) -> nat {
    if c == '0' {
        0
    } else if c == '1' {
        1
    } else if c == '2' {
        2
    } else if c == '3' {
        3
    } else if c == '4' {
        4
    } else if c == '5' {
        5
    } else if c == '6' {
        6
    } else if c == '7' {
        7
    } else if c == '8' {
        8
    } else if c == '9' {
        9
    } else {
        10
    }
}

/// The decimal numeral of `n`, most significant digit first, without leading zeros.
pub open spec fn decimal(n: nat) -> Seq<char>
    decreases n,
{
    if n < 10 {
        seq![digit_char(n)]
    } else {
        decimal(n / 10).push(digit_char(n % 10))
    }
}

/// The number that a sequence of digits denotes, read most significant digit first.
pub open spec fn decimal_value(s: Seq<char>) -> nat
    decreases s.len(),
{
    if s.len() == 0 {
        0
    } else {
        decimal_value(s.drop_last()) * 10 + digit_value(s.last())
    }
}

/// Reading back the numeral of `n` gives `n`.
pub proof fn lemma_decimal_value_of_decimal(n: nat)
    ensures
        decimal_value(decimal(n)) == n,
    decreases n,
{
    let s = decimal(n);
    if n < 10 {
        assert(s.drop_last() =~= Seq::<char>::empty());
        assert(decimal_value(s.drop_last()) == 0);
        assert(s.last() == digit_char(n));
        assert(digit_value(digit_char(n)) == n);
    } else {
        lemma_decimal_value_of_decimal(n / 10);
        assert(s.drop_last() =~= decimal(n / 10));
        assert(s.last() == digit_char(n % 10));
        assert(digit_value(digit_char(n % 10)) == n % 10);
    }
    assert(decimal_value(s) == decimal_value(s.drop_last()) * 10 + digit_value(s.last()));
}

/// Two numbers with the same numeral are equal.
pub proof fn lemma_decimal_injective(a: nat, b: nat)
    requires
        decimal(a) == decimal(b),
    ensures
        a == b,
{
    lemma_decimal_value_of_decimal(a);
    lemma_decimal_value_of_decimal(b);
}

/// The one-character text of a decimal digit.
fn digit_str(d: u64) -> (s: &'static str)
    requires
        d < 10,
    ensures
        s@ == seq![digit_char(d as nat)],
{
    proof {
        reveal_strlit("0");
        reveal_strlit("1");
        reveal_strlit("2");
        reveal_strlit("3");
        reveal_strlit("4");
        reveal_strlit("5");
        reveal_strlit("6");
        reveal_strlit("7");
        reveal_strlit("8");
        reveal_strlit("9");
    }
    let s = if d == 0 {
        "0"
    } else if d == 1 {
        "1"
    } else if d == 2 {
        "2"
    } else if d == 3 {
        "3"
    } else if d == 4 {
        "4"
    } else if d == 5 {
        "5"
    } else if d == 6 {
        "6"
    } else if d == 7 {
        "7"
    } else if d == 8 {
        "8"
    } else {
        "9"
    };
    assert(s@ =~= seq![digit_char(d as nat)]);
    s
}

/// Renders `n` in decimal.
pub fn decimal_string(n: u64) -> (s: String)
    ensures
        s@ == decimal(n as nat),
    decreases n,
{
    if n < 10 {
        digit_str(n).to_owned()
    } else {
        let mut s = decimal_string(n / 10);
        s.append(digit_str(n % 10));
        assert(s@ =~= decimal(n as nat));
        s
    }
}


/// The text of the identifier issued for counter value `n`: `id_` and the numeral of `n`.
pub open spec fn id_text(n: nat) -> Seq<char> {
    seq!['i', 'd', '_'] + decimal(n)
}

/// The text of the identifier of the outcome at position `index` of the market called
/// `market_id`: the market's identifier, `_`, and the numeral of the position.
pub open spec fn outcome_id_text(market_id: Seq<char>, index: nat) -> Seq<char> {
    market_id + seq!['_'] + decimal(index)
}

/// Different counter values give different identifiers.
pub proof fn lemma_id_text_injective(a: nat, b: nat)
    requires
        id_text(a) == id_text(b),
    ensures
        a == b,
{
    assert(id_text(a).subrange(3, id_text(a).len() as int) =~= decimal(a));
    assert(id_text(b).subrange(3, id_text(b).len() as int) =~= decimal(b));
    lemma_decimal_injective(a, b);
}

/// Different positions in one market give different outcome identifiers.
pub proof fn lemma_outcome_id_text_injective(market_id: Seq<char>, a: nat, b: nat)
    requires
        outcome_id_text(market_id, a) == outcome_id_text(market_id, b),
    ensures
        a == b,
{
    let n = market_id.len() + 1;
    let ta = outcome_id_text(market_id, a);
    let tb = outcome_id_text(market_id, b);
    assert(ta.subrange(n as int, ta.len() as int) =~= decimal(a));
    assert(tb.subrange(n as int, tb.len() as int) =~= decimal(b));
    lemma_decimal_injective(a, b);
}

/// Renders the identifier issued for counter value `n`.
pub fn id_string(n: u64) -> (s: String)
    ensures
        s@ == id_text(n as nat),
{
    proof {
        reveal_strlit("id_");
    }
    let mut s = "id_".to_owned();
    let digits = decimal_string(n);
    s.append(digits.as_str());
    assert(s@ =~= id_text(n as nat));
    s
}

/// Renders the identifier of the outcome at position `index` of the market `market_id`.
pub fn outcome_id_string(market_id: &String, index: usize) -> (s: String)
    ensures
        s@ == outcome_id_text(market_id@, index as nat),
{
    proof {
        reveal_strlit("_");
    }
    let mut s = market_id.clone();
    s.append("_");
    let digits = decimal_string(index as u64);
    s.append(digits.as_str());
    assert(s@ =~= outcome_id_text(market_id@, index as nat));
    s
}

} // verus!
