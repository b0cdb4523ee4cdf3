use vstd::prelude::*;

verus! {

/// The character of a decimal digit.
pub open spec fn digit_char(d: nat) -> char
    recommends
        d < 10,
{
    if d == 0 { '0' }
    else if d == 1 { '1' }
    else if d == 2 { '2' }
    else if d == 3 { '3' }
    else if d == 4 { '4' }
    else if d == 5 { '5' }
    else if d == 6 { '6' }
    else if d == 7 { '7' }
    else if d == 8 { '8' }
    else { '9' }
}

/// The decimal notation of `n`: most significant digit first, no leading zeros.
pub open spec fn decimal(n: nat) -> Seq<char>
    decreases n,
{
    if n < 10 {
        seq![digit_char(n)]
    } else {
        decimal(n / 10).push(digit_char(n % 10))
    }
}

/// Appends the single digit `d` to `s`.
fn append_digit(s: &mut String, d: u32)
    requires
        d < 10,
    ensures
        final(s)@ == old(s)@.push(digit_char(d as nat)),
{
    let lit: &str = if d == 0 { "0" }
        else if d == 1 { "1" }
        else if d == 2 { "2" }
        else if d == 3 { "3" }
        else if d == 4 { "4" }
        else if d == 5 { "5" }
        else if d == 6 { "6" }
        else if d == 7 { "7" }
        else if d == 8 { "8" }
        else { "9" };
    proof {
        reveal_strlit("0");
        reveal_strlit("1");
        reveal_strlit("2");
        reveal_strlit("3");
        reveal_strlit("4");
        reveal_strlit("5");
        reveal_strlit("6");
        reveal_strlit("7");
        reveal_strlit("8");
        reveal_strlit("9");
    }
    s.append(lit);
    assert(s@ =~= old(s)@.push(digit_char(d as nat)));
}

/// Appends the decimal notation of `n` to `s`.
fn append_decimal(s: &mut String, n: u32)
    ensures
        final(s)@ == old(s)@ + decimal(n as nat),
    decreases n,
{
    if n >= 10 {
        append_decimal(s, n / 10);
    }
    append_digit(s, n % 10);
    assert(s@ =~= old(s)@ + decimal(n as nat));
}

/// The text that the unit of work with index `i` emits.
pub open spec fn message_of(i: nat) -> Seq<char> {
    "this is thread number "@ + decimal(i)
}

/// The line that the unit of work with index `i` emits: `this is thread number <i>`.
pub fn thread_message(i: u32) -> (r: String)
    ensures
        r@ == message_of(i as nat),
{
    let mut s = String::from_str("this is thread number ");
    append_decimal(&mut s, i);
    s
}

proof fn lemma_decimal_len(n: nat)
    ensures
        decimal(n).len() >= 1,
        n >= 10 ==> decimal(n).len() >= 2,
    decreases n,
{
    if n >= 10 {
        lemma_decimal_len(n / 10);
    }
}

proof fn lemma_decimal_injective(i: nat, j: nat)
    requires
        decimal(i) == decimal(j),
    ensures
        i == j,
    decreases i,
{
    lemma_decimal_len(i);
    lemma_decimal_len(j);
    let di = decimal(i);
    let dj = decimal(j);
    assert(di.last() == dj.last());
    if i >= 10 && j >= 10 {
        assert(decimal(i / 10) =~= di.drop_last());
        assert(decimal(j / 10) =~= dj.drop_last());
        lemma_decimal_injective(i / 10, j / 10);
    } else if i < 10 && j < 10 {
    } else {
        assert(di.len() != dj.len());
    }
}

/// Units with different indices emit different lines, so each index is
/// named by exactly one message.
pub proof fn lemma_messages_distinct(i: nat, j: nat)
    requires
        i != j,
    ensures
        message_of(i) != message_of(j),
{
    if message_of(i) == message_of(j) {
        let p = "this is thread number "@;
        assert(decimal(i) =~= message_of(i).subrange(p.len() as int, message_of(i).len() as int));
        assert(decimal(j) =~= message_of(j).subrange(p.len() as int, message_of(j).len() as int));
        lemma_decimal_injective(i, j);
    }
}

} // verus!
