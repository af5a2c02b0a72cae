//! Numbers written out in decimal, as `{}` formats them.
use vstd::prelude::*;

verus! {

/// The character of a decimal digit.
pub open spec fn digit_char(d: nat) -> char {
    if d == 0 { '0' }
    else if d == 1 { '1' }
    else if d == 2 { '2' }
    else if d == 3 { '3' }
    else if d == 4 { '4' }
    else if d == 5 { '5' }
    else if d == 6 { '6' }
    else if d == 7 { '7' }
    else if d == 8 { '8' }
    else { '9' }
}

/// The decimal digits of `n`, most significant first, without leading zeros.
pub open spec fn decimal(n: nat) -> Seq<char>
    decreases n,
{
    if n < 10 {
        seq![digit_char(n)]
    } else {
        decimal(n / 10).push(digit_char(n % 10))
    }
}

/// Ten to the power `k`.
pub open spec fn pow10(k: nat) -> nat
    decreases k,
{
    if k == 0 { 1 } else { 10 * pow10((k - 1) as nat) }
}

/// A number below `10^k` takes at most `k` digits.
pub proof fn lemma_decimal_len(n: nat, k: nat)
    requires
        1 <= k,
        n < pow10(k),
    ensures
        decimal(n).len() <= k,
    decreases k,
{
    if n >= 10 {
        if k == 1 {
            assert(pow10(1) == 10) by {
                reveal_with_fuel(pow10, 2);
            }
        } else {
            lemma_decimal_len(n / 10, (k - 1) as nat);
        }
    }
}

/// A 64-bit number takes at most twenty digits.
pub proof fn lemma_decimal_len_u64(n: u64)
    ensures
        decimal(n as nat).len() <= 20,
{
    assert(pow10(20) == 100000000000000000000nat) by {
        reveal_with_fuel(pow10, 21);
    }
    lemma_decimal_len(n as nat, 20);
}

/// UTF-8 spends at most four bytes on a character.
pub proof fn lemma_utf8_len(chars: Seq<char>)
    ensures
        vstd::utf8::encode_utf8(chars).len() <= 4 * chars.len(),
    decreases chars.len(),
{
    if chars.len() > 0 {
        lemma_utf8_len(chars.drop_first());
    }
}

/// The pieces of `s` between occurrences of `sep`, as `str::split` gives
/// them: one more piece than there are separators, empty pieces kept.
pub open spec fn split_on(s: Seq<char>, sep: char) -> Seq<Seq<char>>
    decreases s.len(),
{
    if s.len() == 0 {
        seq![Seq::<char>::empty()]
    } else {
        let init = split_on(s.drop_last(), sep);
        if s.last() == sep {
            init.push(Seq::<char>::empty())
        } else {
            init.update(init.len() - 1, init.last().push(s.last()))
        }
    }
}

/// Splitting never yields an empty list of pieces.
pub proof fn lemma_split_nonempty(s: Seq<char>, sep: char)
    ensures
        split_on(s, sep).len() >= 1,
    decreases s.len(),
{
    if s.len() > 0 {
        lemma_split_nonempty(s.drop_last(), sep);
    }
}

/// Appending text without a separator extends the last piece.
pub proof fn lemma_split_append_plain(x: Seq<char>, a: Seq<char>, sep: char)
    requires
        !a.contains(sep),
    ensures
        split_on(x + a, sep) == split_on(x, sep).drop_last().push(split_on(x, sep).last() + a),
    decreases a.len(),
{
    lemma_split_nonempty(x, sep);
    if a.len() == 0 {
        assert(x + a =~= x);
        assert(split_on(x, sep).last() + a =~= split_on(x, sep).last());
        assert(split_on(x, sep).drop_last().push(split_on(x, sep).last()) =~= split_on(x, sep));
    } else {
        let a0 = a.drop_last();
        assert(!a0.contains(sep)) by {
            if a0.contains(sep) {
                let i = choose|i: int| 0 <= i < a0.len() && a0[i] == sep;
                assert(a[i] == sep);
            }
        }
        assert(a.last() != sep) by {
            assert(a[a.len() - 1] == a.last());
        }
        lemma_split_append_plain(x, a0, sep);
        assert((x + a).drop_last() =~= x + a0);
        assert((x + a).last() == a.last());
        assert((split_on(x, sep).last() + a0).push(a.last()) =~= split_on(x, sep).last() + a);
    }
}

/// Appending text without a separator and then a separator closes a piece:
/// the pieces so far gain that text and a new, empty last piece.
pub proof fn lemma_split_field(x: Seq<char>, pieces: Seq<Seq<char>>, a: Seq<char>, sep: char)
    requires
        split_on(x, sep) == pieces.push(Seq::<char>::empty()),
        !a.contains(sep),
    ensures
        split_on(x + a + seq![sep], sep) == pieces.push(a).push(Seq::<char>::empty()),
{
    lemma_split_append_plain(x, a, sep);
    let y = x + a + seq![sep];
    assert(y.drop_last() =~= x + a);
    assert(y.last() == sep);
    assert(pieces.push(Seq::<char>::empty()).drop_last() =~= pieces);
    assert(Seq::<char>::empty() + a =~= a);
}

/// Whether `s` is a non-empty run of decimal digits.
pub open spec fn is_decimal(s: Seq<char>) -> bool {
    s.len() >= 1 && forall|i: int| 0 <= i < s.len() ==> '0' <= #[trigger] s[i] <= '9'
}

/// The number that a run of decimal digits spells.
pub open spec fn decimal_value(s: Seq<char>) -> int
    decreases s.len(),
{
    if s.len() == 0 {
        0
    } else {
        decimal_value(s.drop_last()) * 10 + (s.last() as int - '0' as int)
    }
}

/// A digit's character is a digit and stands for that digit.
pub proof fn lemma_digit_char(d: nat)
    requires
        d < 10,
    ensures
        '0' <= digit_char(d) <= '9',
        digit_char(d) as int - '0' as int == d,
{
}

/// The decimal digits of a number are digits, contain no other character,
/// and spell the number back.
pub proof fn lemma_decimal_parses_back(n: nat)
    ensures
        is_decimal(decimal(n)),
        decimal_value(decimal(n)) == n,
        !decimal(n).contains(';'),
    decreases n,
{
    lemma_digit_char(n % 10);
    if n < 10 {
        assert(decimal(n).drop_last() =~= Seq::<char>::empty());
        assert(decimal(n).last() == digit_char(n));
        assert(decimal_value(decimal(n)) == decimal_value(decimal(n).drop_last()) * 10 + (
        decimal(n).last() as int - '0' as int));
        assert(decimal_value(Seq::<char>::empty()) == 0);
    } else {
        lemma_decimal_parses_back(n / 10);
        let d = decimal(n);
        assert(d.drop_last() =~= decimal(n / 10));
        assert(d.last() == digit_char(n % 10));
        assert(decimal_value(d) == decimal_value(d.drop_last()) * 10 + (d.last() as int - '0' as int));
        assert(decimal_value(d.drop_last()) == (n / 10) as int);
        assert(forall|i: int| 0 <= i < d.len() - 1 ==> d[i] == decimal(n / 10)[i]);
    }
    assert(!decimal(n).contains(';')) by {
        if decimal(n).contains(';') {
            let i = choose|i: int| 0 <= i < decimal(n).len() && decimal(n)[i] == ';';
            assert('0' <= decimal(n)[i] <= '9');
        }
    }
}

fn digit_str(d: u64) -> (s: &'static str)
    requires
        d < 10,
    ensures
        s@ == seq![digit_char(d as nat)],
{
    proof {
        reveal_strlit("0");
        reveal_strlit("1");
        reveal_strlit("2");
        reveal_strlit("3");
        reveal_strlit("4");
        reveal_strlit("5");
        reveal_strlit("6");
        reveal_strlit("7");
        reveal_strlit("8");
        reveal_strlit("9");
    }
    if d == 0 { "0" }
    else if d == 1 { "1" }
    else if d == 2 { "2" }
    else if d == 3 { "3" }
    else if d == 4 { "4" }
    else if d == 5 { "5" }
    else if d == 6 { "6" }
    else if d == 7 { "7" }
    else if d == 8 { "8" }
    else { "9" }
}

/// Appends the decimal digits of `n` to `out`.
pub fn push_decimal(out: &mut String, n: u64)
    ensures
        final(out)@ == old(out)@ + decimal(n as nat),
    decreases n,
{
    if n >= 10 {
        push_decimal(out, n / 10);
    }
    out.append(digit_str(n % 10));
    proof {
        if n >= 10 {
            assert(decimal(n as nat) == decimal((n / 10) as nat).push(digit_char((n % 10) as nat)));
        }
    }
}

/// `prefix`, the decimal digits of `n`, then `suffix`, as one string.
pub fn message_with_number(prefix: &str, n: u64, suffix: &str) -> (m: String)
    ensures
        m@ == prefix@ + decimal(n as nat) + suffix@,
{
    let mut m = String::from_str(prefix);
    push_decimal(&mut m, n);
    m.append(suffix);
    m
}

} // verus!
