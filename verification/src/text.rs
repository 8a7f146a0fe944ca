use vstd::prelude::*;

verus! {

/// The character of a decimal digit.
pub open spec fn digit_char(d: nat) -> char {
    if d == 0 { '0' }
    else if d == 1 { '1' }
    else if d == 2 { '2' }
    else if d == 3 { '3' }
    else if d == 4 { '4' }
    else if d == 5 { '5' }
    else if d == 6 { '6' }
    else if d == 7 { '7' }
    else if d == 8 { '8' }
    else { '9' }
}

/// The decimal digits of `n`, most significant first, with no leading zero
/// (zero itself is the single digit `0`).
pub open spec fn decimal(n: nat) -> Seq<char>
    decreases n,
{
    if n < 10 {
        seq![digit_char(n)]
    } else {
        decimal(n / 10).push(digit_char(n % 10))
    }
}

/// The parts separated by a comma and a space, as in an argument list.
pub open spec fn join_comma(parts: Seq<Seq<char>>) -> Seq<char>
    decreases parts.len(),
{
    if parts.len() == 0 {
        Seq::empty()
    } else if parts.len() == 1 {
        parts[0]
    } else {
        join_comma(parts.drop_last()) + seq![',', ' '] + parts.last()
    }
}

fn digit_text(d: usize) -> (text: &'static str)
    requires
        d < 10,
    ensures
        text@ == seq![digit_char(d as nat)],
{
    proof {
        reveal_strlit("0");
        reveal_strlit("1");
        reveal_strlit("2");
        reveal_strlit("3");
        reveal_strlit("4");
        reveal_strlit("5");
        reveal_strlit("6");
        reveal_strlit("7");
        reveal_strlit("8");
        reveal_strlit("9");
    }
    if d == 0 { "0" }
    else if d == 1 { "1" }
    else if d == 2 { "2" }
    else if d == 3 { "3" }
    else if d == 4 { "4" }
    else if d == 5 { "5" }
    else if d == 6 { "6" }
    else if d == 7 { "7" }
    else if d == 8 { "8" }
    else { "9" }
}

/// Writes `n` in decimal.
pub fn decimal_text(n: usize) -> (text: String)
    ensures
        text@ == decimal(n as nat),
    decreases n,
{
    if n < 10 {
        digit_text(n).to_owned()
    } else {
        let mut text = decimal_text(n / 10);
        text.append(digit_text(n % 10));
        text
    }
}

/// Joins the parts with a comma and a space between each two.
pub fn join_comma_text(parts: &Vec<String>) -> (text: String)
    ensures
        text@ == join_comma(parts@.map_values(|p: String| p@)),
{
    let ghost views = parts@.map_values(|p: String| p@);
    let mut text = String::new();
    let n = parts.len();
    assert(views.take(0) =~= Seq::<Seq<char>>::empty());
    for i in 0..n
        invariant
            n == parts@.len(),
            views == parts@.map_values(|p: String| p@),
            text@ == join_comma(views.take(i as int)),
    {
        proof {
            reveal_strlit(", ");
        }
        if i != 0 {
            text.append(", ");
        }
        text.append(parts[i].as_str());
        assert(views.take(i + 1).drop_last() =~= views.take(i as int));
        assert(views.take(i + 1).last() == parts@[i as int]@);
        if i == 0 {
            assert(views.take(1)[0] == parts@[0]@);
        }
        assert(text@ =~= join_comma(views.take(i + 1)));
    }
    assert(views.take(n as int) =~= views);
    text
}

/// The value of a decimal digit character (non-digits count as nine).
pub open spec fn digit_value(c: char) -> nat {
    if c == '0' { 0 }
    else if c == '1' { 1 }
    else if c == '2' { 2 }
    else if c == '3' { 3 }
    else if c == '4' { 4 }
    else if c == '5' { 5 }
    else if c == '6' { 6 }
    else if c == '7' { 7 }
    else if c == '8' { 8 }
    else { 9 }
}

/// The number a string of decimal digits denotes.
pub open spec fn digits_value(s: Seq<char>) -> nat
    decreases s.len(),
{
    if s.len() == 0 {
        0
    } else {
        digits_value(s.drop_last()) * 10 + digit_value(s.last())
    }
}

/// Reading back the decimal digits of `n` gives `n`.
pub proof fn law_decimal_reads_back(n: nat)
    ensures
        digits_value(decimal(n)) == n,
    decreases n,
{
    if n >= 10 {
        law_decimal_reads_back(n / 10);
        let d = decimal(n);
        assert(d.drop_last() =~= decimal(n / 10));
        assert(d.last() == digit_char(n % 10));
        assert(digit_value(digit_char(n % 10)) == n % 10);
        assert(n == (n / 10) * 10 + n % 10);
        assert(digits_value(d) == digits_value(d.drop_last()) * 10 + digit_value(d.last()));
    } else {
        let d = decimal(n);
        assert(d.drop_last() =~= Seq::<char>::empty());
        assert(digits_value(d) == digits_value(d.drop_last()) * 10 + digit_value(d.last()));
        assert(digit_value(digit_char(n)) == n);
    }
}

/// Distinct numbers have distinct decimal digits.
pub proof fn law_decimal_distinct(a: nat, b: nat)
    requires
        a != b,
    ensures
        decimal(a) != decimal(b),
{
    law_decimal_reads_back(a);
    law_decimal_reads_back(b);
}

/// Joining keeps every part: no parts join to nothing, a single part is
/// itself, and adding a part to
/// a non-empty list adds `, ` and that part to the end of the joined text,
/// at every length. The joined text is as long as the parts together plus
/// two characters per separator.
pub proof fn law_join_comma_appends(parts: Seq<Seq<char>>, x: Seq<char>)
    ensures
        join_comma(Seq::<Seq<char>>::empty()) == Seq::<char>::empty(),
        join_comma(seq![x]) == x,
        parts.len() > 0 ==> join_comma(parts.push(x)) == join_comma(parts) + seq![',', ' '] + x,
{
    assert(parts.push(x).drop_last() =~= parts);
}

/// The length of the parts together.
pub open spec fn total_len(parts: Seq<Seq<char>>) -> nat
    decreases parts.len(),
{
    if parts.len() == 0 {
        0
    } else {
        total_len(parts.drop_last()) + parts.last().len()
    }
}

/// The joined text holds every character of every part and two characters
/// for each separator between two parts.
pub proof fn law_join_comma_length(parts: Seq<Seq<char>>)
    requires
        parts.len() > 0,
    ensures
        join_comma(parts).len() == total_len(parts) + 2 * (parts.len() - 1),
    decreases parts.len(),
{
    if parts.len() > 1 {
        law_join_comma_length(parts.drop_last());
        assert(join_comma(parts) == join_comma(parts.drop_last()) + seq![',', ' '] + parts.last());
        assert(total_len(parts) == total_len(parts.drop_last()) + parts.last().len());
    } else {
        assert(parts.drop_last() =~= Seq::<Seq<char>>::empty());
        assert(total_len(parts) == total_len(parts.drop_last()) + parts.last().len());
        assert(parts.last() == parts[0]);
    }
}

} // verus!
