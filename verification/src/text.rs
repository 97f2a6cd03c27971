use vstd::prelude::*;

verus! {

/// The character of a decimal digit.
pub open spec fn digit_char(d: nat) -> char {
    if d == 0 {
        '0'
    } else if d == 1 {
        '1'
    } else if d == 2 {
        '2'
    } else if d == 3 {
        '3'
    } else if d == 4 {
        '4'
    } else if d == 5 {
        '5'
    } else if d == 6 {
        '6'
    } else if d == 7 {
        '7'
    } else if d == 8 {
        '8'
    } else {
        '9'
    }
}

/// The decimal notation of a number, as `{}` writes it.
pub open spec fn decimal(n: nat) -> Seq<char>
    decreases n,
{
    if n < 10 {
        seq![digit_char(n)]
    } else {
        decimal(n / 10).push(digit_char(n % 10))
    }
}

fn digit_str(d: usize) -> (r: &'static str)
    requires
        d < 10,
    ensures
        r@ == seq![digit_char(d as nat)],
{
    if d == 0 {
        proof { reveal_strlit("0"); }
        "0"
    } else if d == 1 {
        proof { reveal_strlit("1"); }
        "1"
    } else if d == 2 {
        proof { reveal_strlit("2"); }
        "2"
    } else if d == 3 {
        proof { reveal_strlit("3"); }
        "3"
    } else if d == 4 {
        proof { reveal_strlit("4"); }
        "4"
    } else if d == 5 {
        proof { reveal_strlit("5"); }
        "5"
    } else if d == 6 {
        proof { reveal_strlit("6"); }
        "6"
    } else if d == 7 {
        proof { reveal_strlit("7"); }
        "7"
    } else if d == 8 {
        proof { reveal_strlit("8"); }
        "8"
    } else {
        proof { reveal_strlit("9"); }
        "9"
    }
}

/// Appends the decimal notation of `n` to `s`.
pub fn push_decimal(s: &mut String, n: usize)
    ensures
        final(s)@ == old(s)@ + decimal(n as nat),
    decreases n,
{
    if n < 10 {
        s.append(digit_str(n));
    } else {
        push_decimal(s, n / 10);
        s.append(digit_str(n % 10));
        proof {
            assert(decimal(n as nat) == decimal((n / 10) as nat).push(digit_char((n % 10) as nat)));
        }
    }
}

/// The notation of a list of numbers, as `{:?}` writes it: the numbers
/// separated by a comma and a space, between brackets.
pub open spec fn decimal_list(v: Seq<usize>) -> Seq<char>
    decreases v.len(),
{
    if v.len() == 0 {
        seq!['[', ']']
    } else {
        seq!['['] + list_items(v) + seq![']']
    }
}

/// The numbers of a non-empty list, separated by a comma and a space.
pub open spec fn list_items(v: Seq<usize>) -> Seq<char>
    decreases v.len(),
{
    if v.len() <= 1 {
        if v.len() == 1 {
            decimal(v[0] as nat)
        } else {
            Seq::empty()
        }
    } else {
        list_items(v.drop_last()) + seq![',', ' '] + decimal(v.last() as nat)
    }
}

/// Appends the notation of a list of numbers to `s`.
pub fn push_decimal_list(s: &mut String, v: &[usize])
    ensures
        final(s)@ == old(s)@ + decimal_list(v@),
{
    proof {
        reveal_strlit("[");
        reveal_strlit("]");
        reveal_strlit(", ");
    }
    let ghost s0 = s@;
    s.append("[");
    let mut i: usize = 0;
    while i < v.len()
        invariant
            i <= v@.len(),
            s@ == s0 + seq!['['] + list_items(v@.take(i as int)),
        decreases v@.len() - i,
    {
        proof {
            assert(v@.take(i + 1).drop_last() =~= v@.take(i as int));
            assert(v@.take(i + 1).last() == v@[i as int]);
        }
        let ghost before = s@;
        if i > 0 {
            s.append(", ");
            proof {
                reveal_strlit(", ");
                assert(s@ =~= before + seq![',', ' ']);
            }
        }
        let ghost mid = s@;
        push_decimal(s, v[i]);
        proof {
            if i == 0 {
                assert(list_items(v@.take(1)) == decimal(v@[0] as nat));
                assert(list_items(v@.take(0)) =~= Seq::<char>::empty());
                assert(mid == before);
            } else {
                assert(list_items(v@.take(i + 1)) == list_items(v@.take(i as int)) + seq![',', ' ']
                    + decimal(v@[i as int] as nat));
            }
            assert(s@ =~= s0 + seq!['['] + list_items(v@.take(i + 1)));
        }
        i = i + 1;
    }
    s.append("]");
    proof {
        assert(v@.take(v@.len() as int) =~= v@);
        if v@.len() == 0 {
            assert(list_items(v@) =~= Seq::<char>::empty());
        }
        assert(s@ =~= s0 + decimal_list(v@));
    }
}

/// The start of a message about segment `idx` of kind `label` in pass `pass`.
pub open spec fn segment_head(pass: Seq<char>, idx: usize, label: Seq<char>) -> Seq<char> {
    pass + ": segment "@ + decimal(idx as nat) + " ("@ + label + "): "@
}

/// A message about segment `idx` of kind `label` in pass `pass`.
pub fn segment_message(pass: &str, idx: usize, label: &str, detail: &str) -> (r: String)
    ensures
        r@ == segment_head(pass@, idx, label@) + detail@,
{
    let mut m = pass.to_string();
    m.append(": segment ");
    push_decimal(&mut m, idx);
    m.append(" (");
    m.append(label);
    m.append("): ");
    m.append(detail);
    assert(m@ =~= segment_head(pass@, idx, label@) + detail@);
    m
}

/// A message about segment `idx` of kind `label` in pass `pass` that ends
/// with a count.
pub fn segment_count_message(pass: &str, idx: usize, label: &str, detail: &str, n: usize) -> (r: String)
    ensures
        r@ == segment_head(pass@, idx, label@) + detail@ + decimal(n as nat),
{
    let mut m = segment_message(pass, idx, label, detail);
    push_decimal(&mut m, n);
    m
}

/// A note about segment `idx` in pass `pass`, without its kind.
pub fn segment_note(pass: &str, idx: usize, note: &str) -> (r: String)
    ensures
        r@ == pass@ + ": segment "@ + decimal(idx as nat) + note@,
{
    let mut m = pass.to_string();
    m.append(": segment ");
    push_decimal(&mut m, idx);
    m.append(note);
    assert(m@ =~= pass@ + ": segment "@ + decimal(idx as nat) + note@);
    m
}

/// A message that ends with a count.
pub fn count_message(text: &str, n: usize) -> (r: String)
    ensures
        r@ == text@ + decimal(n as nat),
{
    let mut m = text.to_string();
    push_decimal(&mut m, n);
    m
}

} // verus!
