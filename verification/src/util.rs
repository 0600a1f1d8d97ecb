use vstd::prelude::*;

verus! {

/// The character for a single decimal digit.
pub open spec fn digit_char(d: nat) -> char {
    if d == 0 { '0' }
    else if d == 1 { '1' }
    else if d == 2 { '2' }
    else if d == 3 { '3' }
    else if d == 4 { '4' }
    else if d == 5 { '5' }
    else if d == 6 { '6' }
    else if d == 7 { '7' }
    else if d == 8 { '8' }
    else { '9' }
}

/// The decimal digits of `n`, most significant first.
pub open spec fn dec_digits(n: nat) -> Seq<char>
    decreases n,
{
    if n < 10 {
        seq![digit_char(n)]
    } else {
        dec_digits(n / 10).push(digit_char(n % 10))
    }
}

/// The characters for a sequence of digit values, drawn from last to first.
spec fn rev_chars(ds: Seq<u64>) -> Seq<char>
    decreases ds.len(),
{
    if ds.len() == 0 {
        Seq::empty()
    } else {
        seq![digit_char(ds.last() as nat)] + rev_chars(ds.drop_last())
    }
}

proof fn lemma_rev_chars_cons(x: u64, s: Seq<u64>)
    ensures
        rev_chars(seq![x] + s) == rev_chars(s) + seq![digit_char(x as nat)],
    decreases s.len(),
{
    let c = seq![x] + s;
    assert(c.len() == 1 + s.len());
    if s.len() == 0 {
        assert(c.last() == x);
        assert(c.drop_last() =~= Seq::<u64>::empty());
        assert(rev_chars(c) == seq![digit_char(x as nat)] + rev_chars(Seq::<u64>::empty()));
        assert(rev_chars(c) =~= rev_chars(s) + seq![digit_char(x as nat)]);
    } else {
        assert(c.last() == s.last());
        assert(c.drop_last() =~= seq![x] + s.drop_last());
        lemma_rev_chars_cons(x, s.drop_last());
        assert(rev_chars(c) == seq![digit_char(s.last() as nat)] + (rev_chars(s.drop_last())
            + seq![digit_char(x as nat)]));
        assert(rev_chars(c) =~= rev_chars(s) + seq![digit_char(x as nat)]);
    }
}

fn digit_str(d: u64) -> (r: &'static str)
    requires
        d < 10,
    ensures
        r@ == seq![digit_char(d as nat)],
{
    proof {
        reveal_strlit("0");
        reveal_strlit("1");
        reveal_strlit("2");
        reveal_strlit("3");
        reveal_strlit("4");
        reveal_strlit("5");
        reveal_strlit("6");
        reveal_strlit("7");
        reveal_strlit("8");
        reveal_strlit("9");
    }
    if d == 0 { "0" }
    else if d == 1 { "1" }
    else if d == 2 { "2" }
    else if d == 3 { "3" }
    else if d == 4 { "4" }
    else if d == 5 { "5" }
    else if d == 6 { "6" }
    else if d == 7 { "7" }
    else if d == 8 { "8" }
    else { "9" }
}

/// Render `n` in decimal, without leading zeros.
pub fn u64_to_dec_string(n: u64) -> (r: String)
    ensures
        r@ == dec_digits(n as nat),
{
    let mut digits: Vec<u64> = Vec::new();
    let mut rest: u64 = n;
    digits.push(rest % 10);
    rest = rest / 10;
    proof {
        assert(digits@ =~= seq![n % 10]);
        assert(digits@.last() == n % 10);
        assert(digits@.drop_last() =~= Seq::<u64>::empty());
        assert(rev_chars(Seq::<u64>::empty()) == Seq::<char>::empty());
        assert(rev_chars(digits@) == seq![digit_char((n % 10) as nat)]
            + Seq::<char>::empty());
        assert(rev_chars(digits@) =~= seq![digit_char((n % 10) as nat)]);
        if n < 10 {
            assert(n % 10 == n);
            assert(dec_digits(n as nat) =~= rev_chars(digits@));
        } else {
            assert(dec_digits(n as nat) == dec_digits(n as nat / 10).push(
                digit_char(n as nat % 10),
            ));
            assert(dec_digits(n as nat) =~= dec_digits((n / 10) as nat) + rev_chars(digits@));
        }
    }
    while rest > 0
        invariant
            digits@.len() >= 1,
            forall|i: int| 0 <= i < digits@.len() ==> digits@[i] < 10,
            dec_digits(n as nat) == if rest == 0 {
                rev_chars(digits@)
            } else {
                dec_digits(rest as nat) + rev_chars(digits@)
            },
        decreases rest,
    {
        let d = rest % 10;
        let ghost pre = digits@;
        digits.push(d);
        proof {
            assert(digits@.drop_last() =~= pre);
            if rest >= 10 {
                assert(dec_digits(rest as nat) == dec_digits(rest as nat / 10).push(
                    digit_char(rest as nat % 10),
                ));
                assert(dec_digits(rest as nat / 10).push(digit_char(rest as nat % 10))
                    =~= dec_digits(rest as nat / 10) + seq![digit_char(d as nat)]);
            } else {
                assert(dec_digits(rest as nat) =~= seq![digit_char(d as nat)]);
            }
            assert(dec_digits(rest as nat) + rev_chars(pre) =~= if rest / 10 == 0 {
                rev_chars(digits@)
            } else {
                dec_digits((rest / 10) as nat) + rev_chars(digits@)
            });
        }
        rest = rest / 10;
    }
    let mut r = String::new();
    let mut i = digits.len();
    proof {
        assert(digits@.skip(i as int) =~= Seq::<u64>::empty());
    }
    while i > 0
        invariant
            i <= digits@.len(),
            forall|j: int| 0 <= j < digits@.len() ==> digits@[j] < 10,
            r@ == rev_chars(digits@.skip(i as int)),
            dec_digits(n as nat) == rev_chars(digits@),
        decreases i,
    {
        i = i - 1;
        let s = digit_str(digits[i]);
        r.append(s);
        proof {
            assert(digits@.skip(i as int) =~= seq![digits@[i as int]] + digits@.skip(i + 1));
            lemma_rev_chars_cons(digits@[i as int], digits@.skip(i + 1));
        }
    }
    proof {
        assert(digits@.skip(0) =~= digits@);
    }
    r
}

/// The `m:ss` rendering of a duration: minutes within the hour and
/// zero-padded seconds, as the queue listing shows them.
pub open spec fn mm_ss(total_secs: nat) -> Seq<char> {
    let secs = total_secs % 60;
    let mins = (total_secs / 60) % 60;
    if secs < 10 {
        dec_digits(mins) + seq![':', '0'] + dec_digits(secs)
    } else {
        dec_digits(mins) + seq![':'] + dec_digits(secs)
    }
}

/// Format a duration, given in whole seconds, as `minutes:seconds`
/// with the seconds always two digits.
pub fn format_duration_to_mm_ss(total_secs: u64) -> (r: String)
    ensures
        r@ == mm_ss(total_secs as nat),
{
    proof {
        reveal_strlit(":");
        reveal_strlit(":0");
    }
    let secs = total_secs % 60;
    let mins = (total_secs / 60) % 60;
    let mut r = u64_to_dec_string(mins);
    if secs < 10 {
        r.append(":0");
    } else {
        r.append(":");
    }
    let sec_str = u64_to_dec_string(secs);
    r.append(sec_str.as_str());
    r
}

} // verus!
