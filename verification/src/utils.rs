//! Number formatting for reports.

use vstd::prelude::*;

use crate::text::{chars_of, dec, decimal_string, string_from_chars};

verus! {

/// The first `i` digits of `d`, with a comma before each digit (other than
/// the first) that starts a group of three counted from the right.
pub open spec fn grouped(d: Seq<char>, i: nat) -> Seq<char>
    decreases i,
{
    if i == 0 {
        Seq::empty()
    } else {
        let k = (i - 1) as nat;
        let prev = grouped(d, k);
        if k > 0 && (d.len() - k) % 3 == 0 {
            prev.push(',').push(d[k as int])
        } else {
            prev.push(d[k as int])
        }
    }
}

/// `n` in decimal, with the thousands separated by commas.
pub open spec fn spec_add_commas(n: u64) -> Seq<char> {
    grouped(dec(n as nat), dec(n as nat).len())
}

/// `n` in decimal, with the thousands separated by commas (`1234567`
/// becomes `1,234,567`).
pub fn add_commas(n: u64) -> (r: String)
    ensures
        r@ == spec_add_commas(n),
{
    let s = decimal_string(n);
    let chars = chars_of(s.as_str());
    let mut out: Vec<char> = Vec::new();
    let mut i: usize = 0;
    while i < chars.len()
        invariant
            i <= chars.len(),
            chars@ == dec(n as nat),
            out@ == grouped(chars@, i as nat),
        decreases chars.len() - i,
    {
        if i > 0 && (chars.len() - i) % 3 == 0 {
            out.push(',');
        }
        out.push(chars[i]);
        i += 1;
    }
    string_from_chars(out.as_slice())
}

/// `s` without its commas.
pub open spec fn without_commas(s: Seq<char>) -> Seq<char>
    decreases s.len(),
{
    if s.len() == 0 {
        s
    } else if s.last() == ',' {
        without_commas(s.drop_last())
    } else {
        without_commas(s.drop_last()).push(s.last())
    }
}

proof fn lemma_dec_has_no_comma(n: nat)
    ensures
        forall|i: int| 0 <= i < dec(n).len() ==> #[trigger] dec(n)[i] != ',',
    decreases n,
{
    if n >= 10 {
        lemma_dec_has_no_comma(n / 10);
        assert forall|i: int| 0 <= i < dec(n).len() implies #[trigger] dec(n)[i] != ',' by {
            if i < dec(n / 10).len() {
                assert(dec(n)[i] == dec(n / 10)[i]);
            }
        }
    }
}

proof fn lemma_grouped_without_commas(d: Seq<char>, i: nat)
    requires
        i <= d.len(),
        forall|j: int| 0 <= j < d.len() ==> #[trigger] d[j] != ',',
    ensures
        without_commas(grouped(d, i)) == d.take(i as int),
    decreases i,
{
    if i == 0 {
        assert(d.take(0) =~= Seq::<char>::empty());
    } else {
        let k = (i - 1) as nat;
        lemma_grouped_without_commas(d, k);
        let prev = grouped(d, k);
        assert(d.take(i as int) =~= d.take(k as int).push(d[k as int]));
        let x = d[k as int];
        assert(x != ',');
        if k > 0 && (d.len() - k) % 3 == 0 {
            let a = prev.push(',');
            assert(a.push(x).drop_last() == a && a.push(x).last() == x);
            assert(without_commas(a.push(x)) == without_commas(a).push(x));
            assert(a.drop_last() == prev && a.last() == ',');
            assert(without_commas(a) == without_commas(prev));
        } else {
            assert(prev.push(x).drop_last() == prev && prev.push(x).last() == x);
            assert(without_commas(prev.push(x)) == without_commas(prev).push(x));
        }
    }
}

/// Taking the commas out of `add_commas(n)` gives `n` in decimal.
pub proof fn law_add_commas_digits(n: u64)
    ensures
        without_commas(spec_add_commas(n)) == dec(n as nat),
{
    lemma_dec_has_no_comma(n as nat);
    lemma_grouped_without_commas(dec(n as nat), dec(n as nat).len());
    assert(dec(n as nat).take(dec(n as nat).len() as int) =~= dec(n as nat));
}

} // verus!
