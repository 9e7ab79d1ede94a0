//! Synthetic user identifiers for the load harness.
//!
//! The dispatcher schedules request indices; each index becomes the user
//! identifier `user_<index>` in decimal. The formatter is verified down to
//! the character sequence, and the decimal representation is proved
//! injective, so distinct request indices are known — not just expected —
//! to name distinct users. Together with the dispatcher's partition laws
//! this pins the number of distinct users a clean run produces.

use vstd::prelude::*;
use vstd::string::StringExecFns;
use crate::aggregate::fresh_count;
use crate::aggregate::lemma_all_distinct;

verus! {

/// The character of a single decimal digit.
pub open spec fn digit_char(d: nat) -> char {
    if d == 0 {
        '0'
    } else if d == 1 {
        '1'
    } else if d == 2 {
        '2'
    } else if d == 3 {
        '3'
    } else if d == 4 {
        '4'
    } else if d == 5 {
        '5'
    } else if d == 6 {
        '6'
    } else if d == 7 {
        '7'
    } else if d == 8 {
        '8'
    } else {
        '9'
    }
}

/// The decimal representation of a number, most significant digit first,
/// with no leading zeros (zero itself is `"0"`).
pub open spec fn spec_decimal(n: nat) -> Seq<char>
    decreases n,
{
    if n < 10 {
        seq![digit_char(n)]
    } else {
        spec_decimal(n / 10).push(digit_char(n % 10))
    }
}

/// The identifier of the synthetic user at a request index.
pub open spec fn spec_user_name(id: nat) -> Seq<char> {
    "user_"@ + spec_decimal(id)
}

fn digit_str(d: u64) -> (s: &'static str)
    requires
        d < 10,
    ensures
        s@ == seq![digit_char(d as nat)],
{
    let s: &'static str = if d == 0 {
        "0"
    } else if d == 1 {
        "1"
    } else if d == 2 {
        "2"
    } else if d == 3 {
        "3"
    } else if d == 4 {
        "4"
    } else if d == 5 {
        "5"
    } else if d == 6 {
        "6"
    } else if d == 7 {
        "7"
    } else if d == 8 {
        "8"
    } else {
        "9"
    };
    proof {
        reveal_strlit("0");
        reveal_strlit("1");
        reveal_strlit("2");
        reveal_strlit("3");
        reveal_strlit("4");
        reveal_strlit("5");
        reveal_strlit("6");
        reveal_strlit("7");
        reveal_strlit("8");
        reveal_strlit("9");
        assert(s@ =~= seq![digit_char(d as nat)]);
    }
    s
}

fn append_decimal(out: &mut String, n: u64)
    ensures
        final(out)@ == old(out)@ + spec_decimal(n as nat),
    decreases n,
{
    if n < 10 {
        out.append(digit_str(n));
        proof {
            assert(final(out)@ =~= old(out)@ + spec_decimal(n as nat));
        }
    } else {
        proof {
            assert(n / 10 < n) by (nonlinear_arith)
                requires
                    n >= 10,
            ;
        }
        append_decimal(out, n / 10);
        out.append(digit_str(n % 10));
        proof {
            assert(final(out)@ =~= old(out)@ + spec_decimal(n as nat));
        }
    }
}

/// Format the synthetic identifier of the user at a request index.
pub fn user_name(id: u64) -> (s: String)
    ensures
        s@ == spec_user_name(id as nat),
{
    let mut s = String::from_str("user_");
    append_decimal(&mut s, id);
    s
}

proof fn lemma_decimal_len(n: nat)
    ensures
        spec_decimal(n).len() >= 1,
        n < 10 ==> spec_decimal(n).len() == 1,
        n >= 10 ==> spec_decimal(n).len() >= 2,
    decreases n,
{
    if n >= 10 {
        assert(n / 10 < n) by (nonlinear_arith)
            requires
                n >= 10,
        ;
        lemma_decimal_len(n / 10);
    }
}

/// Decimal representations are injective: equal digit sequences can only
/// come from equal numbers.
pub proof fn lemma_decimal_injective(i: nat, j: nat)
    requires
        spec_decimal(i) == spec_decimal(j),
    ensures
        i == j,
    decreases i,
{
    lemma_decimal_len(i);
    lemma_decimal_len(j);
    if i < 10 && j < 10 {
        assert(spec_decimal(i)[0] == digit_char(i));
        assert(spec_decimal(j)[0] == digit_char(j));
    } else if i >= 10 && j >= 10 {
        assert(spec_decimal(i).last() == digit_char(i % 10));
        assert(spec_decimal(j).last() == digit_char(j % 10));
        assert(spec_decimal(i).drop_last() =~= spec_decimal(i / 10));
        assert(spec_decimal(j).drop_last() =~= spec_decimal(j / 10));
        assert(i / 10 < i) by (nonlinear_arith)
            requires
                i >= 10,
        ;
        lemma_decimal_injective(i / 10, j / 10);
        vstd::arithmetic::div_mod::lemma_fundamental_div_mod(i as int, 10);
        vstd::arithmetic::div_mod::lemma_fundamental_div_mod(j as int, 10);
    } else {
        assert(false);
    }
}

/// A history in which event `k` carries the synthetic identifier of
/// request index `k` has pairwise distinct identifiers, so every event
/// introduces a fresh user: a clean run of the harness produces exactly
/// one distinct user per request.
pub proof fn lemma_indexed_history_all_fresh(h: Seq<(Seq<char>, u64)>)
    requires
        forall|k: int| 0 <= k < h.len() ==> h[k].0 == spec_user_name(k as nat),
    ensures
        fresh_count(h) == h.len(),
{
    assert forall|i: int, j: int| 0 <= i < j < h.len() implies h[i].0 != h[j].0 by {
        lemma_user_name_injective(i as nat, j as nat);
    }
    lemma_all_distinct(h);
}

/// Distinct request indices name distinct synthetic users.
pub proof fn lemma_user_name_injective(i: nat, j: nat)
    requires
        i != j,
    ensures
        spec_user_name(i) != spec_user_name(j),
{
    if spec_user_name(i) == spec_user_name(j) {
        let p = "user_"@;
        assert(spec_decimal(i) =~= spec_user_name(i).subrange(
            p.len() as int,
            spec_user_name(i).len() as int,
        ));
        assert(spec_decimal(j) =~= spec_user_name(j).subrange(
            p.len() as int,
            spec_user_name(j).len() as int,
        ));
        lemma_decimal_injective(i, j);
    }
}

} // verus!
