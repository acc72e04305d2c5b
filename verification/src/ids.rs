//! Poll identifiers.
//!
//! A poll id is the decimal rendering of a counter value.  The store keeps
//! the counter and hands out one value per poll, so ids never repeat; the
//! injectivity lemma below carries that uniqueness over to the rendered
//! strings that appear in shareable URLs.

use vstd::prelude::*;

verus! {

/// Decimal digit character for a value below ten.
pub open spec fn digit_char(d: nat) -> char {
    if d == 0 {
        '0'
    } else if d == 1 {
        '1'
    } else if d == 2 {
        '2'
    } else if d == 3 {
        '3'
    } else if d == 4 {
        '4'
    } else if d == 5 {
        '5'
    } else if d == 6 {
        '6'
    } else if d == 7 {
        '7'
    } else if d == 8 {
        '8'
    } else {
        '9'
    }
}

/// Decimal rendering of `n`: most significant digit first, no leading zeros.
pub open spec fn enc(n: nat) -> Seq<char>
    decreases n,
{
    if n < 10 {
        seq![digit_char(n)]
    } else {
        enc(n / 10).push(digit_char(n % 10))
    }
}

pub proof fn lemma_enc_len(n: nat)
    ensures
        enc(n).len() >= 1,
        (enc(n).len() == 1) <==> (n < 10),
    decreases n,
{
    if n >= 10 {
        assert(n / 10 < n) by (nonlinear_arith)
            requires
                n >= 10,
        ;
        lemma_enc_len(n / 10);
    }
}

proof fn lemma_digit_char_injective(a: nat, b: nat)
    requires
        a < 10,
        b < 10,
        digit_char(a) == digit_char(b),
    ensures
        a == b,
{
}

/// Distinct counter values render to distinct id strings.
pub proof fn lemma_enc_injective(a: nat, b: nat)
    requires
        enc(a) == enc(b),
    ensures
        a == b,
    decreases a,
{
    lemma_enc_len(a);
    lemma_enc_len(b);
    if a < 10 && b < 10 {
        assert(enc(a)[0] == digit_char(a));
        assert(enc(b)[0] == digit_char(b));
        lemma_digit_char_injective(a, b);
    } else if a < 10 {
        assert(enc(a).len() == 1 && enc(b).len() != 1);
    } else if b < 10 {
        assert(enc(b).len() == 1 && enc(a).len() != 1);
    } else {
        assert(a % 10 < 10 && b % 10 < 10) by (nonlinear_arith);
        assert(enc(a).last() == digit_char(a % 10));
        assert(enc(b).last() == digit_char(b % 10));
        lemma_digit_char_injective(a % 10, b % 10);
        assert(enc(a).drop_last() =~= enc(a / 10));
        assert(enc(b).drop_last() =~= enc(b / 10));
        assert(a / 10 < a) by (nonlinear_arith)
            requires
                a >= 10,
        ;
        lemma_enc_injective(a / 10, b / 10);
        assert(a == (a / 10) * 10 + a % 10) by (nonlinear_arith);
        assert(b == (b / 10) * 10 + b % 10) by (nonlinear_arith);
    }
}

fn digit_str(d: u64) -> (r: &'static str)
    requires
        d < 10,
    ensures
        r@ == seq![digit_char(d as nat)],
{
    proof {
        reveal_strlit("0");
        reveal_strlit("1");
        reveal_strlit("2");
        reveal_strlit("3");
        reveal_strlit("4");
        reveal_strlit("5");
        reveal_strlit("6");
        reveal_strlit("7");
        reveal_strlit("8");
        reveal_strlit("9");
    }
    let r: &'static str = if d == 0 {
        "0"
    } else if d == 1 {
        "1"
    } else if d == 2 {
        "2"
    } else if d == 3 {
        "3"
    } else if d == 4 {
        "4"
    } else if d == 5 {
        "5"
    } else if d == 6 {
        "6"
    } else if d == 7 {
        "7"
    } else if d == 8 {
        "8"
    } else {
        "9"
    };
    proof {
        assert(r@ =~= seq![digit_char(d as nat)]);
    }
    r
}

/// Render a counter value as its decimal id string.
pub fn encode_id(n: u64) -> (r: String)
    ensures
        r@ == enc(n as nat),
    decreases n,
{
    if n < 10 {
        String::from_str(digit_str(n))
    } else {
        proof {
            assert(n / 10 < n) by (nonlinear_arith)
                requires
                    n >= 10,
            ;
        }
        let mut s = encode_id(n / 10);
        let d = digit_str(n % 10);
        s.append(d);
        proof {
            assert(s@ =~= enc(n as nat));
        }
        s
    }
}

} // verus!
