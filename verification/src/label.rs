//! The display label of a cell's age: its decimal digits, as ASCII bytes.
//! Rendering (and any caching of rendered glyphs) is the rendering
//! collaborator's concern; the label itself is a pure function of the age.
use vstd::prelude::*;

verus! {

/// The decimal digits of `n`, most significant first, as ASCII bytes.
pub open spec fn dec_digits(n: nat) -> Seq<u8>
    decreases n,
{
    if n < 10 {
        seq![(48 + n) as u8]
    } else {
        dec_digits(n / 10).push((48 + n % 10) as u8)
    }
}

/// The label for an age: "0" for 0, no leading zeros otherwise.
pub fn age_label(age: u64) -> (s: Vec<u8>)
    ensures
        s@ == dec_digits(age as nat),
{
    let mut out: Vec<u8> = Vec::new();
    let mut n: u64 = age;
    proof {
        assert(dec_digits(age as nat) =~= dec_digits(n as nat) + out@);
    }
    while n >= 10
        invariant
            dec_digits(age as nat) =~= dec_digits(n as nat) + out@,
        decreases n,
    {
        let d = 48 + (n % 10) as u8;
        let ghost pre = out@;
        let ghost pre_n = n as nat;
        out.insert(0, d);
        n = n / 10;
        proof {
            assert(dec_digits(pre_n) == dec_digits(n as nat).push(d));
            assert(out@ =~= seq![d] + pre);
            assert(dec_digits(n as nat) + out@ =~= (dec_digits(n as nat) + seq![d]) + pre);
            assert(dec_digits(n as nat).push(d) =~= dec_digits(n as nat) + seq![d]);
        }
    }
    let d = 48 + n as u8;
    let ghost pre = out@;
    out.insert(0, d);
    proof {
        assert(out@ =~= seq![d] + pre);
        assert(dec_digits(n as nat) =~= seq![d]);
        assert(dec_digits(age as nat) =~= out@);
    }
    out
}

} // verus!
