//! Run identifiers and archive naming.
//!
//! One pipeline execution's benchmark output is tagged with an identifier
//! derived from the change number; a baseline comparison run is tagged
//! with a marker and the day it ran; and the archived result database is
//! named deterministically from the change number, so repeated runs for
//! the same change land on the same archive entry.

use vstd::prelude::*;

verus! {

/// The decimal digits of `n`, most significant first.
pub open spec fn dec_digits(n: nat) -> Seq<u8>
    decreases n,
{
    if n < 10 {
        seq![(48 + n) as u8]
    } else {
        dec_digits(n / 10) + seq![(48 + n % 10) as u8]
    }
}

/// `s` reversed.
spec fn rev(s: Seq<u8>) -> Seq<u8>
    decreases s.len(),
{
    if s.len() == 0 {
        Seq::empty()
    } else {
        seq![s.last()] + rev(s.drop_last())
    }
}

/// The identifier a change's benchmark run is tagged with: `PR-` and the
/// change number in decimal.
pub open spec fn run_id_spec(number: nat) -> Seq<u8> {
    seq![80u8, 82u8, 45u8] + dec_digits(number)
}

/// The identifier a baseline comparison run is tagged with: `master-` and
/// the day it ran.
pub open spec fn baseline_run_id_spec(date: Seq<u8>) -> Seq<u8> {
    seq![109u8, 97u8, 115u8, 116u8, 101u8, 114u8, 45u8] + date
}

/// The archived result database's name: `results-`, the change number in
/// decimal, and `.db`.
pub open spec fn archive_name_spec(number: nat) -> Seq<u8> {
    seq![114u8, 101u8, 115u8, 117u8, 108u8, 116u8, 115u8, 45u8] + dec_digits(number) + seq![
        46u8,
        100u8,
        98u8,
    ]
}

/// The decimal digits of `n`, most significant first.
pub fn u64_to_decimal(n: u64) -> (r: Vec<u8>)
    ensures
        r@ == dec_digits(n as nat),
{
    let mut m: u64 = n;
    let mut digits: Vec<u8> = Vec::new();
    digits.push((m % 10) as u8 + 48);
    proof {
        assert(digits@.drop_last() =~= Seq::empty());
        assert(rev(Seq::<u8>::empty()) == Seq::<u8>::empty());
        assert(rev(digits@) =~= digits@);
        if n >= 10 {
            assert(dec_digits(n as nat) == dec_digits(n as nat / 10) + seq![
                (48 + n as nat % 10) as u8,
            ]);
            assert(dec_digits(n as nat / 10) + rev(digits@) =~= dec_digits(n as nat));
        }
    }
    m = m / 10;
    while m > 0
        invariant
            dec_digits(n as nat) == if m == 0 {
                rev(digits@)
            } else {
                dec_digits(m as nat) + rev(digits@)
            },
        decreases m,
    {
        let ghost digits_before = digits@;
        digits.push((m % 10) as u8 + 48);
        proof {
            assert(digits@.drop_last() =~= digits_before);
            assert(rev(digits@) == seq![(48 + m as nat % 10) as u8] + rev(digits_before));
            if m >= 10 {
                assert(dec_digits(m as nat) == dec_digits(m as nat / 10) + seq![
                    (48 + m as nat % 10) as u8,
                ]);
                assert(dec_digits(m as nat / 10) + rev(digits@) =~= dec_digits(m as nat) + rev(
                    digits_before,
                ));
            } else {
                assert(dec_digits(m as nat) =~= seq![(48 + m as nat) as u8]);
                assert(rev(digits@) =~= dec_digits(m as nat) + rev(digits_before));
            }
        }
        m = m / 10;
    }
    let mut r: Vec<u8> = Vec::new();
    proof {
        assert(r@ + rev(digits@) =~= rev(digits@));
    }
    while digits.len() > 0
        invariant
            dec_digits(n as nat) == r@ + rev(digits@),
        decreases digits@.len(),
    {
        let ghost digits_before = digits@;
        let ghost r_before = r@;
        let d = digits.pop().unwrap();
        r.push(d);
        proof {
            assert(rev(digits_before) == seq![digits_before.last()] + rev(
                digits_before.drop_last(),
            ));
            assert(digits@ =~= digits_before.drop_last());
            assert(r@ + rev(digits@) =~= r_before + rev(digits_before));
        }
    }
    proof {
        assert(rev(digits@) =~= Seq::empty());
        assert(r@ + rev(digits@) =~= r@);
    }
    r
}

/// The identifier a change's benchmark run is tagged with.
pub fn run_id(number: u64) -> (r: Vec<u8>)
    ensures
        r@ == run_id_spec(number as nat),
{
    let mut r: Vec<u8> = Vec::new();
    r.push(80);
    r.push(82);
    r.push(45);
    proof {
        assert(r@ =~= seq![80u8, 82u8, 45u8]);
    }
    let mut d = u64_to_decimal(number);
    r.append(&mut d);
    r
}

/// The identifier a baseline comparison run is tagged with, from the day
/// it ran, written by the caller as bytes.
pub fn baseline_run_id(date: &Vec<u8>) -> (r: Vec<u8>)
    ensures
        r@ == baseline_run_id_spec(date@),
{
    let mut r: Vec<u8> = Vec::new();
    r.push(109);
    r.push(97);
    r.push(115);
    r.push(116);
    r.push(101);
    r.push(114);
    r.push(45);
    proof {
        assert(r@ =~= seq![109u8, 97u8, 115u8, 116u8, 101u8, 114u8, 45u8]);
    }
    let mut d = crate::graft::copy_bytes(date);
    r.append(&mut d);
    r
}

/// The archived result database's name for a change's run.
pub fn archive_name(number: u64) -> (r: Vec<u8>)
    ensures
        r@ == archive_name_spec(number as nat),
{
    let mut r: Vec<u8> = Vec::new();
    r.push(114);
    r.push(101);
    r.push(115);
    r.push(117);
    r.push(108);
    r.push(116);
    r.push(115);
    r.push(45);
    proof {
        assert(r@ =~= seq![114u8, 101u8, 115u8, 117u8, 108u8, 116u8, 115u8, 45u8]);
    }
    let mut d = u64_to_decimal(number);
    r.append(&mut d);
    r.push(46);
    r.push(100);
    r.push(98);
    proof {
        assert(r@ =~= archive_name_spec(number as nat));
    }
    r
}

} // verus!
