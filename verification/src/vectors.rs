//! Small operations on vectors of plain values.

use vstd::prelude::*;

verus! {

#[derive(Debug, Clone)]
pub enum Color {
    Red,
    Green,
    Blue,
}

/// Keeps exactly the `Red` entries, in their original order.
pub fn filter_non_red_colors(colors: Vec<Color>) -> (r: Vec<Color>)
    ensures
        r@ == colors@.filter(|c: Color| c is Red),
{
    let mut out: Vec<Color> = Vec::new();
    let mut i: usize = 0;
    proof {
        reveal(Seq::filter);
        assert(colors@.take(0) =~= Seq::<Color>::empty());
    }
    while i < colors.len()
        invariant
            i <= colors@.len(),
            out@ == colors@.take(i as int).filter(|c: Color| c is Red),
        decreases colors@.len() - i,
    {
        let keep = match &colors[i] {
            Color::Red => true,
            _ => false,
        };
        proof {
            reveal(Seq::filter);
            assert(colors@.take(i + 1).drop_last() =~= colors@.take(i as int));
            assert(colors@.take(i + 1).last() == colors@[i as int]);
        }
        if keep {
            proof {
                assert(colors@[i as int] == Color::Red);
            }
            out.push(Color::Red);
        }
        i = i + 1;
    }
    proof {
        assert(colors@.take(colors@.len() as int) =~= colors@);
    }
    out
}

/// The square of every element, in order.
pub fn squares(nums: &Vec<i32>) -> (r: Vec<i32>)
    requires
        forall|k: int| 0 <= k < nums@.len() ==> -46340 <= #[trigger] nums@[k] <= 46340,
    ensures
        r@.len() == nums@.len(),
        forall|k: int| 0 <= k < nums@.len() ==> #[trigger] r@[k] == nums@[k] * nums@[k],
{
    let mut out: Vec<i32> = Vec::new();
    let mut i: usize = 0;
    while i < nums.len()
        invariant
            i <= nums@.len(),
            forall|k: int| 0 <= k < nums@.len() ==> -46340 <= #[trigger] nums@[k] <= 46340,
            out@.len() == i,
            forall|k: int| 0 <= k < i ==> #[trigger] out@[k] == nums@[k] * nums@[k],
        decreases nums@.len() - i,
    {
        let x = nums[i];
        proof {
            assert(x * x <= 46340 * 46340) by (nonlinear_arith)
                requires
                    -46340 <= x <= 46340,
            ;
            assert(x * x >= 0) by (nonlinear_arith);
        }
        out.push(x * x);
        i = i + 1;
    }
    out
}

/// All elements but the first, in order.
pub fn get_all_but_first(nums: &Vec<i32>) -> (r: Vec<i32>)
    requires
        nums@.len() >= 1,
    ensures
        r@ == nums@.skip(1),
{
    let mut out: Vec<i32> = Vec::new();
    let mut i: usize = 1;
    while i < nums.len()
        invariant
            1 <= i <= nums@.len(),
            out@ == nums@.subrange(1, i as int),
        decreases nums@.len() - i,
    {
        out.push(nums[i]);
        i = i + 1;
        proof {
            assert(out@ =~= nums@.subrange(1, i as int));
        }
    }
    proof {
        assert(nums@.subrange(1, nums@.len() as int) =~= nums@.skip(1));
    }
    out
}

} // verus!
