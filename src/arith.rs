use vstd::prelude::*;

verus! {

/// `a / b` rounded towards negative infinity.
pub fn floor_div(a: i128, b: i128) -> (r: i128)
    requires
        b > 0,
    ensures
        r == a / b,
{
    if a >= 0 {
        a / b
    } else {
        let q = (-1 - a) / b;
        proof {
            let na: int = -1 - a;
            let (ai, bi): (int, int) = (a as int, b as int);
            assert(ai / bi == -(na / bi) - 1) by (nonlinear_arith)
                requires na == -1 - ai, na >= 0, bi > 0;
        }
        -q - 1
    }
}

} // verus!
