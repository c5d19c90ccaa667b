//! The arithmetic built into the language.
use vstd::prelude::*;

verus! {

pub open spec fn fits(x: int) -> bool {
    isize::MIN <= x <= isize::MAX
}

/// The sum of the numbers, from the first to the last.
pub open spec fn sum(s: Seq<isize>) -> int
    decreases s.len(),
{
    if s.len() == 0 {
        0
    } else {
        sum(s.drop_last()) + s.last()
    }
}

/// The product of the numbers, from the first to the last.
pub open spec fn product(s: Seq<isize>) -> int
    decreases s.len(),
{
    if s.len() == 0 {
        1
    } else {
        product(s.drop_last()) * s.last()
    }
}

/// The first number minus each of the others in turn.
pub open spec fn difference(s: Seq<isize>) -> int
    decreases s.len(),
{
    if s.len() == 0 {
        0
    } else if s.len() == 1 {
        s[0] as int
    } else {
        difference(s.drop_last()) - s.last()
    }
}

/// Division that rounds towards zero, as Rust's `/` does on integers.
pub open spec fn trunc_div(a: int, b: int) -> int {
    if b > 0 {
        if a >= 0 {
            a / b
        } else {
            -((-a) / b)
        }
    } else {
        if a >= 0 {
            -(a / (-b))
        } else {
            (-a) / (-b)
        }
    }
}

/// The first number divided by each of the others in turn.
pub open spec fn quotient(s: Seq<isize>) -> int
    decreases s.len(),
{
    if s.len() == 0 {
        0
    } else if s.len() == 1 {
        s[0] as int
    } else {
        trunc_div(quotient(s.drop_last()), s.last() as int)
    }
}

/// `(-)` is 0, `(- x)` is the negation of `x`, and `(- x y ...)` subtracts
/// the rest from `x`.
pub open spec fn sub_spec(s: Seq<isize>) -> int {
    if s.len() == 1 {
        -s[0]
    } else {
        difference(s)
    }
}

/// Adds the numbers. The sum of no numbers is 0.
pub fn add(args: &[isize]) -> (r: isize)
    requires
        forall|k: int| 0 <= k <= args@.len() ==> fits(#[trigger] sum(args@.take(k))),
    ensures
        r == sum(args@),
{
    let mut acc: isize = 0;
    let n = args.len();
    assert(args@.take(0) =~= Seq::<isize>::empty());
    for i in 0..n
        invariant
            n == args@.len(),
            forall|k: int| 0 <= k <= args@.len() ==> fits(#[trigger] sum(args@.take(k))),
            acc == sum(args@.take(i as int)),
    {
        assert(args@.take(i + 1).drop_last() =~= args@.take(i as int));
        assert(fits(sum(args@.take(i + 1))));
        acc = acc + args[i];
    }
    assert(args@.take(n as int) =~= args@);
    acc
}

/// Multiplies the numbers. The product of no numbers is 1.
pub fn mul(args: &[isize]) -> (r: isize)
    requires
        forall|k: int| 0 <= k <= args@.len() ==> fits(#[trigger] product(args@.take(k))),
    ensures
        r == product(args@),
{
    let mut acc: isize = 1;
    let n = args.len();
    assert(args@.take(0) =~= Seq::<isize>::empty());
    for i in 0..n
        invariant
            n == args@.len(),
            forall|k: int| 0 <= k <= args@.len() ==> fits(#[trigger] product(args@.take(k))),
            acc == product(args@.take(i as int)),
    {
        assert(args@.take(i + 1).drop_last() =~= args@.take(i as int));
        assert(fits(product(args@.take(i + 1))));
        acc = acc * args[i];
    }
    assert(args@.take(n as int) =~= args@);
    acc
}

/// Subtracts: no numbers give 0, one number its negation, and more the
/// first minus each of the rest in turn.
pub fn sub(args: &[isize]) -> (r: isize)
    requires
        args@.len() == 1 ==> args@[0] != isize::MIN,
        forall|k: int| 2 <= k <= args@.len() ==> fits(#[trigger] difference(args@.take(k))),
    ensures
        r == sub_spec(args@),
{
    let n = args.len();
    if n == 0 {
        return 0;
    }
    if n == 1 {
        return 0 - args[0];
    }
    let mut acc: isize = args[0];
    assert(args@.take(1) =~= seq![args@[0]]);
    for i in 1..n
        invariant
            n == args@.len(),
            n >= 2,
            forall|k: int| 2 <= k <= args@.len() ==> fits(#[trigger] difference(args@.take(k))),
            acc == difference(args@.take(i as int)),
    {
        assert(args@.take(i + 1).drop_last() =~= args@.take(i as int));
        assert(fits(difference(args@.take(i + 1))));
        acc = acc - args[i];
    }
    assert(args@.take(n as int) =~= args@);
    acc
}

/// `a / b`, rounding towards zero.
fn divide(a: isize, b: isize) -> (q: isize)
    requires
        b != 0,
        !(a == isize::MIN && b == -1),
    ensures
        q == trunc_div(a as int, b as int),
{
    if b > 0 {
        a / b
    } else if b == isize::MIN {
        if a == isize::MIN {
            assert((-(a as int)) / (-(b as int)) == 1) by (nonlinear_arith)
                requires
                    a == b,
                    b < 0,
            ;
            1
        } else {
            assert(trunc_div(a as int, b as int) == 0) by (nonlinear_arith)
                requires
                    b == isize::MIN,
                    isize::MIN < a <= isize::MAX,
                    isize::MIN == -isize::MAX - 1,
            ;
            0
        }
    } else {
        let d: isize = -b;
        let q = a / d;
        assert(q != isize::MIN) by (nonlinear_arith)
            requires
                d > 0,
                !(a == isize::MIN && d == 1),
                a >= 0 ==> q == (a as int) / (d as int),
                a < 0 ==> q == -((-(a as int)) / (d as int)),
                isize::MIN <= a <= isize::MAX,
        ;
        -q
    }
}

/// Divides: no numbers give 0, one number itself, and more the first
/// divided by each of the rest in turn, rounding towards zero.
pub fn div(args: &[isize]) -> (r: isize)
    requires
        forall|k: int| 1 <= k < args@.len() ==> #[trigger] args@[k] != 0,
        forall|k: int|
            1 <= k < args@.len() ==> !(quotient(#[trigger] args@.take(k)) == isize::MIN && args@[k]
                == -1),
    ensures
        r == quotient(args@),
{
    let n = args.len();
    if n == 0 {
        return 0;
    }
    let mut acc: isize = args[0];
    assert(args@.take(1) =~= seq![args@[0]]);
    for i in 1..n
        invariant
            n == args@.len(),
            n >= 1,
            forall|k: int| 1 <= k < args@.len() ==> #[trigger] args@[k] != 0,
            forall|k: int|
                1 <= k < args@.len() ==> !(quotient(#[trigger] args@.take(k)) == isize::MIN
                    && args@[k] == -1),
            acc == quotient(args@.take(i as int)),
    {
        assert(args@.take(i + 1).drop_last() =~= args@.take(i as int));
        assert(args@[i as int] != 0);
        acc = divide(acc, args[i]);
    }
    assert(args@.take(n as int) =~= args@);
    acc
}

/// With two or more numbers, subtraction takes the sum of all but the
/// first from the first.
pub proof fn law_sub_is_first_minus_sum(s: Seq<isize>)
    requires
        s.len() >= 2,
    ensures
        sub_spec(s) == s[0] - sum(s.drop_first()),
{
    lemma_difference(s);
}

proof fn lemma_difference(s: Seq<isize>)
    requires
        s.len() >= 1,
    ensures
        difference(s) == s[0] - sum(s.drop_first()),
    decreases s.len(),
{
    if s.len() == 1 {
        assert(s.drop_first() =~= Seq::<isize>::empty());
    } else {
        lemma_difference(s.drop_last());
        assert(s.drop_first().drop_last() =~= s.drop_last().drop_first());
    }
}

/// Adding a run of numbers split in two is adding the sums of the parts.
pub proof fn law_add_concat(a: Seq<isize>, b: Seq<isize>)
    ensures
        sum(a + b) == sum(a) + sum(b),
    decreases b.len(),
{
    if b.len() == 0 {
        assert(a + b =~= a);
    } else {
        law_add_concat(a, b.drop_last());
        assert((a + b).drop_last() =~= a + b.drop_last());
    }
}

/// The product of one number is that number.
pub proof fn law_mul_one_number(x: isize)
    ensures
        product(seq![x]) == x,
{
    assert(seq![x].drop_last() =~= Seq::<isize>::empty());
    assert(product(Seq::<isize>::empty()) == 1);
    assert(seq![x].last() == x);
}

/// Multiplying a run of numbers split in two is multiplying the products
/// of the parts.
pub proof fn law_mul_concat(a: Seq<isize>, b: Seq<isize>)
    ensures
        product(a + b) == product(a) * product(b),
    decreases b.len(),
{
    if b.len() == 0 {
        assert(a + b =~= a);
    } else {
        law_mul_concat(a, b.drop_last());
        assert((a + b).drop_last() =~= a + b.drop_last());
        let pa = product(a);
        let pb = product(b.drop_last());
        let x = b.last() as int;
        assert(pa * pb * x == pa * (pb * x)) by (nonlinear_arith);
    }
}

/// Any zero among the numbers makes their product zero.
pub proof fn law_mul_zero_absorbs(s: Seq<isize>, i: int)
    requires
        0 <= i < s.len(),
        s[i] == 0,
    ensures
        product(s) == 0,
    decreases s.len(),
{
    if i < s.len() - 1 {
        law_mul_zero_absorbs(s.drop_last(), i);
        assert(product(s.drop_last()) * s.last() == 0);
    }
}

/// The sum of one number is that number.
pub proof fn law_add_one_number(x: isize)
    ensures
        sum(seq![x]) == x,
{
    assert(seq![x].drop_last() =~= Seq::<isize>::empty());
    assert(sum(Seq::<isize>::empty()) == 0);
    assert(seq![x].last() == x);
}

/// Subtracting from one number negates it, and subtracting from no numbers
/// gives zero.
pub proof fn law_sub_short(x: isize)
    ensures
        sub_spec(seq![x]) == -x,
        sub_spec(Seq::<isize>::empty()) == 0,
{
}

/// Dividing two numbers rounds towards zero: the quotient times the divisor
/// is no further from zero than the dividend, on the same side of it, and
/// falls short of it by less than the divisor.
pub proof fn law_div_rounds_towards_zero(a: isize, b: isize)
    requires
        b != 0,
    ensures
        ({
            let q = quotient(seq![a, b]);
            let r = a - q * b;
            &&& (a >= 0 ==> 0 <= r < (if b > 0 { b as int } else { -(b as int) }))
            &&& (a < 0 ==> -(if b > 0 { b as int } else { -(b as int) }) < r <= 0)
        }),
{
    let s = seq![a, b];
    assert(s.drop_last() =~= seq![a]);
    assert(quotient(seq![a]) == a);
    let q = trunc_div(a as int, b as int);
    assert(quotient(s) == q);
    let ai = a as int;
    let bi = b as int;
    if bi > 0 {
        if ai >= 0 {
            assert(0 <= ai - (ai / bi) * bi < bi) by (nonlinear_arith)
                requires
                    bi > 0,
                    ai >= 0,
            ;
        } else {
            assert(0 <= (-ai) - ((-ai) / bi) * bi < bi) by (nonlinear_arith)
                requires
                    bi > 0,
                    ai < 0,
            ;
            assert(ai - (-((-ai) / bi)) * bi == -((-ai) - ((-ai) / bi) * bi)) by (nonlinear_arith);
        }
    } else {
        if ai >= 0 {
            assert(0 <= ai - (ai / (-bi)) * (-bi) < -bi) by (nonlinear_arith)
                requires
                    bi < 0,
                    ai >= 0,
            ;
            assert(ai - (-(ai / (-bi))) * bi == ai - (ai / (-bi)) * (-bi)) by (nonlinear_arith);
        } else {
            assert(0 <= (-ai) - ((-ai) / (-bi)) * (-bi) < -bi) by (nonlinear_arith)
                requires
                    bi < 0,
                    ai < 0,
            ;
            assert(ai - ((-ai) / (-bi)) * bi == -((-ai) - ((-ai) / (-bi)) * (-bi))) by (nonlinear_arith);
        }
    }
}

} // verus!
