//! What constants are folded to.

use crate::ast::{CallArg, Expr};
use crate::literal::{
    as_number, constructed, default_literal, elem_literal, literal_of, numbers_of, scaled, unbaked,
    whole, LiteralView, Number,
};
use crate::types::TypeView;
use vstd::arithmetic::power2::pow2;
use vstd::prelude::*;

verus! {

/// A literal is the constant that is written.
pub proof fn literals_are_constants(e: Expr)
    ensures
        e matches Expr::IntLit { value, .. } ==> literal_of(e) == Some(LiteralView::Int(value)),
        e matches Expr::FloatLit { bits, .. } ==> literal_of(e) == Some(
            LiteralView::Float(Number::Bits(bits)),
        ),
        e matches Expr::BoolLit { value, .. } ==> literal_of(e) == Some(LiteralView::Bool(value)),
        e matches Expr::StringLit { value, .. } ==> literal_of(e) == Some(
            LiteralView::String(value@),
        ),
        e matches Expr::AssetRef { asset_type, asset_name, .. } ==> literal_of(e) == Some(
            LiteralView::Asset { asset_type: asset_type@, asset_name: asset_name@ },
        ),
        e matches Expr::PrefabRef { path, .. } ==> literal_of(e) == Some(
            LiteralView::PrefabRef { path: path@ },
        ),
        e is Ident || e is BinOp || e is FieldAccess || e is IndexAccess || e is IfExpr || e is BlockExpr
            || e is InterpLit || e is Deref || e is RefOf ==> literal_of(e) is None,
{
}

/// Whether an expression is another one with a minus sign before it.
pub open spec fn negates(e: Expr, inner: Expr) -> bool {
    e matches Expr::UnOp { op, operand, .. } && op@ == "-"@ && *operand == inner
}

/// A minus sign before an integer makes the integer that adds up to zero with
/// it.
pub proof fn negated_integers_add_up_to_zero(e: Expr, inner: Expr, k: i64)
    requires
        negates(e, inner),
        literal_of(inner) == Some(LiteralView::Int(k)),
        k != i64::MIN,
    ensures
        literal_of(e) matches Some(LiteralView::Int(n)) && n + k == 0,
{
}

/// The least integer has no opposite: a minus sign leaves it as it is.
pub proof fn least_integer_stays(e: Expr, inner: Expr)
    requires
        negates(e, inner),
        literal_of(inner) == Some(LiteralView::Int(i64::MIN)),
    ensures
        literal_of(e) == Some(LiteralView::Int(i64::MIN)),
{
}

/// What is no constant is none with a minus sign either, and neither is a text.
pub proof fn only_numbers_are_negated(e: Expr, inner: Expr)
    requires
        negates(e, inner),
    ensures
        literal_of(inner) is None ==> literal_of(e) is None,
        inner is StringLit || inner is BoolLit ==> literal_of(e) is None,
{
    reveal_with_fuel(literal_of, 3);
}

/// A number in a call is negated as it is written: an integer there counts as
/// the float nearest to its opposite.
pub proof fn negated_numbers_are_opposite(k: i64, bits: u64)
    ensures
        k != i64::MIN ==> (crate::literal::negated_number(Number::Nearest(k)) matches Number::Nearest(
            n,
        ) && n + k == 0),
        crate::literal::negated_number(Number::Bits(bits)) == Number::Bits(
            bits ^ 0x8000_0000_0000_0000,
        ),
{
}

/// A minus sign before a float changes the sign bit and nothing else.
pub proof fn negated_floats_change_sign(e: Expr, inner: Expr, bits: u64)
    requires
        negates(e, inner),
        literal_of(inner) == Some(LiteralView::Float(Number::Bits(bits))),
    ensures
        literal_of(e) matches Some(LiteralView::Float(Number::Bits(b))) && b % 0x8000_0000_0000_0000
            == bits % 0x8000_0000_0000_0000 && b / 0x8000_0000_0000_0000 + bits
            / 0x8000_0000_0000_0000 == 1,
{
    let b = bits ^ 0x8000_0000_0000_0000;
    assert(b % 0x8000_0000_0000_0000 == bits % 0x8000_0000_0000_0000 && b / 0x8000_0000_0000_0000
        + bits / 0x8000_0000_0000_0000 == 1) by (bit_vector)
        requires
            b == bits ^ 0x8000_0000_0000_0000,
    ;
}

/// Two minus signs undo each other.
pub proof fn negating_twice_is_nothing(e: Expr, mid: Expr, inner: Expr)
    requires
        negates(e, mid),
        negates(mid, inner),
        literal_of(inner) matches Some(l) && (l is Int || (l matches LiteralView::Float(n)
            && n is Bits)),
    ensures
        literal_of(e) == literal_of(inner),
{
    reveal_with_fuel(literal_of, 3);
    if let Some(LiteralView::Float(Number::Bits(b))) = literal_of(inner) {
        assert((b ^ 0x8000_0000_0000_0000) ^ 0x8000_0000_0000_0000 == b) by (bit_vector);
    }
}

/// No other operator makes a constant.
pub proof fn other_operators_are_no_constants(e: Expr)
    requires
        e is UnOp,
        e->UnOp_op@ != "-"@,
    ensures
        literal_of(e) is None,
{
}

/// Whether an argument is a number: an integer counts as the float nearest to
/// it.
pub open spec fn argument_number(a: CallArg, n: Number) -> bool {
    a matches CallArg::Positional(e) && match literal_of(e) {
        Some(LiteralView::Int(k)) => n == Number::Nearest(k),
        Some(LiteralView::Float(f)) => n == f,
        _ => false,
    }
}

/// Whether an expression is a call of a name with three numbers.
pub open spec fn calls_with_three(
    e: Expr,
    name: Seq<char>,
    x: Number,
    y: Number,
    z: Number,
) -> bool {
    e matches Expr::Call { callee, args, .. } && (*callee matches Expr::Ident { name: n, .. } && n@
        == name) && args@.len() == 3 && argument_number(args@[0], x) && argument_number(args@[1], y)
        && argument_number(args@[2], z)
}

proof fn lemma_three(args: Seq<CallArg>, x: Number, y: Number, z: Number)
    requires
        args.len() >= 3,
        argument_number(args[0], x),
        argument_number(args[1], y),
        argument_number(args[2], z),
    ensures
        numbers_of(args, 3) == Some(seq![x, y, z]),
{
    assert(numbers_of(args, 0) == Some(Seq::<Number>::empty()));
    assert(numbers_of(args, 1) == Some(seq![x])) by {
        assert(Seq::<Number>::empty().push(x) =~= seq![x]);
    }
    assert(numbers_of(args, 2) == Some(seq![x, y])) by {
        assert(seq![x].push(y) =~= seq![x, y]);
    }
    assert(seq![x, y].push(z) =~= seq![x, y, z]);
}

/// A vector, rotation or color is made of its numbers in the order in which
/// they are given; a color without a fourth number is opaque.
pub proof fn constructors_take_their_numbers(e: Expr, x: Number, y: Number, z: Number)
    ensures
        calls_with_three(e, "Vec"@, x, y, z) ==> literal_of(e) == Some(
            LiteralView::Vector { x, y, z },
        ),
        calls_with_three(e, "Rotation"@, x, y, z) ==> literal_of(e) == Some(
            LiteralView::Rotator { pitch: x, yaw: y, roll: z },
        ),
        calls_with_three(e, "Color"@, x, y, z) ==> literal_of(e) == Some(
            LiteralView::LinearColor { r: x, g: y, b: z, a: Number::Bits(0x3FF0_0000_0000_0000) },
        ),
{
    reveal_strlit("Vec");
    reveal_strlit("Rotation");
    reveal_strlit("Color");
    assert("Vec"@.len() == 3 && "Rotation"@.len() == 8 && "Color"@.len() == 5);
    if let Expr::Call { callee, args, .. } = e {
        if args@.len() == 3 && argument_number(args@[0], x) && argument_number(args@[1], y)
            && argument_number(args@[2], z) {
            lemma_three(args@, x, y, z);
        }
    }
}

/// A fourth number of a color is its alpha.
pub proof fn colors_take_their_alpha(x: Number, y: Number, z: Number, w: Number)
    ensures
        constructed("Color"@, seq![x, y, z, w]) == Some(
            LiteralView::LinearColor { r: x, g: y, b: z, a: w },
        ),
        constructed("Vec"@, seq![x, y, z, w]) is None,
        constructed("Rotation"@, seq![x, y, z, w]) is None,
{
    reveal_strlit("Vec");
    reveal_strlit("Rotation");
    reveal_strlit("Color");
    assert("Vec"@.len() == 3 && "Rotation"@.len() == 8 && "Color"@.len() == 5);
}

/// A call with an argument that is no constant number is no constant.
pub proof fn computed_arguments_are_no_constants(args: Seq<CallArg>, n: nat, i: int)
    requires
        0 <= i < n <= args.len(),
        args[i] matches CallArg::Positional(e) ==> as_number(literal_of(e)) is None,
    ensures
        numbers_of(args, n) is None,
    decreases n,
{
    if i < n - 1 {
        computed_arguments_are_no_constants(args, (n - 1) as nat, i);
    }
}

/// An initializer is dropped where it is no constant: an array where one of its
/// elements is none.
pub proof fn constants_are_baked(e: Expr, i: int)
    ensures
        e is IntLit || e is FloatLit || e is BoolLit || e is StringLit ==> !unbaked(e),
        e is Ident || e is BinOp ==> unbaked(e),
        e matches Expr::Array { elements, .. } ==> 0 <= i < elements@.len() ==> (elements@[i] is Spread
            || elements@[i].inner() is Ident) ==> unbaked(e),
        e matches Expr::Array { elements, .. } ==> (forall|k: int|
            0 <= k < elements@.len() ==> (#[trigger] elements@[k]) is Item && (elements@[k].inner() is IntLit
                || elements@[k].inner() is FloatLit || elements@[k].inner() is BoolLit
                || elements@[k].inner() is StringLit)) ==> !unbaked(e),
{
    if let Expr::Array { elements, .. } = e {
        if 0 <= i < elements@.len() && (elements@[i] is Spread || elements@[i].inner() is Ident) {
            assert(elem_literal(elements@[i]) is None);
        }
    }
}

/// What a variable starts with when nothing is said: false, zero, the empty
/// text, no rotation, opaque white, and no object.
pub proof fn variables_start_empty(t: TypeView)
    ensures
        ({
            let zero = Number::Bits(0);
            let one = Number::Bits(0x3FF0_0000_0000_0000);
            &&& t is Bool ==> default_literal(t) == LiteralView::Bool(false)
            &&& t is Int ==> default_literal(t) == LiteralView::Int(0)
            &&& t is Float ==> default_literal(t) == LiteralView::Float(zero)
            &&& t is String ==> default_literal(t) == LiteralView::String(Seq::empty())
            &&& t is Vector ==> default_literal(t) == LiteralView::Vector {
                x: zero,
                y: zero,
                z: zero,
            }
            &&& t is Rotator ==> default_literal(t) == LiteralView::Rotator {
                pitch: zero,
                yaw: zero,
                roll: zero,
            }
            &&& t is Quat ==> default_literal(t) == LiteralView::Quat {
                x: zero,
                y: zero,
                z: zero,
                w: one,
            }
            &&& t is Color ==> default_literal(t) == LiteralView::LinearColor {
                r: one,
                g: one,
                b: one,
                a: one,
            }
            &&& t is Entity || t is Character || t is Controller || t is Brick || t is Prefab
                ==> default_literal(t) is Object
        }),
{
}

/// A double is cut down to the integer below its size: with the exponent `e`
/// and the significand `m`, the size of the result is the greatest integer
/// whose multiple by the weight of one does not exceed `m`.
pub proof fn doubles_are_cut_towards_zero(bits: u64)
    requires
        1023 <= (bits / 0x10_0000_0000_0000) % 0x800 < 1075,
    ensures
        ({
            let m = 0x10_0000_0000_0000 + bits % 0x10_0000_0000_0000;
            let e = (bits / 0x10_0000_0000_0000) % 0x800;
            let weight = pow2((1075 - e) as nat);
            let size = if bits < 0x8000_0000_0000_0000 {
                whole(bits) as int
            } else {
                0 - whole(bits)
            };
            size * weight <= m < (size + 1) * weight
        }),
{
    let m: int = 0x10_0000_0000_0000 + bits % 0x10_0000_0000_0000;
    let e: int = (bits / 0x10_0000_0000_0000) as int % 0x800;
    let weight: int = pow2((1075 - e) as nat) as int;
    vstd::arithmetic::power2::lemma_pow2_pos((1075 - e) as nat);
    let size = m / weight;
    assert(size * weight <= m < (size + 1) * weight) by (nonlinear_arith)
        requires
            weight > 0,
            size == m / weight,
    ;
    assert(0 <= size <= m) by (nonlinear_arith)
        requires
            weight >= 1,
            m >= 0,
            size == m / weight,
    ;
    assert(scaled(m as nat, e - 1075) == size);
}

/// A double below one is cut to zero, one out of range to the nearest end, and
/// one that is no number to zero.
pub proof fn doubles_out_of_range(bits: u64)
    ensures
        (bits / 0x10_0000_0000_0000) % 0x800 < 1023 ==> whole(bits) == 0,
        (bits / 0x10_0000_0000_0000) % 0x800 == 0x7FF && bits % 0x10_0000_0000_0000 != 0 ==> whole(
            bits,
        ) == 0,
        1086 <= (bits / 0x10_0000_0000_0000) % 0x800 < 0x7FF ==> whole(bits) == if bits
            < 0x8000_0000_0000_0000 {
            i64::MAX
        } else {
            i64::MIN
        },
        (bits / 0x10_0000_0000_0000) % 0x800 == 0x7FF && bits % 0x10_0000_0000_0000 == 0 ==> whole(
            bits,
        ) == if bits < 0x8000_0000_0000_0000 {
            i64::MAX
        } else {
            i64::MIN
        },
{
}

/// A large double without a fraction stands for its digits, moved up.
pub proof fn large_doubles_are_whole(bits: u64)
    requires
        1075 <= (bits / 0x10_0000_0000_0000) % 0x800 < 1086,
    ensures
        ({
            let m = 0x10_0000_0000_0000 + bits % 0x10_0000_0000_0000;
            let e = (bits / 0x10_0000_0000_0000) % 0x800;
            &&& bits < 0x8000_0000_0000_0000 ==> whole(bits) == m * pow2((e - 1075) as nat)
            &&& bits >= 0x8000_0000_0000_0000 ==> whole(bits) == 0 - m * pow2((e - 1075) as nat)
        }),
{
    let m: int = 0x10_0000_0000_0000 + bits % 0x10_0000_0000_0000;
    let e: int = (bits / 0x10_0000_0000_0000) as int % 0x800;
    let weight: int = pow2((e - 1075) as nat) as int;
    vstd::arithmetic::power2::lemma_pow2_pos((e - 1075) as nat);
    vstd::arithmetic::power2::lemma2_to64();
    if e - 1075 < 10 {
        vstd::arithmetic::power2::lemma_pow2_strictly_increases((e - 1075) as nat, 10);
    }
    assert(m * weight <= 0x1F_FFFF_FFFF_FFFF * 1024) by (nonlinear_arith)
        requires
            0 <= m <= 0x1F_FFFF_FFFF_FFFF,
            0 < weight <= 1024,
    ;
    assert(m * weight >= 0) by (nonlinear_arith)
        requires
            m >= 0,
            weight > 0,
    ;
}

} // verus!
