//! Compile-time constants.

use crate::ast::{ArrayElem, CallArg, Expr, VarDecl};
use crate::text::str_eq;
use crate::types::{Type, TypeView};
use vstd::arithmetic::power2::pow2;
use vstd::prelude::*;

verus! {

/// A double-precision number: given by its IEEE 754 bits, or as the double
/// nearest to an integer.
#[derive(Clone, Copy, Debug, PartialEq, Eq, Structural)]
pub enum Number {
    Bits(u64),
    Nearest(i64),
}

/// The bits of zero.
pub const ZERO_BITS: u64 = 0;

/// The bits of one.
pub const ONE_BITS: u64 = 0x3FF0_0000_0000_0000;

/// The bit that holds the sign.
pub const SIGN_BIT: u64 = 0x8000_0000_0000_0000;

#[derive(Debug)]
pub enum Literal {
    Bool(bool),
    Int(i64),
    Float(Number),
    String(std::string::String),
    Vector { x: Number, y: Number, z: Number },
    Rotator { pitch: Number, yaw: Number, roll: Number },
    Quat { x: Number, y: Number, z: Number, w: Number },
    LinearColor { r: Number, g: Number, b: Number, a: Number },
    Object,
    Array(Vec<Literal>),
    Asset { asset_type: std::string::String, asset_name: std::string::String },
    PrefabRef { path: std::string::String },
}

/// A constant as a mathematical value.
pub enum LiteralView {
    Bool(bool),
    Int(i64),
    Float(Number),
    String(Seq<char>),
    Vector { x: Number, y: Number, z: Number },
    Rotator { pitch: Number, yaw: Number, roll: Number },
    Quat { x: Number, y: Number, z: Number, w: Number },
    LinearColor { r: Number, g: Number, b: Number, a: Number },
    Object,
    Array(Seq<LiteralView>),
    Asset { asset_type: Seq<char>, asset_name: Seq<char> },
    PrefabRef { path: Seq<char> },
}

impl Literal {
    pub open spec fn model(self) -> LiteralView
        decreases self,
    {
        match self {
            Literal::Bool(b) => LiteralView::Bool(b),
            Literal::Int(n) => LiteralView::Int(n),
            Literal::Float(f) => LiteralView::Float(f),
            Literal::String(s) => LiteralView::String(s@),
            Literal::Vector { x, y, z } => LiteralView::Vector { x, y, z },
            Literal::Rotator { pitch, yaw, roll } => LiteralView::Rotator { pitch, yaw, roll },
            Literal::Quat { x, y, z, w } => LiteralView::Quat { x, y, z, w },
            Literal::LinearColor { r, g, b, a } => LiteralView::LinearColor { r, g, b, a },
            Literal::Object => LiteralView::Object,
            Literal::Array(v) => LiteralView::Array(
                Seq::new(
                    v@.len(),
                    |i: int|
                        if 0 <= i < v@.len() {
                            v@[i].model()
                        } else {
                            LiteralView::Object
                        },
                ),
            ),
            Literal::Asset { asset_type, asset_name } => LiteralView::Asset {
                asset_type: asset_type@,
                asset_name: asset_name@,
            },
            Literal::PrefabRef { path } => LiteralView::PrefabRef { path: path@ },
        }
    }
}

impl View for Literal {
    type V = LiteralView;

    open spec fn view(&self) -> LiteralView {
        self.model()
    }
}

/// Negation flips the sign bit of a double; of an integer it is the two's
/// complement, so the least integer stays itself.
pub open spec fn negated_int(n: i64) -> i64 {
    if n == i64::MIN {
        n
    } else {
        (-n) as i64
    }
}

pub open spec fn negated_number(f: Number) -> Number {
    match f {
        Number::Bits(b) => Number::Bits(b ^ SIGN_BIT),
        Number::Nearest(n) => Number::Nearest(negated_int(n)),
    }
}

fn negate_int(n: i64) -> (r: i64)
    ensures
        r == negated_int(n),
{
    if n == i64::MIN {
        n
    } else {
        -n
    }
}

/// The number a numeric constant stands for.
pub open spec fn as_number(l: Option<LiteralView>) -> Option<Number> {
    match l {
        Some(LiteralView::Int(n)) => Some(Number::Nearest(n)),
        Some(LiteralView::Float(f)) => Some(f),
        _ => None,
    }
}

/// The constant an expression denotes, if it is a literal, a negated number,
/// a constructor call on numbers, or an asset or prefab reference.
pub open spec fn literal_of(e: Expr) -> Option<LiteralView>
    decreases e, 0nat,
{
    match e {
        Expr::IntLit { value, .. } => Some(LiteralView::Int(value)),
        Expr::FloatLit { bits, .. } => Some(LiteralView::Float(Number::Bits(bits))),
        Expr::BoolLit { value, .. } => Some(LiteralView::Bool(value)),
        Expr::StringLit { value, .. } => Some(LiteralView::String(value@)),
        Expr::UnOp { op, operand, .. } => if op@ == "-"@ {
            match literal_of(*operand) {
                Some(LiteralView::Int(n)) => Some(LiteralView::Int(negated_int(n))),
                Some(LiteralView::Float(f)) => Some(LiteralView::Float(negated_number(f))),
                _ => None,
            }
        } else {
            None
        },
        Expr::Call { callee, args, .. } => match *callee {
            Expr::Ident { name, .. } => match numbers_of(args@, args@.len()) {
                Some(nums) => constructed(name@, nums),
                None => None,
            },
            _ => None,
        },
        Expr::AssetRef { asset_type, asset_name, .. } => Some(
            LiteralView::Asset { asset_type: asset_type@, asset_name: asset_name@ },
        ),
        Expr::PrefabRef { path, .. } => Some(LiteralView::PrefabRef { path: path@ }),
        _ => None,
    }
}

/// The numbers that the first `n` arguments denote, if each is a positional
/// numeric constant.
pub open spec fn numbers_of(args: Seq<CallArg>, n: nat) -> Option<Seq<Number>>
    decreases args, n,
{
    if n == 0 {
        Some(Seq::empty())
    } else if n > args.len() {
        None
    } else {
        match (numbers_of(args, (n - 1) as nat), args[n - 1]) {
            (Some(before), CallArg::Positional(e)) => match as_number(literal_of(e)) {
                Some(num) => Some(before.push(num)),
                None => None,
            },
            _ => None,
        }
    }
}

/// The value that a constructor makes of its numbers.
pub open spec fn constructed(name: Seq<char>, nums: Seq<Number>) -> Option<LiteralView> {
    if name == "Vec"@ && nums.len() == 3 {
        Some(LiteralView::Vector { x: nums[0], y: nums[1], z: nums[2] })
    } else if name == "Rotation"@ && nums.len() == 3 {
        Some(LiteralView::Rotator { pitch: nums[0], yaw: nums[1], roll: nums[2] })
    } else if name == "Color"@ && nums.len() == 3 {
        Some(
            LiteralView::LinearColor {
                r: nums[0],
                g: nums[1],
                b: nums[2],
                a: Number::Bits(ONE_BITS),
            },
        )
    } else if name == "Color"@ && nums.len() == 4 {
        Some(LiteralView::LinearColor { r: nums[0], g: nums[1], b: nums[2], a: nums[3] })
    } else {
        None
    }
}

/// What is known of an optional constant.
pub open spec fn shown(l: Option<Literal>) -> Option<LiteralView> {
    match l {
        Some(x) => Some(x@),
        None => None,
    }
}

fn construct(name: &str, nums: &Vec<Number>) -> (r: Option<Literal>)
    ensures
        shown(r) == constructed(name@, nums@),
{
    let n: usize = nums.len();
    if n == 3 && str_eq(name, "Vec") {
        return Some(Literal::Vector { x: nums[0], y: nums[1], z: nums[2] });
    }
    if n == 3 && str_eq(name, "Rotation") {
        return Some(Literal::Rotator { pitch: nums[0], yaw: nums[1], roll: nums[2] });
    }
    if n == 3 && str_eq(name, "Color") {
        return Some(
            Literal::LinearColor {
                r: nums[0],
                g: nums[1],
                b: nums[2],
                a: Number::Bits(ONE_BITS),
            },
        );
    }
    if n == 4 && str_eq(name, "Color") {
        return Some(Literal::LinearColor { r: nums[0], g: nums[1], b: nums[2], a: nums[3] });
    }
    None
}

/// Folds an expression to the constant it denotes.
pub fn expr_to_literal(e: &Expr) -> (r: Option<Literal>)
    ensures
        shown(r) == literal_of(*e),
    decreases e,
{
    match e {
        Expr::IntLit { value, .. } => Some(Literal::Int(*value)),
        Expr::FloatLit { bits, .. } => Some(Literal::Float(Number::Bits(*bits))),
        Expr::BoolLit { value, .. } => Some(Literal::Bool(*value)),
        Expr::StringLit { value, .. } => Some(Literal::String(value.clone())),
        Expr::UnOp { op, operand, .. } => {
            if !str_eq(op.as_str(), "-") {
                return None;
            }
            match expr_to_literal(operand) {
                Some(Literal::Int(n)) => Some(Literal::Int(negate_int(n))),
                Some(Literal::Float(Number::Bits(b))) => Some(
                    Literal::Float(Number::Bits(b ^ SIGN_BIT)),
                ),
                Some(Literal::Float(Number::Nearest(n))) => Some(
                    Literal::Float(Number::Nearest(negate_int(n))),
                ),
                _ => None,
            }
        },
        Expr::Call { callee, args, .. } => match &**callee {
            Expr::Ident { name, .. } => {
                let mut nums: Vec<Number> = Vec::new();
                let mut i: usize = 0;
                while i < args.len()
                    invariant
                        i <= args@.len(),
                        numbers_of(args@, i as nat) == Some(nums@),
                        forall|k: int| 0 <= k < args@.len() ==> decreases_to!(e => args@[k]),
                        literal_of(*e) == match numbers_of(args@, args@.len()) {
                            Some(ns) => constructed(name@, ns),
                            None => None,
                        },
                    decreases args.len() - i,
                {
                    let num: Number = match &args[i] {
                        CallArg::Positional(arg) => match expr_to_literal(arg) {
                            Some(Literal::Int(n)) => Number::Nearest(n),
                            Some(Literal::Float(f)) => f,
                            _ => {
                                proof {
                                    lemma_numbers_stop(args@, i as nat + 1, args@.len());
                                }
                                return None;
                            },
                        },
                        _ => {
                            proof {
                                lemma_numbers_stop(args@, i as nat + 1, args@.len());
                            }
                            return None;
                        },
                    };
                    nums.push(num);
                    i += 1;
                }
                construct(name.as_str(), &nums)
            },
            _ => None,
        },
        Expr::AssetRef { asset_type, asset_name, .. } => Some(
            Literal::Asset { asset_type: asset_type.clone(), asset_name: asset_name.clone() },
        ),
        Expr::PrefabRef { path, .. } => Some(Literal::PrefabRef { path: path.clone() }),
        _ => None,
    }
}

/// One argument that is no number spoils the whole list.
proof fn lemma_numbers_stop(args: Seq<CallArg>, i: nat, n: nat)
    requires
        i <= n,
        numbers_of(args, i) is None,
    ensures
        numbers_of(args, n) is None,
    decreases n,
{
    if i < n {
        lemma_numbers_stop(args, i, (n - 1) as nat);
    }
}

/// The constant of an array element; a spread is none.
pub open spec fn elem_literal(el: ArrayElem) -> Option<LiteralView> {
    match el {
        ArrayElem::Item(e) => literal_of(e),
        ArrayElem::Spread(_) => None,
    }
}

pub fn array_elem_literal(el: &ArrayElem) -> (r: Option<Literal>)
    ensures
        shown(r) == elem_literal(*el),
{
    match el {
        ArrayElem::Item(e) => expr_to_literal(e),
        ArrayElem::Spread(_) => None,
    }
}

/// Whether an initializer is no compile-time constant.
pub open spec fn unbaked(init: Expr) -> bool {
    match init {
        Expr::Array { elements, .. } => exists|i: int|
            0 <= i < elements@.len() && elem_literal(#[trigger] elements@[i]) is None,
        e => literal_of(e) is None,
    }
}

/// The initializer of a variable that cannot be baked into its gate.
pub fn var_init_unbaked(v: &VarDecl) -> (r: Option<&Expr>)
    ensures
        r is Some <==> v.init is Some && unbaked(v.init->0),
        r matches Some(e) ==> *e == v.init->0,
{
    match &v.init {
        None => None,
        Some(init) => {
            let is_unbaked = match init {
                Expr::Array { elements, .. } => {
                    let mut found = false;
                    let mut i: usize = 0;
                    while i < elements.len()
                        invariant
                            i <= elements@.len(),
                            found == exists|k: int|
                                0 <= k < i && elem_literal(#[trigger] elements@[k]) is None,
                        decreases elements.len() - i,
                    {
                        if array_elem_literal(&elements[i]).is_none() {
                            found = true;
                        }
                        i += 1;
                    }
                    found
                },
                e => expr_to_literal(e).is_none(),
            };
            if is_unbaked {
                Some(init)
            } else {
                None
            }
        },
    }
}

/// The value a variable of a given type starts with.
pub open spec fn default_literal(t: TypeView) -> LiteralView {
    let zero = Number::Bits(ZERO_BITS);
    let one = Number::Bits(ONE_BITS);
    match t {
        TypeView::Bool => LiteralView::Bool(false),
        TypeView::Int => LiteralView::Int(0),
        TypeView::String => LiteralView::String(Seq::empty()),
        TypeView::Vector => LiteralView::Vector { x: zero, y: zero, z: zero },
        TypeView::Rotator => LiteralView::Rotator { pitch: zero, yaw: zero, roll: zero },
        TypeView::Quat => LiteralView::Quat { x: zero, y: zero, z: zero, w: one },
        TypeView::Color => LiteralView::LinearColor { r: one, g: one, b: one, a: one },
        TypeView::Controller => LiteralView::Object,
        TypeView::Character => LiteralView::Object,
        TypeView::Entity => LiteralView::Object,
        TypeView::Brick => LiteralView::Object,
        TypeView::Prefab => LiteralView::Object,
        _ => LiteralView::Float(zero),
    }
}

pub fn default_literal_for_var_type(t: &Type) -> (r: Option<Literal>)
    ensures
        shown(r) == Some(default_literal(t@)),
{
    let zero = Number::Bits(ZERO_BITS);
    let one = Number::Bits(ONE_BITS);
    Some(
        match t {
            Type::Bool => Literal::Bool(false),
            Type::Int => Literal::Int(0),
            Type::String => Literal::String(std::string::String::new()),
            Type::Vector => Literal::Vector { x: zero, y: zero, z: zero },
            Type::Rotator => Literal::Rotator { pitch: zero, yaw: zero, roll: zero },
            Type::Quat => Literal::Quat { x: zero, y: zero, z: zero, w: one },
            Type::Color => Literal::LinearColor { r: one, g: one, b: one, a: one },
            Type::Controller => Literal::Object,
            Type::Character => Literal::Object,
            Type::Entity => Literal::Object,
            Type::Brick => Literal::Object,
            Type::Prefab => Literal::Object,
            _ => Literal::Float(zero),
        },
    )
}

/// The bits of minus one.
pub const MINUS_ONE_BITS: u64 = 0xBFF0_0000_0000_0000;

/// The size of `m` times two to the power `e`, without what is below one.
pub open spec fn scaled(m: nat, e: int) -> nat {
    if e >= 0 {
        m * pow2(e as nat)
    } else {
        m / pow2((-e) as nat)
    }
}

/// The integer that a double is cut down to: towards zero, at the nearest end
/// of the integers' range when it lies outside, and zero when it is no number.
pub open spec fn whole(bits: u64) -> i64 {
    let negative = bits / 0x8000_0000_0000_0000 == 1;
    let exponent = (bits / 0x10_0000_0000_0000) % 0x800;
    let fraction = bits % 0x10_0000_0000_0000;
    if exponent == 0x7FF && fraction != 0 {
        0
    } else if exponent < 1023 {
        0
    } else if exponent >= 1086 {
        if negative {
            i64::MIN
        } else {
            i64::MAX
        }
    } else {
        let size = scaled((0x10_0000_0000_0000 + fraction) as nat, exponent - 1075);
        if negative {
            (0 - size) as i64
        } else {
            size as i64
        }
    }
}

/// Two to the power `n`.
fn power(n: u64) -> (r: u64)
    requires
        n < 53,
    ensures
        r == pow2(n as nat),
        1 <= r,
        r <= 0x10_0000_0000_0000,
{
    let mut i: u64 = 0;
    let mut r: u64 = 1;
    proof {
        vstd::arithmetic::power2::lemma2_to64();
        vstd::arithmetic::power2::lemma2_to64_rest();
    }
    while i < n
        invariant
            i <= n < 53,
            r == pow2(i as nat),
            pow2(52) == 0x10_0000_0000_0000,
        decreases n - i,
    {
        proof {
            vstd::arithmetic::power2::lemma_pow2_unfold((i + 1) as nat);
            if i + 1 < 52 {
                vstd::arithmetic::power2::lemma_pow2_strictly_increases((i + 1) as nat, 52);
            }
        }
        r = 2 * r;
        i += 1;
    }
    proof {
        vstd::arithmetic::power2::lemma_pow2_pos(n as nat);
        if n < 52 {
            vstd::arithmetic::power2::lemma_pow2_strictly_increases(n as nat, 52);
        }
    }
    r
}

pub fn whole_part(bits: u64) -> (r: i64)
    ensures
        r == whole(bits),
{
    let negative = bits / 0x8000_0000_0000_0000 == 1;
    let exponent: u64 = (bits / 0x10_0000_0000_0000) % 0x800;
    let fraction: u64 = bits % 0x10_0000_0000_0000;
    if exponent == 0x7FF && fraction != 0 {
        return 0;
    }
    if exponent < 1023 {
        return 0;
    }
    if exponent >= 1086 {
        return if negative {
            i64::MIN
        } else {
            i64::MAX
        };
    }
    let m: u64 = 0x10_0000_0000_0000 + fraction;
    let size: u64 = if exponent >= 1075 {
        let p: u64 = power(exponent - 1075);
        proof {
            vstd::arithmetic::power2::lemma2_to64();
            if exponent - 1075 < 10 {
                vstd::arithmetic::power2::lemma_pow2_strictly_increases(
                    (exponent - 1075) as nat,
                    10,
                );
            }
        }
        assert(m * p <= 0x1F_FFFF_FFFF_FFFF * 0x400) by (nonlinear_arith)
            requires
                0 <= m <= 0x1F_FFFF_FFFF_FFFF,
                0 <= p <= 0x400,
        ;
        m * p
    } else {
        let p: u64 = power(1075 - exponent);
        assert(0 <= m as int / p as int <= m) by (nonlinear_arith)
            requires
                p >= 1,
                m >= 0,
        ;
        m / p
    };
    assert(size == scaled(m as nat, exponent - 1075));
    assert(size <= i64::MAX);
    if negative {
        0 - (size as i64)
    } else {
        size as i64
    }
}

/// A constant number that is no integer is given by its bits.
pub proof fn lemma_float_literal_is_bits(e: Expr)
    ensures
        literal_of(e) matches Some(LiteralView::Float(n)) ==> n is Bits,
    decreases e,
{
    if let Expr::UnOp { op, operand, .. } = e {
        lemma_float_literal_is_bits(*operand);
    }
}

/// Types whose values name things in the world.
pub open spec fn entity_family(t: TypeView) -> bool {
    t is Controller || t is Character || t is Entity || t is Brick || t is Prefab
}

pub fn is_entity_family(t: &Type) -> (r: bool)
    ensures
        r == entity_family(t@),
{
    matches!(t, Type::Controller | Type::Character | Type::Entity | Type::Brick | Type::Prefab)
}

} // verus!
