//! The value a number literal denotes. The engine reads a literal as the
//! 64-bit float nearest to its decimal value, ties going to the float with
//! the even significand. Every decision taken on that float here (is it at
//! most one, is it a whole number, which one, is it infinite) compares the
//! literal with a rounding boundary whose decimal expansion is finite, and is
//! decided exactly on the literal's digits.
use vstd::prelude::*;
use vstd::slice::slice_subrange;

use crate::grammar::{digits_value, integer_part, number_display};
use crate::lexer::{chars_of, digits_end, string_from_chars};
use crate::parser::{digit_of, is_digit_char, number_display_text};
use crate::text::{concat_decimal, decimal};

verus! {

// ----- rounding boundaries -----
/// The decimal digits of 2^-n after the point (n of them), for n from 2 to 54.
pub open spec fn half_ulp_digits(n: nat) -> Seq<char> {
    if n == 2 {
        "25"@
    } else if n == 3 {
        "125"@
    } else if n == 4 {
        "0625"@
    } else if n == 5 {
        "03125"@
    } else if n == 6 {
        "015625"@
    } else if n == 7 {
        "0078125"@
    } else if n == 8 {
        "00390625"@
    } else if n == 9 {
        "001953125"@
    } else if n == 10 {
        "0009765625"@
    } else if n == 11 {
        "00048828125"@
    } else if n == 12 {
        "000244140625"@
    } else if n == 13 {
        "0001220703125"@
    } else if n == 14 {
        "00006103515625"@
    } else if n == 15 {
        "000030517578125"@
    } else if n == 16 {
        "0000152587890625"@
    } else if n == 17 {
        "00000762939453125"@
    } else if n == 18 {
        "000003814697265625"@
    } else if n == 19 {
        "0000019073486328125"@
    } else if n == 20 {
        "00000095367431640625"@
    } else if n == 21 {
        "000000476837158203125"@
    } else if n == 22 {
        "0000002384185791015625"@
    } else if n == 23 {
        "00000011920928955078125"@
    } else if n == 24 {
        "000000059604644775390625"@
    } else if n == 25 {
        "0000000298023223876953125"@
    } else if n == 26 {
        "00000001490116119384765625"@
    } else if n == 27 {
        "000000007450580596923828125"@
    } else if n == 28 {
        "0000000037252902984619140625"@
    } else if n == 29 {
        "00000000186264514923095703125"@
    } else if n == 30 {
        "000000000931322574615478515625"@
    } else if n == 31 {
        "0000000004656612873077392578125"@
    } else if n == 32 {
        "00000000023283064365386962890625"@
    } else if n == 33 {
        "000000000116415321826934814453125"@
    } else if n == 34 {
        "0000000000582076609134674072265625"@
    } else if n == 35 {
        "00000000002910383045673370361328125"@
    } else if n == 36 {
        "000000000014551915228366851806640625"@
    } else if n == 37 {
        "0000000000072759576141834259033203125"@
    } else if n == 38 {
        "00000000000363797880709171295166015625"@
    } else if n == 39 {
        "000000000001818989403545856475830078125"@
    } else if n == 40 {
        "0000000000009094947017729282379150390625"@
    } else if n == 41 {
        "00000000000045474735088646411895751953125"@
    } else if n == 42 {
        "000000000000227373675443232059478759765625"@
    } else if n == 43 {
        "0000000000001136868377216160297393798828125"@
    } else if n == 44 {
        "00000000000005684341886080801486968994140625"@
    } else if n == 45 {
        "000000000000028421709430404007434844970703125"@
    } else if n == 46 {
        "0000000000000142108547152020037174224853515625"@
    } else if n == 47 {
        "00000000000000710542735760100185871124267578125"@
    } else if n == 48 {
        "000000000000003552713678800500929355621337890625"@
    } else if n == 49 {
        "0000000000000017763568394002504646778106689453125"@
    } else if n == 50 {
        "00000000000000088817841970012523233890533447265625"@
    } else if n == 51 {
        "000000000000000444089209850062616169452667236328125"@
    } else if n == 52 {
        "0000000000000002220446049250313080847263336181640625"@
    } else if n == 53 {
        "00000000000000011102230246251565404236316680908203125"@
    } else if n == 54 {
        "000000000000000055511151231257827021181583404541015625"@
    } else {
        Seq::empty()
    }
}

/// The decimal digits of 1 - 2^-n after the point (n of them), for n from 2 to 54.
pub open spec fn below_one_digits(n: nat) -> Seq<char> {
    if n == 2 {
        "75"@
    } else if n == 3 {
        "875"@
    } else if n == 4 {
        "9375"@
    } else if n == 5 {
        "96875"@
    } else if n == 6 {
        "984375"@
    } else if n == 7 {
        "9921875"@
    } else if n == 8 {
        "99609375"@
    } else if n == 9 {
        "998046875"@
    } else if n == 10 {
        "9990234375"@
    } else if n == 11 {
        "99951171875"@
    } else if n == 12 {
        "999755859375"@
    } else if n == 13 {
        "9998779296875"@
    } else if n == 14 {
        "99993896484375"@
    } else if n == 15 {
        "999969482421875"@
    } else if n == 16 {
        "9999847412109375"@
    } else if n == 17 {
        "99999237060546875"@
    } else if n == 18 {
        "999996185302734375"@
    } else if n == 19 {
        "9999980926513671875"@
    } else if n == 20 {
        "99999904632568359375"@
    } else if n == 21 {
        "999999523162841796875"@
    } else if n == 22 {
        "9999997615814208984375"@
    } else if n == 23 {
        "99999988079071044921875"@
    } else if n == 24 {
        "999999940395355224609375"@
    } else if n == 25 {
        "9999999701976776123046875"@
    } else if n == 26 {
        "99999998509883880615234375"@
    } else if n == 27 {
        "999999992549419403076171875"@
    } else if n == 28 {
        "9999999962747097015380859375"@
    } else if n == 29 {
        "99999999813735485076904296875"@
    } else if n == 30 {
        "999999999068677425384521484375"@
    } else if n == 31 {
        "9999999995343387126922607421875"@
    } else if n == 32 {
        "99999999976716935634613037109375"@
    } else if n == 33 {
        "999999999883584678173065185546875"@
    } else if n == 34 {
        "9999999999417923390865325927734375"@
    } else if n == 35 {
        "99999999997089616954326629638671875"@
    } else if n == 36 {
        "999999999985448084771633148193359375"@
    } else if n == 37 {
        "9999999999927240423858165740966796875"@
    } else if n == 38 {
        "99999999999636202119290828704833984375"@
    } else if n == 39 {
        "999999999998181010596454143524169921875"@
    } else if n == 40 {
        "9999999999990905052982270717620849609375"@
    } else if n == 41 {
        "99999999999954525264911353588104248046875"@
    } else if n == 42 {
        "999999999999772626324556767940521240234375"@
    } else if n == 43 {
        "9999999999998863131622783839702606201171875"@
    } else if n == 44 {
        "99999999999994315658113919198513031005859375"@
    } else if n == 45 {
        "999999999999971578290569595992565155029296875"@
    } else if n == 46 {
        "9999999999999857891452847979962825775146484375"@
    } else if n == 47 {
        "99999999999999289457264239899814128875732421875"@
    } else if n == 48 {
        "999999999999996447286321199499070644378662109375"@
    } else if n == 49 {
        "9999999999999982236431605997495353221893310546875"@
    } else if n == 50 {
        "99999999999999911182158029987476766109466552734375"@
    } else if n == 51 {
        "999999999999999555910790149937383830547332763671875"@
    } else if n == 52 {
        "9999999999999997779553950749686919152736663818359375"@
    } else if n == 53 {
        "99999999999999988897769753748434595763683319091796875"@
    } else if n == 54 {
        "999999999999999944488848768742172978818416595458984375"@
    } else {
        Seq::empty()
    }
}

fn half_ulp_text(n: u32) -> (r: &'static str)
    ensures
        r@ == half_ulp_digits(n as nat),
{
    if n == 2 {
        "25"
    } else if n == 3 {
        "125"
    } else if n == 4 {
        "0625"
    } else if n == 5 {
        "03125"
    } else if n == 6 {
        "015625"
    } else if n == 7 {
        "0078125"
    } else if n == 8 {
        "00390625"
    } else if n == 9 {
        "001953125"
    } else if n == 10 {
        "0009765625"
    } else if n == 11 {
        "00048828125"
    } else if n == 12 {
        "000244140625"
    } else if n == 13 {
        "0001220703125"
    } else if n == 14 {
        "00006103515625"
    } else if n == 15 {
        "000030517578125"
    } else if n == 16 {
        "0000152587890625"
    } else if n == 17 {
        "00000762939453125"
    } else if n == 18 {
        "000003814697265625"
    } else if n == 19 {
        "0000019073486328125"
    } else if n == 20 {
        "00000095367431640625"
    } else if n == 21 {
        "000000476837158203125"
    } else if n == 22 {
        "0000002384185791015625"
    } else if n == 23 {
        "00000011920928955078125"
    } else if n == 24 {
        "000000059604644775390625"
    } else if n == 25 {
        "0000000298023223876953125"
    } else if n == 26 {
        "00000001490116119384765625"
    } else if n == 27 {
        "000000007450580596923828125"
    } else if n == 28 {
        "0000000037252902984619140625"
    } else if n == 29 {
        "00000000186264514923095703125"
    } else if n == 30 {
        "000000000931322574615478515625"
    } else if n == 31 {
        "0000000004656612873077392578125"
    } else if n == 32 {
        "00000000023283064365386962890625"
    } else if n == 33 {
        "000000000116415321826934814453125"
    } else if n == 34 {
        "0000000000582076609134674072265625"
    } else if n == 35 {
        "00000000002910383045673370361328125"
    } else if n == 36 {
        "000000000014551915228366851806640625"
    } else if n == 37 {
        "0000000000072759576141834259033203125"
    } else if n == 38 {
        "00000000000363797880709171295166015625"
    } else if n == 39 {
        "000000000001818989403545856475830078125"
    } else if n == 40 {
        "0000000000009094947017729282379150390625"
    } else if n == 41 {
        "00000000000045474735088646411895751953125"
    } else if n == 42 {
        "000000000000227373675443232059478759765625"
    } else if n == 43 {
        "0000000000001136868377216160297393798828125"
    } else if n == 44 {
        "00000000000005684341886080801486968994140625"
    } else if n == 45 {
        "000000000000028421709430404007434844970703125"
    } else if n == 46 {
        "0000000000000142108547152020037174224853515625"
    } else if n == 47 {
        "00000000000000710542735760100185871124267578125"
    } else if n == 48 {
        "000000000000003552713678800500929355621337890625"
    } else if n == 49 {
        "0000000000000017763568394002504646778106689453125"
    } else if n == 50 {
        "00000000000000088817841970012523233890533447265625"
    } else if n == 51 {
        "000000000000000444089209850062616169452667236328125"
    } else if n == 52 {
        "0000000000000002220446049250313080847263336181640625"
    } else if n == 53 {
        "00000000000000011102230246251565404236316680908203125"
    } else if n == 54 {
        "000000000000000055511151231257827021181583404541015625"
    } else {
        proof {
            reveal_strlit("");
        }
        ""
    }
}

fn below_one_text(n: u32) -> (r: &'static str)
    ensures
        r@ == below_one_digits(n as nat),
{
    if n == 2 {
        "75"
    } else if n == 3 {
        "875"
    } else if n == 4 {
        "9375"
    } else if n == 5 {
        "96875"
    } else if n == 6 {
        "984375"
    } else if n == 7 {
        "9921875"
    } else if n == 8 {
        "99609375"
    } else if n == 9 {
        "998046875"
    } else if n == 10 {
        "9990234375"
    } else if n == 11 {
        "99951171875"
    } else if n == 12 {
        "999755859375"
    } else if n == 13 {
        "9998779296875"
    } else if n == 14 {
        "99993896484375"
    } else if n == 15 {
        "999969482421875"
    } else if n == 16 {
        "9999847412109375"
    } else if n == 17 {
        "99999237060546875"
    } else if n == 18 {
        "999996185302734375"
    } else if n == 19 {
        "9999980926513671875"
    } else if n == 20 {
        "99999904632568359375"
    } else if n == 21 {
        "999999523162841796875"
    } else if n == 22 {
        "9999997615814208984375"
    } else if n == 23 {
        "99999988079071044921875"
    } else if n == 24 {
        "999999940395355224609375"
    } else if n == 25 {
        "9999999701976776123046875"
    } else if n == 26 {
        "99999998509883880615234375"
    } else if n == 27 {
        "999999992549419403076171875"
    } else if n == 28 {
        "9999999962747097015380859375"
    } else if n == 29 {
        "99999999813735485076904296875"
    } else if n == 30 {
        "999999999068677425384521484375"
    } else if n == 31 {
        "9999999995343387126922607421875"
    } else if n == 32 {
        "99999999976716935634613037109375"
    } else if n == 33 {
        "999999999883584678173065185546875"
    } else if n == 34 {
        "9999999999417923390865325927734375"
    } else if n == 35 {
        "99999999997089616954326629638671875"
    } else if n == 36 {
        "999999999985448084771633148193359375"
    } else if n == 37 {
        "9999999999927240423858165740966796875"
    } else if n == 38 {
        "99999999999636202119290828704833984375"
    } else if n == 39 {
        "999999999998181010596454143524169921875"
    } else if n == 40 {
        "9999999999990905052982270717620849609375"
    } else if n == 41 {
        "99999999999954525264911353588104248046875"
    } else if n == 42 {
        "999999999999772626324556767940521240234375"
    } else if n == 43 {
        "9999999999998863131622783839702606201171875"
    } else if n == 44 {
        "99999999999994315658113919198513031005859375"
    } else if n == 45 {
        "999999999999971578290569595992565155029296875"
    } else if n == 46 {
        "9999999999999857891452847979962825775146484375"
    } else if n == 47 {
        "99999999999999289457264239899814128875732421875"
    } else if n == 48 {
        "999999999999996447286321199499070644378662109375"
    } else if n == 49 {
        "9999999999999982236431605997495353221893310546875"
    } else if n == 50 {
        "99999999999999911182158029987476766109466552734375"
    } else if n == 51 {
        "999999999999999555910790149937383830547332763671875"
    } else if n == 52 {
        "9999999999999997779553950749686919152736663818359375"
    } else if n == 53 {
        "99999999999999988897769753748434595763683319091796875"
    } else if n == 54 {
        "999999999999999944488848768742172978818416595458984375"
    } else {
        proof {
            reveal_strlit("");
        }
        ""
    }
}

/// The decimal digits of 2^-1075 after the point (1075 of them): half the
/// smallest positive float. A literal below one that is at most this reads
/// as zero.
pub open spec fn underflow_tie_digits() -> Seq<char> {
    "0000000000000000000000000000000000000000000000000000000000000000000000000000000000000000000000000000000000000000000000000000000000000000000000000000000000000000000000000000000000000000000000000000000000000000000000000000000000000000000000000000000000000000000000000000000000000000000000000000000000000000000000000000000000024703282292062327208828439643411068618252990130716238221279284125033775363510437593264991818081799618989828234772285886546332835517796989819938739800539093906315035659515570226392290858392449105184435931802849936536152500319370457678249219365623669863658480757001585769269903706311928279558551332927834338409351978015531246597263579574622766465272827220056374006485499977096599470454020828166226237857393450736339007967761930577506740176324673600968951340535537458516661134223766678604162159680461914467291840300530057530849048765391711386591646239524912623653881879636239373280423891018672348497668235089863388587925628302755995657524455507255189313690836254779186948667994968324049705821028513185451396213837722826145437693412532098591327667236328125"@
}

/// The decimal digits of 2^1024 - 2^970: halfway between the largest finite
/// float and 2^1024. A literal at least this reads as infinity.
pub open spec fn overflow_digits() -> Seq<char> {
    "179769313486231580793728971405303415079934132710037826936173778980444968292764750946649017977587207096330286416692887910946555547851940402630657488671505820681908902000708383676273854845817711531764475730270069855571366959622842914819860834936475292719074168444365510704342711559699508093042880177904174497792"@
}

// ----- the digits of a literal -----
/// The digits of a number literal after its point (none without a point).
pub open spec fn fraction_digits(t: Seq<char>) -> Seq<char> {
    let d = digits_end(t, 0);
    if d < t.len() {
        t.skip(d + 1)
    } else {
        Seq::empty()
    }
}

pub open spec fn all_zeros(s: Seq<char>) -> bool {
    forall|i: int| 0 <= i < s.len() ==> s[i] == '0'
}

/// Decimal fractions compared: 0.f is at most 0.g.
pub open spec fn frac_le(f: Seq<char>, g: Seq<char>) -> bool
    decreases f.len(),
{
    if f.len() == 0 {
        true
    } else if g.len() == 0 {
        all_zeros(f)
    } else if f[0] != g[0] {
        (f[0] as u32) < (g[0] as u32)
    } else {
        frac_le(f.drop_first(), g.drop_first())
    }
}

/// A run of digits without its leading zeros.
pub open spec fn strip_zeros(s: Seq<char>) -> Seq<char>
    decreases s.len(),
{
    if s.len() > 0 && s[0] == '0' {
        strip_zeros(s.drop_first())
    } else {
        s
    }
}

/// Two runs of digits of the same length compared: `a` is at least `b`.
pub open spec fn digits_at_least(a: Seq<char>, b: Seq<char>) -> bool
    decreases a.len(),
{
    if a.len() == 0 || b.len() == 0 {
        true
    } else if a[0] != b[0] {
        (a[0] as u32) > (b[0] as u32)
    } else {
        digits_at_least(a.drop_first(), b.drop_first())
    }
}

pub open spec fn bit_length(x: nat) -> nat
    decreases x,
{
    if x == 0 {
        0
    } else {
        1 + bit_length(x / 2)
    }
}

pub open spec fn pow2_nat(e: nat) -> nat
    decreases e,
{
    if e == 0 {
        1
    } else {
        2 * pow2_nat((e - 1) as nat)
    }
}

// ----- the float a literal reads as -----
/// Whether a literal reads as infinity: its value is at least
/// 2^1024 - 2^970.
pub open spec fn reads_infinite(t: Seq<char>) -> bool {
    let a = strip_zeros(integer_part(t));
    let b = overflow_digits();
    a.len() > b.len() || (a.len() == b.len() && digits_at_least(a, b))
}

/// Whether a literal reads as a float of at most 1.0: its value is at most
/// 1 + 2^-53, the largest decimal value that rounds to 1.0. (Literals are
/// never negative.)
pub open spec fn reads_at_most_one(t: Seq<char>) -> bool {
    let i = digits_value(integer_part(t));
    i == 0 || (i == 1 && frac_le(fraction_digits(t), half_ulp_digits(53)))
}

/// Every float from 2^66 on is a whole number beyond every bound the engine
/// applies to one; such readings are given as 2^66.
pub open spec fn whole_cap() -> nat {
    pow2_nat(66)
}

/// The whole number a literal reads as, when the float nearest to its value
/// is finite and has no fractional part (at most `whole_cap()`); `None` when
/// it has one or is infinite. Below 2^52 floats are spaced more finely than
/// whole numbers, so the literal must lie within half a spacing of one; from
/// 2^52 on every float is whole and the literal rounds to the nearest
/// multiple of the spacing.
pub open spec fn float_whole(t: Seq<char>) -> Option<nat> {
    let i = digits_value(integer_part(t));
    let f = fraction_digits(t);
    if i >= whole_cap() {
        if reads_infinite(t) {
            None
        } else {
            Some(whole_cap())
        }
    } else if i == 0 {
        if frac_le(below_one_digits(54), f) {
            Some(1)
        } else if frac_le(f, underflow_tie_digits()) {
            Some(0)
        } else {
            None
        }
    } else if bit_length(i) <= 52 {
        let n = (54 - bit_length(i)) as nat;
        if frac_le(f, half_ulp_digits(n)) {
            Some(i)
        } else if frac_le(below_one_digits(n), f) {
            Some(i + 1)
        } else {
            None
        }
    } else if bit_length(i) == 53 {
        if !frac_le(f, "5"@) || (frac_le("5"@, f) && i % 2 == 1) {
            Some(i + 1)
        } else {
            Some(i)
        }
    } else {
        let unit = pow2_nat((bit_length(i) - 53) as nat);
        let r = i % unit;
        let half = unit / 2;
        if r > half || (r == half && (!all_zeros(f) || (i / unit) % 2 == 1)) {
            Some(((i - r) + unit) as nat)
        } else {
            Some((i - r) as nat)
        }
    }
}

/// How the engine prints the float a literal reads as: `inf` for an
/// infinite one, otherwise the literal's value written plainly.
pub open spec fn reading_text(t: Seq<char>) -> Seq<char> {
    if reads_infinite(t) {
        "inf"@
    } else {
        number_display(t)
    }
}

/// The largest `u64` at most `v`: the engine's conversion of a whole float
/// to `u64`, which saturates.
pub open spec fn saturate_u64(v: nat) -> u64 {
    if v > u64::MAX {
        u64::MAX
    } else {
        v as u64
    }
}

/// The largest `i64` at most `v`, as a `u64` (for whole readings, which are
/// never negative).
pub open spec fn saturate_i64(v: nat) -> u64 {
    if v > i64::MAX {
        i64::MAX as u64
    } else {
        v as u64
    }
}

/// The number of zeros a run of digits starts with.
pub open spec fn zeros_before(s: Seq<char>) -> nat
    decreases s.len(),
{
    if s.len() > 0 && s[0] == '0' {
        1 + zeros_before(s.drop_first())
    } else {
        0
    }
}

/// A run of digits without its trailing zeros.
pub open spec fn drop_trailing_zeros(s: Seq<char>) -> Seq<char>
    decreases s.len(),
{
    if s.len() > 0 && s.last() == '0' {
        drop_trailing_zeros(s.drop_last())
    } else {
        s
    }
}

/// All digits of a literal, without its point.
pub open spec fn all_digits(t: Seq<char>) -> Seq<char> {
    integer_part(t) + fraction_digits(t)
}

/// A literal's significant digits: from its first nonzero digit to its last.
pub open spec fn significant_digits(t: Seq<char>) -> Seq<char> {
    drop_trailing_zeros(all_digits(t).skip(zeros_before(all_digits(t)) as int))
}

/// The power of ten of a literal's first significant digit.
pub open spec fn leading_exponent(t: Seq<char>) -> int {
    integer_part(t).len() - 1 - zeros_before(all_digits(t))
}

pub open spec fn exponent_text(e: int) -> Seq<char> {
    if e < 0 {
        "-"@ + decimal((-e) as nat)
    } else {
        decimal(e as nat)
    }
}

/// How the engine names the float a literal reads as in a diagnostic (its
/// `Debug` form): `inf`, `0.0` for a literal that reads as zero, the
/// significant digits with an exponent below 1e-4 and from 1e16 on, and
/// otherwise the value written plainly with at least one digit after the
/// point.
pub open spec fn reading_debug_text(t: Seq<char>) -> Seq<char> {
    if reads_infinite(t) {
        "inf"@
    } else if significant_digits(t).len() == 0 || float_whole(t) == Some(0nat) {
        "0.0"@
    } else {
        let e = leading_exponent(t);
        let d = significant_digits(t);
        if e <= -5 || e >= 16 {
            d.take(1) + (if d.len() > 1 {
                "."@ + d.skip(1)
            } else {
                Seq::empty()
            }) + "e"@ + exponent_text(e)
        } else if number_display(t).contains('.') {
            number_display(t)
        } else {
            number_display(t) + ".0"@
        }
    }
}

// ----- deciding it on the digits -----
proof fn lemma_bit_length_below(x: nat, k: nat)
    requires
        x < pow2_nat(k),
    ensures
        bit_length(x) <= k,
    decreases k,
{
    if x > 0 {
        if k == 0 {
        } else {
            lemma_bit_length_below(x / 2, (k - 1) as nat);
        }
    }
}

proof fn lemma_whole_cap_value()
    ensures
        whole_cap() == 0x4_0000_0000_0000_0000,
{
    reveal_with_fuel(pow2_nat, 67);
}

proof fn lemma_pow2_monotone(a: nat, b: nat)
    requires
        a <= b,
    ensures
        pow2_nat(a) <= pow2_nat(b),
    decreases b,
{
    if a < b {
        lemma_pow2_monotone(a, (b - 1) as nat);
    }
}

fn frac_le_exec(f: &[char], g: &[char]) -> (r: bool)
    ensures
        r == frac_le(f@, g@),
{
    let mut i: usize = 0;
    assert(f@.skip(0) =~= f@);
    assert(g@.skip(0) =~= g@);
    while i < f.len() && i < g.len()
        invariant
            i <= f.len(),
            i <= g.len(),
            frac_le(f@.skip(i as int), g@.skip(i as int)) == frac_le(f@, g@),
        decreases f.len() - i,
    {
        if f[i] != g[i] {
            return (f[i] as u32) < (g[i] as u32);
        }
        proof {
            assert(f@.skip(i as int).drop_first() =~= f@.skip(i + 1));
            assert(g@.skip(i as int).drop_first() =~= g@.skip(i + 1));
        }
        i = i + 1;
    }
    if i == f.len() {
        return true;
    }
    let mut j: usize = i;
    while j < f.len()
        invariant
            i <= j <= f.len(),
            i == g.len(),
            i < f.len(),
            frac_le(f@.skip(i as int), g@.skip(i as int)) == frac_le(f@, g@),
            forall|k: int| i <= k < j ==> f@[k] == '0',
        decreases f.len() - j,
    {
        if f[j] != '0' {
            proof {
                assert(f@.skip(i as int)[j - i] == f@[j as int]);
            }
            return false;
        }
        j = j + 1;
    }
    proof {
        assert forall|k: int| 0 <= k < f@.skip(i as int).len() implies f@.skip(i as int)[k] == '0' by {
            assert(f@.skip(i as int)[k] == f@[i + k]);
        }
    }
    true
}

fn digits_at_least_exec(a: &[char], b: &[char]) -> (r: bool)
    requires
        a.len() == b.len(),
    ensures
        r == digits_at_least(a@, b@),
{
    let mut i: usize = 0;
    assert(a@.skip(0) =~= a@);
    assert(b@.skip(0) =~= b@);
    while i < a.len()
        invariant
            a.len() == b.len(),
            i <= a.len(),
            digits_at_least(a@.skip(i as int), b@.skip(i as int)) == digits_at_least(a@, b@),
        decreases a.len() - i,
    {
        if a[i] != b[i] {
            return (a[i] as u32) > (b[i] as u32);
        }
        proof {
            assert(a@.skip(i as int).drop_first() =~= a@.skip(i + 1));
            assert(b@.skip(i as int).drop_first() =~= b@.skip(i + 1));
        }
        i = i + 1;
    }
    true
}

/// The end of a literal's integer digits, and their value capped at
/// `whole_cap()`.
fn integer_capped(cs: &Vec<char>) -> (r: (usize, u128))
    ensures
        r.0 == digits_end(cs@, 0),
        r.0 <= cs.len(),
        r.1 == (if digits_value(cs@.take(r.0 as int)) >= whole_cap() {
            whole_cap()
        } else {
            digits_value(cs@.take(r.0 as int))
        }),
{
    let cap: u128 = 0x4_0000_0000_0000_0000;
    proof {
        lemma_whole_cap_value();
    }
    let mut acc: u128 = 0;
    let mut i: usize = 0;
    assert(cs@.take(0) =~= Seq::<char>::empty());
    while i < cs.len() && is_digit_char(cs[i])
        invariant
            cap == whole_cap(),
            cap == 0x4_0000_0000_0000_0000,
            i <= cs.len(),
            digits_end(cs@, i as int) == digits_end(cs@, 0),
            acc == (if digits_value(cs@.take(i as int)) >= whole_cap() {
                whole_cap()
            } else {
                digits_value(cs@.take(i as int))
            }),
        decreases cs.len() - i,
    {
        let ghost before = digits_value(cs@.take(i as int));
        let dd = digit_of(cs[i]) as u128;
        assert(cs@.take(i + 1).drop_last() =~= cs@.take(i as int));
        assert(cs@.take(i + 1).last() == cs@[i as int]);
        assert(digits_value(cs@.take(i + 1)) == before * 10 + dd);
        if acc != cap {
            let w = acc * 10 + dd;
            acc = if w >= cap {
                cap
            } else {
                w
            };
        }
        i = i + 1;
    }
    (i, acc)
}

/// The digits after a literal's point, as a slice of its characters.
fn fraction_of(cs: &Vec<char>, d: usize) -> (r: &[char])
    requires
        d == digits_end(cs@, 0),
        d <= cs.len(),
    ensures
        r@ == fraction_digits(cs@),
{
    if d < cs.len() {
        let r = slice_subrange(cs.as_slice(), d + 1, cs.len());
        assert(r@ =~= cs@.skip(d + 1));
        r
    } else {
        let r = slice_subrange(cs.as_slice(), 0, 0);
        assert(r@ =~= Seq::<char>::empty());
        r
    }
}

fn bit_length_exec(x: u128) -> (r: u32)
    requires
        x < whole_cap(),
    ensures
        r == bit_length(x as nat),
        r <= 66,
{
    proof {
        lemma_bit_length_below(x as nat, 66);
    }
    let mut y = x;
    let mut r: u32 = 0;
    while y > 0
        invariant
            bit_length(x as nat) == r + bit_length(y as nat),
            bit_length(x as nat) <= 66,
        decreases y,
    {
        y = y / 2;
        r = r + 1;
    }
    r
}

fn pow2_exec(e: u32) -> (r: u128)
    requires
        e <= 13,
    ensures
        r == pow2_nat(e as nat),
        r >= 1,
{
    let mut r: u128 = 1;
    let mut k: u32 = 0;
    proof {
        reveal_with_fuel(pow2_nat, 14);
    }
    assert(pow2_nat(13) == 8192);
    while k < e
        invariant
            k <= e <= 13,
            r == pow2_nat(k as nat),
            r >= 1,
            pow2_nat(13) == 8192,
        decreases e - k,
    {
        proof {
            lemma_pow2_monotone((k + 1) as nat, 13);
        }
        r = r * 2;
        k = k + 1;
    }
    r
}

/// Whether a literal reads as infinity.
pub fn literal_reads_infinite(t: &str) -> (r: bool)
    ensures
        r == reads_infinite(t@),
{
    let cs = chars_of(t);
    let (d, _) = integer_capped(&cs);
    let ghost int_digits = cs@.take(d as int);
    let mut z: usize = 0;
    assert(int_digits.skip(0) =~= int_digits);
    while z < d && cs[z] == '0'
        invariant
            d <= cs.len(),
            int_digits == cs@.take(d as int),
            z <= d,
            strip_zeros(int_digits.skip(z as int)) == strip_zeros(int_digits),
        decreases d - z,
    {
        assert(int_digits.skip(z as int).drop_first() =~= int_digits.skip(z + 1));
        z = z + 1;
    }
    let a = slice_subrange(cs.as_slice(), z, d);
    assert(a@ =~= int_digits.skip(z as int));
    let big = chars_of("179769313486231580793728971405303415079934132710037826936173778980444968292764750946649017977587207096330286416692887910946555547851940402630657488671505820681908902000708383676273854845817711531764475730270069855571366959622842914819860834936475292719074168444365510704342711559699508093042880177904174497792");
    if a.len() != big.len() {
        a.len() > big.len()
    } else {
        digits_at_least_exec(a, big.as_slice())
    }
}

/// Whether a literal reads as a float of at most 1.0.
pub fn literal_reads_at_most_one(t: &str) -> (r: bool)
    ensures
        r == reads_at_most_one(t@),
{
    proof {
        lemma_whole_cap_value();
    }
    let cs = chars_of(t);
    let (d, i) = integer_capped(&cs);
    if i == 0 {
        return true;
    }
    if i != 1 {
        return false;
    }
    let f = fraction_of(&cs, d);
    let bound = chars_of(half_ulp_text(53));
    frac_le_exec(f, bound.as_slice())
}

/// The whole number a literal reads as (see `float_whole`).
pub fn literal_whole_value(t: &str) -> (r: Option<u128>)
    ensures
        match r {
            Some(x) => float_whole(t@) == Some(x as nat),
            None => float_whole(t@) is None,
        },
{
    let cs = chars_of(t);
    let (d, i) = integer_capped(&cs);
    let f = fraction_of(&cs, d);
    let cap: u128 = 0x4_0000_0000_0000_0000;
    proof {
        lemma_whole_cap_value();
    }
    if i == cap {
        if literal_reads_infinite(t) {
            return None;
        }
        return Some(cap);
    }
    if i == 0 {
        let below = chars_of(below_one_text(54));
        if frac_le_exec(below.as_slice(), f) {
            return Some(1);
        }
        let tiny = chars_of("0000000000000000000000000000000000000000000000000000000000000000000000000000000000000000000000000000000000000000000000000000000000000000000000000000000000000000000000000000000000000000000000000000000000000000000000000000000000000000000000000000000000000000000000000000000000000000000000000000000000000000000000000000000000024703282292062327208828439643411068618252990130716238221279284125033775363510437593264991818081799618989828234772285886546332835517796989819938739800539093906315035659515570226392290858392449105184435931802849936536152500319370457678249219365623669863658480757001585769269903706311928279558551332927834338409351978015531246597263579574622766465272827220056374006485499977096599470454020828166226237857393450736339007967761930577506740176324673600968951340535537458516661134223766678604162159680461914467291840300530057530849048765391711386591646239524912623653881879636239373280423891018672348497668235089863388587925628302755995657524455507255189313690836254779186948667994968324049705821028513185451396213837722826145437693412532098591327667236328125");
        if frac_le_exec(f, tiny.as_slice()) {
            return Some(0);
        }
        return None;
    }
    let bl = bit_length_exec(i);
    if bl <= 52 {
        let n: u32 = 54 - bl;
        let half = chars_of(half_ulp_text(n));
        if frac_le_exec(f, half.as_slice()) {
            return Some(i);
        }
        let below = chars_of(below_one_text(n));
        if frac_le_exec(below.as_slice(), f) {
            return Some(i + 1);
        }
        return None;
    }
    if bl == 53 {
        let five = chars_of("5");
        if !frac_le_exec(f, five.as_slice()) || (frac_le_exec(five.as_slice(), f) && i % 2 == 1) {
            return Some(i + 1);
        }
        return Some(i);
    }
    let unit = pow2_exec(bl - 53);
    let r = i % unit;
    assert(r <= i) by (nonlinear_arith)
        requires
            r == i % unit,
            unit > 0,
    ;
    let half = unit / 2;
    let nothing: Vec<char> = Vec::new();
    let zero = frac_le_exec(f, nothing.as_slice());
    assert(nothing@ =~= Seq::<char>::empty());
    assert(zero == all_zeros(f@));
    if r > half || (r == half && (!zero || (i / unit) % 2 == 1)) {
        Some(i - r + unit)
    } else {
        Some(i - r)
    }
}

/// How the engine prints the float a literal reads as (see `reading_text`).
pub fn literal_reading_text(t: &str) -> (r: String)
    ensures
        r@ == reading_text(t@),
{
    if literal_reads_infinite(t) {
        String::from_str("inf")
    } else {
        number_display_text(t)
    }
}

fn has_point(s: &[char]) -> (r: bool)
    ensures
        r == s@.contains('.'),
{
    let mut i: usize = 0;
    while i < s.len()
        invariant
            i <= s.len(),
            forall|k: int| 0 <= k < i ==> s@[k] != '.',
        decreases s.len() - i,
    {
        if s[i] == '.' {
            assert(s@[i as int] == '.');
            return true;
        }
        i = i + 1;
    }
    false
}

/// How the engine names the float a literal reads as in a diagnostic (see
/// `reading_debug_text`).
pub fn literal_reading_debug_text(t: &str) -> (r: String)
    ensures
        r@ == reading_debug_text(t@),
{
    if literal_reads_infinite(t) {
        return String::from_str("inf");
    }
    match literal_whole_value(t) {
        Some(v) => {
            if v == 0 {
                return String::from_str("0.0");
            }
        },
        None => {},
    }
    let cs = chars_of(t);
    let (d, _) = integer_capped(&cs);
    let f = fraction_of(&cs, d);
    let mut all: Vec<char> = Vec::new();
    let mut i: usize = 0;
    while i < d
        invariant
            d <= cs.len(),
            i <= d,
            all@ == cs@.take(i as int),
        decreases d - i,
    {
        all.push(cs[i]);
        assert(cs@.take(i + 1) =~= cs@.take(i as int).push(cs@[i as int]));
        i = i + 1;
    }
    let mut j: usize = 0;
    while j < f.len()
        invariant
            d <= cs.len(),
            j <= f.len(),
            all@ == cs@.take(d as int) + f@.take(j as int),
        decreases f.len() - j,
    {
        all.push(f[j]);
        assert(f@.take(j + 1) =~= f@.take(j as int).push(f@[j as int]));
        j = j + 1;
    }
    assert(f@.take(f.len() as int) =~= f@);
    let ghost s = all@;
    assert(s == all_digits(t@));
    let mut z: usize = 0;
    assert(s.skip(0) =~= s);
    while z < all.len() && all[z] == '0'
        invariant
            s == all@,
            z <= all.len(),
            z + zeros_before(s.skip(z as int)) == zeros_before(s),
        decreases all.len() - z,
    {
        assert(s.skip(z as int).drop_first() =~= s.skip(z + 1));
        z = z + 1;
    }
    let mut end: usize = all.len();
    assert(s.subrange(z as int, end as int) =~= s.skip(z as int));
    while end > z && all[end - 1] == '0'
        invariant
            s == all@,
            z <= end <= all.len(),
            drop_trailing_zeros(s.subrange(z as int, end as int)) == drop_trailing_zeros(
                s.skip(z as int),
            ),
        decreases end,
    {
        assert(s.subrange(z as int, end as int).drop_last() =~= s.subrange(z as int, end - 1));
        end = end - 1;
    }
    let ghost sig = significant_digits(t@);
    assert(sig == s.subrange(z as int, end as int));
    let e: i128 = d as i128 - 1 - z as i128;
    assert(e == leading_exponent(t@));
    if end == z {
        return String::from_str("0.0");
    }
    if e <= -5 || e >= 16 {
        let mut r = string_from_chars(slice_subrange(all.as_slice(), z, z + 1));
        if end > z + 1 {
            r.append(".");
            let rest = string_from_chars(slice_subrange(all.as_slice(), z + 1, end));
            r.append(rest.as_str());
        }
        r.append("e");
        let exp = if e < 0 {
            concat_decimal("-", (-e) as u64)
        } else {
            concat_decimal("", e as u64)
        };
        r.append(exp.as_str());
        proof {
            reveal_strlit("");
            assert(sig.take(1) =~= s.subrange(z as int, z + 1));
            if sig.len() > 1 {
                assert(sig.skip(1) =~= s.subrange(z + 1, end as int));
            }
        }
        assert(r@ =~= reading_debug_text(t@));
        r
    } else {
        let mut disp = number_display_text(t);
        let dc = chars_of(disp.as_str());
        if !has_point(dc.as_slice()) {
            disp.append(".0");
        }
        disp
    }
}

} // verus!
