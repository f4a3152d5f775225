//! What holds of texts and of what the overlay draws as a whole.

use vstd::prelude::*;

use crate::fixed;
use crate::overlay;
use crate::overlay::{Colour, Style};
use crate::text;

verus! {

/// Only letters from A to Z have a lower case, 32 places further on; it is their own, and
/// nothing else changes.
pub proof fn law_lower_case_changes_letters_only(s: Seq<char>)
    ensures
        text::ascii_lower(s).len() == s.len(),
        forall|i: int|
            0 <= i < s.len() ==> {
                let (c, l) = (s[i], #[trigger] text::ascii_lower(s)[i]);
                &&& 65 <= c as u32 <= 90 ==> l as u32 == c as u32 + 32
                &&& !(65 <= c as u32 <= 90) ==> l == c
            },
        text::ascii_lower(text::ascii_lower(s)) == text::ascii_lower(s),
{
    assert forall|c: char| 65 <= c as u32 <= 90 implies (#[trigger] text::lower(c)) as u32 == c as u32
        + 32 by {}
    assert(text::ascii_lower(text::ascii_lower(s)) =~= text::ascii_lower(s));
}

/// A trimmed text is the text without white space at its ends, and what is cut off is
/// nothing else.
pub proof fn law_trimming_cuts_white_space_only(s: Seq<char>)
    ensures
        ({
            let t = text::trimmed(s);
            &&& t.len() > 0 ==> !text::is_white(t[0]) && !text::is_white(t.last())
            &&& is_inside(s, t)
        }),
    decreases s.len(),
{
    let t = text::trimmed(s);
    if s.len() == 0 {
        assert(s.subrange(0, 0) =~= t);
        assert(cuts(s, t, 0));
    } else if text::is_white(s[0]) {
        law_trimming_cuts_white_space_only(s.drop_first());
        let i = choose|i: int| cuts(s.drop_first(), t, i);
        lemma_cuts_behind(s, t, i);
    } else if text::is_white(s.last()) {
        law_trimming_cuts_white_space_only(s.drop_last());
        let i = choose|i: int| cuts(s.drop_last(), t, i);
        lemma_cuts_before(s, t, i);
    } else {
        assert(s.subrange(0, s.len() as int) =~= s);
        assert(cuts(s, t, 0));
    }
}

proof fn lemma_cuts_behind(s: Seq<char>, t: Seq<char>, i: int)
    requires
        s.len() > 0,
        text::is_white(s[0]),
        cuts(s.drop_first(), t, i),
    ensures
        cuts(s, t, i + 1),
{
    let rest = s.drop_first();
    assert(s.subrange(i + 1, i + 1 + t.len()) =~= rest.subrange(i, i + t.len()));
    assert forall|j: int| 0 <= j < i + 1 implies text::is_white(#[trigger] s[j]) by {
        if j > 0 {
            assert(s[j] == rest[j - 1]);
        }
    }
    assert forall|j: int| i + 1 + t.len() <= j < s.len() implies text::is_white(#[trigger] s[j]) by {
        assert(s[j] == rest[j - 1]);
    }
}

proof fn lemma_cuts_before(s: Seq<char>, t: Seq<char>, i: int)
    requires
        s.len() > 0,
        text::is_white(s.last()),
        cuts(s.drop_last(), t, i),
    ensures
        cuts(s, t, i),
{
    let rest = s.drop_last();
    assert(s.subrange(i, i + t.len()) =~= rest.subrange(i, i + t.len()));
    assert forall|j: int| 0 <= j < i implies text::is_white(#[trigger] s[j]) by {
        assert(s[j] == rest[j]);
    }
    assert forall|j: int| i + t.len() <= j < s.len() implies text::is_white(#[trigger] s[j]) by {
        if j < s.len() - 1 {
            assert(s[j] == rest[j]);
        }
    }
}

/// A text stands in another from a place on, with nothing but white space around it.
pub open spec fn cuts(s: Seq<char>, t: Seq<char>, i: int) -> bool {
    &&& 0 <= i
    &&& i + t.len() <= s.len()
    &&& s.subrange(i, i + t.len()) == t
    &&& forall|j: int| 0 <= j < i ==> text::is_white(#[trigger] s[j])
    &&& forall|j: int| i + t.len() <= j < s.len() ==> text::is_white(#[trigger] s[j])
}

/// A text stands in another with nothing but white space around it.
pub open spec fn is_inside(s: Seq<char>, t: Seq<char>) -> bool {
    exists|i: int| cuts(s, t, i)
}

/// The name in a path is what follows its last separator: it holds none, and what stands
/// before it is nothing or ends in one.
pub proof fn law_file_name_follows_the_last_separator(path: Seq<char>)
    ensures
        ({
            let name = text::file_part(path);
            let before = path.take(path.len() - name.len());
            &&& name.len() <= path.len()
            &&& path == before + name
            &&& forall|i: int| 0 <= i < name.len() ==> #[trigger] name[i] != '/' && name[i] != '\\'
            &&& before.len() > 0 ==> before.last() == '/' || before.last() == '\\'
        }),
    decreases path.len(),
{
    let name = text::file_part(path);
    if path.len() == 0 || path.last() == '\\' || path.last() == '/' {
        assert(path =~= path.take(path.len() as int) + name);
    } else {
        let rest = path.drop_last();
        law_file_name_follows_the_last_separator(rest);
        let inner = text::file_part(rest);
        assert(rest.take(rest.len() - inner.len()) =~= path.take(path.len() - name.len()));
        assert(path =~= path.take(path.len() - name.len()) + name) by {
            assert(path =~= rest.push(path.last()));
        }
    }
}

/// A text is part of another where the other is it with something before and something
/// behind, however little.
pub proof fn law_parts_stand_in_the_whole(before: Seq<char>, part: Seq<char>, behind: Seq<char>)
    ensures
        text::has_part(before + part + behind, part),
        part.len() > before.len() ==> !text::has_part(before, part),
{
    let s = before + part + behind;
    assert(s.subrange(before.len() as int, (before.len() + part.len()) as int) =~= part);
    assert(text::stands_at(s, part, before.len() as int));
}

/// What is part of a text leaves something before it and something behind it.
pub proof fn law_part_leaves_the_rest(s: Seq<char>, part: Seq<char>)
    requires
        text::has_part(s, part),
    ensures
        exists|before: Seq<char>, behind: Seq<char>| #[trigger] (before + part + behind) == s,
{
    let at = choose|at: int| text::stands_at(s, part, at);
    let before = s.take(at);
    let behind = s.skip(at + part.len());
    assert(before + part + behind =~= s);
}

/// Texts are ordered by the first character in which they differ, and one that the other
/// begins with comes first.
pub proof fn law_first_difference_decides(a: Seq<char>, b: Seq<char>, k: int)
    requires
        0 <= k <= a.len(),
        k <= b.len(),
        a.take(k) == b.take(k),
    ensures
        k < a.len() && k < b.len() && a[k] != b[k] ==> (text::precedes(a, b) <==> a[k] < b[k]),
        k == a.len() && k < b.len() ==> text::precedes(a, b),
        k == b.len() ==> !text::precedes(a, b),
    decreases k,
{
    if k > 0 {
        assert(a[0] == a.take(k)[0] && b[0] == b.take(k)[0]);
        let (x, y) = (a.drop_first(), b.drop_first());
        assert(x.take(k - 1) =~= a.take(k).drop_first());
        assert(y.take(k - 1) =~= b.take(k).drop_first());
        law_first_difference_decides(x, y, k - 1);
    }
}

/// A power of ten.
pub open spec fn ten_to(n: nat) -> int {
    vstd::arithmetic::power::pow(10, n)
}

/// A row of digits counts by places: what is written before others counts ten times as much
/// for each of them. A digit alone counts for itself.
pub proof fn law_digits_count_by_their_place(a: Seq<char>, b: Seq<char>)
    ensures
        text::value_of(a + b) == text::value_of(a) * ten_to(b.len()) + text::value_of(b),
        text::value_of(seq!['0']) == 0,
        text::value_of(seq!['1']) == 1,
        text::value_of(seq!['9']) == 9,
        forall|c: char| #[trigger] text::value_of(seq![c]) == c as int - '0' as int,
        text::value_of(Seq::empty()) == 0,
    decreases b.len(),
{
    assert forall|c: char| #[trigger] text::value_of(seq![c]) == c as int - '0' as int by {
        assert(seq![c].drop_last() =~= Seq::<char>::empty());
        assert(text::value_of(Seq::<char>::empty()) == 0);
    }
    vstd::arithmetic::power::lemma_pow0(10);
    if b.len() == 0 {
        assert(a + b =~= a);
    } else {
        let rest = b.drop_last();
        law_digits_count_by_their_place(a, rest);
        assert((a + b).drop_last() =~= a + rest);
        assert((a + b).last() == b.last());
        vstd::arithmetic::power::lemma_pow1(10);
        reveal(vstd::arithmetic::power::pow);
        let (v, t) = (text::value_of(a), ten_to(rest.len()));
        assert(ten_to(b.len()) == 10 * t);
        assert(10 * (v * t) == v * (10 * t)) by (nonlinear_arith);
    }
}

/// A number is digits and nothing else, but for one plus sign in front, and not above the
/// limit.
pub proof fn law_numbers_are_digits(s: Seq<char>, max: int)
    ensures
        text::number_of(s, max) is Some ==> {
            &&& s.len() > 0
            &&& text::number_of(s, max)->0 <= max
            &&& forall|i: int| 1 <= i < s.len() ==> '0' <= #[trigger] s[i] <= '9'
            &&& '0' <= s[0] <= '9' || (s[0] == '+' && s.len() > 1)
        },
        s.len() > 0 && (forall|i: int| 0 <= i < s.len() ==> '0' <= #[trigger] s[i] <= '9')
            && text::value_of(s) <= max ==> text::number_of(s, max) == Some(text::value_of(s)),
        s.len() > 0 && s[0] != '+' && text::number_of(s, max) is Some ==> text::number_of(s, max)
            == Some(text::value_of(s)),
        s.len() > 0 && s[0] != '+' ==> text::number_of(seq!['+'] + s, max) == text::number_of(
            s,
            max,
        ),
{
    let d = text::unsigned_part(s);
    if text::number_of(s, max) is Some {
        assert forall|i: int| 1 <= i < s.len() implies '0' <= #[trigger] s[i] <= '9' by {
            if s[0] == '+' {
                assert(d[i - 1] == s[i]);
            }
            assert(text::is_digit(s[i]));
        }
        if s[0] != '+' {
            assert(text::is_digit(d[0]));
        }
    }
    if s.len() > 0 && (forall|i: int| 0 <= i < s.len() ==> '0' <= #[trigger] s[i] <= '9') {
        assert('0' <= s[0] <= '9');
        assert(s[0] != '+');
        assert forall|i: int| 0 <= i < s.len() implies text::is_digit(#[trigger] s[i]) by {}
    }
    if s.len() > 0 && s[0] != '+' {
        assert((seq!['+'] + s).skip(1) =~= s);
    }
}

/// Rounding takes the nearest number, and the even one of two that are as near.
pub proof fn law_halves_go_to_the_even(a: int, b: int)
    requires
        b > 0,
    ensures
        ({
            let q = overlay::even_quot(a, b);
            &&& -b <= 2 * (q * b - a) <= b
            &&& 2 * (q * b - a) == b || 2 * (q * b - a) == -b ==> q % 2 == 0
        }),
{
    vstd::arithmetic::div_mod::lemma_fundamental_div_mod(a, b);
    vstd::arithmetic::div_mod::lemma_mod_bound(a, b);
    let (d, r) = (a / b, a % b);
    assert(d * b == a - r && (d + 1) * b == a - r + b) by (nonlinear_arith)
        requires
            a == b * d + r,
    ;
}

/// A rate is shown with one decimal and a frame time with two: the digits are those of the
/// nearest tenth and hundredth, with the point before the last one or two.
pub proof fn law_figures_are_shown_rounded(v: int)
    requires
        v >= 0,
    ensures
        ({
            let q = overlay::even_quot(v, 100_000);
            let s = overlay::one_decimal(v);
            let n = s.len() as int;
            &&& -100_000 <= 2 * (100_000 * q - v) <= 100_000
            &&& n >= 3
            &&& s[n - 2] == '.'
            &&& s.take(n - 2) == text::decimal_of(q / 10)
            &&& s[n - 1] == text::digit(q % 10)
        }),
        ({
            let q = overlay::even_quot(v, 10_000);
            let s = overlay::two_decimals(v);
            let n = s.len() as int;
            &&& -10_000 <= 2 * (10_000 * q - v) <= 10_000
            &&& n >= 4
            &&& s[n - 3] == '.'
            &&& s.take(n - 3) == text::decimal_of(q / 100)
            &&& s[n - 2] == text::digit((q / 10) % 10)
            &&& s[n - 1] == text::digit(q % 10)
        }),
{
    reveal_strlit(".");
    law_halves_go_to_the_even(v, 100_000);
    law_halves_go_to_the_even(v, 10_000);
    let q = overlay::even_quot(v, 100_000);
    let s = overlay::one_decimal(v);
    assert(text::decimal_of(q / 10).len() >= 1);
    assert(s.take(s.len() - 2) =~= text::decimal_of(q / 10));
    let p = overlay::even_quot(v, 10_000);
    let t = overlay::two_decimals(v);
    assert(text::decimal_of(p / 100).len() >= 1);
    assert(t.take(t.len() - 3) =~= text::decimal_of(p / 100));
}

/// The bar of a frame time: three fifths of a pixel for every millisecond, from 2 ms on and
/// up to 24 pixels; green up to 17 ms, yellow up to 25 and red beyond. Longer frames never
/// have shorter bars, and bars stand four pixels apart.
pub proof fn law_bars_grow_with_the_frame_time(a: i64, b: i64, i: int)
    requires
        a <= b,
        0 <= i < 60,
    ensures
        overlay::bar_height(a as int) <= overlay::bar_height(b as int),
        2_000_000 <= a <= 40_000_000 ==> -5 <= 2 * (5 * overlay::bar_height(a as int) - 3 * a) <= 5,
        a <= 2_000_000 ==> overlay::bar_height(a as int) == 1_200_000,
        a >= 40_000_000 ==> overlay::bar_height(a as int) == 24_000_000,
        overlay::bar_colour(a as int) == Colour::Good <==> a <= 17_000_000,
        overlay::bar_colour(a as int) == Colour::Spike <==> a > 25_000_000,
        overlay::bar_colour(a as int) == Colour::Slow <==> 17_000_000 < a <= 25_000_000,
        overlay::bar(i, a).x == 20_000_000 + 4_000_000 * i,
        overlay::bar(i, a).w == 3_000_000,
        overlay::bar(i, a).h == overlay::bar_height(a as int),
        overlay::bar(i, a).y + overlay::bar(i, a).h == 80_000_000,
        overlay::bar(i, a).colour == overlay::bar_colour(a as int),
{
    let x = fixed::within(a as int, 2_000_000, 50_000_000);
    let y = fixed::within(b as int, 2_000_000, 50_000_000);
    fixed::lemma_nearest(x * 3, 5);
    fixed::lemma_nearest(y * 3, 5);
}

/// A blank is four dots wide and any other character six, and a text is as wide as its
/// parts together.
pub proof fn law_widths_add_up(a: Seq<char>, b: Seq<char>)
    ensures
        overlay::advance(a + b) == overlay::advance(a) + overlay::advance(b),
        overlay::advance(seq![' ']) == 4,
        forall|c: char| c != ' ' ==> #[trigger] overlay::advance(seq![c]) == 6,
        overlay::advance(Seq::empty()) == 0,
    decreases b.len(),
{
    assert forall|c: char| #[trigger] overlay::advance(seq![c]) == if c == ' ' {
        4int
    } else {
        6int
    } by {
        assert(seq![c].drop_last() =~= Seq::<char>::empty());
        assert(overlay::advance(Seq::<char>::empty()) == 0);
    }
    if b.len() == 0 {
        assert(a + b =~= a);
    } else {
        law_widths_add_up(a, b.drop_last());
        assert((a + b).drop_last() =~= a + b.drop_last());
    }
}

/// A character is drawn by the dots that are set in it: each of them is there, and no
/// others. They are squares that lie side by side, columns to the right and rows downwards.
pub proof fn law_set_dots_are_drawn(style: Style, bits: Seq<u8>, pen: int, k: nat)
    requires
        bits.len() == 5,
        k <= 35,
        0 <= pen <= 1_000_000,
        0 <= style.scale <= 1_000_000_000,
        -1_000_000_000_000 <= style.x <= 1_000_000_000_000,
        -1_000_000_000_000 <= style.y <= 1_000_000_000_000,
    ensures
        ({
            let drawn = style.dots(bits, pen, k);
            &&& forall|i: int|
                0 <= i < k && #[trigger] is_set(bits, i) ==> drawn.contains(style.dot(pen, i))
            &&& forall|j: int|
                0 <= j < drawn.len() ==> exists|i: int|
                    0 <= i < k && #[trigger] is_set(bits, i) && #[trigger] drawn[j] == style.dot(
                        pen,
                        i,
                    )
            &&& forall|i: int|
                0 <= i < 35 ==> {
                    let q = #[trigger] style.dot(pen, i);
                    &&& q.w == style.scale && q.h == style.scale
                    &&& q.x == style.x + (pen + i / 7) * style.scale
                    &&& q.y == style.y + (i % 7) * style.scale
                    &&& q.colour == style.colour
                }
        }),
    decreases k,
{
    assert forall|i: int| 0 <= i < 35 implies {
        let q = #[trigger] style.dot(pen, i);
        &&& q.x == style.x + (pen + i / 7) * style.scale
        &&& q.y == style.y + (i % 7) * style.scale
    } by {
        assert(0 <= (pen + i / 7) * style.scale <= 1_000_005 * 1_000_000_000 && 0 <= (i % 7)
            * style.scale <= 7 * 1_000_000_000) by (nonlinear_arith)
            requires
                0 <= pen <= 1_000_000,
                0 <= i < 35,
                0 <= style.scale <= 1_000_000_000,
        ;
    }
    if k > 0 {
        let before = style.dots(bits, pen, (k - 1) as nat);
        let drawn = style.dots(bits, pen, k);
        law_set_dots_are_drawn(style, bits, pen, (k - 1) as nat);
        assert forall|i: int| 0 <= i < k && #[trigger] is_set(bits, i) implies drawn.contains(
            style.dot(pen, i),
        ) by {
            if i < k - 1 {
                let j = choose|j: int| 0 <= j < before.len() && before[j] == style.dot(pen, i);
                assert(drawn[j] == style.dot(pen, i));
            } else {
                assert(drawn[drawn.len() - 1] == style.dot(pen, i));
            }
        }
        assert forall|j: int| 0 <= j < drawn.len() implies exists|i: int|
            0 <= i < k && #[trigger] is_set(bits, i) && #[trigger] drawn[j] == style.dot(pen, i) by {
            if j < before.len() {
                assert(drawn[j] == before[j]);
                let i = choose|i: int|
                    0 <= i < k - 1 && #[trigger] is_set(bits, i) && before[j] == style.dot(pen, i);
                assert(is_set(bits, i) && drawn[j] == style.dot(pen, i));
            } else {
                assert(is_set(bits, k - 1) && drawn[j] == style.dot(pen, k - 1));
            }
        }
    }
}

/// A dot is set: a column is a byte, and its lowest bit is on top.
pub open spec fn is_set(bits: Seq<u8>, i: int) -> bool {
    bits[i / 7] & (1u8 << ((i % 7) as u8)) != 0
}

/// Figures are told apart on the overlay: no two digits are drawn alike, and each is five
/// columns wide.
pub proof fn law_digits_are_drawn_differently(a: char, b: char)
    requires
        '0' <= a <= '9',
        '0' <= b <= '9',
    ensures
        overlay::glyph(a).len() == 5,
        a != b ==> overlay::glyph(a) != overlay::glyph(b),
        a != b ==> overlay::glyph(a)[0] != overlay::glyph(b)[0],
{
}

/// The overlay is drawn back to front: the card, its border, the first line, the second one
/// below it, the ground of the sparkline and a bar for every frame time on it.
pub proof fn law_overlay_is_drawn_back_to_front(
    line1: Seq<char>,
    line2: Seq<char>,
    spark: Seq<i64>,
)
    ensures
        ({
            let all = overlay::hud(line1, line2, spark);
            let n1 = overlay::headline_style().line(line1).len() as int;
            let n2 = overlay::detail_style().line(line2).len() as int;
            &&& all.len() == 3 + n1 + n2 + spark.len()
            &&& all[0].colour == Colour::Card && all[1].colour == Colour::Border
            &&& all[1].x == all[0].x && all[1].y == all[0].y && all[1].w == all[0].w
            &&& all.subrange(2, 2 + n1) == overlay::headline_style().line(line1)
            &&& all.subrange(2 + n1, 2 + n1 + n2) == overlay::detail_style().line(line2)
            &&& all[2 + n1 + n2].colour == Colour::SparkBack
            &&& forall|i: int|
                0 <= i < spark.len() ==> all[3 + n1 + n2 + i] == #[trigger] overlay::bar(i, spark[i])
        }),
        overlay::headline_style().y < overlay::detail_style().y,
        overlay::headline_style().x == overlay::detail_style().x,
        overlay::headline_style().scale > overlay::detail_style().scale,
        overlay::headline_style().colour == Colour::Headline,
        overlay::detail_style().colour == Colour::Detail,
{
    let all = overlay::hud(line1, line2, spark);
    let n1 = overlay::headline_style().line(line1).len() as int;
    let n2 = overlay::detail_style().line(line2).len() as int;
    assert(all.subrange(2, 2 + n1) =~= overlay::headline_style().line(line1));
    assert(all.subrange(2 + n1, 2 + n1 + n2) =~= overlay::detail_style().line(line2));
}

/// A line is the dots of its characters one after the other, each where the text before it
/// ends; blanks have none.
pub proof fn law_lines_are_drawn_character_by_character(style: Style, s: Seq<char>, i: int)
    requires
        0 <= i < s.len(),
    ensures
        ({
            let from = style.line(s.take(i)).len() as int;
            let to = style.line(s.take(i + 1)).len() as int;
            &&& 0 <= from <= to <= style.line(s).len()
            &&& s[i] == ' ' ==> from == to
            &&& s[i] != ' ' ==> style.line(s).subrange(from, to) == style.dots(
                overlay::glyph(s[i]),
                overlay::advance(s.take(i)),
                35,
            )
        }),
    decreases s.len(),
{
    let rest = s.drop_last();
    if i == s.len() - 1 {
        assert(s.take(i) =~= rest);
        assert(s.take(i + 1) =~= s);
        let from = style.line(rest).len() as int;
        if s[i] != ' ' {
            assert(style.line(s).subrange(from, style.line(s).len() as int) =~= style.dots(
                overlay::glyph(s[i]),
                overlay::advance(rest),
                35,
            ));
        }
    } else {
        law_lines_are_drawn_character_by_character(style, rest, i);
        assert(rest.take(i) =~= s.take(i));
        assert(rest.take(i + 1) =~= s.take(i + 1));
        let from = style.line(s.take(i)).len() as int;
        let to = style.line(s.take(i + 1)).len() as int;
        assert(style.line(s).subrange(from, to) =~= style.line(rest).subrange(from, to));
    }
}

/// The first line shows the rate and then the frame time, the second the modes.
pub proof fn law_lines_name_what_they_show(fps: int, ms: int, mode: Seq<char>, reflex: Seq<char>)
    ensures
        text::has_part(overlay::headline(fps, ms), overlay::one_decimal(fps) + " FPS ("@),
        text::has_part(overlay::headline(fps, ms), overlay::two_decimals(ms) + "ms)"@),
        text::has_part(overlay::detail(mode, reflex), "Mode: "@ + mode),
        text::has_part(overlay::detail(mode, reflex), "Reflex: "@ + reflex),
{
    lemma_parts_of_five(
        "iFrame: "@,
        overlay::one_decimal(fps),
        " FPS ("@,
        overlay::two_decimals(ms),
        "ms)"@,
    );
    reveal_strlit(" | Reflex: ");
    reveal_strlit("Reflex: ");
    assert(" | Reflex: "@.skip(3) =~= "Reflex: "@);
    lemma_parts_of_four("Mode: "@, mode, " | Reflex: "@, reflex, "Reflex: "@, 3);
}

proof fn lemma_parts_of_five(
    a: Seq<char>,
    x: Seq<char>,
    b: Seq<char>,
    y: Seq<char>,
    c: Seq<char>,
)
    ensures
        text::has_part(a + x + b + y + c, x + b),
        text::has_part(a + x + b + y + c, y + c),
{
    let none = Seq::<char>::empty();
    law_parts_stand_in_the_whole(a, x + b, y + c);
    law_parts_stand_in_the_whole(a + x + b, y + c, none);
    lemma_regrouped(a, x, b);
    lemma_regrouped(a + x + b, y, c);
    lemma_nothing_added(a + x + b + (y + c));
}

proof fn lemma_regrouped(a: Seq<char>, b: Seq<char>, c: Seq<char>)
    ensures
        a + (b + c) == a + b + c,
{
    assert(a + (b + c) =~= a + b + c);
}

proof fn lemma_split(b: Seq<char>, k: int)
    requires
        0 <= k <= b.len(),
    ensures
        b.take(k) + b.skip(k) == b,
{
    assert(b.take(k) + b.skip(k) =~= b);
}

proof fn lemma_nothing_added(a: Seq<char>)
    ensures
        a + Seq::<char>::empty() == a,
        Seq::<char>::empty() + a == a,
{
    assert(a + Seq::<char>::empty() =~= a);
    assert(Seq::<char>::empty() + a =~= a);
}

proof fn lemma_parts_of_four(
    a: Seq<char>,
    x: Seq<char>,
    b: Seq<char>,
    y: Seq<char>,
    tail: Seq<char>,
    k: int,
)
    requires
        0 <= k <= b.len(),
        b.skip(k) == tail,
    ensures
        text::has_part(a + x + b + y, a + x),
        text::has_part(a + x + b + y, tail + y),
{
    let none = Seq::<char>::empty();
    law_parts_stand_in_the_whole(none, a + x, b + y);
    law_parts_stand_in_the_whole(a + x + b.take(k), tail + y, none);
    lemma_nothing_added(a + x);
    lemma_regrouped(a + x, b, y);
    lemma_nothing_added(a + x + b.take(k) + (tail + y));
    lemma_regrouped(a + x + b.take(k), tail, y);
    lemma_regrouped(a + x, b.take(k), tail);
    lemma_split(b, k);
}

} // verus!
