//! The progress indicator: a rounded percentage and a bar of fixed width drawn
//! with block glyphs in eighths, computed from `(current, total)` in exact
//! integer arithmetic.

use vstd::prelude::*;

verus! {

/// Width of the bar, in glyphs.
pub const BAR_CELLS: usize = 50;

/// Steps of a partly filled glyph: a glyph is filled in eighths.
pub const CELL_STEPS: usize = 8;

/// The glyph for a cell filled `i` eighths (`0 <= i <= 8`); the empty cell is an
/// ideographic space, so that it is as wide as the block glyphs.
pub open spec fn glyph(i: nat) -> char {
    if i == 0 {
        '\u{3000}'
    } else if i == 1 {
        '\u{258F}'
    } else if i == 2 {
        '\u{258E}'
    } else if i == 3 {
        '\u{258D}'
    } else if i == 4 {
        '\u{258C}'
    } else if i == 5 {
        '\u{258B}'
    } else if i == 6 {
        '\u{258A}'
    } else if i == 7 {
        '\u{2589}'
    } else {
        '\u{2588}'
    }
}

/// `floor(100 * current / total)`: it shows 100 only once every step is done.
pub open spec fn percent_spec(current: nat, total: nat) -> nat
    recommends
        total > 0,
{
    (100 * current) / total
}

/// Whole glyphs filled: `floor(50 * current / total)`.
pub open spec fn filled_spec(current: nat, total: nat) -> nat
    recommends
        total > 0,
{
    ((BAR_CELLS as nat) * current) / total
}

/// Eighths of the glyph after the whole ones: the fractional part of
/// `50 * current / total`, times eight, rounded down.
pub open spec fn partial_spec(current: nat, total: nat) -> nat
    recommends
        total > 0,
{
    ((CELL_STEPS as nat) * (((BAR_CELLS as nat) * current) % total)) / total
}

/// The bar of a finished run: every cell full.
pub open spec fn full_bar() -> Seq<char> {
    Seq::new(BAR_CELLS as nat, |_i| glyph(8))
}

/// The bar: the whole glyphs, then (unless the bar is full) one glyph for the
/// fraction, then empty cells up to the width of the bar.
pub open spec fn bar_spec(current: nat, total: nat) -> Seq<char>
    recommends
        total > 0,
        current <= total,
{
    let f = filled_spec(current, total);
    if f < (BAR_CELLS as nat) {
        Seq::new(f, |_i| glyph(8)) + seq![glyph(partial_spec(current, total))] + Seq::new(
            ((BAR_CELLS as nat) - f - 1) as nat,
            |_i| glyph(0),
        )
    } else {
        Seq::new(f, |_i| glyph(8))
    }
}

/// `floor(k * current / total)` lies in `[0, k]`, and is `k` only when `current == total`.
proof fn lemma_floor_share(c: int, t: int, k: int)
    requires
        0 <= c <= t,
        t > 0,
        k > 0,
    ensures
        0 <= (k * c) / t <= k,
        (k * c) / t == k <==> c == t,
{
    assert(k * c <= k * t) by (nonlinear_arith)
        requires
            c <= t,
            k > 0,
    ;
    assert(k * t == t * k) by (nonlinear_arith);
    vstd::arithmetic::div_mod::lemma_div_is_ordered(k * c, k * t, t);
    vstd::arithmetic::div_mod::lemma_div_multiples_vanish(k, t);
    vstd::arithmetic::mul::lemma_mul_nonnegative(k, c);
    vstd::arithmetic::div_mod::lemma_div_pos_is_pos(k * c, t);
    if c < t {
        assert(k * c <= k * t - k) by (nonlinear_arith)
            requires
                c < t,
                k > 0,
        ;
        assert((k * c) / t < k) by (nonlinear_arith)
            requires
                k * c <= k * t - k,
                t > 0,
                k > 0,
                k * c >= 0,
        {
            vstd::arithmetic::div_mod::lemma_fundamental_div_mod(k * c, t);
            vstd::arithmetic::div_mod::lemma_mod_bound(k * c, t);
        }
    }
}

/// What the indicator shows for `current` of `total` steps.
pub struct Progress {
    pub percent: u64,
    pub bar: String,
}

fn glyph_str(i: usize) -> (r: &'static str)
    requires
        i <= 8,
    ensures
        r@ == seq![glyph(i as nat)],
{
    if i == 0 {
        proof {
            reveal_strlit("\u{3000}");
        }
        "\u{3000}"
    } else if i == 1 {
        proof {
            reveal_strlit("\u{258F}");
        }
        "\u{258F}"
    } else if i == 2 {
        proof {
            reveal_strlit("\u{258E}");
        }
        "\u{258E}"
    } else if i == 3 {
        proof {
            reveal_strlit("\u{258D}");
        }
        "\u{258D}"
    } else if i == 4 {
        proof {
            reveal_strlit("\u{258C}");
        }
        "\u{258C}"
    } else if i == 5 {
        proof {
            reveal_strlit("\u{258B}");
        }
        "\u{258B}"
    } else if i == 6 {
        proof {
            reveal_strlit("\u{258A}");
        }
        "\u{258A}"
    } else if i == 7 {
        proof {
            reveal_strlit("\u{2589}");
        }
        "\u{2589}"
    } else {
        proof {
            reveal_strlit("\u{2588}");
        }
        "\u{2588}"
    }
}

/// Appends `n` copies of the glyph for `i` eighths.
fn push_glyphs(s: &mut String, i: usize, n: usize)
    requires
        i <= 8,
    ensures
        final(s)@ == old(s)@ + Seq::new(n as nat, |_j| glyph(i as nat)),
{
    let g = glyph_str(i);
    let mut k: usize = 0;
    while k < n
        invariant
            k <= n,
            i <= 8,
            g@ == seq![glyph(i as nat)],
            s@ == old(s)@ + Seq::new(k as nat, |_j| glyph(i as nat)),
        decreases n - k,
    {
        s.append(g);
        k = k + 1;
        assert(s@ =~= old(s)@ + Seq::new(k as nat, |_j| glyph(i as nat)));
    }
}

/// The indicator for `current` of `total` steps; `None` where there is no step at
/// all (`total == 0`), since no share of nothing can be shown.
pub fn progress(current: usize, total: usize) -> (r: Option<Progress>)
    requires
        current <= total,
    ensures
        r is None <==> total == 0,
        r is Some ==> r->0.percent == percent_spec(current as nat, total as nat),
        r is Some ==> r->0.bar@ == bar_spec(current as nat, total as nat),
        r is Some ==> (r->0.percent == 100 <==> current == total),
        r is Some ==> (r->0.bar@ == full_bar() <==> current == total),
{
    if total == 0 {
        return None;
    }
    let c = current as u128;
    let t = total as u128;
    proof {
        assert(c * 100 <= t * 100) by (nonlinear_arith)
            requires
                c <= t,
        ;
    }
    let percent = (100 * c) / t;
    let scaled = 50 * c;
    let filled = scaled / t;
    let partial = (8 * (scaled % t)) / t;
    proof {
        lemma_floor_share(c as int, t as int, 100);
        lemma_floor_share(c as int, t as int, 50);
        vstd::arithmetic::div_mod::lemma_mod_bound(scaled as int, t as int);
        lemma_floor_share((scaled % t) as int, t as int, 8);
    }
    let filled = filled as usize;
    let partial = partial as usize;
    let mut bar = String::new();
    push_glyphs(&mut bar, CELL_STEPS, filled);
    if filled < BAR_CELLS {
        push_glyphs(&mut bar, partial, 1);
        push_glyphs(&mut bar, 0, BAR_CELLS - filled - 1);
        assert(Seq::new(1, |_j| glyph(partial as nat)) =~= seq![glyph(partial as nat)]);
    }
    assert(bar@ =~= bar_spec(current as nat, total as nat));
    proof {
        if current < total {
            assert(bar@[filled as int] == glyph(partial as nat));
            assert(full_bar()[filled as int] == glyph(8));
        } else {
            assert(bar@ =~= full_bar());
        }
    }
    Some(Progress { percent: percent as u64, bar })
}

} // verus!
