use vstd::prelude::*;

use crate::screen::{Pixel, ScreenContextManager};

verus! {

/// Position in the framebuffer of column `x` of row `y`, rows counted from
/// the top, in an image `w` pixels wide.
pub open spec fn frame_pos(x: int, y: int, w: int) -> int {
    y * w + x
}

/// Position in a traced frame of the color for column `x` of plane row `j`,
/// plane rows counted from the bottom, with `h` rows per column: columns one
/// after the other, each from the bottom up.
pub open spec fn trace_pos(x: int, j: int, h: int) -> int {
    x * h + j
}

proof fn lemma_frame_pos_injective(x1: int, y1: int, x2: int, y2: int, w: int)
    requires
        0 <= x1 < w,
        0 <= x2 < w,
        0 <= y1,
        0 <= y2,
        frame_pos(x1, y1, w) == frame_pos(x2, y2, w),
    ensures
        x1 == x2 && y1 == y2,
{
    if y1 < y2 {
        assert(y1 * w + w <= y2 * w) by (nonlinear_arith)
            requires
                y1 < y2,
                0 < w,
        ;
    } else if y2 < y1 {
        assert(y2 * w + w <= y1 * w) by (nonlinear_arith)
            requires
                y2 < y1,
                0 < w,
        ;
    }
}

proof fn lemma_inside(x: int, y: int, w: int, h: int)
    requires
        0 <= x < w,
        0 <= y < h,
    ensures
        0 <= frame_pos(x, y, w) < w * h,
        0 <= trace_pos(x, y, h) < w * h,
{
    assert(0 <= y * w + x < w * h) by (nonlinear_arith)
        requires
            0 <= x < w,
            0 <= y < h,
    ;
    assert(0 <= x * h + y < w * h) by (nonlinear_arith)
        requires
            0 <= x < w,
            0 <= y < h,
    ;
}

/// Lays a traced frame into the framebuffer. `colors` holds the color traced
/// through each pixel center of the projection plane, column by column from
/// the left and, within a column, from the bottom row up (the plane's `y`
/// grows upwards); the framebuffer's row 0 is the image's top, so the color
/// for plane row `j` lands in framebuffer row `height - 1 - j`. The pixels are
/// painted in the order of `colors`, so the last one stays the current color.
pub fn paint_frame(screen: &mut ScreenContextManager, colors: &Vec<Pixel>)
    requires
        old(screen).wf(),
        colors@.len() == old(screen).width_spec() * old(screen).height_spec(),
    ensures
        final(screen).wf(),
        final(screen).width_spec() == old(screen).width_spec(),
        final(screen).height_spec() == old(screen).height_spec(),
        forall|x: int, y: int|
            0 <= x < old(screen).width_spec() && 0 <= y < old(screen).height_spec() ==> (
            #[trigger] final(screen).pixels()[frame_pos(x, y, old(screen).width_spec() as int)]
                == colors@[trace_pos(x, old(screen).height_spec() - 1 - y, old(screen).height_spec() as int)]),
        final(screen).current_color() == if colors@.len() == 0 {
            old(screen).current_color()
        } else {
            colors@.last()
        },
{
    let w = screen.get_width();
    let h = screen.get_height();
    let ghost wi = w as int;
    let ghost hi = h as int;
    let mut i: u32 = 0;
    while i < w
        invariant
            screen.wf(),
            screen.width_spec() == w,
            screen.height_spec() == h,
            colors@.len() == wi * hi,
            wi == w as int,
            hi == h as int,
            0 <= i <= w,
            forall|x: int, y: int|
                0 <= x < i && 0 <= y < h ==> (#[trigger] screen.pixels()[frame_pos(x, y, wi)]
                    == colors@[trace_pos(x, hi - 1 - y, hi)]),
            screen.current_color() == if i == 0 || h == 0 {
                old(screen).current_color()
            } else {
                colors@[i * hi - 1]
            },
        decreases w - i,
    {
        let mut j: u32 = 0;
        while j < h
            invariant
                screen.wf(),
                screen.width_spec() == w,
                screen.height_spec() == h,
                colors@.len() == wi * hi,
                wi == w as int,
                hi == h as int,
            wi == w as int,
            hi == h as int,
                0 <= i < w,
                0 <= j <= h,
                forall|x: int, y: int|
                    0 <= x < i && 0 <= y < h ==> (#[trigger] screen.pixels()[frame_pos(x, y, wi)]
                        == colors@[trace_pos(x, hi - 1 - y, hi)]),
                forall|y: int|
                    hi - j <= y < hi ==> (#[trigger] screen.pixels()[frame_pos(i as int, y, wi)]
                        == colors@[trace_pos(i as int, hi - 1 - y, hi)]),
                screen.current_color() == if j > 0 {
                    colors@[i * hi + j - 1]
                } else if i == 0 || h == 0 {
                    old(screen).current_color()
                } else {
                    colors@[i * hi - 1]
                },
            decreases h - j,
        {
            proof {
                lemma_inside(i as int, j as int, wi, hi);
                lemma_inside(i as int, hi - 1 - j, wi, hi);
            }
            let k = (i * h + j) as usize;
            let c = colors[k];
            screen.set_color(c[0], c[1], c[2]);
            assert(screen.current_color() =~= c);
            screen.plot_pixel(i, h - 1 - j);
            proof {
                let p = frame_pos(i as int, hi - 1 - j, wi);
                assert forall|x: int, y: int|
                    0 <= x < i && 0 <= y < h implies (#[trigger] screen.pixels()[frame_pos(x, y, wi)]
                        == colors@[trace_pos(x, hi - 1 - y, hi)]) by {
                    lemma_inside(x, y, wi, hi);
                    if frame_pos(x, y, wi) == p {
                        lemma_frame_pos_injective(x, y, i as int, hi - 1 - j, wi);
                    }
                };
                assert forall|y: int|
                    hi - (j + 1) <= y < hi implies (#[trigger] screen.pixels()[frame_pos(i as int, y, wi)]
                        == colors@[trace_pos(i as int, hi - 1 - y, hi)]) by {
                    lemma_inside(i as int, y, wi, hi);
                    if frame_pos(i as int, y, wi) == p && y != hi - 1 - j {
                        lemma_frame_pos_injective(i as int, y, i as int, hi - 1 - j, wi);
                    }
                };
            }
            j = j + 1;
        }
        proof {
            assert((i as int) * hi + hi == (i as int + 1) * hi) by (nonlinear_arith);
        }
        i = i + 1;
    }
    proof {
        if colors@.len() > 0 {
            assert(h > 0);
        } else {
            assert(wi * hi == 0);
            assert(w == 0 || h == 0) by (nonlinear_arith)
                requires
                    wi * hi == 0,
                    wi == w,
                    hi == h,
            ;
        }
    }
}

} // verus!
