//! Draw commands for one render pass. The renderer emits a full command
//! list each pass — clear, axes, tick labels, polyline — so no stale path
//! from an earlier selection can survive.

use vstd::prelude::*;

verus! {

use vstd::arithmetic::div_mod::lemma_fundamental_div_mod_converse_div;
use crate::num::{VALUE_LIMIT, dec_digits, spec_fmt_fixed2, fmt_u64, fmt_fixed2};
use crate::domain::{Domain, domain_wf, is_min_value, is_max_value};
use crate::series::{Sample, all_samples_ok, sample_ok, sorted_by_period, le_period};
use crate::mapper::{
    DIM_LIMIT,
    MAX_DAY_SPAN,
    spec_map_x,
    spec_map_y,
    spec_year_step,
    spec_tick_x,
    spec_tenth,
    map_x,
    map_y,
    year_step,
    tick_x,
    tenth,
};

/// One imperative drawing step against the canvas surface. Coordinates are
/// milli-pixels; label text is UTF-8 bytes.
#[derive(Clone, PartialEq, Eq, Debug)]
pub enum RenderCommand {
    SetSize { w: u32, h: u32 },
    SetLineWidth { mpx: i64 },
    MoveTo { x: i64, y: i64 },
    LineTo { x: i64, y: i64 },
    Stroke,
    FillText { text: Vec<u8>, x: i64, y: i64 },
}

/// The mathematical shape of a command, with text as a byte sequence.
pub enum SpecCmd {
    SetSize { w: int, h: int },
    SetLineWidth { mpx: int },
    MoveTo { x: int, y: int },
    LineTo { x: int, y: int },
    Stroke,
    FillText { text: Seq<u8>, x: int, y: int },
}

impl View for RenderCommand {
    type V = SpecCmd;

    open spec fn view(&self) -> SpecCmd {
        match self {
            RenderCommand::SetSize { w, h } => SpecCmd::SetSize { w: *w as int, h: *h as int },
            RenderCommand::SetLineWidth { mpx } => SpecCmd::SetLineWidth { mpx: *mpx as int },
            RenderCommand::MoveTo { x, y } => SpecCmd::MoveTo { x: *x as int, y: *y as int },
            RenderCommand::LineTo { x, y } => SpecCmd::LineTo { x: *x as int, y: *y as int },
            RenderCommand::Stroke => SpecCmd::Stroke,
            RenderCommand::FillText { text, x, y } => SpecCmd::FillText {
                text: text@,
                x: *x as int,
                y: *y as int,
            },
        }
    }
}

pub open spec fn views(s: Seq<RenderCommand>) -> Seq<SpecCmd> {
    s.map_values(|c: RenderCommand| c@)
}

fn push_cmd(out: &mut Vec<RenderCommand>, c: RenderCommand)
    ensures
        views(final(out)@) == views(old(out)@).push(c@),
{
    let ghost cv = c@;
    out.push(c);
    proof {
        assert(views(out@) =~= views(old(out)@).push(cv));
    }
}

/// The L-shaped axis: down the left edge of the plot area, then along its
/// bottom, with the fixed 2-pixel stroke.
pub open spec fn spec_axis_cmds(w: int, h: int) -> Seq<SpecCmd> {
    seq![
        SpecCmd::SetLineWidth { mpx: 2000 },
        SpecCmd::MoveTo { x: 100 * w, y: 10 * h },
        SpecCmd::LineTo { x: 100 * w, y: 900 * h },
        SpecCmd::LineTo { x: 950 * w, y: 900 * h },
        SpecCmd::Stroke,
    ]
}

fn push_axis(out: &mut Vec<RenderCommand>, w: u32, h: u32)
    requires
        w <= DIM_LIMIT,
        h <= DIM_LIMIT,
    ensures
        views(final(out)@) == views(old(out)@) + spec_axis_cmds(w as int, h as int),
{
    let wi = w as i64;
    let hi = h as i64;
    push_cmd(out, RenderCommand::SetLineWidth { mpx: 2000 });
    push_cmd(out, RenderCommand::MoveTo { x: 100 * wi, y: 10 * hi });
    push_cmd(out, RenderCommand::LineTo { x: 100 * wi, y: 900 * hi });
    push_cmd(out, RenderCommand::LineTo { x: 950 * wi, y: 900 * hi });
    push_cmd(out, RenderCommand::Stroke);
    proof {
        assert(views(out@) =~= views(old(out)@) + spec_axis_cmds(w as int, h as int));
    }
}

/// Year labels along the x axis: one every `spec_year_step` years starting
/// at the domain's first year, none when the step is zero.
pub open spec fn spec_year_tick_cmds(y0: int, y1: int, w: int, h: int) -> Seq<SpecCmd> {
    let step = spec_year_step(y0, y1);
    if step == 0 {
        Seq::empty()
    } else {
        Seq::new(((y1 - y0) / step + 1) as nat, |k: int| SpecCmd::FillText {
            text: dec_digits(y0 + k * step),
            x: spec_tick_x(y0 + k * step, y0, y1, w),
            y: 950 * h,
        })
    }
}

fn push_year_ticks(out: &mut Vec<RenderCommand>, y0: u16, y1: u16, w: u32, h: u32)
    requires
        y1 <= 9999,
        w <= DIM_LIMIT,
        h <= DIM_LIMIT,
    ensures
        views(final(out)@) == views(old(out)@) + spec_year_tick_cmds(
            y0 as int,
            y1 as int,
            w as int,
            h as int,
        ),
{
    let step = year_step(y0, y1);
    let ghost full = spec_year_tick_cmds(y0 as int, y1 as int, w as int, h as int);
    if step == 0 {
        proof {
            assert(views(out@) =~= views(old(out)@) + full);
        }
        return ;
    }
    let ghost base = views(old(out)@);
    proof {
        assert(base + full.take(0) =~= base);
    }
    let mut year: u16 = y0;
    let mut k: usize = 0;
    while year <= y1
        invariant
            step == spec_year_step(y0 as int, y1 as int),
            1 <= step <= 2000,
            y0 < y1 <= 9999,
            w <= DIM_LIMIT,
            h <= DIM_LIMIT,
            full == spec_year_tick_cmds(y0 as int, y1 as int, w as int, h as int),
            base == views(old(out)@),
            year as int == y0 + k * step,
            k >= 1 ==> y0 + (k - 1) * step <= y1,
            k <= full.len(),
            views(out@) == base + full.take(k as int),
        decreases y1 + step - year,
    {
        let label = fmt_u64(year as u64);
        let x = tick_x(year, y0, y1, w);
        let y = 950 * (h as i64);
        push_cmd(out, RenderCommand::FillText { text: label, x, y });
        proof {
            let ki = k as int;
            let st = step as int;
            let d = (y1 - y0) as int;
            assert(ki * st <= d);
            let r = d - ki * st;
            assert(0 <= r);
            if r < st {
                lemma_fundamental_div_mod_converse_div(d, st, ki, r);
            } else {
                vstd::arithmetic::div_mod::lemma_div_is_ordered(ki * st, d, st);
                vstd::arithmetic::div_mod::lemma_div_by_multiple(ki, st);
            }
            assert(ki <= d / st);
            assert(full[ki] == SpecCmd::FillText {
                text: dec_digits(y0 + ki * st),
                x: spec_tick_x(y0 + ki * st, y0 as int, y1 as int, w as int),
                y: 950 * h as int,
            });
            assert(full.take(ki + 1) =~= full.take(ki).push(full[ki]));
            assert((ki + 1) * st == ki * st + st) by (nonlinear_arith);
        }
        k = k + 1;
        year = year + step;
    }
    proof {
        let ki = k as int;
        let st = step as int;
        let d = (y1 - y0) as int;
        assert(ki >= 1);
        assert((ki - 1) * st + st == ki * st) by (nonlinear_arith);
        let r = d - (ki - 1) * st;
        assert(0 <= r);
        assert(r < st);
        lemma_fundamental_div_mod_converse_div(d, st, ki - 1, r);
        assert(full.len() == ki);
        assert(full.take(ki) =~= full);
        assert(views(out@) =~= views(old(out)@) + full);
    }
}

/// Value labels along the y axis: ten of them, from `y_min` upward in steps
/// of a tenth of `y_max`, two decimal places each.
pub open spec fn spec_value_tick_cmds(y_min: int, y_max: int, w: int, h: int) -> Seq<SpecCmd> {
    Seq::new(10, |i: int| SpecCmd::FillText {
        text: spec_fmt_fixed2(y_min + i * spec_tenth(y_max)),
        x: 5 * w,
        y: 950 * h - i * 95 * h - 40 * h,
    })
}

fn push_value_ticks(out: &mut Vec<RenderCommand>, y_min: i64, y_max: i64, w: u32, h: u32)
    requires
        -VALUE_LIMIT <= y_min <= VALUE_LIMIT,
        -VALUE_LIMIT <= y_max <= VALUE_LIMIT,
        w <= DIM_LIMIT,
        h <= DIM_LIMIT,
    ensures
        views(final(out)@) == views(old(out)@) + spec_value_tick_cmds(
            y_min as int,
            y_max as int,
            w as int,
            h as int,
        ),
{
    let ghost full = spec_value_tick_cmds(y_min as int, y_max as int, w as int, h as int);
    let ghost base = views(old(out)@);
    let t = tenth(y_max);
    proof {
        assert(base + full.take(0) =~= base);
    }
    let mut i: usize = 0;
    while i < 10
        invariant
            t == spec_tenth(y_max as int),
            -VALUE_LIMIT <= y_min <= VALUE_LIMIT,
            -VALUE_LIMIT <= y_max <= VALUE_LIMIT,
            -5_000_000_000 <= t <= 5_000_000_000,
            w <= DIM_LIMIT,
            h <= DIM_LIMIT,
            full == spec_value_tick_cmds(y_min as int, y_max as int, w as int, h as int),
            base == views(old(out)@),
            i <= 10,
            views(out@) == base + full.take(i as int),
        decreases 10 - i,
    {
        let ii = i as i64;
        proof {
            assert(-45_000_000_000 <= (ii as int) * t <= 45_000_000_000) by (nonlinear_arith)
                requires
                    0 <= ii <= 9,
                    -5_000_000_000 <= t <= 5_000_000_000,
            ;
        }
        let v: i64 = y_min + ii * t;
        let label = fmt_fixed2(v);
        let x: i64 = 5 * (w as i64);
        let m95: i64 = ii * 95;
        proof {
            assert(0 <= (m95 as int) * (h as int) <= 855 * 100_000) by (nonlinear_arith)
                requires
                    0 <= m95 <= 855,
                    0 <= h <= 100_000,
            ;
        }
        let y: i64 = 950 * (h as i64) - m95 * (h as i64) - 40 * (h as i64);
        push_cmd(out, RenderCommand::FillText { text: label, x, y });
        proof {
            assert(full.take(i + 1) =~= full.take(i as int).push(full[i as int]));
        }
        i = i + 1;
    }
    proof {
        assert(full.take(10) =~= full);
        assert(views(out@) =~= views(old(out)@) + full);
    }
}

/// Pixel position of one sample under a domain.
pub open spec fn spec_sample_x(s: Sample, dom: Domain, w: int) -> int {
    spec_map_x(
        s.period.day_number() - dom.x_min.day_number(),
        dom.x_max.day_number() - dom.x_min.day_number(),
        w,
    )
}

pub open spec fn spec_sample_y(s: Sample, dom: Domain, h: int) -> int {
    spec_map_y(s.value as int, dom.y_min as int, dom.y_max as int, h)
}

/// The connected path through all samples in period order: a move to the
/// plot's left edge at the first sample's height, then a line and stroke
/// for every sample.
pub open spec fn spec_polyline_cmds(samples: Seq<Sample>, dom: Domain, w: int, h: int) -> Seq<
    SpecCmd,
> {
    if samples.len() == 0 {
        Seq::empty()
    } else {
        seq![SpecCmd::MoveTo { x: 100 * w, y: spec_sample_y(samples[0], dom, h) }] + Seq::new(
            (2 * samples.len()) as nat,
            |j: int|
                if j % 2 == 0 {
                    SpecCmd::LineTo {
                        x: spec_sample_x(samples[j / 2], dom, w),
                        y: spec_sample_y(samples[j / 2], dom, h),
                    }
                } else {
                    SpecCmd::Stroke
                },
        )
    }
}

/// The samples agree with the domain: sorted, in range, and the domain's
/// bounds are theirs.
pub open spec fn samples_fit_domain(samples: Seq<Sample>, dom: Domain) -> bool {
    &&& sorted_by_period(samples)
    &&& all_samples_ok(samples)
    &&& domain_wf(dom)
    &&& samples.len() > 0 ==> {
        &&& dom.x_min == samples[0].period
        &&& dom.x_max == samples.last().period
        &&& is_min_value(samples, dom.y_min as int)
        &&& is_max_value(samples, dom.y_max as int)
    }
}

fn push_polyline(out: &mut Vec<RenderCommand>, samples: &Vec<Sample>, dom: &Domain, w: u32, h: u32)
    requires
        samples_fit_domain(samples@, *dom),
        w <= DIM_LIMIT,
        h <= DIM_LIMIT,
    ensures
        views(final(out)@) == views(old(out)@) + spec_polyline_cmds(
            samples@,
            *dom,
            w as int,
            h as int,
        ),
{
    let ghost full = spec_polyline_cmds(samples@, *dom, w as int, h as int);
    let ghost base = views(old(out)@);
    let n = samples.len();
    if n == 0 {
        proof {
            assert(views(out@) =~= views(old(out)@) + full);
        }
        return ;
    }
    proof {
        crate::date::lemma_day_number_bounds(dom.x_min);
        crate::date::lemma_day_number_bounds(dom.x_max);
    }
    let dn_min = crate::date::day_number_of(&dom.x_min);
    let dn_max = crate::date::day_number_of(&dom.x_max);
    let max_days = dn_max - dn_min;
    assert(sample_ok(samples@[0]));
    let y0 = map_y(samples[0].value, dom.y_min, dom.y_max, h);
    push_cmd(out, RenderCommand::MoveTo { x: 100 * (w as i64), y: y0 });
    let ghost tail = Seq::new(
        (2 * samples@.len()) as nat,
        |j: int|
            if j % 2 == 0 {
                SpecCmd::LineTo {
                    x: spec_sample_x(samples@[j / 2], *dom, w as int),
                    y: spec_sample_y(samples@[j / 2], *dom, h as int),
                }
            } else {
                SpecCmd::Stroke
            },
    );
    let ghost head = seq![
        SpecCmd::MoveTo { x: 100 * (w as int), y: spec_sample_y(samples@[0], *dom, h as int) },
    ];
    proof {
        assert(full =~= head + tail);
        assert(views(out@) =~= base + head + tail.take(0));
    }
    for i in 0..n
        invariant
            n == samples@.len(),
            n > 0,
            samples_fit_domain(samples@, *dom),
            w <= DIM_LIMIT,
            h <= DIM_LIMIT,
            dn_min == dom.x_min.day_number(),
            max_days == dom.x_max.day_number() - dom.x_min.day_number(),
            0 <= max_days <= MAX_DAY_SPAN,
            base == views(old(out)@),
            head.len() == 1,
            tail == Seq::new(
                (2 * samples@.len()) as nat,
                |j: int|
                    if j % 2 == 0 {
                        SpecCmd::LineTo {
                            x: spec_sample_x(samples@[j / 2], *dom, w as int),
                            y: spec_sample_y(samples@[j / 2], *dom, h as int),
                        }
                    } else {
                        SpecCmd::Stroke
                    },
            ),
            base + head + tail =~= base + full,
            views(out@) == base + head + tail.take(2 * i as int),
    {
        assert(sample_ok(samples@[i as int]));
        proof {
            crate::date::lemma_day_number_bounds(samples@[i as int].period);
            assert(le_period(samples@[0], samples@[i as int]));
            assert(le_period(samples@[i as int], samples@[n - 1]));
        }
        let dn = crate::date::day_number_of(&samples[i].period);
        let x = map_x(dn - dn_min, max_days, w);
        let y = map_y(samples[i].value, dom.y_min, dom.y_max, h);
        push_cmd(out, RenderCommand::LineTo { x, y });
        push_cmd(out, RenderCommand::Stroke);
        proof {
            let j = 2 * i as int;
            assert(tail[j] == SpecCmd::LineTo {
                x: spec_sample_x(samples@[i as int], *dom, w as int),
                y: spec_sample_y(samples@[i as int], *dom, h as int),
            });
            assert(tail[j + 1] == SpecCmd::Stroke);
            assert(tail.take(j + 2) =~= tail.take(j).push(tail[j]).push(tail[j + 1]));
            assert(views(out@) =~= base + head + tail.take(j + 2));
        }
    }
    proof {
        assert(tail.take(2 * n as int) =~= tail);
        assert(views(out@) =~= views(old(out)@) + full);
    }
}

/// Everything one render pass draws on a canvas of `w` by `h` pixels.
pub open spec fn spec_chart_cmds(samples: Seq<Sample>, dom: Domain, w: int, h: int) -> Seq<
    SpecCmd,
> {
    seq![SpecCmd::SetSize { w, h }] + spec_axis_cmds(w, h) + spec_year_tick_cmds(
        dom.x_min.year as int,
        dom.x_max.year as int,
        w,
        h,
    ) + spec_value_tick_cmds(dom.y_min as int, dom.y_max as int, w, h) + spec_polyline_cmds(
        samples,
        dom,
        w,
        h,
    )
}

/// Chart Renderer: the full, freshly rebuilt command list for one pass.
pub fn chart_commands(samples: &Vec<Sample>, dom: &Domain, w: u32, h: u32) -> (cmds: Vec<
    RenderCommand,
>)
    requires
        samples_fit_domain(samples@, *dom),
        w <= DIM_LIMIT,
        h <= DIM_LIMIT,
    ensures
        views(cmds@) == spec_chart_cmds(samples@, *dom, w as int, h as int),
{
    let mut out: Vec<RenderCommand> = Vec::new();
    push_cmd(&mut out, RenderCommand::SetSize { w, h });
    proof {
        assert(views(out@) =~= seq![SpecCmd::SetSize { w: w as int, h: h as int }]);
    }
    push_axis(&mut out, w, h);
    push_year_ticks(&mut out, dom.x_min.year, dom.x_max.year, w, h);
    push_value_ticks(&mut out, dom.y_min, dom.y_max, w, h);
    push_polyline(&mut out, samples, dom, w, h);
    proof {
        assert(views(out@) =~= spec_chart_cmds(samples@, *dom, w as int, h as int));
    }
    out
}

} // verus!
