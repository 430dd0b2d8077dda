//! Reactive orchestration: the view state, its transitions, and the pure
//! render pass a scheduler runs after every transition. Fetches are
//! asynchronous outside this crate; an epoch counter discards the result of
//! any fetch a newer symbol selection has superseded.

use vstd::prelude::*;

verus! {

use crate::document::{SeriesDocument, spec_select, select_series};
use crate::series::{
    Sample,
    RawSeries,
    spec_parse_series,
    parse_series,
    sort_samples,
    sorted_by_period,
    all_samples_ok,
};
use crate::domain::{Domain, fallback_domain, fallback, compute_domain};
use crate::render::{RenderCommand, views, spec_chart_cmds, chart_commands, samples_fit_domain};
use crate::mapper::DIM_LIMIT;

/// Everything the dashboard's chart reacts to. The two metric selections
/// are independent so switching the period kind keeps each kind's last
/// choice.
pub struct ViewState {
    pub active_symbol: String,
    pub active_period_kind: String,
    pub active_metric_annual: String,
    pub active_metric_quarterly: String,
    pub document: SeriesDocument,
    pub loaded: bool,
    /// Epoch of the most recent symbol selection's fetch.
    pub fetch_epoch: u64,
}

pub open spec fn spec_select_symbol(s: ViewState, symbol: String) -> ViewState {
    ViewState { active_symbol: symbol, fetch_epoch: (s.fetch_epoch + 1) as u64, ..s }
}

pub open spec fn spec_select_period_kind(s: ViewState, kind: String) -> ViewState {
    ViewState { active_period_kind: kind, ..s }
}

/// A completed fetch carrying a document: applied only when its epoch is
/// still the current one, otherwise the state stands.
pub open spec fn spec_apply_fetch_doc(s: ViewState, epoch: u64, doc: SeriesDocument) -> ViewState {
    if epoch == s.fetch_epoch {
        ViewState { document: doc, loaded: true, ..s }
    } else {
        s
    }
}

impl ViewState {
    /// Initial state: no symbol, annual reporting, no metric chosen, no
    /// document loaded.
    pub fn init() -> (s: ViewState)
        ensures
            s.active_symbol@ == Seq::<char>::empty(),
            s.active_period_kind@ == "annual"@,
            s.active_metric_annual@ == Seq::<char>::empty(),
            s.active_metric_quarterly@ == Seq::<char>::empty(),
            s.document.kinds@.len() == 0,
            !s.loaded,
            s.fetch_epoch == 0,
    {
        ViewState {
            active_symbol: String::new(),
            active_period_kind: "annual".to_owned(),
            active_metric_annual: String::new(),
            active_metric_quarterly: String::new(),
            document: SeriesDocument::empty(),
            loaded: false,
            fetch_epoch: 0,
        }
    }

    /// Selects a new symbol and opens a new fetch epoch; the returned epoch
    /// names the fetch whose result may later be applied. The document
    /// stays as it is until that fetch completes.
    pub fn select_symbol(&mut self, symbol: String) -> (epoch: u64)
        requires
            old(self).fetch_epoch < u64::MAX,
        ensures
            *final(self) == spec_select_symbol(*old(self), symbol),
            epoch == final(self).fetch_epoch,
    {
        self.active_symbol = symbol;
        self.fetch_epoch = self.fetch_epoch + 1;
        self.fetch_epoch
    }

    /// Applies a completed fetch. A result from a superseded epoch is
    /// discarded whole: a late response for an old symbol never overwrites
    /// a newer selection. A failed fetch becomes the empty document.
    pub fn apply_fetch(&mut self, epoch: u64, result: Option<SeriesDocument>)
        ensures
            epoch != old(self).fetch_epoch ==> *final(self) == *old(self),
            result is Some ==> *final(self) == spec_apply_fetch_doc(
                *old(self),
                epoch,
                result->0,
            ),
            epoch == old(self).fetch_epoch && result is None ==> {
                &&& *final(self) == spec_apply_fetch_doc(*old(self), epoch, final(self).document)
                &&& final(self).document.kinds@.len() == 0
                &&& final(self).loaded
            },
    {
        if epoch == self.fetch_epoch {
            self.document = match result {
                Some(doc) => doc,
                None => SeriesDocument::empty(),
            };
            self.loaded = true;
        }
    }

    /// Switches the reporting-cadence tab: synchronous, no fetch.
    pub fn select_period_kind(&mut self, kind: String)
        ensures
            *final(self) == spec_select_period_kind(*old(self), kind),
    {
        self.active_period_kind = kind;
    }

    /// Chooses a metric for the active period kind; each kind keeps its own
    /// last choice, and an unknown kind changes nothing.
    pub fn select_metric(&mut self, metric: String)
        ensures
            old(self).active_period_kind@ == "annual"@ ==> *final(self) == (ViewState {
                active_metric_annual: metric,
                ..*old(self)
            }),
            old(self).active_period_kind@ != "annual"@ && old(self).active_period_kind@
                == "quarterly"@ ==> *final(self) == (ViewState {
                active_metric_quarterly: metric,
                ..*old(self)
            }),
            old(self).active_period_kind@ != "annual"@ && old(self).active_period_kind@
                != "quarterly"@ ==> *final(self) == *old(self),
    {
        let annual = "annual".to_owned();
        let quarterly = "quarterly".to_owned();
        if self.active_period_kind.eq(&annual) {
            self.active_metric_annual = metric;
        } else if self.active_period_kind.eq(&quarterly) {
            self.active_metric_quarterly = metric;
        }
    }
}

/// Stale-fetch guard: after selecting symbol A and then symbol B, A's fetch
/// result, arriving late, changes nothing, and B's result becomes the
/// document.
pub proof fn lemma_stale_fetch_guard(
    s0: ViewState,
    sym_a: String,
    sym_b: String,
    doc_a: SeriesDocument,
    doc_b: SeriesDocument,
)
    requires
        s0.fetch_epoch + 2 <= u64::MAX,
    ensures
        ({
            let s1 = spec_select_symbol(s0, sym_a);
            let s2 = spec_select_symbol(s1, sym_b);
            let s3 = spec_apply_fetch_doc(s2, s1.fetch_epoch, doc_a);
            let s4 = spec_apply_fetch_doc(s3, s2.fetch_epoch, doc_b);
            &&& s3 == s2
            &&& s4.document == doc_b
            &&& s4.active_symbol == sym_b
        }),
{
}

/// The raw series the state currently points at: the active metric of the
/// active period kind, which only the two known kinds can name.
pub open spec fn spec_selected(s: ViewState) -> Option<RawSeries> {
    if s.active_period_kind@ == "annual"@ {
        spec_select(s.document, s.active_period_kind@, s.active_metric_annual@)
    } else if s.active_period_kind@ == "quarterly"@ {
        spec_select(s.document, s.active_period_kind@, s.active_metric_quarterly@)
    } else {
        None
    }
}

/// The samples of one render pass, before sorting.
pub open spec fn spec_selected_samples(s: ViewState) -> Seq<Sample> {
    match spec_selected(s) {
        Some(rs) => spec_parse_series(rs),
        None => Seq::empty(),
    }
}

/// Everything one render pass computed: the sorted samples, their domain,
/// and the command list to draw.
pub struct RenderPass {
    pub samples: Vec<Sample>,
    pub domain: Domain,
    pub commands: Vec<RenderCommand>,
}

/// One full render pass over the current state, for a container measured at
/// `cw` by `ch` pixels. A container that is not laid out yet (a zero side)
/// skips the pass and draws nothing; the canvas is sized to the container's
/// width and 98 percent of its height.
pub fn render_pass(state: &ViewState, cw: u32, ch: u32) -> (rp: RenderPass)
    requires
        cw <= DIM_LIMIT,
        ch <= DIM_LIMIT,
    ensures
        cw == 0 || ch == 0 ==> {
            &&& rp.commands@.len() == 0
            &&& rp.samples@.len() == 0
            &&& rp.domain == fallback_domain()
        },
        cw > 0 && ch > 0 ==> {
            &&& sorted_by_period(rp.samples@)
            &&& all_samples_ok(rp.samples@)
            &&& rp.samples@.to_multiset() == spec_selected_samples(*state).to_multiset()
            &&& samples_fit_domain(rp.samples@, rp.domain)
            &&& rp.samples@.len() == 0 ==> rp.domain == fallback_domain()
            &&& views(rp.commands@) == spec_chart_cmds(
                rp.samples@,
                rp.domain,
                cw as int,
                ((ch * 98) / 100) as int,
            )
        },
{
    if cw == 0 || ch == 0 {
        return RenderPass { samples: Vec::new(), domain: fallback(), commands: Vec::new() };
    }
    let w = cw;
    let h = (ch * 98) / 100;
    let annual = "annual".to_owned();
    let quarterly = "quarterly".to_owned();
    let selected: Option<&RawSeries> = if state.active_period_kind.eq(&annual) {
        select_series(&state.document, &state.active_period_kind, &state.active_metric_annual)
    } else if state.active_period_kind.eq(&quarterly) {
        select_series(&state.document, &state.active_period_kind, &state.active_metric_quarterly)
    } else {
        None
    };
    let mut samples: Vec<Sample> = match selected {
        Some(rs) => parse_series(rs),
        None => Vec::new(),
    };
    proof {
        assert(samples@.to_multiset() =~= spec_selected_samples(*state).to_multiset());
    }
    sort_samples(&mut samples);
    let dom = compute_domain(&samples);
    let commands = chart_commands(&samples, &dom, w, h);
    RenderPass { samples, domain: dom, commands }
}

} // verus!
