//! The publish-or-skip workflow, as a state machine.
//!
//! The orchestrator decides; the caller performs. [`Orchestrator::next_action`]
//! names the one outside step to take next (a fetch, an upload, the cache
//! invalidation, the marker write), and [`Orchestrator::step`] consumes the
//! step's result and moves to the next state. The whole run is pinned by the
//! spec-level [`transition`] function, so the order of the phases — and in
//! particular that the marker write is the last step, the commit point — is
//! a proved property of the machine, not a convention of the driver.
//!
//! The marker read distinguishes a missing marker (a valid first-run state,
//! treated as the empty string) from every other store failure, which the
//! driver reports as [`Event::Failed`]. A failed cache invalidation is
//! deliberately non-fatal: staleness of a CDN cache is a lesser failure than
//! staleness of the published data, so it does not block the marker write.

use vstd::prelude::*;
use vstd::seq_lib::*;

use crate::config::Config;
use crate::content::{
    archive_put_view, build_archive, build_index, image_put_request, image_put_view,
    index_put_view, LatestResult, LatestView, PutRequest, PutView,
};
use crate::invalidation::{
    build_invalidation, fresh_nonce, invalidation_view, InvalidationRequest, InvalidationView,
};
use crate::scrape::{
    archive_list_of, campaign_href_of, content_table_of, host_of, img_srcs_of, scrape_archive_list,
    scrape_campaign_href, scrape_content_table, scrape_img_srcs, url_host,
};

verus! {

/// The mathematical value of a [`Config`].
pub struct ConfigView {
    pub mc_campaign_url: Seq<char>,
    pub s3_bucket: Seq<char>,
    pub cf_distro_id: Seq<char>,
    pub region: Seq<char>,
    pub profile: Seq<char>,
}

impl View for Config {
    type V = ConfigView;

    open spec fn view(&self) -> ConfigView {
        ConfigView {
            mc_campaign_url: self.mc_campaign_url@,
            s3_bucket: self.s3_bucket@,
            cf_distro_id: self.cf_distro_id@,
            region: self.region@,
            profile: self.profile@,
        }
    }
}

/// How the marker read went: the stored value, or the well-understood
/// "never written" state. Every other store failure is fatal and is fed to
/// the machine as [`Event::Failed`] instead.
pub enum MarkerRead {
    Found(String),
    NotFound,
}

/// The mathematical value of a [`MarkerRead`].
pub enum MarkerView {
    Found(Seq<char>),
    NotFound,
}

impl View for MarkerRead {
    type V = MarkerView;

    open spec fn view(&self) -> MarkerView {
        match self {
            MarkerRead::Found(s) => MarkerView::Found(s@),
            MarkerRead::NotFound => MarkerView::NotFound,
        }
    }
}

/// The string a marker read stands for: a missing marker reads as the empty
/// string, which can never equal a fetched campaign link.
pub open spec fn marker_value(m: MarkerView) -> Seq<char> {
    match m {
        MarkerView::Found(s) => s,
        MarkerView::NotFound => Seq::empty(),
    }
}

/// How a run ended.
#[derive(PartialEq, Eq, Structural, Clone, Copy, Debug)]
pub enum Outcome {
    /// The marker already named the newest campaign; nothing was done.
    Skipped,
    /// The full publish sequence ran and the marker was committed.
    Published,
    /// A fatal step failed; the marker was left unchanged.
    Failed,
}

/// One queued unit of publish work: download an image, or upload a payload.
pub enum Job {
    Get(String),
    Put(PutRequest),
}

/// The mathematical value of a [`Job`].
pub enum JobView {
    Get(Seq<char>),
    Put(PutView),
}

impl View for Job {
    type V = JobView;

    open spec fn view(&self) -> JobView {
        match self {
            Job::Get(u) => JobView::Get(u@),
            Job::Put(p) => JobView::Put(p@),
        }
    }
}

impl DeepView for Job {
    type V = JobView;

    open spec fn deep_view(&self) -> JobView {
        self@
    }
}

/// The result of the outside step the driver last performed.
pub enum Event {
    /// Body of the campaign index page.
    IndexHtml(String),
    /// Body of the newest campaign's detail page.
    DetailHtml(String),
    /// Result of the marker read.
    Marker(MarkerRead),
    /// Body of the index page fetched again for the archive view.
    ArchiveHtml(String),
    /// Bytes of the image the machine asked to download.
    Downloaded(Vec<u8>),
    /// The requested upload, invalidation or marker write went through.
    Succeeded,
    /// The requested step failed.
    Failed,
}

/// The mathematical value of an [`Event`].
pub enum EventView {
    IndexHtml(Seq<char>),
    DetailHtml(Seq<char>),
    Marker(MarkerView),
    ArchiveHtml(Seq<char>),
    Downloaded(Seq<u8>),
    Succeeded,
    Failed,
}

impl View for Event {
    type V = EventView;

    open spec fn view(&self) -> EventView {
        match self {
            Event::IndexHtml(h) => EventView::IndexHtml(h@),
            Event::DetailHtml(h) => EventView::DetailHtml(h@),
            Event::Marker(m) => EventView::Marker(m@),
            Event::ArchiveHtml(h) => EventView::ArchiveHtml(h@),
            Event::Downloaded(b) => EventView::Downloaded(b@),
            Event::Succeeded => EventView::Succeeded,
            Event::Failed => EventView::Failed,
        }
    }
}

/// The one outside step the driver must perform next.
pub enum Action {
    /// Fetch the campaign index page at the given URL.
    FetchIndex(String),
    /// Fetch the newest campaign's detail page at the given URL.
    FetchDetail(String),
    /// Read the marker from the store.
    ReadMarker,
    /// Fetch the index page again, for the archive view.
    FetchArchive(String),
    /// Download the image at the given URL.
    Download(String),
    /// Upload the given payload.
    Upload(PutRequest),
    /// Issue the given cache invalidation (failure is non-fatal).
    Invalidate(InvalidationRequest),
    /// Overwrite the marker with the given value. This is the commit point.
    WriteMarker(String),
    /// The run is over, with the given outcome.
    Exit(Outcome),
}

/// The mathematical value of an [`Action`].
pub enum ActionView {
    FetchIndex(Seq<char>),
    FetchDetail(Seq<char>),
    ReadMarker,
    FetchArchive(Seq<char>),
    Download(Seq<char>),
    Upload(PutView),
    Invalidate(InvalidationView),
    WriteMarker(Seq<char>),
    Exit(Outcome),
}

impl View for Action {
    type V = ActionView;

    open spec fn view(&self) -> ActionView {
        match self {
            Action::FetchIndex(u) => ActionView::FetchIndex(u@),
            Action::FetchDetail(u) => ActionView::FetchDetail(u@),
            Action::ReadMarker => ActionView::ReadMarker,
            Action::FetchArchive(u) => ActionView::FetchArchive(u@),
            Action::Download(u) => ActionView::Download(u@),
            Action::Upload(p) => ActionView::Upload(p@),
            Action::Invalidate(i) => ActionView::Invalidate(i@),
            Action::WriteMarker(s) => ActionView::WriteMarker(s@),
            Action::Exit(o) => ActionView::Exit(*o),
        }
    }
}

/// Where the machine stands.
pub enum Phase {
    /// Awaiting the index page.
    Start,
    /// Awaiting the detail page of the newest campaign.
    AwaitDetail { link: String },
    /// Awaiting the marker read; the campaign is in hand.
    AwaitMarker { latest: LatestResult },
    /// Publishing: awaiting the re-fetched index page for the archive view.
    AwaitArchive { latest: LatestResult },
    /// Publishing: working through the queued downloads and uploads.
    Work { link: String, jobs: Vec<Job> },
    /// Publishing: awaiting the cache invalidation's result.
    AwaitInvalidation { link: String },
    /// Publishing: awaiting the marker write, the final, committing step.
    Commit { link: String },
    /// The run is over.
    Done(Outcome),
}

/// The mathematical value of a [`Phase`].
pub enum PhaseView {
    Start,
    AwaitDetail { link: Seq<char> },
    AwaitMarker { latest: LatestView },
    AwaitArchive { latest: LatestView },
    Work { link: Seq<char>, jobs: Seq<JobView> },
    AwaitInvalidation { link: Seq<char> },
    Commit { link: Seq<char> },
    Done(Outcome),
}

impl View for Phase {
    type V = PhaseView;

    open spec fn view(&self) -> PhaseView {
        match self {
            Phase::Start => PhaseView::Start,
            Phase::AwaitDetail { link } => PhaseView::AwaitDetail { link: link@ },
            Phase::AwaitMarker { latest } => PhaseView::AwaitMarker { latest: latest@ },
            Phase::AwaitArchive { latest } => PhaseView::AwaitArchive { latest: latest@ },
            Phase::Work { link, jobs } => PhaseView::Work { link: link@, jobs: jobs.deep_view() },
            Phase::AwaitInvalidation { link } => PhaseView::AwaitInvalidation { link: link@ },
            Phase::Commit { link } => PhaseView::Commit { link: link@ },
            Phase::Done(o) => PhaseView::Done(*o),
        }
    }
}

/// The orchestrator: the run's immutable inputs and its current phase.
pub struct Orchestrator {
    /// The run configuration.
    pub config: Config,
    /// Header template, read once at startup.
    pub top: String,
    /// Footer template, read once at startup.
    pub bottom: String,
    /// The byte behind this run's invalidation nonce.
    pub nonce: u8,
    /// Where the machine stands.
    pub phase: Phase,
}

/// The mathematical value of an [`Orchestrator`].
pub struct OrchView {
    pub config: ConfigView,
    pub top: Seq<char>,
    pub bottom: Seq<char>,
    pub nonce: u8,
    pub phase: PhaseView,
}

impl View for Orchestrator {
    type V = OrchView;

    open spec fn view(&self) -> OrchView {
        OrchView {
            config: self.config@,
            top: self.top@,
            bottom: self.bottom@,
            nonce: self.nonce,
            phase: self.phase@,
        }
    }
}

/// The hostnames whose images are trusted to be mirrored into the store.
pub open spec fn allowed_host(h: Seq<char>) -> bool {
    h == "gallery.mailchimp.com"@ || h == "mcusercontent.com"@
}

/// Whether an image reference is mirrored: its URL parses and its host is
/// allow-listed.
pub open spec fn allowed_src(s: Seq<char>) -> bool {
    match host_of(s) {
        Some(Some(h)) => allowed_host(h),
        _ => false,
    }
}

/// Every `img` element carries a `src`.
pub open spec fn srcs_present(srcs: Seq<Option<Seq<char>>>) -> bool {
    forall|i: int| 0 <= i < srcs.len() ==> srcs[i] is Some
}

/// The `src` values themselves, once all are known present.
pub open spec fn src_values(srcs: Seq<Option<Seq<char>>>) -> Seq<Seq<char>> {
    srcs.map_values(|o: Option<Seq<char>>| o->0)
}

/// Every image reference parses as a URL.
pub open spec fn srcs_parseable(srcs: Seq<Seq<char>>) -> bool {
    forall|i: int| 0 <= i < srcs.len() ==> host_of(srcs[i]) is Some
}

/// A campaign body whose image references the machine can work through:
/// every `img` has a `src` and every `src` parses. A body that does not is
/// a fatal error, and the marker is left unchanged.
pub open spec fn body_scrapeable(html: Seq<char>) -> bool {
    srcs_present(img_srcs_of(html)) && srcs_parseable(src_values(img_srcs_of(html)))
}

/// The download jobs for a campaign body: exactly its allow-listed image
/// references, in document order.
pub open spec fn gallery_jobs(html: Seq<char>) -> Seq<JobView> {
    src_values(img_srcs_of(html)).filter(|s: Seq<char>| allowed_src(s)).map_values(
        |s: Seq<char>| JobView::Get(s),
    )
}

/// The full publish queue: the two page uploads first, then the image
/// downloads.
pub open spec fn publish_jobs(
    top: Seq<char>,
    bottom: Seq<char>,
    latest: LatestView,
    archive_html: Seq<char>,
) -> Seq<JobView> {
    seq![
        JobView::Put(index_put_view(top, latest, bottom)),
        JobView::Put(archive_put_view(top, archive_html, bottom)),
    ] + gallery_jobs(latest.html)
}

/// The machine's transition function: the new phase after one event.
pub open spec fn phase_transition(o: OrchView, ev: EventView) -> PhaseView {
    match (o.phase, ev) {
        (PhaseView::Done(out), _) => PhaseView::Done(out),
        (PhaseView::Start, EventView::IndexHtml(h)) => match campaign_href_of(h) {
            Some(link) => PhaseView::AwaitDetail { link },
            None => PhaseView::Done(Outcome::Failed),
        },
        (PhaseView::AwaitDetail { link }, EventView::DetailHtml(h)) => match content_table_of(h) {
            Some(body) => PhaseView::AwaitMarker { latest: LatestView { html: body, link } },
            None => PhaseView::Done(Outcome::Failed),
        },
        (PhaseView::AwaitMarker { latest }, EventView::Marker(m)) => if marker_value(m)
            == latest.link {
            PhaseView::Done(Outcome::Skipped)
        } else {
            PhaseView::AwaitArchive { latest }
        },
        (PhaseView::AwaitArchive { latest }, EventView::ArchiveHtml(h)) => match archive_list_of(
            h,
        ) {
            Some(a) => if body_scrapeable(latest.html) {
                PhaseView::Work {
                    link: latest.link,
                    jobs: publish_jobs(o.top, o.bottom, latest, a),
                }
            } else {
                PhaseView::Done(Outcome::Failed)
            },
            None => PhaseView::Done(Outcome::Failed),
        },
        (PhaseView::Work { link, jobs }, EventView::Downloaded(bytes)) => if jobs.len() > 0
            && jobs[0] is Get {
            PhaseView::Work {
                link,
                jobs: seq![JobView::Put(image_put_view(jobs[0]->Get_0, bytes))]
                    + jobs.drop_first(),
            }
        } else {
            PhaseView::Done(Outcome::Failed)
        },
        (PhaseView::Work { link, jobs }, EventView::Succeeded) => if jobs.len() > 0
            && jobs[0] is Put {
            if jobs.len() == 1 {
                PhaseView::AwaitInvalidation { link }
            } else {
                PhaseView::Work { link, jobs: jobs.drop_first() }
            }
        } else {
            PhaseView::Done(Outcome::Failed)
        },
        (PhaseView::AwaitInvalidation { link }, EventView::Succeeded) => PhaseView::Commit { link },
        (PhaseView::AwaitInvalidation { link }, EventView::Failed) => PhaseView::Commit { link },
        (PhaseView::Commit { link }, EventView::Succeeded) => PhaseView::Done(Outcome::Published),
        (_, _) => PhaseView::Done(Outcome::Failed),
    }
}

/// One step of the machine: only the phase moves; the run's inputs are
/// immutable.
pub open spec fn transition(o: OrchView, ev: EventView) -> OrchView {
    OrchView { phase: phase_transition(o, ev), ..o }
}

/// The action the machine asks for in a given state.
pub open spec fn action_of(o: OrchView) -> ActionView {
    match o.phase {
        PhaseView::Start => ActionView::FetchIndex(o.config.mc_campaign_url),
        PhaseView::AwaitDetail { link } => ActionView::FetchDetail(link),
        PhaseView::AwaitMarker { .. } => ActionView::ReadMarker,
        PhaseView::AwaitArchive { .. } => ActionView::FetchArchive(o.config.mc_campaign_url),
        PhaseView::Work { jobs, .. } => if jobs.len() > 0 {
            match jobs[0] {
                JobView::Get(u) => ActionView::Download(u),
                JobView::Put(p) => ActionView::Upload(p),
            }
        } else {
            ActionView::Exit(Outcome::Failed)
        },
        PhaseView::AwaitInvalidation { .. } => ActionView::Invalidate(
            invalidation_view(o.config.cf_distro_id, o.nonce),
        ),
        PhaseView::Commit { link } => ActionView::WriteMarker(link),
        PhaseView::Done(out) => ActionView::Exit(out),
    }
}

proof fn lemma_filter_push<A>(s: Seq<A>, pred: spec_fn(A) -> bool, v: A)
    ensures
        s.push(v).filter(pred) == if pred(v) {
            s.filter(pred).push(v)
        } else {
            s.filter(pred)
        },
{
    reveal(Seq::filter);
    assert(s.push(v).drop_last() =~= s);
    assert(s.push(v).last() == v);
}

fn is_allowed_host(h: &String) -> (r: bool)
    ensures
        r == allowed_host(h@),
{
    let g = "gallery.mailchimp.com".to_owned();
    let m = "mcusercontent.com".to_owned();
    *h == g || *h == m
}

/// Builds the publish queue for a campaign body and archive fragment, or
/// reports that the body's image references cannot be worked through.
fn build_jobs(top: &str, bottom: &str, latest: &LatestResult, archive_html: &str) -> (r: Option<
    Vec<Job>,
>)
    ensures
        match r {
            Some(jobs) => body_scrapeable(latest.html@) && jobs.deep_view() == publish_jobs(
                top@,
                bottom@,
                latest@,
                archive_html@,
            ),
            None => !body_scrapeable(latest.html@),
        },
{
    let srcs = scrape_img_srcs(latest.html.as_str());
    let ghost d: Seq<Option<Seq<char>>> = srcs.deep_view();
    let mut jobs: Vec<Job> = Vec::new();
    jobs.push(Job::Put(build_index(top, latest, bottom)));
    jobs.push(Job::Put(build_archive(top, archive_html, bottom)));
    let ghost base: Seq<JobView> = jobs.deep_view();
    proof {
        assert(base =~= seq![
            JobView::Put(index_put_view(top@, latest@, bottom@)),
            JobView::Put(archive_put_view(top@, archive_html@, bottom@)),
        ]);
    }
    let mut i: usize = 0;
    while i < srcs.len()
        invariant
            i <= srcs.len(),
            d == srcs.deep_view(),
            d == img_srcs_of(latest.html@),
            d.len() == srcs.len(),
            forall|j: int| 0 <= j < i ==> d[j] is Some,
            forall|j: int| 0 <= j < i ==> host_of(src_values(d)[j]) is Some,
            base =~= seq![
                JobView::Put(index_put_view(top@, latest@, bottom@)),
                JobView::Put(archive_put_view(top@, archive_html@, bottom@)),
            ],
            jobs.deep_view() == base + src_values(d.take(i as int)).filter(
                |s: Seq<char>| allowed_src(s),
            ).map_values(|s: Seq<char>| JobView::Get(s)),
        decreases srcs.len() - i,
    {
        let ghost jobs_before: Seq<JobView> = jobs.deep_view();
        match &srcs[i] {
            None => {
                proof {
                    assert(d[i as int] is None);
                    assert(!srcs_present(d));
                }
                return None;
            },
            Some(u) => {
                proof {
                    assert(d[i as int] == Some(u@));
                    assert(src_values(d)[i as int] == u@);
                }
                match url_host(u.as_str()) {
                    None => {
                        proof {
                            assert(host_of(src_values(d)[i as int]) is None);
                            assert(!srcs_parseable(src_values(d)));
                        }
                        return None;
                    },
                    Some(host_opt) => {
                        let allowed = match &host_opt {
                            Some(h) => is_allowed_host(h),
                            None => false,
                        };
                        proof {
                            assert(allowed == allowed_src(u@));
                        }
                        if allowed {
                            jobs.push(Job::Get(u.clone()));
                        }
                        proof {
                            let pred = |s: Seq<char>| allowed_src(s);
                            let f = |s: Seq<char>| JobView::Get(s);
                            let vals_i = src_values(d.take(i as int));
                            assert(d.take(i + 1) =~= d.take(i as int).push(d[i as int]));
                            assert(src_values(d.take(i + 1)) =~= vals_i.push(u@));
                            lemma_filter_push(vals_i, pred, u@);
                            if allowed {
                                assert(src_values(d.take(i + 1)).filter(pred).map_values(f)
                                    =~= vals_i.filter(pred).map_values(f).push(JobView::Get(u@)));
                                assert(jobs.deep_view() =~= jobs_before.push(
                                    JobView::Get(u@),
                                ));
                            } else {
                                assert(src_values(d.take(i + 1)).filter(pred).map_values(f)
                                    == vals_i.filter(pred).map_values(f));
                            }
                            assert(jobs.deep_view() == base + src_values(d.take(i + 1)).filter(
                                pred,
                            ).map_values(f));
                        }
                    },
                }
            },
        }
        i = i + 1;
    }
    proof {
        assert(d.take(d.len() as int) =~= d);
        assert(srcs_present(d));
        assert(srcs_parseable(src_values(d)));
        assert(jobs.deep_view() == publish_jobs(top@, bottom@, latest@, archive_html@));
    }
    Some(jobs)
}

impl Orchestrator {
    /// A fresh machine, ready to poll: phase [`PhaseView::Start`], with a
    /// freshly drawn invalidation nonce.
    pub fn new(config: Config, top: String, bottom: String) -> (r: Orchestrator)
        ensures
            r@.config == config@,
            r@.top == top@,
            r@.bottom == bottom@,
            r@.phase == PhaseView::Start,
    {
        let nonce = fresh_nonce();
        Orchestrator { config, top, bottom, nonce, phase: Phase::Start }
    }

    /// The one outside step the driver must perform next.
    pub fn next_action(&self) -> (a: Action)
        ensures
            a@ == action_of(self@),
    {
        match &self.phase {
            Phase::Start => Action::FetchIndex(self.config.mc_campaign_url.clone()),
            Phase::AwaitDetail { link } => Action::FetchDetail(link.clone()),
            Phase::AwaitMarker { .. } => Action::ReadMarker,
            Phase::AwaitArchive { .. } => Action::FetchArchive(self.config.mc_campaign_url.clone()),
            Phase::Work { jobs, .. } => {
                if jobs.len() > 0 {
                    match &jobs[0] {
                        Job::Get(u) => Action::Download(u.clone()),
                        Job::Put(p) => Action::Upload(p.clone()),
                    }
                } else {
                    Action::Exit(Outcome::Failed)
                }
            },
            Phase::AwaitInvalidation { .. } => Action::Invalidate(
                build_invalidation(&self.config, self.nonce),
            ),
            Phase::Commit { link } => Action::WriteMarker(link.clone()),
            Phase::Done(out) => Action::Exit(*out),
        }
    }

    /// Feeds the machine the result of the step it asked for.
    pub fn step(self, ev: Event) -> (r: Orchestrator)
        ensures
            r@ == transition(self@, ev@),
    {
        let Orchestrator { config, top, bottom, nonce, phase } = self;
        let next: Phase = match (phase, ev) {
            (Phase::Done(out), _) => Phase::Done(out),
            (Phase::Start, Event::IndexHtml(h)) => match scrape_campaign_href(h.as_str()) {
                Some(link) => Phase::AwaitDetail { link },
                None => Phase::Done(Outcome::Failed),
            },
            (Phase::AwaitDetail { link }, Event::DetailHtml(h)) => {
                match scrape_content_table(h.as_str()) {
                    Some(body) => Phase::AwaitMarker {
                        latest: LatestResult { html: body, link },
                    },
                    None => Phase::Done(Outcome::Failed),
                }
            },
            (Phase::AwaitMarker { latest }, Event::Marker(m)) => {
                let stored: String = match m {
                    MarkerRead::Found(s) => s,
                    MarkerRead::NotFound => String::new(),
                };
                if stored == latest.link {
                    Phase::Done(Outcome::Skipped)
                } else {
                    Phase::AwaitArchive { latest }
                }
            },
            (Phase::AwaitArchive { latest }, Event::ArchiveHtml(h)) => {
                match scrape_archive_list(h.as_str()) {
                    Some(a) => {
                        match build_jobs(top.as_str(), bottom.as_str(), &latest, a.as_str()) {
                            Some(jobs) => Phase::Work { link: latest.link, jobs },
                            None => Phase::Done(Outcome::Failed),
                        }
                    },
                    None => Phase::Done(Outcome::Failed),
                }
            },
            (Phase::Work { link, jobs }, Event::Downloaded(bytes)) => {
                if jobs.len() > 0 {
                    let ghost jobs_d: Seq<JobView> = jobs.deep_view();
                    let mut rest = jobs;
                    let first = rest.remove(0);
                    match first {
                        Job::Get(u) => {
                            let put = image_put_request(u.as_str(), bytes);
                            rest.insert(0, Job::Put(put));
                            proof {
                                assert(rest.deep_view() =~= seq![
                                    JobView::Put(image_put_view(u@, bytes@)),
                                ] + jobs_d.drop_first());
                            }
                            Phase::Work { link, jobs: rest }
                        },
                        Job::Put(_) => Phase::Done(Outcome::Failed),
                    }
                } else {
                    Phase::Done(Outcome::Failed)
                }
            },
            (Phase::Work { link, jobs }, Event::Succeeded) => {
                if jobs.len() > 0 {
                    let is_put = match &jobs[0] {
                        Job::Put(_) => true,
                        Job::Get(_) => false,
                    };
                    if is_put {
                        if jobs.len() == 1 {
                            Phase::AwaitInvalidation { link }
                        } else {
                            let ghost jobs_d: Seq<JobView> = jobs.deep_view();
                            let mut rest = jobs;
                            rest.remove(0);
                            proof {
                                assert(rest.deep_view() =~= jobs_d.drop_first());
                            }
                            Phase::Work { link, jobs: rest }
                        }
                    } else {
                        Phase::Done(Outcome::Failed)
                    }
                } else {
                    Phase::Done(Outcome::Failed)
                }
            },
            (Phase::AwaitInvalidation { link }, Event::Succeeded) => Phase::Commit { link },
            (Phase::AwaitInvalidation { link }, Event::Failed) => Phase::Commit { link },
            (Phase::Commit { .. }, Event::Succeeded) => Phase::Done(Outcome::Published),
            (_, _) => Phase::Done(Outcome::Failed),
        };
        Orchestrator { config, top, bottom, nonce, phase: next }
    }
}

} // verus!
