use website_my_mailchimp::config::Config;
use website_my_mailchimp::content::S3Content;
use website_my_mailchimp::orchestrator::{Action, Event, MarkerRead, Orchestrator, Outcome};

fn sample_config() -> Config {
    Config {
        mc_campaign_url: "https://example.com/archive".to_string(),
        s3_bucket: "my-bucket".to_string(),
        cf_distro_id: "DISTRO123".to_string(),
        region: "us-east-1".to_string(),
        profile: "default".to_string(),
    }
}

const INDEX_HTML: &str =
    "<div class=\"campaign\"><a href=\"https://example.com/campaign/42\">Latest issue</a></div>";

const DETAIL_HTML: &str = "<div><p>NAVIGATION</p><table><tbody><tr><td>Hello \
    <img src=\"https://gallery.mailchimp.com/a/pic.png\"> \
    <img src=\"https://cdn.example.com/b/other.png\"> \
    </td></tr></tbody></table></div>";

const ARCHIVE_HTML: &str = "<div><p>BANNER</p><ul id=\"archive-list\">\
    <li><a href=\"https://example.com/campaign/41\">Old issue</a></li></ul></div>";

/// Drives a fresh machine up to the marker decision.
fn decided(marker: MarkerRead) -> Orchestrator {
    let mut orch = Orchestrator::new(sample_config(), "TOP|".to_string(), "|BOTTOM".to_string());
    match orch.next_action() {
        Action::FetchIndex(u) => assert_eq!(u, "https://example.com/archive"),
        _ => panic!("expected the index fetch first"),
    }
    orch = orch.step(Event::IndexHtml(INDEX_HTML.to_string()));
    match orch.next_action() {
        Action::FetchDetail(u) => assert_eq!(u, "https://example.com/campaign/42"),
        _ => panic!("expected the detail fetch"),
    }
    orch = orch.step(Event::DetailHtml(DETAIL_HTML.to_string()));
    assert!(matches!(orch.next_action(), Action::ReadMarker));
    orch.step(Event::Marker(marker))
}

struct RunLog {
    uploads: Vec<(String, String)>,
    downloads: Vec<String>,
    invalidations: usize,
    marker_written: Option<String>,
    outcome: Outcome,
}

/// Plays the driver's part, answering every request with success.
fn drive_to_end(mut orch: Orchestrator) -> RunLog {
    let mut log = RunLog {
        uploads: Vec::new(),
        downloads: Vec::new(),
        invalidations: 0,
        marker_written: None,
        outcome: Outcome::Failed,
    };
    for _turn in 0..100 {
        match orch.next_action() {
            Action::FetchArchive(u) => {
                assert_eq!(u, "https://example.com/archive");
                orch = orch.step(Event::ArchiveHtml(ARCHIVE_HTML.to_string()));
            }
            Action::Download(u) => {
                log.downloads.push(u);
                orch = orch.step(Event::Downloaded(vec![1u8, 2u8, 3u8]));
            }
            Action::Upload(p) => {
                assert!(
                    log.marker_written.is_none(),
                    "no upload may come after the marker write"
                );
                log.uploads.push((p.dest.clone(), p.mime.clone()));
                orch = orch.step(Event::Succeeded);
            }
            Action::Invalidate(req) => {
                assert_eq!(req.distribution_id, "DISTRO123");
                assert_eq!(req.path_list.len(), 4);
                log.invalidations += 1;
                orch = orch.step(Event::Succeeded);
            }
            Action::WriteMarker(v) => {
                assert!(log.marker_written.is_none(), "the marker is written once");
                log.marker_written = Some(v);
                orch = orch.step(Event::Succeeded);
            }
            Action::Exit(out) => {
                log.outcome = out;
                return log;
            }
            _ => panic!("unexpected action during the publish phase"),
        }
    }
    panic!("the run did not finish");
}

#[test]
fn new_campaign_runs_the_full_publish() {
    let orch = decided(MarkerRead::Found("https://example.com/campaign/41".to_string()));
    let log = drive_to_end(orch);
    assert_eq!(log.outcome, Outcome::Published);
    assert_eq!(log.uploads.len(), 3);
    assert_eq!(log.uploads[0].0, "index.html");
    assert_eq!(log.uploads[0].1, "text/html");
    assert_eq!(log.uploads[1].0, "archive.html");
    assert_eq!(log.uploads[1].1, "text/html");
    assert_eq!(log.uploads[2].0, "assets/mailchimpGallery/pic.png");
    assert_eq!(log.uploads[2].1, "image/png");
    assert_eq!(log.downloads, vec!["https://gallery.mailchimp.com/a/pic.png".to_string()]);
    assert_eq!(log.invalidations, 1);
    assert_eq!(
        log.marker_written.as_deref(),
        Some("https://example.com/campaign/42")
    );
}

#[test]
fn same_campaign_skips_everything() {
    let orch = decided(MarkerRead::Found("https://example.com/campaign/42".to_string()));
    match orch.next_action() {
        Action::Exit(out) => assert_eq!(out, Outcome::Skipped),
        _ => panic!("a matching marker must end the run at once"),
    }
}

#[test]
fn missing_marker_behaves_like_a_stale_one() {
    let orch = decided(MarkerRead::NotFound);
    assert!(matches!(orch.next_action(), Action::FetchArchive(_)));
    let log = drive_to_end(orch);
    assert_eq!(log.outcome, Outcome::Published);
    assert_eq!(log.uploads.len(), 3);
    assert_eq!(
        log.marker_written.as_deref(),
        Some("https://example.com/campaign/42")
    );
}

#[test]
fn only_allow_listed_images_are_downloaded() {
    let orch = decided(MarkerRead::NotFound);
    let log = drive_to_end(orch);
    assert_eq!(log.downloads, vec!["https://gallery.mailchimp.com/a/pic.png".to_string()]);
    assert!(log
        .uploads
        .iter()
        .all(|(dest, _)| dest != "assets/mailchimpGallery/other.png"));
}

#[test]
fn rendered_pages_carry_the_scraped_fragments_only() {
    let mut orch = decided(MarkerRead::NotFound);
    assert!(matches!(orch.next_action(), Action::FetchArchive(_)));
    orch = orch.step(Event::ArchiveHtml(ARCHIVE_HTML.to_string()));
    match orch.next_action() {
        Action::Upload(p) => {
            assert_eq!(p.dest, "index.html");
            match &p.src {
                S3Content::Text(body) => {
                    assert!(body.starts_with("TOP|<table"));
                    assert!(body.ends_with("|BOTTOM"));
                    assert!(body.contains("Hello"));
                    // Only the content table is kept, not the page around it.
                    assert!(!body.contains("NAVIGATION"));
                }
                S3Content::Bytes(_) => panic!("the index page must be text"),
            }
        }
        _ => panic!("the first publish step must upload the index page"),
    }
    orch = orch.step(Event::Succeeded);
    match orch.next_action() {
        Action::Upload(p) => {
            assert_eq!(p.dest, "archive.html");
            match &p.src {
                S3Content::Text(body) => {
                    assert!(body.starts_with("TOP|<ul"));
                    assert!(body.ends_with("|BOTTOM"));
                    assert!(body.contains("Old issue"));
                    // Only the archive list is kept, not the page around it.
                    assert!(!body.contains("BANNER"));
                }
                S3Content::Bytes(_) => panic!("the archive page must be text"),
            }
        }
        _ => panic!("the second publish step must upload the archive page"),
    }
}

#[test]
fn upload_failure_aborts_without_marker_write() {
    let mut orch = decided(MarkerRead::Found("https://example.com/campaign/41".to_string()));
    orch = orch.step(Event::ArchiveHtml(ARCHIVE_HTML.to_string()));
    assert!(matches!(orch.next_action(), Action::Upload(_)));
    orch = orch.step(Event::Failed);
    match orch.next_action() {
        Action::Exit(out) => assert_eq!(out, Outcome::Failed),
        _ => panic!("a failed upload must end the run"),
    }
}

#[test]
fn a_retry_after_failure_replays_the_full_publish() {
    // First run: fails at the very first upload; the marker was never written.
    let mut first = decided(MarkerRead::Found("https://example.com/campaign/41".to_string()));
    first = first.step(Event::ArchiveHtml(ARCHIVE_HTML.to_string()));
    first = first.step(Event::Failed);
    assert!(matches!(first.next_action(), Action::Exit(Outcome::Failed)));
    // Second run: the store still holds the old marker, so the whole
    // publish sequence runs again and commits.
    let second = decided(MarkerRead::Found("https://example.com/campaign/41".to_string()));
    let log = drive_to_end(second);
    assert_eq!(log.outcome, Outcome::Published);
    assert_eq!(log.uploads.len(), 3);
    assert_eq!(
        log.marker_written.as_deref(),
        Some("https://example.com/campaign/42")
    );
}

#[test]
fn invalidation_failure_does_not_block_the_commit() {
    let mut orch = decided(MarkerRead::Found("https://example.com/campaign/41".to_string()));
    orch = orch.step(Event::ArchiveHtml(ARCHIVE_HTML.to_string()));
    loop {
        match orch.next_action() {
            Action::Upload(_) => {
                orch = orch.step(Event::Succeeded);
            }
            Action::Download(_) => {
                orch = orch.step(Event::Downloaded(vec![0u8]));
            }
            Action::Invalidate(_) => {
                orch = orch.step(Event::Failed);
                break;
            }
            _ => panic!("expected uploads, downloads, then the invalidation"),
        }
    }
    match orch.next_action() {
        Action::WriteMarker(v) => assert_eq!(v, "https://example.com/campaign/42"),
        _ => panic!("a failed invalidation must still reach the marker write"),
    }
}

#[test]
fn a_page_without_campaign_link_is_fatal() {
    let mut orch = Orchestrator::new(sample_config(), "T".to_string(), "B".to_string());
    orch = orch.step(Event::IndexHtml("<p>nothing here</p>".to_string()));
    match orch.next_action() {
        Action::Exit(out) => assert_eq!(out, Outcome::Failed),
        _ => panic!("a missing campaign link must be fatal"),
    }
}

#[test]
fn a_detail_page_without_table_is_fatal() {
    let mut orch = Orchestrator::new(sample_config(), "T".to_string(), "B".to_string());
    orch = orch.step(Event::IndexHtml(INDEX_HTML.to_string()));
    orch = orch.step(Event::DetailHtml("<p>no table</p>".to_string()));
    match orch.next_action() {
        Action::Exit(out) => assert_eq!(out, Outcome::Failed),
        _ => panic!("a missing content table must be fatal"),
    }
}

#[test]
fn marker_read_failure_is_fatal() {
    let mut orch = Orchestrator::new(sample_config(), "T".to_string(), "B".to_string());
    orch = orch.step(Event::IndexHtml(INDEX_HTML.to_string()));
    orch = orch.step(Event::DetailHtml(DETAIL_HTML.to_string()));
    orch = orch.step(Event::Failed);
    match orch.next_action() {
        Action::Exit(out) => assert_eq!(out, Outcome::Failed),
        _ => panic!("a marker read failure other than not-found must be fatal"),
    }
}
