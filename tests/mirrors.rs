use std::collections::HashSet;

use pdb_fetch::mirror::{DownloadOutcome, MirrorAction, MirrorDownload, MirrorEvent};
use pdb_fetch::template::TemplateError;

fn templates() -> Vec<String> {
    vec![
        "https://first.example.org/pdb/%.pdb".to_string(),
        "https://second.example.org/files/%.ent".to_string(),
        "https://third.example.org/data/%.cif".to_string(),
    ]
}

/// Drives a download against a set of saved files and a set of URLs that
/// answer; returns the outcome and the URLs requested.
fn run(
    id: &str,
    templates: Vec<String>,
    saved: &mut HashSet<String>,
    served: &HashSet<String>,
) -> (MirrorAction, Vec<String>) {
    let mut d = MirrorDownload::new(id.to_string(), templates);
    let mut requested = Vec::new();
    loop {
        match d.pending() {
            MirrorAction::Probe { file_name } => {
                let e = if saved.contains(&file_name) {
                    MirrorEvent::Present
                } else {
                    MirrorEvent::Absent
                };
                d.step(e);
            }
            MirrorAction::Fetch { url, file_name } => {
                requested.push(url.clone());
                if served.contains(&url) {
                    saved.insert(file_name);
                    d.step(MirrorEvent::Fetched);
                } else {
                    d.step(MirrorEvent::Missed);
                }
            }
            done => return (done, requested),
        }
    }
}

#[test]
fn mirror_priority_stops_at_first_success() {
    let mut d = MirrorDownload::new("1abc".to_string(), templates());
    assert_eq!(d.pending(), MirrorAction::Probe { file_name: "1abc.pdb".to_string() });
    d.step(MirrorEvent::Absent);
    assert_eq!(
        d.pending(),
        MirrorAction::Fetch {
            url: "https://first.example.org/pdb/1abc.pdb".to_string(),
            file_name: "1abc.pdb".to_string()
        }
    );
    d.step(MirrorEvent::Missed);
    assert_eq!(d.pending(), MirrorAction::Probe { file_name: "1abc.ent".to_string() });
    d.step(MirrorEvent::Absent);
    assert_eq!(
        d.pending(),
        MirrorAction::Fetch {
            url: "https://second.example.org/files/1abc.ent".to_string(),
            file_name: "1abc.ent".to_string()
        }
    );
    d.step(MirrorEvent::Fetched);
    assert!(d.is_done());
    assert_eq!(d.pending(), MirrorAction::Finish(DownloadOutcome::Downloaded));
    d.step(MirrorEvent::Missed);
    d.step(MirrorEvent::Absent);
    assert_eq!(d.pending(), MirrorAction::Finish(DownloadOutcome::Downloaded));
}

#[test]
fn mirror_priority_with_simulated_world() {
    let mut saved = HashSet::new();
    let served: HashSet<String> =
        ["https://second.example.org/files/1abc.ent".to_string()].into_iter().collect();
    let (outcome, requested) = run("1abc", templates(), &mut saved, &served);
    assert_eq!(outcome, MirrorAction::Finish(DownloadOutcome::Downloaded));
    assert_eq!(
        requested,
        vec![
            "https://first.example.org/pdb/1abc.pdb".to_string(),
            "https://second.example.org/files/1abc.ent".to_string()
        ]
    );
}

#[test]
fn second_download_is_already_present_without_requests() {
    let mut saved = HashSet::new();
    let served: HashSet<String> =
        ["https://first.example.org/pdb/1abc.pdb".to_string()].into_iter().collect();
    let (first, r1) = run("1abc", templates(), &mut saved, &served);
    assert_eq!(first, MirrorAction::Finish(DownloadOutcome::Downloaded));
    assert_eq!(r1.len(), 1);
    let (second, r2) = run("1abc", templates(), &mut saved, &served);
    assert_eq!(second, MirrorAction::Finish(DownloadOutcome::AlreadyPresent));
    assert!(r2.is_empty());
}

#[test]
fn all_mirrors_missing_is_not_found() {
    let mut saved = HashSet::new();
    let served = HashSet::new();
    let (outcome, requested) = run("4xyz", templates(), &mut saved, &served);
    assert_eq!(outcome, MirrorAction::Finish(DownloadOutcome::NotFound));
    assert_eq!(requested.len(), 3);
}

#[test]
fn no_templates_is_not_found() {
    let d = MirrorDownload::new("4xyz".to_string(), Vec::new());
    assert!(d.is_done());
    assert_eq!(d.pending(), MirrorAction::Finish(DownloadOutcome::NotFound));
}

#[test]
fn template_without_marker_fails_download() {
    let mut d = MirrorDownload::new(
        "1abc".to_string(),
        vec!["https://first.example.org/pdb/%.pdb".to_string(), "https://x.org/y.pdb".to_string()],
    );
    d.step(MirrorEvent::Absent);
    d.step(MirrorEvent::Missed);
    assert!(d.is_done());
    assert_eq!(d.pending(), MirrorAction::Fail(TemplateError::NoMarker));
}

#[test]
fn unexpected_event_is_ignored() {
    let mut d = MirrorDownload::new("1abc".to_string(), templates());
    d.step(MirrorEvent::Fetched);
    assert_eq!(d.pending(), MirrorAction::Probe { file_name: "1abc.pdb".to_string() });
}
