use transcodarr::capability::{DecoderKind, DecoderStatus, DecoderTriple};
use transcodarr::plan::BitDepth;
use transcodarr::probe_caps::{TrialEnd, TrialWatch, run_all, run_one, watch_trial};
use transcodarr::probe_samples::{SampleRun, SampleStep, candidate_samples, is_usable};

fn triple() -> DecoderTriple {
    DecoderTriple {
        codec: "h264".into(),
        profile: String::new(),
        bit_depth: BitDepth::Eight,
        kind: DecoderKind::Nvdec,
    }
}

/// A decode that does not finish is a failed trial, not an error.
#[test]
fn however_a_trial_ends_it_proves_something() {
    let evidence = |end| {
        let c = run_one("ffmpeg", triple(), end);
        assert_eq!(c.status, DecoderStatus::VerifiedFail);
        c.evidence
    };
    assert_eq!(evidence(TrialEnd::NotStarted("no such file".into())), "could not run ffmpeg: no such file");
    assert_eq!(evidence(TrialEnd::TimedOut(30)), "timed out after 30s");
    assert_eq!(evidence(TrialEnd::NotWaited("x".into())), "could not wait on ffmpeg: x");
    assert_eq!(evidence(TrialEnd::NotCollected("y".into())), "could not collect ffmpeg output: y");

    let all = run_all("ffmpeg", vec![(triple(), TrialEnd::TimedOut(1))]);
    assert_eq!(all.len(), 1);
    assert_eq!(watch_trial(false, 10, 30), TrialWatch::Wait);
    assert_eq!(watch_trial(false, 30, 30), TrialWatch::Kill);
    assert_eq!(watch_trial(true, 99, 30), TrialWatch::Collect);
}

/// Every clip is made by its first encoder that is there, checked, and only
/// then moved into place.
#[test]
fn a_clip_is_checked_before_it_is_trusted() {
    let listing = " V....D libx264 x\n V....D libx265 x\n V....D libaom-av1 x\n V....D mpeg2video x\n";
    let mut run = SampleRun::ensure("/s", listing);
    let mut renamed: Vec<String> = Vec::new();
    let mut checked = String::new();
    let mut steps: u32 = 0;
    loop {
        match run.step() {
            SampleStep::Finished => break,
            SampleStep::Inspect(path) => {
                let fresh = path.ends_with(".tmp.mkv");
                if fresh {
                    checked = path;
                }
                run.advance(fresh);
            }
            SampleStep::Encode(argv) => {
                assert!(argv.last().unwrap().ends_with(".tmp.mkv"));
                run.advance(true);
            }
            SampleStep::Rename(from, to) => {
                assert_eq!(from, checked, "only what was checked is moved");
                renamed.push(to);
                run.advance(true);
            }
            SampleStep::Remove(_) => run.advance(true),
        }
        steps += 1;
        assert!(steps < 1_000);
    }
    assert_eq!(run.set.len(), renamed.len());
    assert!(run.current().is_none());
    assert!(!renamed.is_empty());
}

/// A clip that comes out as something else is never trusted, whatever encoder
/// made it.
#[test]
fn a_clip_that_fails_its_check_is_discarded() {
    let listing = " V....D libx264 x\n V....D libx265 x\n";
    let mut run = SampleRun::ensure("/s", listing);
    loop {
        match run.step() {
            SampleStep::Finished => break,
            SampleStep::Inspect(_) => run.advance(false),
            SampleStep::Encode(_) => run.advance(true),
            SampleStep::Rename(_, _) => panic!("nothing was found usable"),
            SampleStep::Remove(_) => run.advance(true),
        }
    }
    assert!(run.set.is_empty());
}

#[test]
fn an_empty_or_unreadable_clip_is_not_usable() {
    let spec = candidate_samples()[0];
    assert!(!is_usable(Some(0), None, &spec));
    assert!(!is_usable(None, None, &spec));
}
