use transcodarr::failure::{FailureClass, FailureCode, classify_failure};

#[test]
fn nvenc_session_exhaustion_is_transient_not_a_missing_encoder() {
    let (class, code) = classify_failure(
        1,
        None,
        "[hevc_nvenc @ 0x55] OpenEncodeSessionEx failed: out of memory (10)",
    );
    assert_eq!(code, FailureCode::EncoderSessionExhausted);
    assert_eq!(class, FailureClass::Transient);
    assert!(
        !class.excludes_agent(),
        "a busy card must not be excluded -- with one GPU that stops all video work"
    );
    assert!(!class.may_dead_letter());
}

#[test]
fn av1_on_turing_is_capability_drift() {
    // The measured signature: exit 69.
    let (class, code) = classify_failure(69, None, "Failed setup for format cuda");
    assert_eq!(code, FailureCode::DecodeUnsupported);
    assert_eq!(class, FailureClass::CapabilityDrift);
    assert!(
        class.excludes_agent(),
        "the server's model said this node could decode it; it cannot"
    );
}

#[test]
fn a_missing_encoder_is_drift_because_the_model_claimed_it() {
    let (class, code) = classify_failure(1, None, "Unknown encoder 'hevc_nvenc'");
    assert_eq!(code, FailureCode::EncoderUnavailable);
    assert_eq!(class, FailureClass::CapabilityDrift);
}

#[test]
fn signals_are_transient() {
    let (class, code) = classify_failure(0, Some(9), "");
    assert_eq!(code, FailureCode::Killed);
    assert_eq!(class, FailureClass::Transient);
}

#[test]
fn disk_full_is_transient_not_permanent() {
    let (class, code) = classify_failure(
        1,
        None,
        "av_interleaved_write_frame(): No space left on device",
    );
    assert_eq!(code, FailureCode::DiskFull);
    assert_eq!(class, FailureClass::Transient);
}

#[test]
fn a_corrupt_source_is_permanent() {
    let (class, code) = classify_failure(1, None, "Invalid data found when processing input");
    assert_eq!(code, FailureCode::CorruptSource);
    assert_eq!(class, FailureClass::Permanent);
    assert!(class.may_dead_letter());
}

/// The safe default. An unrecognised failure retries rather than being
/// thrown away — a wrong guess costs a retry, the opposite loses work.
#[test]
fn unrecognised_failures_retry_rather_than_dead_letter() {
    let (class, code) = classify_failure(1, None, "something nobody has seen before");
    assert_eq!(code, FailureCode::Unknown);
    assert_eq!(class, FailureClass::Transient);
    assert!(!class.may_dead_letter());
}

#[test]
fn matching_is_case_insensitive() {
    let (_, code) = classify_failure(1, None, "NO SPACE LEFT ON DEVICE");
    assert_eq!(code, FailureCode::DiskFull);
}

/// Session exhaustion must win over the generic NVENC-ish text, or it would
/// be read as the card lacking the encoder and exclude the only GPU node.
#[test]
fn session_exhaustion_is_matched_before_generic_encoder_errors() {
    let (class, code) = classify_failure(
        1,
        None,
        "[hevc_nvenc] No free encoding sessions; Unknown encoder fallback",
    );
    assert_eq!(code, FailureCode::EncoderSessionExhausted);
    assert_eq!(class, FailureClass::Transient);
}
