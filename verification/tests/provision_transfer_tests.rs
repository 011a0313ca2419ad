use modsync::provision::{apply_provision, plan_provision, ProvisionState};
use modsync::transfer::{DownloadError, DownloadTracker};

#[test]
fn provisioning_skipped_when_launcher_present() {
    let s = ProvisionState { launcher_present: true, config_present: false, script_present: false };
    let plan = plan_provision(&s);
    assert!(!plan.download_and_extract);
    assert!(!plan.write_config);
    assert!(!plan.write_script);
}

#[test]
fn provisioning_downloads_and_writes_missing_files() {
    let s = ProvisionState {
        launcher_present: false,
        config_present: false,
        script_present: false,
    };
    let plan = plan_provision(&s);
    assert!(plan.download_and_extract);
    assert!(plan.write_config);
    assert!(plan.write_script);
}

#[test]
fn provisioning_preserves_existing_companion_files() {
    let s = ProvisionState { launcher_present: false, config_present: true, script_present: true };
    let plan = plan_provision(&s);
    assert!(plan.download_and_extract);
    assert!(!plan.write_config);
    assert!(!plan.write_script);
}

#[test]
fn second_provisioning_run_does_nothing() {
    // after any successful run the binary exists, so a re-run performs no
    // network request and rewrites no companion file
    for launcher in [false, true] {
        for config in [false, true] {
            for script in [false, true] {
                let s = ProvisionState {
                    launcher_present: launcher,
                    config_present: config,
                    script_present: script,
                };
                let after = apply_provision(&s, &plan_provision(&s));
                let second = plan_provision(&after);
                assert!(!second.download_and_extract);
                assert!(!second.write_config);
                assert!(!second.write_script);
            }
        }
    }
}

#[test]
fn truncated_download_is_rejected() {
    // declared length 1000, stream ends after 500 bytes
    let mut t = DownloadTracker::new(1000);
    t.on_chunk(500);
    assert_eq!(t.position(), 500);
    assert_eq!(t.finish(), Err(DownloadError::Truncated));
}

#[test]
fn complete_download_is_accepted() {
    let mut t = DownloadTracker::new(1000);
    t.on_chunk(600);
    t.on_chunk(400);
    assert_eq!(t.position(), 1000);
    assert_eq!(t.finish(), Ok(()));
}

#[test]
fn overlong_download_is_rejected_and_position_clamped() {
    let mut t = DownloadTracker::new(1000);
    t.on_chunk(900);
    t.on_chunk(200);
    assert_eq!(t.position(), 1000);
    assert_eq!(t.finish(), Err(DownloadError::Overrun));
}

#[test]
fn empty_download_of_zero_length_is_complete() {
    let t = DownloadTracker::new(0);
    assert_eq!(t.finish(), Ok(()));
}

#[test]
fn download_error_messages_name_the_failure() {
    assert_eq!(DownloadError::StreamRead.message(), "Error while downloading file");
    assert_eq!(DownloadError::FileWrite.message(), "Error while writing to file");
    assert_eq!(DownloadError::MissingLength.message(), "Failed to get content length");
    assert_eq!(
        DownloadError::Truncated.message(),
        "Download ended before the declared length"
    );
}
