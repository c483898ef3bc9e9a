use collection_sync::error::error_for_status_code;
use collection_sync::error::guess_reqwest_error;
use collection_sync::error::AnkiError;
use collection_sync::error::NetworkError;
use collection_sync::error::NetworkErrorKind;
use collection_sync::error::NetworkTexts;
use collection_sync::error::SyncError;
use collection_sync::error::SyncErrorKind;
use collection_sync::error::SyncTexts;
use collection_sync::error::TransportFailure;

const ADVICE: &str = "Please force a full sync in the Preferences screen to bring your devices into sync. Then, please use the Check Database feature, and sync to your other devices. If problems persist, please post on the support forum.\n\n";

fn network(info: &str, kind: NetworkErrorKind) -> AnkiError {
    AnkiError::NetworkError { source: NetworkError { info: info.to_string(), kind } }
}

fn sync(info: &str, kind: SyncErrorKind) -> AnkiError {
    AnkiError::SyncError { source: SyncError { info: info.to_string(), kind } }
}

fn sync_texts() -> SyncTexts {
    SyncTexts {
        conflict: "conflict".to_string(),
        server_error: "server error".to_string(),
        client_too_old: "client too old".to_string(),
        wrong_pass: "wrong pass".to_string(),
        resync_required: "resync required".to_string(),
        clock_off: "clock off".to_string(),
        sanity_check_failed: "sanity check failed".to_string(),
        upload_too_large: "upload too large".to_string(),
    }
}

#[test]
fn a_status_has_its_class() {
    let error = |code: u16| error_for_status_code("info".to_string(), code);
    assert_eq!(error(407), network("info", NetworkErrorKind::ProxyAuth));
    assert_eq!(error(409), sync("info", SyncErrorKind::Conflict));
    assert_eq!(error(403), sync("info", SyncErrorKind::AuthFailed));
    assert_eq!(error(501), sync("info", SyncErrorKind::ClientTooOld));
    for code in [500, 502, 503, 504, 505, 599] {
        assert_eq!(error(code), sync("info", SyncErrorKind::ServerError));
    }
    assert_eq!(error(400), sync("info", SyncErrorKind::DatabaseCheckRequired));
    for code in [0, 200, 401, 404, 408, 499, 600, u16::MAX] {
        assert_eq!(error(code), network("info", NetworkErrorKind::Other));
    }
}

#[test]
fn a_failure_without_a_status_is_guessed_from_its_text() {
    let guess = |info: &str| guess_reqwest_error(info.to_string());
    assert_eq!(guess("x dns error: cancelled y"), AnkiError::Interrupted);
    assert_eq!(guess("host unreachable"), network("host unreachable", NetworkErrorKind::Offline));
    assert_eq!(guess("dns error: nx"), network("dns error: nx", NetworkErrorKind::Offline));
    assert_eq!(
        guess("unreachable and timed out"),
        network("unreachable and timed out", NetworkErrorKind::Offline)
    );
    assert_eq!(guess("it timed out"), network("it timed out", NetworkErrorKind::Timeout));
    assert_eq!(
        guess("invalid type: map"),
        sync(&format!("{}invalid type: map", ADVICE), SyncErrorKind::DatabaseCheckRequired)
    );
    assert_eq!(guess("boom"), network("boom", NetworkErrorKind::Other));
    assert_eq!(guess(""), network("", NetworkErrorKind::Other));
}

#[test]
fn a_failure_of_the_transport_is_a_timeout_then_a_status_then_a_guess() {
    let failure = |is_timeout: bool, status: Option<u16>| {
        AnkiError::from_transport_failure(TransportFailure {
            info: "dns".to_string(),
            is_timeout,
            status,
        })
    };
    assert_eq!(failure(true, Some(409)), network("dns", NetworkErrorKind::Timeout));
    assert_eq!(failure(true, None), network("dns", NetworkErrorKind::Timeout));
    assert_eq!(failure(false, Some(409)), sync("dns", SyncErrorKind::Conflict));
    assert_eq!(failure(false, None), network("dns", NetworkErrorKind::Offline));
}

#[test]
fn a_message_of_the_server_is_kept_as_it_came() {
    let err = AnkiError::server_message("come back later".to_string());
    assert_eq!(err, sync("come back later", SyncErrorKind::ServerMessage));
    assert_eq!(
        AnkiError::sync_error("x".to_string(), SyncErrorKind::ClockIncorrect),
        sync("x", SyncErrorKind::ClockIncorrect)
    );
}

#[test]
fn a_failure_of_the_synchronisation_is_told_by_its_kind() {
    let message = |kind: SyncErrorKind| {
        SyncError { info: "info".to_string(), kind }.message(&sync_texts())
    };
    assert_eq!(message(SyncErrorKind::ServerMessage), "info");
    assert_eq!(message(SyncErrorKind::Other), "info");
    assert_eq!(message(SyncErrorKind::Conflict), "conflict");
    assert_eq!(message(SyncErrorKind::ServerError), "server error");
    assert_eq!(message(SyncErrorKind::ClientTooOld), "client too old");
    assert_eq!(message(SyncErrorKind::AuthFailed), "wrong pass");
    assert_eq!(message(SyncErrorKind::ResyncRequired), "resync required");
    assert_eq!(message(SyncErrorKind::ClockIncorrect), "clock off");
    assert_eq!(message(SyncErrorKind::DatabaseCheckRequired), "sanity check failed");
    assert_eq!(
        message(SyncErrorKind::SanityCheckFailed { client: None, server: None }),
        "sanity check failed"
    );
    assert_eq!(message(SyncErrorKind::SyncNotStarted), "sync not started");
    assert_eq!(message(SyncErrorKind::UploadTooLarge), "upload too large");
}

#[test]
fn a_failure_of_the_network_is_told_with_its_details() {
    let texts = NetworkTexts {
        offline: "offline".to_string(),
        timeout: "timeout".to_string(),
        proxy_auth: "proxy".to_string(),
        other: "other".to_string(),
        details: "details: info".to_string(),
    };
    let message =
        |kind: NetworkErrorKind| NetworkError { info: "info".to_string(), kind }.message(&texts);
    assert_eq!(message(NetworkErrorKind::Offline), "offline\n\ndetails: info");
    assert_eq!(message(NetworkErrorKind::Timeout), "timeout\n\ndetails: info");
    assert_eq!(message(NetworkErrorKind::ProxyAuth), "proxy\n\ndetails: info");
    assert_eq!(message(NetworkErrorKind::Other), "other\n\ndetails: info");
}
