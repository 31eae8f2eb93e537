use arxiv_dl::fetch::{parse_content_length, source_url, Action, Event, Fetch, FetchError, Phase};

fn fresh() -> Fetch {
    Fetch::new("https://export.arxiv.org/e-print/0704.0001".to_string(), "dl/0704.0001".to_string())
}

#[test]
fn url_of_modern_identifier() {
    assert_eq!(source_url("0704.0001"), "https://export.arxiv.org/e-print/0704.0001");
}

#[test]
fn url_of_legacy_identifier() {
    assert_eq!(source_url("hep-th/9901001v1"), "https://export.arxiv.org/e-print/hep-th/9901001v1");
}

#[test]
fn content_length_values() {
    assert_eq!(parse_content_length("0"), Some(0));
    assert_eq!(parse_content_length("12345"), Some(12345));
    assert_eq!(parse_content_length("18446744073709551615"), Some(u64::MAX));
    assert_eq!(parse_content_length("18446744073709551616"), None);
    assert_eq!(parse_content_length(""), None);
    assert_eq!(parse_content_length("12a"), None);
    assert_eq!(parse_content_length("-1"), None);
    assert_eq!(parse_content_length(" 1"), None);
}

#[test]
fn file_of_declared_size_is_not_fetched_again() {
    let mut f = fresh();
    let a = f.step(Event::Probed { content_length: Some(100), existing_size: 100 });
    assert!(matches!(a, Action::AlreadyDownloaded));
    assert_eq!(f.phase, Phase::Done);
    assert_eq!(f.written, 0);
    assert_eq!(f.downloaded, 0);
}

#[test]
fn file_of_other_size_is_fetched() {
    let mut f = fresh();
    let a = f.step(Event::Probed { content_length: Some(100), existing_size: 40 });
    assert!(matches!(a, Action::SendGet));
    assert_eq!(f.phase, Phase::Get);
    assert_eq!(f.total, 100);
}

#[test]
fn no_declared_size_always_fetches() {
    let mut f = fresh();
    let a = f.step(Event::Probed { content_length: None, existing_size: 0 });
    assert!(matches!(a, Action::SendGet));
    assert_eq!(f.total, 0);
    let mut g = fresh();
    let a = g.step(Event::Probed { content_length: Some(0), existing_size: 0 });
    assert!(matches!(a, Action::SendGet));
}

#[test]
fn full_download_then_refetch_skips() {
    let mut f = fresh();
    assert!(matches!(f.step(Event::Probed { content_length: Some(10), existing_size: 0 }), Action::SendGet));
    assert!(matches!(f.step(Event::Received), Action::CreateFile));
    assert!(matches!(f.step(Event::FileCreated), Action::ReadChunk));
    assert!(matches!(f.step(Event::ChunkWritten { len: 4 }), Action::Progress(4)));
    assert!(matches!(f.step(Event::ChunkWritten { len: 6 }), Action::Progress(10)));
    assert!(matches!(f.step(Event::StreamEnded), Action::Complete));
    assert_eq!(f.phase, Phase::Done);
    assert_eq!(f.written, 10);
    let mut g = fresh();
    let a = g.step(Event::Probed { content_length: Some(f.total), existing_size: f.written });
    assert!(matches!(a, Action::AlreadyDownloaded));
}

#[test]
fn progress_clamped_to_declared_size() {
    let mut f = fresh();
    f.step(Event::Probed { content_length: Some(5), existing_size: 0 });
    f.step(Event::Received);
    f.step(Event::FileCreated);
    assert!(matches!(f.step(Event::ChunkWritten { len: 3 }), Action::Progress(3)));
    assert!(matches!(f.step(Event::ChunkWritten { len: 7 }), Action::Progress(5)));
    assert!(matches!(f.step(Event::ChunkWritten { len: u64::MAX }), Action::Progress(5)));
    assert_eq!(f.downloaded, 5);
    assert_eq!(f.written, u64::MAX);
}

#[test]
fn progress_without_declared_size_stays_zero() {
    let mut f = fresh();
    f.step(Event::Probed { content_length: None, existing_size: 7 });
    f.step(Event::Received);
    f.step(Event::FileCreated);
    assert!(matches!(f.step(Event::ChunkWritten { len: 8 }), Action::Progress(0)));
    assert_eq!(f.written, 8);
}

#[test]
fn probe_failure_names_url() {
    let mut f = fresh();
    match f.step(Event::ProbeFailed) {
        Action::Fail(FetchError::ProbeFailed(u)) => assert_eq!(u, "https://export.arxiv.org/e-print/0704.0001"),
        _ => panic!("expected a probe failure"),
    }
    assert_eq!(f.phase, Phase::Failed);
}

#[test]
fn get_failure_names_url() {
    let mut f = fresh();
    f.step(Event::Probed { content_length: Some(3), existing_size: 0 });
    match f.step(Event::GetFailed) {
        Action::Fail(FetchError::GetFailed(u)) => assert_eq!(u, "https://export.arxiv.org/e-print/0704.0001"),
        _ => panic!("expected a retrieval failure"),
    }
}

#[test]
fn create_failure_names_path() {
    let mut f = fresh();
    f.step(Event::Probed { content_length: Some(3), existing_size: 0 });
    f.step(Event::Received);
    match f.step(Event::FileCreateFailed) {
        Action::Fail(FetchError::FileCreateFailed(p)) => assert_eq!(p, "dl/0704.0001"),
        _ => panic!("expected a creation failure"),
    }
}

#[test]
fn write_failure_names_path() {
    let mut f = fresh();
    f.step(Event::Probed { content_length: Some(3), existing_size: 0 });
    f.step(Event::Received);
    f.step(Event::FileCreated);
    match f.step(Event::WriteFailed) {
        Action::Fail(FetchError::WriteFailed(p)) => assert_eq!(p, "dl/0704.0001"),
        _ => panic!("expected a write failure"),
    }
    assert_eq!(f.phase, Phase::Failed);
}

#[test]
fn event_out_of_phase_is_ignored() {
    let mut f = fresh();
    assert!(matches!(f.step(Event::StreamEnded), Action::Ignore));
    assert!(matches!(f.step(Event::ChunkWritten { len: 3 }), Action::Ignore));
    assert_eq!(f.phase, Phase::Probe);
    assert_eq!(f.written, 0);
}

#[test]
fn body_read_failure_names_url() {
    let mut f = fresh();
    f.step(Event::Probed { content_length: Some(3), existing_size: 0 });
    f.step(Event::Received);
    f.step(Event::FileCreated);
    f.step(Event::ChunkWritten { len: 1 });
    match f.step(Event::GetFailed) {
        Action::Fail(FetchError::GetFailed(u)) => assert_eq!(u, "https://export.arxiv.org/e-print/0704.0001"),
        _ => panic!("expected a retrieval failure"),
    }
    assert_eq!(f.phase, Phase::Failed);
}
