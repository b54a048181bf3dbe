use proofbound_adapter::process::ProcessOutput;
use proofbound_adapter::testing::AdapterError;
use proofbound_adapter::transcription_session::{
    transcription_step, ListingEntry, TranscriptionAction, TranscriptionEvent, TranscriptionPhase,
    TranscriptionRun, TranscriptionState,
};

fn config(operation: &str) -> TranscriptionRun {
    TranscriptionRun {
        operation: operation.to_owned(),
        configured: true,
        driver: "/sealed/tools/driver.py".to_owned(),
        source: "/sealed/data/source.bin".to_owned(),
        source_name: "data/source.bin".to_owned(),
        committed_name: "data/transcription.txt".to_owned(),
        work_root: "/work/trusted-transcription/unit".to_owned(),
        budget_ms: 60_000,
    }
}

fn silent() -> TranscriptionEvent {
    TranscriptionEvent::Ran(Ok(ProcessOutput { status: Some(0), stdout: Vec::new(), stderr: Vec::new(), truncated: false, duration_ms: 1 }))
}

fn tree() -> Vec<ListingEntry> {
    vec![("data".to_owned(), None), ("data/source.bin".to_owned(), Some(b"SRC".to_vec()))]
}

fn file(name: &str, bytes: &[u8]) -> Vec<ListingEntry> {
    vec![(name.to_owned(), Some(bytes.to_vec()))]
}

/// Runs the transcribe stage up to the re-encoder's listing.
fn through_transcribe(c: &TranscriptionRun, candidate: &[u8]) -> (TranscriptionState, TranscriptionAction) {
    let (s, a) = transcription_step(c, 0, TranscriptionState::start(), None);
    assert!(matches!(a, TranscriptionAction::ReadInputs));
    let inputs = TranscriptionEvent::Inputs(Ok((b"SRC".to_vec(), b"TXT".to_vec(), tree())));
    let (s, a) = transcription_step(c, 0, s, Some(inputs));
    match &a {
        TranscriptionAction::Run { spec, .. } => {
            assert_eq!(spec.program, "python3");
            assert_eq!(
                spec.args,
                [
                    "/sealed/tools/driver.py",
                    "transcribe",
                    "--source",
                    "/sealed/data/source.bin",
                    "--output",
                    "/work/trusted-transcription/unit/transcribe/candidate.out"
                ]
            );
        }
        _ => panic!("expected the transcribe stage"),
    }
    let (s, a) = transcription_step(c, 0, s, Some(silent()));
    assert!(matches!(a, TranscriptionAction::ReadStage));
    let stage = TranscriptionEvent::Stage(Ok((tree(), file("candidate.out", candidate), Vec::new())));
    transcription_step(c, 0, s, Some(stage))
}

#[test]
fn exact_round_trip_succeeds() {
    let c = config("check");
    let (s, a) = through_transcribe(&c, b"TXT");
    assert_eq!(s.phase, TranscriptionPhase::Reencode);
    match &a {
        TranscriptionAction::Run { spec, .. } => assert_eq!(spec.args[1], "reencode"),
        _ => panic!("expected the reencode stage"),
    }
    let (s, _) = transcription_step(&c, 0, s, Some(silent()));
    let stage = TranscriptionEvent::Stage(Ok((tree(), file("candidate.out", b"TXT"), file("source.out", b"SRC"))));
    let (_, a) = transcription_step(&c, 0, s, Some(stage));
    match a {
        TranscriptionAction::Respond(Ok(inventory)) => {
            assert_eq!(inventory, ["data/source.bin", "data/transcription.txt"])
        }
        _ => panic!("expected success"),
    }
}

#[test]
fn mismatches_and_stray_outputs_fail() {
    let c = config("check");
    let (_, a) = through_transcribe(&c, b"OTHER");
    assert!(matches!(a, TranscriptionAction::Respond(Err(AdapterError::ToolFailed(m))) if m == "transcribed candidate does not byte-match the exact committed transcription"));

    let (s, _) = through_transcribe(&c, b"TXT");
    let (s, _) = transcription_step(&c, 0, s, Some(silent()));
    let stage = TranscriptionEvent::Stage(Ok((tree(), file("candidate.out", b"TXT"), file("source.out", b"BAD"))));
    let (_, a) = transcription_step(&c, 0, s, Some(stage));
    assert!(matches!(a, TranscriptionAction::Respond(Err(AdapterError::ToolFailed(m))) if m == "re-encoded bytes do not byte-match the exact source"));

    let (s, _) = through_transcribe(&c, b"TXT");
    let (s, _) = transcription_step(&c, 0, s, Some(silent()));
    let mut changed = tree();
    changed.push(("data/extra".to_owned(), Some(Vec::new())));
    let stage = TranscriptionEvent::Stage(Ok((changed, file("candidate.out", b"TXT"), file("source.out", b"SRC"))));
    let (_, a) = transcription_step(&c, 0, s, Some(stage));
    assert!(matches!(a, TranscriptionAction::Respond(Err(AdapterError::ToolFailed(m))) if m == "re-encoder changed files outside its adapter-owned output directory"));

    let (s, _) = transcription_step(&c, 0, TranscriptionState::start(), None);
    let (s, _) = transcription_step(&c, 0, s, Some(TranscriptionEvent::Inputs(Ok((b"SRC".to_vec(), b"TXT".to_vec(), tree())))));
    let (s, _) = transcription_step(&c, 0, s, Some(silent()));
    let stage = TranscriptionEvent::Stage(Ok((tree(), file("stray.txt", b"TXT"), Vec::new())));
    let (_, a) = transcription_step(&c, 0, s, Some(stage));
    assert!(matches!(a, TranscriptionAction::Respond(Err(AdapterError::Inventory(m))) if m == "transcription driver emitted unexpected path `stray.txt`"));

    let (_, a) = transcription_step(&config("update"), 0, TranscriptionState::start(), None);
    assert!(matches!(a, TranscriptionAction::Respond(Err(AdapterError::Request(_)))));

    let (s, _) = transcription_step(&c, 0, TranscriptionState::start(), None);
    let (s, _) = transcription_step(&c, 0, s, Some(TranscriptionEvent::Inputs(Ok((b"SRC".to_vec(), b"TXT".to_vec(), tree())))));
    let noisy = TranscriptionEvent::Ran(Ok(ProcessOutput { status: Some(0), stdout: b"hi".to_vec(), stderr: Vec::new(), truncated: false, duration_ms: 1 }));
    let (_, a) = transcription_step(&c, 0, s, Some(noisy));
    assert!(matches!(a, TranscriptionAction::Respond(Err(AdapterError::Inventory(_)))));
}
