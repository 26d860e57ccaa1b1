use crossbeam_channel::bounded;

use grafy::language::Language;
use grafy::pipeline::channels::{CallEdge, FileWork, WriteEvent, CHANNEL_BUFFER};

#[test]
fn channels_round_trip() {
    let (tx, rx) = bounded::<FileWork>(CHANNEL_BUFFER);
    tx.send(FileWork { path: "x.rs".into(), language: Language::Rust }).unwrap();
    let got = rx.recv().unwrap();
    assert_eq!(got.path, "x.rs");
    assert_eq!(got.language, Language::Rust);
}

#[test]
fn write_event_carries_all_phases() {
    let (tx, rx) = bounded::<WriteEvent>(CHANNEL_BUFFER);
    tx.send(WriteEvent::Call(CallEdge { caller_fqn: "a::b".into(), callee_fqn: "c::d".into() })).unwrap();
    match rx.recv().unwrap() {
        WriteEvent::Call(e) => {
            assert_eq!(e.caller_fqn, "a::b");
            assert_eq!(e.callee_fqn, "c::d");
        }
        _ => panic!("wrong variant"),
    }
}
