use voice_pipeline::ollama::{Ollama, OllamaError};
use voice_pipeline::session::{cleanup_paths, step, SessionEvent, SessionState, Stage};
use voice_pipeline::speech::{Speech, SpeechError};
use voice_pipeline::whisper::{Whisper, WhisperError};

#[test]
fn error_codes_and_messages() {
    let e = WhisperError::new(9, String::from("custom"));
    assert_eq!(e.code, 9);
    assert_eq!(e.message, "custom");
    let e = WhisperError::no_default_input_device();
    assert_eq!(e.code, 1);
    assert_eq!(e.message, "No default input device found.");
    let e = WhisperError::recording_error();
    assert_eq!(e.code, 2);
    assert_eq!(e.message, "An error occurred while recording.");
    let e = WhisperError::transcription_error();
    assert_eq!(e.code, 3);
    assert_eq!(e.message, "An error occurred while transcribing.");
    let e = WhisperError::timeout_error();
    assert_eq!(e.code, 4);
    assert_eq!(e.message, "The external tool timed out.");
    let e = OllamaError::new(4, String::from("o"));
    assert_eq!(e.code, 4);
    let e = OllamaError::generation_error();
    assert_eq!(e.code, 1);
    assert_eq!(e.message, "An error occurred while generating the text.");
    let e = OllamaError::timeout_error();
    assert_eq!(e.code, 2);
    assert_eq!(e.message, "The request to the language model timed out.");
    let e = SpeechError::new(7, String::from("s"));
    assert_eq!(e.code, 7);
    let e = SpeechError::tts_error();
    assert_eq!(e.code, 1);
    assert_eq!(e.message, "An error occurred while generating speech.");
    let e = SpeechError::playback_error();
    assert_eq!(e.code, 2);
    assert_eq!(e.message, "An error occurred while playing the audio.");
    let e = SpeechError::timeout_error();
    assert_eq!(e.code, 3);
    assert_eq!(e.message, "The speech synthesis timed out.");
}

#[test]
fn listen_outcome_cases() {
    let w = Whisper::new();
    assert_eq!(w.listen_outcome(true, false, true, true).unwrap(), "temp.mp3");
    assert_eq!(w.listen_outcome(false, false, true, true).unwrap_err().code, 1);
    assert_eq!(w.listen_outcome(true, true, false, false).unwrap_err().code, 4);
    assert_eq!(w.listen_outcome(true, false, false, true).unwrap_err().code, 2);
    assert_eq!(w.listen_outcome(true, false, true, false).unwrap_err().code, 2);
}

#[test]
fn transcribe_outcome_cases() {
    let w = Whisper::new();
    let good = String::from("{\"text\":\"hello world\",\"language\":\"en\"}");
    let t = w.transcribe_outcome(false, true, Some(good.clone())).unwrap();
    assert_eq!(t.text, "hello world");
    assert_eq!(t.language, "en");
    assert_eq!(w.transcribe_outcome(true, true, Some(good.clone())).unwrap_err().code, 4);
    assert_eq!(w.transcribe_outcome(false, false, Some(good)).unwrap_err().code, 3);
    assert_eq!(w.transcribe_outcome(false, true, None).unwrap_err().code, 3);
    let bad = String::from("tool crashed mid-write");
    assert_eq!(w.transcribe_outcome(false, true, Some(bad)).unwrap_err().code, 3);
}

#[test]
fn generate_outcome_cases() {
    let o = Ollama::new();
    let good = String::from("{\"model\":\"m\",\"response\":\"r\"}");
    let g = o.generate_outcome(false, true, true, Some(good.clone())).unwrap();
    assert_eq!(g.model, "m");
    assert_eq!(g.response, "r");
    assert_eq!(o.generate_outcome(true, false, false, None).unwrap_err().code, 2);
    assert_eq!(o.generate_outcome(false, false, false, None).unwrap_err().code, 1);
    assert_eq!(o.generate_outcome(false, true, false, Some(good)).unwrap_err().code, 1);
    assert_eq!(o.generate_outcome(false, true, true, None).unwrap_err().code, 1);
    let bad = String::from("<html>502</html>");
    assert_eq!(o.generate_outcome(false, true, true, Some(bad)).unwrap_err().code, 1);
}

#[test]
fn speak_outcome_cases() {
    let s = Speech::new();
    assert!(s.speak_outcome(false, true, true).is_ok());
    assert_eq!(s.speak_outcome(true, false, false).unwrap_err().code, 3);
    assert_eq!(s.speak_outcome(false, false, true).unwrap_err().code, 1);
    assert_eq!(s.speak_outcome(false, false, false).unwrap_err().code, 1);
    assert_eq!(s.speak_outcome(false, true, false).unwrap_err().code, 2);
}

#[test]
fn listen_and_transcribe_composition() {
    let w = Whisper::new();
    let good = String::from("{\"text\":\"hello\",\"language\":\"en\"}");
    let t = w
        .listen_and_transcribe(true, false, true, true, false, true, Some(good.clone()))
        .unwrap();
    assert_eq!(t.text, "hello");
    assert_eq!(
        w.listen_and_transcribe(false, false, true, true, false, true, Some(good.clone()))
            .unwrap_err()
            .code,
        1
    );
    assert_eq!(
        w.listen_and_transcribe(true, true, false, false, false, true, Some(good.clone()))
            .unwrap_err()
            .code,
        4
    );
    assert_eq!(
        w.listen_and_transcribe(true, false, false, true, false, true, Some(good.clone()))
            .unwrap_err()
            .code,
        2
    );
    assert_eq!(
        w.listen_and_transcribe(true, false, true, true, true, false, Some(good.clone()))
            .unwrap_err()
            .code,
        4
    );
    assert_eq!(
        w.listen_and_transcribe(true, false, true, true, false, false, Some(good))
            .unwrap_err()
            .code,
        3
    );
}

#[test]
fn cleanup_path_list() {
    let paths = cleanup_paths();
    assert_eq!(paths, vec!["temp.mp3", "temp.json", "logs", "speech.wav"]);
    // A second round of cleanup removes the same, already absent, paths.
    assert_eq!(cleanup_paths(), paths);
}

#[test]
fn first_host_input_device_cases() {
    let w = Whisper::new();
    assert_eq!(w.first_host_input_device(vec![]), None);
    assert_eq!(
        w.first_host_input_device(vec![Some(String::from("mic"))]),
        Some(String::from("mic"))
    );
    assert_eq!(
        w.first_host_input_device(vec![None, Some(String::from("other"))]),
        None
    );
}

#[test]
fn session_all_stages_succeed() {
    let w = Whisper::new();
    let o = Ollama::new();
    let s = Speech::new();
    let st = step(SessionState::Idle, SessionEvent::Started);
    assert!(matches!(st, SessionState::Listening));
    let st = step(
        st,
        SessionEvent::Captured { outcome: w.listen_outcome(true, false, true, true) },
    );
    assert!(matches!(st, SessionState::Transcribing));
    let result_file = String::from("{\"text\":\"hello world\",\"language\":\"en\"}");
    let st = step(
        st,
        SessionEvent::Transcribed { outcome: w.transcribe_outcome(false, true, Some(result_file)) },
    );
    assert!(
        matches!(st, SessionState::Generating { ref prompt } if prompt == "hello world")
    );
    let resp = String::from("{\"model\":\"gemma\",\"response\":\"Hi there!\"}");
    let st = step(
        st,
        SessionEvent::Generated { outcome: o.generate_outcome(false, true, true, Some(resp)) },
    );
    assert!(matches!(
        st,
        SessionState::Speaking { ref prompt, ref response }
            if prompt == "hello world" && response == "Hi there!"
    ));
    let st = step(st, SessionEvent::Spoke { outcome: s.speak_outcome(false, true, true) });
    assert!(matches!(
        st,
        SessionState::Done { ref prompt, ref response, speech_failure: None }
            if prompt == "hello world" && response == "Hi there!"
    ));
}

#[test]
fn session_capture_failure_is_terminal() {
    let w = Whisper::new();
    let st = step(SessionState::Idle, SessionEvent::Started);
    let st = step(
        st,
        SessionEvent::Captured { outcome: w.listen_outcome(true, false, false, false) },
    );
    assert!(matches!(st, SessionState::Failed { stage: Stage::Listening, code: 2 }));
    // A later event leaves the failed session where it is: the
    // generation and speech stages are never reached.
    let st = step(
        st,
        SessionEvent::Generated { outcome: Err(OllamaError::generation_error()) },
    );
    assert!(matches!(st, SessionState::Failed { stage: Stage::Listening, code: 2 }));
}

#[test]
fn session_speech_failure_keeps_result() {
    let s = Speech::new();
    let st = SessionState::Speaking {
        prompt: String::from("hello world"),
        response: String::from("Hi there!"),
    };
    let st = step(st, SessionEvent::Spoke { outcome: s.speak_outcome(false, false, false) });
    assert!(matches!(
        st,
        SessionState::Done { ref response, speech_failure: Some(1), .. }
            if response == "Hi there!"
    ));
    assert!(!matches!(st, SessionState::Failed { .. }));
}

#[test]
fn session_no_device_failure() {
    let w = Whisper::new();
    let st = step(SessionState::Idle, SessionEvent::Started);
    let st = step(
        st,
        SessionEvent::Captured { outcome: w.listen_outcome(false, false, true, true) },
    );
    assert!(matches!(st, SessionState::Failed { stage: Stage::Listening, code: 1 }));
}
