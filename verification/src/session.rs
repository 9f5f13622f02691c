//! The session state machine.  A session runs the four stages once, in
//! order: capture, transcription, generation, speech.  The machine here
//! decides every transition; the surroundings only perform the external
//! work a state calls for and feed the outcome back as an event.
//!
//! A failure of the first three stages ends the session in a failed
//! state and no later stage runs.  A failure of the speech stage does
//! not: the transcript and the generated text were already surfaced, so
//! the session still completes, with the speech failure recorded beside
//! the result.  The temporary files are removed at the end of the
//! session whatever the outcome, and removing them is idempotent.

use vstd::prelude::*;
use crate::ollama::{OllamaError, OllamaGenerationResponse};
use crate::speech::SpeechError;
use crate::whisper::{WhisperError, WhisperTranscriptionResponse};

verus! {

/// The stage a failure happened in.
#[derive(Debug, Clone, Copy, PartialEq, Eq, Structural)]
pub enum Stage {
    Listening,
    Transcribing,
    Generating,
    Speaking,
}

/// Where a session stands.
#[derive(Debug)]
pub enum SessionState {
    /// Nothing has happened yet.
    Idle,
    /// The capture tool is recording.
    Listening,
    /// A clip exists and the transcription tool is running.
    Transcribing,
    /// A transcript exists and the generation request is under way.
    Generating { prompt: String },
    /// A reply exists and is being synthesized and played.
    Speaking { prompt: String, response: String },
    /// The session is over; the reply stands whatever the speech stage
    /// did, and a speech failure is recorded beside it by its code.
    Done { prompt: String, response: String, speech_failure: Option<i32> },
    /// A stage before the speech stage failed; the session is over with
    /// no reply.
    Failed { stage: Stage, code: i32 },
}

/// What the surroundings report back after each stage.
#[derive(Debug)]
pub enum SessionEvent {
    /// The session was started; the input device's name, if any, was
    /// reported to the user, and its absence is not fatal here.
    Started,
    /// The capture stage ended with this outcome.
    Captured { outcome: Result<String, WhisperError> },
    /// The transcription stage ended with this outcome.
    Transcribed { outcome: Result<WhisperTranscriptionResponse, WhisperError> },
    /// The generation stage ended with this outcome.
    Generated { outcome: Result<OllamaGenerationResponse, OllamaError> },
    /// The speech stage ended with this outcome.
    Spoke { outcome: Result<(), SpeechError> },
}

/// The one transition of the machine.  Each state accepts the event of
/// its own stage; a terminal state, and a state given another stage's
/// event, stays as it is.
pub open spec fn spec_step(s: SessionState, e: SessionEvent) -> SessionState {
    match (s, e) {
        (SessionState::Idle, SessionEvent::Started) => SessionState::Listening,
        (SessionState::Listening, SessionEvent::Captured { outcome }) => match outcome {
            Ok(_) => SessionState::Transcribing,
            Err(err) => SessionState::Failed { stage: Stage::Listening, code: err.code },
        },
        (SessionState::Transcribing, SessionEvent::Transcribed { outcome }) => match outcome {
            Ok(t) => SessionState::Generating { prompt: t.text },
            Err(err) => SessionState::Failed { stage: Stage::Transcribing, code: err.code },
        },
        (SessionState::Generating { prompt }, SessionEvent::Generated { outcome }) => match outcome {
            Ok(g) => SessionState::Speaking { prompt, response: g.response },
            Err(err) => SessionState::Failed { stage: Stage::Generating, code: err.code },
        },
        (SessionState::Speaking { prompt, response }, SessionEvent::Spoke { outcome }) => match outcome {
            Ok(u) => SessionState::Done { prompt, response, speech_failure: None },
            Err(err) => SessionState::Done { prompt, response, speech_failure: Some(err.code) },
        },
        (other, _) => other,
    }
}

/// Drives the session one event forward, as `spec_step` says.
pub fn step(s: SessionState, e: SessionEvent) -> (n: SessionState)
    ensures
        n == spec_step(s, e),
{
    match (s, e) {
        (SessionState::Idle, SessionEvent::Started) => SessionState::Listening,
        (SessionState::Listening, SessionEvent::Captured { outcome }) => match outcome {
            Ok(_) => SessionState::Transcribing,
            Err(err) => SessionState::Failed { stage: Stage::Listening, code: err.code },
        },
        (SessionState::Transcribing, SessionEvent::Transcribed { outcome }) => match outcome {
            Ok(t) => SessionState::Generating { prompt: t.text },
            Err(err) => SessionState::Failed { stage: Stage::Transcribing, code: err.code },
        },
        (SessionState::Generating { prompt }, SessionEvent::Generated { outcome }) => match outcome {
            Ok(g) => SessionState::Speaking { prompt, response: g.response },
            Err(err) => SessionState::Failed { stage: Stage::Generating, code: err.code },
        },
        (SessionState::Speaking { prompt, response }, SessionEvent::Spoke { outcome }) => match outcome {
            Ok(_) => SessionState::Done { prompt, response, speech_failure: None },
            Err(err) => SessionState::Done { prompt, response, speech_failure: Some(err.code) },
        },
        (other, _) => other,
    }
}

/// A terminal state absorbs every further event: once a session is done
/// or failed, nothing more runs.
pub proof fn lemma_terminal_absorbing(s: SessionState, e: SessionEvent)
    requires
        s is Done || s is Failed,
    ensures
        spec_step(s, e) == s,
{
}

/// A session whose four stages all succeed ends done, with the
/// transcript as the prompt, the generated text as the response, and no
/// speech failure recorded.
pub proof fn lemma_session_success(
    clip: String,
    t: WhisperTranscriptionResponse,
    g: OllamaGenerationResponse,
)
    ensures
        spec_step(
            spec_step(
                spec_step(
                    spec_step(
                        spec_step(SessionState::Idle, SessionEvent::Started),
                        SessionEvent::Captured { outcome: Ok(clip) },
                    ),
                    SessionEvent::Transcribed { outcome: Ok(t) },
                ),
                SessionEvent::Generated { outcome: Ok(g) },
            ),
            SessionEvent::Spoke { outcome: Ok(()) },
        ) == (SessionState::Done {
            prompt: t.text,
            response: g.response,
            speech_failure: None,
        }),
{
}

/// A session whose capture fails ends failed in the listening stage with
/// that failure's code, and every later event leaves it there: the
/// transcription, generation and speech stages never run.
pub proof fn lemma_session_capture_failure(e: WhisperError, later: SessionEvent)
    ensures
        spec_step(
            spec_step(SessionState::Idle, SessionEvent::Started),
            SessionEvent::Captured { outcome: Err(e) },
        ) == (SessionState::Failed { stage: Stage::Listening, code: e.code }),
        spec_step(
            (SessionState::Failed { stage: Stage::Listening, code: e.code }),
            later,
        ) == (SessionState::Failed { stage: Stage::Listening, code: e.code }),
{
}

/// A session whose speech stage fails still ends done, not failed: the
/// prompt and the response stand, and only the speech failure's code is
/// recorded beside them.
pub proof fn lemma_session_speech_failure(prompt: String, response: String, e: SpeechError)
    ensures
        spec_step(
            (SessionState::Speaking { prompt, response }),
            SessionEvent::Spoke { outcome: Err(e) },
        ) == (SessionState::Done {
            prompt,
            response,
            speech_failure: Some(e.code),
        }),
        !(spec_step(
            (SessionState::Speaking { prompt, response }),
            SessionEvent::Spoke { outcome: Err(e) },
        ) is Failed),
{
}

/// The temporary files a session may leave on disk.
pub open spec fn session_artifacts() -> Set<Seq<char>> {
    set!["temp.mp3"@, "temp.json"@, "logs"@, "speech.wav"@]
}

/// A directory's contents after the session's cleanup: the temporary
/// files are gone and nothing else is touched.
pub open spec fn cleaned(files: Set<Seq<char>>) -> Set<Seq<char>> {
    files.difference(session_artifacts())
}

/// Cleanup is idempotent: running it again, for instance on a directory
/// it already emptied, changes nothing and so cannot fail.
pub proof fn lemma_cleanup_idempotent(files: Set<Seq<char>>)
    ensures
        cleaned(cleaned(files)) == cleaned(files),
{
    assert(cleaned(cleaned(files)) =~= cleaned(files));
}

/// Cleanup leaves no session artifact behind.
pub proof fn lemma_cleanup_removes_artifacts(files: Set<Seq<char>>)
    ensures
        forall|p: Seq<char>| session_artifacts().contains(p) ==> !cleaned(files).contains(p),
{
}

/// The paths the session's cleanup removes, in the order they are
/// removed: the capture stage's files first, then the speech stage's.
pub fn cleanup_paths() -> (r: Vec<String>)
    ensures
        r@.len() == 4,
        r@[0]@ == "temp.mp3"@,
        r@[1]@ == "temp.json"@,
        r@[2]@ == "logs"@,
        r@[3]@ == "speech.wav"@,
{
    let w = crate::whisper::Whisper::new();
    let s = crate::speech::Speech::new();
    let mut a = w.clean_paths();
    let mut b = s.clean_paths();
    a.append(&mut b);
    a
}

} // verus!
