//! The speech stage: the argument list for the synthesis tool, the error
//! kinds of synthesis and playback, and the decision logic that turns the
//! two steps' outcomes into the stage's result.  The synthesis process and
//! the audio playback themselves run outside the library; the synthesized
//! file is deleted afterwards whatever playback did.

use vstd::prelude::*;

verus! {

/// Error of the speech stage, carrying a stable numeric code and a
/// human-readable message.
#[derive(Debug, Clone)]
pub struct SpeechError {
    pub code: i32,
    pub message: String,
}

impl SpeechError {
    pub fn new(code: i32, message: String) -> (e: Self)
        ensures
            e.code == code,
            e.message == message,
    {
        Self { code, message }
    }

    /// The synthesis tool failed to produce the audio file.
    pub fn tts_error() -> (e: Self)
        ensures
            e.code == 1,
            e.message@ == "An error occurred while generating speech."@,
    {
        Self { code: 1, message: String::from_str("An error occurred while generating speech.") }
    }

    /// The synthesis tool ran past its allotted time.
    pub fn timeout_error() -> (e: Self)
        ensures
            e.code == 3,
            e.message@ == "The speech synthesis timed out."@,
    {
        Self { code: 3, message: String::from_str("The speech synthesis timed out.") }
    }

    /// The output device, the file or the decoder failed during playback.
    pub fn playback_error() -> (e: Self)
        ensures
            e.code == 2,
            e.message@ == "An error occurred while playing the audio."@,
    {
        Self { code: 2, message: String::from_str("An error occurred while playing the audio.") }
    }
}

/// The synthesis-and-playback client.
#[derive(Debug, Clone)]
pub struct Speech {
}

impl Speech {
    pub fn new() -> (s: Self)
        ensures
            s == (Speech {  }),
    {
        Self {  }
    }

    /// The well-known path of the synthesized audio file.
    pub fn output_path(&self) -> (r: String)
        ensures
            r@ == "speech.wav"@,
    {
        String::from_str("speech.wav")
    }

    /// The arguments handed to the synthesis tool: the literal text and
    /// the well-known output path.  Each value is a discrete argument of
    /// its own, never spliced into a shell line.
    pub fn tts_args(&self, text: &str) -> (r: Vec<String>)
        ensures
            r@.len() == 4,
            r@[0]@ == "--text"@,
            r@[1]@ == text@,
            r@[2]@ == "--out_path"@,
            r@[3]@ == "speech.wav"@,
    {
        let mut a: Vec<String> = Vec::new();
        a.push(String::from_str("--text"));
        a.push(String::from_str(text));
        a.push(String::from_str("--out_path"));
        a.push(self.output_path());
        a
    }

    /// The temporary path this stage may leave behind.
    pub fn clean_paths(&self) -> (r: Vec<String>)
        ensures
            r@.len() == 1,
            r@[0]@ == "speech.wav"@,
    {
        let mut a: Vec<String> = Vec::new();
        a.push(self.output_path());
        a
    }

    /// The outcome of the speech stage, from what the surroundings
    /// report: whether the synthesis tool ran past its bound, whether it
    /// succeeded and, if it did, whether playback ran to its natural end.
    /// A timed-out synthesis is its own error kind, a failed one the
    /// synthesis error; playback is only reached after synthesis, and its
    /// failure is the playback error.
    pub fn speak_outcome(&self, timed_out: bool, tts_ok: bool, playback_ok: bool) -> (r: Result<
        (),
        SpeechError,
    >)
        ensures
            r matches Ok(u) ==> !timed_out && tts_ok && playback_ok,
            r matches Err(e) ==> {
                &&& !(!timed_out && tts_ok && playback_ok)
                &&& e.code == (if timed_out {
                    3int
                } else if tts_ok {
                    2int
                } else {
                    1int
                })
            },
    {
        if timed_out {
            Err(SpeechError::timeout_error())
        } else if !tts_ok {
            Err(SpeechError::tts_error())
        } else if !playback_ok {
            Err(SpeechError::playback_error())
        } else {
            Ok(())
        }
    }
}

} // verus!
