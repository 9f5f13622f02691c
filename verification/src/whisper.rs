//! Capture and transcription: the argument lists for the recording and
//! transcription tools, the error kinds of this stage, and the decision
//! logic that turns the tools' outcomes into a transcription result.

use vstd::prelude::*;
use crate::json::{
    decimal_of, decimal_string, lemma_parse_two_field_object, parse_two_fields, quoted,
};

verus! {

/// Error of the capture/transcription stage, carrying a stable numeric
/// code and a human-readable message.
#[derive(Debug, Clone)]
pub struct WhisperError {
    pub code: i32,
    pub message: String,
}

impl WhisperError {
    pub fn new(code: i32, message: String) -> (e: Self)
        ensures
            e.code == code,
            e.message == message,
    {
        Self { code, message }
    }

    /// No default input device was discoverable at capture time.
    pub fn no_default_input_device() -> (e: Self)
        ensures
            e.code == 1,
            e.message@ == "No default input device found."@,
    {
        Self { code: 1, message: String::from_str("No default input device found.") }
    }

    /// The capture tool was missing, crashed, or was denied the device.
    pub fn recording_error() -> (e: Self)
        ensures
            e.code == 2,
            e.message@ == "An error occurred while recording."@,
    {
        Self { code: 2, message: String::from_str("An error occurred while recording.") }
    }

    /// The capture or transcription tool ran past its allotted time.
    pub fn timeout_error() -> (e: Self)
        ensures
            e.code == 4,
            e.message@ == "The external tool timed out."@,
    {
        Self { code: 4, message: String::from_str("The external tool timed out.") }
    }

    /// The transcription tool failed, or its result file was missing or
    /// unreadable or malformed.
    pub fn transcription_error() -> (e: Self)
        ensures
            e.code == 3,
            e.message@ == "An error occurred while transcribing."@,
    {
        Self { code: 3, message: String::from_str("An error occurred while transcribing.") }
    }
}

/// A capture-and-transcription request: how long to record and which
/// model size to transcribe with.
#[derive(Debug, Clone)]
pub struct WhisperListenBody {
    pub model: String,
    pub duration: i32,
}

/// A transcription: the recognised text and the detected language code.
#[derive(Debug, Clone)]
pub struct WhisperTranscriptionResponse {
    pub text: String,
    pub language: String,
}

/// What the result-file parser recognises: a flat object holding `text`
/// and `language` string fields.
pub open spec fn spec_parse_transcription(s: Seq<char>) -> Option<(Seq<char>, Seq<char>)> {
    parse_two_fields(s, "text"@, "language"@)
}

/// The canonical JSON text of a transcription result.
pub open spec fn transcription_json(text: Seq<char>, language: Seq<char>) -> Seq<char> {
    seq!['{'] + quoted("text"@) + seq![':'] + quoted(text) + seq![','] + quoted("language"@)
        + seq![':'] + quoted(language) + seq!['}']
}

/// A transcription result written in the canonical form reads back as
/// exactly its text and its language.
pub proof fn lemma_transcription_roundtrip(text: Seq<char>, language: Seq<char>)
    ensures
        spec_parse_transcription(transcription_json(text, language)) == Some((text, language)),
{
    reveal_strlit("text");
    reveal_strlit("language");
    assert("text"@.len() != "language"@.len());
    lemma_parse_two_field_object("text"@, text, "language"@, language);
}

/// Whether `s` ends in the audio-clip suffix `.mp3`.
pub open spec fn has_clip_suffix(s: Seq<char>) -> bool {
    s.len() >= 4 && s.skip(s.len() - 4) == ".mp3"@
}

/// The capture and transcription client.
#[derive(Debug, Clone)]
pub struct Whisper {
}

impl Whisper {
    pub fn new() -> (w: Self)
        ensures
            w == (Whisper {  }),
    {
        Self {  }
    }

    /// The well-known path of the captured clip.
    pub fn clip_path(&self) -> (r: String)
        ensures
            r@ == "temp.mp3"@,
    {
        String::from_str("temp.mp3")
    }

    /// The arguments handed to the capture tool: record from the default
    /// input device for `duration` seconds into the well-known clip path.
    /// Each value is a discrete argument of its own, never spliced into a
    /// shell line.
    pub fn listen_args(&self, duration: i32) -> (r: Vec<String>)
        requires
            0 < duration,
        ensures
            r@.len() == 7,
            r@[0]@ == "-f"@,
            r@[1]@ == "avfoundation"@,
            r@[2]@ == "-i"@,
            r@[3]@ == ":0"@,
            r@[4]@ == "-t"@,
            r@[5]@ == decimal_of(duration as nat),
            r@[6]@ == "temp.mp3"@,
    {
        let mut a: Vec<String> = Vec::new();
        a.push(String::from_str("-f"));
        a.push(String::from_str("avfoundation"));
        a.push(String::from_str("-i"));
        a.push(String::from_str(":0"));
        a.push(String::from_str("-t"));
        a.push(decimal_string(duration as u32));
        a.push(String::from_str("temp.mp3"));
        a
    }

    /// The outcome of the capture stage, from what the surroundings
    /// report: whether a default input device was found, whether the
    /// capture tool ran past its bound, whether it succeeded, and whether
    /// the clip file it was to write exists with content.  A clip is
    /// returned only when all of that held, so a returned clip never
    /// points at a missing or empty file.
    pub fn listen_outcome(
        &self,
        device_present: bool,
        timed_out: bool,
        tool_ok: bool,
        clip_written: bool,
    ) -> (r: Result<String, WhisperError>)
        ensures
            r matches Ok(p) ==> device_present && !timed_out && tool_ok && clip_written && p@
                == "temp.mp3"@,
            r matches Err(e) ==> {
                &&& !(device_present && !timed_out && tool_ok && clip_written)
                &&& e.code == (if !device_present {
                    1int
                } else if timed_out {
                    4int
                } else {
                    2int
                })
            },
    {
        if !device_present {
            Err(WhisperError::no_default_input_device())
        } else if timed_out {
            Err(WhisperError::timeout_error())
        } else if !tool_ok || !clip_written {
            Err(WhisperError::recording_error())
        } else {
            Ok(self.clip_path())
        }
    }

    /// The arguments handed to the transcription tool: the clip, the
    /// model size, and the instruction to write its result as JSON.
    pub fn transcribe_args(&self, path: &str, model: &str) -> (r: Vec<String>)
        ensures
            r@.len() == 6,
            r@[0]@ == "audio"@,
            r@[1]@ == path@,
            r@[2]@ == "--model"@,
            r@[3]@ == model@,
            r@[4]@ == "--output_format"@,
            r@[5]@ == "json"@,
    {
        let mut a: Vec<String> = Vec::new();
        a.push(String::from_str("audio"));
        a.push(String::from_str(path));
        a.push(String::from_str("--model"));
        a.push(String::from_str(model));
        a.push(String::from_str("--output_format"));
        a.push(String::from_str("json"));
        a
    }

    /// Where the transcription tool writes its result: the clip path with
    /// the `.mp3` suffix swapped for `.json`; a path without that suffix
    /// stays as it is.
    pub fn json_result_path(&self, path: &str) -> (r: String)
        ensures
            has_clip_suffix(path@) ==> r@ == path@.take(path@.len() - 4) + ".json"@,
            !has_clip_suffix(path@) ==> r@ == path@,
    {
        proof {
            reveal_strlit(".mp3");
        }
        let n: usize = path.unicode_len();
        if n < 4 {
            proof {
                assert(!has_clip_suffix(path@));
            }
            return String::from_str(path);
        }
        if path.get_char(n - 4) == '.' && path.get_char(n - 3) == 'm' && path.get_char(n - 2)
            == 'p' && path.get_char(n - 1) == '3' {
            proof {
                assert(path@.skip(path@.len() - 4) =~= ".mp3"@);
            }
            let stem = path.substring_char(0, n - 4);
            let mut out = String::from_str(stem);
            out.append(".json");
            proof {
                assert(path@.subrange(0, path@.len() - 4) =~= path@.take(path@.len() - 4));
            }
            out
        } else {
            proof {
                assert(path@.skip(path@.len() - 4) != ".mp3"@) by {
                    if path@.skip(path@.len() - 4) == ".mp3"@ {
                        assert(path@.skip(path@.len() - 4)[0] == '.');
                        assert(path@.skip(path@.len() - 4)[1] == 'm');
                        assert(path@.skip(path@.len() - 4)[2] == 'p');
                        assert(path@.skip(path@.len() - 4)[3] == '3');
                    }
                }
            }
            String::from_str(path)
        }
    }

    /// Reads a result file's content; `None` where it is not a flat
    /// object holding `text` and `language` string fields.
    pub fn parse_transcription(&self, s: &str) -> (r: Option<WhisperTranscriptionResponse>)
        ensures
            r matches Some(t) ==> spec_parse_transcription(s@) == Some((t.text@, t.language@)),
            r is None ==> spec_parse_transcription(s@) is None,
    {
        proof {
            reveal_strlit("text");
            reveal_strlit("language");
            assert("text"@.len() != "language"@.len());
        }
        match crate::json::parse_two_string_fields(s, "text", "language") {
            Some((t, l)) => Some(WhisperTranscriptionResponse { text: t, language: l }),
            None => None,
        }
    }

    /// The outcome of the transcription stage, from what the
    /// surroundings report: whether the tool ran past its bound, whether
    /// it succeeded, and the result file's content if one could be read.
    /// A timed-out tool is its own error kind; a failed tool, a missing
    /// file and a malformed file collapse into the one transcription
    /// error.
    pub fn transcribe_outcome(
        &self,
        timed_out: bool,
        tool_ok: bool,
        result_file: Option<String>,
    ) -> (r: Result<WhisperTranscriptionResponse, WhisperError>)
        ensures
            r matches Ok(t) ==> !timed_out && tool_ok && (result_file matches Some(f)
                && spec_parse_transcription(f@) == Some((t.text@, t.language@))),
            r matches Err(e) ==> e.code == (if timed_out {
                4int
            } else {
                3int
            }) && (!timed_out ==> !tool_ok || result_file is None || (result_file matches Some(f)
                && spec_parse_transcription(f@) is None)),
    {
        if timed_out {
            return Err(WhisperError::timeout_error());
        }
        if !tool_ok {
            return Err(WhisperError::transcription_error());
        }
        match result_file {
            None => Err(WhisperError::transcription_error()),
            Some(f) => match self.parse_transcription(f.as_str()) {
                Some(t) => Ok(t),
                None => Err(WhisperError::transcription_error()),
            },
        }
    }

    /// The capture stage followed by the transcription stage: a capture
    /// failure is returned at once and the transcription inputs are then
    /// not read; only a captured clip is transcribed.  Cleanup of the
    /// temporary files is the session's duty, not this function's.
    pub fn listen_and_transcribe(
        &self,
        device_present: bool,
        capture_timed_out: bool,
        capture_ok: bool,
        clip_written: bool,
        transcribe_timed_out: bool,
        transcriber_ok: bool,
        result_file: Option<String>,
    ) -> (r: Result<WhisperTranscriptionResponse, WhisperError>)
        ensures
            r matches Ok(t) ==> device_present && !capture_timed_out && capture_ok && clip_written
                && !transcribe_timed_out && transcriber_ok && (result_file matches Some(f)
                && spec_parse_transcription(f@) == Some((t.text@, t.language@))),
            r matches Err(e) ==> {
                &&& !(device_present && !capture_timed_out && capture_ok && clip_written)
                    ==> e.code == (if !device_present {
                    1int
                } else if capture_timed_out {
                    4int
                } else {
                    2int
                })
                &&& (device_present && !capture_timed_out && capture_ok && clip_written)
                    ==> e.code == (if transcribe_timed_out {
                    4int
                } else {
                    3int
                }) && (!transcribe_timed_out ==> !transcriber_ok || result_file is None || (
                result_file matches Some(f) && spec_parse_transcription(f@) is None))
            },
    {
        match self.listen_outcome(device_present, capture_timed_out, capture_ok, clip_written) {
            Err(e) => Err(e),
            Ok(_clip) => self.transcribe_outcome(transcribe_timed_out, transcriber_ok, result_file),
        }
    }

    /// The temporary paths this stage may leave behind: the clip, the
    /// result file beside it, and the tool log.
    pub fn clean_paths(&self) -> (r: Vec<String>)
        ensures
            r@.len() == 3,
            r@[0]@ == "temp.mp3"@,
            r@[1]@ == "temp.json"@,
            r@[2]@ == "logs"@,
    {
        proof {
            reveal_strlit("temp.mp3");
            reveal_strlit("temp.json");
            reveal_strlit("temp");
            reveal_strlit(".json");
        }
        let clip = self.clip_path();
        let json = self.json_result_path(clip.as_str());
        proof {
            assert("temp.mp3"@.skip("temp.mp3"@.len() - 4) =~= ".mp3"@) by {
                reveal_strlit("temp.mp3");
                reveal_strlit(".mp3");
            }
            assert(has_clip_suffix("temp.mp3"@));
            assert("temp.mp3"@.take("temp.mp3"@.len() - 4) + ".json"@ =~= "temp.json"@);
        }
        let mut a: Vec<String> = Vec::new();
        a.push(clip);
        a.push(json);
        a.push(String::from_str("logs"));
        a
    }

    /// The default input device's name, from the names that the reachable
    /// audio hosts report: what the first host says, or nothing where no
    /// host could be reached.
    pub fn first_host_input_device(&self, mut names: Vec<Option<String>>) -> (r: Option<String>)
        ensures
            names@.len() == 0 ==> r is None,
            names@.len() > 0 ==> r == names@[0],
    {
        if names.len() == 0 {
            None
        } else {
            names.remove(0)
        }
    }
}

} // verus!
