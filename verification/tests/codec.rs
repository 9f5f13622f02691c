use voice_pipeline::json::{decimal_string, parse_two_string_fields};
use voice_pipeline::ollama::{Ollama, OllamaGenerationBody};
use voice_pipeline::speech::Speech;
use voice_pipeline::whisper::Whisper;

#[test]
fn decimal_notation() {
    assert_eq!(decimal_string(0), "0");
    assert_eq!(decimal_string(5), "5");
    assert_eq!(decimal_string(42), "42");
    assert_eq!(decimal_string(1234567), "1234567");
}

#[test]
fn encode_generation_body_plain() {
    let ollama = Ollama::new();
    let body = OllamaGenerationBody {
        model: String::from("gemma"),
        prompt: String::from("Hello, what's 1 + 1?"),
        stream: false,
    };
    let encoded = ollama.encode_generation_body(&body);
    assert_eq!(
        encoded,
        "{\"model\":\"gemma\",\"prompt\":\"Hello, what's 1 + 1?\",\"stream\":false}"
    );
}

#[test]
fn encode_generation_body_escapes() {
    let ollama = Ollama::new();
    let body = OllamaGenerationBody {
        model: String::from("m"),
        prompt: String::from("a\"b\\c\nd\te\u{1}f"),
        stream: true,
    };
    let encoded = ollama.encode_generation_body(&body);
    assert_eq!(
        encoded,
        "{\"model\":\"m\",\"prompt\":\"a\\\"b\\\\c\\nd\\te\\u0001f\",\"stream\":true}"
    );
}

#[test]
fn encoded_body_reads_back() {
    let ollama = Ollama::new();
    let body = OllamaGenerationBody {
        model: String::from("ge\"mma\n"),
        prompt: String::from("say \\ and \t then\r\u{2}"),
        stream: false,
    };
    let encoded = ollama.encode_generation_body(&body);
    let parsed = parse_two_string_fields(&encoded, "model", "prompt");
    assert_eq!(parsed, Some((body.model.clone(), body.prompt.clone())));
}

#[test]
fn parse_generation_response_exact() {
    let ollama = Ollama::new();
    let r = ollama
        .parse_generation_response("{\"model\":\"m\",\"response\":\"r\"}")
        .unwrap();
    assert_eq!(r.model, "m");
    assert_eq!(r.response, "r");
}

#[test]
fn parse_generation_response_whitespace_and_extra_fields() {
    let ollama = Ollama::new();
    let text = "{ \"model\": \"gemma\", \"created_at\": 12, \"response\": \"Hi there!\", \"done\": true }\n";
    let r = ollama.parse_generation_response(text).unwrap();
    assert_eq!(r.model, "gemma");
    assert_eq!(r.response, "Hi there!");
}

#[test]
fn parse_generation_response_real_server_shape() {
    let ollama = Ollama::new();
    // The real server sends a context array and further scalar fields
    // beside the two wanted ones; they are read over and ignored.
    let text = "{\"model\":\"gemma\",\"created_at\":\"2024-01-01T00:00:00Z\",\"response\":\"Hi there!\",\"done\":true,\"context\":[106, 1645, 108, 17534],\"total_duration\":5025959, \"eval_count\":8}";
    let r = ollama.parse_generation_response(text).unwrap();
    assert_eq!(r.model, "gemma");
    assert_eq!(r.response, "Hi there!");
}

#[test]
fn parse_generation_response_field_order() {
    let ollama = Ollama::new();
    let r = ollama
        .parse_generation_response("{\"response\":\"r\",\"model\":\"m\"}")
        .unwrap();
    assert_eq!(r.model, "m");
    assert_eq!(r.response, "r");
}

#[test]
fn parse_generation_response_escapes() {
    let ollama = Ollama::new();
    let r = ollama
        .parse_generation_response(
            "{\"model\":\"m\",\"response\":\"line\\none \\\"q\\\" \\\\ \\u0041\\u0009end\"}",
        )
        .unwrap();
    assert_eq!(r.response, "line\none \"q\" \\ A\tend");
}

#[test]
fn parse_unicode_escapes_full_range() {
    let whisper = Whisper::new();
    // Four hex digits, either case, for characters above U+00FF.
    let t = whisper
        .parse_transcription("{\"text\":\"\\u0100 and \\u00E9 and \\u004a\",\"language\":\"en\"}")
        .unwrap();
    assert_eq!(t.text, "\u{100} and \u{e9} and J");
    // A surrogate pair names one character above U+FFFF, in either case.
    let t = whisper
        .parse_transcription("{\"text\":\"\\ud83d\\ude00\",\"language\":\"en\"}")
        .unwrap();
    assert_eq!(t.text, "\u{1f600}");
    let t = whisper
        .parse_transcription("{\"text\":\"\\uD83D\\uDE00!\",\"language\":\"en\"}")
        .unwrap();
    assert_eq!(t.text, "\u{1f600}!");
}

#[test]
fn parse_unicode_escapes_malformed() {
    let whisper = Whisper::new();
    // A lone low surrogate, a high surrogate without a low one, and a
    // short escape name no character.
    assert!(whisper
        .parse_transcription("{\"text\":\"\\udc00\",\"language\":\"en\"}")
        .is_none());
    assert!(whisper
        .parse_transcription("{\"text\":\"\\ud83d x\",\"language\":\"en\"}")
        .is_none());
    assert!(whisper
        .parse_transcription("{\"text\":\"\\uD800\\u0041\",\"language\":\"en\"}")
        .is_none());
    assert!(whisper
        .parse_transcription("{\"text\":\"\\u00\",\"language\":\"en\"}")
        .is_none());
}

#[test]
fn ignored_primitives_follow_the_number_grammar() {
    let whisper = Whisper::new();
    // Numbers in all their parts are read over.
    let t = whisper
        .parse_transcription(
            "{\"text\":\"a\",\"x\":-12.5e+3,\"y\":0.25,\"z\":2E8,\"language\":\"en\"}",
        )
        .unwrap();
    assert_eq!(t.text, "a");
    // A bare word is not a JSON value, so the file is malformed.
    assert!(whisper
        .parse_transcription("{\"text\":\"a\",\"language\":\"en\",\"x\":zzz}")
        .is_none());
    assert!(whisper
        .parse_transcription("{\"text\":\"a\",\"x\":truex,\"language\":\"en\"}")
        .is_none());
    assert!(whisper
        .parse_transcription("{\"text\":\"a\",\"x\":01,\"language\":\"en\"}")
        .is_none());
    assert!(whisper
        .parse_transcription("{\"text\":\"a\",\"x\":1.,\"language\":\"en\"}")
        .is_none());
    assert!(whisper
        .parse_transcription("{\"text\":\"a\",\"x\":1e,\"language\":\"en\"}")
        .is_none());
    assert!(whisper
        .parse_transcription("{\"text\":\"a\",\"x\":-,\"language\":\"en\"}")
        .is_none());
}

#[test]
fn parse_generation_response_malformed() {
    let ollama = Ollama::new();
    assert!(ollama.parse_generation_response("").is_none());
    assert!(ollama.parse_generation_response("not json").is_none());
    assert!(ollama.parse_generation_response("{\"model\":\"m\"}").is_none());
    assert!(ollama
        .parse_generation_response("{\"model\":\"m\",\"response\":3}")
        .is_none());
    assert!(ollama
        .parse_generation_response("{\"model\":\"m\",\"response\":\"r\"} x")
        .is_none());
    assert!(ollama
        .parse_generation_response("{\"model\":{\"inner\":1},\"response\":\"r\"}")
        .is_none());
    assert!(ollama
        .parse_generation_response("{\"model\":\"m\",\"response\":\"r\"")
        .is_none());
}

#[test]
fn transcription_result_exact() {
    let whisper = Whisper::new();
    let t = whisper
        .parse_transcription("{\"text\":\"hello world\",\"language\":\"en\"}")
        .unwrap();
    assert_eq!(t.text, "hello world");
    assert_eq!(t.language, "en");
}

#[test]
fn transcription_result_real_tool_shape() {
    let whisper = Whisper::new();
    // The real transcription tool writes a segments array of objects
    // beside the two wanted fields; it is read over and ignored.
    let text = "{\"text\": \" Hello there.\", \"segments\": [{\"id\": 0, \"seek\": 0, \"start\": 0.0, \"end\": 2.5, \"text\": \" Hello there.\", \"tokens\": [50364, 2425, 456], \"temperature\": 0.0, \"no_speech_prob\": 0.01}], \"language\": \"en\"}";
    let t = whisper.parse_transcription(text).unwrap();
    assert_eq!(t.text, " Hello there.");
    assert_eq!(t.language, "en");
}

#[test]
fn transcription_result_empty_and_nested_ignored_values() {
    let whisper = Whisper::new();
    let t = whisper
        .parse_transcription(
            "{\"segments\": [], \"text\": \"hi\", \"extra\": {\"a\": [1, [2, {}]], \"b\": \"[not} nested\"}, \"language\": \"en\"}",
        )
        .unwrap();
    assert_eq!(t.text, "hi");
    assert_eq!(t.language, "en");
}

#[test]
fn unbalanced_ignored_values_are_rejected() {
    let whisper = Whisper::new();
    assert!(whisper
        .parse_transcription("{\"segments\": [1, 2, \"text\": \"hi\", \"language\": \"en\"}")
        .is_none());
    assert!(whisper
        .parse_transcription("{\"segments\": {\"a\": 1, \"text\": \"hi\", \"language\": \"en\"}")
        .is_none());
}

#[test]
fn transcription_result_malformed() {
    let whisper = Whisper::new();
    assert!(whisper.parse_transcription("").is_none());
    assert!(whisper.parse_transcription("{\"text\":\"hi\"}").is_none());
    assert!(whisper
        .parse_transcription("{\"text\":\"hi\",\"language\":null,}")
        .is_none());
    assert!(whisper.parse_transcription("{\"text\":\"hi\",\"language\":null}").is_none());
}

#[test]
fn json_result_path_swaps_suffix() {
    let whisper = Whisper::new();
    assert_eq!(whisper.json_result_path("temp.mp3"), "temp.json");
    assert_eq!(whisper.json_result_path("a.mp3.mp3"), "a.mp3.json");
    assert_eq!(whisper.json_result_path("clip.wav"), "clip.wav");
    assert_eq!(whisper.json_result_path("mp3"), "mp3");
}

#[test]
fn listen_args_are_discrete() {
    let whisper = Whisper::new();
    let args = whisper.listen_args(5);
    assert_eq!(args, vec!["-f", "avfoundation", "-i", ":0", "-t", "5", "temp.mp3"]);
    let args = whisper.listen_args(30);
    assert_eq!(args[5], "30");
}

#[test]
fn transcribe_args_are_discrete() {
    let whisper = Whisper::new();
    let args = whisper.transcribe_args("temp.mp3", "small");
    assert_eq!(args, vec!["audio", "temp.mp3", "--model", "small", "--output_format", "json"]);
}

#[test]
fn tts_args_are_discrete() {
    let speech = Speech::new();
    let args = speech.tts_args("Hi there!");
    assert_eq!(args, vec!["--text", "Hi there!", "--out_path", "speech.wav"]);
}

#[test]
fn endpoint_of_default_url() {
    let ollama = Ollama::new();
    assert_eq!(ollama.endpoint(), "http://127.0.0.1:11434/api/generate");
}

#[test]
fn base_url_is_normalized() {
    let ollama = Ollama::with_base_url("http://127.0.0.1:11434").unwrap();
    assert_eq!(ollama.endpoint(), "http://127.0.0.1:11434/api/generate");
    let ollama = Ollama::with_base_url("http://example.com:8080").unwrap();
    assert_eq!(ollama.endpoint(), "http://example.com:8080/api/generate");
}

#[test]
fn base_url_rejected() {
    assert!(Ollama::with_base_url("not a url").is_none());
    assert!(Ollama::with_base_url("").is_none());
}
