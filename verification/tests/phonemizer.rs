use transcribe_rs::engines::kokoro::model::{IoError, IoErrorKind, KokoroError};
use transcribe_rs::engines::kokoro::phonemizer::{
    assemble_tokens, canonicalize_espeak_stdin_payload, espeak_call, espeak_program,
    espeak_result, ipa_to_ids,
    is_numeric_connector_between_digits, map_boundary_punctuation, phonemize,
    phonemize_segments_batch, split_lines, split_text_parts, text_segments, trim_range, voice_lang,
    EspeakConfig, EspeakOutcome, Phonemization, TextPart,
};
use transcribe_rs::engines::kokoro::vocab::{hardcoded_vocab, Vocab};

fn exited(stdout: &str) -> EspeakOutcome {
    EspeakOutcome::Exited {
        success: true,
        code: Some(0),
        stdout: stdout.to_string(),
        stderr: String::new(),
    }
}

fn pending(state: Phonemization) -> transcribe_rs::engines::kokoro::phonemizer::PhonemeJob {
    match state {
        Phonemization::Pending(job) => job,
        Phonemization::Finished(_) => panic!("expected a pending job"),
    }
}

fn finished(state: Phonemization) -> Result<Vec<i64>, KokoroError> {
    match state {
        Phonemization::Finished(result) => result,
        Phonemization::Pending(_) => panic!("expected a finished phonemization"),
    }
}

#[test]
fn splits_text_and_punctuation_parts() {
    let parts = split_text_parts("Hello, world. Testing!");
    assert_eq!(
        parts,
        vec![
            TextPart::Text("Hello".to_string()),
            TextPart::Punct(','),
            TextPart::Text("world".to_string()),
            TextPart::Punct('.'),
            TextPart::Text("Testing".to_string()),
            TextPart::Punct('!'),
        ]
    );
}

#[test]
fn keeps_decimal_and_thousands_separators_inside_text() {
    let parts = split_text_parts("Version 2.0 reached 1,000 users.");
    assert_eq!(
        parts,
        vec![
            TextPart::Text("Version 2.0 reached 1,000 users".to_string()),
            TextPart::Punct('.'),
        ]
    );
}

#[test]
fn still_splits_comma_when_not_between_digits() {
    let parts = split_text_parts("Value 2, next");
    assert_eq!(
        parts,
        vec![
            TextPart::Text("Value 2".to_string()),
            TextPart::Punct(','),
            TextPart::Text("next".to_string()),
        ]
    );
}

#[test]
fn appends_trailing_newline_for_espeak_stdin() {
    assert_eq!(canonicalize_espeak_stdin_payload("America"), "America\n");
}

#[test]
fn keeps_single_trailing_newline_for_espeak_stdin() {
    assert_eq!(canonicalize_espeak_stdin_payload("America\n"), "America\n");
}

#[test]
fn payload_ends_in_exactly_one_newline() {
    assert_eq!(canonicalize_espeak_stdin_payload("America\n\n\n"), "America\n");
    assert_eq!(canonicalize_espeak_stdin_payload(""), "\n");
    assert_eq!(canonicalize_espeak_stdin_payload("\n"), "\n");
    assert_eq!(canonicalize_espeak_stdin_payload("a\nb"), "a\nb\n");
    let once = canonicalize_espeak_stdin_payload("two lines\nhere");
    assert_eq!(canonicalize_espeak_stdin_payload(&once), once);
}

#[test]
fn empty_and_blank_text_have_no_parts() {
    assert_eq!(split_text_parts(""), Vec::<TextPart>::new());
    assert_eq!(split_text_parts("   \t  "), Vec::<TextPart>::new());
}

#[test]
fn whitespace_runs_collapse_and_segments_are_trimmed() {
    assert_eq!(
        split_text_parts("  a \t  b  ;  c  "),
        vec![
            TextPart::Text("a b".to_string()),
            TextPart::Punct(';'),
            TextPart::Text("c".to_string()),
        ]
    );
}

#[test]
fn line_breaks_become_full_stops() {
    assert_eq!(
        split_text_parts("one\ntwo\r\nthree"),
        vec![
            TextPart::Text("one".to_string()),
            TextPart::Punct('.'),
            TextPart::Text("two".to_string()),
            TextPart::Punct('.'),
            TextPart::Punct('.'),
            TextPart::Text("three".to_string()),
        ]
    );
}

#[test]
fn adjacent_punctuation_emits_no_empty_text() {
    assert_eq!(
        split_text_parts("\u{201c}Wait\u{2026}\u{201d} (no)\u{2014}yes?!"),
        vec![
            TextPart::Punct('\u{201c}'),
            TextPart::Text("Wait".to_string()),
            TextPart::Punct('\u{2026}'),
            TextPart::Punct('\u{201d}'),
            TextPart::Punct('('),
            TextPart::Text("no".to_string()),
            TextPart::Punct(')'),
            TextPart::Punct('\u{2014}'),
            TextPart::Text("yes".to_string()),
            TextPart::Punct('?'),
            TextPart::Punct('!'),
        ]
    );
}

#[test]
fn separator_at_either_end_of_a_number_splits() {
    assert_eq!(
        split_text_parts(".5 and 5."),
        vec![
            TextPart::Punct('.'),
            TextPart::Text("5 and 5".to_string()),
            TextPart::Punct('.'),
        ]
    );
    assert_eq!(
        split_text_parts("1.a"),
        vec![
            TextPart::Text("1".to_string()),
            TextPart::Punct('.'),
            TextPart::Text("a".to_string()),
        ]
    );
    // Only ASCII digits count.
    assert_eq!(
        split_text_parts("\u{0661},\u{0662}"),
        vec![
            TextPart::Text("\u{0661}".to_string()),
            TextPart::Punct(','),
            TextPart::Text("\u{0662}".to_string()),
        ]
    );
}

#[test]
fn boundary_punctuation_table() {
    for ch in ['.', '!', '?', ',', ';', ':', '\u{2014}', '\u{2026}', '"', '(', ')', '\u{201c}', '\u{201d}'] {
        assert_eq!(map_boundary_punctuation(ch), Some(ch));
    }
    assert_eq!(map_boundary_punctuation('\n'), Some('.'));
    assert_eq!(map_boundary_punctuation('\r'), Some('.'));
    assert_eq!(map_boundary_punctuation('a'), None);
    assert_eq!(map_boundary_punctuation('-'), None);
    assert_eq!(map_boundary_punctuation(' '), None);
}

#[test]
fn numeric_connector_needs_digits_on_both_sides() {
    let text: Vec<char> = "1,0 a.b 2. .3".chars().collect();
    assert!(is_numeric_connector_between_digits(&text, 1));
    assert!(!is_numeric_connector_between_digits(&text, 5));
    assert!(!is_numeric_connector_between_digits(&text, 9));
    assert!(!is_numeric_connector_between_digits(&text, 11));
    assert!(!is_numeric_connector_between_digits(&text, 0));
    let edge: Vec<char> = ".".chars().collect();
    assert!(!is_numeric_connector_between_digits(&edge, 0));
}

#[test]
fn voice_prefix_selects_language() {
    assert_eq!(voice_lang("af_heart"), "en-us");
    assert_eq!(voice_lang("am_adam"), "en-us");
    assert_eq!(voice_lang("bf_emma"), "en-gb");
    assert_eq!(voice_lang("bm_george"), "en-gb");
    assert_eq!(voice_lang("ef_dora"), "es");
    assert_eq!(voice_lang("em_alex"), "es");
    assert_eq!(voice_lang("ff_siwis"), "fr");
    assert_eq!(voice_lang("hf_alpha"), "hi");
    assert_eq!(voice_lang("hm_omega"), "hi");
    assert_eq!(voice_lang("if_sara"), "it");
    assert_eq!(voice_lang("im_nicola"), "it");
    assert_eq!(voice_lang("jf_alpha"), "ja");
    assert_eq!(voice_lang("jm_kumo"), "ja");
    assert_eq!(voice_lang("pf_dora"), "pt-br");
    assert_eq!(voice_lang("pm_alex"), "pt-br");
    assert_eq!(voice_lang("zf_xiaobei"), "cmn");
    assert_eq!(voice_lang("zm_yunxi"), "cmn");
}

#[test]
fn unknown_or_short_voice_prefix_means_american_english() {
    assert_eq!(voice_lang(""), "en-us");
    assert_eq!(voice_lang("a"), "en-us");
    assert_eq!(voice_lang("fm_x"), "en-us");
    assert_eq!(voice_lang("xx_voice"), "en-us");
    assert_eq!(voice_lang("a\u{00e9}"), "en-us");
    assert_eq!(voice_lang("\u{00e9}f"), "en-us");
}

#[test]
fn lines_follow_line_feeds() {
    let lines = |text: &str| -> Vec<String> {
        let chars: Vec<char> = text.chars().collect();
        split_lines(&chars).into_iter().map(|l| l.into_iter().collect()).collect()
    };
    assert_eq!(lines(""), Vec::<String>::new());
    assert_eq!(lines("a"), vec!["a"]);
    assert_eq!(lines("a\n"), vec!["a"]);
    assert_eq!(lines("a\nb"), vec!["a", "b"]);
    assert_eq!(lines("a\r\nb\r\n"), vec!["a", "b"]);
    assert_eq!(lines("a\n\nb"), vec!["a", "", "b"]);
    assert_eq!(lines("\n"), vec![""]);
    assert_eq!(lines("a\rb"), vec!["a\rb"]);
    for text in ["", "x\ny", "x\r\ny\n", "\n\n", "tail\r", "a\r\n\r\nb"] {
        let expected: Vec<String> = text.lines().map(|l| l.to_string()).collect();
        assert_eq!(lines(text), expected);
    }
}

#[test]
fn trim_range_drops_outer_whitespace() {
    let line: Vec<char> = "  a b \t".chars().collect();
    assert_eq!(trim_range(&line), (2, 5));
    let blank: Vec<char> = "   ".chars().collect();
    let (lo, hi) = trim_range(&blank);
    assert_eq!(lo, hi);
    let none: Vec<char> = Vec::new();
    assert_eq!(trim_range(&none), (0, 0));
}

#[test]
fn ipa_symbols_map_through_the_vocabulary() {
    let vocab = hardcoded_vocab();
    // h=50 \u{0259}=83 l=54 o=57 \u{028a}=135, tie marker and unknown symbols dropped.
    assert_eq!(ipa_to_ids("h\u{0259}l_o\u{028a}", &vocab), vec![50, 83, 54, 57, 135]);
    assert_eq!(ipa_to_ids("h#\u{0259}", &vocab), vec![50, 83]);
    assert_eq!(ipa_to_ids("", &vocab), Vec::<i64>::new());
}

#[test]
fn ipa_lines_are_trimmed_but_inner_spaces_kept() {
    let vocab = hardcoded_vocab();
    assert_eq!(ipa_to_ids("  a b \n\n c\r\n", &vocab), vec![43, 16, 44, 45]);
}

#[test]
fn terminal_schwa_is_kept_for_america() {
    let vocab = hardcoded_vocab();
    let ids = ipa_to_ids("\u{0250}m\u{02c8}\u{025b}\u{0279}\u{026a}k\u{0259}\n", &vocab);
    assert_eq!(ids.last(), Some(&83));
    assert_eq!(ids, vec![70, 55, 156, 86, 123, 102, 53, 83]);
}

#[test]
fn batch_answer_with_matching_lines_gives_fragments() {
    let vocab = hardcoded_vocab();
    assert_eq!(
        phonemize_segments_batch(2, "a\nb c\n", &vocab),
        Some(vec![vec![43], vec![44, 16, 45]])
    );
    assert_eq!(phonemize_segments_batch(2, "a\n", &vocab), None);
    assert_eq!(phonemize_segments_batch(1, "a\nb\n", &vocab), None);
    assert_eq!(phonemize_segments_batch(0, "", &vocab), Some(Vec::new()));
}

#[test]
fn assembling_interleaves_fragments_and_punctuation() {
    let vocab = hardcoded_vocab();
    let parts = split_text_parts("Hi, you - there!");
    assert_eq!(text_segments(&parts), vec!["Hi".to_string(), "you - there".to_string()]);
    let ids = assemble_tokens(&parts, &vec![vec![100, 101], vec![200]], &vocab);
    assert_eq!(ids, vec![100, 101, 3, 200, 5]);
    // A missing fragment contributes nothing.
    let ids = assemble_tokens(&parts, &vec![vec![100, 101]], &vocab);
    assert_eq!(ids, vec![100, 101, 3, 5]);
}

#[test]
fn punctuation_without_token_is_dropped() {
    let mut vocab = Vocab::new();
    vocab.insert('a', 7);
    vocab.insert('.', 4);
    let parts = split_text_parts("x, y.");
    let ids = assemble_tokens(&parts, &vec![vec![7], vec![7, 7]], &vocab);
    assert_eq!(ids, vec![7, 7, 7, 4]);
}

#[test]
fn espeak_call_selects_ipa_stdin_quiet_and_language() {
    let call = espeak_call("Hello", "en-gb");
    assert_eq!(call.args, vec!["--ipa", "--stdin", "-q", "-v", "en-gb"]);
    assert_eq!(call.stdin, "Hello\n");
}

#[test]
fn espeak_program_is_the_configured_binary_or_the_default() {
    assert_eq!(espeak_program(&EspeakConfig::default()), "espeak-ng");
    let config = EspeakConfig {
        bin_path: Some("/opt/espeak/bin/espeak-ng".to_string()),
        data_path: Some("/opt/espeak/data".to_string()),
    };
    assert_eq!(espeak_program(&config), "/opt/espeak/bin/espeak-ng");
}

#[test]
fn espeak_outcome_maps_to_output_or_error() {
    assert_eq!(espeak_result(exited("abc\n")), Ok("abc\n".to_string()));
    let missing = IoError { kind: IoErrorKind::NotFound, message: "no such file".to_string() };
    assert_eq!(
        espeak_result(EspeakOutcome::SpawnFailed(missing.clone())),
        Err(KokoroError::EspeakNotFound)
    );
    let denied = IoError { kind: IoErrorKind::Other, message: "permission denied".to_string() };
    assert_eq!(
        espeak_result(EspeakOutcome::SpawnFailed(denied.clone())),
        Err(KokoroError::Io(denied))
    );
    assert_eq!(
        espeak_result(EspeakOutcome::Interrupted(missing.clone())),
        Err(KokoroError::Io(missing))
    );
}

#[test]
fn failed_exit_carries_code_and_diagnostics() {
    let failed = |code: Option<i32>| EspeakOutcome::Exited {
        success: false,
        code,
        stdout: "ignored".to_string(),
        stderr: "bad voice".to_string(),
    };
    for code in [Some(1), Some(0), Some(-1), Some(255), Some(i32::MAX), Some(i32::MIN), None] {
        assert_eq!(
            espeak_result(failed(code)),
            Err(KokoroError::PhonemizerFailed(format!(
                "espeak-ng exited with code {:?}: bad voice",
                code
            )))
        );
    }
    assert_eq!(
        espeak_result(failed(Some(2))),
        Err(KokoroError::PhonemizerFailed("espeak-ng exited with code Some(2): bad voice".to_string()))
    );
}

#[test]
fn empty_text_phonemizes_to_no_tokens_without_a_call() {
    let vocab = hardcoded_vocab();
    assert_eq!(finished(phonemize("", "en-us", &vocab)), Ok(Vec::new()));
    assert_eq!(finished(phonemize("  \t ", "en-us", &vocab)), Ok(Vec::new()));
}

#[test]
fn punctuation_only_text_needs_no_call() {
    let vocab = hardcoded_vocab();
    assert_eq!(finished(phonemize("?!", "en-us", &vocab)), Ok(vec![6, 5]));
}

#[test]
fn batch_answer_finishes_the_job() {
    let vocab = hardcoded_vocab();
    let job = pending(phonemize("Hello, world.", "en-us", &vocab));
    let call = job.call();
    assert_eq!(call.args, vec!["--ipa", "--stdin", "-q", "-v", "en-us"]);
    assert_eq!(call.stdin, "Hello\nworld\n");
    let ids = finished(job.resume(exited(" h\u{0259}l\n w\u{025c}\n"), &vocab));
    assert_eq!(ids, Ok(vec![50, 83, 54, 3, 65, 87, 4]));
}

#[test]
fn mismatched_batch_answer_falls_back_to_single_segments() {
    let vocab = hardcoded_vocab();
    let job = pending(phonemize("Hello, world. Bye", "fr", &vocab));
    assert_eq!(job.call().stdin, "Hello\nworld\nBye\n");
    // The phonemizer merged two lines: ask for each segment by itself.
    let job = pending(job.resume(exited("h w\nb\n"), &vocab));
    let call = job.call();
    assert_eq!(call.args, vec!["--ipa", "--stdin", "-q", "-v", "fr"]);
    assert_eq!(call.stdin, "Hello\n");
    let job = pending(job.resume(exited("h\n"), &vocab));
    assert_eq!(job.call().stdin, "world\n");
    // An answer of several lines is one fragment.
    let job = pending(job.resume(exited("w\nw\n"), &vocab));
    assert_eq!(job.call().stdin, "Bye\n");
    let ids = finished(job.resume(exited("b"), &vocab));
    assert_eq!(ids, Ok(vec![50, 3, 65, 65, 4, 44]));
}

#[test]
fn phonemizer_failure_ends_the_job_with_its_error() {
    let vocab = hardcoded_vocab();
    let job = pending(phonemize("Hello", "en-us", &vocab));
    let outcome = EspeakOutcome::SpawnFailed(IoError {
        kind: IoErrorKind::NotFound,
        message: "not found".to_string(),
    });
    assert_eq!(finished(job.resume(outcome, &vocab)), Err(KokoroError::EspeakNotFound));

    let job = pending(phonemize("Hello. You", "en-us", &vocab));
    let job = pending(job.resume(exited("one line only"), &vocab));
    let outcome = EspeakOutcome::Exited {
        success: false,
        code: Some(1),
        stdout: String::new(),
        stderr: "boom".to_string(),
    };
    assert_eq!(
        finished(job.resume(outcome, &vocab)),
        Err(KokoroError::PhonemizerFailed("espeak-ng exited with code Some(1): boom".to_string()))
    );
}
