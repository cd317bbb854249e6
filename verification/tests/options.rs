use bindless::full_model::ForwardOptions;
use bindless::options::{forward_options, is_switched_on, parse_count, ForwardVars};
use bindless::params::{rewrite_chunk, BATCH_COUNT_WORD, BATCH_OFFSET_WORD};

#[test]
fn switches_are_one_or_true() {
    assert!(is_switched_on(Some("1")));
    assert!(is_switched_on(Some("true")));
    assert!(is_switched_on(Some("TrUe")));
    assert!(!is_switched_on(Some("0")));
    assert!(!is_switched_on(Some("yes")));
    assert!(!is_switched_on(Some("true ")));
    assert!(!is_switched_on(Some("")));
    assert!(!is_switched_on(Some("ſrue")));
    assert!(!is_switched_on(None));
}

/// Counts are read as the standard library reads them.
#[test]
fn counts_are_read_like_numbers() {
    for text in [
        "0",
        "1",
        "007",
        "+12",
        "4294967295",
        "4294967296",
        "99999999999999999999999",
        "",
        "+",
        "++1",
        "-1",
        " 1",
        "1 ",
        "1_000",
        "0x10",
        "٣",
    ] {
        assert_eq!(parse_count(text), text.parse::<u32>().ok(), "{text:?}");
    }
}

#[test]
fn counts_are_read_back() {
    for n in [0u32, 9, 10, 4096, u32::MAX] {
        assert_eq!(parse_count(&n.to_string()), Some(n));
    }
}

#[test]
fn variables_shape_the_forward_pass() {
    let vars = ForwardVars {
        pingpong: Some("true"),
        prefill_chunk: Some("8"),
        trace_layers: None,
        disable_output_norm: Some("0"),
    };
    assert_eq!(
        forward_options(&vars, 1, 2, false, true),
        ForwardOptions {
            prefill_chunk: 8,
            ffn_kind_policy: 1,
            qkv_layout_policy: 2,
            pingpong: true,
            trace_layers: false,
            disable_output_norm: false,
            override_head: false,
            external_cache: true,
        }
    );
    let unset = ForwardVars {
        pingpong: None,
        prefill_chunk: Some("many"),
        trace_layers: Some("1"),
        disable_output_norm: None,
    };
    let options = forward_options(&unset, 0, 0, true, false);
    assert_eq!(options.prefill_chunk, 1);
    assert!(options.trace_layers && !options.pingpong && options.override_head);
}

#[test]
fn a_chunk_is_rewritten_in_place() {
    let mut words: Vec<u32> = (0..37).collect();
    rewrite_chunk(&mut words, 100, 200);
    assert_eq!(words[BATCH_OFFSET_WORD], 100);
    assert_eq!(words[BATCH_COUNT_WORD], 200);
    rewrite_chunk(&mut words, 20, 21);
    assert_eq!(words, (0..37).collect::<Vec<u32>>());
}
