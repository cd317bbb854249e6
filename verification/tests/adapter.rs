use bindless::adapter::Adapter;

#[test]
fn test_adapter_mode_no_projection_prompt() {
    let proj = "#Projection: keep this secret";
    let base = format!("User wants X. {} More text.", proj);

    let adapter = Adapter::new("a1", Some(proj));
    let applied = adapter.apply_to_prompt(&base);
    assert!(
        !applied.contains(proj),
        "Adapter application must not include explicit projection prompt"
    );
    assert_eq!(applied, "User wants X.  More text.");
}

#[test]
fn test_adapter_without_projection_preserves_prompt() {
    let base = "Just a normal prompt";
    let adapter = Adapter::new("a2", None);
    assert_eq!(adapter.apply_to_prompt(base), base);
}

#[test]
fn adapter_keeps_what_it_is_given() {
    let adapter = Adapter::new("a3", Some("secret"));
    assert_eq!(adapter.id, "a3");
    assert_eq!(adapter.encoded_projection, Some("secret".to_string()));
}

#[test]
fn every_occurrence_is_cut() {
    let adapter = Adapter::new("a", Some("ab"));
    assert_eq!(adapter.apply_to_prompt("abxabyab"), "xy");
}

#[test]
fn occurrences_do_not_overlap() {
    let adapter = Adapter::new("a", Some("aa"));
    assert_eq!(adapter.apply_to_prompt("aaab"), "ab");
}

#[test]
fn a_prompt_without_the_projection_is_kept() {
    let adapter = Adapter::new("a", Some("zz"));
    assert_eq!(adapter.apply_to_prompt("Just text"), "Just text");
}

#[test]
fn a_projection_that_forms_across_a_cut_is_removed_too() {
    let adapter = Adapter::new("a", Some("ab"));
    assert_eq!(adapter.apply_to_prompt("aabb"), "");
    assert_eq!(adapter.apply_to_prompt("xaababbby"), "xby");
    let once = adapter.apply_to_prompt("c aabb d aaabbb e");
    assert_eq!(once, "c  d  e");
    assert_eq!(adapter.apply_to_prompt(&once), once);
}

#[test]
fn an_empty_projection_removes_nothing() {
    let adapter = Adapter::new("a", Some(""));
    assert_eq!(adapter.apply_to_prompt("text"), "text");
}

#[test]
fn characters_beyond_ascii_are_cut_whole() {
    let adapter = Adapter::new("a", Some("é→"));
    assert_eq!(adapter.apply_to_prompt("caféé→ →"), "café →");
}
