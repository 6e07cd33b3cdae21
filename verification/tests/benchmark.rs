use djapp_audio_spike::benchmark::{
    csv_cell, manifest_columns, manifest_row_error, trim, AllowedTempo, Preset,
};

#[test]
fn allowed_tempo_values_are_read_after_trimming() {
    assert_eq!(AllowedTempo::parse(None), Ok(AllowedTempo::Exact));
    assert_eq!(AllowedTempo::parse(Some("  ")), Ok(AllowedTempo::Exact));
    assert_eq!(AllowedTempo::parse(Some("same")), Ok(AllowedTempo::Exact));
    assert_eq!(AllowedTempo::parse(Some(" half ")), Ok(AllowedTempo::Half));
    assert_eq!(AllowedTempo::parse(Some("double")), Ok(AllowedTempo::Double));
    assert_eq!(AllowedTempo::parse(Some("half_double")), Ok(AllowedTempo::HalfOrDouble));
    assert_eq!(AllowedTempo::parse(Some("half-or-double")), Ok(AllowedTempo::HalfOrDouble));
    assert_eq!(AllowedTempo::parse(Some("any\t")), Ok(AllowedTempo::Any));
    assert_eq!(
        AllowedTempo::parse(Some(" triple ")),
        Err("unknown allowed tempo value: triple".to_string())
    );
}

#[test]
fn allowed_tempo_names_read_back() {
    for tempo in [
        AllowedTempo::Exact,
        AllowedTempo::Half,
        AllowedTempo::Double,
        AllowedTempo::HalfOrDouble,
        AllowedTempo::Any,
    ] {
        assert_eq!(AllowedTempo::parse(Some(tempo.as_str())), Ok(tempo));
    }
}

#[test]
fn trimming_matches_the_standard_library() {
    for text in ["", "  ", " a ", "\u{3000}b\u{a0}", "\t\nc d\r ", "x", "\u{2009}y\u{85}"] {
        assert_eq!(trim(text), text.trim(), "{text:?}");
    }
}

#[test]
fn csv_cells_quote_only_when_needed() {
    assert_eq!(csv_cell("plain text"), "plain text");
    assert_eq!(csv_cell("a,b"), "\"a,b\"");
    assert_eq!(csv_cell("say \"hi\""), "\"say \"\"hi\"\"\"");
    assert_eq!(csv_cell("two\nlines"), "\"two\nlines\"");
    assert_eq!(csv_cell("cr\r"), "\"cr\r\"");
    assert_eq!(csv_cell(""), "");
    assert_eq!(csv_cell("\""), "\"\"\"\"");
}

#[test]
fn preset_names() {
    assert_eq!(Preset::Default.name(), "default");
    assert_eq!(Preset::Cheaper.name(), "cheaper");
}

#[test]
fn manifest_lines_split_into_trimmed_columns() {
    let columns = manifest_columns("128.5\tMusic/song one.mp3\tany\tintro has drums").unwrap();
    assert_eq!(
        columns,
        vec!["128.5", "Music/song one.mp3", "any", "intro has drums"]
    );
    assert_eq!(AllowedTempo::parse(Some(&columns[2])), Ok(AllowedTempo::Any));
    for line in ["100.0\ttrack.wav\tany", " 90 \t a.wav \t\t", "120", "x\t\ty"] {
        let expected: Vec<String> = line.split('\t').map(|field| field.trim().to_string()).collect();
        assert_eq!(manifest_columns(line), Some(expected), "{line:?}");
    }
}

#[test]
fn blank_and_comment_lines_hold_no_row() {
    assert_eq!(manifest_columns(""), None);
    assert_eq!(manifest_columns("   \t "), None);
    assert_eq!(manifest_columns("  # expected\tpath"), None);
    assert!(manifest_columns("1#\tpath").is_some());
}

#[test]
fn short_manifest_rows_are_refused_with_their_line() {
    assert_eq!(
        manifest_row_error(7),
        "manifest line 7 must contain expected_bpm<TAB>path"
    );
}
