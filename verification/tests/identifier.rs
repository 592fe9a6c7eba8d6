use rms_gateway::identifier::{lower_camel_to_snake, snake_to_lower_camel};

#[test]
fn snake_of_plain_camel_case() {
    assert_eq!(lower_camel_to_snake("beamConfig"), "beam_config");
    assert_eq!(lower_camel_to_snake("beamId"), "beam_id");
    assert_eq!(lower_camel_to_snake("gscList"), "gsc_list");
    assert_eq!(lower_camel_to_snake("setGscGroupResourceLimits"), "set_gsc_group_resource_limits");
}

#[test]
fn snake_of_empty_is_empty() {
    assert_eq!(lower_camel_to_snake(""), "");
}

#[test]
fn snake_keeps_an_acronym_together() {
    assert_eq!(lower_camel_to_snake("httpURL"), "http_url");
    assert_eq!(lower_camel_to_snake("AB"), "ab");
    assert_eq!(lower_camel_to_snake("ABC2"), "abc2");
}

#[test]
fn snake_splits_an_acronym_before_its_last_capital() {
    assert_eq!(lower_camel_to_snake("URLPath"), "url_path");
    assert_eq!(lower_camel_to_snake("ABc"), "a_bc");
    assert_eq!(lower_camel_to_snake("aBCd"), "a_b_cd");
}

#[test]
fn snake_puts_no_separator_in_front() {
    assert_eq!(lower_camel_to_snake("Beam"), "beam");
    assert_eq!(lower_camel_to_snake("B"), "b");
}

#[test]
fn snake_separates_after_a_digit() {
    assert_eq!(lower_camel_to_snake("a1B"), "a1_b");
    assert_eq!(lower_camel_to_snake("v2Api"), "v2_api");
}

#[test]
fn snake_adds_no_second_separator() {
    assert_eq!(lower_camel_to_snake("a_B"), "a_b");
    assert_eq!(lower_camel_to_snake("beam_config"), "beam_config");
    assert_eq!(lower_camel_to_snake("_a__b_"), "_a__b_");
}

#[test]
fn snake_passes_other_characters_through() {
    assert_eq!(lower_camel_to_snake("a$B"), "a$b");
    assert_eq!(lower_camel_to_snake("a-b c"), "a-b c");
}

#[test]
fn snake_beyond_ascii() {
    assert_eq!(lower_camel_to_snake("\u{e9}A"), "\u{e9}_a");
    assert_eq!(lower_camel_to_snake("a\u{c9}"), "a_\u{e9}");
    assert_eq!(lower_camel_to_snake("a\u{130}"), "a_i\u{307}");
}

#[test]
fn snake_twice_is_snake_once() {
    for s in ["beamConfig", "httpURL", "URLPath", "ABc", "a1B", "a_B", "", "x", "\u{e9}A"] {
        let once = lower_camel_to_snake(s);
        assert_eq!(lower_camel_to_snake(&once), once);
    }
}

#[test]
fn snake_twice_differs_for_a_capital_without_a_small_letter() {
    let once = lower_camel_to_snake("\u{1d400}\u{1d400}B");
    assert_eq!(once, "\u{1d400}\u{1d400}b");
    assert_eq!(lower_camel_to_snake(&once), "\u{1d400}_\u{1d400}b");
}

#[test]
fn camel_of_plain_snake_case() {
    assert_eq!(snake_to_lower_camel("beam_config"), "beamConfig");
    assert_eq!(snake_to_lower_camel("beam_id"), "beamId");
    assert_eq!(snake_to_lower_camel("gsc_list"), "gscList");
    assert_eq!(snake_to_lower_camel("set_gsc_group_resource_limits"), "setGscGroupResourceLimits");
}

#[test]
fn camel_of_empty_is_empty() {
    assert_eq!(snake_to_lower_camel(""), "");
    assert_eq!(snake_to_lower_camel("_"), "");
    assert_eq!(snake_to_lower_camel("___"), "");
}

#[test]
fn camel_drops_empty_segments() {
    assert_eq!(snake_to_lower_camel("__a__b_"), "aB");
    assert_eq!(snake_to_lower_camel("_beam_config"), "beamConfig");
    assert_eq!(snake_to_lower_camel("beam_config_"), "beamConfig");
}

#[test]
fn camel_lowers_an_acronym() {
    assert_eq!(snake_to_lower_camel("http_url"), "httpUrl");
    assert_eq!(snake_to_lower_camel("HTTP_URL"), "httpUrl");
    assert_eq!(snake_to_lower_camel("URL"), "url");
}

#[test]
fn camel_lowers_a_single_segment() {
    assert_eq!(snake_to_lower_camel("beamConfig"), "beamconfig");
    assert_eq!(snake_to_lower_camel("x"), "x");
}

#[test]
fn camel_leaves_a_digit_at_the_head_of_a_segment() {
    assert_eq!(snake_to_lower_camel("a_1b"), "a1b");
    assert_eq!(snake_to_lower_camel("v_2"), "v2");
}

#[test]
fn camel_beyond_ascii() {
    assert_eq!(snake_to_lower_camel("\u{c9}T\u{c9}"), "\u{e9}t\u{e9}");
    assert_eq!(snake_to_lower_camel("a_\u{e9}t\u{c9}"), "a\u{c9}t\u{e9}");
    assert_eq!(snake_to_lower_camel("a_\u{df}b"), "aSSb");
}

#[test]
fn camel_lowers_a_final_sigma_by_its_place() {
    assert_eq!(
        snake_to_lower_camel("\u{1f48}\u{394}\u{3a5}\u{3a3}\u{3a3}\u{395}\u{38e}\u{3a3}"),
        "\u{1f40}\u{3b4}\u{3c5}\u{3c3}\u{3c3}\u{3b5}\u{3cd}\u{3c2}"
    );
}

#[test]
fn camel_twice_is_camel_once_when_the_result_is_lower_case() {
    for s in ["beam", "BEAM", "_beam_", "a_1b", "", "__"] {
        let once = snake_to_lower_camel(s);
        assert_eq!(snake_to_lower_camel(&once), once);
    }
}

#[test]
fn camel_twice_differs_when_a_later_segment_begins_with_a_letter() {
    let once = snake_to_lower_camel("a_b");
    assert_eq!(once, "aB");
    assert_eq!(snake_to_lower_camel(&once), "ab");
}

#[test]
fn round_trip_with_one_capital_per_word() {
    for s in ["beamConfig", "beamId", "gscList", "a1B", "aB1", "x", "", "getSatSummary", "1aB"] {
        assert_eq!(snake_to_lower_camel(&lower_camel_to_snake(s)), s);
    }
}

#[test]
fn round_trip_loses_an_acronym() {
    assert_eq!(snake_to_lower_camel(&lower_camel_to_snake("httpURL")), "httpUrl");
    assert_eq!(snake_to_lower_camel(&lower_camel_to_snake("Beam")), "beam");
    assert_eq!(snake_to_lower_camel(&lower_camel_to_snake("a_b")), "aB");
}
