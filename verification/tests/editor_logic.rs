use std::sync::atomic::Ordering;

use convolution_plug::editor::{
    asset_request, asset_url_scheme, find_param_index, param_updates_to_send,
    plugin_message_script, unique_param_indices,
};
use convolution_plug::ipc::{param_kind, ParamKind, Parameters};
use convolution_plug::webview::WebviewState;

#[test]
fn unique_indices_keep_first_occurrences_in_order() {
    assert_eq!(unique_param_indices(&vec![3, 1, 3, 2, 1, 3]), vec![3, 1, 2]);
    assert_eq!(unique_param_indices(&vec![]), Vec::<usize>::new());
    assert_eq!(unique_param_indices(&vec![7, 7, 7]), vec![7]);
    assert_eq!(unique_param_indices(&vec![0, 1, 2]), vec![0, 1, 2]);
}

#[test]
fn updates_set_by_the_page_are_not_echoed() {
    assert_eq!(param_updates_to_send(&vec![3, 1, 3, 2, 1], &vec![1]), vec![3, 2]);
    assert_eq!(param_updates_to_send(&vec![3, 1, 3, 2, 1], &vec![]), vec![3, 1, 2]);
    assert_eq!(param_updates_to_send(&vec![4, 4], &vec![4, 5]), Vec::<usize>::new());
    assert_eq!(param_updates_to_send(&vec![], &vec![0]), Vec::<usize>::new());
}

#[test]
fn find_param_index_finds_first_match() {
    let ids: Vec<String> = ["dry_gain", "wet_gain", "lowpass_enabled", "wet_gain"]
        .iter()
        .map(|s| s.to_string())
        .collect();
    assert_eq!(find_param_index(&ids, &"dry_gain".to_string()), Some(0));
    assert_eq!(find_param_index(&ids, &"wet_gain".to_string()), Some(1));
    assert_eq!(find_param_index(&ids, &"lowpass_enabled".to_string()), Some(2));
    assert_eq!(find_param_index(&ids, &"bell_q".to_string()), None);
    assert_eq!(find_param_index(&Vec::new(), &"dry_gain".to_string()), None);
}

#[test]
fn message_script_quotes_the_message() {
    let script = plugin_message_script(r#"{"type":"init"}"#);
    assert_eq!(script, r#"onPluginMessageInternal("{\"type\":\"init\"}");"#);
    let script = plugin_message_script("");
    assert_eq!(script, r#"onPluginMessageInternal("");"#);
    let script = plugin_message_script("a\nb");
    assert_eq!(script, r#"onPluginMessageInternal("a\nb");"#);
}

#[test]
fn message_script_escapes_control_characters_and_backslashes() {
    assert_eq!(plugin_message_script("a\u{1}b"), r#"onPluginMessageInternal("a\u0001b");"#);
    assert_eq!(plugin_message_script("\u{1f}"), r#"onPluginMessageInternal("\u001f");"#);
    assert_eq!(plugin_message_script("\t\r\u{8}\u{c}"), r#"onPluginMessageInternal("\t\r\b\f");"#);
    assert_eq!(plugin_message_script("back\\slash"), r#"onPluginMessageInternal("back\\slash");"#);
    assert_eq!(plugin_message_script("caf\u{e9} \u{7f}"), "onPluginMessageInternal(\"caf\u{e9} \u{7f}\");");
}

#[test]
fn asset_url_scheme_per_platform() {
    assert_eq!(asset_url_scheme("assets", true), "http://assets.localhost");
    assert_eq!(asset_url_scheme("assets", false), "assets://localhost");
}

#[test]
fn asset_requests() {
    let root = asset_request("/").unwrap();
    assert_eq!(root.file, "index.html");
    assert_eq!(root.mime_type, "text/html");

    let script = asset_request("/_next/static/main.js").unwrap();
    assert_eq!(script.file, "_next/static/main.js");
    assert_eq!(script.mime_type, "text/javascript");

    let style = asset_request("/style.css").unwrap();
    assert_eq!(style.file, "style.css");
    assert_eq!(style.mime_type, "text/css");

    let unknown = asset_request("/data.unknownext").unwrap();
    assert_eq!(unknown.mime_type, "text/plain");

    assert!(asset_request("/LICENSE").is_none());
    assert!(asset_request("/.hidden").is_none());
}

#[test]
fn param_kinds() {
    assert_eq!(param_kind(Parameters::LowpassEnabled), ParamKind::Bool);
    assert_eq!(param_kind(Parameters::BellEnabled), ParamKind::Bool);
    assert_eq!(param_kind(Parameters::HighpassEnabled), ParamKind::Bool);
    for p in [
        Parameters::Gain,
        Parameters::DryWet,
        Parameters::LowpassFreq,
        Parameters::LowpassQ,
        Parameters::BellFreq,
        Parameters::BellQ,
        Parameters::BellGain,
        Parameters::HighpassFreq,
        Parameters::HighpassQ,
    ] {
        assert_eq!(param_kind(p), ParamKind::Float);
    }
}

#[test]
fn webview_state_starts_closed() {
    let state = WebviewState::new();
    assert!(!state.is_open());
    state.open.store(true, Ordering::Release);
    assert!(state.is_open());
    state.open.store(false, Ordering::Release);
    assert!(!state.is_open());
}
