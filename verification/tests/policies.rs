//! Choices that the environment makes.

use rvllm::runtime::error::{corrupt_runtime_err, Arg, Reason};
use rvllm::runtime::gemma4_nvfp4_bring_up::policy::{
    g4n_debug_active, parse_nvfp4_policy, read_nvfp4_kv_policies, validate_no_stale_g4n_debug_envs,
};
use rvllm::runtime::gemma4_spec_primitives::{
    per_token_q_scale_enabled, spec_new_primitives_enabled,
};
use rvllm::text::{decimal_text, has_infix_exec, chars_of};

#[test]
fn policies_by_name_and_number() {
    assert_eq!(parse_nvfp4_policy("amax6"), Some(0));
    assert_eq!(parse_nvfp4_policy(" 0\n"), Some(0));
    assert_eq!(parse_nvfp4_policy("\tmse "), Some(1));
    assert_eq!(parse_nvfp4_policy("1"), Some(1));
    assert_eq!(parse_nvfp4_policy("MSE"), None);
    assert_eq!(parse_nvfp4_policy(""), None);
    assert_eq!(parse_nvfp4_policy("m se"), None);
}

#[test]
fn own_policy_beats_shared_beats_default() {
    assert_eq!(read_nvfp4_kv_policies(None, None, None), (0, 1));
    assert_eq!(read_nvfp4_kv_policies(Some("mse"), None, None), (1, 1));
    assert_eq!(read_nvfp4_kv_policies(Some("amax6"), Some("mse"), None), (1, 0));
    assert_eq!(read_nvfp4_kv_policies(Some("?"), Some("?"), Some("0")), (0, 0));
}

#[test]
fn debug_is_asked_for() {
    assert!(g4n_debug_active(Some("1")));
    for v in ["0", "true", "yes", "TRUE", " 1", "11", ""] {
        assert!(!g4n_debug_active(Some(v)));
    }
    assert!(!g4n_debug_active(None));
}

#[test]
fn stale_diagnostics_are_refused() {
    assert!(validate_no_stale_g4n_debug_envs(None, false, false).is_ok());
    assert!(validate_no_stale_g4n_debug_envs(Some("1"), true, true).is_ok());
    let e = validate_no_stale_g4n_debug_envs(None, true, true).unwrap_err();
    assert!(e.message().contains("G4N_DUMP_DIR is set"));
    let e = validate_no_stale_g4n_debug_envs(Some("true"), true, false).unwrap_err();
    assert!(e.message().contains("G4N_DUMP_DIR is set"));
    let e = validate_no_stale_g4n_debug_envs(Some("0"), false, true).unwrap_err();
    assert!(e.message().contains("G4N_FORWARD_TRACE is set"));
}

#[test]
fn switches() {
    assert!(spec_new_primitives_enabled(Some("1")));
    assert!(!spec_new_primitives_enabled(Some("true")));
    assert!(!spec_new_primitives_enabled(None));
    assert!(per_token_q_scale_enabled(None));
    assert!(per_token_q_scale_enabled(Some("1")));
    assert!(!per_token_q_scale_enabled(Some("0")));
}

#[test]
fn numbers_in_messages() {
    assert_eq!(decimal_text(0), "0");
    assert_eq!(decimal_text(u64::MAX), u64::MAX.to_string());
    let r = Reason::three("a", Arg::U(10), "b", Arg::I(i32::MIN), "c", Arg::I(-7), "d");
    assert_eq!(r.message(), "a10b-2147483648c-7d");
    assert!(corrupt_runtime_err(r).message().contains("a10b-2147483648c-7d"));
    assert_eq!(Reason::plain("x").message(), "x");
    assert!(has_infix_exec(&chars_of("self_attn.q"), &chars_of("attn")));
    assert!(!has_infix_exec(&chars_of("self_attn.q"), &chars_of("attm")));
}
