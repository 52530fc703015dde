//! Choices that the environment makes, on the values of its variables.

use crate::runtime::error::{corrupt_runtime_err, Reason, RuntimeError};
use crate::text::{chars_of, same_text};
use vstd::prelude::*;
use vstd::string::*;

verus! {

/// The characters with the Unicode property White_Space.
pub open spec fn is_white_space(c: char) -> bool {
    ||| 0x9 <= c as u32 <= 0xd
    ||| c as u32 == 0x20
    ||| c as u32 == 0x85
    ||| c as u32 == 0xa0
    ||| c as u32 == 0x1680
    ||| 0x2000 <= c as u32 <= 0x200a
    ||| c as u32 == 0x2028
    ||| c as u32 == 0x2029
    ||| c as u32 == 0x202f
    ||| c as u32 == 0x205f
    ||| c as u32 == 0x3000
}

/// `t` is `s` without its leading and trailing white space.
pub open spec fn is_trimmed(s: Seq<char>, t: Seq<char>) -> bool {
    exists|a: int, b: int|
        {
            &&& 0 <= a <= b <= s.len()
            &&& t == #[trigger] s.subrange(a, b)
            &&& forall|i: int| 0 <= i < a ==> is_white_space(#[trigger] s[i])
            &&& forall|i: int| b <= i < s.len() ==> is_white_space(#[trigger] s[i])
            &&& a < b ==> !is_white_space(s[a]) && !is_white_space(s[b - 1])
        }
}

/// The text without its leading and trailing white space.
pub open spec fn trimmed(s: Seq<char>) -> Seq<char> {
    choose|t: Seq<char>| is_trimmed(s, t)
}

/// There is one way to take white space off both ends.
pub proof fn law_trimmed_unique(s: Seq<char>, t: Seq<char>)
    requires
        is_trimmed(s, t),
    ensures
        trimmed(s) == t,
{
    let u = trimmed(s);
    assert(is_trimmed(s, u));
    let (a, b) = choose|a: int, b: int|
        {
            &&& 0 <= a <= b <= s.len()
            &&& t == #[trigger] s.subrange(a, b)
            &&& forall|i: int| 0 <= i < a ==> is_white_space(#[trigger] s[i])
            &&& forall|i: int| b <= i < s.len() ==> is_white_space(#[trigger] s[i])
            &&& a < b ==> !is_white_space(s[a]) && !is_white_space(s[b - 1])
        };
    let (c, d) = choose|a: int, b: int|
        {
            &&& 0 <= a <= b <= s.len()
            &&& u == #[trigger] s.subrange(a, b)
            &&& forall|i: int| 0 <= i < a ==> is_white_space(#[trigger] s[i])
            &&& forall|i: int| b <= i < s.len() ==> is_white_space(#[trigger] s[i])
            &&& a < b ==> !is_white_space(s[a]) && !is_white_space(s[b - 1])
        };
    if a < b {
        assert(c <= a && b <= d);
        assert(c == a) by {
            if c < a {
                assert(is_white_space(s[c]));
            }
        }
        assert(d == b) by {
            if b < d {
                assert(is_white_space(s[d - 1]));
            }
        }
    } else if c < d {
        if c < a {
            assert(is_white_space(s[c]));
        } else {
            assert(is_white_space(s[c]));
        }
    }
    assert(t =~= u);
}

fn white_space(c: char) -> (r: bool)
    ensures
        r == is_white_space(c),
{
    let n: u32 = c as u32;
    (0x9 <= n && n <= 0xd) || n == 0x20 || n == 0x85 || n == 0xa0 || n == 0x1680 || (0x2000 <= n
        && n <= 0x200a) || n == 0x2028 || n == 0x2029 || n == 0x202f || n == 0x205f || n == 0x3000
}

/// The text without its leading and trailing white space.
fn trim(s: &str) -> (r: &str)
    ensures
        r@ == trimmed(s@),
{
    let chars = chars_of(s);
    let mut b: usize = chars.len();
    while b > 0 && white_space(chars[b - 1])
        invariant
            chars@ == s@,
            b <= s@.len(),
            forall|i: int| b <= i < s@.len() ==> is_white_space(#[trigger] s@[i]),
        decreases b,
    {
        b = b - 1;
    }
    let mut a: usize = 0;
    while a < b && white_space(chars[a])
        invariant
            chars@ == s@,
            a <= b <= s@.len(),
            forall|i: int| 0 <= i < a ==> is_white_space(#[trigger] s@[i]),
        decreases b - a,
    {
        a = a + 1;
    }
    let r = s.substring_char(a, b);
    proof {
        assert(s@.subrange(a as int, b as int) == r@);
        assert(is_trimmed(s@, r@));
        law_trimmed_unique(s@, r@);
    }
    r
}

/// The scale policy that a variable's value names: `0` keeps the range, `1`
/// searches for the least squared error.
pub open spec fn policy_of(v: Seq<char>) -> Option<i32> {
    let t = trimmed(v);
    if t == "amax6"@ || t == "0"@ {
        Some(0)
    } else if t == "mse"@ || t == "1"@ {
        Some(1)
    } else {
        None
    }
}

/// The scale policy that a variable's value names, if any.
pub fn parse_nvfp4_policy(v: &str) -> (r: Option<i32>)
    ensures
        r == policy_of(v@),
{
    let t = trim(v);
    if same_text(t, "amax6") || same_text(t, "0") {
        Some(0)
    } else if same_text(t, "mse") || same_text(t, "1") {
        Some(1)
    } else {
        None
    }
}

/// The policy of an optional value.
pub open spec fn optional_policy(v: Option<&str>) -> Option<i32> {
    match v {
        Some(s) => policy_of(s@),
        None => None,
    }
}

/// The first policy that there is, else a default.
pub open spec fn resolved(own: Option<i32>, shared: Option<i32>, default: i32) -> i32 {
    match own {
        Some(p) => p,
        None => match shared {
            Some(p) => p,
            None => default,
        },
    }
}

fn parse_optional(v: Option<&str>) -> (r: Option<i32>)
    ensures
        r == optional_policy(v),
{
    match v {
        Some(s) => parse_nvfp4_policy(s),
        None => None,
    }
}

fn resolve(own: Option<i32>, shared: Option<i32>, default: i32) -> (r: i32)
    ensures
        r == resolved(own, shared, default),
{
    match own {
        Some(p) => p,
        None => match shared {
            Some(p) => p,
            None => default,
        },
    }
}

/// The policies for keys and values, from the values of
/// `RVLLM_NVFP4_SCALE_POLICY`, `RVLLM_NVFP4_K_SCALE_POLICY` and
/// `RVLLM_NVFP4_V_SCALE_POLICY`: each side's own, else the shared one, else
/// `0` for keys and `1` for values.
pub fn read_nvfp4_kv_policies(global: Option<&str>, k: Option<&str>, v: Option<&str>) -> (r: (
    i32,
    i32,
))
    ensures
        r.0 == resolved(optional_policy(k), optional_policy(global), 0),
        r.1 == resolved(optional_policy(v), optional_policy(global), 1),
{
    let shared = parse_optional(global);
    (resolve(parse_optional(k), shared, 0), resolve(parse_optional(v), shared, 1))
}

/// A policy is one of the two that the kernel knows, whatever is set.
pub proof fn law_policies_in_range(global: Option<&str>, own: Option<&str>)
    ensures
        0 <= resolved(optional_policy(own), optional_policy(global), 0) <= 1,
        0 <= resolved(optional_policy(own), optional_policy(global), 1) <= 1,
{
}

/// Whether diagnostics were asked for: only `1` does.
pub open spec fn asks_for_debug(v: Option<&str>) -> bool {
    match v {
        Some(s) => s@ == "1"@,
        None => false,
    }
}

/// Whether the value of `RVLLM_DEBUG_G4N` asks for diagnostics.
pub fn g4n_debug_active(v: Option<&str>) -> (r: bool)
    ensures
        r == asks_for_debug(v),
{
    match v {
        Some(s) => same_text(s, "1"),
        None => false,
    }
}

/// What is reported of a diagnostic variable that is set by itself.
pub open spec fn stale_fault(key_is_dump_dir: bool) -> RuntimeError {
    if key_is_dump_dir {
        corrupt_runtime_err(
            Reason::plain(
                "[gemma4-nvfp4] refusing to start: G4N_DUMP_DIR is set but RVLLM_DEBUG_G4N=1 is not. These knobs add disk I/O + stderr writes that production should not silently pay. Set RVLLM_DEBUG_G4N=1 to opt in, or unset G4N_DUMP_DIR for a production run.",
            ),
        )
    } else {
        corrupt_runtime_err(
            Reason::plain(
                "[gemma4-nvfp4] refusing to start: G4N_FORWARD_TRACE is set but RVLLM_DEBUG_G4N=1 is not. These knobs add disk I/O + stderr writes that production should not silently pay. Set RVLLM_DEBUG_G4N=1 to opt in, or unset G4N_FORWARD_TRACE for a production run.",
            ),
        )
    }
}

/// Refuses to start where `G4N_DUMP_DIR` or `G4N_FORWARD_TRACE` is set and
/// diagnostics were not asked for.
pub fn validate_no_stale_g4n_debug_envs(
    debug: Option<&str>,
    dump_dir_set: bool,
    forward_trace_set: bool,
) -> (r: Result<(), RuntimeError>)
    ensures
        r == (if asks_for_debug(debug) || (!dump_dir_set && !forward_trace_set) {
            Ok(())
        } else {
            Err(stale_fault(dump_dir_set))
        }),
{
    if g4n_debug_active(debug) {
        return Ok(());
    }
    if dump_dir_set {
        return Err(
            corrupt_runtime_err(
                Reason::plain(
                    "[gemma4-nvfp4] refusing to start: G4N_DUMP_DIR is set but RVLLM_DEBUG_G4N=1 is not. These knobs add disk I/O + stderr writes that production should not silently pay. Set RVLLM_DEBUG_G4N=1 to opt in, or unset G4N_DUMP_DIR for a production run.",
                ),
            ),
        );
    }
    if forward_trace_set {
        return Err(
            corrupt_runtime_err(
                Reason::plain(
                    "[gemma4-nvfp4] refusing to start: G4N_FORWARD_TRACE is set but RVLLM_DEBUG_G4N=1 is not. These knobs add disk I/O + stderr writes that production should not silently pay. Set RVLLM_DEBUG_G4N=1 to opt in, or unset G4N_FORWARD_TRACE for a production run.",
                ),
            ),
        );
    }
    Ok(())
}

/// A side's own setting decides; without one that names a policy the shared
/// setting does, and without either the default.
pub proof fn law_policy_precedence(own: Seq<char>, shared: Seq<char>, default: i32)
    ensures
        (policy_of(own) matches Some(p) ==> resolved(
            policy_of(own),
            policy_of(shared),
            default,
        ) == p),
        (policy_of(own) is None ==> (policy_of(shared) matches Some(p) ==> resolved(
            policy_of(own),
            policy_of(shared),
            default,
        ) == p)),
        policy_of(own) is None && policy_of(shared) is None ==> resolved(
            policy_of(own),
            policy_of(shared),
            default,
        ) == default,
        resolved(None, None, default) == default,
{
}

/// The names of the policies: `amax6` and `0` are the first, `mse` and `1` the
/// second, with any white space around them; nothing else is one.
pub proof fn law_policy_names(v: Seq<char>, t: Seq<char>)
    requires
        is_trimmed(v, t),
    ensures
        policy_of(v) == Some(0i32) <==> t == "amax6"@ || t == "0"@,
        policy_of(v) == Some(1i32) <==> t == "mse"@ || t == "1"@,
        policy_of(v) is Some ==> policy_of(v) == Some(0i32) || policy_of(v) == Some(1i32),
{
    law_trimmed_unique(v, t);
    reveal_strlit("amax6");
    reveal_strlit("0");
    reveal_strlit("mse");
    reveal_strlit("1");
    assert("amax6"@ != "mse"@ && "amax6"@ != "1"@ && "0"@ != "mse"@) by {
        assert("amax6"@.len() == 5 && "mse"@.len() == 3 && "1"@.len() == 1 && "0"@.len() == 1);
    }
    assert("0"@ != "1"@) by {
        assert("0"@[0] == '0' && "1"@[0] == '1');
    }
}

} // verus!
