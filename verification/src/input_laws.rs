//! What the small decisions of a run mean for every input: how `--only`
//! texts name safety ceilings, which detectors are rechecked before a
//! deletion, how size units scale, and which environment variables
//! locate caches.

use vstd::prelude::*;
use crate::cleaner::{first_errors, first_jobs, spec_recheck_kind, ItemProbe, Recheck};
use crate::detectors::context::{resolved_android, resolved_go_build, resolved_npm, resolved_pip, resolved_uv, EnvSnapshot};
use crate::model::{spec_parse_level, CleanAction, CleanOptions, Disposition, IncludeLevel, PlannedItem, Safety};
use crate::cleaner::passes_gate;
use crate::paths::spec_refusal;
use crate::scanner::spec_unit_power;
use crate::text::{eq_ascii_ci, lower_char, lower_text, trim_ws};

verus! {

/// `--only` names its ceiling in any ASCII case: `safe` (the default)
/// plans only Safe findings, `caution` Safe and Caution ones, `all` every level (Danger
/// still needing force); any other text names none.
pub proof fn law_only_levels(s: Seq<char>)
    ensures
        eq_ascii_ci(s, "safe"@) ==> spec_parse_level(s) == Some(IncludeLevel::Safe),
        eq_ascii_ci(s, "caution"@) ==> spec_parse_level(s) == Some(IncludeLevel::Caution),
        eq_ascii_ci(s, "all"@) ==> spec_parse_level(s) == Some(IncludeLevel::All),
        !eq_ascii_ci(s, "safe"@) && !eq_ascii_ci(s, "caution"@) && !eq_ascii_ci(s, "all"@) ==> spec_parse_level(s) is None,
        eq_ascii_ci(s, "safe"@) ==> forall|x: Safety| spec_parse_level(s)->Some_0.spec_allows(x) <==> x == Safety::Safe,
        forall|x: Safety| IncludeLevel::Safe.spec_allows(x) <==> x == Safety::Safe,
        forall|x: Safety| IncludeLevel::Caution.spec_allows(x) <==> x != Safety::Danger,
        forall|x: Safety| IncludeLevel::All.spec_allows(x),
{
    reveal_strlit("safe");
    reveal_strlit("caution");
    reveal_strlit("all");
    assert("safe"@ =~= seq!['s', 'a', 'f', 'e']);
    assert("caution"@ =~= seq!['c', 'a', 'u', 't', 'i', 'o', 'n']);
    assert("all"@ =~= seq!['a', 'l', 'l']);
}

/// The detectors whose findings are checked again right before deletion
/// are exactly `pycache` (bytecode sources), `temp` (the whole tree still
/// stale) and `agent-artifacts` (the task still quiet).
pub proof fn law_rechecked_detectors(id: Seq<char>)
    ensures
        id == "pycache"@ <==> spec_recheck_kind(id) == Some(Recheck::Bytecode),
        id == "temp"@ <==> spec_recheck_kind(id) == Some(Recheck::TempStale),
        id == "agent-artifacts"@ <==> spec_recheck_kind(id) == Some(Recheck::AgentQuiet),
{
    reveal_strlit("pycache");
    reveal_strlit("temp");
    reveal_strlit("agent-artifacts");
    assert("temp"@.len() == 4 && "pycache"@.len() == 7 && "agent-artifacts"@.len() == 15);
    assert("temp"@ != "pycache"@);
    assert("agent-artifacts"@ != "pycache"@);
    assert("agent-artifacts"@ != "temp"@);
}

/// An executing run that reaches the recheck of a `temp`, `pycache` or
/// `agent-artifacts` finding whose recheck failed records that item's
/// error, naming its path, and creates no deletion job for it.
pub proof fn law_failed_recheck_blocks_deletion(items: Seq<PlannedItem>, probes: Seq<ItemProbe>, opts: CleanOptions, i: int)
    requires
        0 <= i < items.len(),
        probes.len() == items.len(),
        opts.execute,
        items[i].disposition matches Disposition::Remove { via } && (via@ == "trash"@ || via@ == "permanent"@),
        items[i].finding.action matches CleanAction::RemovePath { path } && spec_refusal(path@) is None,
        passes_gate(items[i].finding, opts),
        probes[i].ancestors is Ok,
        !probes[i].still_valid,
        items[i].finding.detector_id@ == "temp"@ || items[i].finding.detector_id@ == "pycache"@
            || items[i].finding.detector_id@ == "agent-artifacts"@,
    ensures
        first_jobs(items, probes, opts, (i + 1) as nat) == first_jobs(items, probes, opts, i as nat),
        first_errors(items, probes, opts, (i + 1) as nat).len() == first_errors(items, probes, opts, i as nat).len() + 1,
        items[i].finding.detector_id@ == "temp"@ ==> first_errors(items, probes, opts, (i + 1) as nat).last()
            == items[i].finding.action->path@ + ": temp contents changed or could not be verified"@,
        items[i].finding.detector_id@ == "pycache"@ ==> first_errors(items, probes, opts, (i + 1) as nat).last()
            == items[i].finding.action->path@ + ": bytecode contents or sources changed after planning"@,
        items[i].finding.detector_id@ == "agent-artifacts"@ ==> first_errors(items, probes, opts, (i + 1) as nat).last()
            == items[i].finding.action->path@ + ": agent artifact changed recently; a task may be running"@,
{
    law_rechecked_detectors(items[i].finding.detector_id@);
    assert(((i + 1) as nat - 1) as nat == i as nat);
}

/// A lower-case word equals, up to ASCII case, only texts that lower-case
/// to it.
proof fn lemma_lower_to(a: Seq<char>, b: Seq<char>)
    requires
        eq_ascii_ci(a, b),
        forall|i: int| 0 <= i < b.len() ==> !('A' <= #[trigger] b[i] && b[i] <= 'Z'),
    ensures
        lower_text(a) == b,
{
    assert forall|i: int| 0 <= i < b.len() implies #[trigger] lower_text(a)[i] == b[i] by {
        assert(lower_char(a[i]) == lower_char(b[i]));
    }
    assert(lower_text(a) =~= b);
}

/// Size units, trimmed and in any ASCII case: none or `b` is bytes, and
/// each of `k`, `m`, `g`, `t` names the same power of 1024 (1 to 4) alone,
/// followed by `b`, or followed by `ib`.
pub proof fn law_size_units(u: Seq<char>)
    ensures
        eq_ascii_ci(trim_ws(u), ""@) || eq_ascii_ci(trim_ws(u), "b"@) ==> spec_unit_power(u) == Some(0u32),
        eq_ascii_ci(trim_ws(u), "k"@) || eq_ascii_ci(trim_ws(u), "kb"@) || eq_ascii_ci(trim_ws(u), "kib"@)
            ==> spec_unit_power(u) == Some(1u32),
        eq_ascii_ci(trim_ws(u), "m"@) || eq_ascii_ci(trim_ws(u), "mb"@) || eq_ascii_ci(trim_ws(u), "mib"@)
            ==> spec_unit_power(u) == Some(2u32),
        eq_ascii_ci(trim_ws(u), "g"@) || eq_ascii_ci(trim_ws(u), "gb"@) || eq_ascii_ci(trim_ws(u), "gib"@)
            ==> spec_unit_power(u) == Some(3u32),
        eq_ascii_ci(trim_ws(u), "t"@) || eq_ascii_ci(trim_ws(u), "tb"@) || eq_ascii_ci(trim_ws(u), "tib"@)
            ==> spec_unit_power(u) == Some(4u32),
{
    let t = trim_ws(u);
    let x = lower_text(t);
    reveal_strlit("");
    reveal_strlit("b");
    reveal_strlit("k");
    reveal_strlit("kb");
    reveal_strlit("kib");
    reveal_strlit("m");
    reveal_strlit("mb");
    reveal_strlit("mib");
    reveal_strlit("g");
    reveal_strlit("gb");
    reveal_strlit("gib");
    reveal_strlit("t");
    reveal_strlit("tb");
    reveal_strlit("tib");
    assert(eq_ascii_ci(t, ""@) || eq_ascii_ci(t, "b"@) ==> spec_unit_power(u) == Some(0u32)) by {
        if eq_ascii_ci(t, ""@) { lemma_lower_to(t, ""@); assert(x =~= Seq::<char>::empty()); }
        if eq_ascii_ci(t, "b"@) { lemma_lower_to(t, "b"@); assert(x =~= seq!['b']); }
    }
    assert(eq_ascii_ci(t, "k"@) || eq_ascii_ci(t, "kb"@) || eq_ascii_ci(t, "kib"@) ==> spec_unit_power(u) == Some(1u32)) by {
        if eq_ascii_ci(t, "k"@) {
            lemma_lower_to(t, "k"@);
            assert(x =~= seq!['k']);
            assert(x != seq!['b']) by { assert(x[0] != seq!['b'][0]); }
        }
        if eq_ascii_ci(t, "kb"@) {
            lemma_lower_to(t, "kb"@);
            assert(x =~= seq!['k', 'b']);
            assert(x.len() == 2);
        }
        if eq_ascii_ci(t, "kib"@) {
            lemma_lower_to(t, "kib"@);
            assert(x =~= seq!['k', 'i', 'b']);
            assert(x.len() == 3);
        }
    }
    assert(eq_ascii_ci(t, "m"@) || eq_ascii_ci(t, "mb"@) || eq_ascii_ci(t, "mib"@) ==> spec_unit_power(u) == Some(2u32)) by {
        if eq_ascii_ci(t, "m"@) { lemma_lower_to(t, "m"@); assert(x =~= seq!['m']); }
        if eq_ascii_ci(t, "mb"@) { lemma_lower_to(t, "mb"@); assert(x =~= seq!['m', 'b']); }
        if eq_ascii_ci(t, "mib"@) { lemma_lower_to(t, "mib"@); assert(x =~= seq!['m', 'i', 'b']); }
    }
    assert(eq_ascii_ci(t, "g"@) || eq_ascii_ci(t, "gb"@) || eq_ascii_ci(t, "gib"@) ==> spec_unit_power(u) == Some(3u32)) by {
        if eq_ascii_ci(t, "g"@) { lemma_lower_to(t, "g"@); assert(x =~= seq!['g']); }
        if eq_ascii_ci(t, "gb"@) { lemma_lower_to(t, "gb"@); assert(x =~= seq!['g', 'b']); }
        if eq_ascii_ci(t, "gib"@) { lemma_lower_to(t, "gib"@); assert(x =~= seq!['g', 'i', 'b']); }
    }
    assert(eq_ascii_ci(t, "t"@) || eq_ascii_ci(t, "tb"@) || eq_ascii_ci(t, "tib"@) ==> spec_unit_power(u) == Some(4u32)) by {
        if eq_ascii_ci(t, "t"@) { lemma_lower_to(t, "t"@); assert(x =~= seq!['t']); }
        if eq_ascii_ci(t, "tb"@) { lemma_lower_to(t, "tb"@); assert(x =~= seq!['t', 'b']); }
        if eq_ascii_ci(t, "tib"@) { lemma_lower_to(t, "tib"@); assert(x =~= seq!['t', 'i', 'b']); }
    }
}

/// A configured npm cache is used as given: `npm_config_cache` when set
/// and not empty, else `NPM_CONFIG_CACHE` when set and not empty.
pub proof fn law_npm_cache_variable(env: EnvSnapshot)
    ensures
        env.npm_config_cache is Some && env.npm_config_cache->Some_0@.len() > 0
            ==> resolved_npm(env) == env.npm_config_cache->Some_0@,
        (env.npm_config_cache is None || env.npm_config_cache->Some_0@.len() == 0)
            && env.npm_config_cache_upper is Some && env.npm_config_cache_upper->Some_0@.len() > 0
            ==> resolved_npm(env) == env.npm_config_cache_upper->Some_0@,
{
}

/// The other cache variables win over platform defaults the same way:
/// `PIP_CACHE_DIR`, `UV_CACHE_DIR` and `GOCACHE` when set and not empty,
/// and `ANDROID_SDK_ROOT`, else `ANDROID_HOME`, for the Android SDK.
pub proof fn law_cache_variables(env: EnvSnapshot)
    ensures
        env.pip_cache_dir is Some && env.pip_cache_dir->Some_0@.len() > 0
            ==> resolved_pip(env) == env.pip_cache_dir->Some_0@,
        env.uv_cache_dir is Some && env.uv_cache_dir->Some_0@.len() > 0
            ==> resolved_uv(env) == env.uv_cache_dir->Some_0@,
        env.go_cache is Some && env.go_cache->Some_0@.len() > 0
            ==> resolved_go_build(env) == env.go_cache->Some_0@,
        env.android_sdk_root is Some && env.android_sdk_root->Some_0@.len() > 0
            ==> resolved_android(env) == Some(env.android_sdk_root->Some_0@),
        (env.android_sdk_root is None || env.android_sdk_root->Some_0@.len() == 0)
            && env.android_home is Some && env.android_home->Some_0@.len() > 0
            ==> resolved_android(env) == Some(env.android_home->Some_0@),
{
}

} // verus!
