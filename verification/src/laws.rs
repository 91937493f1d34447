use vstd::prelude::*;

use crate::error::{spec_phase, spec_wire_type};
use crate::report::{spec_age, spec_body_phase, spec_body_type, spec_wireguard_class, NELReport};
use crate::reporter::{spec_retry_delay, RETRY_FLOOR_MS, RETRY_TIMEOUT_MS};

verus! {

/// Age monotonicity: for one report, serializing later never yields a
/// smaller age.
pub proof fn lemma_age_monotonic(captured: u64, t1: u64, t2: u64)
    requires
        t1 <= t2,
    ensures
        spec_age(captured, t1) <= spec_age(captured, t2),
{
}

/// Wireguard substitution: a `tcp` classification on a report whose
/// protocol is `wireguard` is stored as `udp`, the subclass is preserved
/// in the wire type, and the phase stays `connection`.
pub proof fn lemma_wireguard_substitution(subclass: Seq<char>)
    ensures
        spec_wireguard_class("wireguard"@, "tcp"@) == "udp"@,
        spec_wire_type(spec_wireguard_class("wireguard"@, "tcp"@), subclass) == "udp."@
            + subclass,
        spec_phase(spec_wireguard_class("wireguard"@, "tcp"@)) == "connection"@,
{
    reveal_strlit("udp");
    reveal_strlit("udp.");
    reveal_strlit(".");
    reveal_strlit("dns");
    reveal_strlit("unknown");
    reveal_strlit("abandoned");
    assert("udp"@.len() == 3);
    assert("unknown"@.len() == 7);
    assert("abandoned"@.len() == 9);
    assert("dns"@.len() == 3 && "dns"@[0] == 'd');
    assert("udp"@[0] == 'u');
    assert("udp"@ != "unknown"@);
    assert("udp"@ != "abandoned"@);
    assert("udp"@ != "dns"@);
    assert("udp"@ + "."@ + subclass =~= "udp."@ + subclass);
}

/// Success framing: a report with no error attached carries phase
/// `application` and type `ok` on the wire.
pub proof fn lemma_success_framing(r: NELReport)
    requires
        r.phase@.len() == 0,
    ensures
        spec_body_phase(r) == "application"@,
        spec_body_type(r) == "ok"@,
{
}

/// Retry backoff floor: the armed sleep is never below the floor — in
/// particular never zero or negative — and once a full retry timeout has
/// elapsed since the failed attempt it is exactly the floor.
pub proof fn lemma_retry_backoff_floor(now: u64, last_try: u64)
    ensures
        spec_retry_delay(now, last_try) >= RETRY_FLOOR_MS,
        spec_retry_delay(now, last_try) > 0,
        now >= last_try && now - last_try >= RETRY_TIMEOUT_MS ==> spec_retry_delay(
            now,
            last_try,
        ) == RETRY_FLOOR_MS,
{
}

} // verus!
