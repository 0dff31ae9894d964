//! Which log events the server passes on.

use vstd::prelude::*;

use crate::text::{concat, has_head, same, starts_with};

verus! {

/// Drops the errors that a UDP transport repeats after a client has gone.
pub struct LightyearUdpNoiseFilter;

/// `target` is the module `module` or stands inside it.
pub open spec fn within_module(target: Seq<char>, module: Seq<char>) -> bool {
    target == module || has_head(target, module + "::"@)
}

/// A module whose errors are noise.
pub open spec fn noisy(target: Seq<char>) -> bool {
    within_module(target, "lightyear_udp::server"@) || within_module(target, "lightyear_udp"@)
}

fn is_within(target: &str, module: &str) -> (r: bool)
    ensures
        r == within_module(target@, module@),
{
    if same(target, module) {
        return true;
    }
    let inside = concat(module, "::");
    starts_with(target, inside.as_str())
}

impl LightyearUdpNoiseFilter {
    /// Whether an event passes: every one below error does, and every error
    /// from outside the noisy modules.
    pub fn enabled(&self, is_error: bool, target: &str) -> (r: bool)
        ensures
            r == !(is_error && noisy(target@)),
    {
        if !is_error {
            return true;
        }
        !(is_within(target, "lightyear_udp::server") || is_within(target, "lightyear_udp"))
    }
}

/// The server module of the transport needs no rule of its own: what stands
/// inside it stands inside the transport.
pub proof fn law_noisy_is_transport(target: Seq<char>)
    ensures
        noisy(target) <==> within_module(target, "lightyear_udp"@),
{
    reveal_strlit("lightyear_udp::server");
    reveal_strlit("lightyear_udp");
    reveal_strlit("::");
    let outer = "lightyear_udp"@ + "::"@;
    let inner = "lightyear_udp::server"@;
    assert(outer.len() == 15);
    assert(inner.take(15) =~= outer);
    if within_module(target, inner) {
        if target == inner {
            assert(target.take(15) == outer);
        } else {
            let deep = inner + "::"@;
            assert(target.take(deep.len() as int) == deep);
            assert(target.take(15) =~= deep.take(15));
            assert(deep.take(15) =~= inner.take(15));
        }
        assert(has_head(target, outer));
    }
}

/// An event passes unless it is an error of the transport: of the module
/// `lightyear_udp` itself or of one inside it.
pub proof fn law_noise_dropped(
    filter: &LightyearUdpNoiseFilter,
    target: &str,
    rest: Seq<char>,
    is_error: bool,
    r: bool,
)
    requires
        call_ensures(LightyearUdpNoiseFilter::enabled, (filter, is_error, target), r),
    ensures
        !is_error ==> r,
        is_error && target@ == "lightyear_udp"@ ==> !r,
        is_error && target@ == "lightyear_udp"@ + "::"@ + rest ==> !r,
        !r ==> target@ == "lightyear_udp"@ || exists|s: Seq<char>|
            target@ == #[trigger] ("lightyear_udp"@ + "::"@ + s),
{
    law_noisy_is_transport(target@);
    let head = "lightyear_udp"@ + "::"@;
    if target@ == "lightyear_udp"@ + "::"@ + rest {
        assert(target@.take(head.len() as int) =~= head);
    }
    if has_head(target@, head) {
        assert(target@ =~= head + target@.skip(head.len() as int));
        assert(target@ == "lightyear_udp"@ + "::"@ + target@.skip(head.len() as int));
    }
}

} // verus!
