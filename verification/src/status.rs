use vstd::prelude::*;

verus! {

/// The advisory status reported after a proxy check: whether a proxy was
/// detected, whether the target host answered a direct probe, and one of
/// four fixed human-readable messages chosen from those two booleans.
pub struct ProxyStatus {
    pub has_proxy: bool,
    pub can_access_target: bool,
    pub message: String,
}

/// The fixed advisory message for each combination of the two booleans.
pub open spec fn status_message(has_proxy: bool, can_access: bool) -> Seq<char> {
    if can_access {
        if has_proxy {
            "A system proxy was detected and the network is reachable."@
        } else {
            "The network is reachable; downloads can proceed directly."@
        }
    } else {
        if has_proxy {
            "A proxy was detected but the target site is unreachable; please check the proxy settings."@
        } else {
            "The target site is unreachable; consider enabling a system proxy and retrying."@
        }
    }
}

/// Combines proxy detection and the reachability probe into the advisory
/// status shown to the user.
pub fn compose_status(has_proxy: bool, can_access: bool) -> (r: ProxyStatus)
    ensures
        r.has_proxy == has_proxy,
        r.can_access_target == can_access,
        r.message@ == status_message(has_proxy, can_access),
{
    let message = if can_access {
        if has_proxy {
            "A system proxy was detected and the network is reachable.".to_owned()
        } else {
            "The network is reachable; downloads can proceed directly.".to_owned()
        }
    } else {
        if has_proxy {
            "A proxy was detected but the target site is unreachable; please check the proxy settings.".to_owned()
        } else {
            "The target site is unreachable; consider enabling a system proxy and retrying.".to_owned()
        }
    };
    ProxyStatus { has_proxy, can_access_target: can_access, message }
}

} // verus!
