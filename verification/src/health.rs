//! Health reports: the static service probe and the response built
//! from the two clusters' liveness. The pings themselves are database
//! calls and happen outside the library; their outcomes are handed in
//! as two booleans.

use vstd::prelude::*;

use crate::types::response::ApiMessage;
use crate::types::response::ApiResponse;
use crate::types::response::CODE_FAILURE;

verus! {

broadcast use vstd::string::group_string_axioms;

/// The static service health payload.
#[derive(Debug)]
pub struct ServiceHealth {
    pub ok: bool,
}

/// The two clusters' liveness, as last observed.
#[derive(Debug)]
pub struct DbHealth {
    pub active_ok: bool,
    pub passive_ok: bool,
}

/// The service itself is healthy whenever it can answer.
pub fn service_health() -> (r: ApiResponse<ServiceHealth>)
    ensures
        r.code@ == "00"@,
        r.message matches ApiMessage::Text(t) && t@ == "service healthy"@,
        r.data matches Some(d) && d.ok,
{
    ApiResponse::success_with("service healthy", ServiceHealth { ok: true })
}

/// The response reporting the given liveness observations: success
/// exactly when both clusters answered, and otherwise an explanation
/// naming the cluster(s) that did not; the observations always ride
/// along as data.
pub fn db_health_response(active_ok: bool, passive_ok: bool) -> (r: ApiResponse<DbHealth>)
    ensures
        r.data matches Some(d) && d.active_ok == active_ok && d.passive_ok == passive_ok,
        r.code@ == "00"@ <==> active_ok && passive_ok,
        active_ok && passive_ok ==> (r.message matches ApiMessage::Text(t) && t@
            == "databases healthy"@),
        !active_ok && passive_ok ==> r.code@ == "99"@ && (r.message matches ApiMessage::Detail {
            what,
            why,
            how,
        } && what@ == "Active database is unavailable or unhealthy"@),
        active_ok && !passive_ok ==> r.code@ == "99"@ && (r.message matches ApiMessage::Detail {
            what,
            why,
            how,
        } && what@ == "Passive database is unavailable or unhealthy"@),
        !active_ok && !passive_ok ==> r.code@ == "99"@ && (r.message matches ApiMessage::Detail {
            what,
            why,
            how,
        } && what@ == "Both Active and Passive databases are unavailable"@),
{
    proof {
        reveal_strlit("00");
        reveal_strlit("99");
        assert("00"@ != "99"@) by {
            if "00"@ == "99"@ {
                assert("00"@[0] == "99"@[0]);
            }
        }
    }
    let data = DbHealth { active_ok, passive_ok };
    if active_ok && passive_ok {
        ApiResponse::success_with("databases healthy", data)
    } else if !active_ok && passive_ok {
        ApiResponse {
            code: CODE_FAILURE,
            message: ApiMessage::Detail {
                what: "Active database is unavailable or unhealthy".to_owned(),
                why: "The application could not complete a basic health query against the Active cluster (SELECT release_version FROM system.local) or the request failed.".to_owned(),
                how: "Ensure the Active database is running and reachable from this service. Verify host/port connectivity (firewall, security groups), credentials, and TLS settings if enabled. Check database logs for errors, then retry.".to_owned(),
            },
            data: Some(data),
        }
    } else if active_ok && !passive_ok {
        ApiResponse {
            code: CODE_FAILURE,
            message: ApiMessage::Detail {
                what: "Passive database is unavailable or unhealthy".to_owned(),
                why: "The application could not complete a basic health query against the Passive cluster (SELECT release_version FROM system.local) or the request failed.".to_owned(),
                how: "Ensure the Passive database is running and reachable from this service. Verify host/port connectivity (firewall, security groups), credentials, and TLS settings if enabled. Check database logs for errors, then retry.".to_owned(),
            },
            data: Some(data),
        }
    } else {
        ApiResponse {
            code: CODE_FAILURE,
            message: ApiMessage::Detail {
                what: "Both Active and Passive databases are unavailable".to_owned(),
                why: "The service failed to complete a health query against either cluster. This often points to connectivity issues, incorrect credentials/TLS configuration, or the clusters being down.".to_owned(),
                how: "1) Confirm both clusters are up and accepting connections. 2) From this host, verify DNS and that the database ports are reachable. 3) Validate credentials and TLS configuration (CA file, certificate validity, insecure skip verify). 4) Review database and network logs for errors. 5) Retry after addressing the root cause.".to_owned(),
            },
            data: Some(data),
        }
    }
}

} // verus!
