//! Bodies and status codes of the HTTP endpoints. The listener, routing
//! and the database probe live in the surrounding process; every response
//! it sends is decided here.

use vstd::prelude::*;
use vstd::string::StringExecFns;
use crate::timestamp::CivilDateTime;
use crate::timestamp::format_timestamp;
use crate::timestamp::format_timestamp_spec;

verus! {

/// An HTTP response: status code and body text.
pub struct HttpResponse {
    pub status: u16,
    pub body: String,
}

/// The static banner served at the root path.
pub fn root_banner() -> (r: String)
    ensures
        r@ == "Homepage Backend API"@,
{
    String::from_str("Homepage Backend API")
}

/// The health endpoint's decision: a reachable database gives 200 and the
/// healthy body; an unreachable one gives 503 and the unhealthy body.
pub fn health_response(db_ok: bool) -> (r: HttpResponse)
    ensures
        db_ok ==> r.status == 200 && r.body@ == "{\"status\":\"healthy\",\"database\":\"connected\"}"@,
        !db_ok ==> r.status == 503 && r.body@
            == "{\"status\":\"unhealthy\",\"database\":\"disconnected\"}"@,
{
    if db_ok {
        HttpResponse {
            status: 200,
            body: String::from_str("{\"status\":\"healthy\",\"database\":\"connected\"}"),
        }
    } else {
        HttpResponse {
            status: 503,
            body: String::from_str("{\"status\":\"unhealthy\",\"database\":\"disconnected\"}"),
        }
    }
}

/// Content type of the metrics exposition.
pub fn metrics_content_type() -> (r: String)
    ensures
        r@ == "text/plain; version=0.0.4"@,
{
    String::from_str("text/plain; version=0.0.4")
}

/// Body of the example endpoint for a given moment: the fixed message and
/// the moment in RFC 3339 form.
pub open spec fn example_body_spec(dt: CivilDateTime) -> Seq<char> {
    "{\"message\":\"Hello from Axum backend!\",\"timestamp\":\""@ + format_timestamp_spec(dt)
        + "\"}"@
}

pub fn example_response(now: &CivilDateTime) -> (r: String)
    requires
        now.wf(),
    ensures
        r@ == example_body_spec(*now),
{
    let mut r = String::from_str("{\"message\":\"Hello from Axum backend!\",\"timestamp\":\"");
    let ts = format_timestamp(now);
    r.append(ts.as_str());
    r.append("\"}");
    r
}

} // verus!
