//! The health and metrics endpoint.

use vstd::prelude::*;

use crate::http::{plain, Reply, Response};
use crate::text::same_text;

verus! {

/// The reply to a request for `path`, where `metrics` is the text of the exported metrics.
pub open spec fn answer(path: Seq<char>, metrics: Seq<char>) -> Reply {
    if path == "/health"@ {
        plain(200, "OK"@)
    } else if path == "/ready"@ {
        plain(200, "READY"@)
    } else if path == "/metrics"@ {
        plain(200, metrics)
    } else {
        plain(404, "Not Found"@)
    }
}

/// Whether the reply to a request for `path` holds the exported metrics.
pub fn needs_metrics(path: &str) -> (yes: bool)
    ensures
        yes == (path@ == "/metrics"@),
{
    same_text(path, "/metrics")
}

/// Answers a request for `path`.
pub fn handle_request(path: &str, metrics: &str) -> (response: Response)
    ensures
        response@ == answer(path@, metrics@),
{
    if same_text(path, "/health") {
        Response::text(200, "OK")
    } else if same_text(path, "/ready") {
        Response::text(200, "READY")
    } else if needs_metrics(path) {
        Response::text(200, metrics)
    } else {
        Response::text(404, "Not Found")
    }
}

/// Only the metrics path shows the metrics: any other reply is the same for all of them.
pub proof fn law_only_metrics_path_shows_metrics(path: Seq<char>, one: Seq<char>, other: Seq<char>)
    requires
        path != "/metrics"@,
    ensures
        answer(path, one) == answer(path, other),
{
}

/// Each of the three paths has its own answer, and any other path has none.
pub proof fn law_paths_have_their_answers(path: Seq<char>, metrics: Seq<char>)
    ensures
        answer("/health"@, metrics) == (Reply { status: 200, header: None, body: "OK"@ }),
        answer("/ready"@, metrics) == (Reply { status: 200, header: None, body: "READY"@ }),
        answer("/metrics"@, metrics) == (Reply { status: 200, header: None, body: metrics }),
        path != "/health"@ && path != "/ready"@ && path != "/metrics"@ ==> answer(path, metrics)
            == (Reply { status: 404, header: None, body: "Not Found"@ }),
{
    reveal_strlit("/health");
    reveal_strlit("/ready");
    reveal_strlit("/metrics");
    assert("/health"@[1] == 'h' && "/ready"@[1] == 'r' && "/metrics"@[1] == 'm');
}

} // verus!
