//! Registration of metrics. The registry is that of the process, so nothing else is tested here.

use cncnet_server::metrics::Metrics;

#[test]
fn metrics_are_registered_once() {
    let first = Metrics::new();
    let second = Metrics::new();
    assert_eq!(first.refused_registrations, 0);
    assert_eq!(second.refused_registrations, 13);
}
