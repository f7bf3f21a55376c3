//! Tests of route-report delivery over the crossbeam channel.

use crossbeam::channel;
use dns_proxy::cache::ClientAddr;
use dns_proxy::engine::{Action, Upstream};
use dns_proxy::report::deliver_reports;

#[test]
fn reports_go_over_the_channel() {
    let (tx, rx) = channel::bounded(4);
    let actions = vec![
        Action::Forward { upstream: Upstream::Trusted, data: vec![1] },
        Action::ReportRoute { address: String::from("93.184.216.34") },
        Action::SendLocal { to: ClientAddr { ip: 1, port: 2 }, data: vec![2] },
        Action::ReportRoute { address: String::from("10.0.0.1") },
    ];
    let n = deliver_reports(&tx, &actions);
    assert_eq!(n, 2);
    assert_eq!(rx.try_recv().unwrap(), "93.184.216.34");
    assert_eq!(rx.try_recv().unwrap(), "10.0.0.1");
    assert!(rx.try_recv().is_err());
}

#[test]
fn full_channel_drops_the_report() {
    let (tx, rx) = channel::bounded(1);
    let actions = vec![
        Action::ReportRoute { address: String::from("1.1.1.1") },
        Action::ReportRoute { address: String::from("2.2.2.2") },
    ];
    let n = deliver_reports(&tx, &actions);
    assert_eq!(n, 2);
    assert_eq!(rx.try_recv().unwrap(), "1.1.1.1");
    assert!(rx.try_recv().is_err());
}
