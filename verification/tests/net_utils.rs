//! Socket buffers and system limits.

use cncnet_server::net::utils::{
    format_bytes, get_system_socket_limits, log_socket_limits, BufferSetup, BufferStep,
    BufferVerdict, LimitError, LimitReport, SystemLimits,
};

fn linux(rmem_max: &str, wmem_max: &str) -> SystemLimits {
    SystemLimits::Linux {
        rmem_max: Some(rmem_max.to_string()),
        wmem_max: Some(wmem_max.to_string()),
    }
}

#[test]
fn test_system_limits() {
    let system = linux("212992\n", "212992\n");
    let _ = get_system_socket_limits(&system);
    log_socket_limits(get_system_socket_limits(&system));
}

#[test]
fn test_format_bytes() {
    assert_eq!(format_bytes(100), "100 B");
    assert_eq!(format_bytes(1024), "1.0 KB");
    assert_eq!(format_bytes(1536), "1.5 KB");
    assert_eq!(format_bytes(1048576), "1.0 MB");
    assert_eq!(format_bytes(1073741824), "1.0 GB");
}

fn with_floats(bytes: usize) -> String {
    let units = ["B", "KB", "MB", "GB"];
    let mut size = bytes as f64;
    let mut unit = 0;
    while size >= 1024.0 && unit < 3 {
        size /= 1024.0;
        unit += 1;
    }
    if unit == 0 {
        format!("{} {}", bytes, units[0])
    } else {
        format!("{:.1} {}", size, units[unit])
    }
}

#[test]
fn sizes_round_as_floats_do() {
    let mut samples: Vec<usize> = vec![0, 1, 1023, 1024, 1075, 1076, 1280, 1792, 2304, 2816];
    for shift in [10, 20, 30, 40] {
        for n in 1..400usize {
            samples.push((1usize << shift) + n * ((1usize << shift) / 40));
            samples.push((1usize << shift) * n / 3);
        }
    }
    samples.push(1024 * 1024 - 1);
    samples.push(1024 * 1024 * 1024 - 1);
    samples.push(1 << 50);
    for bytes in samples {
        assert_eq!(format_bytes(bytes), with_floats(bytes), "{}", bytes);
    }
}

#[test]
fn limits_are_read() {
    assert_eq!(
        get_system_socket_limits(&linux("134217728\n", " 65536 \n")),
        Ok((134217728, 65536))
    );
    assert_eq!(get_system_socket_limits(&linux("x", "65536")), Err(LimitError::Receive));
    assert_eq!(get_system_socket_limits(&linux("65536", "")), Err(LimitError::Send));
    let unreadable = SystemLimits::Linux { rmem_max: None, wmem_max: Some("1".to_string()) };
    assert_eq!(get_system_socket_limits(&unreadable), Err(LimitError::Receive));
    let half = SystemLimits::Linux { rmem_max: Some("1".to_string()), wmem_max: None };
    assert_eq!(get_system_socket_limits(&half), Err(LimitError::Send));
}

#[test]
fn other_systems_give_their_limits_otherwise() {
    let mac = SystemLimits::MacOs { maxsockbuf: Some("8388608\n".to_string()) };
    assert_eq!(get_system_socket_limits(&mac), Ok((8388608, 8388608)));
    let odd = SystemLimits::MacOs { maxsockbuf: Some("unknown oid".to_string()) };
    assert_eq!(get_system_socket_limits(&odd), Ok((0, 0)));
    let none = SystemLimits::MacOs { maxsockbuf: None };
    assert_eq!(get_system_socket_limits(&none), Err(LimitError::Command));
    assert_eq!(get_system_socket_limits(&SystemLimits::Windows), Ok((65536, 65536)));
    assert_eq!(get_system_socket_limits(&SystemLimits::Other), Ok((0, 0)));
}

#[test]
fn low_limits_are_reported() {
    assert_eq!(log_socket_limits(Err(LimitError::Send)), LimitReport::Unread(LimitError::Send));
    assert_eq!(log_socket_limits(Ok((0, 131_072))), LimitReport::Unknown);
    assert_eq!(
        log_socket_limits(Ok((262_144, 131_072))),
        LimitReport::Sufficient(262_144, 131_072)
    );
    assert_eq!(log_socket_limits(Ok((262_143, 131_072))), LimitReport::Low(262_143, 131_072));
    assert_eq!(log_socket_limits(Ok((262_144, 131_071))), LimitReport::Low(262_144, 131_071));
}

fn negotiate(largest: usize) -> BufferSetup {
    let mut setup = BufferSetup::new();
    loop {
        match setup.step() {
            BufferStep::Receive(size) => setup.record(size <= largest),
            BufferStep::Send(size) => setup.record(size <= largest),
            BufferStep::Check => return setup,
        }
    }
}

#[test]
fn the_largest_accepted_sizes_are_taken() {
    let setup = negotiate(1 << 30);
    assert_eq!(setup.verdict(setup.recv_size), BufferVerdict::Good);
    let setup = negotiate(0);
    assert_eq!((setup.recv_size, setup.send_size), (0, 0));
    assert_eq!(setup.verdict(0), BufferVerdict::Failed);
    let setup = negotiate(40_000);
    assert!(setup.recv_size <= 40_000);
    assert_eq!(setup.verdict(setup.recv_size), BufferVerdict::BelowRecommended);
    assert_eq!(setup.verdict(1000), BufferVerdict::TooSmall);
}
