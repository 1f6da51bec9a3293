use xenon_rt::critical_section::CriticalSection;
use xenon_rt::io::stdio::{filter_code, level_code, level_enabled, LogFilter, LogLevel};
use xenon_rt::net::{TcpListener, TcpStream, UdpSocket};
use xenon_rt::time::{Duration, Instant};

#[test]
fn gate_nests_stack_like() {
    let mut cs = CriticalSection::new();
    assert!(!cs.is_held());
    let outer = cs.acquire();
    assert!(cs.is_held());
    let inner = cs.acquire();
    assert!(cs.is_held());
    cs.release(inner);
    assert!(cs.is_held());
    cs.release(outer);
    assert!(!cs.is_held());
}

#[test]
fn log_level_wire_codes() {
    assert_eq!(level_code(LogLevel::Error), 1);
    assert_eq!(level_code(LogLevel::Warn), 2);
    assert_eq!(level_code(LogLevel::Info), 3);
    assert_eq!(level_code(LogLevel::Debug), 4);
    assert_eq!(level_code(LogLevel::Trace), 5);
    assert_eq!(filter_code(LogFilter::Off), 0);
    assert_eq!(filter_code(LogFilter::Trace), 5);
}

#[test]
fn log_level_filtering() {
    // The logger emits a record when its rank reaches the cap's rank.
    assert!(level_enabled(LogLevel::Trace, LogFilter::Info));
    assert!(level_enabled(LogLevel::Info, LogFilter::Info));
    assert!(!level_enabled(LogLevel::Error, LogFilter::Info));
    assert!(level_enabled(LogLevel::Error, LogFilter::Off));
    assert!(level_enabled(LogLevel::Error, LogFilter::Error));
    assert!(!level_enabled(LogLevel::Debug, LogFilter::Trace));
}

#[test]
fn instant_duration_since_saturates() {
    let early = Instant::from_micros(1_000);
    let late = Instant::from_micros(3_500);
    assert_eq!(late.duration_since(&early).micros(), 2_500);
    assert_eq!(early.duration_since(&late).micros(), 0);
    assert_eq!(early.duration_since(&early).micros(), 0);
    assert_eq!(early.micros(), 1_000);
    assert_eq!(Duration::from_micros(77).micros(), 77);
}

#[test]
fn socket_handles_round_trip() {
    assert_eq!(TcpStream::from_handle(5).handle(), 5);
    assert_eq!(TcpListener::from_handle(6).handle(), 6);
    assert_eq!(UdpSocket::from_handle(7).handle(), 7);
}
