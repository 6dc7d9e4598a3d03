use std::path::PathBuf;

use synesthesia::flight::{FlightError, FlightState};
use synesthesia::source::scheduler::{SchedulerDecodeError, SchedulerSourceError};
use synesthesia::source::scheduler_ipc::SchedulerWireError;
use synesthesia::source::tcp::{TcpDecodeError, TcpSourceError};
use synesthesia::source::tcp_ipc::TcpWireError;

#[test]
fn source_errors_describe_themselves() {
    assert_eq!(
        SchedulerSourceError::Load("no helper".to_owned()).message(),
        "could not load the eBPF scheduler source: no helper"
    );
    assert_eq!(
        SchedulerSourceError::UnsupportedArchitecture("riscv64".to_owned()).message(),
        "unsupported architecture riscv64; this build currently supports x86_64"
    );
    assert_eq!(
        TcpSourceError::VerifierRejected("bad access".to_owned()).message(),
        "the kernel eBPF verifier rejected the TCP pathology program: bad access"
    );
    assert_eq!(
        TcpSourceError::RingBufferSetup("full".to_owned()).message(),
        "could not create or read the TCP eBPF ring buffer: full"
    );
}

#[test]
fn decode_errors_name_sizes_kinds_and_versions() {
    assert_eq!(
        SchedulerDecodeError::WrongSize { expected: 48, actual: 3 }.message(),
        "scheduler event has 3 bytes; expected exactly 48"
    );
    assert_eq!(
        SchedulerDecodeError::InvalidCpu(9000).message(),
        "scheduler event CPU 9000 exceeds the supported bound"
    );
    assert_eq!(
        TcpDecodeError::UnsupportedVersion(2).message(),
        "unsupported TCP pathology event version 2; supported kernel event version is 1"
    );
    assert_eq!(TcpDecodeError::UnsupportedFamily(7).message(), "unsupported TCP address family 7");
}

#[test]
fn wire_errors_describe_the_helper_stream() {
    assert_eq!(SchedulerWireError::WrongSize(3).message(), "scheduler helper record has 3 bytes; expected 64");
    assert_eq!(
        SchedulerWireError::Truncated(10).message(),
        "scheduler helper stream ended after 10 bytes of a record"
    );
    assert_eq!(TcpWireError::WrongSize(5).message(), "TCP helper record has 5 bytes; expected 96");
    assert_eq!(TcpWireError::UnsupportedFamily(7).message(), "unsupported TCP pulse address family 7");
    let failed = TcpWireError::Io(std::io::Error::new(std::io::ErrorKind::Other, "pipe closed"));
    assert_eq!(failed.message(), "TCP helper I/O failed: pipe closed");
}

#[test]
fn recorder_errors_describe_themselves() {
    assert_eq!(
        FlightError::IllegalTransition { state: FlightState::Armed, operation: "arm" }.message(),
        "cannot arm flight recorder while it is Armed"
    );
    assert_eq!(
        FlightError::UnsupportedMetadataVersion(99).message(),
        "unsupported flight metadata version 99; supported version is 1"
    );
    assert_eq!(
        FlightError::OutputExists(PathBuf::from("/tmp/incident.ndjson")).message(),
        "refusing to overwrite existing incident /tmp/incident.ndjson"
    );
    assert_eq!(
        FlightError::InvalidConfig("too long".to_owned()).message(),
        "invalid flight-recorder configuration: too long"
    );
}
