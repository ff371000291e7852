use rvm::fuel::{fuel_consumed, FuelMeter, GuestOutcome, WorkerReply, FUEL_CEILING};
use rvm::status::{invoke_error_status, InvokeError};

#[test]
fn consumed_is_before_minus_after() {
    assert_eq!(fuel_consumed(100, 40), 60);
    assert_eq!(fuel_consumed(100, 100), 0);
}

#[test]
fn consumed_saturates_at_zero() {
    assert_eq!(fuel_consumed(5, 10), 0);
}

#[test]
fn fuel_headers_on_successful_responses() {
    let mut meter = FuelMeter::new();
    let reply = meter.serve(&GuestOutcome::Response { fuel_after: 99_999_000 });
    assert_eq!(
        reply,
        WorkerReply::Respond { fuel_remaining: 99_999_000, fuel_consumed: 1_000 }
    );
    let reply = meter.serve(&GuestOutcome::Response { fuel_after: 99_000_000 });
    assert_eq!(
        reply,
        WorkerReply::Respond { fuel_remaining: 99_000_000, fuel_consumed: 999_000 }
    );
    // The consumed amounts sum to the distance from the ceiling.
    assert_eq!(1_000u64 + 999_000, FUEL_CEILING - 99_000_000);
}

#[test]
fn fuel_exhaustion_trap_warns_and_maps_to_500() {
    let mut meter = FuelMeter::new();
    let reply = meter.serve(&GuestOutcome::Trap { out_of_fuel: true });
    assert_eq!(reply, WorkerReply::ConfigError { fuel_warning: true });
    // The structured error surfaces to the caller as an internal error.
    assert_eq!(invoke_error_status(&InvokeError::GuestFailure), 500);
}

#[test]
fn meter_settles_after_failed_invocation() {
    let mut meter = FuelMeter::new();
    let reply = meter.serve(&GuestOutcome::Trap { out_of_fuel: false });
    assert_eq!(reply, WorkerReply::ConfigError { fuel_warning: false });
    // The trap burned fuel; the worker settles the meter to the store's
    // counter before serving the next message.
    meter.settle(99_000_000);
    assert_eq!(meter.remaining(), 99_000_000);
    // The next successful response states this message's difference alone.
    let reply = meter.serve(&GuestOutcome::Response { fuel_after: 98_500_000 });
    assert_eq!(
        reply,
        WorkerReply::Respond { fuel_remaining: 98_500_000, fuel_consumed: 500_000 }
    );
}

#[test]
fn other_traps_do_not_warn() {
    let mut meter = FuelMeter::new();
    let reply = meter.serve(&GuestOutcome::Trap { out_of_fuel: false });
    assert_eq!(reply, WorkerReply::ConfigError { fuel_warning: false });
}

#[test]
fn guest_error_is_forwarded() {
    let mut meter = FuelMeter::new();
    assert_eq!(meter.serve(&GuestOutcome::GuestError), WorkerReply::ForwardError);
}

#[test]
fn dropped_response_channel_stays_silent() {
    let mut meter = FuelMeter::new();
    assert_eq!(meter.serve(&GuestOutcome::NoResponse), WorkerReply::Silent);
}
