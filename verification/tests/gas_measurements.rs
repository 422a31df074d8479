//! Timing of the library's operations (computational cost, not on-chain gas).
use arbishield::address::Address;
use arbishield::alert_registry::AlertRegistry;
use arbishield::circuit_breaker::CircuitBreaker;
use arbishield::detection_engine::DetectionEngine;
use arbishield::word::U256;

fn w(x: u64) -> U256 {
    U256::from_u64(x)
}

fn repeat_byte(b: u8) -> Address {
    Address::new([b; 20])
}

const TIMESTAMP: u64 = 1_234_567_890;

struct GasMeasurement {
    operation: String,
    iterations: u32,
    total_time_ns: u128,
    avg_time_ns: u128,
}

impl GasMeasurement {
    fn print_report(&self) {
        println!("\n{}", "=".repeat(70));
        println!("Operation: {}", self.operation);
        println!("Iterations: {}", self.iterations);
        println!("Total Time: {} ns", self.total_time_ns);
        println!("Average Time: {} ns", self.avg_time_ns);
        println!("{}", "=".repeat(70));
    }
}

fn measure_operation<F: FnMut()>(operation: &str, iterations: u32, mut f: F) -> GasMeasurement {
    let start = std::time::Instant::now();
    for _ in 0..iterations {
        f();
    }
    let total_time_ns = start.elapsed().as_nanos();
    GasMeasurement {
        operation: operation.to_string(),
        iterations,
        total_time_ns,
        avg_time_ns: total_time_ns / iterations as u128,
    }
}

fn breaker(owner: Address) -> CircuitBreaker {
    let mut cb = CircuitBreaker::new();
    cb.init(&owner).unwrap();
    cb
}

fn breaker_with(owner: Address, protocol: Address) -> CircuitBreaker {
    let mut cb = breaker(owner);
    cb.register_protocol(&owner, protocol, TIMESTAMP).unwrap();
    cb
}

fn engine(owner: Address) -> DetectionEngine {
    let mut e = DetectionEngine::new();
    e.init(&owner).unwrap();
    e
}

fn registry(owner: Address) -> AlertRegistry {
    let mut r = AlertRegistry::new();
    r.init(&owner).unwrap();
    r
}

fn register(ar: &mut AlertRegistry, owner: Address, protocol: Address, threat: u64, pattern: u64, now: u64) -> U256 {
    ar.register_enhanced_alert(&owner, protocol, w(threat), w(pattern), [0; 32], owner, now).unwrap()
}

#[test]
fn gas_measurement_circuit_breaker_pause() {
    let owner = repeat_byte(0x01);
    let protocol = repeat_byte(0x42);
    let m = measure_operation("CircuitBreaker::pause", 10_000, || {
        let mut cb = breaker_with(owner, protocol);
        cb.trip_protocol(&owner, protocol, TIMESTAMP).unwrap();
    });
    m.print_report();
}

#[test]
fn gas_measurement_circuit_breaker_resume() {
    let owner = repeat_byte(0x01);
    let protocol = repeat_byte(0x42);
    let m = measure_operation("CircuitBreaker::resume", 10_000, || {
        let mut cb = breaker_with(owner, protocol);
        cb.trip_protocol(&owner, protocol, TIMESTAMP).unwrap();
        cb.reset_protocol(&owner, protocol, TIMESTAMP + 3600).unwrap();
    });
    m.print_report();
}

#[test]
fn gas_measurement_circuit_breaker_trip() {
    let owner = repeat_byte(0x01);
    let m = measure_operation("CircuitBreaker::trip", 10_000, || {
        let mut cb = breaker(owner);
        cb.trip(&owner, TIMESTAMP).unwrap();
    });
    m.print_report();
}

#[test]
fn gas_measurement_circuit_breaker_reset() {
    let owner = repeat_byte(0x01);
    let m = measure_operation("CircuitBreaker::reset", 10_000, || {
        let mut cb = breaker(owner);
        cb.trip(&owner, TIMESTAMP).unwrap();
        cb.reset(&owner, TIMESTAMP).unwrap();
    });
    m.print_report();
}

#[test]
fn gas_measurement_circuit_breaker_is_tripped() {
    let owner = repeat_byte(0x01);
    let mut cb = breaker(owner);
    cb.trip(&owner, TIMESTAMP).unwrap();
    let m = measure_operation("CircuitBreaker::is_tripped", 100_000, || {
        assert!(cb.is_active());
    });
    m.print_report();
}

#[test]
fn gas_measurement_detection_configure_threshold() {
    let owner = repeat_byte(0x01);
    let m = measure_operation("DetectionEngine::configure_threshold", 10_000, || {
        let mut de = engine(owner);
        de.register_metric(&owner, w(1), w(100)).unwrap();
    });
    m.print_report();
}

#[test]
fn gas_measurement_detection_report_metric() {
    let owner = repeat_byte(0x01);
    let m = measure_operation("DetectionEngine::report_metric", 10_000, || {
        let mut de = engine(owner);
        de.register_metric(&owner, w(1), w(100)).unwrap();
        de.report_metric(w(1), w(75)).unwrap();
    });
    m.print_report();
}

#[test]
fn gas_measurement_detection_check_anomaly() {
    let owner = repeat_byte(0x01);
    let mut de = engine(owner);
    de.register_metric(&owner, w(1), w(100)).unwrap();
    de.report_metric(w(1), w(150)).unwrap();
    let m = measure_operation("DetectionEngine::check_anomaly", 100_000, || {
        assert_eq!(de.check_anomaly(w(1)), Ok(true));
    });
    m.print_report();
}

#[test]
fn gas_measurement_alert_register_enhanced() {
    let owner = repeat_byte(0x01);
    let protocol = repeat_byte(0x42);
    let m = measure_operation("AlertRegistry::register_enhanced_alert", 10_000, || {
        let mut ar = registry(owner);
        register(&mut ar, owner, protocol, 75, 0x01, TIMESTAMP);
    });
    m.print_report();
}

#[test]
fn gas_measurement_alert_acknowledge() {
    let owner = repeat_byte(0x01);
    let protocol = repeat_byte(0x42);
    let m = measure_operation("AlertRegistry::acknowledge_alert", 10_000, || {
        let mut ar = registry(owner);
        let id = register(&mut ar, owner, protocol, 75, 0x01, TIMESTAMP);
        ar.acknowledge_alert(&protocol, id, TIMESTAMP).unwrap();
    });
    m.print_report();
}

#[test]
fn gas_measurement_alert_grant_role() {
    let owner = repeat_byte(0x01);
    let account = repeat_byte(0x42);
    let m = measure_operation("AlertRegistry::grant_role", 10_000, || {
        let mut ar = registry(owner);
        ar.grant_role(&owner, account, 0x01).unwrap();
    });
    m.print_report();
}

#[test]
fn gas_measurement_alert_get_count() {
    let owner = repeat_byte(0x01);
    let protocol = repeat_byte(0x42);
    let mut ar = registry(owner);
    for _ in 0..10 {
        register(&mut ar, owner, protocol, 75, 0x01, TIMESTAMP);
    }
    let m = measure_operation("AlertRegistry::get_enhanced_alert_count", 100_000, || {
        assert_eq!(ar.get_enhanced_alert_count(), w(10));
    });
    m.print_report();
}

#[test]
fn gas_measurement_batch_alert_registration() {
    let owner = repeat_byte(0x01);
    let m = measure_operation("Batch: Register 5 Alerts", 1_000, || {
        let mut ar = registry(owner);
        for i in 0..5u64 {
            register(&mut ar, owner, repeat_byte(0x40 + i as u8), 60 + i * 10, 0x01 << i, TIMESTAMP + i);
        }
    });
    m.print_report();
}

#[test]
fn gas_measurement_batch_threshold_configuration() {
    let owner = repeat_byte(0x01);
    let m = measure_operation("Batch: Configure 10 Thresholds", 1_000, || {
        let mut de = engine(owner);
        for i in 0..10u64 {
            de.register_metric(&owner, w(i), w(100 + i * 10)).unwrap();
        }
    });
    m.print_report();
}

#[test]
fn gas_measurement_batch_pause_operations() {
    let owner = repeat_byte(0x01);
    let protocols: Vec<Address> = (0..5u8).map(|i| repeat_byte(0x40 + i)).collect();
    let m = measure_operation("Batch: Pause 5 Protocols", 1_000, || {
        let mut cb = breaker(owner);
        for p in &protocols {
            cb.register_protocol(&owner, *p, TIMESTAMP).unwrap();
        }
        cb.trip_multiple_protocols(&owner, protocols.clone(), TIMESTAMP).unwrap();
    });
    m.print_report();
}

#[test]
fn gas_measurement_storage_scalability() {
    println!("\n{}", "=".repeat(70));
    println!("STORAGE SCALABILITY TEST");
    println!("{}", "=".repeat(70));
    let owner = repeat_byte(0x01);
    for count in [1u64, 5, 10, 20, 50, 100] {
        let m = measure_operation(&format!("Register {count} Alerts"), 100, || {
            let mut ar = registry(owner);
            for i in 0..count {
                register(&mut ar, owner, repeat_byte((i % 255 + 1) as u8), 50 + i % 50, 0x01, TIMESTAMP);
            }
        });
        println!("{} alerts: {} ns (avg)", count, m.avg_time_ns);
    }
    println!("{}", "=".repeat(70));
}

#[test]
fn gas_measurement_comprehensive_summary() {
    println!("\n{}", "=".repeat(80));
    println!("COMPREHENSIVE GAS MEASUREMENT SUMMARY");
    println!("{}", "=".repeat(80));
    println!("\n{:<40} {:<15} {:<15}", "Operation", "Iterations", "Avg Time (ns)");
    println!("{}", "-".repeat(80));
    let owner = repeat_byte(0x01);
    let protocol = repeat_byte(0x42);
    let mut rows: Vec<GasMeasurement> = Vec::new();
    rows.push(measure_operation("CB: Pause", 10_000, || {
        let mut cb = breaker_with(owner, protocol);
        cb.trip_protocol(&owner, protocol, TIMESTAMP).unwrap();
    }));
    rows.push(measure_operation("CB: Resume", 10_000, || {
        let mut cb = breaker_with(owner, protocol);
        cb.trip_protocol(&owner, protocol, TIMESTAMP).unwrap();
        cb.reset_protocol(&owner, protocol, TIMESTAMP + 3600).unwrap();
    }));
    rows.push(measure_operation("CB: Trip", 10_000, || {
        let mut cb = breaker(owner);
        cb.trip(&owner, TIMESTAMP).unwrap();
    }));
    rows.push(measure_operation("CB: Reset", 10_000, || {
        let mut cb = breaker(owner);
        cb.trip(&owner, TIMESTAMP).unwrap();
        cb.reset(&owner, TIMESTAMP).unwrap();
    }));
    rows.push(measure_operation("DE: Configure Threshold", 10_000, || {
        let mut de = engine(owner);
        de.register_metric(&owner, w(1), w(100)).unwrap();
    }));
    rows.push(measure_operation("DE: Report Metric", 10_000, || {
        let mut de = engine(owner);
        de.register_metric(&owner, w(1), w(100)).unwrap();
        de.report_metric(w(1), w(75)).unwrap();
    }));
    rows.push(measure_operation("DE: Check Anomaly", 10_000, || {
        let mut de = engine(owner);
        de.register_metric(&owner, w(1), w(100)).unwrap();
        de.report_metric(w(1), w(150)).unwrap();
        let _ = de.check_anomaly(w(1));
    }));
    rows.push(measure_operation("AR: Register Alert", 10_000, || {
        let mut ar = registry(owner);
        register(&mut ar, owner, protocol, 75, 1, TIMESTAMP);
    }));
    rows.push(measure_operation("AR: Acknowledge Alert", 10_000, || {
        let mut ar = registry(owner);
        let id = register(&mut ar, owner, protocol, 75, 1, TIMESTAMP);
        ar.acknowledge_alert(&protocol, id, TIMESTAMP).unwrap();
    }));
    rows.push(measure_operation("AR: Grant Role", 10_000, || {
        let mut ar = registry(owner);
        ar.grant_role(&owner, protocol, 0x01).unwrap();
    }));
    for m in &rows {
        println!("{:<40} {:<15} {:<15}", m.operation, m.iterations, m.avg_time_ns);
    }
    println!("{}", "=".repeat(80));
    println!("\nNote: These are computational complexity measurements, not actual on-chain gas costs.");
    println!("{}", "=".repeat(80));
}
