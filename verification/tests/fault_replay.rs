//! Fault injection: exact decision values, seed reproducibility, and the
//! client/server scenario replayed under a fixed seed.

use simulation::clock::Duration;
use simulation::net::{Addr, IoErrorKind, ReadOutcome};
use simulation::rt::{DeterministicRuntime, SchedStep};

fn addr(port: u16) -> Addr {
    Addr { ip: 0x7F00_0001, port }
}

/// The first draws of the generator for seed 1, computed independently:
/// the state advances by the fixed constant and is scrambled by two
/// xor-shift-multiply rounds.
#[test]
fn fault_decisions_have_exact_values() {
    let mut rt = DeterministicRuntime::new_with_seed(1);
    let d0 = rt.next_fault_decision();
    // draw 0 = 0x910A2DEC89025CC1; modulo the default 100 ms ceiling + 1.
    assert_eq!(d0.extra_delay, Duration::from_nanos(88_659_719));
    // draw 1 = 0xBEEB8DA1658EEC67; 0x..67 % 1000 = 519, not below 10.
    assert!(!d0.disconnect);
    let d1 = rt.next_fault_decision();
    assert_eq!(d1.extra_delay, Duration::from_nanos(64_499_479));
    assert!(!d1.disconnect);
}

/// Two injectors with the same seed draw identical decision sequences; a
/// different seed draws a different one.
#[test]
fn same_seed_same_faults() {
    let mut a = DeterministicRuntime::new_with_seed(7);
    let mut b = DeterministicRuntime::new_with_seed(7);
    let mut c = DeterministicRuntime::new_with_seed(8);
    let mut differs = false;
    for _ in 0..64 {
        let da = a.next_fault_decision();
        let db = b.next_fault_decision();
        let dc = c.next_fault_decision();
        assert_eq!(da, db);
        if da != dc {
            differs = true;
        }
    }
    assert!(differs);
}

/// One scripted client/server exchange under fault injection. The server
/// binds `127.0.0.1:8080`, replies `"Hello World!"` after a one-second
/// delay; the client connects and reads one message, retrying after a
/// fault-injected reset. Returns the full event log with virtual
/// timestamps.
fn run_scenario(seed: u64) -> Vec<String> {
    let mut rt = DeterministicRuntime::new_with_seed(seed);
    let mut log: Vec<String> = Vec::new();
    let server = rt.spawn();
    let client = rt.spawn();
    // Park both tasks: each suspends until an event involves it.
    while let SchedStep::RunTask(t) = rt.step() {
        rt.mark_suspended(t);
    }

    let lid = rt.bind(addr(8080)).unwrap();
    log.push(format!("{} bound", rt.now().nanos));

    let mut attempts = 0;
    loop {
        attempts += 1;
        assert!(attempts <= 16, "scenario did not settle");

        let conn = match rt.connect(addr(8080)) {
            Err(e) => {
                log.push(format!("{} connect refused {:?}", rt.now().nanos, e));
                continue;
            }
            Ok(c) => c,
        };
        log.push(format!("{} connected", rt.now().nanos));

        // One fault decision per attempt, exactly as the injector task
        // would draw it; a disconnect lands on the decision's target.
        let d = rt.next_fault_decision();
        if d.disconnect {
            if let Some(cid) = rt.fault_target(d) {
                rt.disconnect_conn(cid);
                log.push(format!("{} fault: disconnect {}", rt.now().nanos, cid));
            }
        }

        let (srv_end, _) = rt.accept(lid, server).unwrap();

        // The client blocks reading; a reset from the fault above is
        // observed here and retried.
        match rt.read(conn, client) {
            ReadOutcome::Reset => {
                log.push(format!("{} read reset", rt.now().nanos));
                continue;
            }
            ReadOutcome::WouldBlock => {}
            other => panic!("unexpected read outcome {:?}", other),
        }

        // The server delays one second before replying; nothing is
        // runnable meanwhile, so the clock jumps straight to the deadline.
        let (deadline, reg) = rt.delay_from(server, Duration::from_secs(1));
        assert!(reg.is_some());
        assert_eq!(rt.step(), SchedStep::AdvancedTo(deadline));
        assert_eq!(rt.step(), SchedStep::RunTask(server));

        match rt.write(srv_end, b"Hello World!\n") {
            Err(IoErrorKind::ConnectionReset) => {
                log.push(format!("{} write reset", rt.now().nanos));
                rt.mark_suspended(server);
                continue;
            }
            Err(e) => panic!("unexpected write error {:?}", e),
            Ok(n) => assert_eq!(n, 13),
        }
        rt.mark_suspended(server);

        // The write woke the blocked client.
        assert_eq!(rt.step(), SchedStep::RunTask(client));
        match rt.read(conn, client) {
            ReadOutcome::Data(bytes) => {
                let line = String::from_utf8(bytes).unwrap();
                log.push(format!("{} read {:?}", rt.now().nanos, line.trim_end()));
                assert_eq!(line, "Hello World!\n");
                rt.mark_completed(client);
                break;
            }
            other => panic!("unexpected read outcome {:?}", other),
        }
    }
    log
}

/// Replaying seed 1 gives the identical event sequence, ending in the
/// successful read; seed 2 may retry differently but must still settle.
#[test]
fn scenario_is_reproducible_per_seed() {
    let first = run_scenario(1);
    let second = run_scenario(1);
    assert_eq!(first, second);
    assert!(first.last().unwrap().contains("Hello World!"));

    let other = run_scenario(2);
    assert!(other.last().unwrap().contains("Hello World!"));
}
