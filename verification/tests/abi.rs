use wasamo_runtime::abi::{
    check_not_diverged, check_not_in_drain, check_not_in_observer, check_owning_thread, guard_mutating,
    guard_structural, DivergenceDiagnostics, GuardFacts, LastError, WASAMO_ERR_NOT_INITIALIZED,
    WASAMO_ERR_OBSERVER_MUTATION, WASAMO_ERR_REACTIVE_DIVERGED, WASAMO_ERR_REENTRANT_LOAD, WASAMO_ERR_WRONG_THREAD,
};

fn healthy() -> GuardFacts {
    GuardFacts {
        initialized: true,
        owning_thread: true,
        diverged: false,
        divergence: None,
        in_drain: false,
        in_observer_callback: false,
    }
}

#[test]
fn thread_check_reports_missing_init_before_the_wrong_thread() {
    let r = check_owning_thread("wasamo_run", false, false).unwrap();
    assert_eq!(r.status, WASAMO_ERR_NOT_INITIALIZED);
    assert_eq!(r.message, "wasamo_run: wasamo_init has not been called");
    let r = check_owning_thread("wasamo_run", true, false).unwrap();
    assert_eq!(r.status, WASAMO_ERR_WRONG_THREAD);
    assert_eq!(
        r.message,
        "wasamo_run: called from non-owning thread (must be the thread that called wasamo_init)"
    );
    assert!(check_owning_thread("wasamo_run", true, true).is_none());
}

#[test]
fn divergence_message_carries_the_diagnostics() {
    let d = Some(DivergenceDiagnostics {
        offending_effect_id: 7,
        iteration_count: 100,
        last_dirty_signal_ids: vec![3, 14, 15],
    });
    let r = check_not_diverged("wasamo_quit", true, &d).unwrap();
    assert_eq!(r.status, WASAMO_ERR_REACTIVE_DIVERGED);
    assert_eq!(
        r.message,
        "wasamo_quit: runtime is in Diverged state; call wasamo_runtime_destroy \
         (offending effect id=7, iterations=100, last dirty signals=[3, 14, 15])"
    );
    let r = check_not_diverged("wasamo_quit", true, &None).unwrap();
    assert_eq!(r.message, "wasamo_quit: runtime is in Diverged state; call wasamo_runtime_destroy");
    assert!(check_not_diverged("wasamo_quit", false, &d).is_none());
}

#[test]
fn phase_checks_name_their_phase() {
    let r = check_not_in_drain("wasamo_load_ui", true).unwrap();
    assert_eq!(r.status, WASAMO_ERR_REENTRANT_LOAD);
    assert_eq!(r.message, "wasamo_load_ui: structure-changing ABI called during reactive drain (Phase 1)");
    let r = check_not_in_observer("wasamo_set_property", true).unwrap();
    assert_eq!(r.status, WASAMO_ERR_OBSERVER_MUTATION);
    assert_eq!(
        r.message,
        "wasamo_set_property: state-mutating ABI called from within observer callback (Phase 3)"
    );
    assert!(check_not_in_drain("x", false).is_none());
    assert!(check_not_in_observer("x", false).is_none());
}

#[test]
fn structural_guard_refuses_during_phase_one_but_mutating_guard_does_not() {
    let mut f = healthy();
    f.in_drain = true;
    assert_eq!(guard_structural("wasamo_load_ui", &f).unwrap().status, WASAMO_ERR_REENTRANT_LOAD);
    assert!(guard_mutating("wasamo_set_property", &f).is_none());
    assert!(guard_structural("wasamo_load_ui", &healthy()).is_none());
}

#[test]
fn divergence_takes_precedence_over_the_phase_checks() {
    let mut f = healthy();
    f.diverged = true;
    f.in_drain = true;
    f.in_observer_callback = true;
    assert_eq!(guard_structural("wasamo_run", &f).unwrap().status, WASAMO_ERR_REACTIVE_DIVERGED);
    assert_eq!(guard_mutating("wasamo_run", &f).unwrap().status, WASAMO_ERR_REACTIVE_DIVERGED);
    f.owning_thread = false;
    assert_eq!(guard_mutating("wasamo_run", &f).unwrap().status, WASAMO_ERR_WRONG_THREAD);
}

#[test]
fn last_error_stores_clears_and_replaces_nul_messages() {
    let mut e = LastError::new();
    assert_eq!(e.message(), None);
    e.set_last_error("wasamo_run: boom".to_string());
    assert_eq!(e.message(), Some("wasamo_run: boom"));
    e.set_last_error("bad\0message".to_string());
    assert_eq!(e.message(), Some("(error message contained NUL)"));
    e.clear_last_error();
    assert_eq!(e.message(), None);
}
