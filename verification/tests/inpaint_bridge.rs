use prunr_app::inpaint_bridge::{
    switch_model, BridgeError, DispatchStep, InpaintBridge, InpaintBridgeResult, InpaintEvent, PendingDispatch,
    SpawnStep, SubState, WarmWorker, IDLE_RELEASE, MEMORY_PRESSURE_THRESHOLD_BYTES,
};

fn stroke(item_id: u64) -> PendingDispatch<&'static str> {
    PendingDispatch { item_id, params: "p" }
}

/// A bridge whose worker is up.
fn ready() -> InpaintBridge<&'static str> {
    let mut b = InpaintBridge::new(0);
    assert!(matches!(b.handle_dispatch(1, 1, stroke(7)), DispatchStep::Spawn));
    match b.poll_spawn_result(Ok(())) {
        SpawnStep::Replay(v) => assert_eq!(v.len(), 1),
        _ => panic!("the stroke is sent"),
    }
    b
}

#[test]
fn strokes_wait_for_the_worker_in_order() {
    let mut b: InpaintBridge<&str> = InpaintBridge::new(0);
    assert!(matches!(b.handle_dispatch(1, 1, stroke(7)), DispatchStep::Spawn));
    assert!(matches!(b.handle_dispatch(2, 1, stroke(8)), DispatchStep::Queued));
    match b.poll_spawn_result(Ok(())) {
        SpawnStep::Replay(v) => {
            assert_eq!(v.iter().map(|p| p.item_id).collect::<Vec<_>>(), vec![7, 8]);
        }
        _ => panic!("the strokes are sent"),
    }
    assert!(matches!(b.handle_dispatch(3, 2, stroke(7)), DispatchStep::Send(_)));
    assert_eq!(b.inflight_gens.get(&7), Some(&2));
}

#[test]
fn a_worker_that_does_not_start_fails_every_stroke() {
    let mut b: InpaintBridge<&str> = InpaintBridge::new(0);
    b.handle_dispatch(1, 1, stroke(7));
    b.handle_dispatch(1, 1, stroke(8));
    match b.poll_spawn_result(Err("no".into())) {
        SpawnStep::Fail(v) => assert_eq!(v.len(), 2),
        _ => panic!("the strokes fail"),
    }
    assert!(matches!(b.state, SubState::Idle));
    assert!(b.inflight_gens.is_empty());
}

#[test]
fn a_cancel_while_starting_kills_the_worker_once_it_is_up() {
    let mut b: InpaintBridge<&str> = InpaintBridge::new(0);
    b.handle_dispatch(1, 1, stroke(7));
    let step = b.handle_cancel();
    assert!(!step.kill);
    assert!(matches!(
        step.results[0],
        InpaintBridgeResult::Error { item_id: 7, error: BridgeError::Cancelled }
    ));
    assert!(matches!(b.poll_spawn_result(Ok(())), SpawnStep::Kill));
    assert!(matches!(b.state, SubState::Idle));
}

#[test]
fn a_cancel_kills_a_running_worker() {
    let mut b = ready();
    let step = b.handle_cancel();
    assert!(step.kill);
    assert_eq!(step.results.len(), 1);
    let again = b.handle_cancel();
    assert!(!again.kill && again.results.is_empty());
}

#[test]
fn low_memory_kills_a_running_worker() {
    let mut b = ready();
    assert!(!b.check_memory(MEMORY_PRESSURE_THRESHOLD_BYTES).kill);
    assert!(!b.check_memory(0).kill, "an unknown amount is no pressure");
    let step = b.check_memory(1);
    assert!(step.kill);
    assert!(matches!(
        step.results[0],
        InpaintBridgeResult::Error { item_id: 7, error: BridgeError::MemoryPressure }
    ));
}

#[test]
fn events_carry_the_generation_of_their_stroke() {
    let mut b = ready();
    let p = b.on_event(5, InpaintEvent::Progress { item_id: 7, current: 1, total: 8 });
    assert!(matches!(p, Some(InpaintBridgeResult::Progress { current: 1, total: 8, .. })));
    let d = b.on_event(
        6,
        InpaintEvent::Done { item_id: 7, rgba_path: "/r".into(), width: 2, height: 3 },
    );
    assert!(matches!(d, Some(InpaintBridgeResult::Done { item_id: 7, gen: 1, .. })));
    assert!(b.on_event(7, InpaintEvent::Other).is_none());
}

#[test]
fn an_idle_worker_is_released() {
    let mut b = ready();
    assert!(!b.release_if_idle(IDLE_RELEASE, true));
    assert!(!b.release_if_idle(IDLE_RELEASE + 2, false));
    assert!(b.release_if_idle(IDLE_RELEASE + 2, true));
    assert!(!b.disconnect());
}

#[test]
fn a_stroke_that_cannot_be_sent_is_forgotten() {
    let mut b = ready();
    let r = b.send_failed(7, "broken pipe".into());
    assert!(matches!(r, InpaintBridgeResult::Error { item_id: 7, error: BridgeError::Failed(_) }));
    assert!(b.inflight_gens.is_empty());
    assert!(b.disconnect());
}

#[test]
fn a_switch_of_the_model_lets_go_of_the_workers() {
    let mut b = ready();
    let mut warm = WarmWorker { held: true };
    let r = switch_model(&mut b, &mut warm, "LaMa");
    assert!(r.eraser.kill && r.segmentation);
    assert_eq!((r.eraser.results.len(), r.text.as_str()), (1, "LaMa loaded"));
    assert!(matches!(b.state, SubState::Idle) && b.inflight_gens.is_empty());
    let r = switch_model(&mut b, &mut warm, "LaMa");
    assert!(!r.eraser.kill && !r.segmentation && r.eraser.results.is_empty());

    let mut b: InpaintBridge<&str> = InpaintBridge::new(0);
    b.handle_dispatch(1, 1, stroke(7));
    let r = b.release();
    assert!(!r.kill);
    assert_eq!(r.results.len(), 1, "the stroke that waits is answered");
    assert!(matches!(b.poll_spawn_result(Ok(())), SpawnStep::Kill));
}
