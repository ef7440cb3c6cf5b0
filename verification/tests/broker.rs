use resource_broker::error::BrokerError;
use resource_broker::events::{HostEvent, PointerEvent, WindowInput, host_event_for};
use resource_broker::graphics::{
    BackendChoice, ConfigureContextDesc, FrameAcquire, GraphicsContextBuffer, PresentMode,
};
use resource_broker::host::{HostState, PollOutcome, ResourceValue};

fn simple_desc(width: u32, height: u32) -> ConfigureContextDesc {
    ConfigureContextDesc {
        width,
        height,
        present_mode: PresentMode::Fifo,
        backend: BackendChoice::SimpleBuffer,
    }
}

fn webgpu_desc(surface: u64) -> ConfigureContextDesc {
    ConfigureContextDesc {
        width: 640,
        height: 480,
        present_mode: PresentMode::Fifo,
        backend: BackendChoice::Webgpu { surface },
    }
}

#[test]
fn end_to_end_simple_buffer() {
    let mut s = HostState::new(10);
    let ctx = s.new_context();
    assert_eq!(s.configure(ctx, simple_desc(100, 100)), Ok(()));
    let b1 = s.get_current_buffer(ctx, FrameAcquire::Lost).unwrap();
    let first = match s.table.get(b1).unwrap() {
        ResourceValue::Buffer(GraphicsContextBuffer::SimpleBuffer(sb)) => sb,
        other => panic!("expected a simple-buffer target, got {:?}", other),
    };
    let b2 = s.get_current_buffer(ctx, FrameAcquire::Lost).unwrap();
    assert_ne!(b1, b2);
    let second = match s.table.get(b2).unwrap() {
        ResourceValue::Buffer(GraphicsContextBuffer::SimpleBuffer(sb)) => sb,
        other => panic!("expected a simple-buffer target, got {:?}", other),
    };
    assert_eq!(first.buffer, second.buffer);
    assert!(s.table.get(b1).is_ok());
}

#[test]
fn dropping_context_invalidates_buffer() {
    let mut s = HostState::new(10);
    let ctx = s.new_context();
    s.configure(ctx, simple_desc(64, 64)).unwrap();
    let b = s.get_current_buffer(ctx, FrameAcquire::Lost).unwrap();
    assert!(s.table.get(b).is_ok());
    s.release(ctx);
    assert_eq!(s.table.get(b), Err(BrokerError::NoSuchHandle));
    assert_eq!(s.table.get(ctx), Err(BrokerError::NoSuchHandle));
}

#[test]
fn stale_handle_and_idempotent_release() {
    let mut s = HostState::new(10);
    let ctx = s.new_context();
    s.release(ctx);
    assert_eq!(s.table.get(ctx), Err(BrokerError::NoSuchHandle));
    s.release(ctx);
    assert_eq!(s.table.get(ctx), Err(BrokerError::NoSuchHandle));
    assert_eq!(s.configure(ctx, simple_desc(1, 1)), Err(BrokerError::NoSuchHandle));
}

#[test]
fn unconfigured_context_is_refused() {
    let mut s = HostState::new(10);
    let ctx = s.new_context();
    assert_eq!(
        s.get_current_buffer(ctx, FrameAcquire::Texture(7)),
        Err(BrokerError::Unconfigured)
    );
    assert_eq!(s.surface_to_acquire(ctx), Err(BrokerError::Unconfigured));
}

#[test]
fn webgpu_backend_passes_acquisition_through() {
    let mut s = HostState::new(10);
    let ctx = s.new_context();
    s.configure(ctx, webgpu_desc(42)).unwrap();
    assert_eq!(s.surface_to_acquire(ctx), Ok(Some(42)));
    assert_eq!(
        s.get_current_buffer(ctx, FrameAcquire::Lost),
        Err(BrokerError::SurfaceLost)
    );
    assert_eq!(
        s.get_current_buffer(ctx, FrameAcquire::Timeout),
        Err(BrokerError::SurfaceTimeout)
    );
    let b = s.get_current_buffer(ctx, FrameAcquire::Texture(7)).unwrap();
    match s.table.get(b).unwrap() {
        ResourceValue::Buffer(GraphicsContextBuffer::Webgpu(t)) => {
            assert_eq!(t.texture, 7);
            assert_eq!(t.surface, 42);
        },
        other => panic!("expected a webgpu target, got {:?}", other),
    }
}

#[test]
fn reconfigure_invalidates_outstanding_buffers() {
    let mut s = HostState::new(10);
    let ctx = s.new_context();
    s.configure(ctx, simple_desc(32, 32)).unwrap();
    let b = s.get_current_buffer(ctx, FrameAcquire::Lost).unwrap();
    s.configure(ctx, simple_desc(64, 64)).unwrap();
    assert_eq!(s.table.get(b), Err(BrokerError::NoSuchHandle));
    let b2 = s.get_current_buffer(ctx, FrameAcquire::Lost).unwrap();
    assert!(s.table.get(b2).is_ok());
}

#[test]
fn fan_out_to_two_subscriptions() {
    let mut s = HostState::new(10);
    let s1 = s.up();
    let s2 = s.up();
    s.publish(HostEvent::PointerEvent { x: 5, y: -3 });
    assert_eq!(s.ready(s1), Ok(PollOutcome::Ready));
    assert_eq!(s.ready(s2), Ok(PollOutcome::Ready));
    assert_eq!(s.get(s1), Ok(Some(PointerEvent { x: 5, y: -3 })));
    assert_eq!(s.get(s2), Ok(Some(PointerEvent { x: 5, y: -3 })));
    assert_eq!(s.get(s1), Ok(None));
    assert_eq!(s.get(s2), Ok(None));
}

#[test]
fn wait_before_any_event_is_pending() {
    let mut s = HostState::new(10);
    let sub = s.up();
    assert_eq!(s.ready(sub), Ok(PollOutcome::Pending));
    assert_eq!(s.get(sub), Ok(None));
}

#[test]
fn no_loss_between_subscribe_and_wait() {
    let mut s = HostState::new(10);
    let sub = s.up();
    s.publish(HostEvent::Frame);
    s.publish(HostEvent::PointerEvent { x: 1, y: 2 });
    assert_eq!(s.ready(sub), Ok(PollOutcome::Ready));
    assert_eq!(s.get(sub), Ok(Some(PointerEvent { x: 1, y: 2 })));
}

#[test]
fn frames_do_not_satisfy_pointer_wait() {
    let mut s = HostState::new(10);
    let sub = s.up();
    for _ in 0..5 {
        s.publish(HostEvent::Frame);
        assert_eq!(s.ready(sub), Ok(PollOutcome::Pending));
    }
    assert_eq!(s.get(sub), Ok(None));
    s.publish(HostEvent::PointerEvent { x: 9, y: 9 });
    assert_eq!(s.ready(sub), Ok(PollOutcome::Ready));
    assert_eq!(s.get(sub), Ok(Some(PointerEvent { x: 9, y: 9 })));
}

#[test]
fn released_subscription_cancels_wait() {
    let mut s = HostState::new(10);
    let sub = s.up();
    s.release(sub);
    assert_eq!(s.ready(sub), Ok(PollOutcome::Cancelled));
    s.publish(HostEvent::PointerEvent { x: 0, y: 0 });
    assert_eq!(s.ready(sub), Ok(PollOutcome::Cancelled));
}

#[test]
fn events_are_observed_in_publish_order() {
    let mut s = HostState::new(10);
    let sub = s.up();
    s.publish(HostEvent::PointerEvent { x: 1, y: 0 });
    s.publish(HostEvent::Frame);
    s.publish(HostEvent::PointerEvent { x: 2, y: 0 });
    assert_eq!(s.ready(sub), Ok(PollOutcome::Ready));
    assert_eq!(s.get(sub), Ok(Some(PointerEvent { x: 1, y: 0 })));
    assert_eq!(s.ready(sub), Ok(PollOutcome::Ready));
    assert_eq!(s.get(sub), Ok(Some(PointerEvent { x: 2, y: 0 })));
    assert_eq!(s.ready(sub), Ok(PollOutcome::Pending));
    assert_eq!(s.get(sub), Ok(None));
}

#[test]
fn slow_subscriber_sees_lag_then_recovers() {
    let mut s = HostState::new(1);
    let sub = s.up();
    s.publish(HostEvent::Frame);
    s.publish(HostEvent::PointerEvent { x: 7, y: 8 });
    assert_eq!(s.ready(sub), Err(BrokerError::SubscriptionLag));
    assert_eq!(s.ready(sub), Ok(PollOutcome::Ready));
    assert_eq!(s.get(sub), Ok(Some(PointerEvent { x: 7, y: 8 })));
}

#[test]
fn subscribe_token_is_child_of_subscription() {
    let mut s = HostState::new(10);
    let sub = s.up();
    let token = s.subscribe(sub).unwrap();
    assert!(s.table.get(token).is_ok());
    s.release(sub);
    assert_eq!(s.table.get(token), Err(BrokerError::NoSuchHandle));
}

#[test]
fn subscribe_needs_a_subscription_handle() {
    let mut s = HostState::new(10);
    let ctx = s.new_context();
    assert_eq!(s.subscribe(ctx), Err(BrokerError::NoSuchHandle));
    assert_eq!(s.get(ctx), Err(BrokerError::NoSuchHandle));
    assert_eq!(s.subscribe(999), Err(BrokerError::NoSuchHandle));
}

#[test]
fn removal_cascades_through_ownership_chains() {
    let mut t: resource_broker::table::Table<u32> = resource_broker::table::Table::new();
    let a = t.insert(1);
    let b = t.insert_child(2, a).unwrap();
    let c = t.insert_child(3, b).unwrap();
    let d = t.insert_child(4, a).unwrap();
    let lone = t.insert(5);
    assert_eq!(t.remove(b), Ok(2));
    assert_eq!(t.get(b), Err(BrokerError::NoSuchHandle));
    assert_eq!(t.get(c), Err(BrokerError::NoSuchHandle));
    assert_eq!(t.get(a), Ok(1));
    assert_eq!(t.get(d), Ok(4));
    assert_eq!(t.remove(a), Ok(1));
    assert_eq!(t.get(d), Err(BrokerError::NoSuchHandle));
    assert_eq!(t.get(lone), Ok(5));
    assert_eq!(t.remove(a), Err(BrokerError::NoSuchHandle));
    assert_eq!(t.insert_child(6, a), Err(BrokerError::NoSuchHandle));
}

#[test]
fn only_left_release_publishes_an_event() {
    assert_eq!(
        host_event_for(WindowInput::MouseLeftReleased { x: 11, y: 22 }),
        Some(HostEvent::PointerEvent { x: 11, y: 22 })
    );
    assert_eq!(host_event_for(WindowInput::CursorMoved { x: 1, y: 2 }), None);
    assert_eq!(
        host_event_for(WindowInput::Resized { width: 800, height: 600 }),
        None
    );
    assert_eq!(host_event_for(WindowInput::CloseRequested), None);
    assert_eq!(host_event_for(WindowInput::Other), None);
}
