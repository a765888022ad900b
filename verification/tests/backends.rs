use rinfra_plugins::cluster::{
    admission, next_backoff, registration_outcome, Admission, ClusterCodec, ClusterMessage, ConnectedRegistry,
    ConnectionHandle, ConnectionState, Endpoint, NodeRole, NodeStatus, RegisterReply, ServerAction, ServerEvent,
    ServerSession,
};
use rinfra_plugins::crypto::{AesGcmCrypto, EnvKeyProvider, FileKeyConfig, FileKeyProvider};
use rinfra_plugins::error::ErrorCode;
use rinfra_plugins::frame::{Decoded, FrameError, LengthDelimited};
use rinfra_plugins::keys::{RotatingKeyConfig, RotatingKeyProvider};
use rinfra_plugins::lock::InMemoryLock;
use rinfra_plugins::mq::{Delivery, InMemoryBus, MemoryMqConfig};
use rinfra_plugins::remote::{
    first_header_values, group_create_outcome, read_retry_delay_ms, stream_message, xack_args, xadd_args,
    xgroup_create_args, CmdArg, NatsBus, PendingAcks, RedisLock, RedisLockConfig, RedisStreamBus,
};

// ── Redis and NATS naming ───────────────────────────────────────────

#[test]
fn test_stream_key_mapping() {
    assert_eq!(RedisStreamBus::stream_key("orders"), "rinfra:mq:orders");
    assert_eq!(RedisStreamBus::stream_key("events.user"), "rinfra:mq:events.user");
}

#[test]
fn test_subject_mapping() {
    assert_eq!(NatsBus::subject("orders"), "rinfra.orders");
    assert_eq!(NatsBus::subject("events.user"), "rinfra.events.user");
}

#[test]
fn redis_lock_test_lock_name() {
    let config = RedisLockConfig::default_config();
    let lock = RedisLock::new(&config);
    assert_eq!(lock.lock_name(), "redis");
}

#[test]
fn test_full_key() {
    let config = RedisLockConfig { url: "redis://localhost".into(), key_prefix: "myapp:lock:".into() };
    let lock = RedisLock::new(&config);
    assert_eq!(lock.full_key("order-123"), "myapp:lock:order-123");
}

#[test]
fn test_full_key_default_prefix() {
    let config = RedisLockConfig::default_config();
    let lock = RedisLock::new(&config);
    assert_eq!(lock.full_key("task"), "rinfra:lock:task");
}

#[test]
fn memory_test_lock_name() {
    let lock = InMemoryLock::new();
    assert_eq!(lock.lock_name(), "memory");
}

#[test]
fn redis_lock_commands() {
    let lock = RedisLock::new(&RedisLockConfig::default_config());
    let args = lock.acquire_args("job", "tok", 10);
    assert_eq!(args, vec![
        CmdArg::Text("rinfra:lock:job".into()),
        CmdArg::Text("tok".into()),
        CmdArg::Text("NX".into()),
        CmdArg::Text("PX".into()),
        CmdArg::Int(10000),
    ]);
    assert!(lock.acquire_outcome("job", "tok".into(), false, 5).is_none());
    let h = lock.acquire_outcome("job", "tok".into(), true, 5).unwrap();
    assert_eq!(h.key, "job");
    assert_eq!(h.acquired_at_ms, 5);
    assert!(lock.script_succeeded(1));
    assert!(!lock.script_succeeded(0));
    assert_eq!(lock.poll_interval_ms(0), 0);
    assert_eq!(lock.poll_interval_ms(3), 50);
    assert!(lock.release_script().contains("DEL"));
    assert!(lock.extend_script().contains("PEXPIRE"));
}

#[test]
fn stream_commands() {
    let args = xadd_args("rinfra:mq:t", Some(1000), "t", &b"p".to_vec(), Some("{\"a\":\"b\"}"));
    assert_eq!(args, vec![
        CmdArg::Text("rinfra:mq:t".into()),
        CmdArg::Text("MAXLEN".into()),
        CmdArg::Text("~".into()),
        CmdArg::Int(1000),
        CmdArg::Text("*".into()),
        CmdArg::Text("topic".into()),
        CmdArg::Text("t".into()),
        CmdArg::Text("payload".into()),
        CmdArg::Bytes(b"p".to_vec()),
        CmdArg::Text("headers".into()),
        CmdArg::Text("{\"a\":\"b\"}".into()),
    ]);
    assert_eq!(xadd_args("k", None, "t", &vec![], None).len(), 6);
    assert_eq!(xgroup_create_args("k", "g")[3], CmdArg::Text("0".into()));
    assert_eq!(xack_args("k", "g", "1-0"), vec![CmdArg::Text("k".into()), CmdArg::Text("g".into()), CmdArg::Text("1-0".into())]);
    assert!(group_create_outcome(None).is_ok());
    assert!(group_create_outcome(Some("BUSYGROUP Consumer Group name already exists")).is_ok());
    assert_eq!(group_create_outcome(Some("ERR")).unwrap_err().code, ErrorCode::Internal);
    assert_eq!(read_retry_delay_ms("NOGROUP No such key"), 1000);
    assert_eq!(read_retry_delay_ms("connection reset"), 500);
    let m = stream_message("1-0".into(), None, Some(vec![1]), None, 77);
    assert_eq!(m.topic, "");
    assert_eq!(m.payload, vec![1]);
    assert_eq!(m.created_at, 77);
}

#[test]
fn nats_consumers_and_acks() {
    let bus = NatsBus { stream_name: "RINFRA".into(), consumer_group: "workers".into() };
    assert_eq!(bus.consumer_name("events.user.created"), "workers-events-user-created");
    let hs = first_header_values(vec![("a".into(), vec!["1".into(), "2".into()]), ("b".into(), vec![])]);
    assert_eq!(hs, vec![("a".to_string(), "1".to_string())]);
    let mut acks = PendingAcks::new();
    acks.track("m1".into(), 7);
    assert_eq!(acks.take("m1"), Some(7));
    assert_eq!(acks.take("m1"), None);
}

// ── In-memory bus ───────────────────────────────────────────────────

#[test]
fn test_round_robin_distribution() {
    let mut bus = InMemoryBus::new(&MemoryMqConfig { channel_capacity: 16 });
    let a = bus.subscribe("jobs");
    let b = bus.subscribe("jobs");
    let mut seen = vec![];
    for _ in 0..4 {
        match bus.select("jobs") {
            Delivery::To(id) => seen.push(id),
            Delivery::Dropped => panic!("expected a subscriber"),
        }
        bus.commit("jobs");
    }
    assert_eq!(seen, vec![a, b, a, b]);
}

#[test]
fn test_publish_no_subscribers_ok() {
    let mut bus = InMemoryBus::new(&MemoryMqConfig { channel_capacity: 16 });
    assert_eq!(bus.select("nobody"), Delivery::Dropped);
}

#[test]
fn test_independent_topics() {
    let mut bus = InMemoryBus::new(&MemoryMqConfig { channel_capacity: 16 });
    let a = bus.subscribe("a");
    let b = bus.subscribe("b");
    assert_eq!(bus.select("a"), Delivery::To(a));
    assert_eq!(bus.select("b"), Delivery::To(b));
    assert_eq!(bus.subscribers("a"), vec![a]);
}

#[test]
fn closed_subscribers_leave_rotation() {
    let mut bus = InMemoryBus::new(&MemoryMqConfig { channel_capacity: 16 });
    let a = bus.subscribe("t");
    let b = bus.subscribe("t");
    bus.retain_open("t", &vec![false, true]);
    assert_eq!(bus.subscribers("t"), vec![b]);
    assert_ne!(a, b);
    assert_eq!(bus.channel_capacity(), 16);
}

// ── In-memory lock ──────────────────────────────────────────────────

#[test]
fn test_try_acquire_and_release() {
    let mut lock = InMemoryLock::new();
    let h = lock.try_acquire("res", 10).unwrap();
    assert_eq!(h.key, "res");
    assert!(lock.try_acquire("res", 10).is_none());
    assert!(lock.release(&h));
    assert!(lock.try_acquire("res", 10).is_some());
}

#[test]
fn test_release_wrong_token() {
    let mut lock = InMemoryLock::new();
    let mut h = lock.try_acquire("res", 10).unwrap();
    h.token = "wrong".into();
    assert!(!lock.release(&h));
}

#[test]
fn test_expired_lock_reacquirable() {
    let mut lock = InMemoryLock::new();
    assert!(lock.try_acquire_at("k", 1, 0, "t1".into()));
    assert!(!lock.try_acquire_at("k", 1, 999, "t2".into()));
    assert!(lock.try_acquire_at("k", 1, 1000, "t2".into()));
}

#[test]
fn test_extend() {
    let mut lock = InMemoryLock::new();
    assert!(lock.try_acquire_at("k", 1, 0, "t1".into()));
    assert!(lock.extend_at("k", "t1", 10, 500));
    assert!(!lock.try_acquire_at("k", 1, 5000, "t2".into()));
    assert!(!lock.extend_at("k", "t2", 10, 500));
}

#[test]
fn test_different_keys() {
    let mut lock = InMemoryLock::new();
    assert!(lock.try_acquire("a", 10).is_some());
    assert!(lock.try_acquire("b", 10).is_some());
}

#[test]
fn test_acquire_timeout() {
    let mut lock = InMemoryLock::new();
    let _h = lock.try_acquire("busy", 60).unwrap();
    let deadline = lock.deadline_after(0);
    let r = lock.acquire_poll("busy", 60, deadline);
    assert_eq!(r.unwrap_err().code, ErrorCode::LockAcquireFailed);
}

// ── Keys and encryption ─────────────────────────────────────────────

fn key_config(max: u32) -> RotatingKeyConfig {
    RotatingKeyConfig { enabled: true, rotation_interval_secs: 3600, max_key_versions: max }
}

#[test]
fn test_seed_and_get() {
    let mut p = RotatingKeyProvider::new(&key_config(3));
    p.seed_key("master", vec![7; 32]);
    assert_eq!(p.get_key_versioned("master", None).unwrap(), vec![7; 32]);
    assert_eq!(p.get_active_version("master").unwrap(), 1);
}

#[test]
fn test_get_missing_key() {
    let p = RotatingKeyProvider::new(&key_config(3));
    assert_eq!(p.get_key_versioned("nope", None).unwrap_err().code, ErrorCode::CryptoKeyNotFound);
}

#[test]
fn test_rotate_key() {
    let mut p = RotatingKeyProvider::new(&key_config(3));
    p.seed_key("master", vec![1; 32]);
    assert_eq!(p.rotate_key_with("master", vec![2; 32], 100).unwrap(), 2);
    assert_eq!(p.get_key_versioned("master", None).unwrap(), vec![2; 32]);
    assert_eq!(p.get_key_versioned("master", Some(1)).unwrap(), vec![1; 32]);
    let versions = p.list_versions("master").unwrap();
    assert_eq!(versions.len(), 2);
    assert!(versions.iter().any(|v| v.version == 2 && v.is_active));
}

#[test]
fn test_rotate_trims_old_versions() {
    let mut p = RotatingKeyProvider::new(&key_config(2));
    p.seed_key("k", vec![1; 32]);
    p.rotate_key_with("k", vec![2; 32], 1).unwrap();
    p.rotate_key_with("k", vec![3; 32], 2).unwrap();
    assert!(p.get_key_versioned("k", Some(1)).is_err());
    assert_eq!(p.list_versions("k").unwrap().len(), 2);
    assert_eq!(p.rotate_key("k").unwrap(), 4);
}

#[test]
fn test_aesgcm_encrypt_decrypt_roundtrip() {
    let crypto = AesGcmCrypto::new(vec![0u8; 32]).unwrap();
    let plaintext = b"hello rinfra crypto";
    let encrypted = crypto.encrypt(plaintext).unwrap();
    assert_ne!(encrypted, plaintext);
    let decrypted = crypto.decrypt(&encrypted).unwrap();
    assert_eq!(decrypted, plaintext);
}

#[test]
fn test_aesgcm_wrong_key_fails() {
    let crypto1 = AesGcmCrypto::new(vec![0u8; 32]).unwrap();
    let crypto2 = AesGcmCrypto::new(vec![1u8; 32]).unwrap();
    let encrypted = crypto1.encrypt(b"secret").unwrap();
    let result = crypto2.decrypt(&encrypted);
    assert!(result.is_err());
    assert_eq!(result.unwrap_err().code, ErrorCode::CryptoDecryptFailed);
}

#[test]
fn test_aesgcm_invalid_key_length() {
    let result = AesGcmCrypto::new(vec![0u8; 16]);
    assert!(result.is_err());
    assert_eq!(result.err().unwrap().code, ErrorCode::CryptoEncryptFailed);
}

#[test]
fn test_aesgcm_ciphertext_too_short() {
    let crypto = AesGcmCrypto::new(vec![0u8; 32]).unwrap();
    let result = crypto.decrypt(b"short");
    assert!(result.is_err());
    assert_eq!(result.unwrap_err().code, ErrorCode::CryptoDecryptFailed);
}

#[test]
fn test_aesgcm_different_plaintexts_different_ciphertexts() {
    let crypto = AesGcmCrypto::new(vec![0u8; 32]).unwrap();
    let enc1 = crypto.encrypt(b"aaa").unwrap();
    let enc2 = crypto.encrypt(b"bbb").unwrap();
    assert_ne!(enc1, enc2);
}

#[test]
fn aesgcm_output_is_nonce_body_and_tag() {
    let crypto = AesGcmCrypto::new(vec![7u8; 32]).unwrap();
    assert_eq!(crypto.encrypt(b"").unwrap().len(), 28);
    assert_eq!(crypto.encrypt(b"twelve bytes").unwrap().len(), 12 + 12 + 16);
}

#[test]
fn aesgcm_layout_with_nonce() {
    let c = AesGcmCrypto::new(vec![3; 32]).unwrap();
    let sealed = c.encrypt_with_nonce(&[5; 12], b"hi").unwrap();
    assert_eq!(&sealed[..12], &[5; 12]);
    assert_eq!(sealed.len(), 12 + 2 + 16);
    assert_eq!(c.decrypt(&sealed).unwrap(), b"hi");
}

#[test]
fn test_env_key_provider_missing_key() {
    let p = EnvKeyProvider;
    assert_eq!(p.key_from_var("K", None).unwrap_err().code, ErrorCode::CryptoKeyNotFound);
    assert_eq!(p.key_from_var("K", Some("abc".into())).unwrap(), b"abc");
}

#[test]
fn test_stub_returns_error() {
    let p = FileKeyProvider::new(&FileKeyConfig { enabled: true, path: "keys.bin".into() });
    assert_eq!(p.get_key("k").unwrap_err().code, ErrorCode::CryptoKeyNotFound);
}

// ── Framing and cluster ─────────────────────────────────────────────

#[test]
fn frames_roundtrip_and_limits() {
    let codec = LengthDelimited::new(8);
    let framed = codec.encode(b"abc").unwrap();
    assert_eq!(framed, vec![0, 0, 0, 3, b'a', b'b', b'c']);
    assert_eq!(codec.decode(&framed).unwrap(), Decoded::Frame { payload: b"abc".to_vec(), consumed: 7 });
    assert_eq!(codec.decode(&framed[..5]).unwrap(), Decoded::Incomplete);
    assert_eq!(codec.encode(&[0; 9]), Err(FrameError::TooLong));
    assert_eq!(codec.decode(&[0, 0, 0, 9]), Err(FrameError::TooLong));
}

#[test]
fn test_encode_decode_roundtrip() {
    let codec = ClusterCodec::new();
    let payload = b"{\"type\":\"register\",\"node_id\":\"w1\"}".to_vec();
    let framed = codec.encode_frame(&payload).unwrap();
    match codec.decode_frame(&framed).unwrap() {
        Decoded::Frame { payload: p, consumed } => {
            assert_eq!(p, payload);
            assert_eq!(consumed, framed.len());
        },
        Decoded::Incomplete => panic!("expected a frame"),
    }
}

#[test]
fn test_encode_decode_ping_pong() {
    let codec = ClusterCodec::new();
    let mut buf = codec.encode_frame(b"ping").unwrap();
    buf.extend(codec.encode_frame(b"pong").unwrap());
    match codec.decode_frame(&buf).unwrap() {
        Decoded::Frame { payload, consumed } => {
            assert_eq!(payload, b"ping");
            match codec.decode_frame(&buf[consumed..]).unwrap() {
                Decoded::Frame { payload, .. } => assert_eq!(payload, b"pong"),
                Decoded::Incomplete => panic!("expected a second frame"),
            }
        },
        Decoded::Incomplete => panic!("expected a frame"),
    }
}

fn endpoint() -> Endpoint {
    Endpoint { name: "api".into(), protocol: "http".into(), address: "10.0.0.2:8080".into() }
}

#[test]
fn test_register_and_get() {
    let mut reg = ConnectedRegistry::new();
    reg.register("w1".into(), NodeRole::Worker, vec![endpoint()], vec![("zone".into(), "a".into())]);
    let n = reg.get_node("w1").unwrap();
    assert_eq!(n.id, "w1");
    assert_eq!(n.role, NodeRole::Worker);
    assert_eq!(n.status, NodeStatus::Online);
    assert_eq!(n.endpoints.len(), 1);
}

#[test]
fn test_unregister() {
    let mut reg = ConnectedRegistry::new();
    reg.register("w1".into(), NodeRole::Worker, vec![], vec![]);
    assert!(reg.unregister("w1"));
    assert!(reg.get_node("w1").is_none());
    assert!(!reg.unregister("w1"));
}

#[test]
fn test_set_status() {
    let mut reg = ConnectedRegistry::new();
    reg.register("w1".into(), NodeRole::Worker, vec![], vec![]);
    reg.set_status("w1", NodeStatus::Draining);
    assert_eq!(reg.get_node("w1").unwrap().status, NodeStatus::Draining);
}

#[test]
fn test_list_nodes() {
    let mut reg = ConnectedRegistry::new();
    reg.register("w1".into(), NodeRole::Worker, vec![], vec![]);
    reg.register("w2".into(), NodeRole::Worker, vec![], vec![]);
    assert_eq!(reg.list_nodes().len(), 2);
}

fn register_message(token: &str) -> ClusterMessage {
    ClusterMessage::Register {
        node_id: "w1".into(),
        role: NodeRole::Worker,
        endpoints: vec![],
        metadata: vec![],
        token: token.into(),
        trace_context: None,
    }
}

#[test]
fn admission_checks_token() {
    assert!(matches!(admission(Some(register_message("t")), "t"), Admission::Admit { .. }));
    assert!(matches!(admission(Some(register_message("x")), ""), Admission::Admit { .. }));
    assert!(matches!(admission(Some(register_message("x")), "t"), Admission::Refuse { .. }));
    assert!(matches!(admission(Some(ClusterMessage::Ping), "t"), Admission::Reject));
    assert!(matches!(admission(None, "t"), Admission::Reject));
}

#[test]
fn server_session_ping_timeout() {
    let mut s = ServerSession::new();
    assert_eq!(s.step(ServerEvent::PingTick), ServerAction::SendPing);
    assert_eq!(s.step(ServerEvent::PingTick), ServerAction::SendPing);
    assert_eq!(s.step(ServerEvent::Received(ClusterMessage::Pong)), ServerAction::Idle);
    assert_eq!(s.step(ServerEvent::PingTick), ServerAction::SendPing);
    assert_eq!(s.step(ServerEvent::PingTick), ServerAction::SendPing);
    assert_eq!(s.step(ServerEvent::PingTick), ServerAction::SendPing);
    assert_eq!(s.step(ServerEvent::PingTick), ServerAction::Disconnect);
    assert_eq!(s.step(ServerEvent::Received(ClusterMessage::ListNodes)), ServerAction::SendNodeList);
}

#[test]
fn registration_outcomes() {
    assert!(registration_outcome(RegisterReply::Received(ClusterMessage::RegisterAck { success: true, error: None })).is_ok());
    let e = registration_outcome(RegisterReply::Received(ClusterMessage::RegisterAck {
        success: false,
        error: Some("invalid token".into()),
    }))
    .unwrap_err();
    assert_eq!(e.code, ErrorCode::ClusterAuthFailed);
    assert_eq!(e.message, "invalid token");
    assert_eq!(registration_outcome(RegisterReply::TimedOut).unwrap_err().code, ErrorCode::ClusterRegisterFailed);
}

#[test]
fn backoff_doubles_to_cap() {
    assert_eq!(next_backoff(3), 6);
    assert_eq!(next_backoff(20), 30);
    assert_eq!(next_backoff(30), 30);
}

#[test]
fn connection_handle_states() {
    let h = ConnectionHandle::new_connected();
    assert!(h.is_connected());
    h.set(ConnectionState::Reconnecting);
    assert_eq!(h.state(), ConnectionState::Reconnecting);
    assert!(!h.is_connected());
    assert_eq!(ConnectionState::from_u8(ConnectionState::Disconnected.to_u8()), ConnectionState::Disconnected);
}

#[test]
fn connection_state_is_connected() {
    assert!(ConnectionState::Connected.is_connected());
    assert!(!ConnectionState::Disconnected.is_connected());
    assert!(!ConnectionState::Reconnecting.is_connected());
    let h = ConnectionHandle::new_connected();
    let h2 = h.clone();
    assert!(h.is_connected());
    h.set(ConnectionState::Disconnected);
    assert!(!h2.is_connected());
}
