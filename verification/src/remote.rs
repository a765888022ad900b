//! The wire side of the Redis and NATS backends: the commands the Redis
//! lock and the Redis stream bus send, how their replies are read, how
//! stream entries become messages, and which NATS deliveries await an ack.
use vstd::prelude::*;
use crate::error::{AppError, ErrorCode};
use crate::lock::LockHandle;
use crate::middleware::{contains_chars, contains_text};
use crate::strmap::StrMap;
use crate::text::{chars_of, concat_str};

verus! {

/// One argument of a Redis command.
#[derive(Debug, Clone, PartialEq, Eq)]
pub enum CmdArg {
    Text(String),
    Int(u64),
    Bytes(Vec<u8>),
}

/// An argument as plain data.
pub enum ArgView {
    Text(Seq<char>),
    Int(u64),
    Bytes(Seq<u8>),
}

pub open spec fn arg_view(a: CmdArg) -> ArgView {
    match a {
        CmdArg::Text(s) => ArgView::Text(s@),
        CmdArg::Int(n) => ArgView::Int(n),
        CmdArg::Bytes(b) => ArgView::Bytes(b@),
    }
}

pub open spec fn args_view(v: Seq<CmdArg>) -> Seq<ArgView> {
    v.map_values(|a: CmdArg| arg_view(a))
}

fn text(s: &str) -> (a: CmdArg)
    ensures
        arg_view(a) == ArgView::Text(s@),
{
    CmdArg::Text(s.to_string())
}

fn push_arg(v: &mut Vec<CmdArg>, a: CmdArg)
    ensures
        args_view(final(v)@) == args_view(old(v)@).push(arg_view(a)),
{
    v.push(a);
    assert(args_view(v@) =~= args_view(old(v)@).push(arg_view(a)));
}

// ── Redis lock ──────────────────────────────────────────────────────

/// Configuration of the Redis lock: server address and key prefix.
#[derive(Debug, Clone)]
pub struct RedisLockConfig {
    pub url: String,
    pub key_prefix: String,
}

impl RedisLockConfig {
    /// The default settings: a local server and the `rinfra:lock:` prefix.
    pub fn default_config() -> (c: RedisLockConfig)
        ensures
            c.url@ == "redis://127.0.0.1:6379"@,
            c.key_prefix@ == "rinfra:lock:"@,
    {
        RedisLockConfig { url: "redis://127.0.0.1:6379".to_string(), key_prefix: "rinfra:lock:".to_string() }
    }
}

/// `s` with every `.` replaced by `-`.
pub open spec fn dots_to_dashes(s: Seq<char>) -> Seq<char> {
    s.map_values(|c: char| if c == '.' { '-' } else { c })
}

/// The durable consumer name for `topic` in consumer group `group`.
fn consumer_name_for(group: &str, topic: &str) -> (k: String)
    ensures
        k@ == group@ + "-"@ + dots_to_dashes(topic@),
{
    let t = crate::text::chars_of(topic);
    let mut out: Vec<char> = Vec::new();
    let mut i: usize = 0;
    while i < t.len()
        invariant
            i <= t@.len(),
            out@ == dots_to_dashes(t@.subrange(0, i as int)),
        decreases t@.len() - i,
    {
        out.push(if t[i] == '.' { '-' } else { t[i] });
        assert(dots_to_dashes(t@.subrange(0, i as int + 1)) =~= dots_to_dashes(t@.subrange(0, i as int)).push(
            if t@[i as int] == '.' { '-' } else { t@[i as int] }));
        i = i + 1;
    }
    assert(t@.subrange(0, t@.len() as int) =~= t@);
    let tail = crate::text::string_from_chars(out.as_slice());
    let mut k = concat_str(group, "-");
    k.append(tail.as_str());
    k
}


/// A lock held in Redis under `{prefix}{key}`, owned by a random token.
pub struct RedisLock {
    pub config: RedisLockConfig,
}

impl RedisLock {
    pub fn new(config: &RedisLockConfig) -> (l: RedisLock)
        ensures
            l.config.url@ == config.url@,
            l.config.key_prefix@ == config.key_prefix@,
    {
        RedisLock { config: RedisLockConfig { url: config.url.clone(), key_prefix: config.key_prefix.clone() } }
    }

    pub fn lock_name(&self) -> (n: &'static str)
        ensures
            n@ == "redis"@,
    {
        "redis"
    }

    /// The Redis key of the lock on `key`.
    pub fn full_key(&self, key: &str) -> (k: String)
        ensures
            k@ == self.config.key_prefix@ + key@,
    {
        concat_str(self.config.key_prefix.as_str(), key)
    }

    /// The arguments of `SET`: store the token only if the key is free,
    /// expiring after the TTL in milliseconds.
    pub fn acquire_args(&self, key: &str, token: &str, ttl_secs: u64) -> (v: Vec<CmdArg>)
        requires
            ttl_secs * 1000 <= u64::MAX,
        ensures
            args_view(v@) == seq![
                ArgView::Text(self.config.key_prefix@ + key@),
                ArgView::Text(token@),
                ArgView::Text("NX"@),
                ArgView::Text("PX"@),
                ArgView::Int((ttl_secs * 1000) as u64),
            ],
    {
        let mut v: Vec<CmdArg> = Vec::new();
        push_arg(&mut v, CmdArg::Text(self.full_key(key)));
        push_arg(&mut v, text(token));
        push_arg(&mut v, text("NX"));
        push_arg(&mut v, text("PX"));
        push_arg(&mut v, CmdArg::Int(ttl_secs * 1000));
        v
    }

    /// The handle of a successful `SET`, or none when the key was taken.
    pub fn acquire_outcome(&self, key: &str, token: String, stored: bool, now_ms: u64) -> (r: Option<LockHandle>)
        ensures
            stored <==> r is Some,
            r matches Some(h) ==> h.key@ == key@ && h.token == token && h.acquired_at_ms == now_ms,
    {
        if stored {
            Some(LockHandle { key: key.to_string(), token, acquired_at_ms: now_ms })
        } else {
            None
        }
    }

    /// The script run on release: delete the key only if it holds the token.
    pub fn release_script(&self) -> (s: &'static str)
        ensures
            s@ == "\nif redis.call(\"GET\", KEYS[1]) == ARGV[1] then\n    redis.call(\"DEL\", KEYS[1])\n    return 1\nelse\n    return 0\nend\n"@,
    {
        "\nif redis.call(\"GET\", KEYS[1]) == ARGV[1] then\n    redis.call(\"DEL\", KEYS[1])\n    return 1\nelse\n    return 0\nend\n"
    }

    /// The script run on extend: reset the expiry only if the key holds the token.
    pub fn extend_script(&self) -> (s: &'static str)
        ensures
            s@ == "\nif redis.call(\"GET\", KEYS[1]) == ARGV[1] then\n    redis.call(\"PEXPIRE\", KEYS[1], ARGV[2])\n    return 1\nelse\n    return 0\nend\n"@,
    {
        "\nif redis.call(\"GET\", KEYS[1]) == ARGV[1] then\n    redis.call(\"PEXPIRE\", KEYS[1], ARGV[2])\n    return 1\nelse\n    return 0\nend\n"
    }

    /// Whether a release or extend script reported success.
    pub fn script_succeeded(&self, reply: i64) -> (b: bool)
        ensures
            b == (reply == 1),
    {
        reply == 1
    }

    /// How long to wait between two attempts of a blocking acquire: 50 ms,
    /// or the whole wait when that is shorter.
    pub fn poll_interval_ms(&self, wait_timeout_secs: u64) -> (ms: u64)
        ensures
            ms == (if wait_timeout_secs * 1000 < 50 { (wait_timeout_secs * 1000) as u64 } else { 50u64 }),
    {
        if wait_timeout_secs == 0 { 0 } else { 50 }
    }
}

/// The error when no connection is set up yet.
pub fn not_connected() -> (e: AppError)
    ensures
        e.code == ErrorCode::LockAcquireFailed,
{
    AppError::from_static(ErrorCode::LockAcquireFailed, "redis not connected")
}

// ── Redis streams ───────────────────────────────────────────────────

/// The message bus on Redis streams.
pub struct RedisStreamBus {
    pub config: RedisStreamConfig,
}

impl RedisStreamBus {
    /// The Redis stream that carries `topic`.
    pub fn stream_key(topic: &str) -> (k: String)
        ensures
            k@ == "rinfra:mq:"@ + topic@,
    {
        concat_str("rinfra:mq:", topic)
    }
}

/// Settings of the Redis stream bus.
pub struct RedisStreamConfig {
    pub url: String,
    pub group_name: String,
    pub consumer_name: String,
    pub block_ms: u64,
    pub batch_size: u64,
    pub max_len: Option<u64>,
}

/// The arguments of `XADD`: the stream, an approximate length cap if
/// configured, an automatic id, then the fields `topic`, `payload` and,
/// when given, `headers`.
pub open spec fn spec_xadd_args(key: Seq<char>, max_len: Option<u64>, topic: Seq<char>, payload: Seq<u8>, headers: Option<Seq<char>>) -> Seq<ArgView> {
    seq![ArgView::Text(key)]
    + match max_len {
        Some(n) => seq![ArgView::Text("MAXLEN"@), ArgView::Text("~"@), ArgView::Int(n)],
        None => Seq::empty(),
    }
    + seq![ArgView::Text("*"@), ArgView::Text("topic"@), ArgView::Text(topic), ArgView::Text("payload"@), ArgView::Bytes(payload)]
    + match headers {
        Some(h) => seq![ArgView::Text("headers"@), ArgView::Text(h)],
        None => Seq::empty(),
    }
}

pub fn xadd_args(key: &str, max_len: Option<u64>, topic: &str, payload: &Vec<u8>, headers_json: Option<&str>) -> (v: Vec<CmdArg>)
    ensures
        args_view(v@) == spec_xadd_args(key@, max_len, topic@, payload@,
            match headers_json { Some(h) => Some(h@), None => None }),
{
    let mut v: Vec<CmdArg> = Vec::new();
    push_arg(&mut v, text(key));
    let ghost a = args_view(v@);
    match max_len {
        Some(n) => {
            push_arg(&mut v, text("MAXLEN"));
            push_arg(&mut v, text("~"));
            push_arg(&mut v, CmdArg::Int(n));
        },
        None => {},
    }
    let ghost b = args_view(v@);
    assert(b =~= a + match max_len {
        Some(n) => seq![ArgView::Text("MAXLEN"@), ArgView::Text("~"@), ArgView::Int(n)],
        None => Seq::<ArgView>::empty(),
    });
    push_arg(&mut v, text("*"));
    push_arg(&mut v, text("topic"));
    push_arg(&mut v, text(topic));
    push_arg(&mut v, text("payload"));
    push_arg(&mut v, CmdArg::Bytes(payload.clone()));
    let ghost c = args_view(v@);
    assert(c =~= b + seq![ArgView::Text("*"@), ArgView::Text("topic"@), ArgView::Text(topic@), ArgView::Text("payload"@), ArgView::Bytes(payload@)]);
    match headers_json {
        Some(h) => {
            push_arg(&mut v, text("headers"));
            push_arg(&mut v, text(h));
        },
        None => {},
    }
    assert(args_view(v@) =~= c + match headers_json {
        Some(h) => seq![ArgView::Text("headers"@), ArgView::Text(h@)],
        None => Seq::<ArgView>::empty(),
    });
    v
}

/// The arguments of `XGROUP`: create the group at the start of the stream,
/// creating the stream if needed.
pub fn xgroup_create_args(key: &str, group: &str) -> (v: Vec<CmdArg>)
    ensures
        args_view(v@) == seq![ArgView::Text("CREATE"@), ArgView::Text(key@), ArgView::Text(group@),
            ArgView::Text("0"@), ArgView::Text("MKSTREAM"@)],
{
    let mut v: Vec<CmdArg> = Vec::new();
    push_arg(&mut v, text("CREATE"));
    push_arg(&mut v, text(key));
    push_arg(&mut v, text(group));
    push_arg(&mut v, text("0"));
    push_arg(&mut v, text("MKSTREAM"));
    v
}

/// The arguments of `XREADGROUP`: read new entries for this consumer, a
/// batch at a time, blocking up to `block_ms`.
pub fn xreadgroup_args(config: &RedisStreamConfig, key: &str) -> (v: Vec<CmdArg>)
    ensures
        args_view(v@) == seq![ArgView::Text("GROUP"@), ArgView::Text(config.group_name@), ArgView::Text(config.consumer_name@),
            ArgView::Text("COUNT"@), ArgView::Int(config.batch_size), ArgView::Text("BLOCK"@), ArgView::Int(config.block_ms),
            ArgView::Text("STREAMS"@), ArgView::Text(key@), ArgView::Text(">"@)],
{
    let mut v: Vec<CmdArg> = Vec::new();
    push_arg(&mut v, text("GROUP"));
    push_arg(&mut v, CmdArg::Text(config.group_name.clone()));
    push_arg(&mut v, CmdArg::Text(config.consumer_name.clone()));
    push_arg(&mut v, text("COUNT"));
    push_arg(&mut v, CmdArg::Int(config.batch_size));
    push_arg(&mut v, text("BLOCK"));
    push_arg(&mut v, CmdArg::Int(config.block_ms));
    push_arg(&mut v, text("STREAMS"));
    push_arg(&mut v, text(key));
    push_arg(&mut v, text(">"));
    v
}

/// The arguments of `XACK`.
pub fn xack_args(key: &str, group: &str, id: &str) -> (v: Vec<CmdArg>)
    ensures
        args_view(v@) == seq![ArgView::Text(key@), ArgView::Text(group@), ArgView::Text(id@)],
{
    let mut v: Vec<CmdArg> = Vec::new();
    push_arg(&mut v, text(key));
    push_arg(&mut v, text(group));
    push_arg(&mut v, text(id));
    v
}

/// The outcome of creating a consumer group: a group that already exists
/// (`BUSYGROUP`) is fine.
pub fn group_create_outcome(error: Option<&str>) -> (r: Result<(), AppError>)
    ensures
        match error {
            None => r is Ok,
            Some(m) => if contains_text(m@, "BUSYGROUP"@) { r is Ok } else {
                r matches Err(e) && e.code == ErrorCode::Internal
            },
        },
{
    match error {
        None => Ok(()),
        Some(m) => {
            let cs = chars_of(m);
            let needle = chars_of("BUSYGROUP");
            if contains_chars(cs.as_slice(), needle.as_slice()) {
                Ok(())
            } else {
                Err(AppError::from_static(ErrorCode::Internal, "xgroup create failed"))
            }
        },
    }
}

/// How long the consumer waits after a failed read: a second when the
/// group has gone (`NOGROUP`), half a second otherwise.
pub fn read_retry_delay_ms(error: &str) -> (ms: u64)
    ensures
        ms == (if contains_text(error@, "NOGROUP"@) { 1000u64 } else { 500u64 }),
{
    let cs = chars_of(error);
    let needle = chars_of("NOGROUP");
    if contains_chars(cs.as_slice(), needle.as_slice()) { 1000 } else { 500 }
}

/// A message on the bus.
#[derive(Debug)]
pub struct Message {
    pub id: String,
    pub topic: String,
    pub payload: Vec<u8>,
    pub headers: Vec<(String, String)>,
    pub created_at: u64,
}

/// The message of a stream entry: missing or unreadable fields become
/// empty, and the time of reading is its creation time.
pub fn stream_message(
    id: String,
    topic: Option<String>,
    payload: Option<Vec<u8>>,
    headers: Option<Vec<(String, String)>>,
    now_ms: u64,
) -> (m: Message)
    ensures
        m.id == id,
        m.topic@ == match topic { Some(t) => t@, None => Seq::empty() },
        m.payload@ == match payload { Some(p) => p@, None => Seq::empty() },
        m.headers@ == match headers { Some(h) => h@, None => Seq::empty() },
        m.created_at == now_ms,
{
    let t = match topic {
        Some(t) => t,
        None => String::new(),
    };
    let p = match payload {
        Some(p) => p,
        None => Vec::new(),
    };
    let h = match headers {
        Some(h) => h,
        None => Vec::new(),
    };
    Message { id, topic: t, payload: p, headers: h, created_at: now_ms }
}

// ── NATS ────────────────────────────────────────────────────────────

/// The message bus on NATS JetStream.
pub struct NatsBus {
    pub stream_name: String,
    pub consumer_group: String,
}

impl NatsBus {
    /// The subject that carries `topic`.
    pub fn subject(topic: &str) -> (k: String)
        ensures
            k@ == "rinfra."@ + topic@,
    {
        concat_str("rinfra.", topic)
    }

    /// The durable consumer of `topic` for this bus's consumer group.
    pub fn consumer_name(&self, topic: &str) -> (k: String)
        ensures
            k@ == self.consumer_group@ + "-"@ + dots_to_dashes(topic@),
    {
        consumer_name_for(self.consumer_group.as_str(), topic)
    }
}

/// The first value of each header that has one, in order.
pub open spec fn spec_first_values(hs: Seq<(String, Vec<String>)>) -> Seq<(String, String)>
    decreases hs.len(),
{
    if hs.len() == 0 {
        Seq::empty()
    } else {
        let prev = spec_first_values(hs.drop_last());
        if hs.last().1@.len() > 0 { prev.push((hs.last().0, hs.last().1@[0])) } else { prev }
    }
}

/// The first value of each header of a received message.
pub fn first_header_values(headers: Vec<(String, Vec<String>)>) -> (r: Vec<(String, String)>)
    ensures
        r@ == spec_first_values(headers@),
{
    let ghost all = headers@;
    let mut out: Vec<(String, String)> = Vec::new();
    let mut rest = headers;
    let ghost mut done: int = 0;
    assert(all.subrange(0, 0) =~= Seq::<(String, Vec<String>)>::empty());
    while rest.len() > 0
        invariant
            0 <= done <= all.len(),
            rest@ == all.subrange(done, all.len() as int),
            out@ == spec_first_values(all.subrange(0, done)),
        decreases rest@.len(),
    {
        let (name, values) = rest.remove(0);
        assert((name, values) == all[done]);
        assert(all.subrange(0, done + 1).drop_last() =~= all.subrange(0, done));
        if values.len() > 0 {
            let v = values[0].clone();
            out.push((name, v));
        }
        proof { done = done + 1; }
        assert(rest@ =~= all.subrange(done, all.len() as int));
    }
    assert(all.subrange(0, all.len() as int) =~= all);
    out
}

/// The deliveries awaiting an acknowledgement, by message id; each holds
/// the index under which the caller keeps the delivery.
pub struct PendingAcks {
    map: StrMap<u64>,
}

impl PendingAcks {
    pub closed spec fn pending(&self) -> Map<Seq<char>, u64> {
        self.map.view()
    }

    pub closed spec fn wf(&self) -> bool {
        self.map.wf()
    }

    pub fn new() -> (p: PendingAcks)
        ensures
            p.wf(),
            p.pending() == Map::<Seq<char>, u64>::empty(),
    {
        PendingAcks { map: StrMap::new() }
    }

    /// Remembers a delivery.
    pub fn track(&mut self, id: String, slot: u64)
        requires
            old(self).wf(),
        ensures
            final(self).wf(),
            final(self).pending() == old(self).pending().insert(id@, slot),
    {
        self.map.insert(id, slot);
    }

    /// Takes the delivery of `id` to acknowledge it; an unknown id is
    /// acknowledged already and gives nothing.
    pub fn take(&mut self, id: &str) -> (r: Option<u64>)
        requires
            old(self).wf(),
        ensures
            final(self).wf(),
            (r, final(self).pending()) == spec_take(old(self).pending(), id@),
    {
        match self.map.find(id) {
            Some(i) => {
                let slot = *self.map.value_at(i);
                self.map.remove(id);
                Some(slot)
            },
            None => {
                self.map.remove(id);
                None
            },
        }
    }
}

/// Taking `id` out of the pending deliveries: its slot if it was pending,
/// and the deliveries without it.
pub open spec fn spec_take(m: Map<Seq<char>, u64>, id: Seq<char>) -> (Option<u64>, Map<Seq<char>, u64>) {
    (if m.contains_key(id) { Some(m[id]) } else { None }, m.remove(id))
}

/// Law: a delivery is acknowledged at most once: after it is taken, taking
/// it again gives nothing; and a tracked delivery is taken back as tracked.
pub proof fn lemma_ack_once(m: Map<Seq<char>, u64>, id: Seq<char>, slot: u64)
    ensures
        spec_take(spec_take(m, id).1, id).0 is None,
        spec_take(m.insert(id, slot), id).0 == Some(slot),
{
}

} // verus!
