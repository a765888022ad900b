//! Cache front ends: the two-level cache's read-through and write-through
//! order, and the Redis cache's connection and error rules.
use vstd::prelude::*;
use crate::error::{AppError, ErrorCode};

verus! {

/// What the two-level cache does next while answering a read.
#[derive(Debug)]
pub enum TieredStep {
    /// Ask the second level.
    AskSecond,
    /// Write this value back into the first level (ignoring the outcome),
    /// then answer with it.
    BackfillThenAnswer(Vec<u8>),
    /// Answer.
    Answer(Result<Option<Vec<u8>>, AppError>),
}

/// A cache in two levels: a fast local one in front of a shared one. Reads
/// go through to the second level and fill the first; writes and deletes go
/// to both, the first level first.
#[derive(Debug, Clone, Copy)]
pub struct MultilevelCache;

impl MultilevelCache {

/// After the first level answered a read: a hit is the answer, a miss
/// asks the second level, an error is the answer.
pub fn after_first_read(&self, r: Result<Option<Vec<u8>>, AppError>) -> (s: TieredStep)
    ensures
        match r {
            Ok(Some(v)) => s matches TieredStep::Answer(Ok(Some(x))) && x == v,
            Ok(None) => s is AskSecond,
            Err(e) => s matches TieredStep::Answer(Err(x)) && x == e,
        },
{
    match r {
        Ok(Some(v)) => TieredStep::Answer(Ok(Some(v))),
        Ok(None) => TieredStep::AskSecond,
        Err(e) => TieredStep::Answer(Err(e)),
    }
}

/// After the second level answered a read: a hit is written back into the
/// first level and is the answer; a miss or an error is the answer.
pub fn after_second_read(&self, r: Result<Option<Vec<u8>>, AppError>) -> (s: TieredStep)
    ensures
        match r {
            Ok(Some(v)) => s matches TieredStep::BackfillThenAnswer(x) && x == v,
            Ok(None) => s matches TieredStep::Answer(Ok(None)),
            Err(e) => s matches TieredStep::Answer(Err(x)) && x == e,
        },
{
    match r {
        Ok(Some(v)) => TieredStep::BackfillThenAnswer(v),
        Ok(None) => TieredStep::Answer(Ok(None)),
        Err(e) => TieredStep::Answer(Err(e)),
    }
}

/// After the first level answered whether a key exists: `true` is the
/// answer; otherwise the second level decides (`None`); an error is the answer.
pub fn after_first_exists(&self, r: Result<bool, AppError>) -> (s: Option<Result<bool, AppError>>)
    ensures
        match r {
            Ok(true) => s == Some(Ok::<bool, AppError>(true)),
            Ok(false) => s is None,
            Err(e) => s == Some(Err::<bool, AppError>(e)),
        },
{
    match r {
        Ok(true) => Some(Ok(true)),
        Ok(false) => None,
        Err(e) => Some(Err(e)),
    }
}

/// Whether a write (set or delete) continues to the second level after the
/// first level's outcome: it stops at the first error.
pub fn continue_to_second(&self, first: &Result<(), AppError>) -> (b: bool)
    ensures
        b == first is Ok,
{
    first.is_ok()
}

}

/// Settings of the Redis cache.
#[derive(Debug)]
pub struct RedisCacheConfig {
    pub enabled: bool,
    pub url: String,
}

/// A cache operation.
#[derive(Debug, Clone, Copy, PartialEq, Eq, Structural)]
pub enum CacheOp {
    Get,
    Put,
    PutWithTtl,
    Delete,
    Exists,
}

/// The error code of a failed Redis command.
pub open spec fn spec_op_error(op: CacheOp) -> ErrorCode {
    match op {
        CacheOp::Get | CacheOp::Exists => ErrorCode::CacheGetFailed,
        CacheOp::Put | CacheOp::PutWithTtl => ErrorCode::CacheSetFailed,
        CacheOp::Delete => ErrorCode::CacheDeleteFailed,
    }
}

/// A cache in a Redis server.
pub struct RedisCache {
    pub config: RedisCacheConfig,
}

impl RedisCache {
    pub fn new(config: &RedisCacheConfig) -> (c: RedisCache)
        ensures
            c.config.enabled == config.enabled,
            c.config.url@ == config.url@,
    {
        RedisCache { config: RedisCacheConfig { enabled: config.enabled, url: config.url.clone() } }
    }

    /// Whether `connect` opens a connection: a disabled cache succeeds without one.
    pub fn connects(&self) -> (b: bool)
        ensures
            b == self.config.enabled,
    {
        self.config.enabled
    }

    /// The error of any operation before a connection is set up.
    pub fn not_connected(&self) -> (e: AppError)
        ensures
            e.code == ErrorCode::CacheConnectionFailed,
    {
        AppError::from_static(ErrorCode::CacheConnectionFailed, "redis not connected")
    }

    /// The error of a failed command.
    pub fn command_failed(&self, op: CacheOp) -> (e: AppError)
        ensures
            e.code == spec_op_error(op),
    {
        match op {
            CacheOp::Get | CacheOp::Exists => AppError::from_static(ErrorCode::CacheGetFailed, "redis GET failed"),
            CacheOp::Put | CacheOp::PutWithTtl => AppError::from_static(ErrorCode::CacheSetFailed, "redis SET failed"),
            CacheOp::Delete => AppError::from_static(ErrorCode::CacheDeleteFailed, "redis DEL failed"),
        }
    }

    /// The expiry sent with `SETEX`: whole seconds, at least one.
    pub fn expiry_secs(&self, ttl_secs: u64) -> (s: u64)
        ensures
            s == (if ttl_secs < 1 { 1 } else { ttl_secs }),
    {
        if ttl_secs < 1 { 1 } else { ttl_secs }
    }
}

} // verus!
