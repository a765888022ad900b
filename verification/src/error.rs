use vstd::prelude::*;

verus! {

/// Machine-readable error codes shared by all plugins.
#[derive(Debug, Clone, Copy, PartialEq, Eq, Structural)]
pub enum ErrorCode {
    Internal,
    CodecEncodeFailed,
    CodecDecodeFailed,
    LockAcquireFailed,
    CryptoEncryptFailed,
    CryptoDecryptFailed,
    CryptoKeyNotFound,
    FileWriteFailed,
    FileNotFound,
    FileReadFailed,
    FileDeleteFailed,
    ConfigParseFailed,
    ConfigFileMissing,
    ConfigReloadFailed,
    I18nLoadFailed,
    MqPublishFailed,
    MqSubscribeFailed,
    RateLimitExceeded,
    AuthTokenMissing,
    AuthTokenInvalid,
    AuthTokenExpired,
    ClusterMainUnreachable,
    ClusterRegisterFailed,
    ClusterAuthFailed,
    CacheConnectionFailed,
    CacheGetFailed,
    CacheSetFailed,
    CacheDeleteFailed,
    HttpRequestFailed,
    HttpTimeout,
    CircuitBreakerOpen,
    ServerBindFailed,
    ServerStartFailed,
    LogInitFailed,
    AuditLogFailed,
}

/// The HTTP status that an error code is answered with.
pub open spec fn spec_http_status(code: ErrorCode) -> u16 {
    match code {
        ErrorCode::AuthTokenMissing | ErrorCode::AuthTokenInvalid | ErrorCode::AuthTokenExpired
            | ErrorCode::ClusterAuthFailed => 401,
        ErrorCode::RateLimitExceeded => 429,
        ErrorCode::FileNotFound | ErrorCode::CryptoKeyNotFound => 404,
        ErrorCode::CodecDecodeFailed | ErrorCode::ConfigParseFailed => 400,
        ErrorCode::CircuitBreakerOpen | ErrorCode::ClusterMainUnreachable => 503,
        ErrorCode::HttpTimeout => 504,
        _ => 500,
    }
}

impl ErrorCode {
    /// The wire text of an error code, in upper snake case.
    pub fn as_str(&self) -> (s: &'static str)
        ensures
            s@ == self.text(),
    {
        match self {
            ErrorCode::Internal => "INTERNAL",
            ErrorCode::CodecEncodeFailed => "CODEC_ENCODE_FAILED",
            ErrorCode::CodecDecodeFailed => "CODEC_DECODE_FAILED",
            ErrorCode::LockAcquireFailed => "LOCK_ACQUIRE_FAILED",
            ErrorCode::CryptoEncryptFailed => "CRYPTO_ENCRYPT_FAILED",
            ErrorCode::CryptoDecryptFailed => "CRYPTO_DECRYPT_FAILED",
            ErrorCode::CryptoKeyNotFound => "CRYPTO_KEY_NOT_FOUND",
            ErrorCode::FileWriteFailed => "FILE_WRITE_FAILED",
            ErrorCode::FileNotFound => "FILE_NOT_FOUND",
            ErrorCode::FileReadFailed => "FILE_READ_FAILED",
            ErrorCode::FileDeleteFailed => "FILE_DELETE_FAILED",
            ErrorCode::ConfigParseFailed => "CONFIG_PARSE_FAILED",
            ErrorCode::ConfigFileMissing => "CONFIG_FILE_MISSING",
            ErrorCode::ConfigReloadFailed => "CONFIG_RELOAD_FAILED",
            ErrorCode::I18nLoadFailed => "I18N_LOAD_FAILED",
            ErrorCode::MqPublishFailed => "MQ_PUBLISH_FAILED",
            ErrorCode::MqSubscribeFailed => "MQ_SUBSCRIBE_FAILED",
            ErrorCode::RateLimitExceeded => "RATE_LIMIT_EXCEEDED",
            ErrorCode::AuthTokenMissing => "AUTH_TOKEN_MISSING",
            ErrorCode::AuthTokenInvalid => "AUTH_TOKEN_INVALID",
            ErrorCode::AuthTokenExpired => "AUTH_TOKEN_EXPIRED",
            ErrorCode::ClusterMainUnreachable => "CLUSTER_MAIN_UNREACHABLE",
            ErrorCode::ClusterRegisterFailed => "CLUSTER_REGISTER_FAILED",
            ErrorCode::ClusterAuthFailed => "CLUSTER_AUTH_FAILED",
            ErrorCode::CacheConnectionFailed => "CACHE_CONNECTION_FAILED",
            ErrorCode::CacheGetFailed => "CACHE_GET_FAILED",
            ErrorCode::CacheSetFailed => "CACHE_SET_FAILED",
            ErrorCode::CacheDeleteFailed => "CACHE_DELETE_FAILED",
            ErrorCode::HttpRequestFailed => "HTTP_REQUEST_FAILED",
            ErrorCode::HttpTimeout => "HTTP_TIMEOUT",
            ErrorCode::CircuitBreakerOpen => "CIRCUIT_BREAKER_OPEN",
            ErrorCode::ServerBindFailed => "SERVER_BIND_FAILED",
            ErrorCode::ServerStartFailed => "SERVER_START_FAILED",
            ErrorCode::LogInitFailed => "LOG_INIT_FAILED",
            ErrorCode::AuditLogFailed => "AUDIT_LOG_FAILED",
        }
    }

    /// The wire text of an error code as a character sequence.
    pub open spec fn text(self) -> Seq<char> {
        match self {
            ErrorCode::Internal => "INTERNAL"@,
            ErrorCode::CodecEncodeFailed => "CODEC_ENCODE_FAILED"@,
            ErrorCode::CodecDecodeFailed => "CODEC_DECODE_FAILED"@,
            ErrorCode::LockAcquireFailed => "LOCK_ACQUIRE_FAILED"@,
            ErrorCode::CryptoEncryptFailed => "CRYPTO_ENCRYPT_FAILED"@,
            ErrorCode::CryptoDecryptFailed => "CRYPTO_DECRYPT_FAILED"@,
            ErrorCode::CryptoKeyNotFound => "CRYPTO_KEY_NOT_FOUND"@,
            ErrorCode::FileWriteFailed => "FILE_WRITE_FAILED"@,
            ErrorCode::FileNotFound => "FILE_NOT_FOUND"@,
            ErrorCode::FileReadFailed => "FILE_READ_FAILED"@,
            ErrorCode::FileDeleteFailed => "FILE_DELETE_FAILED"@,
            ErrorCode::ConfigParseFailed => "CONFIG_PARSE_FAILED"@,
            ErrorCode::ConfigFileMissing => "CONFIG_FILE_MISSING"@,
            ErrorCode::ConfigReloadFailed => "CONFIG_RELOAD_FAILED"@,
            ErrorCode::I18nLoadFailed => "I18N_LOAD_FAILED"@,
            ErrorCode::MqPublishFailed => "MQ_PUBLISH_FAILED"@,
            ErrorCode::MqSubscribeFailed => "MQ_SUBSCRIBE_FAILED"@,
            ErrorCode::RateLimitExceeded => "RATE_LIMIT_EXCEEDED"@,
            ErrorCode::AuthTokenMissing => "AUTH_TOKEN_MISSING"@,
            ErrorCode::AuthTokenInvalid => "AUTH_TOKEN_INVALID"@,
            ErrorCode::AuthTokenExpired => "AUTH_TOKEN_EXPIRED"@,
            ErrorCode::ClusterMainUnreachable => "CLUSTER_MAIN_UNREACHABLE"@,
            ErrorCode::ClusterRegisterFailed => "CLUSTER_REGISTER_FAILED"@,
            ErrorCode::ClusterAuthFailed => "CLUSTER_AUTH_FAILED"@,
            ErrorCode::CacheConnectionFailed => "CACHE_CONNECTION_FAILED"@,
            ErrorCode::CacheGetFailed => "CACHE_GET_FAILED"@,
            ErrorCode::CacheSetFailed => "CACHE_SET_FAILED"@,
            ErrorCode::CacheDeleteFailed => "CACHE_DELETE_FAILED"@,
            ErrorCode::HttpRequestFailed => "HTTP_REQUEST_FAILED"@,
            ErrorCode::HttpTimeout => "HTTP_TIMEOUT"@,
            ErrorCode::CircuitBreakerOpen => "CIRCUIT_BREAKER_OPEN"@,
            ErrorCode::ServerBindFailed => "SERVER_BIND_FAILED"@,
            ErrorCode::ServerStartFailed => "SERVER_START_FAILED"@,
            ErrorCode::LogInitFailed => "LOG_INIT_FAILED"@,
            ErrorCode::AuditLogFailed => "AUDIT_LOG_FAILED"@,
        }
    }

    /// The HTTP status that an error response with this code carries.
    pub fn http_status(&self) -> (s: u16)
        ensures
            s == spec_http_status(*self),
    {
        match self {
            ErrorCode::AuthTokenMissing | ErrorCode::AuthTokenInvalid | ErrorCode::AuthTokenExpired
                | ErrorCode::ClusterAuthFailed => 401,
            ErrorCode::RateLimitExceeded => 429,
            ErrorCode::FileNotFound | ErrorCode::CryptoKeyNotFound => 404,
            ErrorCode::CodecDecodeFailed | ErrorCode::ConfigParseFailed => 400,
            ErrorCode::CircuitBreakerOpen | ErrorCode::ClusterMainUnreachable => 503,
            ErrorCode::HttpTimeout => 504,
            _ => 500,
        }
    }
}

/// An error with a code and a human-readable message.
#[derive(Debug, Clone)]
pub struct AppError {
    pub code: ErrorCode,
    pub message: String,
}

impl AppError {
    pub fn new(code: ErrorCode, message: String) -> (e: AppError)
        ensures
            e.code == code,
            e.message@ == message@,
    {
        AppError { code, message }
    }

    /// An error whose message is a static text.
    pub fn from_static(code: ErrorCode, message: &str) -> (e: AppError)
        ensures
            e.code == code,
            e.message@ == message@,
    {
        AppError { code, message: message.to_string() }
    }
}

} // verus!
