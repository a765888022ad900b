use rinfra_plugins::codec::{JsonCodec, MsgpackCodec, ProtobufCodec};
use rinfra_plugins::compress::{
    builtin_compressors, decode_pipeline, encode_pipeline, BuiltinCompressor, Compressor, CompressorTransform,
    GzipCompressor, Lz4Compressor,
};
use rinfra_plugins::error::ErrorCode;

fn object(pairs: &[(&str, serde_json::Value)]) -> serde_json::Value {
    let mut m = serde_json::Map::new();
    for (k, v) in pairs {
        m.insert(k.to_string(), v.clone());
    }
    serde_json::Value::Object(m)
}

#[test]
fn test_json_codec_name_and_content_type() {
    let codec = JsonCodec::new();
    assert_eq!(codec.name(), "json");
    assert_eq!(codec.content_type(), "application/json");
}

#[test]
fn test_msgpack_name_and_content_type() {
    let codec = MsgpackCodec;
    assert_eq!(codec.name(), "msgpack");
    assert_eq!(codec.content_type(), "application/msgpack");
}

#[test]
fn test_protobuf_name_and_content_type() {
    let codec = ProtobufCodec;
    assert_eq!(codec.name(), "protobuf");
    assert_eq!(codec.content_type(), "application/x-protobuf");
}

#[test]
fn test_json_codec_encode_decode_roundtrip() {
    let codec = JsonCodec::new();
    let value = object(&[("name", serde_json::Value::from("alice")), ("age", serde_json::Value::from(30))]);
    let bytes = codec.encode_value(&value).unwrap();
    let decoded = codec.decode_value(&bytes).unwrap();
    assert_eq!(value, decoded);
}

#[test]
fn test_json_codec_decode_invalid_data() {
    let codec = JsonCodec::new();
    let result = codec.decode_value(b"not json {{{");
    assert!(result.is_err());
    assert_eq!(result.unwrap_err().code, ErrorCode::CodecDecodeFailed);
}

#[test]
fn test_json_codec_encode_primitives() {
    let codec = JsonCodec::new();
    let bytes = codec.encode_value(&serde_json::Value::from(42)).unwrap();
    assert_eq!(bytes, b"42");
}

#[test]
fn test_json_codec_encode_null() {
    let codec = JsonCodec::new();
    let bytes = codec.encode_value(&serde_json::Value::Null).unwrap();
    assert_eq!(bytes, b"null");
}

#[test]
fn test_json_codec_decode_array() {
    let codec = JsonCodec::new();
    let value = codec.decode_value(b"[1,2,3]").unwrap();
    let expected = serde_json::Value::Array(vec![1.into(), 2.into(), 3.into()]);
    assert_eq!(value, expected);
}

#[test]
fn test_msgpack_encode_decode_roundtrip() {
    let codec = MsgpackCodec;
    let value = object(&[("hello", serde_json::Value::from("world")), ("num", serde_json::Value::from(42))]);
    let encoded = codec.encode_value(&value).unwrap();
    let decoded = codec.decode_value(&encoded).unwrap();
    assert_eq!(decoded["hello"], "world");
    assert_eq!(decoded["num"], 42);
}

#[test]
fn test_msgpack_encode_array() {
    let codec = MsgpackCodec;
    let value = serde_json::Value::Array(vec![1.into(), 2.into(), 3.into()]);
    let encoded = codec.encode_value(&value).unwrap();
    let decoded = codec.decode_value(&encoded).unwrap();
    assert_eq!(decoded, value);
}

#[test]
fn test_msgpack_decode_invalid_data() {
    let codec = MsgpackCodec;
    let result = codec.decode_value(&[0xBF]);
    assert!(result.is_err());
}

#[test]
fn test_msgpack_encode_null() {
    let codec = MsgpackCodec;
    let encoded = codec.encode_value(&serde_json::Value::Null).unwrap();
    let decoded = codec.decode_value(&encoded).unwrap();
    assert!(decoded.is_null());
}

#[test]
fn msgpack_decode_error_code() {
    let err = MsgpackCodec.decode_value(&[0xBF]).unwrap_err();
    assert_eq!(err.code, ErrorCode::CodecDecodeFailed);
}

// ── Compression ─────────────────────────────────────────────────────

#[test]
fn test_lz4_roundtrip() {
    let c = Lz4Compressor;
    let data = b"hello world, this is a test of lz4 compression!";
    let compressed = c.compress(data).unwrap();
    assert_ne!(compressed, data);
    let decompressed = c.decompress(&compressed).unwrap();
    assert_eq!(decompressed, data);
}

#[test]
fn test_lz4_empty_data() {
    let c = Lz4Compressor;
    let compressed = c.compress(b"").unwrap();
    let decompressed = c.decompress(&compressed).unwrap();
    assert!(decompressed.is_empty());
}

#[test]
fn test_lz4_invalid_data_errors() {
    let c = Lz4Compressor;
    assert!(c.decompress(&[0xFF, 0xFF, 0xFF, 0xFF]).is_err());
}

#[test]
fn lz4_block_declaring_more_than_it_holds_decodes_what_it_holds() {
    let c = Lz4Compressor;
    assert_eq!(c.decompress(&[0x10, 0x27, 0x00, 0x00, 0x00]).unwrap(), Vec::<u8>::new());
}

#[test]
fn test_lz4_compression_ratio() {
    let c = Lz4Compressor;
    let data = "A".repeat(10000);
    let compressed = c.compress(data.as_bytes()).unwrap();
    assert!(compressed.len() < data.len() / 2);
}

#[test]
fn test_gzip_roundtrip() {
    let c = GzipCompressor;
    let data = b"hello world, this is a test of gzip compression!";
    let compressed = c.compress(data).unwrap();
    assert_ne!(compressed, data.as_slice());
    let decompressed = c.decompress(&compressed).unwrap();
    assert_eq!(decompressed, data);
}

#[test]
fn test_gzip_empty_data() {
    let c = GzipCompressor;
    let compressed = c.compress(b"").unwrap();
    let decompressed = c.decompress(&compressed).unwrap();
    assert!(decompressed.is_empty());
}

#[test]
fn test_gzip_invalid_data_errors() {
    let c = GzipCompressor;
    assert!(c.decompress(&[0xFF, 0xFF, 0xFF, 0xFF]).is_err());
}

#[test]
fn test_gzip_compression_ratio() {
    let c = GzipCompressor;
    let data = "A".repeat(10000);
    let compressed = c.compress(data.as_bytes()).unwrap();
    assert!(compressed.len() < data.len() / 2);
}

#[test]
fn compressor_names_and_builtins() {
    assert_eq!(Lz4Compressor.name(), "lz4");
    assert_eq!(GzipCompressor.name(), "gzip");
    let all = builtin_compressors();
    assert_eq!(all.len(), 2);
    assert_eq!(all[0].name(), "lz4");
    assert_eq!(all[1].name(), "gzip");
    assert!(matches!(all[0], BuiltinCompressor::Lz4(_)));
}

#[test]
fn decompress_error_code_is_internal() {
    assert_eq!(Lz4Compressor.decompress(&[1, 2]).unwrap_err().code, ErrorCode::Internal);
    assert_eq!(GzipCompressor.decompress(&[1, 2, 3]).unwrap_err().code, ErrorCode::Internal);
}

#[test]
fn pipeline_roundtrip_in_reverse_order() {
    let pipeline = vec![
        CompressorTransform(BuiltinCompressor::Gzip(GzipCompressor)),
        CompressorTransform(BuiltinCompressor::Lz4(Lz4Compressor)),
    ];
    let data = b"frame payload frame payload frame payload".to_vec();
    let encoded = encode_pipeline(&pipeline, data.clone()).unwrap();
    assert_ne!(encoded, data);
    // The last stage was applied first: the outer layer is gzip.
    assert!(GzipCompressor.decompress(&encoded).is_ok());
    let decoded = decode_pipeline(&pipeline, encoded).unwrap();
    assert_eq!(decoded, data);
}

#[test]
fn pipeline_decode_failure_and_empty() {
    let empty: Vec<CompressorTransform<Lz4Compressor>> = vec![];
    assert_eq!(decode_pipeline(&empty, vec![1, 2, 3]).unwrap(), vec![1, 2, 3]);
    assert_eq!(encode_pipeline(&empty, vec![4]).unwrap(), vec![4]);
    let lz4 = vec![CompressorTransform(Lz4Compressor)];
    assert!(decode_pipeline(&lz4, vec![0xFF, 0xFF, 0xFF, 0xFF]).is_err());
}
