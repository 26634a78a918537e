//! Tests of the configuration enumerations and the error type.

use receiver::{CompressionType, DataFormat, ReceiverError, SerialReaderWorker};

#[test]
fn data_format_from_str_ignores_case() {
    assert_eq!(DataFormat::from_str("auto"), Ok(DataFormat::Auto));
    assert_eq!(DataFormat::from_str("AUTO"), Ok(DataFormat::Auto));
    assert_eq!(DataFormat::from_str("Text"), Ok(DataFormat::Text));
    assert_eq!(DataFormat::from_str("binary"), Ok(DataFormat::Binary));
    assert_eq!(
        DataFormat::from_str("csv"),
        Err(String::from("unknown data format: csv"))
    );
    assert_eq!(DataFormat::default(), DataFormat::Auto);
}

#[test]
fn compression_type_from_str_ignores_case() {
    assert_eq!(
        CompressionType::from_str("none"),
        Ok(CompressionType::Uncompressed)
    );
    assert_eq!(
        CompressionType::from_str("Snappy"),
        Ok(CompressionType::Snappy)
    );
    assert_eq!(CompressionType::from_str("GZIP"), Ok(CompressionType::Gzip));
    assert_eq!(CompressionType::from_str("lz4"), Ok(CompressionType::Lz4));
    assert_eq!(CompressionType::from_str("zstd"), Ok(CompressionType::Zstd));
    assert_eq!(
        CompressionType::from_str("invalid"),
        Err(String::from("unknown compression type: invalid"))
    );
}

#[test]
fn parse_error_names_the_failure() {
    let err = receiver::parse_sensor_data("no commas here").unwrap_err();
    assert!(matches!(err, ReceiverError::ParseError(_)));
    assert!(!err.message().is_empty());
}

#[test]
fn serial_reader_worker_keeps_its_configuration() {
    let worker = SerialReaderWorker::new(String::from("/dev/ttyUSB0"), 115200, 100);
    assert_eq!(worker.port_name, "/dev/ttyUSB0");
    assert_eq!(worker.baud_rate, 115200);
    assert_eq!(worker.buffer_size, 100);
}
