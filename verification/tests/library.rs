use std::io::Write;

use jieum::builtins::{builtin_bindings, BuiltinFunction};
use jieum::error::ErrorKind;
use jieum::mnist::{mnist_dir, mnist_files, mnist_files_missing, mnist_url, unpack_mnist_file, unpack_outcome};
use jieum::syntax::unary_message_for_property;
use jieum::syntax::UnaryMessage;
use jieum::text::{i64_to_text, parse_i64, str_less, usize_to_text};
use jieum::torch::{batch_count, batch_range};

#[test]
fn batches_tile_the_dataset() {
    assert_eq!(batch_count(100, 32), 4);
    let batches: Vec<(i64, i64)> = (0..4).map(|i| batch_range(100, 32, i)).collect();
    assert_eq!(batches, vec![(0, 32), (32, 32), (64, 32), (96, 4)]);
    let mut next = 0;
    for (start, count) in batches {
        assert_eq!(start, next);
        next = start + count;
    }
    assert_eq!(next, 100);
    assert_eq!(batch_count(0, 8), 0);
    assert_eq!(batch_count(8, 8), 1);
    assert_eq!(batch_count(9, 8), 2);
    assert_eq!(batch_count(5, i64::MAX), 1);
    assert_eq!(batch_range(5, i64::MAX, 0), (0, 5));
}

#[test]
fn builtins_print_as_their_names() {
    let all = [
        BuiltinFunction::Length,
        BuiltinFunction::CurrentTimeSeconds,
        BuiltinFunction::Push,
        BuiltinFunction::PopLast,
        BuiltinFunction::ToString,
        BuiltinFunction::ToInt,
        BuiltinFunction::ToFloat,
        BuiltinFunction::FlattenLayer,
        BuiltinFunction::LinearLayer,
        BuiltinFunction::ReluLayer,
        BuiltinFunction::SequentialNetwork,
        BuiltinFunction::BuildMnistDataset,
        BuiltinFunction::BuildDataLoader,
        BuiltinFunction::CrossEntropyLoss,
        BuiltinFunction::AdamOptimizer,
        BuiltinFunction::ZeroGrad,
        BuiltinFunction::Forward,
        BuiltinFunction::ComputeLoss,
        BuiltinFunction::Backward,
        BuiltinFunction::OptimizerStep,
        BuiltinFunction::SetTrainMode,
        BuiltinFunction::SetEvalMode,
        BuiltinFunction::FetchBatch,
        BuiltinFunction::ArgMax,
        BuiltinFunction::CountEqual,
    ];
    for f in all {
        assert_eq!(f.display_text(), format!("<내장 함수 {}>", f.name()));
    }
    assert_eq!(BuiltinFunction::SetEvalMode.name(), "평가모드로바꾸기");
    assert_eq!(BuiltinFunction::OptimizerStep.display_text(), "<내장 함수 매개변수갱신>");
}

#[test]
fn the_global_table_binds_every_builtin_and_the_aliases() {
    let table = builtin_bindings();
    assert_eq!(table.len(), 28);
    assert_eq!(table[0], ("길이", BuiltinFunction::Length));
    assert!(table.contains(&("스텝", BuiltinFunction::OptimizerStep)));
    assert!(table.contains(&("데이터로더만들기", BuiltinFunction::BuildDataLoader)));
    assert!(table.contains(&("숫자손글씨데이터셋만들기", BuiltinFunction::BuildMnistDataset)));
    for (name, f) in &table[..25] {
        assert_eq!(*name, f.name());
    }
}

#[test]
fn property_names_that_are_messages() {
    assert_eq!(unary_message_for_property("길이"), Some(UnaryMessage::Length));
    assert_eq!(unary_message_for_property("제곱"), Some(UnaryMessage::Square));
    assert_eq!(unary_message_for_property("값"), None);
}

#[test]
fn integer_text_both_ways() {
    assert_eq!(parse_i64("42"), Some(42));
    assert_eq!(parse_i64("-12"), Some(-12));
    assert_eq!(parse_i64("+7"), Some(7));
    assert_eq!(parse_i64("-9223372036854775808"), Some(i64::MIN));
    assert_eq!(parse_i64("9223372036854775808"), None);
    assert_eq!(parse_i64(""), None);
    assert_eq!(parse_i64("-"), None);
    assert_eq!(parse_i64("1a"), None);
    assert_eq!(i64_to_text(-305), "-305");
    assert_eq!(i64_to_text(i64::MIN), "-9223372036854775808");
    assert_eq!(usize_to_text(0), "0");
}

#[test]
fn keys_order_by_their_bytes() {
    assert!(str_less("a", "b"));
    assert!(str_less("나이", "이름"));
    assert!(str_less("Z", "a"));
    assert!(str_less("ab", "abc"));
    assert!(!str_less("b", "a"));
    assert!(!str_less("a", "a"));
}

#[test]
fn mnist_files_and_addresses() {
    assert_eq!(mnist_dir(), "data/MNIST/raw");
    assert_eq!(
        mnist_files(),
        vec!["train-images-idx3-ubyte", "train-labels-idx1-ubyte", "t10k-images-idx3-ubyte", "t10k-labels-idx1-ubyte"]
    );
    assert_eq!(
        mnist_url("t10k-labels-idx1-ubyte"),
        "https://ossci-datasets.s3.amazonaws.com/mnist/t10k-labels-idx1-ubyte.gz"
    );
}

#[test]
fn unpacking_a_downloaded_file() {
    let mut encoder = flate2::write::GzEncoder::new(Vec::new(), flate2::Compression::default());
    encoder.write_all(b"\x00\x00\x08\x01 labels").unwrap();
    let compressed = encoder.finish().unwrap();
    let unpacked = unpack_mnist_file("train-labels-idx1-ubyte", &compressed).unwrap();
    assert_eq!(unpacked, b"\x00\x00\x08\x01 labels".to_vec());
    assert_ne!(unpacked, compressed);
}

#[test]
fn unpacking_garbage_names_the_file() {
    let e = unpack_mnist_file("train-images-idx3-ubyte", b"not gzip").unwrap_err();
    assert!(matches!(e.kind, ErrorKind::HostFailure { .. }));
    assert!(e.message().starts_with("MNIST 압축 해제에 실패했습니다. `train-images-idx3-ubyte` - "));
    let e = unpack_outcome("a", Err("bad".to_string())).unwrap_err();
    assert_eq!(e.message(), "MNIST 압축 해제에 실패했습니다. `a` - bad");
    assert_eq!(unpack_outcome("a", Ok(vec![1, 2])).unwrap(), vec![1, 2]);
}

#[test]
fn mnist_files_missing_skips_present_files() {
    assert_eq!(
        mnist_files_missing(&vec![true, false, true, false]),
        vec!["train-labels-idx1-ubyte", "t10k-labels-idx1-ubyte"]
    );
    assert_eq!(mnist_files_missing(&vec![true, true, true, true]), Vec::<&str>::new());
    assert_eq!(mnist_files_missing(&vec![false, false, false, false]), mnist_files());
}
