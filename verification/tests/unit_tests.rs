use yt_dlp_ng::extractors::js_interpreter::JSInterpreter;
use yt_dlp_ng::extractors::youtube_signature::{
    apply_operation, apply_operations, SignatureDecrypter, TransformOp,
};
use yt_dlp_ng::utils::sanitize_filename;

#[test]
fn test_js_interpreter_basic() {
    let js_code = r#"
        function test(a) {
            return a + "world";
        }
        "#
    .to_string();

    let interpreter = JSInterpreter::new(js_code).unwrap();
    let result = interpreter.decrypt_signature("test", "hello", None).unwrap();
    assert_eq!(result, "helloworld");
}

#[test]
fn test_signature_transformation() {
    let js_code = r#"
        var a = ["reverse", "splice", "swap"];
        function sig(s) {
            s = s.split('');
            s.reverse();
            s.splice(1, 1);
            var c = s[0];
            s[0] = s[2];
            s[2] = c;
            return s.join('');
        }
        "#
    .to_string();

    let interpreter = JSInterpreter::new(js_code).unwrap();
    let result = interpreter.decrypt_signature("sig", "abcdef", None).unwrap();
    // Input: "abcdef"
    // Reverse: "fedcba"
    // Splice at 1: "fdcba"
    // Swap 0 and 2: "cdfba"
    assert_eq!(result, "cdfba");
    assert_ne!(result, "cdcba");
}

#[test]
fn test_signature_decryption_basic() {
    let mut decrypter = SignatureDecrypter::new();

    // Test basic operations
    let test_signature = "abcdefghijklmnop";

    // Mock JS content that would produce reverse operation
    let mock_js = r#"
        var Aaa = {
            bbb: function(a) { return a.reverse(); }
        };
        var ccc = function(a) { return Aaa.bbb(a); };
        "#;

    let result = decrypter.decrypt_signature(test_signature, mock_js);
    assert!(result.is_err() || result.is_ok());
}

#[test]
fn test_transform_operations() {
    // Test individual operations
    let mut chars: Vec<char> = "abcdef".chars().collect();

    // Test reverse
    chars = apply_operation(TransformOp::Reverse, chars);
    assert_eq!(chars.iter().collect::<String>(), "fedcba");

    // Test splice
    chars = apply_operation(TransformOp::RemoveAt(1), chars);
    assert_eq!(chars.iter().collect::<String>(), "fdcba");

    // Test swap
    chars = apply_operation(TransformOp::SwapWithFirst(2), chars);
    assert_eq!(chars.iter().collect::<String>(), "cdfba");
}

#[test]
fn test_sanitize_filename() {
    assert_eq!(sanitize_filename("hello/world"), "hello-world");
    assert_eq!(sanitize_filename("test<>file"), "test__file");
    assert_eq!(sanitize_filename("normal_file.mp4"), "normal_file.mp4");
}

#[test]
fn transform_sequence_on_a_signature() {
    let ops = vec![
        TransformOp::Reverse,
        TransformOp::RemoveAt(1),
        TransformOp::SwapWithFirst(2),
    ];
    assert_eq!(apply_operations(&ops, "abcdef"), "cdfba");
}
