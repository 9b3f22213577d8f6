use ps3dec_gui::config::AppConfig;
use ps3dec_gui::persist::decode_config;
use ps3dec_gui::persist::encode_config;
use ps3dec_gui::persist::load_config;

fn config(iso: &str, exe: &str, key: &str, threads: u32, auto: bool) -> AppConfig {
    AppConfig {
        iso_path: iso.to_string(),
        decryption_key: key.to_string(),
        thread_count: threads,
        auto,
        ps3dec_path: exe.to_string(),
    }
}

fn assert_same(a: &AppConfig, b: &AppConfig) {
    assert_eq!(a.iso_path, b.iso_path);
    assert_eq!(a.decryption_key, b.decryption_key);
    assert_eq!(a.thread_count, b.thread_count);
    assert_eq!(a.auto, b.auto);
    assert_eq!(a.ps3dec_path, b.ps3dec_path);
}

#[test]
fn encoding_writes_the_expected_document() {
    let c = config("game.iso", "/opt/ps3dec", "0123abcd", 4, false);
    assert_eq!(
        encode_config(&c),
        "{\n  \"iso_path\": \"game.iso\",\n  \"decryption_key\": \"0123abcd\",\n  \"thread_count\": 4,\n  \"auto\": false,\n  \"ps3dec_path\": \"/opt/ps3dec\"\n}"
    );
}

#[test]
fn decoding_reads_a_written_document() {
    let text = "{\n  \"iso_path\": \"a.iso\",\n  \"decryption_key\": \"\",\n  \"thread_count\": 16,\n  \"auto\": true,\n  \"ps3dec_path\": \"tool\"\n}";
    let c = decode_config(text).unwrap();
    assert_same(&c, &config("a.iso", "tool", "", 16, true));
}

#[test]
fn saving_then_loading_reproduces_the_configuration() {
    let cases = vec![
        config("", "", "", 1, false),
        config("game.iso", "/opt/ps3dec", "0123abcd", 4, false),
        config("with \"quotes\".iso", "C:\\tools\\ps3dec.exe", "k\\e\"y", 256, true),
        config("sp a ce.iso", "./ps3dec", "", u32::MAX, true),
        config("uni\u{00e9}\u{4e2d}.iso", "\u{00fc}", "\u{2603}", 1, false),
        config("newline\nin name", "tab\there", "{}:,\"\\", 99, false),
    ];
    for c in cases {
        let text = encode_config(&c);
        let back = decode_config(&text).expect("an encoded configuration must decode");
        assert_same(&back, &c);
        let loaded = load_config(Some(&text));
        assert_same(&loaded, &c);
    }
}

#[test]
fn malformed_documents_are_refused() {
    let bad = vec![
        "".to_string(),
        "{}".to_string(),
        "not a document".to_string(),
        // truncated
        "{\n  \"iso_path\": \"a".to_string(),
        // wrong field name
        "{\n  \"iso\": \"a\",\n  \"decryption_key\": \"\",\n  \"thread_count\": 1,\n  \"auto\": false,\n  \"ps3dec_path\": \"\"\n}".to_string(),
        // a lone backslash in a string
        "{\n  \"iso_path\": \"a\\b\",\n  \"decryption_key\": \"\",\n  \"thread_count\": 1,\n  \"auto\": false,\n  \"ps3dec_path\": \"\"\n}".to_string(),
        // thread count too large for u32
        "{\n  \"iso_path\": \"a\",\n  \"decryption_key\": \"\",\n  \"thread_count\": 4294967296,\n  \"auto\": false,\n  \"ps3dec_path\": \"\"\n}".to_string(),
        // no number at all
        "{\n  \"iso_path\": \"a\",\n  \"decryption_key\": \"\",\n  \"thread_count\": x,\n  \"auto\": false,\n  \"ps3dec_path\": \"\"\n}".to_string(),
        // flag that is neither true nor false
        "{\n  \"iso_path\": \"a\",\n  \"decryption_key\": \"\",\n  \"thread_count\": 1,\n  \"auto\": maybe,\n  \"ps3dec_path\": \"\"\n}".to_string(),
        // trailing text after the closing brace
        "{\n  \"iso_path\": \"a\",\n  \"decryption_key\": \"\",\n  \"thread_count\": 1,\n  \"auto\": false,\n  \"ps3dec_path\": \"\"\n} ".to_string(),
    ];
    for text in &bad {
        assert!(decode_config(text).is_none(), "accepted: {:?}", text);
    }
}

#[test]
fn largest_thread_count_survives_the_document() {
    let c = config("a", "b", "", 4294967295, false);
    let back = decode_config(&encode_config(&c)).unwrap();
    assert_eq!(back.thread_count, u32::MAX);
}
