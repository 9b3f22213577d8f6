use ps3dec_gui::config::clamp_thread_count;
use ps3dec_gui::config::AppConfig;
use ps3dec_gui::persist::load_config;

#[test]
fn thread_count_is_clamped_into_range() {
    assert_eq!(clamp_thread_count(0), 1);
    assert_eq!(clamp_thread_count(1), 1);
    assert_eq!(clamp_thread_count(42), 42);
    assert_eq!(clamp_thread_count(256), 256);
    assert_eq!(clamp_thread_count(257), 256);
    assert_eq!(clamp_thread_count(u32::MAX), 256);
}

#[test]
fn default_config_is_empty_with_one_thread() {
    let c = AppConfig::default();
    assert_eq!(c.iso_path, "");
    assert_eq!(c.decryption_key, "");
    assert_eq!(c.thread_count, 1);
    assert!(!c.auto);
    assert_eq!(c.ps3dec_path, "");
}

#[test]
fn missing_file_loads_defaults() {
    let c = load_config(None);
    assert_eq!(c.iso_path, "");
    assert_eq!(c.thread_count, 1);
    assert!(!c.auto);
}

#[test]
fn malformed_file_loads_defaults() {
    for text in ["", "garbage", "{}", "{\n  \"iso_path\": \"a\"", "null"] {
        let c = load_config(Some(text));
        assert_eq!(c.iso_path, "");
        assert_eq!(c.decryption_key, "");
        assert_eq!(c.thread_count, 1);
        assert!(!c.auto);
        assert_eq!(c.ps3dec_path, "");
    }
}
