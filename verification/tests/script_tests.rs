use rusty_core::script::standard_scripts::StandardScripts;

#[test]
fn test_p2pkh_creation() {
    let hash = [0u8; 20];
    let script = StandardScripts::create_p2pkh(&hash);
    assert!(StandardScripts::is_p2pkh(&script));
}

#[test]
fn test_p2sh_creation() {
    let hash = [0u8; 20];
    let script = StandardScripts::create_p2sh(&hash);
    assert!(StandardScripts::is_p2sh(&script));
}
