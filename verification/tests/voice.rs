use home_automation_rs::voice::persona::{Alisa, AlisaMode};
use home_automation_rs::voice::stt::transcribe;
use home_automation_rs::voice::tts::{has_elevenlabs, speak};

#[test]
fn test_default_is_ambient() {
    let alisa = Alisa::new();
    assert_eq!(alisa.mode(), AlisaMode::Ambient);
}

#[test]
fn test_thorsten_proof() {
    let mut alisa = Alisa::new();
    // Hosted voice not available: Special blocked
    let err = alisa.request_mode(AlisaMode::Special);
    assert!(err.is_err());
    assert!(err.unwrap_err().contains("Thorsten"));
}

#[test]
fn test_thorsten_proof_allows_with_elevenlabs() {
    let mut alisa = Alisa::new();
    alisa.set_elevenlabs_available(true);
    let result = alisa.request_mode(AlisaMode::Special);
    assert!(result.is_ok());
    assert_eq!(result.unwrap(), AlisaMode::Special);
}

#[test]
fn test_thomas_proof_pauses_special() {
    let mut alisa = Alisa::new();
    alisa.set_elevenlabs_available(true);
    alisa.request_mode(AlisaMode::Special).unwrap();

    alisa.on_call_start();
    assert_eq!(alisa.mode(), AlisaMode::CallPause);
    assert!(alisa.is_call_active());
}

#[test]
fn test_no_auto_resume_after_call() {
    let mut alisa = Alisa::new();
    alisa.set_elevenlabs_available(true);
    alisa.request_mode(AlisaMode::Special).unwrap();

    alisa.on_call_start();
    alisa.on_call_end();

    assert_eq!(alisa.mode(), AlisaMode::Ambient);
}

#[test]
fn test_explicit_resume() {
    let mut alisa = Alisa::new();
    alisa.set_elevenlabs_available(true);
    alisa.request_mode(AlisaMode::Special).unwrap();

    alisa.on_call_start();
    alisa.on_call_end();

    let result = alisa.resume_after_call();
    assert!(result.is_ok());
    assert_eq!(result.unwrap(), AlisaMode::Special);
}

#[test]
fn test_respond_blocked_during_call() {
    let mut alisa = Alisa::new();
    alisa.on_call_start();
    assert!(alisa.respond("test").is_none());
}

#[test]
fn mode_change_refused_during_call() {
    let mut alisa = Alisa::new();
    alisa.on_call_start();
    let r = alisa.request_mode(AlisaMode::Companion);
    assert_eq!(r, Err("Call active — mode change blocked (Thomas-Proof)"));
    assert_eq!(alisa.mode(), AlisaMode::Ambient);
    // Pausing is still allowed during a call.
    assert_eq!(alisa.request_mode(AlisaMode::CallPause), Ok(AlisaMode::CallPause));
}

#[test]
fn resume_refused_while_call_active() {
    let mut alisa = Alisa::new();
    alisa.on_call_start();
    assert_eq!(alisa.resume_after_call(), Err("Call still active"));
}

#[test]
fn resume_without_pause_keeps_mode() {
    let mut alisa = Alisa::new();
    alisa.request_mode(AlisaMode::Companion).unwrap();
    alisa.on_call_start();
    alisa.on_call_end();
    assert_eq!(alisa.mode(), AlisaMode::Companion);
    assert_eq!(alisa.resume_after_call(), Ok(AlisaMode::Companion));
}

#[test]
fn offline_voice_backends_are_unwired() {
    assert_eq!(transcribe(&[1, 2, 3]), None);
    assert_eq!(speak("hallo"), None);
    assert!(!has_elevenlabs());
}
