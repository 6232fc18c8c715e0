use std::cell::Cell;

use autodcr_bridge::pin::{
    dialog_outcome, dialog_pin, dialog_text, macos_dialog_script, parse_pinentry_output, pinentry_script, prompt,
    prompt_and_verify_pin, prompt_pin, ps_single_quote, trim_white_space, windows_dialog_outcome,
    windows_dialog_script, PinAction, PinError, PinFlow, INCORRECT_PIN_RETRY_MESSAGE, WINDOWS_SCRIPT_HEAD,
    WINDOWS_SCRIPT_TAIL,
};
use autodcr_bridge::pkcs11::LoginError;

#[test]
fn correct_pin_is_returned_after_one_prompt() {
    let prompts = Cell::new(0);
    let r = prompt_and_verify_pin(
        "tok",
        3,
        |_label: &str, message: Option<&'static str>| {
            prompts.set(prompts.get() + 1);
            assert_eq!(message, None);
            Ok("1234".to_string())
        },
        |pin: &str| if pin == "1234" { Ok(()) } else { Err(LoginError::Incorrect) },
    );
    assert_eq!(r.unwrap(), "1234");
    assert_eq!(prompts.get(), 1);
}

#[test]
fn incorrect_pin_is_asked_again_up_to_the_limit() {
    let prompts = Cell::new(0);
    let r = prompt_and_verify_pin(
        "tok",
        3,
        |_label: &str, message: Option<&'static str>| {
            let n = prompts.get();
            prompts.set(n + 1);
            if n > 0 {
                assert_eq!(message, Some(INCORRECT_PIN_RETRY_MESSAGE));
            }
            Ok("0000".to_string())
        },
        |_pin: &str| Err(LoginError::Incorrect),
    );
    assert!(matches!(r, Err(PinError::Incorrect)));
    assert_eq!(prompts.get(), 3);
}

#[test]
fn zero_attempts_still_prompts_once() {
    let prompts = Cell::new(0);
    let r = prompt_and_verify_pin(
        "tok",
        0,
        |_label: &str, _message: Option<&'static str>| {
            prompts.set(prompts.get() + 1);
            Ok("0000".to_string())
        },
        |_pin: &str| Err(LoginError::Incorrect),
    );
    assert!(matches!(r, Err(PinError::Incorrect)));
    assert_eq!(prompts.get(), 1);
}

#[test]
fn locked_and_cancelled_end_at_once() {
    let r = prompt_and_verify_pin(
        "tok",
        3,
        |_label: &str, _message: Option<&'static str>| Ok("1".to_string()),
        |_pin: &str| Err(LoginError::Locked),
    );
    assert!(matches!(r, Err(PinError::Locked)));
    let r = prompt_and_verify_pin(
        "tok",
        3,
        |_label: &str, _message: Option<&'static str>| Err(PinError::Cancelled),
        |_pin: &str| -> Result<(), LoginError> { panic!("no login without a PIN") },
    );
    assert!(matches!(r, Err(PinError::Cancelled)));
    let r = prompt_and_verify_pin(
        "tok",
        3,
        |_label: &str, _message: Option<&'static str>| Ok("1".to_string()),
        |_pin: &str| Err(LoginError::Other("C_Login failed".to_string())),
    );
    match r {
        Err(e) => assert_eq!(e.message(), "dialog failed: C_Login failed"),
        Ok(_) => panic!("login failure expected"),
    }
}

#[test]
fn pin_flow_counts_prompts() {
    let (mut flow, a) = PinFlow::start(2);
    assert!(matches!(a, PinAction::Prompt { retry_message: None }));
    assert!(matches!(flow.entered(Ok("9".to_string())), PinAction::Verify(_)));
    assert!(matches!(
        flow.checked("9".to_string(), Err(LoginError::Incorrect)),
        PinAction::Prompt { retry_message: Some(_) }
    ));
    assert!(matches!(flow.checked("9".to_string(), Err(LoginError::Incorrect)), PinAction::Finish(Err(PinError::Incorrect))));
}

#[test]
fn prompt_pin_shows_first_dialog() {
    let r = prompt_pin("AutoDCR token", |label: &str, message: Option<&'static str>| {
        assert_eq!(label, "AutoDCR token");
        assert!(message.is_none());
        Ok("42".to_string())
    });
    assert_eq!(r.unwrap(), "42");
}

#[test]
fn linux_prompt_falls_back_to_zenity() {
    let r = prompt(|| Ok(None), || Ok(Some("7".to_string())));
    assert_eq!(r.unwrap(), "7");
    let r = prompt(|| Ok(Some("8".to_string())), || -> Result<Option<String>, PinError> { panic!("zenity not needed") });
    assert_eq!(r.unwrap(), "8");
    assert!(matches!(prompt(|| Ok(None), || Ok(None)), Err(PinError::NoDialog)));
    assert!(matches!(prompt(|| Err(PinError::Cancelled), || Ok(None)), Err(PinError::Cancelled)));
}

#[test]
fn dialog_texts() {
    assert_eq!(dialog_text("Tok", None), "Enter PIN for Tok");
    assert_eq!(dialog_text("Tok", Some("Bad")), "Bad\n\nEnter PIN for Tok");
    assert_eq!(
        pinentry_script("Tok", Some("Bad")),
        "OPTION grab\nSETTITLE AutoDCR Bridge\nSETDESC Enter PIN for Tok\nSETERROR Bad\nSETPROMPT PIN:\nGETPIN\n"
    );
    assert_eq!(
        pinentry_script("Tok", None),
        "OPTION grab\nSETTITLE AutoDCR Bridge\nSETDESC Enter PIN for Tok\nSETPROMPT PIN:\nGETPIN\n"
    );
}

#[test]
fn pinentry_output_is_parsed() {
    assert_eq!(parse_pinentry_output("OK Pleased\nOK\nD 1234\nOK\n").unwrap(), Some("1234".to_string()));
    assert_eq!(parse_pinentry_output("OK\r\nD 99\r\nOK\r\n").unwrap(), Some("99".to_string()));
    assert_eq!(parse_pinentry_output("OK\nD 5").unwrap(), Some("5".to_string()));
    assert!(matches!(parse_pinentry_output("OK\nERR 83886179 Operation cancelled\n"), Err(PinError::Cancelled)));
    assert_eq!(parse_pinentry_output("OK\nOK\n").unwrap(), None);
    assert_eq!(parse_pinentry_output("").unwrap(), None);
}

#[test]
fn dialog_output_is_trimmed() {
    assert_eq!(trim_white_space("  12 34\r\n"), "12 34");
    assert_eq!(trim_white_space("\u{3000}x\u{a0}"), "x");
    assert_eq!(trim_white_space(" \n\t"), "");
    assert_eq!(dialog_pin("1234\n").unwrap(), "1234");
    assert!(matches!(dialog_pin("   \n"), Err(PinError::Cancelled)));
    assert!(matches!(dialog_outcome(false, "1234"), Err(PinError::Cancelled)));
    assert_eq!(dialog_outcome(true, "1234\n").unwrap(), "1234");
}

#[test]
fn powershell_quoting_and_script() {
    assert_eq!(ps_single_quote("it's"), "it''s");
    let s = windows_dialog_script("O'Brien", None);
    assert_eq!(s, format!("{}Enter PIN for O''Brien{}", WINDOWS_SCRIPT_HEAD, WINDOWS_SCRIPT_TAIL));
    assert!(matches!(windows_dialog_outcome(Some(1), false, "t", "", ""), Err(PinError::Cancelled)));
    match windows_dialog_outcome(Some(2), false, "a'b", "", "boom") {
        Err(PinError::Other(m)) => assert_eq!(m, "PowerShell PIN dialog failed (token=a''b): boom"),
        _ => panic!("dialog failure expected"),
    }
    assert_eq!(windows_dialog_outcome(Some(0), true, "t", "1234\r\n", "").unwrap(), "1234");
}

#[test]
fn macos_script_escapes_double_quotes() {
    assert_eq!(
        macos_dialog_script("My \"Tok\"", Some("Bad")),
        "set d to display dialog \"Bad\n\nEnter PIN for My 'Tok'\" default answer \"\" with hidden answer with title \"AutoDCR Bridge\" buttons {\"Cancel\", \"OK\"} default button \"OK\"\nreturn text returned of d"
    );
}

#[test]
fn pin_error_messages() {
    assert_eq!(PinError::Cancelled.message(), "user cancelled the PIN prompt");
    assert_eq!(PinError::Incorrect.message(), "incorrect DSC PIN after maximum attempts");
    assert_eq!(PinError::Locked.message(), "DSC token PIN is locked");
    assert_eq!(PinError::NoDialog.message(), "no supported PIN dialog available");
}

#[test]
fn every_dialog_gets_the_label_and_a_later_pin_can_succeed() {
    let prompts = Cell::new(0);
    let r = prompt_and_verify_pin(
        "AutoDCR token",
        3,
        |label: &str, message: Option<&'static str>| {
            assert_eq!(label, "AutoDCR token");
            let n = prompts.get();
            prompts.set(n + 1);
            assert_eq!(message, if n == 0 { None } else { Some(INCORRECT_PIN_RETRY_MESSAGE) });
            Ok(if n == 0 { "0000".to_string() } else { "1234".to_string() })
        },
        |pin: &str| if pin == "1234" { Ok(()) } else { Err(LoginError::Incorrect) },
    );
    assert_eq!(r.unwrap(), "1234");
    assert_eq!(prompts.get(), 2);
}
