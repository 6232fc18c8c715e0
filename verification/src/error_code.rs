//! Error codes emitted by the host. Strings are stable; the extension
//! surfaces them to the page.

use vstd::prelude::*;

verus! {

pub const INVALID_JSON: &'static str = "INVALID_JSON";
pub const INVALID_PAYLOAD: &'static str = "INVALID_PAYLOAD";
pub const MSG_TOO_LARGE: &'static str = "MSG_TOO_LARGE";
pub const UNKNOWN_CMD: &'static str = "UNKNOWN_CMD";
pub const UNKNOWN_JOB: &'static str = "UNKNOWN_JOB";
pub const INVALID_CHUNK_INDEX: &'static str = "INVALID_CHUNK_INDEX";
pub const USB_ENUM_FAILED: &'static str = "USB_ENUM_FAILED";

pub const PKCS11_MODULE_NOT_FOUND: &'static str = "PKCS11_MODULE_NOT_FOUND";
pub const PKCS11_INIT_FAILED: &'static str = "PKCS11_INIT_FAILED";
pub const PKCS11_INIT_TIMEOUT: &'static str = "PKCS11_INIT_TIMEOUT";
pub const PKCS11_SLOT_NOT_FOUND: &'static str = "PKCS11_SLOT_NOT_FOUND";
pub const PKCS11_LOGIN_FAILED: &'static str = "PKCS11_LOGIN_FAILED";
pub const PKCS11_SIGN_FAILED: &'static str = "PKCS11_SIGN_FAILED";
pub const CERT_NOT_FOUND: &'static str = "CERT_NOT_FOUND";
pub const PIN_CANCELLED: &'static str = "PIN_CANCELLED";
pub const PIN_INCORRECT: &'static str = "PIN_INCORRECT";
pub const PIN_LOCKED: &'static str = "PIN_LOCKED";
pub const PDF_INVALID: &'static str = "PDF_INVALID";
pub const CMS_BUILD_FAILED: &'static str = "CMS_BUILD_FAILED";

} // verus!
