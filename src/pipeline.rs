//! The decisions of the quote pipeline that come before any file is written:
//! screening an upload, and the profiles a request uses.
use vstd::prelude::*;
use vstd::string::*;
use crate::error::OrcaError;
use crate::filename::{is_empty_name_error, secure_name, validate_filename};
use crate::validate::{check_of, validate_3d_file, FileInfo};

verus! {

/// Where a quote is to be announced.
#[derive(Debug, Clone)]
pub struct TelegramConfig {
    pub token: String,
    pub chat_id: String,
    pub customer_name: String,
    pub customer_mobile: String,
}

impl TelegramConfig {
    /// A configuration with the given bot token, chat and customer.
    pub fn new(token: String, chat_id: String, customer_name: String, customer_mobile: String) -> (r:
        TelegramConfig)
        ensures
            r.token == token,
            r.chat_id == chat_id,
            r.customer_name == customer_name,
            r.customer_mobile == customer_mobile,
    {
        TelegramConfig { token, chat_id, customer_name, customer_mobile }
    }
}

/// The extension that `std::path::Path::extension` finds in `path`, or
/// nothing.
pub uninterp spec fn extension_of(path: Seq<char>) -> Seq<char>;

/// Relies on `std::path::Path::extension`, whose result depends on the text
/// of the path alone; a missing extension gives the empty text.
#[verifier::external_body]
fn path_extension(path: &str) -> (r: &str)
    ensures
        r@ == extension_of(path@),
{
    match std::path::Path::new(path).extension() {
        Some(e) => e.to_str().unwrap_or(""),
        None => "",
    }
}

/// Screens an upload: its name must keep something once made safe (see
/// [`secure_name`]), and its contents are checked against the extension of
/// the name as uploaded. A failed content check is a normal result, not an
/// error.
pub fn screen_upload(contents: &[u8], uploaded_name: &str) -> (r: Result<FileInfo, OrcaError>)
    ensures
        secure_name(uploaded_name@).len() == 0 ==> r is Err && is_empty_name_error(r->Err_0),
        secure_name(uploaded_name@).len() > 0 ==> r is Ok && r->Ok_0.secure_filename@
            == secure_name(uploaded_name@) && check_of(
            r->Ok_0,
            contents@,
            extension_of(uploaded_name@),
        ),
{
    match validate_filename(uploaded_name) {
        Ok(secure) => {
            let mut info = validate_3d_file(contents, path_extension(uploaded_name));
            info.secure_filename = secure;
            Ok(info)
        },
        Err(e) => Err(e),
    }
}

/// The machine profile that a request uses when it names none.
pub open spec fn default_machine_profile() -> Seq<char> {
    "RatRig V-Core 3 400 0.5 nozzle.json"@
}

/// The process profile that a request uses when it names none.
pub open spec fn default_process_profile() -> Seq<char> {
    "0.2mm RatRig 0.5mm nozzle.json"@
}

/// The machine and process profiles of a request, with the defaults for
/// those it does not name.
pub fn profile_names(machine: Option<String>, process: Option<String>) -> (r: (String, String))
    ensures
        r.0@ == match machine {
            Some(m) => m@,
            None => default_machine_profile(),
        },
        r.1@ == match process {
            Some(p) => p@,
            None => default_process_profile(),
        },
{
    let m = match machine {
        Some(m) => m,
        None => String::from_str("RatRig V-Core 3 400 0.5 nozzle.json"),
    };
    let p = match process {
        Some(p) => p,
        None => String::from_str("0.2mm RatRig 0.5mm nozzle.json"),
    };
    (m, p)
}

} // verus!
