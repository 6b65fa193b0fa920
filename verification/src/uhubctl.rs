//! What is asked of uhubctl and lsusb, and what their answers mean.
use vstd::prelude::*;
use crate::text::{to_chars, to_string, trim, trim_chars};
use crate::error::{ErrorView, HubError, result_view};

verus! {

/// uhubctl's answer: its standard output, followed by its trimmed standard
/// error under a `[stderr]` line when there is any; an unsuccessful exit is
/// an error carrying that text.
pub open spec fn uhubctl_answer(stdout: Seq<char>, stderr: Seq<char>, success: bool) -> Result<Seq<char>, ErrorView> {
    let e = trim(stderr);
    let s = if e.len() == 0 {
        stdout
    } else {
        stdout + "\n[stderr]\n"@ + e
    };
    if success {
        Ok(s)
    } else {
        Err(ErrorView::UhubctlFailed(s))
    }
}

/// Combine uhubctl's standard output and error; a non-zero exit is an error.
pub fn uhubctl_outcome(stdout: &str, stderr: &str, success: bool) -> (r: Result<String, HubError>)
    ensures
        result_view(r) == uhubctl_answer(stdout@, stderr@, success),
{
    let mut s = String::from_str(stdout);
    let e = trim_chars(&to_chars(stderr));
    if e.len() > 0 {
        s.append("\n[stderr]\n");
        s.append(to_string(&e).as_str());
    }
    if !success {
        return Err(HubError::UhubctlFailed(s));
    }
    Ok(s)
}

/// The uhubctl arguments that switch a port (`on` or `off`).
pub open spec fn power_args(location: Seq<char>, port: Seq<char>, action: Seq<char>) -> Seq<Seq<char>> {
    seq!["-l"@, location, "-p"@, port, "-a"@, action]
}

/// The uhubctl invocation that sets power on a located port. Duality
/// handling stays on (no `-e`): on USB3 hubs VBUS only drops when both the
/// USB2 and USB3 sides go off.
pub fn set_power_with(location: &str, port: &str, action: &str) -> (args: Vec<String>)
    ensures
        args.deep_view() == power_args(location@, port@, action@),
{
    let mut args: Vec<String> = Vec::new();
    args.push(String::from_str("-l"));
    args.push(String::from_str(location));
    args.push(String::from_str("-p"));
    args.push(String::from_str(port));
    args.push(String::from_str("-a"));
    args.push(String::from_str(action));
    assert(args.deep_view() =~= power_args(location@, port@, action@));
    args
}

/// lsusb reports the device when it could be run and printed something
/// other than whitespace.
pub open spec fn lsusb_shows(stdout: Option<Seq<char>>) -> bool {
    match stdout {
        Some(o) => trim(o).len() != 0,
        None => false,
    }
}

/// Whether `lsusb -d VID:PID`'s output (`None` when it could not be run)
/// reports the device.
pub fn lsusb_reports_device(stdout: Option<&str>) -> (r: bool)
    ensures
        r == lsusb_shows(
            match stdout {
                Some(o) => Some(o@),
                None => None,
            },
        ),
{
    match stdout {
        Some(o) => trim_chars(&to_chars(o)).len() != 0,
        None => false,
    }
}

} // verus!
