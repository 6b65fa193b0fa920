//! The library's errors and the text each one reads as.
use vstd::prelude::*;
use crate::listing::{FoundPort, PortView};
use crate::jlink::{JlinkEmu, EmuView, emus_view};
use crate::text::{debug_str, debug_str_exec};

verus! {

/// Why an operation failed.
#[derive(Debug, Clone)]
pub enum HubError {
    /// The target was empty or only whitespace.
    EmptyTarget,
    /// The target (as given) is no nickname, short name or plausible serial.
    UnknownTarget(String),
    /// A power cycle's off time lies outside 1..=120 seconds.
    OffSecondsOutOfRange,
    /// No port of the listing matches (VID:PID, serial as given).
    NoPortMatch(String, Option<String>),
    /// Several ports match; all of them, in listing order.
    AmbiguousPort(Vec<FoundPort>),
    /// A SEGGER nickname longer than 32 bytes.
    NicknameTooLong,
    /// A SEGGER nickname made of digits only.
    NicknameNumeric(String),
    /// No listed probe carries the nickname; the probes seen.
    NicknameNotFound(String, Vec<JlinkEmu>),
    /// uhubctl exited unsuccessfully; its combined output.
    UhubctlFailed(String),
    /// An outside tool or file could not be used; what went wrong.
    Io(String),
    /// After a power cycle the device did not come back; the report so far.
    NotReEnumerated(String),
    /// The target is not in the listing and was never seen before; its key.
    NoLastKnown(String),
}

/// What a `HubError` holds, as character sequences.
pub enum ErrorView {
    EmptyTarget,
    UnknownTarget(Seq<char>),
    OffSecondsOutOfRange,
    NoPortMatch(Seq<char>, Option<Seq<char>>),
    AmbiguousPort(Seq<PortView>),
    NicknameTooLong,
    NicknameNumeric(Seq<char>),
    NicknameNotFound(Seq<char>, Seq<EmuView>),
    UhubctlFailed(Seq<char>),
    Io(Seq<char>),
    NotReEnumerated(Seq<char>),
    NoLastKnown(Seq<char>),
}

impl View for HubError {
    type V = ErrorView;

    open spec fn view(&self) -> ErrorView {
        match self {
            HubError::EmptyTarget => ErrorView::EmptyTarget,
            HubError::UnknownTarget(t) => ErrorView::UnknownTarget(t@),
            HubError::OffSecondsOutOfRange => ErrorView::OffSecondsOutOfRange,
            HubError::NoPortMatch(v, s) => ErrorView::NoPortMatch(v@, s.deep_view()),
            HubError::AmbiguousPort(h) => ErrorView::AmbiguousPort(h@.map_values(|p: FoundPort| p@)),
            HubError::NicknameTooLong => ErrorView::NicknameTooLong,
            HubError::NicknameNumeric(n) => ErrorView::NicknameNumeric(n@),
            HubError::NicknameNotFound(n, e) => ErrorView::NicknameNotFound(n@, emus_view(e@)),
            HubError::UhubctlFailed(o) => ErrorView::UhubctlFailed(o@),
            HubError::Io(m) => ErrorView::Io(m@),
            HubError::NotReEnumerated(r) => ErrorView::NotReEnumerated(r@),
            HubError::NoLastKnown(k) => ErrorView::NoLastKnown(k@),
        }
    }
}

/// A result with both sides taken by their views.
pub open spec fn result_view<T: View>(r: Result<T, HubError>) -> Result<T::V, ErrorView> {
    match r {
        Ok(t) => Ok(t@),
        Err(e) => Err(e@),
    }
}


/// `Option<&str>` as `Debug` prints it.
pub open spec fn debug_opt(s: Option<Seq<char>>) -> Seq<char> {
    match s {
        Some(x) => "Some("@ + debug_str(x) + ")"@,
        None => "None"@,
    }
}

/// One ambiguous port as the error lists it: `location:port [port line]`.
pub open spec fn hit_text(h: PortView) -> Seq<char> {
    h.location + ":"@ + h.port + " ["@ + h.port_line + "]"@
}

/// The ambiguous ports, separated by `; `.
pub open spec fn hits_text(hs: Seq<PortView>) -> Seq<char>
    decreases hs.len(),
{
    if hs.len() == 0 {
        Seq::empty()
    } else if hs.len() == 1 {
        hit_text(hs[0])
    } else {
        hits_text(hs.drop_last()) + "; "@ + hit_text(hs.last())
    }
}

/// One probe as the error lists it: `nickname (serial)`.
pub open spec fn emu_text(e: EmuView) -> Seq<char> {
    let n = match e.nickname {
        Some(n) => n,
        None => "<not set>"@,
    };
    n + " ("@ + e.serial + ")"@
}

/// The probes seen, separated by `, `.
pub open spec fn emus_text(es: Seq<EmuView>) -> Seq<char>
    decreases es.len(),
{
    if es.len() == 0 {
        Seq::empty()
    } else if es.len() == 1 {
        emu_text(es[0])
    } else {
        emus_text(es.drop_last()) + ", "@ + emu_text(es.last())
    }
}

/// The text an error reads as.
pub open spec fn error_text(e: ErrorView) -> Seq<char> {
    match e {
        ErrorView::EmptyTarget => "empty target"@,
        ErrorView::UnknownTarget(t) => "unknown target "@ + debug_str(t)
            + " — use a boards.json nickname, ppk2/jlink/sniffer, or a USB serial substring (see usb_targets)"@,
        ErrorView::OffSecondsOutOfRange => "off_seconds must be in 1..=120"@,
        ErrorView::NoPortMatch(v, s) => "no port matches vidpid="@ + debug_str(v) + " serial="@
            + debug_opt(s),
        ErrorView::AmbiguousPort(hs) => "ambiguous match ("@ + hits_text(hs)
            + ") — use a nickname or fuller serial"@,
        ErrorView::NicknameTooLong => "nickname exceeds SEGGER 32-char limit"@,
        ErrorView::NicknameNumeric(n) => "nickname "@ + debug_str(n)
            + " is numeric-only — SEGGER tools read that as a serial number; add a letter"@,
        ErrorView::NicknameNotFound(n, es) => "no J-Link carries nickname "@ + debug_str(n)
            + "; seen: "@ + emus_text(es),
        ErrorView::UhubctlFailed(o) => "uhubctl failed:\n"@ + o,
        ErrorView::Io(m) => m,
        ErrorView::NotReEnumerated(r) => r + "device did not re-enumerate — check cables/hub power"@,
        ErrorView::NoLastKnown(k) => "device "@ + k
            + " not in listing and no last-known location — power it on once via uhubctl CLI (-l/-p), then use these tools"@,
    }
}

fn hits_text_exec(hs: &[FoundPort]) -> (r: String)
    ensures
        r@ == hits_text(hs@.map_values(|p: FoundPort| p@)),
{
    let ghost v = hs@.map_values(|p: FoundPort| p@);
    let mut r = String::new();
    let mut i: usize = 0;
    assert(v.take(0) =~= Seq::<PortView>::empty());
    while i < hs.len()
        invariant
            i <= hs@.len(),
            v == hs@.map_values(|p: FoundPort| p@),
            r@ == hits_text(v.take(i as int)),
        decreases hs@.len() - i,
    {
        let h = &hs[i];
        if i > 0 {
            r.append("; ");
        }
        r.append(h.location.as_str());
        r.append(":");
        r.append(h.port.as_str());
        r.append(" [");
        r.append(h.port_line.as_str());
        r.append("]");
        assert(v.take(i + 1).drop_last() =~= v.take(i as int));
        assert(v.take(i + 1).last() == h@);
        if i == 0 {
            assert(v.take(1) =~= seq![h@]);
        }
        i += 1;
    }
    assert(v.take(hs@.len() as int) =~= v);
    r
}

fn emus_text_exec(es: &[JlinkEmu]) -> (r: String)
    ensures
        r@ == emus_text(emus_view(es@)),
{
    let ghost v = emus_view(es@);
    let mut r = String::new();
    let mut i: usize = 0;
    assert(v.take(0) =~= Seq::<EmuView>::empty());
    while i < es.len()
        invariant
            i <= es@.len(),
            v == emus_view(es@),
            r@ == emus_text(v.take(i as int)),
        decreases es@.len() - i,
    {
        let e = &es[i];
        if i > 0 {
            r.append(", ");
        }
        match &e.nickname {
            Some(n) => r.append(n.as_str()),
            None => r.append("<not set>"),
        }
        r.append(" (");
        r.append(e.serial.as_str());
        r.append(")");
        assert(v.take(i + 1).drop_last() =~= v.take(i as int));
        assert(v.take(i + 1).last() == e@);
        if i == 0 {
            assert(v.take(1) =~= seq![e@]);
        }
        i += 1;
    }
    assert(v.take(es@.len() as int) =~= v);
    r
}

fn clone_ports(ps: &[FoundPort]) -> (r: Vec<FoundPort>)
    ensures
        r@.map_values(|p: FoundPort| p@) == ps@.map_values(|p: FoundPort| p@),
{
    let mut r: Vec<FoundPort> = Vec::new();
    let mut i: usize = 0;
    while i < ps.len()
        invariant
            i <= ps@.len(),
            r@.map_values(|p: FoundPort| p@) == ps@.take(i as int).map_values(|p: FoundPort| p@),
        decreases ps@.len() - i,
    {
        let p = FoundPort {
            location: ps[i].location.clone(),
            port: ps[i].port.clone(),
            hub_desc: ps[i].hub_desc.clone(),
            port_line: ps[i].port_line.clone(),
        };
        let ghost old_r = r@;
        assert(ps@.take(i + 1) =~= ps@.take(i as int).push(ps@[i as int]));
        assert(ps@.take(i + 1).map_values(|p: FoundPort| p@) =~= ps@.take(i as int).map_values(
            |p: FoundPort| p@,
        ).push(ps@[i as int]@));
        r.push(p);
        assert(r@.map_values(|p: FoundPort| p@) =~= old_r.map_values(|p: FoundPort| p@).push(p@));
        i += 1;
    }
    assert(ps@.take(ps@.len() as int) =~= ps@);
    r
}

impl HubError {
    /// A copy of this error.
    pub fn clone_error(&self) -> (r: HubError)
        ensures
            r@ == self@,
    {
        match self {
            HubError::EmptyTarget => HubError::EmptyTarget,
            HubError::UnknownTarget(t) => HubError::UnknownTarget(t.clone()),
            HubError::OffSecondsOutOfRange => HubError::OffSecondsOutOfRange,
            HubError::NoPortMatch(v, s) => HubError::NoPortMatch(
                v.clone(),
                match s {
                    Some(x) => Some(x.clone()),
                    None => None,
                },
            ),
            HubError::AmbiguousPort(hs) => HubError::AmbiguousPort(clone_ports(hs.as_slice())),
            HubError::NicknameTooLong => HubError::NicknameTooLong,
            HubError::NicknameNumeric(n) => HubError::NicknameNumeric(n.clone()),
            HubError::NicknameNotFound(n, es) => HubError::NicknameNotFound(
                n.clone(),
                crate::jlink::clone_emus(es.as_slice()),
            ),
            HubError::UhubctlFailed(o) => HubError::UhubctlFailed(o.clone()),
            HubError::Io(m) => HubError::Io(m.clone()),
            HubError::NotReEnumerated(r) => HubError::NotReEnumerated(r.clone()),
            HubError::NoLastKnown(k) => HubError::NoLastKnown(k.clone()),
        }
    }

    /// The text this error reads as.
    pub fn message(&self) -> (r: String)
        ensures
            r@ == error_text(self@),
    {
        let mut r = String::new();
        match self {
            HubError::EmptyTarget => r.append("empty target"),
            HubError::UnknownTarget(t) => {
                r.append("unknown target ");
                r.append(debug_str_exec(t.as_str()).as_str());
                r.append(
                    " — use a boards.json nickname, ppk2/jlink/sniffer, or a USB serial substring (see usb_targets)",
                );
            },
            HubError::OffSecondsOutOfRange => r.append("off_seconds must be in 1..=120"),
            HubError::NoPortMatch(v, s) => {
                r.append("no port matches vidpid=");
                r.append(debug_str_exec(v.as_str()).as_str());
                r.append(" serial=");
                match s {
                    Some(x) => {
                        r.append("Some(");
                        r.append(debug_str_exec(x.as_str()).as_str());
                        r.append(")");
                    },
                    None => r.append("None"),
                }
            },
            HubError::AmbiguousPort(hs) => {
                r.append("ambiguous match (");
                r.append(hits_text_exec(hs.as_slice()).as_str());
                r.append(") — use a nickname or fuller serial");
            },
            HubError::NicknameTooLong => r.append("nickname exceeds SEGGER 32-char limit"),
            HubError::NicknameNumeric(n) => {
                r.append("nickname ");
                r.append(debug_str_exec(n.as_str()).as_str());
                r.append(
                    " is numeric-only — SEGGER tools read that as a serial number; add a letter",
                );
            },
            HubError::NicknameNotFound(n, es) => {
                r.append("no J-Link carries nickname ");
                r.append(debug_str_exec(n.as_str()).as_str());
                r.append("; seen: ");
                r.append(emus_text_exec(es.as_slice()).as_str());
            },
            HubError::UhubctlFailed(o) => {
                r.append("uhubctl failed:\n");
                r.append(o.as_str());
            },
            HubError::Io(m) => r.append(m.as_str()),
            HubError::NotReEnumerated(rep) => {
                r.append(rep.as_str());
                r.append("device did not re-enumerate — check cables/hub power");
            },
            HubError::NoLastKnown(k) => {
                r.append("device ");
                r.append(k.as_str());
                r.append(
                    " not in listing and no last-known location — power it on once via uhubctl CLI (-l/-p), then use these tools",
                );
            },
        }
        r
    }
}

} // verus!
