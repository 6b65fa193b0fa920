//! The uhubctl hub listing: locating the one port whose attached device
//! matches a VID:PID and/or a serial.
use vstd::prelude::*;
use crate::text::{
    ascii_lower, before_first, before_first_exec, contains, contains_exec, lines, lines_exec,
    lower_chars, second_piece, second_piece_exec, split_once, split_once_exec, strip_prefix,
    strip_prefix_exec, to_chars, to_string, trim, trim_chars, opt_chars, first_word,
    first_word_exec, lower_char,
};
use crate::error::{ErrorView, HubError, result_view};
use crate::boards::{ResolvedTarget, TargetView};

verus! {

/// A located board port discovered from a listing.
#[derive(Debug, Clone)]
pub struct FoundPort {
    pub location: String,
    pub port: String,
    pub hub_desc: String,
    pub port_line: String,
}

/// What a `FoundPort` holds, as character sequences.
pub struct PortView {
    pub location: Seq<char>,
    pub port: Seq<char>,
    pub hub_desc: Seq<char>,
    pub port_line: Seq<char>,
}

impl View for FoundPort {
    type V = PortView;

    open spec fn view(&self) -> PortView {
        PortView {
            location: self.location@,
            port: self.port@,
            hub_desc: self.hub_desc@,
            port_line: self.port_line@,
        }
    }
}

/// The hub currently being read while walking a listing, and the ports
/// that matched so far.
pub struct ScanState {
    pub location: Seq<char>,
    pub desc: Seq<char>,
    pub hits: Seq<PortView>,
}

/// The rest of a hub header line (`Current status for hub ...` or
/// `New status for hub ...`).
pub open spec fn hub_header(t: Seq<char>) -> Option<Seq<char>> {
    match strip_prefix(t, "Current status for hub "@) {
        Some(rest) => Some(rest),
        None => strip_prefix(t, "New status for hub "@),
    }
}

/// The attached-device bracket of the rest of a `Port N: ...` line: the
/// text between its first and second `[` (empty when there is none).
pub open spec fn bracket_of(rest: Seq<char>) -> Seq<char> {
    match second_piece(rest, seq!['[']) {
        Some(b) => b,
        None => Seq::<char>::empty(),
    }
}

/// Whether a lower-cased device bracket matches the lower-cased selectors;
/// at least one selector must be given.
pub open spec fn bracket_matches(b: Seq<char>, vp: Seq<char>, sn: Option<Seq<char>>) -> bool {
    &&& (vp.len() == 0 || contains(b, vp))
    &&& match sn {
        Some(s) => contains(b, s),
        None => true,
    }
    &&& (vp.len() != 0 || sn is Some)
}

/// The effect of one listing line on the scan.
pub open spec fn scan_line(st: ScanState, line: Seq<char>, vp: Seq<char>, sn: Option<Seq<char>>) -> ScanState {
    let t = trim(line);
    match hub_header(t) {
        Some(rest) => match split_once(rest, seq![' ']) {
            Some((loc, desc)) => ScanState { location: loc, desc: desc, hits: st.hits },
            None => ScanState { location: rest, desc: Seq::<char>::empty(), hits: st.hits },
        },
        None => match strip_prefix(t, "Port "@) {
            Some(rest) => if bracket_matches(ascii_lower(bracket_of(rest)), vp, sn) {
                ScanState {
                    location: st.location,
                    desc: st.desc,
                    hits: st.hits.push(
                        PortView {
                            location: st.location,
                            port: trim(before_first(rest, seq![':'])),
                            hub_desc: st.desc,
                            port_line: t,
                        },
                    ),
                }
            } else {
                st
            },
            None => st,
        },
    }
}

/// The scan after the given lines.
pub open spec fn scan(ls: Seq<Seq<char>>, vp: Seq<char>, sn: Option<Seq<char>>) -> ScanState
    decreases ls.len(),
{
    if ls.len() == 0 {
        ScanState {
            location: Seq::<char>::empty(),
            desc: Seq::<char>::empty(),
            hits: Seq::<PortView>::empty(),
        }
    } else {
        scan_line(scan(ls.drop_last(), vp, sn), ls.last(), vp, sn)
    }
}

pub open spec fn lower_opt(s: Option<Seq<char>>) -> Option<Seq<char>> {
    match s {
        Some(x) => Some(ascii_lower(x)),
        None => None,
    }
}

/// Every port of the listing whose attached-device bracket contains the
/// VID:PID (when non-empty) and the serial (when given), case-insensitively,
/// in listing order.
pub open spec fn port_hits(listing: Seq<char>, vidpid: Seq<char>, serial: Option<Seq<char>>) -> Seq<PortView> {
    scan(lines(listing), ascii_lower(vidpid), lower_opt(serial)).hits
}

/// What `find_device` answers: the single hit, no hit, or ambiguity.
pub open spec fn device_lookup(listing: Seq<char>, vidpid: Seq<char>, serial: Option<Seq<char>>) -> Result<PortView, ErrorView> {
    let hits = port_hits(listing, vidpid, serial);
    if hits.len() == 0 {
        Err(ErrorView::NoPortMatch(vidpid, serial))
    } else if hits.len() == 1 {
        Ok(hits[0])
    } else {
        Err(ErrorView::AmbiguousPort(hits))
    }
}

pub open spec fn opt_str_view(s: Option<&str>) -> Option<Seq<char>> {
    match s {
        Some(x) => Some(x@),
        None => None,
    }
}

fn to_string_opt(s: Option<&str>) -> (r: Option<String>)
    ensures
        r.deep_view() == opt_str_view(s),
{
    match s {
        Some(x) => Some(x.to_owned()),
        None => None,
    }
}

fn lower_opt_exec(s: Option<&str>) -> (r: Option<Vec<char>>)
    ensures
        opt_chars(r) == lower_opt(opt_str_view(s)),
{
    match s {
        Some(x) => Some(lower_chars(&to_chars(x))),
        None => None,
    }
}

/// One step of the scan, on executable state.
fn scan_line_exec(
    location: &mut Vec<char>,
    desc: &mut Vec<char>,
    hits: &mut Vec<FoundPort>,
    line: &[char],
    vp: &[char],
    sn: &Option<Vec<char>>,
)
    ensures
        ({
            let st = scan_line(
                ScanState { location: old(location)@, desc: old(desc)@, hits: old(hits)@.map_values(|p: FoundPort| p@) },
                line@,
                vp@,
                opt_chars(*sn),
            );
            &&& final(location)@ == st.location
            &&& final(desc)@ == st.desc
            &&& final(hits)@.map_values(|p: FoundPort| p@) == st.hits
        }),
{
    let t = trim_chars(line);
    let cur = to_chars("Current status for hub ");
    let new = to_chars("New status for hub ");
    let header = match strip_prefix_exec(&t, &cur) {
        Some(rest) => Some(rest),
        None => strip_prefix_exec(&t, &new),
    };
    let ghost old_hits = old(hits)@;
    match header {
        Some(rest) => {
            let space: Vec<char> = vec![' '];
            assert(space@ =~= seq![' ']);
            match split_once_exec(&rest, &space) {
                Some((l, d)) => {
                    *location = l;
                    *desc = d;
                },
                None => {
                    *location = rest;
                    *desc = Vec::new();
                },
            }
        },
        None => {
            let port_prefix = to_chars("Port ");
            match strip_prefix_exec(&t, &port_prefix) {
                Some(rest) => {
                    let open: Vec<char> = vec!['['];
                    assert(open@ =~= seq!['[']);
                    let bracket = match second_piece_exec(&rest, &open) {
                        Some(b) => b,
                        None => Vec::new(),
                    };
                    let b = lower_chars(&bracket);
                    let vp_ok = vp.len() == 0 || contains_exec(&b, vp);
                    let sn_ok = match sn {
                        Some(s) => contains_exec(&b, s),
                        None => true,
                    };
                    if vp_ok && sn_ok && (vp.len() != 0 || sn.is_some()) {
                        let colon: Vec<char> = vec![':'];
                        assert(colon@ =~= seq![':']);
                        let port = trim_chars(&before_first_exec(&rest, &colon));
                        let hit = FoundPort {
                            location: to_string(location),
                            port: to_string(&port),
                            hub_desc: to_string(desc),
                            port_line: to_string(&t),
                        };
                        hits.push(hit);
                        assert(hits@.map_values(|p: FoundPort| p@) =~= old_hits.map_values(
                            |p: FoundPort| p@,
                        ).push(hit@));
                    }
                },
                None => {},
            }
        },
    }
}

/// Find the hub+port whose attached-device description contains `vidpid`
/// (when non-empty) and `serial` (when given), ignoring ASCII case. No
/// match is an error; several matches are an error that lists them, never
/// a guess.
pub fn find_device(list_output: &str, vidpid: &str, serial: Option<&str>) -> (res: Result<FoundPort, HubError>)
    ensures
        result_view(res) == device_lookup(list_output@, vidpid@, opt_str_view(serial)),
{
    let vp = lower_chars(&to_chars(vidpid));
    let sn = lower_opt_exec(serial);
    let ls = lines_exec(&to_chars(list_output));
    let ghost lsv = lines(list_output@);
    let mut location: Vec<char> = Vec::new();
    let mut desc: Vec<char> = Vec::new();
    let mut hits: Vec<FoundPort> = Vec::new();
    let mut i: usize = 0;
    assert(lsv.take(0) =~= Seq::<Seq<char>>::empty());
    while i < ls.len()
        invariant
            i <= ls@.len() == lsv.len(),
            forall|k: int| 0 <= k < ls@.len() ==> #[trigger] ls@[k]@ == lsv[k],
            vp@ == ascii_lower(vidpid@),
            opt_chars(sn) == lower_opt(opt_str_view(serial)),
            ({
                let st = scan(lsv.take(i as int), vp@, opt_chars(sn));
                &&& location@ == st.location
                &&& desc@ == st.desc
                &&& hits@.map_values(|p: FoundPort| p@) == st.hits
            }),
        decreases ls@.len() - i,
    {
        assert(lsv.take(i + 1).drop_last() =~= lsv.take(i as int));
        scan_line_exec(&mut location, &mut desc, &mut hits, &ls[i], &vp, &sn);
        i += 1;
    }
    assert(lsv.take(ls@.len() as int) =~= lsv);
    if hits.len() == 0 {
        Err(HubError::NoPortMatch(vidpid.to_owned(), to_string_opt(serial)))
    } else if hits.len() == 1 {
        let h = hits.pop().unwrap();
        assert(hits@.len() == 0);
        Ok(h)
    } else {
        Err(HubError::AmbiguousPort(hits))
    }
}


/// The VID:PID of the device attached to a port: the first word of the
/// bracket in a `Port N: ... [vidpid vendor product serial]` line.
pub open spec fn attached(port_line: Seq<char>) -> Option<Seq<char>> {
    match second_piece(port_line, seq!['[']) {
        Some(b) => first_word(b),
        None => None,
    }
}

/// VID:PID of the device attached to a port, taken from the bracket in a
/// `Port N: ... [vidpid vendor product serial]` listing line.
pub fn attached_vidpid(port_line: &str) -> (r: Option<String>)
    ensures
        r.deep_view() == attached(port_line@),
{
    let open: Vec<char> = vec!['['];
    assert(open@ =~= seq!['[']);
    let bracket = second_piece_exec(&to_chars(port_line), &open)?;
    let w = first_word_exec(&bracket)?;
    Some(to_string(&w))
}

/// The presence-check id of a located target: its VID:PID when known, else
/// the VID:PID read off the port line (empty when there is none).
pub open spec fn presence_id(rt: TargetView, found: PortView) -> Seq<char> {
    if rt.vidpid.len() == 0 {
        match attached(found.port_line) {
            Some(v) => v,
            None => Seq::empty(),
        }
    } else {
        rt.vidpid
    }
}

/// Presence-check id for a resolved target: the VID:PID when known, else
/// the VID:PID read off the discovered port line (a raw serial is not a
/// valid `lsusb -d` argument).
pub fn verify_id(rt: &ResolvedTarget, found: &FoundPort) -> (r: String)
    ensures
        r@ == presence_id(rt@, found@),
{
    if rt.vidpid.as_str().is_empty() {
        match attached_vidpid(found.port_line.as_str()) {
            Some(v) => v,
            None => String::new(),
        }
    } else {
        rt.vidpid.clone()
    }
}

/// Where a target's board is in a listing.
pub fn locate(rt: &ResolvedTarget, listing: &str) -> (res: Result<FoundPort, HubError>)
    ensures
        result_view(res) == device_lookup(listing@, rt@.vidpid, rt@.serial),
{
    let serial: Option<&str> = match &rt.serial {
        Some(s) => Some(s.as_str()),
        None => None,
    };
    find_device(listing, rt.vidpid.as_str(), serial)
}


/// A port hit is a `Port ...` line whose attached-device bracket (not the
/// hub's flags or description) holds the selectors.
pub open spec fn is_port_hit(h: PortView, vp: Seq<char>, sn: Option<Seq<char>>) -> bool {
    match strip_prefix(h.port_line, "Port "@) {
        Some(rest) => bracket_matches(ascii_lower(bracket_of(rest)), vp, sn) && h.port == trim(
            before_first(rest, seq![':']),
        ),
        None => false,
    }
}

proof fn lemma_scan_hits(ls: Seq<Seq<char>>, vp: Seq<char>, sn: Option<Seq<char>>)
    ensures
        forall|k: int|
            0 <= k < scan(ls, vp, sn).hits.len() ==> is_port_hit(#[trigger] scan(ls, vp, sn).hits[k], vp, sn),
    decreases ls.len(),
{
    if ls.len() > 0 {
        lemma_scan_hits(ls.drop_last(), vp, sn);
        let prev = scan(ls.drop_last(), vp, sn);
        let cur = scan(ls, vp, sn);
        let t = trim(ls.last());
        assert(cur == scan_line(prev, ls.last(), vp, sn));
        assert forall|k: int| 0 <= k < cur.hits.len() implies is_port_hit(#[trigger] cur.hits[k], vp, sn) by {
            if k < prev.hits.len() {
                assert(cur.hits[k] == prev.hits[k]);
            } else {
                assert(hub_header(t) is None);
                let rest = strip_prefix(t, "Port "@)->0;
                assert(cur.hits[k].port_line == t);
            }
        }
    }
}

/// Only the attached-device bracket of a `Port N: ...` line is matched:
/// every port that a lookup reports holds the VID:PID (when given) and the
/// serial (when given) in that bracket, ignoring ASCII case.
pub proof fn law_hits_match_device_bracket(listing: Seq<char>, vidpid: Seq<char>, serial: Option<Seq<char>>, k: int)
    requires
        0 <= k < port_hits(listing, vidpid, serial).len(),
    ensures
        is_port_hit(port_hits(listing, vidpid, serial)[k], ascii_lower(vidpid), lower_opt(serial)),
{
    lemma_scan_hits(lines(listing), ascii_lower(vidpid), lower_opt(serial));
}

/// A lookup succeeds exactly when one port matches, and then it is that
/// port; several matches are an error listing all of them, never a guess.
pub proof fn law_lookup_never_guesses(listing: Seq<char>, vidpid: Seq<char>, serial: Option<Seq<char>>)
    ensures
        device_lookup(listing, vidpid, serial) is Ok <==> port_hits(listing, vidpid, serial).len() == 1,
        device_lookup(listing, vidpid, serial) matches Ok(f) ==> f == port_hits(listing, vidpid, serial)[0],
        port_hits(listing, vidpid, serial).len() > 1 ==> device_lookup(listing, vidpid, serial) == Err::<PortView, ErrorView>(
            ErrorView::AmbiguousPort(port_hits(listing, vidpid, serial)),
        ),
{
}

/// A (trimmed) listing line that is a `Port N: ...` line whose
/// attached-device bracket holds the lower-cased selectors.
pub open spec fn device_port_line(t: Seq<char>, vp: Seq<char>, sn: Option<Seq<char>>) -> bool {
    strip_prefix(t, "Port "@) matches Some(rest) && bracket_matches(ascii_lower(bracket_of(rest)), vp, sn)
}

/// The port lines of the hits, in order.
pub open spec fn hit_lines(hits: Seq<PortView>) -> Seq<Seq<char>> {
    hits.map_values(|h: PortView| h.port_line)
}

/// The trimmed lines of a listing that are matching port lines, in order.
pub open spec fn matching_port_lines(listing: Seq<char>, vp: Seq<char>, sn: Option<Seq<char>>) -> Seq<Seq<char>> {
    lines(listing).map_values(|l: Seq<char>| trim(l)).filter(|t: Seq<char>| device_port_line(t, vp, sn))
}

proof fn lemma_header_not_port(t: Seq<char>)
    requires
        hub_header(t) is Some,
    ensures
        strip_prefix(t, "Port "@) is None,
{
    reveal_strlit("Port ");
    reveal_strlit("Current status for hub ");
    reveal_strlit("New status for hub ");
    if strip_prefix(t, "Port "@) is Some {
        assert(t.subrange(0, 5)[0] == t[0]);
        if strip_prefix(t, "Current status for hub "@) is Some {
            assert(t.subrange(0, 23)[0] == t[0]);
        } else {
            assert(t.subrange(0, 19)[0] == t[0]);
        }
    }
}

proof fn lemma_scan_is_filter(ls: Seq<Seq<char>>, vp: Seq<char>, sn: Option<Seq<char>>)
    ensures
        hit_lines(scan(ls, vp, sn).hits) == ls.map_values(|l: Seq<char>| trim(l)).filter(
            |t: Seq<char>| device_port_line(t, vp, sn),
        ),
    decreases ls.len(),
{
    reveal(Seq::filter);
    let ts = ls.map_values(|l: Seq<char>| trim(l));
    let pred = |t: Seq<char>| device_port_line(t, vp, sn);
    if ls.len() == 0 {
        assert(hit_lines(scan(ls, vp, sn).hits) =~= Seq::<Seq<char>>::empty());
        assert(ts.filter(pred) =~= Seq::<Seq<char>>::empty());
    } else {
        lemma_scan_is_filter(ls.drop_last(), vp, sn);
        assert(ts.drop_last() =~= ls.drop_last().map_values(|l: Seq<char>| trim(l)));
        let t = trim(ls.last());
        assert(ts.last() == t);
        let prev = scan(ls.drop_last(), vp, sn);
        let cur = scan(ls, vp, sn);
        assert(cur == scan_line(prev, ls.last(), vp, sn));
        if hub_header(t) is Some {
            lemma_header_not_port(t);
            assert(!pred(t));
            assert(hit_lines(cur.hits) =~= hit_lines(prev.hits));
        } else if pred(t) {
            assert(hit_lines(cur.hits) =~= hit_lines(prev.hits).push(t));
        } else {
            assert(hit_lines(cur.hits) =~= hit_lines(prev.hits));
        }
    }
}

/// Every matching port of the listing is a hit, not only some: the hits'
/// port lines are exactly the listing's `Port N: ...` lines whose
/// attached-device bracket holds the VID:PID (when given) and the serial
/// (when given), ignoring ASCII case, in listing order, two ports on one hub
/// included. So a lookup succeeds only when exactly one such line exists.
pub proof fn law_every_matching_port_is_a_hit(listing: Seq<char>, vidpid: Seq<char>, serial: Option<Seq<char>>)
    ensures
        hit_lines(port_hits(listing, vidpid, serial)) == matching_port_lines(
            listing,
            ascii_lower(vidpid),
            lower_opt(serial),
        ),
        device_lookup(listing, vidpid, serial) is Ok <==> matching_port_lines(
            listing,
            ascii_lower(vidpid),
            lower_opt(serial),
        ).len() == 1,
{
    lemma_scan_is_filter(lines(listing), ascii_lower(vidpid), lower_opt(serial));
}

pub proof fn lemma_lower_char_idem(c: char)
    ensures
        lower_char(lower_char(c)) == lower_char(c),
{
}

pub proof fn lemma_ascii_lower_idem(s: Seq<char>)
    ensures
        ascii_lower(ascii_lower(s)) == ascii_lower(s),
{
    assert forall|i: int| 0 <= i < s.len() implies #[trigger] ascii_lower(ascii_lower(s))[i] == ascii_lower(s)[i] by {
        lemma_lower_char_idem(s[i]);
    }
    assert(ascii_lower(ascii_lower(s)) =~= ascii_lower(s));
}

/// Selectors match regardless of their ASCII case.
pub proof fn law_lookup_ignores_selector_case(listing: Seq<char>, vidpid: Seq<char>, serial: Option<Seq<char>>)
    ensures
        port_hits(listing, ascii_lower(vidpid), lower_opt(serial)) == port_hits(listing, vidpid, serial),
{
    lemma_ascii_lower_idem(vidpid);
    if let Some(s) = serial {
        lemma_ascii_lower_idem(s);
    }
}

} // verus!
