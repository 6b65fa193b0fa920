//! SEGGER J-Link probes: the `JLinkExe ShowEmuList` report and the
//! mapping of an on-probe nickname to the probe's serial.
use vstd::prelude::*;
use crate::text::{
    find, is_first_at, contains, occurs_at, lemma_nl_pieces_concat, lemma_nl_pieces_len, lemma_trim_strip_cr,
    nl_pieces, trim_end, trim_start, all_ascii_digits, all_ascii_digits_exec, ascii_lower, before_first, before_first_exec,
    chars_eq, lines, lines_exec, lower_chars, second_piece, second_piece_exec,
    split_once, split_once_exec, to_chars, to_string, trim, trim_chars,
};
use crate::boards::{clone_opt, ResolvedTarget, TargetView};
use crate::error::{ErrorView, HubError, result_view};

verus! {

/// One J-Link seen by the SEGGER software.
#[derive(Debug, Clone, PartialEq)]
pub struct JlinkEmu {
    /// Serial as reported by JLinkExe (leading zeros stripped, e.g. "1160003881").
    pub serial: String,
    pub product: String,
    /// None when `<not set>`.
    pub nickname: Option<String>,
}

/// What a `JlinkEmu` holds, as character sequences.
pub struct EmuView {
    pub serial: Seq<char>,
    pub product: Seq<char>,
    pub nickname: Option<Seq<char>>,
}

impl View for JlinkEmu {
    type V = EmuView;

    open spec fn view(&self) -> EmuView {
        EmuView { serial: self.serial@, product: self.product@, nickname: self.nickname.deep_view() }
    }
}

impl JlinkEmu {
    /// A copy of this entry.
    pub fn duplicate(&self) -> (r: JlinkEmu)
        ensures
            r@ == self@,
    {
        JlinkEmu {
            serial: self.serial.clone(),
            product: self.product.clone(),
            nickname: clone_opt(&self.nickname),
        }
    }
}

pub open spec fn emus_view(emus: Seq<JlinkEmu>) -> Seq<EmuView> {
    emus.map_values(|e: JlinkEmu| e@)
}

/// `s` with nothing when absent.
pub open spec fn or_empty(s: Option<Seq<char>>) -> Seq<char> {
    match s {
        Some(x) => x,
        None => Seq::<char>::empty(),
    }
}

/// The probe an emulator-list line describes, if it names a serial:
/// `... Serial number: <serial>, ProductName: <product>, Nickname: <nick>`.
pub open spec fn emu_of_line(line: Seq<char>) -> Option<EmuView> {
    let t = trim(line);
    match split_once(t, "Serial number:"@) {
        None => None,
        Some((_, body)) => {
            let serial = trim(before_first(body, ","@));
            let product = trim(before_first(or_empty(second_piece(body, "ProductName:"@)), ","@));
            let nick = trim(or_empty(second_piece(body, "Nickname:"@)));
            if serial.len() == 0 {
                None
            } else {
                Some(
                    EmuView {
                        serial: serial,
                        product: product,
                        nickname: if nick.len() == 0 || nick == "<not set>"@ {
                            None
                        } else {
                            Some(nick)
                        },
                    },
                )
            }
        },
    }
}

/// The product of a parsed probe line is the text after `ProductName:`,
/// trimmed, up to the next comma, or to the end of that field when no
/// comma follows (`Serial number: S, ProductName: P` has product `P`).
pub proof fn law_product_runs_to_comma_or_end(line: Seq<char>, product: Seq<char>, tail: Seq<char>)
    requires
        emu_of_line(line) is Some,
        second_piece(split_once(trim(line), "Serial number:"@)->Some_0.1, "ProductName:"@) == Some(
            product + tail,
        ),
        !contains(product, ","@),
        tail.len() == 0 || tail[0] == ',',
    ensures
        emu_of_line(line)->Some_0.product == trim(product),
{
    reveal_strlit(",");
    let pn = product + tail;
    let c = ","@;
    assert(c.len() == 1 && c[0] == ',');
    if tail.len() == 0 {
        assert(pn =~= product);
        if let Some(i) = find(pn, c) {
            assert(is_first_at(pn, c, i));
            assert(occurs_at(product, c, i));
        }
        assert(before_first(pn, c) == product);
    } else {
        let n = product.len() as int;
        assert(pn.subrange(n, n + 1) =~= c);
        assert forall|j: int| 0 <= j < n implies !occurs_at(pn, c, j) by {
            if occurs_at(pn, c, j) {
                assert(product.subrange(j, j + 1) =~= pn.subrange(j, j + 1));
                assert(occurs_at(product, c, j));
            }
        }
        assert(is_first_at(pn, c, n));
        let i = find(pn, c)->Some_0;
        assert(is_first_at(pn, c, i));
        if i < n {
            assert(!occurs_at(pn, c, i));
        }
        if i > n {
            assert(!occurs_at(pn, c, n));
        }
        assert(pn.take(n) =~= product);
        assert(before_first(pn, c) == product);
    }
}

/// The probes described by the given lines, in order.
pub open spec fn emus_of_lines(ls: Seq<Seq<char>>) -> Seq<EmuView>
    decreases ls.len(),
{
    if ls.len() == 0 {
        Seq::empty()
    } else {
        let prev = emus_of_lines(ls.drop_last());
        match emu_of_line(ls.last()) {
            Some(e) => prev.push(e),
            None => prev,
        }
    }
}

proof fn lemma_emus_append(p: Seq<Seq<char>>, q: Seq<Seq<char>>)
    ensures
        emus_of_lines(p + q) == emus_of_lines(p) + emus_of_lines(q),
    decreases q.len(),
{
    if q.len() == 0 {
        assert(p + q =~= p);
        assert(emus_of_lines(p) + emus_of_lines(q) =~= emus_of_lines(p));
    } else {
        assert((p + q).drop_last() =~= p + q.drop_last());
        assert((p + q).last() == q.last());
        lemma_emus_append(p, q.drop_last());
        let ep = emus_of_lines(p);
        let eq = emus_of_lines(q.drop_last());
        if let Some(e) = emu_of_line(q.last()) {
            assert((ep + eq).push(e) =~= ep + eq.push(e));
        }
    }
}

proof fn lemma_emus_pointwise(l1: Seq<Seq<char>>, l2: Seq<Seq<char>>)
    requires
        l1.len() == l2.len(),
        forall|k: int| 0 <= k < l1.len() ==> emu_of_line(#[trigger] l1[k]) == emu_of_line(l2[k]),
    ensures
        emus_of_lines(l1) == emus_of_lines(l2),
    decreases l1.len(),
{
    if l1.len() > 0 {
        assert forall|k: int| 0 <= k < l1.drop_last().len() implies emu_of_line(
            #[trigger] l1.drop_last()[k],
        ) == emu_of_line(l2.drop_last()[k]) by {
            assert(l1.drop_last()[k] == l1[k]);
            assert(l2.drop_last()[k] == l2[k]);
        }
        lemma_emus_pointwise(l1.drop_last(), l2.drop_last());
        assert(emu_of_line(l1.last()) == emu_of_line(l2.last()));
    }
}

proof fn lemma_emu_of_empty_line()
    ensures
        emu_of_line(Seq::<char>::empty()) is None,
{
    let t = trim(Seq::<char>::empty());
    assert(trim_start(Seq::<char>::empty()) == Seq::<char>::empty());
    assert(trim_end(Seq::<char>::empty()) == Seq::<char>::empty());
    reveal_strlit("Serial number:");
    if let Some(i) = find(t, "Serial number:"@) {
        assert(is_first_at(t, "Serial number:"@, i));
    }
}

/// The probes a text describes are those its newline-separated pieces
/// describe (a line's trailing `\r` and a final empty piece add nothing).
proof fn lemma_emus_of_text(s: Seq<char>)
    ensures
        emus_of_lines(lines(s)) == emus_of_lines(nl_pieces(s)),
{
    let ps = nl_pieces(s);
    lemma_nl_pieces_len(s);
    lemma_emu_of_empty_line();
    let ls = lines(s);
    let n = ls.len();
    let core = ps.take(n as int);
    assert forall|k: int| 0 <= k < ls.len() implies emu_of_line(#[trigger] ls[k]) == emu_of_line(core[k]) by {
        lemma_trim_strip_cr(ps[k]);
    }
    lemma_emus_pointwise(ls, core);
    if n < ps.len() {
        assert(core =~= ps.drop_last());
    } else {
        assert(core =~= ps);
    }
}

/// Parsing is line by line: the probes of two texts joined by a newline
/// are those of the first followed by those of the second.
pub proof fn law_emu_list_of_joined_texts(a: Seq<char>, b: Seq<char>)
    ensures
        emus_of_lines(lines(a + seq!['\n'] + b)) == emus_of_lines(lines(a)) + emus_of_lines(lines(b)),
{
    lemma_emus_of_text(a + seq!['\n'] + b);
    lemma_emus_of_text(a);
    lemma_emus_of_text(b);
    lemma_nl_pieces_concat(a, b);
    lemma_emus_append(nl_pieces(a), nl_pieces(b));
}

fn emu_of_line_exec(line: &[char]) -> (r: Option<JlinkEmu>)
    ensures
        match r {
            Some(e) => emu_of_line(line@) == Some(e@),
            None => emu_of_line(line@) is None,
        },
{
    let t = trim_chars(line);
    let key = to_chars("Serial number:");
    let comma = to_chars(",");
    let (_, body) = match split_once_exec(&t, &key) {
        None => return None,
        Some(p) => p,
    };
    let serial = trim_chars(&before_first_exec(&body, &comma));
    let pn = match second_piece_exec(&body, &to_chars("ProductName:")) {
        Some(x) => x,
        None => Vec::new(),
    };
    let product = trim_chars(&before_first_exec(&pn, &comma));
    let nk = match second_piece_exec(&body, &to_chars("Nickname:")) {
        Some(x) => x,
        None => Vec::new(),
    };
    let nick = trim_chars(&nk);
    if serial.len() == 0 {
        return None;
    }
    let nickname = if nick.len() == 0 || chars_eq(&nick, &to_chars("<not set>")) {
        None
    } else {
        Some(to_string(&nick))
    };
    Some(JlinkEmu { serial: to_string(&serial), product: to_string(&product), nickname: nickname })
}

/// Parse `JLinkExe ShowEmuList` output into emulator entries: one per line
/// that names a non-empty serial, in order.
pub fn parse_emu_list(output: &str) -> (emus: Vec<JlinkEmu>)
    ensures
        emus_view(emus@) == emus_of_lines(lines(output@)),
{
    let ls = lines_exec(&to_chars(output));
    let ghost lsv = lines(output@);
    let mut emus: Vec<JlinkEmu> = Vec::new();
    let mut i: usize = 0;
    assert(lsv.take(0) =~= Seq::<Seq<char>>::empty());
    while i < ls.len()
        invariant
            i <= ls@.len() == lsv.len(),
            forall|k: int| 0 <= k < ls@.len() ==> #[trigger] ls@[k]@ == lsv[k],
            emus_view(emus@) == emus_of_lines(lsv.take(i as int)),
        decreases ls@.len() - i,
    {
        assert(lsv.take(i + 1).drop_last() =~= lsv.take(i as int));
        let ghost before = emus@;
        match emu_of_line_exec(&ls[i]) {
            Some(e) => {
                emus.push(e);
                assert(emus_view(emus@) =~= emus_view(before).push(e@));
            },
            None => {},
        }
        i += 1;
    }
    assert(lsv.take(ls@.len() as int) =~= lsv);
    emus
}

/// Every probe read from an emulator list has a serial, and a nickname
/// only when one is set (never empty, never `<not set>`).
pub proof fn law_listed_probes_well_formed(ls: Seq<Seq<char>>, k: int)
    requires
        0 <= k < emus_of_lines(ls).len(),
    ensures
        emus_of_lines(ls)[k].serial.len() > 0,
        emus_of_lines(ls)[k].nickname matches Some(n) ==> n.len() > 0 && n != "<not set>"@,
    decreases ls.len(),
{
    if ls.len() > 0 {
        let prev = emus_of_lines(ls.drop_last());
        if k < prev.len() {
            law_listed_probes_well_formed(ls.drop_last(), k);
            assert(emus_of_lines(ls)[k] == prev[k]);
        }
    }
}

/// The first position in `s` satisfying `p`.
pub open spec fn first_where(s: Seq<EmuView>, p: spec_fn(EmuView) -> bool) -> Option<int> {
    if exists|i: int| 0 <= i < s.len() && p(s[i]) && forall|j: int| 0 <= j < i ==> !p(s[j]) {
        Some(choose|i: int| 0 <= i < s.len() && p(s[i]) && forall|j: int| 0 <= j < i ==> !p(s[j]))
    } else {
        None
    }
}

/// The probe carries exactly this nickname.
pub open spec fn nick_exact(n: Seq<char>) -> spec_fn(EmuView) -> bool {
    |e: EmuView| e.nickname == Some(n)
}

/// The probe carries this nickname up to ASCII case.
pub open spec fn nick_folded(n: Seq<char>) -> spec_fn(EmuView) -> bool {
    |e: EmuView| e.nickname is Some && ascii_lower(e.nickname->0) == ascii_lower(n)
}

/// The number of bytes of the UTF-8 encoding of one character.
pub open spec fn utf8_width(c: char) -> nat {
    if (c as u32) < 0x80 {
        1
    } else if (c as u32) < 0x800 {
        2
    } else if (c as u32) < 0x10000 {
        3
    } else {
        4
    }
}

/// `str::len`: the number of bytes of the UTF-8 encoding.
pub open spec fn utf8_len(s: Seq<char>) -> nat
    decreases s.len(),
{
    if s.len() == 0 {
        0
    } else {
        utf8_len(s.drop_last()) + utf8_width(s.last())
    }
}

proof fn lemma_utf8_len_mono(s: Seq<char>, i: int)
    requires
        0 <= i <= s.len(),
    ensures
        utf8_len(s.take(i)) <= utf8_len(s),
    decreases s.len() - i,
{
    if i < s.len() {
        lemma_utf8_len_mono(s, i + 1);
        assert(s.take(i + 1).drop_last() =~= s.take(i));
    } else {
        assert(s.take(i) =~= s);
    }
}

/// Whether the UTF-8 encoding of `v` is longer than `limit` bytes.
fn utf8_longer_than(v: &[char], limit: u64) -> (r: bool)
    requires
        limit <= 0xffff_ffff,
    ensures
        r == (utf8_len(v@) > limit),
{
    let mut total: u64 = 0;
    let mut i: usize = 0;
    while i < v.len()
        invariant
            i <= v@.len(),
            limit <= 0xffff_ffff,
            total == utf8_len(v@.take(i as int)),
            total <= limit,
        decreases v@.len() - i,
    {
        let c = v[i];
        let w: u64 = if (c as u32) < 0x80 {
            1
        } else if (c as u32) < 0x800 {
            2
        } else if (c as u32) < 0x10000 {
            3
        } else {
            4
        };
        assert(v@.take(i + 1).drop_last() =~= v@.take(i as int));
        total = total + w;
        i += 1;
        if total > limit {
            proof {
                lemma_utf8_len_mono(v@, i as int);
            }
            return true;
        }
    }
    assert(v@.take(v@.len() as int) =~= v@);
    false
}

/// Why a nickname cannot name a probe, if it cannot: more than 32 bytes,
/// or digits only (SEGGER tools read those as serial numbers).
pub open spec fn nickname_problem(n: Seq<char>) -> Option<ErrorView> {
    if utf8_len(n) > 32 {
        Some(ErrorView::NicknameTooLong)
    } else if all_ascii_digits(n) {
        Some(ErrorView::NicknameNumeric(n))
    } else {
        None
    }
}

/// The USB form of a probe serial: J-Link USB serials are twelve
/// characters, zero-padded (`001160003881`), while JLinkExe prints them
/// with the leading zeros stripped (`1160003881`).
pub open spec fn usb_serial_form(s: Seq<char>) -> Seq<char> {
    if s.len() < 12 {
        Seq::new((12 - s.len()) as nat, |i: int| '0') + s
    } else {
        s
    }
}

/// The USB form of a probe serial (see `usb_serial_form`).
pub fn usb_serial_form_exec(s: &str) -> (r: String)
    ensures
        r@ == usb_serial_form(s@),
{
    let v = to_chars(s);
    let mut r: Vec<char> = Vec::new();
    if v.len() < 12 {
        let pad = 12 - v.len();
        while r.len() < pad
            invariant
                r@.len() <= pad,
                pad == 12 - v@.len(),
                forall|i: int| 0 <= i < r@.len() ==> r@[i] == '0',
            decreases pad - r@.len(),
        {
            r.push('0');
        }
    }
    let ghost head = r@;
    let mut i: usize = 0;
    while i < v.len()
        invariant
            i <= v@.len(),
            r@ == head + v@.take(i as int),
        decreases v@.len() - i,
    {
        r.push(v[i]);
        i += 1;
        assert(r@ =~= head + v@.take(i as int));
    }
    assert(v@.take(v@.len() as int) =~= v@);
    if v.len() < 12 {
        assert(head =~= Seq::new((12 - v@.len()) as nat, |i: int| '0'));
    } else {
        assert(head =~= Seq::<char>::empty());
    }
    assert(r@ =~= usb_serial_form(s@));
    to_string(&r)
}

/// Which USB serial a nickname maps to, given the probes seen: that of the
/// first probe with exactly that nickname, else of the first with it up to
/// ASCII case, in its zero-padded USB form.
pub open spec fn serial_for_nickname(n: Seq<char>, emus: Seq<EmuView>) -> Result<Seq<char>, ErrorView> {
    match nickname_problem(n) {
        Some(e) => Err(e),
        None => match first_where(emus, nick_exact(n)) {
            Some(i) => Ok(usb_serial_form(emus[i].serial)),
            None => match first_where(emus, nick_folded(n)) {
                Some(i) => Ok(usb_serial_form(emus[i].serial)),
                None => Err(ErrorView::NicknameNotFound(n, emus)),
            },
        },
    }
}

/// Checks that a nickname can name a probe before the probes are listed.
pub fn check_jlink_nickname(nickname: &str) -> (r: Result<(), HubError>)
    ensures
        match r {
            Ok(()) => nickname_problem(nickname@) is None,
            Err(e) => nickname_problem(nickname@) == Some(e@),
        },
{
    let n = to_chars(nickname);
    if utf8_longer_than(&n, 32) {
        return Err(HubError::NicknameTooLong);
    }
    if all_ascii_digits_exec(&n) {
        return Err(HubError::NicknameNumeric(nickname.to_owned()));
    }
    Ok(())
}

fn first_exact(emus: &[JlinkEmu], n: &[char]) -> (r: Option<usize>)
    ensures
        match r {
            Some(i) => first_where(emus_view(emus@), nick_exact(n@)) == Some(i as int),
            None => first_where(emus_view(emus@), nick_exact(n@)) is None,
        },
{
    let ghost s = emus_view(emus@);
    let ghost p = nick_exact(n@);
    let mut i: usize = 0;
    while i < emus.len()
        invariant
            i <= emus@.len(),
            s == emus_view(emus@),
            p == nick_exact(n@),
            forall|j: int| 0 <= j < i ==> !p(s[j]),
        decreases emus@.len() - i,
    {
        let hit = match &emus[i].nickname {
            Some(x) => chars_eq(&to_chars(x.as_str()), n),
            None => false,
        };
        if hit {
            proof {
                let k = choose|k: int| 0 <= k < s.len() && p(s[k]) && forall|j: int| 0 <= j < k ==> !p(s[j]);
                assert(p(s[i as int]));
                if k < i {
                    assert(!p(s[k]));
                } else if k > i {
                    assert(!p(s[i as int]));
                }
            }
            return Some(i);
        }
        assert(!p(s[i as int]));
        i += 1;
    }
    None
}

fn first_folded(emus: &[JlinkEmu], n: &[char]) -> (r: Option<usize>)
    ensures
        match r {
            Some(i) => first_where(emus_view(emus@), nick_folded(n@)) == Some(i as int),
            None => first_where(emus_view(emus@), nick_folded(n@)) is None,
        },
{
    let ghost s = emus_view(emus@);
    let ghost p = nick_folded(n@);
    let lower = lower_chars(n);
    let mut i: usize = 0;
    while i < emus.len()
        invariant
            i <= emus@.len(),
            s == emus_view(emus@),
            p == nick_folded(n@),
            lower@ == ascii_lower(n@),
            forall|j: int| 0 <= j < i ==> !p(s[j]),
        decreases emus@.len() - i,
    {
        let hit = match &emus[i].nickname {
            Some(x) => chars_eq(&lower_chars(&to_chars(x.as_str())), &lower),
            None => false,
        };
        if hit {
            proof {
                let k = choose|k: int| 0 <= k < s.len() && p(s[k]) && forall|j: int| 0 <= j < k ==> !p(s[j]);
                assert(p(s[i as int]));
                if k < i {
                    assert(!p(s[k]));
                } else if k > i {
                    assert(!p(s[i as int]));
                }
            }
            return Some(i);
        }
        assert(!p(s[i as int]));
        i += 1;
    }
    None
}

pub(crate) fn clone_emus(emus: &[JlinkEmu]) -> (r: Vec<JlinkEmu>)
    ensures
        emus_view(r@) == emus_view(emus@),
{
    let mut r: Vec<JlinkEmu> = Vec::new();
    let mut i: usize = 0;
    while i < emus.len()
        invariant
            i <= emus@.len(),
            emus_view(r@) == emus_view(emus@.take(i as int)),
        decreases emus@.len() - i,
    {
        let e = emus[i].duplicate();
        let ghost old_r = r@;
        assert(emus@.take(i + 1) =~= emus@.take(i as int).push(emus@[i as int]));
        assert(emus_view(emus@.take(i + 1)) =~= emus_view(emus@.take(i as int)).push(emus@[i as int]@));
        r.push(e);
        assert(emus_view(r@) =~= emus_view(old_r).push(e@));
        i += 1;
    }
    assert(emus@.take(emus@.len() as int) =~= emus@);
    r
}

/// Map a SEGGER nickname to the USB serial (zero-padded form) of the probe
/// carrying it, among the probes listed. Comparison is exact, then
/// case-insensitive; over-long and numeric-only nicknames are refused.
pub fn jlink_serial_for_nickname_with(nickname: &str, emus: &[JlinkEmu]) -> (r: Result<String, HubError>)
    ensures
        result_view(r) == serial_for_nickname(nickname@, emus_view(emus@)),
{
    check_jlink_nickname(nickname)?;
    let n = to_chars(nickname);
    if let Some(i) = first_exact(emus, &n) {
        return Ok(usb_serial_form_exec(emus[i].serial.as_str()));
    }
    if let Some(i) = first_folded(emus, &n) {
        return Ok(usb_serial_form_exec(emus[i].serial.as_str()));
    }
    Err(HubError::NicknameNotFound(nickname.to_owned(), clone_emus(emus)))
}

/// A target's USB serial, filled in from its SEGGER nickname if it has one.
pub open spec fn materialized(rt: TargetView, emus: Seq<EmuView>) -> Result<TargetView, ErrorView> {
    match rt.jlink_nickname {
        Some(n) => match serial_for_nickname(n, emus) {
            Ok(s) => Ok(TargetView { serial: Some(s), ..rt }),
            Err(e) => Err(e),
        },
        None => Ok(rt),
    }
}

/// Fill in a resolved target's USB serial (zero-padded form) from its
/// SEGGER nickname, if any, using the probes listed.
pub fn materialize_target(rt: &ResolvedTarget, emus: &[JlinkEmu]) -> (r: Result<ResolvedTarget, HubError>)
    ensures
        result_view(r) == materialized(rt@, emus_view(emus@)),
{
    if let Some(nick) = &rt.jlink_nickname {
        let serial = jlink_serial_for_nickname_with(nick.as_str(), emus)?;
        let mut out = rt.duplicate();
        out.serial = Some(serial);
        return Ok(out);
    }
    Ok(rt.duplicate())
}


/// One probe of the nickname report: `  SERIAL / PRODUCT / NICKNAME`
/// (`<not set>` when the probe has none).
pub open spec fn probe_line(e: EmuView) -> Seq<char> {
    "  "@ + e.serial + " / "@ + e.product + " / "@ + match e.nickname {
        Some(n) => n,
        None => "<not set>"@,
    } + "\n"@
}

pub open spec fn probe_lines(es: Seq<EmuView>) -> Seq<char>
    decreases es.len(),
{
    if es.len() == 0 {
        Seq::empty()
    } else {
        probe_lines(es.drop_last()) + probe_line(es.last())
    }
}

/// The SEGGER probes and their on-probe nicknames, one per line.
pub open spec fn nicknames_text(es: Seq<EmuView>) -> Seq<char> {
    "J-Link probes (JLinkExe ShowEmuList):\n"@ + if es.len() == 0 {
        "  (none)\n"@
    } else {
        probe_lines(es)
    }
}

/// The report of the SEGGER probes attached and their on-probe nicknames:
/// serial, product and nickname per probe.
pub fn jlink_nicknames_report(emus: &[JlinkEmu]) -> (r: String)
    ensures
        r@ == nicknames_text(emus_view(emus@)),
{
    let ghost ev = emus_view(emus@);
    let mut r = String::from_str("J-Link probes (JLinkExe ShowEmuList):\n");
    if emus.len() == 0 {
        r.append("  (none)\n");
        return r;
    }
    let ghost base = r@;
    let mut i: usize = 0;
    assert(ev.take(0) =~= Seq::<EmuView>::empty());
    while i < emus.len()
        invariant
            i <= emus@.len(),
            ev == emus_view(emus@),
            r@ == base + probe_lines(ev.take(i as int)),
        decreases emus@.len() - i,
    {
        let e = &emus[i];
        r.append("  ");
        r.append(e.serial.as_str());
        r.append(" / ");
        r.append(e.product.as_str());
        r.append(" / ");
        match &e.nickname {
            Some(n) => r.append(n.as_str()),
            None => r.append("<not set>"),
        }
        r.append("\n");
        assert(ev.take(i + 1).drop_last() =~= ev.take(i as int));
        assert(ev.take(i + 1).last() == e@);
        i += 1;
    }
    assert(ev.take(emus@.len() as int) =~= ev);
    r
}

} // verus!
