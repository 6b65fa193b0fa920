//! Board nicknames from the configuration and the resolution of a target
//! string to an addressing target.
use vstd::prelude::*;
use crate::text::{
    all_ascii_alnum, all_ascii_alnum_exec, ascii_lower, chars_eq, lower_chars, to_chars,
    to_string, trim, trim_chars,
};
use crate::error::{ErrorView, HubError, result_view};

verus! {

/// A copy of an optional string.
pub fn clone_opt(o: &Option<String>) -> (r: Option<String>)
    ensures
        r.deep_view() == o.deep_view(),
{
    match o {
        Some(s) => Some(s.clone()),
        None => None,
    }
}

/// One nicknamed board from the configuration.
#[derive(Debug, Clone)]
pub struct BoardEntry {
    /// USB VID:PID, e.g. "1366:1024".
    pub vidpid: String,
    /// USB serial substring, e.g. "001160003881". Omit only if unique on bus.
    pub serial: Option<String>,
    /// SEGGER J-Link nickname, resolved live to the probe's serial.
    pub jlink_nickname: Option<String>,
}

/// What a `BoardEntry` holds, as character sequences.
pub struct BoardView {
    pub vidpid: Seq<char>,
    pub serial: Option<Seq<char>>,
    pub jlink_nickname: Option<Seq<char>>,
}

impl View for BoardEntry {
    type V = BoardView;

    open spec fn view(&self) -> BoardView {
        BoardView {
            vidpid: self.vidpid@,
            serial: self.serial.deep_view(),
            jlink_nickname: self.jlink_nickname.deep_view(),
        }
    }
}

impl BoardEntry {
    /// A copy of this entry.
    pub fn duplicate(&self) -> (r: BoardEntry)
        ensures
            r@ == self@,
    {
        BoardEntry {
            vidpid: self.vidpid.clone(),
            serial: clone_opt(&self.serial),
            jlink_nickname: clone_opt(&self.jlink_nickname),
        }
    }
}

/// Nickname -> board map. Each nickname occurs once.
pub struct Boards {
    entries: Vec<(String, BoardEntry)>,
}

impl Boards {
    /// The nickname at position `i`.
    pub closed spec fn key_at(&self, i: int) -> Seq<char> {
        self.entries@[i].0@
    }

    #[verifier::type_invariant]
    spec fn keys_distinct(&self) -> bool {
        forall|i: int, j: int|
            0 <= i < j < self.entries@.len() ==> self.key_at(i) != self.key_at(j)
    }

    spec fn has_key(&self, k: Seq<char>) -> bool {
        exists|i: int| 0 <= i < self.entries@.len() && self.key_at(i) == k
    }

    spec fn index_of(&self, k: Seq<char>) -> int {
        choose|i: int| 0 <= i < self.entries@.len() && self.key_at(i) == k
    }

    /// The nickname -> board map.
    pub closed spec fn map(&self) -> Map<Seq<char>, BoardView> {
        Map::new(|k: Seq<char>| self.has_key(k), |k: Seq<char>| self.entries@[self.index_of(k)].1@)
    }

    /// The nicknames, by position.
    pub closed spec fn key_seq(&self) -> Seq<Seq<char>> {
        Seq::new(self.entries@.len(), |i: int| self.key_at(i))
    }

    /// An empty map.
    pub fn new() -> (b: Boards)
        ensures
            b@ == Map::<Seq<char>, BoardView>::empty(),
    {
        let b = Boards { entries: Vec::new() };
        assert(b.map() =~= Map::<Seq<char>, BoardView>::empty());
        b
    }

    /// The position of `key`, if present.
    fn position(&self, key: &[char]) -> (r: Option<usize>)
        ensures
            match r {
                Some(i) => i < self.entries@.len() && self.key_at(i as int) == key@,
                None => !self.has_key(key@),
            },
    {
        let mut i: usize = 0;
        while i < self.entries.len()
            invariant
                i <= self.entries@.len(),
                forall|j: int| 0 <= j < i ==> self.key_at(j) != key@,
            decreases self.entries@.len() - i,
        {
            let k = to_chars(self.entries[i].0.as_str());
            if chars_eq(&k, key) {
                return Some(i);
            }
            i += 1;
        }
        None
    }

    /// The board under `key`.
    pub fn get(&self, key: &str) -> (r: Option<&BoardEntry>)
        ensures
            match r {
                Some(e) => self@.contains_key(key@) && self@[key@] == e@,
                None => !self@.contains_key(key@),
            },
    {
        proof {
            use_type_invariant(self);
        }
        match self.position(&to_chars(key)) {
            Some(i) => {
                proof {
                    let k = self.index_of(key@);
                    assert(self.has_key(key@));
                    if k != i {
                        if k < i {
                            assert(self.key_at(k) != self.key_at(i as int));
                        } else {
                            assert(self.key_at(i as int) != self.key_at(k));
                        }
                    }
                }
                Some(&self.entries[i].1)
            },
            None => None,
        }
    }

    /// Puts `entry` under `key`, replacing what was there.
    pub fn insert(&mut self, key: String, entry: BoardEntry)
        ensures
            final(self)@ == old(self)@.insert(key@, entry@),
    {
        proof {
            use_type_invariant(&*self);
        }
        let ghost old_self = *self;
        let ghost kv = key@;
        match self.position(&to_chars(key.as_str())) {
            Some(i) => {
                let mut entries: Vec<(String, BoardEntry)> = Vec::new();
                std::mem::swap(&mut entries, &mut self.entries);
                entries.set(i, (key, entry));
                proof {
                    let new_self = Boards { entries: entries };
                    assert forall|a: int, b: int|
                        0 <= a < b < entries@.len() implies new_self.key_at(a) != new_self.key_at(b) by {
                        assert(old_self.key_at(a) != old_self.key_at(b));
                    }
                }
                self.entries = entries;
                proof {
                    assert forall|a: int, b: int|
                        0 <= a < b < self.entries@.len() implies self.key_at(a) != self.key_at(b) by {
                        assert(old_self.key_at(a) != old_self.key_at(b));
                    }
                    assert forall|k: Seq<char>| #[trigger] self.has_key(k) == (k == kv || old_self.has_key(k)) by {
                        if k == kv {
                            assert(self.key_at(i as int) == k);
                            assert(old_self.key_at(i as int) == k);
                        }
                        if old_self.has_key(k) {
                            let j = old_self.index_of(k);
                            if j != i {
                                assert(self.key_at(j) == k);
                            }
                        }
                        if self.has_key(k) {
                            let j = self.index_of(k);
                            if j != i {
                                assert(old_self.key_at(j) == k);
                            }
                        }
                    }
                    assert forall|k: Seq<char>| #[trigger] self.has_key(k) && k != kv implies
                        self.entries@[self.index_of(k)].1@ == old_self.entries@[old_self.index_of(k)].1@ by {
                        let j = self.index_of(k);
                        let j0 = old_self.index_of(k);
                        assert(j != i);
                        assert(old_self.key_at(j) == k);
                        if j0 != j {
                            if j0 < j {
                                assert(old_self.key_at(j0) != old_self.key_at(j));
                            } else {
                                assert(old_self.key_at(j) != old_self.key_at(j0));
                            }
                        }
                    }
                    assert(self.entries@[self.index_of(kv)].1@ == entry@) by {
                        let j = self.index_of(kv);
                        if j != i {
                            if j < i {
                                assert(self.key_at(j) != self.key_at(i as int));
                            } else {
                                assert(self.key_at(i as int) != self.key_at(j));
                            }
                        }
                    }
                    assert(self.map() =~= old_self.map().insert(kv, entry@));
                }
            },
            None => {
                let mut entries: Vec<(String, BoardEntry)> = Vec::new();
                std::mem::swap(&mut entries, &mut self.entries);
                entries.push((key, entry));
                proof {
                    let new_self = Boards { entries: entries };
                    let n = old_self.entries@.len();
                    assert forall|a: int, b: int|
                        0 <= a < b < entries@.len() implies new_self.key_at(a) != new_self.key_at(b) by {
                        if b < n {
                            assert(old_self.key_at(a) != old_self.key_at(b));
                        } else {
                            assert(old_self.key_at(a) != kv);
                        }
                    }
                }
                self.entries = entries;
                proof {
                    let n = old_self.entries@.len();
                    assert forall|a: int, b: int|
                        0 <= a < b < self.entries@.len() implies self.key_at(a) != self.key_at(b) by {
                        if b < n {
                            assert(old_self.key_at(a) != old_self.key_at(b));
                        } else {
                            assert(old_self.key_at(a) != kv);
                        }
                    }
                    assert forall|k: Seq<char>| #[trigger] self.has_key(k) == (k == kv || old_self.has_key(k)) by {
                        if old_self.has_key(k) {
                            let j = old_self.index_of(k);
                            assert(self.key_at(j) == k);
                        }
                        if self.has_key(k) && k != kv {
                            let j = self.index_of(k);
                            assert(old_self.key_at(j) == k);
                        }
                        if k == kv {
                            assert(self.key_at(n as int) == k);
                        }
                    }
                    assert forall|k: Seq<char>| #[trigger] self.has_key(k) && k != kv implies
                        self.entries@[self.index_of(k)].1@ == old_self.entries@[old_self.index_of(k)].1@ by {
                        let j = self.index_of(k);
                        let j0 = old_self.index_of(k);
                        assert(old_self.key_at(j) == k);
                        if j0 != j {
                            if j0 < j {
                                assert(old_self.key_at(j0) != old_self.key_at(j));
                            } else {
                                assert(old_self.key_at(j) != old_self.key_at(j0));
                            }
                        }
                    }
                    assert(self.entries@[self.index_of(kv)].1@ == entry@) by {
                        assert(self.key_at(n as int) == kv);
                        assert(self.has_key(kv));
                        let j = self.index_of(kv);
                        if j != n {
                            assert(old_self.key_at(j) == self.key_at(j));
                            assert(old_self.has_key(kv));
                        }
                    }
                    assert(self.map() =~= old_self.map().insert(kv, entry@));
                }
            },
        }
    }
}

impl Boards {
    /// The nicknames, each once.
    pub fn keys(&self) -> (r: Vec<String>)
        ensures
            r@.len() == self@.dom().len(),
            forall|i: int, j: int| 0 <= i < j < r@.len() ==> r@[i]@ != r@[j]@,
            forall|k: Seq<char>| self@.contains_key(k) <==> exists|i: int| 0 <= i < r@.len() && #[trigger] r@[i]@ == k,
    {
        proof {
            use_type_invariant(self);
        }
        let mut r: Vec<String> = Vec::new();
        let mut i: usize = 0;
        while i < self.entries.len()
            invariant
                i <= self.entries@.len(),
                r@.len() == i,
                forall|j: int| 0 <= j < i ==> #[trigger] r@[j]@ == self.key_at(j),
                forall|a: int, b: int|
                    0 <= a < b < self.entries@.len() ==> self.key_at(a) != self.key_at(b),
            decreases self.entries@.len() - i,
        {
            r.push(self.entries[i].0.clone());
            i += 1;
        }
        proof {
            assert forall|k: Seq<char>| self@.contains_key(k) <==> exists|i: int| 0 <= i < r@.len() && #[trigger] r@[i]@ == k by {
                if self.has_key(k) {
                    let j = self.index_of(k);
                    assert(r@[j]@ == k);
                }
                if exists|i: int| 0 <= i < r@.len() && #[trigger] r@[i]@ == k {
                    let j = choose|i: int| 0 <= i < r@.len() && #[trigger] r@[i]@ == k;
                    assert(self.key_at(j) == k);
                }
            }
            let ks = self.key_seq();
            assert forall|a: int, b: int| 0 <= a < b < ks.len() implies ks[a] != ks[b] by {
                assert(ks[a] == self.key_at(a));
            }
            ks.unique_seq_to_set();
            assert(ks.to_set() =~= self@.dom()) by {
                assert forall|k: Seq<char>| ks.to_set().contains(k) <==> self@.dom().contains(k) by {
                    if ks.contains(k) {
                        let j = choose|j: int| 0 <= j < ks.len() && ks[j] == k;
                        assert(self.key_at(j) == k);
                    }
                    if self.has_key(k) {
                        let j = self.index_of(k);
                        assert(ks[j] == k);
                    }
                }
            }
        }
        r
    }
}

impl View for Boards {
    type V = Map<Seq<char>, BoardView>;

    open spec fn view(&self) -> Map<Seq<char>, BoardView> {
        self.map()
    }
}


/// Lower-cases every nickname, later entries replacing earlier ones that
/// lower-case to the same nickname.
pub open spec fn config_map(entries: Seq<(Seq<char>, BoardView)>) -> Map<Seq<char>, BoardView>
    decreases entries.len(),
{
    if entries.len() == 0 {
        Map::empty()
    } else {
        let last = entries.last();
        config_map(entries.drop_last()).insert(ascii_lower(last.0), last.1)
    }
}

pub open spec fn entries_view(entries: Seq<(String, BoardEntry)>) -> Seq<(Seq<char>, BoardView)> {
    entries.map_values(|e: (String, BoardEntry)| (e.0@, e.1@))
}

/// The nickname map of a configuration file's entries: nicknames are
/// matched case-insensitively, so each is stored lower-cased.
pub fn boards_from_entries(entries: Vec<(String, BoardEntry)>) -> (b: Boards)
    ensures
        b@ == config_map(entries_view(entries@)),
{
    let mut b = Boards::new();
    let mut i: usize = 0;
    let ghost ev = entries_view(entries@);
    assert(ev.take(0) =~= Seq::<(Seq<char>, BoardView)>::empty());
    while i < entries.len()
        invariant
            i <= entries@.len(),
            ev == entries_view(entries@),
            b@ == config_map(ev.take(i as int)),
        decreases entries@.len() - i,
    {
        let key = to_string(&lower_chars(&to_chars(entries[i].0.as_str())));
        let entry = entries[i].1.duplicate();
        b.insert(key, entry);
        assert(ev.take(i + 1).drop_last() =~= ev.take(i as int));
        i += 1;
    }
    assert(ev.take(entries@.len() as int) =~= ev);
    b
}

/// Friendly name -> USB VID:PID of the attached board (legacy unique names).
pub open spec fn short_name(name: Seq<char>) -> Option<Seq<char>> {
    if name == "ppk2"@ {
        Some("1915:c00a"@)
    } else if name == "jlink"@ || name == "segger"@ || name == "apollo"@ || name == "apollo510b"@ {
        Some("1366:1024"@)
    } else if name == "sniffer"@ || name == "nrf"@ || name == "nrf-sniffer"@ {
        Some("1915:522a"@)
    } else {
        None
    }
}

fn is_name(v: &[char], name: &str) -> (r: bool)
    ensures
        r == (v@ == name@),
{
    chars_eq(v, &to_chars(name))
}

/// Friendly name -> USB VID:PID of the attached board (legacy unique names).
pub fn short_name_vidpid(name: &str) -> (r: Option<&'static str>)
    ensures
        match r {
            Some(v) => short_name(name@) == Some(v@),
            None => short_name(name@) is None,
        },
{
    let v = to_chars(name);
    if is_name(&v, "ppk2") {
        Some("1915:c00a")
    } else if is_name(&v, "jlink") || is_name(&v, "segger") || is_name(&v, "apollo") || is_name(
        &v,
        "apollo510b",
    ) {
        Some("1366:1024")
    } else if is_name(&v, "sniffer") || is_name(&v, "nrf") || is_name(&v, "nrf-sniffer") {
        Some("1915:522a")
    } else {
        None
    }
}

/// A resolved addressing target.
#[derive(Debug, Clone)]
pub struct ResolvedTarget {
    /// Stable key for state and reports (nickname, short name, or `serial:<serial>`).
    pub key: String,
    pub vidpid: String,
    pub serial: Option<String>,
    /// SEGGER nickname to resolve live to a serial.
    pub jlink_nickname: Option<String>,
}

/// What a `ResolvedTarget` holds, as character sequences.
pub struct TargetView {
    pub key: Seq<char>,
    pub vidpid: Seq<char>,
    pub serial: Option<Seq<char>>,
    pub jlink_nickname: Option<Seq<char>>,
}

impl View for ResolvedTarget {
    type V = TargetView;

    open spec fn view(&self) -> TargetView {
        TargetView {
            key: self.key@,
            vidpid: self.vidpid@,
            serial: self.serial.deep_view(),
            jlink_nickname: self.jlink_nickname.deep_view(),
        }
    }
}

impl ResolvedTarget {
    /// A copy of this target.
    pub fn duplicate(&self) -> (r: ResolvedTarget)
        ensures
            r@ == self@,
    {
        ResolvedTarget {
            key: self.key.clone(),
            vidpid: self.vidpid.clone(),
            serial: clone_opt(&self.serial),
            jlink_nickname: clone_opt(&self.jlink_nickname),
        }
    }
}

/// How a target string resolves: a configured nickname first, then a
/// short name, then a USB serial substring (at least four ASCII letters or
/// digits); matching ignores surrounding whitespace and ASCII case.
pub open spec fn resolution(target: Seq<char>, boards: Map<Seq<char>, BoardView>) -> Result<TargetView, ErrorView> {
    let t = trim(target);
    let lower = ascii_lower(t);
    if t.len() == 0 {
        Err(ErrorView::EmptyTarget)
    } else if boards.contains_key(lower) {
        let b = boards[lower];
        Ok(
            TargetView {
                key: lower,
                vidpid: ascii_lower(b.vidpid),
                serial: b.serial,
                jlink_nickname: b.jlink_nickname,
            },
        )
    } else if let Some(vp) = short_name(lower) {
        Ok(TargetView { key: lower, vidpid: vp, serial: None, jlink_nickname: None })
    } else if lower.len() >= 4 && all_ascii_alnum(lower) {
        Ok(
            TargetView {
                key: "serial:"@ + t,
                vidpid: Seq::<char>::empty(),
                serial: Some(t),
                jlink_nickname: None,
            },
        )
    } else {
        Err(ErrorView::UnknownTarget(target))
    }
}

/// Resolve a target string with an explicit board map.
pub fn resolve_target_with(target: &str, boards: &Boards) -> (res: Result<ResolvedTarget, HubError>)
    ensures
        result_view(res) == resolution(target@, boards@),
{
    let t = trim_chars(&to_chars(target));
    if t.len() == 0 {
        return Err(HubError::EmptyTarget);
    }
    let lower_v = lower_chars(&t);
    let lower = to_string(&lower_v);
    if let Some(b) = boards.get(lower.as_str()) {
        return Ok(
            ResolvedTarget {
                key: lower,
                vidpid: to_string(&lower_chars(&to_chars(b.vidpid.as_str()))),
                serial: clone_opt(&b.serial),
                jlink_nickname: clone_opt(&b.jlink_nickname),
            },
        );
    }
    if let Some(vidpid) = short_name_vidpid(lower.as_str()) {
        return Ok(
            ResolvedTarget {
                key: lower,
                vidpid: vidpid.to_owned(),
                serial: None,
                jlink_nickname: None,
            },
        );
    }
    if lower_v.len() >= 4 && all_ascii_alnum_exec(&lower_v) {
        let mut key = String::from_str("serial:");
        let ts = to_string(&t);
        key.append(ts.as_str());
        return Ok(
            ResolvedTarget {
                key: key,
                vidpid: String::new(),
                serial: Some(ts),
                jlink_nickname: None,
            },
        );
    }
    Err(HubError::UnknownTarget(target.to_owned()))
}


/// Every nickname of a configuration map is in ASCII lower case, so that a
/// target matches its nickname whatever the case it is typed in.
pub proof fn law_config_nicknames_lower_case(entries: Seq<(Seq<char>, BoardView)>, k: Seq<char>)
    requires
        config_map(entries).contains_key(k),
    ensures
        ascii_lower(k) == k,
    decreases entries.len(),
{
    if entries.len() > 0 {
        let last = entries.last();
        if k == ascii_lower(last.0) {
            crate::listing::lemma_ascii_lower_idem(last.0);
        } else {
            law_config_nicknames_lower_case(entries.drop_last(), k);
        }
    }
}

/// A configured nickname wins over a short name and a serial: the board's
/// own VID:PID (lower-cased), serial and SEGGER nickname are used.
pub proof fn law_nickname_before_short_name(target: Seq<char>, boards: Map<Seq<char>, BoardView>)
    requires
        trim(target).len() != 0,
        boards.contains_key(ascii_lower(trim(target))),
    ensures
        resolution(target, boards) matches Ok(rt) && rt.key == ascii_lower(trim(target))
            && rt.vidpid == ascii_lower(boards[ascii_lower(trim(target))].vidpid) && rt.serial
            == boards[ascii_lower(trim(target))].serial,
{
}

/// A target that is no nickname and no short name is taken as a USB
/// serial substring only when it has at least four characters, all ASCII
/// letters or digits; otherwise it is refused, never guessed.
pub proof fn law_unknown_target_refused(target: Seq<char>, boards: Map<Seq<char>, BoardView>)
    requires
        !boards.contains_key(ascii_lower(trim(target))),
        short_name(ascii_lower(trim(target))) is None,
    ensures
        resolution(target, boards) is Ok <==> (trim(target).len() >= 4 && all_ascii_alnum(
            ascii_lower(trim(target)),
        )),
        resolution(target, boards) matches Ok(rt) ==> rt.serial == Some(trim(target)) && rt.vidpid.len() == 0,
{
}

/// The legacy short names and the USB VID:PID of the board each stands
/// for: `ppk2` the Nordic PPK2 (1915:c00a); `jlink`, `segger`, `apollo` and
/// `apollo510b` the SEGGER J-Link (1366:1024); `sniffer`, `nrf` and
/// `nrf-sniffer` the nRF sniffer (1915:522a). No other name is one.
pub proof fn law_short_name_table(name: Seq<char>)
    ensures
        short_name(name) == Some("1915:c00a"@) <==> name == "ppk2"@,
        short_name(name) == Some("1366:1024"@) <==> (name == "jlink"@ || name == "segger"@ || name
            == "apollo"@ || name == "apollo510b"@),
        short_name(name) == Some("1915:522a"@) <==> (name == "sniffer"@ || name == "nrf"@ || name
            == "nrf-sniffer"@),
        short_name(name) is None <==> !(name == "ppk2"@ || name == "jlink"@ || name == "segger"@
            || name == "apollo"@ || name == "apollo510b"@ || name == "sniffer"@ || name == "nrf"@
            || name == "nrf-sniffer"@),
{
    reveal_strlit("1915:c00a");
    reveal_strlit("1366:1024");
    reveal_strlit("1915:522a");
    assert("1915:c00a"@[5] != "1366:1024"@[5]);
    assert("1915:c00a"@[5] != "1915:522a"@[5]);
    assert("1366:1024"@[5] != "1915:522a"@[5]);
    reveal_strlit("ppk2");
    reveal_strlit("jlink");
    reveal_strlit("segger");
    reveal_strlit("apollo");
    reveal_strlit("apollo510b");
    reveal_strlit("sniffer");
    reveal_strlit("nrf");
    reveal_strlit("nrf-sniffer");
    assert("segger"@[0] != "apollo"@[0]);
    assert("ppk2"@.len() == 4 && "nrf"@.len() == 3 && "jlink"@.len() == 5);
    assert("segger"@.len() == 6 && "apollo"@.len() == 6 && "sniffer"@.len() == 7);
    assert("apollo510b"@.len() == 10 && "nrf-sniffer"@.len() == 11);
}

/// A target that is a short name (in any case, with surrounding blanks)
/// and no configured nickname resolves under that name to the short name's
/// VID:PID, with no serial and no SEGGER nickname.
pub proof fn law_short_name_resolves_to_its_vidpid(target: Seq<char>, boards: Map<Seq<char>, BoardView>)
    requires
        trim(target).len() != 0,
        !boards.contains_key(ascii_lower(trim(target))),
        short_name(ascii_lower(trim(target))) is Some,
    ensures
        resolution(target, boards) == Ok::<TargetView, ErrorView>(
            TargetView {
                key: ascii_lower(trim(target)),
                vidpid: short_name(ascii_lower(trim(target)))->Some_0,
                serial: None,
                jlink_nickname: None,
            },
        ),
{
}

} // verus!
