//! The discovery report: configured nicknames (sorted) and every
//! allowlisted board currently attached, with its port line and serial.
use vstd::prelude::*;
use crate::text::{
    ascii_lower, contains, contains_exec, lines, lines_exec, lower_chars, second_piece,
    second_piece_exec, strip_prefix, strip_prefix_exec, to_chars, to_string, trim, trim_chars,
};
use crate::boards::{Boards, BoardView, law_short_name_table, short_name};

verus! {

/// `String`'s order: lexicographic by character (UTF-8 preserves it).
pub open spec fn text_lt(a: Seq<char>, b: Seq<char>) -> bool
    decreases a.len(),
{
    if a.len() == 0 {
        b.len() > 0
    } else if b.len() == 0 {
        false
    } else if a[0] != b[0] {
        a[0] < b[0]
    } else {
        text_lt(a.drop_first(), b.drop_first())
    }
}

pub proof fn lemma_text_lt_irreflexive(a: Seq<char>)
    ensures
        !text_lt(a, a),
    decreases a.len(),
{
    if a.len() > 0 {
        lemma_text_lt_irreflexive(a.drop_first());
    }
}

pub proof fn lemma_text_lt_asymmetric(a: Seq<char>, b: Seq<char>)
    requires
        text_lt(a, b),
    ensures
        !text_lt(b, a),
    decreases a.len(),
{
    if a.len() > 0 && b.len() > 0 && a[0] == b[0] {
        lemma_text_lt_asymmetric(a.drop_first(), b.drop_first());
    }
}

pub proof fn lemma_text_lt_transitive(a: Seq<char>, b: Seq<char>, c: Seq<char>)
    requires
        text_lt(a, b),
        text_lt(b, c),
    ensures
        text_lt(a, c),
    decreases a.len(),
{
    if a.len() > 0 && b.len() > 0 && c.len() > 0 && a[0] == b[0] && b[0] == c[0] {
        lemma_text_lt_transitive(a.drop_first(), b.drop_first(), c.drop_first());
    }
}

pub proof fn lemma_text_lt_total(a: Seq<char>, b: Seq<char>)
    requires
        a != b,
    ensures
        text_lt(a, b) || text_lt(b, a),
    decreases a.len(),
{
    if a.len() > 0 && b.len() > 0 && a[0] == b[0] {
        if a.drop_first() == b.drop_first() {
            assert(a =~= seq![a[0]] + a.drop_first());
            assert(b =~= seq![b[0]] + b.drop_first());
        }
        lemma_text_lt_total(a.drop_first(), b.drop_first());
    } else if a.len() == 0 && b.len() == 0 {
        assert(a =~= b);
    } else if a.len() > 0 && b.len() > 0 {
        assert(a[0] != b[0]);
    }
}

/// Strictly increasing in `String` order.
pub open spec fn strictly_sorted(s: Seq<Seq<char>>) -> bool {
    forall|i: int, j: int| 0 <= i < j < s.len() ==> text_lt(#[trigger] s[i], #[trigger] s[j])
}

/// `s` holds exactly the members of `d`.
pub open spec fn lists_exactly(s: Seq<Seq<char>>, d: Set<Seq<char>>) -> bool {
    forall|k: Seq<char>| d.contains(k) <==> s.contains(k)
}

/// The configured nicknames in `String` order.
pub open spec fn sorted_nicknames(m: Map<Seq<char>, BoardView>) -> Seq<Seq<char>> {
    choose|s: Seq<Seq<char>>| strictly_sorted(s) && lists_exactly(s, m.dom())
}

/// There is only one sorted listing of a set of nicknames.
pub proof fn law_sorted_listing_unique(s1: Seq<Seq<char>>, s2: Seq<Seq<char>>)
    requires
        strictly_sorted(s1),
        strictly_sorted(s2),
        forall|k: Seq<char>| s1.contains(k) <==> s2.contains(k),
    ensures
        s1 == s2,
    decreases s1.len(),
{
    if s1.len() == 0 {
        if s2.len() > 0 {
            assert(s2.contains(s2[0]));
        }
        assert(s1 =~= s2);
    } else {
        assert(s1.contains(s1[0]));
        assert(s2.len() > 0);
        assert(s2.contains(s2[0]));
        let i = choose|i: int| 0 <= i < s1.len() && s1[i] == s2[0];
        let j = choose|j: int| 0 <= j < s2.len() && s2[j] == s1[0];
        if i > 0 && j > 0 {
            assert(text_lt(s1[0], s1[i]));
            assert(text_lt(s2[0], s2[j]));
            lemma_text_lt_asymmetric(s1[0], s2[0]);
        } else if i > 0 {
            assert(text_lt(s1[0], s1[i]));
            lemma_text_lt_irreflexive(s1[0]);
        } else if j > 0 {
            assert(text_lt(s2[0], s2[j]));
            lemma_text_lt_irreflexive(s2[0]);
        }
        assert(s1[0] == s2[0]);
        let t1 = s1.drop_first();
        let t2 = s2.drop_first();
        assert forall|k: Seq<char>| t1.contains(k) <==> t2.contains(k) by {
            if t1.contains(k) {
                let a = choose|a: int| 0 <= a < t1.len() && t1[a] == k;
                assert(s1[a + 1] == k);
                assert(text_lt(s1[0], s1[a + 1]));
                lemma_text_lt_irreflexive(k);
                assert(s2.contains(k));
                let b = choose|b: int| 0 <= b < s2.len() && s2[b] == k;
                if b == 0 {
                    assert(false);
                }
                assert(t2[b - 1] == k);
            }
            if t2.contains(k) {
                let a = choose|a: int| 0 <= a < t2.len() && t2[a] == k;
                assert(s2[a + 1] == k);
                assert(text_lt(s2[0], s2[a + 1]));
                lemma_text_lt_irreflexive(k);
                assert(s1.contains(k));
                let b = choose|b: int| 0 <= b < s1.len() && s1[b] == k;
                if b == 0 {
                    assert(false);
                }
                assert(t1[b - 1] == k);
            }
        }
        assert forall|a: int, b: int| 0 <= a < b < t1.len() implies text_lt(#[trigger] t1[a], #[trigger] t1[b]) by {
            assert(text_lt(s1[a + 1], s1[b + 1]));
        }
        assert forall|a: int, b: int| 0 <= a < b < t2.len() implies text_lt(#[trigger] t2[a], #[trigger] t2[b]) by {
            assert(text_lt(s2[a + 1], s2[b + 1]));
        }
        law_sorted_listing_unique(t1, t2);
        assert(s1 =~= seq![s1[0]] + t1);
        assert(s2 =~= seq![s2[0]] + t2);
    }
}

fn text_lt_exec(a: &[char], b: &[char]) -> (r: bool)
    ensures
        r == text_lt(a@, b@),
{
    let mut i: usize = 0;
    assert(a@.skip(0) =~= a@);
    assert(b@.skip(0) =~= b@);
    while i < a.len() && i < b.len() && a[i] == b[i]
        invariant
            i <= a@.len(),
            i <= b@.len(),
            text_lt(a@, b@) == text_lt(a@.skip(i as int), b@.skip(i as int)),
        decreases a@.len() - i,
    {
        assert(a@.skip(i as int).drop_first() =~= a@.skip(i + 1));
        assert(b@.skip(i as int).drop_first() =~= b@.skip(i + 1));
        i += 1;
    }
    if i == a.len() {
        i < b.len()
    } else if i == b.len() {
        false
    } else {
        a[i] < b[i]
    }
}

pub open spec fn names_view(v: Seq<String>) -> Seq<Seq<char>> {
    v.map_values(|s: String| s@)
}

/// Sorts distinct names into `String` order.
fn sort_names(names: Vec<String>) -> (r: Vec<String>)
    requires
        forall|i: int, j: int| 0 <= i < j < names@.len() ==> names@[i]@ != names@[j]@,
    ensures
        strictly_sorted(names_view(r@)),
        forall|k: Seq<char>| names_view(names@).contains(k) <==> names_view(r@).contains(k),
{
    let mut r: Vec<String> = Vec::new();
    let mut i: usize = 0;
    while i < names.len()
        invariant
            i <= names@.len(),
            forall|a: int, b: int| 0 <= a < b < names@.len() ==> names@[a]@ != names@[b]@,
            strictly_sorted(names_view(r@)),
            forall|k: Seq<char>| names_view(names@.take(i as int)).contains(k) <==> names_view(r@).contains(k),
        decreases names@.len() - i,
    {
        let x = names[i].clone();
        let xc = to_chars(x.as_str());
        let ghost rv = names_view(r@);
        proof {
            assert forall|k: int| 0 <= k < rv.len() implies rv[k] != x@ by {
                assert(rv.contains(rv[k]));
                assert(names_view(names@.take(i as int)).contains(rv[k]));
                let a = choose|a: int| 0 <= a < i && names_view(names@.take(i as int))[a] == rv[k];
                assert(names@[a]@ == rv[k]);
            }
        }
        let mut p: usize = 0;
        while p < r.len() && text_lt_exec(&to_chars(r[p].as_str()), &xc)
            invariant
                p <= r@.len(),
                rv == names_view(r@),
                xc@ == x@,
                forall|k: int| 0 <= k < p ==> text_lt(rv[k], x@),
            decreases r@.len() - p,
        {
            p += 1;
        }
        proof {
            if p < r@.len() {
                assert(!text_lt(rv[p as int], x@));
                assert(rv[p as int] != x@);
                lemma_text_lt_total(rv[p as int], x@);
                assert forall|k: int| p <= k < rv.len() implies text_lt(x@, rv[k]) by {
                    if k > p {
                        assert(text_lt(rv[p as int], rv[k]));
                        lemma_text_lt_transitive(x@, rv[p as int], rv[k]);
                    }
                }
            }
        }
        r.insert(p, x);
        proof {
            let nv = names_view(r@);
            assert(nv =~= rv.insert(p as int, x@));
            assert forall|a: int, b: int| 0 <= a < b < nv.len() implies text_lt(#[trigger] nv[a], #[trigger] nv[b]) by {
                if a < p && b < p {
                    assert(nv[a] == rv[a] && nv[b] == rv[b]);
                } else if a < p && b == p {
                } else if a < p {
                    assert(nv[a] == rv[a] && nv[b] == rv[b - 1]);
                    assert(text_lt(rv[a], x@));
                    lemma_text_lt_transitive(rv[a], x@, rv[b - 1]);
                } else if a == p {
                    assert(nv[b] == rv[b - 1]);
                } else {
                    assert(nv[a] == rv[a - 1] && nv[b] == rv[b - 1]);
                }
            }
            assert(names@.take(i + 1) =~= names@.take(i as int).push(names@[i as int]));
            assert(names_view(names@.take(i + 1)) =~= names_view(names@.take(i as int)).push(x@));
            let new_t = names_view(names@.take(i + 1));
            assert forall|k: Seq<char>| new_t.contains(k) <==> nv.contains(k) by {
                let old_t = names_view(names@.take(i as int));
                if nv.contains(k) {
                    let a = choose|a: int| 0 <= a < nv.len() && nv[a] == k;
                    if a < p {
                        assert(rv[a] == k);
                        assert(rv.contains(k));
                        assert(old_t.contains(k));
                        let b = choose|b: int| 0 <= b < old_t.len() && old_t[b] == k;
                        assert(new_t[b] == k);
                    } else if a == p {
                        assert(new_t[i as int] == k);
                    } else {
                        assert(rv[a - 1] == k);
                        assert(rv.contains(k));
                        assert(old_t.contains(k));
                        let b = choose|b: int| 0 <= b < old_t.len() && old_t[b] == k;
                        assert(new_t[b] == k);
                    }
                }
                if new_t.contains(k) {
                    let a = choose|a: int| 0 <= a < new_t.len() && new_t[a] == k;
                    if a == i {
                        assert(nv[p as int] == k);
                    } else {
                        assert(old_t[a] == k);
                        assert(rv.contains(k));
                        let b = choose|b: int| 0 <= b < rv.len() && rv[b] == k;
                        if b < p {
                            assert(nv[b] == k);
                        } else {
                            assert(nv[b + 1] == k);
                        }
                    }
                }
            }
        }
        i += 1;
    }
    assert(names@.take(names@.len() as int) =~= names@);
    r
}


/// One configured nickname: `  NICK: VIDPID serial=SERIAL` (`(any)` when
/// the entry has no serial).
pub open spec fn nickname_line(n: Seq<char>, b: BoardView) -> Seq<char> {
    "  "@ + n + ": "@ + b.vidpid + " serial="@ + match b.serial {
        Some(s) => s,
        None => "(any)"@,
    } + "\n"@
}

pub open spec fn nickname_lines(ns: Seq<Seq<char>>, m: Map<Seq<char>, BoardView>) -> Seq<char>
    decreases ns.len(),
{
    if ns.len() == 0 {
        Seq::empty()
    } else {
        nickname_lines(ns.drop_last(), m) + nickname_line(ns.last(), m[ns.last()])
    }
}

/// `s.trim_end_matches(']')`.
pub open spec fn trim_end_brackets(s: Seq<char>) -> Seq<char>
    decreases s.len(),
{
    if s.len() > 0 && s.last() == ']' {
        trim_end_brackets(s.drop_last())
    } else {
        s
    }
}

/// A (trimmed) `Port N: ...` line whose attached-device bracket names an
/// allowlisted board: a PPK2, a J-Link or an nRF sniffer.
pub open spec fn allowlisted_line(t: Seq<char>) -> bool {
    match strip_prefix(t, "Port "@) {
        Some(rest) => match second_piece(rest, seq!['[']) {
            Some(br) => {
                let lower = ascii_lower(trim_end_brackets(br));
                contains(lower, "1915:c00a"@) || contains(lower, "1366:1024"@) || contains(
                    lower,
                    "1915:522a"@,
                )
            },
            None => false,
        },
        None => false,
    }
}

/// The allowlist is the set of boards that have a short name: a `Port N:`
/// line is listed among the attached allowlisted devices exactly when its
/// attached-device bracket holds, ignoring ASCII case, the VID:PID of some
/// short name (the PPK2, the J-Link or the nRF sniffer).
pub proof fn law_allowlist_is_short_name_boards(t: Seq<char>)
    ensures
        allowlisted_line(t) <==> (strip_prefix(t, "Port "@) matches Some(rest) && second_piece(
            rest,
            seq!['['],
        ) matches Some(br) && exists|n: Seq<char>| #[trigger]
            short_name(n) matches Some(vp) && contains(ascii_lower(trim_end_brackets(br)), vp)),
{
    law_short_name_table("ppk2"@);
    law_short_name_table("jlink"@);
    law_short_name_table("sniffer"@);
    if let Some(rest) = strip_prefix(t, "Port "@) {
        if let Some(br) = second_piece(rest, seq!['[']) {
            let lower = ascii_lower(trim_end_brackets(br));
            if contains(lower, "1915:c00a"@) {
                assert(short_name("ppk2"@) == Some("1915:c00a"@));
            } else if contains(lower, "1366:1024"@) {
                assert(short_name("jlink"@) == Some("1366:1024"@));
            } else if contains(lower, "1915:522a"@) {
                assert(short_name("sniffer"@) == Some("1915:522a"@));
            }
        }
    }
}

/// The trimmed allowlisted port lines, in order.
pub open spec fn attached_lines(ls: Seq<Seq<char>>) -> Seq<Seq<char>>
    decreases ls.len(),
{
    if ls.len() == 0 {
        Seq::empty()
    } else {
        let prev = attached_lines(ls.drop_last());
        if allowlisted_line(trim(ls.last())) {
            prev.push(trim(ls.last()))
        } else {
            prev
        }
    }
}

pub open spec fn device_lines(ts: Seq<Seq<char>>) -> Seq<char>
    decreases ts.len(),
{
    if ts.len() == 0 {
        Seq::empty()
    } else {
        device_lines(ts.drop_last()) + "  "@ + ts.last() + "\n"@
    }
}

/// The discovery report: configured nicknames in `String` order, then every
/// allowlisted board the listing shows attached.
pub open spec fn targets_text(m: Map<Seq<char>, BoardView>, listing: Seq<char>) -> Seq<char> {
    let att = attached_lines(lines(listing));
    "nicknames (boards.json):\n"@ + (if m.dom().len() == 0 {
        "  (none)\n"@
    } else {
        nickname_lines(sorted_nicknames(m), m)
    }) + "attached allowlisted devices:\n"@ + (if att.len() == 0 {
        "  (none)\n"@
    } else {
        device_lines(att)
    })
}

fn trim_end_brackets_exec(v: &[char]) -> (r: Vec<char>)
    ensures
        r@ == trim_end_brackets(v@),
{
    let mut b: usize = v.len();
    assert(v@.take(v@.len() as int) =~= v@);
    while b > 0 && v[b - 1] == ']'
        invariant
            b <= v@.len(),
            trim_end_brackets(v@) == trim_end_brackets(v@.take(b as int)),
        decreases b,
    {
        assert(v@.take(b as int).drop_last() =~= v@.take(b - 1));
        b -= 1;
    }
    let r = crate::text::slice_chars(v, 0, b);
    assert(r@ =~= v@.take(b as int));
    r
}

fn allowlisted_line_exec(t: &[char]) -> (r: bool)
    ensures
        r == allowlisted_line(t@),
{
    let rest = match strip_prefix_exec(t, &to_chars("Port ")) {
        Some(rest) => rest,
        None => return false,
    };
    let open: Vec<char> = vec!['['];
    assert(open@ =~= seq!['[']);
    let br = match second_piece_exec(&rest, &open) {
        Some(br) => br,
        None => return false,
    };
    let lower = lower_chars(&trim_end_brackets_exec(&br));
    contains_exec(&lower, &to_chars("1915:c00a")) || contains_exec(&lower, &to_chars("1366:1024"))
        || contains_exec(&lower, &to_chars("1915:522a"))
}

/// The configured nicknames (sorted) and every allowlisted board currently
/// in the listing: the discovery report for agents on multi-board benches.
pub fn usb_targets_report(boards: &Boards, listing: &str) -> (r: String)
    ensures
        r@ == targets_text(boards@, listing@),
{
    let ghost m = boards@;
    let ks = boards.keys();
    let ghost kv = names_view(ks@);
    let names = sort_names(ks);
    let ghost nv = names_view(names@);
    proof {
        assert forall|k: Seq<char>| m.dom().contains(k) <==> nv.contains(k) by {
            if m.dom().contains(k) {
                assert(m.contains_key(k));
                let i = choose|i: int| 0 <= i < ks@.len() && #[trigger] ks@[i]@ == k;
                assert(kv[i] == k);
                assert(kv.contains(k));
            }
            if nv.contains(k) {
                assert(kv.contains(k));
                let i = choose|i: int| 0 <= i < kv.len() && kv[i] == k;
                assert(ks@[i]@ == k);
            }
        }
        let s = sorted_nicknames(m);
        assert(strictly_sorted(nv) && lists_exactly(nv, m.dom()));
        law_sorted_listing_unique(s, nv);
        assert(nv.len() == 0 <==> m.dom().len() == 0) by {
            if nv.len() > 0 {
                assert(nv.contains(nv[0]));
                assert(kv.contains(nv[0]));
            }
            if kv.len() > 0 {
                assert(kv.contains(kv[0]));
                assert(nv.contains(kv[0]));
            }
        }
    }
    let mut r = String::from_str("nicknames (boards.json):\n");
    if names.len() == 0 {
        r.append("  (none)\n");
    } else {
        let ghost base = r@;
        let mut i: usize = 0;
        assert(nv.take(0) =~= Seq::<Seq<char>>::empty());
        while i < names.len()
            invariant
                i <= names@.len(),
                nv == names_view(names@),
                m == boards@,
                forall|k: Seq<char>| m.dom().contains(k) <==> nv.contains(k),
                r@ == base + nickname_lines(nv.take(i as int), m),
            decreases names@.len() - i,
        {
            let n = &names[i];
            assert(nv.contains(n@)) by {
                assert(nv[i as int] == n@);
            }
            let b = boards.get(n.as_str()).unwrap();
            r.append("  ");
            r.append(n.as_str());
            r.append(": ");
            r.append(b.vidpid.as_str());
            r.append(" serial=");
            match &b.serial {
                Some(s) => r.append(s.as_str()),
                None => r.append("(any)"),
            }
            r.append("\n");
            assert(nv.take(i + 1).drop_last() =~= nv.take(i as int));
            i += 1;
        }
        assert(nv.take(names@.len() as int) =~= nv);
    }
    r.append("attached allowlisted devices:\n");
    let ls = lines_exec(&to_chars(listing));
    let ghost lsv = lines(listing@);
    let mut found: Vec<Vec<char>> = Vec::new();
    let mut i: usize = 0;
    let ghost base = r@;
    assert(lsv.take(0) =~= Seq::<Seq<char>>::empty());
    while i < ls.len()
        invariant
            i <= ls@.len() == lsv.len(),
            forall|k: int| 0 <= k < ls@.len() ==> #[trigger] ls@[k]@ == lsv[k],
            found@.len() == attached_lines(lsv.take(i as int)).len(),
            r@ == base + device_lines(attached_lines(lsv.take(i as int))),
        decreases ls@.len() - i,
    {
        let t = trim_chars(&ls[i]);
        assert(lsv.take(i + 1).drop_last() =~= lsv.take(i as int));
        assert(lsv.take(i + 1).last() == lsv[i as int]);
        let ghost prev = attached_lines(lsv.take(i as int));
        if allowlisted_line_exec(&t) {
            r.append("  ");
            r.append(to_string(&t).as_str());
            r.append("\n");
            found.push(t);
            assert(prev.push(t@).drop_last() =~= prev);
        }
        i += 1;
    }
    assert(lsv.take(ls@.len() as int) =~= lsv);
    if found.len() == 0 {
        r.append("  (none)\n");
    }
    r
}

} // verus!
