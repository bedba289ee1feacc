//! Discovery of Tenstorrent devices among the hwmon directories of the
//! kernel: which directories count, in which order, and which sensors and
//! limits they give. Files are read by the application; what they hold is
//! judged here.

use vstd::arithmetic::power::pow;
use vstd::prelude::*;

use crate::error::{BackendError, BackendResult};
use crate::models::{Architecture, Device, DeviceLimits};
use crate::text;
use crate::text::{append_decimal, chars_of, parse_signed, parse_unsigned, str_eq, string_of, trim, trim_chars};

verus! {

// Text order and search

/// Whether `a` comes no later than `b` in dictionary order.
pub open spec fn text_le(a: Seq<char>, b: Seq<char>) -> bool
    decreases a.len(),
{
    if a.len() == 0 {
        true
    } else if b.len() == 0 {
        false
    } else if a[0] != b[0] {
        a[0] < b[0]
    } else {
        text_le(a.skip(1), b.skip(1))
    }
}

proof fn lemma_text_total(a: Seq<char>, b: Seq<char>)
    ensures
        text_le(a, b) || text_le(b, a),
        text_le(a, b) && text_le(b, a) ==> a == b,
    decreases a.len(),
{
    if a.len() == 0 || b.len() == 0 {
        assert(text_le(a, b) && text_le(b, a) ==> a =~= b);
    } else {
        lemma_text_total(a.skip(1), b.skip(1));
        if a[0] == b[0] && a.skip(1) == b.skip(1) {
            assert(a =~= seq![a[0]] + a.skip(1));
            assert(b =~= seq![b[0]] + b.skip(1));
        }
    }
}

proof fn lemma_text_transitive(a: Seq<char>, b: Seq<char>, c: Seq<char>)
    requires
        text_le(a, b),
        text_le(b, c),
    ensures
        text_le(a, c),
    decreases a.len(),
{
    if a.len() > 0 && b.len() > 0 && c.len() > 0 && a[0] == b[0] && b[0] == c[0] {
        lemma_text_transitive(a.skip(1), b.skip(1), c.skip(1));
    }
}

fn text_at_most(a: &str, b: &str) -> (r: bool)
    ensures
        r == text_le(a@, b@),
{
    let x = chars_of(a);
    let y = chars_of(b);
    let mut i: usize = 0;
    assert(x@.skip(0) =~= x@);
    assert(y@.skip(0) =~= y@);
    while i < x.len() && i < y.len()
        invariant
            i <= x@.len(),
            i <= y@.len(),
            x@ == a@,
            y@ == b@,
            text_le(a@, b@) == text_le(x@.skip(i as int), y@.skip(i as int)),
        decreases x@.len() - i,
    {
        if x[i] != y[i] {
            return x[i] < y[i];
        }
        assert(x@.skip(i as int).skip(1) =~= x@.skip(i as int + 1));
        assert(y@.skip(i as int).skip(1) =~= y@.skip(i as int + 1));
        i = i + 1;
    }
    i == x.len()
}

/// Whether `part` occurs in `s`.
pub open spec fn has_part(s: Seq<char>, part: Seq<char>) -> bool {
    exists|i: int|
        0 <= i <= s.len() - part.len() && #[trigger] s.subrange(i, i + part.len()) == part
}

fn matches_at(s: &Vec<char>, at: usize, part: &Vec<char>) -> (r: bool)
    requires
        at + part@.len() <= s@.len(),
    ensures
        r == (s@.subrange(at as int, at + part@.len()) == part@),
{
    let n: usize = s.len();
    for k in 0..part.len()
        invariant
            at + part@.len() <= n,
            n == s@.len(),
            forall|j: int| 0 <= j < k ==> s@[at + j] == #[trigger] part@[j],
    {
        if s[at + k] != part[k] {
            assert(s@.subrange(at as int, at + part@.len())[k as int] != part@[k as int]);
            return false;
        }
    }
    assert(s@.subrange(at as int, at + part@.len()) =~= part@);
    true
}

/// Whether `part` occurs in `s`.
pub fn contains_text(s: &str, part: &str) -> (r: bool)
    ensures
        r == has_part(s@, part@),
{
    let hay = chars_of(s);
    let needle = chars_of(part);
    if needle.len() > hay.len() {
        return false;
    }
    let last: usize = hay.len() - needle.len();
    let mut i: usize = 0;
    while i <= last
        invariant
            hay@ == s@,
            needle@ == part@,
            last == hay@.len() - needle@.len(),
            i <= last + 1,
            forall|j: int|
                0 <= j < i ==> #[trigger] s@.subrange(j, j + part@.len()) != part@,
        decreases last + 1 - i,
    {
        if matches_at(&hay, i, &needle) {
            return true;
        }
        if i == last {
            return false;
        }
        i = i + 1;
    }
    false
}

/// Whether `s` begins with `part`.
pub open spec fn begins_with(s: Seq<char>, part: Seq<char>) -> bool {
    s.len() >= part.len() && s.take(part.len() as int) == part
}

fn starts_with(s: &str, part: &str) -> (r: bool)
    ensures
        r == begins_with(s@, part@),
{
    let hay = chars_of(s);
    let needle = chars_of(part);
    if needle.len() > hay.len() {
        return false;
    }
    assert(hay@.subrange(0, needle@.len() as int) =~= hay@.take(needle@.len() as int));
    matches_at(&hay, 0, &needle)
}

// Candidates

/// A hwmon directory that looks like a Tenstorrent device.
#[derive(Debug)]
pub struct HwmonCandidate {
    /// The directory.
    pub path: String,
    /// The `name` attribute, such as `blackhole`.
    pub name: String,
    /// The architecture that the name tells.
    pub architecture: Architecture,
    /// The PCI bus id that the `device` link tells.
    pub bus_id: Option<String>,
    /// The name of the directory, such as `hwmon3`.
    pub dir_name: String,
    /// The number in the directory's name.
    pub hwmon_num: u32,
}

/// What a candidate amounts to.
pub struct CandidateView {
    pub path: Seq<char>,
    pub name: Seq<char>,
    pub architecture: Architecture,
    pub bus_id: Option<Seq<char>>,
    pub dir_name: Seq<char>,
    pub hwmon_num: nat,
}

impl View for HwmonCandidate {
    type V = CandidateView;

    open spec fn view(&self) -> CandidateView {
        CandidateView {
            path: self.path@,
            name: self.name@,
            architecture: self.architecture,
            bus_id: text::opt_text(self.bus_id),
            dir_name: self.dir_name@,
            hwmon_num: self.hwmon_num as nat,
        }
    }
}

/// The views of the candidates.
pub open spec fn views(s: Seq<HwmonCandidate>) -> Seq<CandidateView> {
    s.map_values(|c: HwmonCandidate| c@)
}

/// Whether a hwmon name is that of a Tenstorrent device.
pub open spec fn is_tenstorrent(name: Seq<char>) -> bool {
    ||| has_part(name, "tenstorrent"@)
    ||| begins_with(name, "tt_"@)
    ||| has_part(name, "grayskull"@)
    ||| has_part(name, "wormhole"@)
    ||| has_part(name, "blackhole"@)
}

/// The architecture that a hwmon name tells.
pub open spec fn named_architecture(name: Seq<char>) -> Architecture {
    if has_part(name, "grayskull"@) {
        Architecture::Grayskull
    } else if has_part(name, "wormhole"@) {
        Architecture::Wormhole
    } else if has_part(name, "blackhole"@) {
        Architecture::Blackhole
    } else {
        Architecture::Unknown
    }
}

/// `s` from its first decimal digit on.
pub open spec fn from_first_digit(s: Seq<char>) -> Seq<char>
    decreases s.len(),
{
    if s.len() == 0 || text::is_digit(s[0]) {
        s
    } else {
        from_first_digit(s.skip(1))
    }
}

/// The number that a directory name ends in, or the greatest where it has
/// none.
pub open spec fn directory_number(dir_name: Seq<char>) -> nat {
    match text::unsigned_value(from_first_digit(dir_name), 10, u32::MAX as nat) {
        Some(n) => n,
        None => u32::MAX as nat,
    }
}

fn hwmon_number(dir_name: &str) -> (n: u32)
    ensures
        n == directory_number(dir_name@),
{
    let chars = chars_of(dir_name);
    let mut i: usize = 0;
    assert(chars@.skip(0) =~= chars@);
    while i < chars.len() && !('0' <= chars[i] && chars[i] <= '9')
        invariant
            i <= chars@.len(),
            chars@ == dir_name@,
            from_first_digit(chars@.skip(i as int)) == from_first_digit(dir_name@),
        decreases chars@.len() - i,
    {
        assert(chars@.skip(i as int).skip(1) =~= chars@.skip(i as int + 1));
        i = i + 1;
    }
    let mut rest: Vec<char> = Vec::new();
    for k in i..chars.len()
        invariant
            i <= k <= chars@.len(),
            rest@ =~= chars@.subrange(i as int, k as int),
    {
        rest.push(chars[k]);
    }
    assert(rest@ =~= chars@.skip(i as int));
    match parse_unsigned(rest.as_slice(), 10, u32::MAX as u64) {
        Some(n) => n as u32,
        None => u32::MAX,
    }
}

/// The length of a text in UTF-8.
pub open spec fn byte_len(s: Seq<char>) -> usize {
    vstd::utf8::encode_utf8(s).len() as usize
}

/// Whether a path component looks like a PCI address, as `0000:04:00.0` does.
pub open spec fn is_pci_address(c: Seq<char>) -> bool {
    &&& byte_len(c) >= 12
    &&& c.len() > 4 && c[4] == ':'
    &&& c.len() > 7 && c[7] == ':'
}

/// The components of a path.
pub open spec fn components(path: Seq<char>) -> Seq<Seq<char>>
    decreases path.len(),
{
    if path.len() == 0 {
        seq![Seq::empty()]
    } else {
        let before = components(path.drop_last());
        if path.last() == '/' {
            before.push(Seq::empty())
        } else {
            before.drop_last().push(before.last().push(path.last()))
        }
    }
}

/// The last of the first `n` components that looks like a PCI address.
pub open spec fn last_address(parts: Seq<Seq<char>>, n: nat) -> Option<Seq<char>>
    decreases n,
{
    if n == 0 {
        None
    } else if is_pci_address(parts[n - 1]) {
        Some(parts[n - 1])
    } else {
        last_address(parts, (n - 1) as nat)
    }
}

/// The PCI address that a `device` link leads to.
pub open spec fn link_address(link: Seq<char>) -> Option<Seq<char>> {
    last_address(components(link), components(link).len())
}

fn looks_like_address(c: &Vec<char>) -> (r: bool)
    ensures
        r == is_pci_address(c@),
{
    let s = string_of(c.as_slice());
    s.as_str().len() >= 12 && c.len() > 4 && c[4] == ':' && c.len() > 7 && c[7] == ':'
}

/// The view of an optional vector of characters.
spec fn opt_chars(v: Option<Vec<char>>) -> Option<Seq<char>> {
    match v {
        Some(c) => Some(c@),
        None => None,
    }
}

/// Takes the device's PCI address out of its `device` link: the last
/// component that looks like one, since a link may lead through the bridges
/// above the card.
pub fn extract_pci_address(link: &str) -> (r: Option<String>)
    ensures
        text::opt_text(r) == link_address(link@),
{
    let chars = chars_of(link);
    let mut found: Option<Vec<char>> = None;
    let mut current: Vec<char> = Vec::new();
    assert(chars@.take(0) =~= Seq::<char>::empty());
    for i in 0..chars.len()
        invariant
            components(chars@.take(i as int)).len() >= 1,
            components(chars@.take(i as int)).last() == current@,
            opt_chars(found) == last_address(
                components(chars@.take(i as int)),
                (components(chars@.take(i as int)).len() - 1) as nat,
            ),
    {
        let ghost before = components(chars@.take(i as int));
        assert(chars@.take(i as int + 1).drop_last() =~= chars@.take(i as int));
        let ghost after = components(chars@.take(i as int + 1));
        if chars[i] == '/' {
            let done = current;
            current = Vec::new();
            proof {
                lemma_last_address_prefix(before, after, before.len());
            }
            if looks_like_address(&done) {
                found = Some(done);
            }
        } else {
            current.push(chars[i]);
            proof {
                lemma_last_address_prefix(before, after, (before.len() - 1) as nat);
            }
        }
    }
    assert(chars@.take(chars@.len() as int) =~= chars@);
    if looks_like_address(&current) {
        found = Some(current);
    }
    match found {
        Some(c) => Some(string_of(c.as_slice())),
        None => None,
    }
}

proof fn lemma_last_address_prefix(a: Seq<Seq<char>>, b: Seq<Seq<char>>, n: nat)
    requires
        n <= a.len(),
        n <= b.len(),
        forall|i: int| 0 <= i < n ==> #[trigger] a[i] == b[i],
    ensures
        last_address(a, n) == last_address(b, n),
    decreases n,
{
    if n > 0 {
        lemma_last_address_prefix(a, b, (n - 1) as nat);
    }
}

/// The address that an optional link leads to.
pub open spec fn opt_address(link: Option<Seq<char>>) -> Option<Seq<char>> {
    match link {
        Some(l) => link_address(l),
        None => None,
    }
}

/// The view of an optional string slice.
pub open spec fn opt_str(s: Option<&str>) -> Option<Seq<char>> {
    match s {
        Some(t) => Some(t@),
        None => None,
    }
}

/// What becomes of a directory that counts.
pub open spec fn judged(
    path: Seq<char>,
    dir_name: Seq<char>,
    name: Seq<char>,
    link: Option<Seq<char>>,
) -> CandidateView {
    CandidateView {
        path,
        name: text::trimmed(name),
        architecture: named_architecture(text::trimmed(name)),
        bus_id: opt_address(link),
        dir_name,
        hwmon_num: directory_number(dir_name),
    }
}

/// Judges a hwmon directory by its `name` attribute and its `device` link.
/// One that is no Tenstorrent device is no candidate.
pub fn hwmon_candidate(
    path: String,
    dir_name: String,
    name: &str,
    link: Option<&str>,
) -> (r: Option<HwmonCandidate>)
    ensures
        r is Some <==> is_tenstorrent(text::trimmed(name@)),
        r matches Some(c) ==> {
            &&& c@ == judged(path@, dir_name@, name@, opt_str(link))
            &&& c.path == path
            &&& c.dir_name == dir_name
        },
{
    let name = trim(name);
    let n = name.as_str();
    if !(contains_text(n, "tenstorrent") || starts_with(n, "tt_") || contains_text(n, "grayskull")
        || contains_text(n, "wormhole") || contains_text(n, "blackhole")) {
        return None;
    }
    let architecture = if contains_text(n, "grayskull") {
        Architecture::Grayskull
    } else if contains_text(n, "wormhole") {
        Architecture::Wormhole
    } else if contains_text(n, "blackhole") {
        Architecture::Blackhole
    } else {
        Architecture::Unknown
    };
    let hwmon_num: u32 = hwmon_number(dir_name.as_str());
    let bus_id = match link {
        Some(l) => extract_pci_address(l),
        None => None,
    };
    Some(HwmonCandidate { path, name, architecture, bus_id, dir_name, hwmon_num })
}

// Order

/// The bus id of a candidate, or nothing.
pub open spec fn bus_text(c: CandidateView) -> Seq<char> {
    match c.bus_id {
        Some(b) => b,
        None => Seq::empty(),
    }
}

/// Whether `a` comes no later than `b`: those with a bus id first, by bus id,
/// then by number, then by directory name.
pub open spec fn candidate_le(a: CandidateView, b: CandidateView) -> bool {
    if (a.bus_id is None) != (b.bus_id is None) {
        a.bus_id is Some
    } else if bus_text(a) != bus_text(b) {
        text_le(bus_text(a), bus_text(b))
    } else if a.hwmon_num != b.hwmon_num {
        a.hwmon_num < b.hwmon_num
    } else {
        text_le(a.dir_name, b.dir_name)
    }
}

proof fn lemma_candidates_total(a: CandidateView, b: CandidateView)
    ensures
        candidate_le(a, b) || candidate_le(b, a),
        candidate_le(a, b) && candidate_le(b, a) ==> a.dir_name == b.dir_name,
{
    lemma_text_total(bus_text(a), bus_text(b));
    lemma_text_total(a.dir_name, b.dir_name);
}

proof fn lemma_candidates_transitive(a: CandidateView, b: CandidateView, c: CandidateView)
    requires
        candidate_le(a, b),
        candidate_le(b, c),
    ensures
        candidate_le(a, c),
{
    lemma_text_total(bus_text(a), bus_text(b));
    lemma_text_total(bus_text(b), bus_text(c));
    lemma_text_total(bus_text(a), bus_text(c));
    if text_le(bus_text(a), bus_text(b)) && text_le(bus_text(b), bus_text(c)) {
        lemma_text_transitive(bus_text(a), bus_text(b), bus_text(c));
    }
    if text_le(a.dir_name, b.dir_name) && text_le(b.dir_name, c.dir_name) {
        lemma_text_transitive(a.dir_name, b.dir_name, c.dir_name);
    }
}

fn candidate_at_most(a: &HwmonCandidate, b: &HwmonCandidate) -> (r: bool)
    ensures
        r == candidate_le(a@, b@),
{
    if a.bus_id.is_none() != b.bus_id.is_none() {
        return a.bus_id.is_some();
    }
    if let (Some(x), Some(y)) = (&a.bus_id, &b.bus_id) {
        if !str_eq(x.as_str(), y.as_str()) {
            return text_at_most(x.as_str(), y.as_str());
        }
    }
    if a.hwmon_num != b.hwmon_num {
        return a.hwmon_num < b.hwmon_num;
    }
    text_at_most(a.dir_name.as_str(), b.dir_name.as_str())
}

/// A sequence with one more candidate, behind those that come no later.
pub open spec fn inserted(s: Seq<CandidateView>, c: CandidateView) -> Seq<CandidateView>
    decreases s.len(),
{
    if s.len() == 0 || candidate_le(s.last(), c) {
        s.push(c)
    } else {
        inserted(s.drop_last(), c).push(s.last())
    }
}

/// The candidates in order. Those that compare equal keep the order in which
/// they came.
pub open spec fn ordered(s: Seq<CandidateView>) -> Seq<CandidateView>
    decreases s.len(),
{
    if s.len() == 0 {
        s
    } else {
        inserted(ordered(s.drop_last()), s.last())
    }
}

/// Whether no candidate comes later than one behind it.
pub open spec fn in_order(s: Seq<CandidateView>) -> bool {
    forall|i: int, j: int|
        0 <= i < j < s.len() ==> candidate_le(#[trigger] s[i], #[trigger] s[j])
}

proof fn lemma_inserted(s: Seq<CandidateView>, c: CandidateView)
    requires
        in_order(s),
    ensures
        in_order(inserted(s, c)),
        inserted(s, c).to_multiset() == s.to_multiset().insert(c),
        inserted(s, c).len() == s.len() + 1,
        forall|i: int|
            0 <= i < inserted(s, c).len() ==> #[trigger] inserted(s, c)[i] == c || s.contains(
                inserted(s, c)[i],
            ),
    decreases s.len(),
{
    broadcast use vstd::seq_lib::group_to_multiset_ensures;

    if s.len() == 0 || candidate_le(s.last(), c) {
        assert forall|i: int, j: int| 0 <= i < j < s.push(c).len() implies candidate_le(
            #[trigger] s.push(c)[i],
            #[trigger] s.push(c)[j],
        ) by {
            if j == s.len() && i < s.len() - 1 {
                lemma_candidates_transitive(s[i], s.last(), c);
            }
        }
        assert forall|i: int| 0 <= i < s.push(c).len() implies #[trigger] s.push(c)[i] == c
            || s.contains(s.push(c)[i]) by {
            if i < s.len() {
                assert(s.contains(s[i]));
            }
        }
    } else {
        let short = s.drop_last();
        lemma_inserted(short, c);
        let t = inserted(short, c);
        let r = t.push(s.last());
        lemma_candidates_total(s.last(), c);
        assert forall|i: int, j: int| 0 <= i < j < r.len() implies candidate_le(
            #[trigger] r[i],
            #[trigger] r[j],
        ) by {
            if j == r.len() - 1 {
                assert(r[i] == t[i]);
                if t[i] != c {
                    let k = choose|k: int| 0 <= k < short.len() && short[k] == t[i];
                    assert(s[k] == t[i]);
                }
            } else {
                assert(r[i] == t[i] && r[j] == t[j]);
            }
        }
        assert(s =~= short.push(s.last()));
        assert(r.to_multiset() =~= s.to_multiset().insert(c));
        assert forall|i: int| 0 <= i < r.len() implies #[trigger] r[i] == c || s.contains(
            r[i],
        ) by {
            if i < t.len() {
                assert(r[i] == t[i]);
                if t[i] != c {
                    let k = choose|k: int| 0 <= k < short.len() && short[k] == t[i];
                    assert(s[k] == t[i]);
                }
            } else {
                assert(s[s.len() - 1] == r[i]);
            }
        }
    }
}

/// Sorting loses and adds nothing, and leaves the candidates in order: those
/// whose bus id is known by ascending bus id, the others behind them.
pub proof fn law_ordered_sorts(s: Seq<CandidateView>)
    ensures
        in_order(ordered(s)),
        ordered(s).to_multiset() == s.to_multiset(),
        ordered(s).len() == s.len(),
    decreases s.len(),
{
    broadcast use vstd::seq_lib::group_to_multiset_ensures;

    if s.len() > 0 {
        law_ordered_sorts(s.drop_last());
        lemma_inserted(ordered(s.drop_last()), s.last());
        assert(s =~= s.drop_last().push(s.last()));
    }
}

proof fn lemma_inserted_at(s: Seq<CandidateView>, c: CandidateView, at: int)
    requires
        0 <= at <= s.len(),
        at == 0 || candidate_le(s[at - 1], c),
        forall|i: int| at <= i < s.len() ==> !candidate_le(#[trigger] s[i], c),
    ensures
        inserted(s, c) == s.insert(at, c),
    decreases s.len(),
{
    if s.len() == 0 || candidate_le(s.last(), c) {
        assert(at == s.len());
        assert(s.insert(at, c) =~= s.push(c));
    } else {
        assert(at < s.len());
        lemma_inserted_at(s.drop_last(), c, at);
        assert(s.insert(at, c) =~= s.drop_last().insert(at, c).push(s.last()));
    }
}

/// Sorts the candidates, so that device indices follow ascending bus ids.
pub fn sort_candidates(candidates: Vec<HwmonCandidate>) -> (sorted: Vec<HwmonCandidate>)
    ensures
        views(sorted@) == ordered(views(candidates@)),
        in_order(views(sorted@)),
        sorted@.to_multiset() == candidates@.to_multiset(),
{
    let mut sorted: Vec<HwmonCandidate> = Vec::new();
    let ghost all = candidates@;
    assert(views(all.take(0)) =~= Seq::<CandidateView>::empty());
    assert(views(sorted@) =~= Seq::<CandidateView>::empty());
    assert(all.take(0) =~= sorted@);
    for c in it: candidates
        invariant
            it.seq() == all,
            views(sorted@) == ordered(views(all.take(it.index() as int))),
            sorted@.to_multiset() == all.take(it.index() as int).to_multiset(),
            all.take(all.len() as int) == all,
    {
        let ghost k = it.index() as int;
        let ghost before = sorted@;
        assert(all.take(k + 1) =~= all.take(k).push(c));
        assert(views(all.take(k + 1)).drop_last() =~= views(all.take(k)));
        assert(views(all.take(k + 1)).last() == c@);
        let mut at: usize = sorted.len();
        while at > 0 && !candidate_at_most(&sorted[at - 1], &c)
            invariant
                at <= sorted@.len(),
                forall|i: int|
                    at <= i < sorted@.len() ==> !candidate_le(#[trigger] views(sorted@)[i], c@),
            decreases at,
        {
            at = at - 1;
        }
        proof {
            lemma_inserted_at(views(sorted@), c@, at as int);
        }
        sorted.insert(at, c);
        assert(views(sorted@) =~= views(before).insert(at as int, c@));
        proof {
            vstd::seq_lib::to_multiset_insert(before, at as int, c);
            vstd::seq_lib::to_multiset_build(all.take(k), c);
        }
    }
    proof {
        law_ordered_sorts(views(all));
    }
    sorted
}

/// Whether no two candidates lie in directories of one name.
pub open spec fn distinct_directories(s: Seq<CandidateView>) -> bool {
    forall|i: int, j: int|
        0 <= i < j < s.len() ==> (#[trigger] s[i]).dir_name != (#[trigger] s[j]).dir_name
}

proof fn lemma_one_order(a: Seq<CandidateView>, b: Seq<CandidateView>)
    requires
        in_order(a),
        in_order(b),
        distinct_directories(a),
        distinct_directories(b),
        forall|c: CandidateView| a.contains(c) == b.contains(c),
    ensures
        a == b,
    decreases a.len(),
{
    if a.len() == 0 {
        if b.len() > 0 {
            assert(b.contains(b[0]));
        }
        assert(a =~= b);
    } else {
        assert(a.contains(a[0]));
        assert(b.len() > 0);
        let x = a.last();
        let y = b.last();
        assert(a.contains(x) && b.contains(y));
        let i = choose|i: int| 0 <= i < a.len() && a[i] == y;
        let j = choose|j: int| 0 <= j < b.len() && b[j] == x;
        if i != a.len() - 1 {
            assert(candidate_le(a[i], a[a.len() - 1]));
            if j != b.len() - 1 {
                assert(candidate_le(b[j], b[b.len() - 1]));
            }
            lemma_candidates_total(x, y);
            assert(a[i].dir_name == a[a.len() - 1].dir_name);
        }
        assert(x == y);
        let short_a = a.drop_last();
        let short_b = b.drop_last();
        assert forall|c: CandidateView| short_a.contains(c) == short_b.contains(c) by {
            lemma_without_last(a, c);
            lemma_without_last(b, c);
        }
        lemma_one_order(short_a, short_b);
        assert(a =~= short_a.push(x));
        assert(b =~= short_b.push(y));
    }
}

proof fn lemma_without_last(s: Seq<CandidateView>, c: CandidateView)
    requires
        s.len() > 0,
        distinct_directories(s),
    ensures
        s.drop_last().contains(c) == (s.contains(c) && c != s.last()),
{
    if s.drop_last().contains(c) {
        let i = choose|i: int| 0 <= i < s.drop_last().len() && s.drop_last()[i] == c;
        assert(s[i] == c);
        assert(s[i].dir_name != s[s.len() - 1].dir_name);
    }
    if s.contains(c) && c != s.last() {
        let i = choose|i: int| 0 <= i < s.len() && s[i] == c;
        assert(s.drop_last()[i] == c);
    }
}

proof fn lemma_same_content(a: Seq<CandidateView>, b: Seq<CandidateView>)
    requires
        a.to_multiset() == b.to_multiset(),
        distinct_directories(a),
    ensures
        distinct_directories(b),
        forall|c: CandidateView| a.contains(c) == b.contains(c),
{
    broadcast use vstd::seq_lib::group_to_multiset_ensures;

    assert forall|c: CandidateView| a.contains(c) == b.contains(c) by {
        assert(a.contains(c) == (a.to_multiset().count(c) > 0));
        assert(b.contains(c) == (b.to_multiset().count(c) > 0));
    }
    assert(a.no_duplicates());
    a.lemma_multiset_has_no_duplicates();
    assert(b.no_duplicates()) by {
        b.lemma_multiset_has_no_duplicates_conv();
    }
    assert forall|i: int, j: int| 0 <= i < j < b.len() implies (#[trigger] b[i]).dir_name != (
    #[trigger] b[j]).dir_name by {
        assert(b.contains(b[i]) && b.contains(b[j]));
        assert(b[i] != b[j]);
        let k = choose|k: int| 0 <= k < a.len() && a[k] == b[i];
        let l = choose|l: int| 0 <= l < a.len() && a[l] == b[j];
        if k < l {
            assert(a[k].dir_name != a[l].dir_name);
        } else {
            assert(a[l].dir_name != a[k].dir_name);
        }
    }
}

/// The order does not depend on the one in which the candidates came: two lists
/// of the same candidates, each in a directory of its own, are ordered alike.
pub proof fn law_order_is_unique(a: Seq<CandidateView>, b: Seq<CandidateView>)
    requires
        a.to_multiset() == b.to_multiset(),
        distinct_directories(a),
    ensures
        ordered(a) == ordered(b),
{
    law_ordered_sorts(a);
    law_ordered_sorts(b);
    lemma_same_content(a, ordered(a));
    lemma_same_content(a, ordered(b));
    lemma_one_order(ordered(a), ordered(b));
}

// Scans

/// A directory of the hwmon tree, as read.
#[derive(Debug)]
pub struct HwmonEntry {
    pub path: String,
    pub dir_name: String,
    /// What its `name` attribute holds, where it could be read.
    pub name: Option<String>,
    /// Where its `device` link leads, where it has one.
    pub link: Option<String>,
}

/// What a hwmon directory amounts to.
pub struct EntryView {
    pub path: Seq<char>,
    pub dir_name: Seq<char>,
    pub name: Option<Seq<char>>,
    pub link: Option<Seq<char>>,
}

impl View for HwmonEntry {
    type V = EntryView;

    open spec fn view(&self) -> EntryView {
        EntryView {
            path: self.path@,
            dir_name: self.dir_name@,
            name: text::opt_text(self.name),
            link: text::opt_text(self.link),
        }
    }
}

/// What a scan of the hwmon tree gave.
#[derive(Debug)]
pub enum HwmonScan {
    /// There is no such tree.
    Missing,
    /// It cannot be read, and why.
    Unreadable(String),
    /// The directories in it, in the order in which they were read.
    Entries(Vec<HwmonEntry>),
}

/// The views of the directories.
pub open spec fn entry_views(s: Seq<HwmonEntry>) -> Seq<EntryView> {
    s.map_values(|e: HwmonEntry| e@)
}

/// The candidate that a directory is, if it is one.
pub open spec fn entry_candidate(e: EntryView) -> Option<CandidateView> {
    match e.name {
        Some(n) => if is_tenstorrent(text::trimmed(n)) {
            Some(judged(e.path, e.dir_name, n, e.link))
        } else {
            None
        },
        None => None,
    }
}

/// The candidates among the directories, in their order.
pub open spec fn entry_candidates(s: Seq<EntryView>) -> Seq<CandidateView>
    decreases s.len(),
{
    if s.len() == 0 {
        Seq::empty()
    } else {
        match entry_candidate(s.last()) {
            Some(c) => entry_candidates(s.drop_last()).push(c),
            None => entry_candidates(s.drop_last()),
        }
    }
}

/// What a scan comes to: the candidates in order, or why there are none.
pub open spec fn scan_outcome(scan: HwmonScan) -> Result<Seq<CandidateView>, Seq<char>> {
    match scan {
        HwmonScan::Missing => Err("Hwmon sysfs not available (Linux-specific)"@),
        HwmonScan::Unreadable(why) => Err("Failed to read hwmon dir: "@ + why@),
        HwmonScan::Entries(entries) => Ok(ordered(entry_candidates(entry_views(entries@)))),
    }
}

/// Collects the Tenstorrent devices that a scan found, sorted. A tree that is
/// missing or cannot be read is an error.
pub fn collect_hwmon_candidates(scan: HwmonScan) -> (r: BackendResult<Vec<HwmonCandidate>>)
    ensures
        match scan_outcome(scan) {
            Ok(found) => r matches Ok(c) && views(c@) == found,
            Err(message) => r matches Err(BackendError::Initialization(m)) && m@ == message,
        },
{
    let entries = match scan {
        HwmonScan::Missing => {
            return Err(
                BackendError::Initialization("Hwmon sysfs not available (Linux-specific)".to_owned()),
            );
        },
        HwmonScan::Unreadable(why) => {
            let mut message = "Failed to read hwmon dir: ".to_owned();
            message.append(why.as_str());
            return Err(BackendError::Initialization(message));
        },
        HwmonScan::Entries(entries) => entries,
    };
    let ghost all = entries@;
    let mut found: Vec<HwmonCandidate> = Vec::new();
    assert(entry_views(all.take(0)) =~= Seq::<EntryView>::empty());
    assert(views(found@) =~= Seq::<CandidateView>::empty());
    for e in it: entries
        invariant
            it.seq() == all,
            views(found@) == entry_candidates(entry_views(all.take(it.index() as int))),
            all.take(all.len() as int) == all,
    {
        let ghost k = it.index() as int;
        let ghost before = found@;
        assert(entry_views(all.take(k + 1)).drop_last() =~= entry_views(all.take(k)));
        assert(entry_views(all.take(k + 1)).last() == e@);
        let HwmonEntry { path, dir_name, name, link } = e;
        let link = match &link {
            Some(l) => Some(l.as_str()),
            None => None,
        };
        if let Some(n) = name {
            if let Some(c) = hwmon_candidate(path, dir_name, n.as_str(), link) {
                found.push(c);
                assert(views(found@) =~= views(before).push(c@));
            }
        }
    }
    Ok(sort_candidates(found))
}

proof fn lemma_entry_candidates(s: Seq<EntryView>, c: CandidateView)
    ensures
        entry_candidates(s).contains(c) == exists|i: int|
            0 <= i < s.len() && #[trigger] entry_candidate(s[i]) == Some(c),
    decreases s.len(),
{
    if s.len() > 0 {
        let short = s.drop_last();
        lemma_entry_candidates(short, c);
        let head = entry_candidates(short);
        let all = entry_candidates(s);
        if head.contains(c) {
            let i = choose|i: int|
                0 <= i < short.len() && #[trigger] entry_candidate(short[i]) == Some(c);
            assert(entry_candidate(s[i]) == Some(c));
            let j = choose|j: int| 0 <= j < head.len() && head[j] == c;
            assert(all[j] == c);
        }
        if entry_candidate(s.last()) == Some(c) {
            assert(entry_candidate(s[s.len() - 1]) == Some(c));
            assert(all[head.len() as int] == c);
        }
        if all.contains(c) && !head.contains(c) {
            let j = choose|j: int| 0 <= j < all.len() && all[j] == c;
            if j < head.len() {
                assert(head[j] == c);
            }
            assert(entry_candidate(s[s.len() - 1]) == Some(c));
        }
        if exists|i: int| 0 <= i < s.len() && #[trigger] entry_candidate(s[i]) == Some(c) {
            let i = choose|i: int|
                0 <= i < s.len() && #[trigger] entry_candidate(s[i]) == Some(c);
            if i < short.len() {
                assert(entry_candidate(short[i]) == Some(c));
            }
        }
    }
}

/// Whether no two directories have one name.
pub open spec fn distinct_entries(s: Seq<EntryView>) -> bool {
    forall|i: int, j: int|
        0 <= i < j < s.len() ==> (#[trigger] s[i]).dir_name != (#[trigger] s[j]).dir_name
}

proof fn lemma_distinct_candidates(s: Seq<EntryView>)
    requires
        distinct_entries(s),
    ensures
        distinct_directories(entry_candidates(s)),
    decreases s.len(),
{
    if s.len() > 0 {
        let short = s.drop_last();
        assert(distinct_entries(short)) by {
            assert forall|i: int, j: int| 0 <= i < j < short.len() implies (
            #[trigger] short[i]).dir_name != (#[trigger] short[j]).dir_name by {
                assert(s[i].dir_name != s[j].dir_name);
            }
        }
        lemma_distinct_candidates(short);
        let head = entry_candidates(short);
        let all = entry_candidates(s);
        assert forall|i: int, j: int| 0 <= i < j < all.len() implies (#[trigger] all[i]).dir_name
            != (#[trigger] all[j]).dir_name by {
            if j < head.len() {
                assert(all[i] == head[i] && all[j] == head[j]);
            } else {
                assert(all[i] == head[i]);
                assert(head.contains(head[i]));
                lemma_entry_candidates(short, head[i]);
                let k = choose|k: int|
                    0 <= k < short.len() && #[trigger] entry_candidate(short[k]) == Some(head[i]);
                assert(s[k].dir_name != s[s.len() - 1].dir_name);
            }
        }
    }
}

/// What is found in a tree depends on the directories in it alone, and not on
/// the order in which they are read.
pub proof fn law_reading_order_does_not_matter(a: Seq<EntryView>, b: Seq<EntryView>)
    requires
        forall|e: EntryView| a.contains(e) == b.contains(e),
        distinct_entries(a),
        distinct_entries(b),
    ensures
        ordered(entry_candidates(a)) == ordered(entry_candidates(b)),
{
    let x = entry_candidates(a);
    let y = entry_candidates(b);
    lemma_distinct_candidates(a);
    lemma_distinct_candidates(b);
    law_ordered_sorts(x);
    law_ordered_sorts(y);
    lemma_same_content(x, ordered(x));
    lemma_same_content(y, ordered(y));
    assert forall|c: CandidateView| ordered(x).contains(c) == ordered(y).contains(c) by {
        assert(x.contains(c) == y.contains(c)) by {
            lemma_entry_candidates(a, c);
            lemma_entry_candidates(b, c);
            if x.contains(c) {
                let i = choose|i: int| 0 <= i < a.len() && #[trigger] entry_candidate(a[i]) == Some(c);
                assert(b.contains(a[i]));
                let j = choose|j: int| 0 <= j < b.len() && b[j] == a[i];
                assert(entry_candidate(b[j]) == Some(c));
            }
            if y.contains(c) {
                let i = choose|i: int| 0 <= i < b.len() && #[trigger] entry_candidate(b[i]) == Some(c);
                assert(a.contains(b[i]));
                let j = choose|j: int| 0 <= j < a.len() && a[j] == b[i];
                assert(entry_candidate(a[j]) == Some(c));
            }
        }
    }
    lemma_one_order(ordered(x), ordered(y));
}

/// A scan comes to no device just where the tree is missing, cannot be read, or
/// holds no directory of a Tenstorrent device.
pub proof fn law_scan_finds_nothing(scan: HwmonScan)
    ensures
        match scan_outcome(scan) {
            Err(_) => !(scan is Entries),
            Ok(found) => scan is Entries && (found.len() == 0 <==> forall|i: int|
                0 <= i < scan->Entries_0@.len() ==> entry_candidate(
                    (#[trigger] scan->Entries_0@[i])@,
                ) is None),
        },
{
    if let HwmonScan::Entries(entries) = scan {
        let v = entry_views(entries@);
        let x = entry_candidates(v);
        law_ordered_sorts(x);
        if x.len() > 0 {
            assert(x.contains(x[0]));
            lemma_entry_candidates(v, x[0]);
            let i = choose|i: int| 0 <= i < v.len() && #[trigger] entry_candidate(v[i]) == Some(x[0]);
            assert(entry_candidate(entries@[i]@) is Some);
        } else {
            assert forall|i: int| 0 <= i < entries@.len() implies entry_candidate(
                (#[trigger] entries@[i])@,
            ) is None by {
                if let Some(c) = entry_candidate(entries@[i]@) {
                    lemma_entry_candidates(v, c);
                    assert(entry_candidate(v[i]) == Some(c));
                    assert(x.contains(c));
                }
            }
        }
    }
}

// Devices

/// A text of its own, or the name of the directory.
pub open spec fn device_bus_id(c: CandidateView) -> Seq<char> {
    match c.bus_id {
        Some(b) => b,
        None => c.dir_name,
    }
}

/// The device that a candidate becomes at a position.
pub fn candidate_device(
    index: usize,
    candidate: &HwmonCandidate,
    limits: Option<DeviceLimits>,
) -> (device: Device)
    ensures
        device.index == index,
        device.board_type@ == candidate.name@,
        device.bus_id@ == device_bus_id(candidate@),
        device.coords@.len() == 0,
        device.architecture == candidate.architecture,
        device.firmwares is None,
        device.limits == limits,
        device.pcie_speed is None,
        device.pcie_width is None,
        device.grid_override is None,
        device.channels_override is None,
{
    Device {
        index,
        board_type: candidate.name.clone(),
        bus_id: match &candidate.bus_id {
            Some(b) => b.clone(),
            None => candidate.dir_name.clone(),
        },
        coords: String::new(),
        architecture: candidate.architecture,
        firmwares: None,
        limits,
        pcie_speed: None,
        pcie_width: None,
        grid_override: None,
        channels_override: None,
    }
}

// Sensors

/// The classes of sensors that are read.
#[derive(Clone, Copy, Debug, PartialEq, Eq, Structural)]
pub enum SensorClass {
    Temperature,
    Voltage,
    Power,
    Current,
    Fan,
}

/// The prefix of the files of a class.
pub open spec fn class_prefix(class: SensorClass) -> Seq<char> {
    match class {
        SensorClass::Temperature => "temp"@,
        SensorClass::Voltage => "in"@,
        SensorClass::Power => "power"@,
        SensorClass::Current => "curr"@,
        SensorClass::Fan => "fan"@,
    }
}

/// The label of the sensor of a class that is wanted.
pub open spec fn class_label(class: SensorClass) -> Seq<char> {
    match class {
        SensorClass::Temperature => "asic_temp"@,
        SensorClass::Voltage => "vcore"@,
        SensorClass::Power => "power"@,
        SensorClass::Current => "current"@,
        SensorClass::Fan => "fan_rpm"@,
    }
}

impl SensorClass {
    fn prefix(&self) -> (s: &'static str)
        ensures
            s@ == class_prefix(*self),
    {
        match self {
            SensorClass::Temperature => "temp",
            SensorClass::Voltage => "in",
            SensorClass::Power => "power",
            SensorClass::Current => "curr",
            SensorClass::Fan => "fan",
        }
    }

    fn label(&self) -> (s: &'static str)
        ensures
            s@ == class_label(*self),
    {
        match self {
            SensorClass::Temperature => "asic_temp",
            SensorClass::Voltage => "vcore",
            SensorClass::Power => "power",
            SensorClass::Current => "current",
            SensorClass::Fan => "fan_rpm",
        }
    }

    /// The first and the last number that sensors of the class are looked for
    /// under.
    pub fn numbers(&self) -> (r: (u32, u32))
        ensures
            r == match *self {
                SensorClass::Temperature => (1u32, 8u32),
                SensorClass::Voltage => (0u32, 8u32),
                SensorClass::Power => (1u32, 8u32),
                SensorClass::Current => (1u32, 8u32),
                SensorClass::Fan => (1u32, 4u32),
            },
    {
        match self {
            SensorClass::Voltage => (0, 8),
            SensorClass::Fan => (1, 4),
            _ => (1, 8),
        }
    }

    /// The name of a sensor's file: the class's prefix, the sensor's number,
    /// and a suffix such as `_input`, `_label` or `_max`.
    pub fn file_name(&self, number: u32, suffix: &str) -> (s: String)
        ensures
            s@ == class_prefix(*self) + text::decimal(number as nat) + suffix@,
    {
        let mut s = self.prefix().to_owned();
        append_decimal(&mut s, number as u64);
        s.append(suffix);
        s
    }
}

/// A sensor that exists: its number, and what its label file holds.
#[derive(Debug)]
pub struct SensorFile {
    pub number: u32,
    pub label: Option<String>,
}

/// Whether a sensor bears the label that is wanted of its class.
pub open spec fn bears_label(s: SensorFile, class: SensorClass) -> bool {
    s.label matches Some(l) && text::trimmed(l@) == class_label(class)
}

/// The position of the first sensor from `i` on that bears the wanted label.
pub open spec fn first_labelled(sensors: Seq<SensorFile>, class: SensorClass, i: int) -> Option<int>
    decreases sensors.len() - i,
{
    if i < 0 || i >= sensors.len() {
        None
    } else if bears_label(sensors[i], class) {
        Some(i)
    } else {
        first_labelled(sensors, class, i + 1)
    }
}

/// The number of the sensor to read.
pub open spec fn picked_sensor(sensors: Seq<SensorFile>, class: SensorClass) -> Option<u32> {
    match first_labelled(sensors, class, 0) {
        Some(i) => Some(sensors[i].number),
        None => if sensors.len() > 0 { Some(sensors[0].number) } else { None },
    }
}

/// Picks the sensor of a class to read, among those that exist, in ascending
/// order: the first with the wanted label, and otherwise the first of all.
pub fn pick_sensor(sensors: &Vec<SensorFile>, class: SensorClass) -> (number: Option<u32>)
    ensures
        number == picked_sensor(sensors@, class),
{
    for i in 0..sensors.len()
        invariant
            first_labelled(sensors@, class, 0) == first_labelled(sensors@, class, i as int),
    {
        if let Some(label) = &sensors[i].label {
            let l = trim(label.as_str());
            if str_eq(l.as_str(), class.label()) {
                return Some(sensors[i].number);
            }
        }
    }
    if sensors.len() > 0 {
        Some(sensors[0].number)
    } else {
        None
    }
}

// Readings

/// `n` in decimal with at least `width` digits.
pub open spec fn padded(n: nat, width: nat) -> Seq<char>
    decreases width,
{
    if width == 0 {
        Seq::empty()
    } else {
        padded(n / 10, (width - 1) as nat).push(text::digit_char(n % 10))
    }
}

/// The magnitude of a number.
pub open spec fn magnitude(n: int) -> nat {
    if n < 0 { (-n) as nat } else { n as nat }
}

/// The text of a number of thousandths.
pub open spec fn thousandths(n: int) -> Seq<char> {
    (if n < 0 { seq!['-'] } else { Seq::empty() }) + text::decimal(magnitude(n) / 1000) + seq!['.']
        + padded(magnitude(n) % 1000, 3)
}

/// The text of a number of millionths.
pub open spec fn millionths(n: int) -> Seq<char> {
    (if n < 0 { seq!['-'] } else { Seq::empty() }) + text::decimal(magnitude(n) / 1_000_000) + seq![
        '.',
    ] + padded(magnitude(n) % 1_000_000, 6)
}

/// Appends `n` in decimal with exactly `width` digits.
pub fn append_padded(s: &mut String, n: u64, width: u64)
    ensures
        final(s)@ == old(s)@ + padded(n as nat, width as nat),
    decreases width,
{
    if width == 0 {
        assert(s@ =~= old(s)@ + padded(n as nat, 0));
    } else {
        append_padded(s, n / 10, width - 1);
        let b: u8 = 0x30 + (n % 10) as u8;
        s.push(b as char);
        assert(b as char == text::digit_char((n % 10) as nat));
        assert(s@ =~= old(s)@ + padded(n as nat, width as nat));
    }
}

/// The text of a number of thousandths.
pub fn thousandths_text(n: i64) -> (s: String)
    ensures
        s@ == thousandths(n as int),
{
    let m: u64 = abs64(n);
    let mut s = String::new();
    if n < 0 {
        s.push('-');
    }
    append_decimal(&mut s, m / 1000);
    s.push('.');
    append_padded(&mut s, m % 1000, 3);
    assert(s@ =~= thousandths(n as int));
    s
}

/// The text of a number of millionths.
pub fn millionths_text(n: i64) -> (s: String)
    ensures
        s@ == millionths(n as int),
{
    let m: u64 = abs64(n);
    let mut s = String::new();
    if n < 0 {
        s.push('-');
    }
    append_decimal(&mut s, m / 1_000_000);
    s.push('.');
    append_padded(&mut s, m % 1_000_000, 6);
    assert(s@ =~= millionths(n as int));
    s
}

fn abs64(n: i64) -> (m: u64)
    ensures
        m == magnitude(n as int),
{
    if n >= 0 {
        n as u64
    } else if n == i64::MIN {
        0x8000_0000_0000_0000
    } else {
        (-n) as u64
    }
}

/// The whole number that a file holds, between whitespace.
pub open spec fn whole_number(s: Seq<char>) -> Option<nat> {
    text::unsigned_value(text::trimmed(s), 10, u64::MAX as nat)
}

/// Reads the whole number that a file holds.
pub fn parse_whole(s: &str) -> (n: Option<u64>)
    ensures
        text::opt_nat(n) == whole_number(s@),
{
    let t = trim_chars(s);
    parse_unsigned(t.as_slice(), 10, u64::MAX)
}

/// The number of an optional file.
pub open spec fn opt_whole(s: Option<Seq<char>>) -> Option<nat> {
    match s {
        Some(t) => whole_number(t),
        None => None,
    }
}

fn whole_of(s: Option<&str>) -> (n: Option<u64>)
    ensures
        text::opt_nat(n) == opt_whole(opt_str(s)),
{
    match s {
        Some(t) => parse_whole(t),
        None => None,
    }
}

/// The unsigned text of thousandths.
pub open spec fn opt_thousandths(n: Option<nat>) -> Option<Seq<char>> {
    match n {
        Some(v) => Some(text::decimal(v / 1000) + seq!['.'] + padded(v % 1000, 3)),
        None => None,
    }
}

/// The unsigned text of millionths.
pub open spec fn opt_millionths(n: Option<nat>) -> Option<Seq<char>> {
    match n {
        Some(v) => Some(text::decimal(v / 1_000_000) + seq!['.'] + padded(v % 1_000_000, 6)),
        None => None,
    }
}

fn unsigned_thousandths(n: Option<u64>) -> (s: Option<String>)
    ensures
        text::opt_text(s) == opt_thousandths(text::opt_nat(n)),
{
    match n {
        Some(v) => {
            let mut s = String::new();
            append_decimal(&mut s, v / 1000);
            s.push('.');
            append_padded(&mut s, v % 1000, 3);
            assert(s@ =~= text::decimal(v as nat / 1000) + seq!['.'] + padded(v as nat % 1000, 3));
            Some(s)
        },
        None => None,
    }
}

fn unsigned_millionths(n: Option<u64>) -> (s: Option<String>)
    ensures
        text::opt_text(s) == opt_millionths(text::opt_nat(n)),
{
    match n {
        Some(v) => {
            let mut s = String::new();
            append_decimal(&mut s, v / 1_000_000);
            s.push('.');
            append_padded(&mut s, v % 1_000_000, 6);
            assert(s@ =~= text::decimal(v as nat / 1_000_000) + seq!['.'] + padded(
                v as nat % 1_000_000,
                6,
            ));
            Some(s)
        },
        None => None,
    }
}

/// Whether `l` holds the limits that the three `_max` files give: microwatts,
/// milliamperes and millidegrees. Where none gives a number there are none.
pub open spec fn limits_read(
    l: Option<DeviceLimits>,
    power: Option<Seq<char>>,
    current: Option<Seq<char>>,
    temperature: Option<Seq<char>>,
) -> bool {
    let p = opt_whole(power);
    let c = opt_whole(current);
    let t = opt_whole(temperature);
    match l {
        None => p is None && c is None && t is None,
        Some(l) => {
            &&& p is Some || c is Some || t is Some
            &&& text::opt_text(l.tdp_limit) == opt_millionths(p)
            &&& text::opt_text(l.tdc_limit) == opt_thousandths(c)
            &&& l.asic_fmax is None
            &&& text::opt_text(l.thm_limit) == opt_thousandths(t)
        },
    }
}

/// Reads the limits of a device out of the `_max` files of the sensors that
/// were picked.
pub fn read_hwmon_limits(
    power_max: Option<&str>,
    current_max: Option<&str>,
    temperature_max: Option<&str>,
) -> (l: Option<DeviceLimits>)
    ensures
        limits_read(l, opt_str(power_max), opt_str(current_max), opt_str(temperature_max)),
{
    let tdp_limit = unsigned_millionths(whole_of(power_max));
    let tdc_limit = unsigned_thousandths(whole_of(current_max));
    let thm_limit = unsigned_thousandths(whole_of(temperature_max));
    if tdp_limit.is_none() && tdc_limit.is_none() && thm_limit.is_none() {
        return None;
    }
    Some(DeviceLimits { tdp_limit, tdc_limit, asic_fmax: None, thm_limit })
}

/// The `_max` file that belongs to an `_input` file.
pub open spec fn limit_name(input: Seq<char>) -> Option<Seq<char>> {
    let n = input.len() - 6;
    if n >= 0 && input.skip(n) == "_input"@ {
        Some(input.take(n) + "_max"@)
    } else {
        None
    }
}

/// The name of the `_max` file that belongs to an `_input` file, so that a
/// limit stays paired with the reading that it bounds.
pub fn limit_path_for(input: &str) -> (r: Option<String>)
    ensures
        text::opt_text(r) == limit_name(input@),
{
    proof {
        reveal_strlit("_input");
    }
    let chars = chars_of(input);
    let suffix = chars_of("_input");
    if chars.len() < suffix.len() {
        return None;
    }
    let n: usize = chars.len() - suffix.len();
    assert(chars@.subrange(n as int, n + 6) =~= chars@.skip(n as int));
    if !matches_at(&chars, n, &suffix) {
        return None;
    }
    let mut s = String::new();
    for i in 0..n
        invariant
            n <= chars@.len(),
            s@ =~= chars@.take(i as int),
    {
        s.push(chars[i]);
    }
    s.append("_max");
    Some(s)
}

/// The signed number that a file holds, where it fits 32 bits.
pub open spec fn signed32(s: Seq<char>) -> Option<int> {
    match text::signed_value(text::trimmed(s)) {
        Some(v) => if i32::MIN <= v <= i32::MAX { Some(v) } else { None },
        None => None,
    }
}

/// The view of an optional 32-bit number.
pub open spec fn opt_int32(n: Option<i32>) -> Option<int> {
    match n {
        Some(v) => Some(v as int),
        None => None,
    }
}

/// Reads the signed 32-bit number that a file holds.
pub fn parse_int32(s: &str) -> (n: Option<i32>)
    ensures
        opt_int32(n) == signed32(s@),
{
    let t = trim_chars(s);
    match parse_signed(t.as_slice()) {
        Some(v) => if v >= i32::MIN as i64 && v <= i32::MAX as i64 {
            Some(v as i32)
        } else {
            None
        },
        None => None,
    }
}

/// Reads the signed 64-bit number that a file holds.
pub fn parse_int64(s: &str) -> (n: Option<i64>)
    ensures
        text::opt_int(n) == text::signed_value(text::trimmed(s@)),
{
    let t = trim_chars(s);
    parse_signed(t.as_slice())
}

/// Padded digits are as many as asked for, and make the number where it has no
/// more.
pub proof fn lemma_padded(n: nat, width: nat)
    ensures
        padded(n, width).len() == width,
        width > 0 ==> text::all_digits(padded(n, width), 10),
        n < pow(10, width) ==> text::digits_value(padded(n, width), 10) == n,
    decreases width,
{
    vstd::arithmetic::power::lemma_pow0(10);
    if width > 0 {
        let s = padded(n, width);
        lemma_padded(n / 10, (width - 1) as nat);
        assert(s.drop_last() =~= padded(n / 10, (width - 1) as nat));
        assert(text::digit_value(s.last(), 10) == Some(n % 10));
        vstd::arithmetic::power::lemma_pow_adds(10, (width - 1) as nat, 1);
        vstd::arithmetic::power::lemma_pow1(10);
        assert forall|i: int| 0 <= i < s.len() implies text::digit_value(
            #[trigger] s[i],
            10,
        ) is Some by {
            if i < s.len() - 1 {
                assert(s[i] == padded(n / 10, (width - 1) as nat)[i]);
            }
        }
    }
}

pub proof fn lemma_fraction_denotes(minus: bool, m: nat, unit: nat, places: nat)
    requires
        places > 0,
        unit == pow(10, places),
        minus ==> m > 0,
    ensures
        text::denotes(
            (if minus { seq!['-'] } else { Seq::<char>::empty() }) + text::decimal(m / unit) + seq![
                '.',
            ] + padded(m % unit, places),
            if minus { -(m as int) } else { m as int },
            unit,
        ),
{
    vstd::arithmetic::power::lemma_pow_positive(10, places);
    let whole = text::decimal(m / unit);
    let part = padded(m % unit, places);
    let s = (if minus { seq!['-'] } else { Seq::<char>::empty() }) + whole + seq!['.'] + part;
    text::law_decimal_reads_back(m / unit);
    lemma_padded(m % unit, places);
    text::lemma_digits_join(whole, part);
    assert(text::is_fraction(s, if minus { -(m as int) } else { m as int }, whole, part));
    vstd::arithmetic::div_mod::lemma_fundamental_div_mod(m as int, unit as int);
    assert((m / unit) * unit == unit * (m / unit)) by (nonlinear_arith);
    assert(text::digits_value(whole + part, 10) == m);
}

/// The text of a number of thousandths denotes that many thousandths.
pub proof fn law_thousandths_denote(n: int)
    ensures
        text::denotes(thousandths(n), n, 1000),
{
    reveal_with_fuel(pow, 4);
    assert(pow(10, 3) == 1000);
    lemma_fraction_denotes(n < 0, magnitude(n), 1000, 3);
}

/// The text of a number of millionths denotes that many millionths.
pub proof fn law_millionths_denote(n: int)
    ensures
        text::denotes(millionths(n), n, 1_000_000),
{
    reveal_with_fuel(pow, 7);
    assert(pow(10, 6) == 1_000_000);
    lemma_fraction_denotes(n < 0, magnitude(n), 1_000_000, 6);
}

/// A number that a file holds is read whatever whitespace stands around it, such
/// as the line end behind it.
pub proof fn law_file_numbers_read_back(before: Seq<char>, n: int, after: Seq<char>)
    requires
        text::all_white(before),
        text::all_white(after),
    ensures
        0 <= n <= u64::MAX ==> whole_number(before + text::decimal(n as nat) + after) == Some(
            n as nat,
        ),
        0 <= n <= i32::MAX ==> signed32(before + text::decimal(n as nat) + after) == Some(n),
        i32::MIN <= n < 0 ==> signed32(before + (seq!['-'] + text::decimal((-n) as nat)) + after)
            == Some(n),
        0 <= n <= i64::MAX ==> text::signed_value(
            text::trimmed(before + text::decimal(n as nat) + after),
        ) == Some(n),
        i64::MIN <= n < 0 ==> text::signed_value(
            text::trimmed(before + (seq!['-'] + text::decimal((-n) as nat)) + after),
        ) == Some(n),
{
    let m: nat = if n < 0 { (-n) as nat } else { n as nat };
    let d = text::decimal(m);
    let s = if n < 0 { seq!['-'] + d } else { d };
    text::law_decimal_reads_back(m);
    assert(text::digit_value(d[0], 10) is Some);
    assert(text::digit_value(d[d.len() - 1], 10) is Some);
    assert(d.last() == d[d.len() - 1]);
    assert(s.last() == d.last());
    text::law_trimming_leaves_the_text(before, s, after);
    if i64::MIN <= n <= i64::MAX {
        text::law_signed_numbers_read_back(n);
    }
}

/// The limits are those of the files, in whole units: a file of microwatts
/// bounds the power in watts, one of milliamperes the current in amperes, and
/// one of millidegrees the temperature in degrees. A file that holds no number
/// bounds nothing.
pub proof fn law_limits_are_in_whole_units(
    l: Option<DeviceLimits>,
    power: Option<Seq<char>>,
    current: Option<Seq<char>>,
    temperature: Option<Seq<char>>,
)
    requires
        limits_read(l, power, current, temperature),
    ensures
        match opt_whole(power) {
            Some(n) => l is Some && l->0.tdp_limit is Some && text::denotes(
                l->0.tdp_limit->0@,
                n as int,
                1_000_000,
            ),
            None => l is Some ==> l->0.tdp_limit is None,
        },
        match opt_whole(current) {
            Some(n) => l is Some && l->0.tdc_limit is Some && text::denotes(
                l->0.tdc_limit->0@,
                n as int,
                1000,
            ),
            None => l is Some ==> l->0.tdc_limit is None,
        },
        match opt_whole(temperature) {
            Some(n) => l is Some && l->0.thm_limit is Some && text::denotes(
                l->0.thm_limit->0@,
                n as int,
                1000,
            ),
            None => l is Some ==> l->0.thm_limit is None,
        },
        l is Some ==> l->0.asic_fmax is None,
        l is None <==> opt_whole(power) is None && opt_whole(current) is None && opt_whole(
            temperature,
        ) is None,
{
    if let Some(n) = opt_whole(power) {
        law_millionths_denote(n as int);
        assert(millionths(n as int) =~= opt_millionths(Some(n))->0);
    }
    if let Some(n) = opt_whole(current) {
        law_thousandths_denote(n as int);
        assert(thousandths(n as int) =~= opt_thousandths(Some(n))->0);
    }
    if let Some(n) = opt_whole(temperature) {
        law_thousandths_denote(n as int);
        assert(thousandths(n as int) =~= opt_thousandths(Some(n))->0);
    }
}

/// A name tells a Tenstorrent device by one of five words in it, of which `tt_` must
/// begin it, whatever stands around; three of them tell the architecture.
pub proof fn law_names_tell_devices(before: Seq<char>, after: Seq<char>, name: Seq<char>)
    ensures
        is_tenstorrent(before + "tenstorrent"@ + after),
        is_tenstorrent("tt_"@ + after),
        is_tenstorrent(before + "grayskull"@ + after) && named_architecture(
            before + "grayskull"@ + after,
        ) == Architecture::Grayskull,
        is_tenstorrent(before + "wormhole"@ + after) && (named_architecture(
            before + "wormhole"@ + after,
        ) == Architecture::Wormhole || has_part(before + "wormhole"@ + after, "grayskull"@)),
        is_tenstorrent(before + "blackhole"@ + after) && (named_architecture(
            before + "blackhole"@ + after,
        ) == Architecture::Blackhole || has_part(before + "blackhole"@ + after, "grayskull"@)
            || has_part(before + "blackhole"@ + after, "wormhole"@)),
        is_tenstorrent(name) ==> has_part(name, "tenstorrent"@) || has_part(name, "grayskull"@)
            || has_part(name, "wormhole"@) || has_part(name, "blackhole"@) || (name.len()
            >= "tt_"@.len() && name.take("tt_"@.len() as int) == "tt_"@),
        named_architecture(name) == Architecture::Grayskull ==> has_part(name, "grayskull"@),
        named_architecture(name) == Architecture::Wormhole ==> has_part(name, "wormhole"@),
        named_architecture(name) == Architecture::Blackhole ==> has_part(name, "blackhole"@),
{
    lemma_part_is_found(before, "tenstorrent"@, after);
    lemma_part_is_found(before, "grayskull"@, after);
    lemma_part_is_found(before, "wormhole"@, after);
    lemma_part_is_found(before, "blackhole"@, after);
    assert(("tt_"@ + after).take("tt_"@.len() as int) =~= "tt_"@);
}

proof fn lemma_part_is_found(before: Seq<char>, part: Seq<char>, after: Seq<char>)
    ensures
        has_part(before + part + after, part),
{
    let s = before + part + after;
    let i = before.len() as int;
    assert(s.subrange(i, i + part.len()) =~= part);
}

/// What is found in a directory is what its files say: its name without the blanks
/// around it, and the address that its link leads to.
pub proof fn law_candidates_are_what_their_directory_says(e: EntryView)
    ensures
        entry_candidate(e) is Some <==> e.name is Some && is_tenstorrent(text::trimmed(e.name->0)),
        entry_candidate(e) matches Some(c) ==> {
            &&& c.path == e.path
            &&& c.dir_name == e.dir_name
            &&& c.name == text::trimmed(e.name->0)
            &&& c.architecture == named_architecture(c.name)
            &&& e.link is None ==> c.bus_id is None
            &&& e.link is Some ==> c.bus_id == link_address(e.link->0)
        },
{
}

/// A directory is numbered by the number that its name ends in.
pub proof fn law_directories_are_numbered(word: Seq<char>, n: nat)
    requires
        forall|i: int| 0 <= i < word.len() ==> !text::is_digit(#[trigger] word[i]),
        n <= u32::MAX,
    ensures
        directory_number(word + text::decimal(n)) == n,
        directory_number(word) == u32::MAX,
{
    let d = text::decimal(n);
    text::lemma_decimal_is_digits(n);
    text::law_decimal_reads_back(n);
    assert(text::digit_value(d[0], 10) is Some);
    lemma_from_first_digit(word, d);
    lemma_from_first_digit(word, Seq::empty());
    assert(word + Seq::<char>::empty() =~= word);
}

proof fn lemma_from_first_digit(word: Seq<char>, d: Seq<char>)
    requires
        forall|i: int| 0 <= i < word.len() ==> !text::is_digit(#[trigger] word[i]),
        d.len() > 0 ==> text::is_digit(d[0]),
    ensures
        from_first_digit(word + d) == d,
    decreases word.len(),
{
    if word.len() == 0 {
        assert(word + d =~= d);
    } else {
        assert((word + d)[0] == word[0]);
        assert((word + d).skip(1) =~= word.skip(1) + d);
        assert forall|i: int| 0 <= i < word.skip(1).len() implies !text::is_digit(
            #[trigger] word.skip(1)[i],
        ) by {
            assert(word.skip(1)[i] == word[i + 1]);
        }
        lemma_from_first_digit(word.skip(1), d);
    }
}

proof fn lemma_components_join(path: Seq<char>, last: Seq<char>)
    requires
        !last.contains('/'),
    ensures
        components(path + seq!['/'] + last) == components(path).push(last),
        components(path).len() > 0,
    decreases last.len(),
{
    let s = path + seq!['/'] + last;
    lemma_components_some(path);
    if last.len() == 0 {
        assert(s =~= path.push('/'));
        assert(s.drop_last() =~= path);
        assert(last =~= Seq::<char>::empty());
    } else {
        let short = last.drop_last();
        assert(!short.contains('/')) by {
            if short.contains('/') {
                let i = choose|i: int| 0 <= i < short.len() && short[i] == '/';
                assert(last[i] == '/');
            }
        }
        assert(last.contains(last.last()));
        lemma_components_join(path, short);
        assert(s.drop_last() =~= path + seq!['/'] + short);
        assert(s.last() == last.last());
        assert(short.push(last.last()) =~= last);
        let before = components(s.drop_last());
        assert(before.drop_last() =~= components(path));
    }
}

proof fn lemma_components_some(path: Seq<char>)
    ensures
        components(path).len() > 0,
    decreases path.len(),
{
    if path.len() > 0 {
        lemma_components_some(path.drop_last());
    }
}

/// The address of a device is the last part of its link that looks like one: where
/// the link ends in an address it is that, and where it ends in anything else it is
/// the one of the link up to there.
pub proof fn law_links_lead_to_their_last_address(path: Seq<char>, last: Seq<char>)
    requires
        !last.contains('/'),
    ensures
        is_pci_address(last) ==> link_address(path + "/"@ + last) == Some(last),
        !is_pci_address(last) ==> link_address(path + "/"@ + last) == link_address(path),
        is_pci_address(last) ==> last[4] == ':' && last[7] == ':',
{
    reveal_strlit("/");
    assert(path + "/"@ + last =~= path + seq!['/'] + last);
    lemma_components_join(path, last);
    let all = components(path).push(last);
    lemma_last_address_prefix(all, components(path), components(path).len());
}

/// Two texts come in the order of the first character in which they differ, and a
/// text comes before what it begins.
pub proof fn law_texts_come_in_dictionary_order(
    same: Seq<char>,
    a: char,
    b: char,
    x: Seq<char>,
    y: Seq<char>,
)
    ensures
        a < b ==> text_le(same + seq![a] + x, same + seq![b] + y) && !text_le(
            same + seq![b] + y,
            same + seq![a] + x,
        ),
        text_le(same, same + x),
        x.len() > 0 ==> !text_le(same + x, same),
    decreases same.len(),
{
    let p = same + seq![a] + x;
    let q = same + seq![b] + y;
    let r = same + x;
    if same.len() == 0 {
        assert(p[0] == a);
        assert(q[0] == b);
    } else {
        assert(p[0] == same[0] && q[0] == same[0] && r[0] == same[0]);
        assert(p.skip(1) =~= same.skip(1) + seq![a] + x);
        assert(q.skip(1) =~= same.skip(1) + seq![b] + y);
        assert(r.skip(1) =~= same.skip(1) + x);
        law_texts_come_in_dictionary_order(same.skip(1), a, b, x, y);
    }
}

/// The devices come by their bus ids, those without one last, and these by the
/// numbers of their directories.
pub proof fn law_devices_come_by_bus_id(found: Seq<CandidateView>, i: int, j: int)
    requires
        0 <= i < j < found.len(),
    ensures
        ({
            let a = ordered(found)[i];
            let b = ordered(found)[j];
            &&& b.bus_id is Some ==> a.bus_id is Some && text_le(a.bus_id->0, b.bus_id->0)
            &&& a.bus_id is None ==> b.bus_id is None && a.hwmon_num <= b.hwmon_num
            &&& a.bus_id == b.bus_id ==> a.hwmon_num <= b.hwmon_num
            &&& a.bus_id == b.bus_id && a.hwmon_num == b.hwmon_num ==> text_le(
                a.dir_name,
                b.dir_name,
            )
        }),
        ordered(found).to_multiset() == found.to_multiset(),
{
    law_ordered_sorts(found);
    let a = ordered(found)[i];
    let b = ordered(found)[j];
    assert(candidate_le(a, b));
    if b.bus_id is Some && a.bus_id is Some {
        lemma_text_total(a.bus_id->0, a.bus_id->0);
    }
}

/// The files of a sensor are named by its kind: `temp`, `in`, `power`, `curr` and
/// `fan`, with its number; and the sensor of a chip's core is labelled `asic_temp`,
/// `vcore`, `power`, `current` and `fan_rpm`.
pub proof fn law_sensors_are_named_by_their_kind(class: SensorClass)
    ensures
        class == SensorClass::Temperature ==> class_prefix(class) == "temp"@ && class_label(class)
            == "asic_temp"@,
        class == SensorClass::Voltage ==> class_prefix(class) == "in"@ && class_label(class)
            == "vcore"@,
        class == SensorClass::Power ==> class_prefix(class) == "power"@ && class_label(class)
            == "power"@,
        class == SensorClass::Current ==> class_prefix(class) == "curr"@ && class_label(class)
            == "current"@,
        class == SensorClass::Fan ==> class_prefix(class) == "fan"@ && class_label(class)
            == "fan_rpm"@,
{
}

/// The sensor that is read is the first with the label that is wanted, and where
/// none has it the first of all.
pub proof fn law_labelled_sensors_are_read(sensors: Seq<SensorFile>, class: SensorClass, k: int)
    ensures
        0 <= k < sensors.len() && bears_label(sensors[k], class) && (forall|l: int|
            0 <= l < k ==> !bears_label(#[trigger] sensors[l], class)) ==> picked_sensor(
            sensors,
            class,
        ) == Some(sensors[k].number),
        sensors.len() > 0 && (forall|l: int|
            0 <= l < sensors.len() ==> !bears_label(#[trigger] sensors[l], class)) ==> picked_sensor(
            sensors,
            class,
        ) == Some(sensors[0].number),
        sensors.len() == 0 ==> picked_sensor(sensors, class) is None,
        0 <= k < sensors.len() && bears_label(sensors[k], class) ==> sensors[k].label is Some
            && text::trimmed(sensors[k].label->0@) == class_label(class),
{
    if 0 <= k < sensors.len() && bears_label(sensors[k], class) && (forall|l: int|
        0 <= l < k ==> !bears_label(#[trigger] sensors[l], class)) {
        lemma_first_labelled(sensors, class, 0, k);
    }
    if forall|l: int| 0 <= l < sensors.len() ==> !bears_label(#[trigger] sensors[l], class) {
        lemma_first_labelled(sensors, class, 0, sensors.len() as int);
    }
}

proof fn lemma_first_labelled(sensors: Seq<SensorFile>, class: SensorClass, i: int, k: int)
    requires
        0 <= i <= k <= sensors.len(),
        forall|l: int| i <= l < k ==> !bears_label(#[trigger] sensors[l], class),
    ensures
        first_labelled(sensors, class, i) == first_labelled(sensors, class, k),
    decreases k - i,
{
    if i < k {
        assert(!bears_label(sensors[i], class));
        lemma_first_labelled(sensors, class, i + 1, k);
    }
}

/// The limit of a reading is in the file of the same sensor, with `_max` for
/// `_input`.
pub proof fn law_limits_stay_with_their_reading(sensor: Seq<char>, other: Seq<char>)
    ensures
        limit_name(sensor + "_input"@) == Some(sensor + "_max"@),
        limit_name(other) is Some ==> exists|s: Seq<char>| other == #[trigger] (s + "_input"@)
            && limit_name(other) == Some(s + "_max"@),
{
    reveal_strlit("_input");
    let s = sensor + "_input"@;
    assert(s.skip(s.len() - 6) =~= "_input"@);
    assert(s.take(s.len() - 6) =~= sensor);
    if limit_name(other) is Some {
        let base = other.take(other.len() - 6);
        assert(other =~= base + "_input"@);
    }
}

} // verus!
