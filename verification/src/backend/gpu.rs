//! What the registry of macOS tells of a graphics processor.
//!
//! The registry prints one block for each node, with assignments such as
//! `"gpu-core-count" = 20` and, inside a dictionary, `"Device Utilization %"=27`.

use vstd::prelude::*;

use crate::text;
use crate::text::{chars_of, parse_unsigned, scan_digits, slice_of, string_of};

verus! {

/// A sample of a graphics processor.
#[derive(Debug, PartialEq)]
pub struct GpuSample {
    pub model: String,
    pub core_count: u64,
    /// How busy it is, in percent.
    pub util_pct: u64,
    pub mem_in_use_bytes: u64,
    pub mem_alloc_bytes: u64,
}

/// What a sample holds.
pub struct GpuView {
    pub model: Seq<char>,
    pub core_count: nat,
    pub util_pct: nat,
    pub mem_in_use_bytes: nat,
    pub mem_alloc_bytes: nat,
}

impl View for GpuSample {
    type V = GpuView;

    open spec fn view(&self) -> GpuView {
        GpuView {
            model: self.model@,
            core_count: self.core_count as nat,
            util_pct: self.util_pct as nat,
            mem_in_use_bytes: self.mem_in_use_bytes as nat,
            mem_alloc_bytes: self.mem_alloc_bytes as nat,
        }
    }
}

/// Whether a text stands at a position of another.
pub open spec fn occurs_at(s: Seq<char>, word: Seq<char>, i: int) -> bool {
    0 <= i && i + word.len() <= s.len() && s.subrange(i, i + word.len()) == word
}

/// The first position from `i` on at which a text stands, or -1.
pub open spec fn occurrence(s: Seq<char>, word: Seq<char>, i: int) -> int
    decreases s.len() + 1 - i,
{
    if i + word.len() > s.len() {
        -1
    } else if occurs_at(s, word, i) {
        i
    } else {
        occurrence(s, word, i + 1)
    }
}

/// The first position at which a text stands, or -1.
pub open spec fn first_at(s: Seq<char>, word: Seq<char>) -> int {
    occurrence(s, word, 0)
}

/// What stands behind the first occurrence of a text.
pub open spec fn behind(s: Seq<char>, word: Seq<char>) -> Option<Seq<char>> {
    let k = first_at(s, word);
    if k < 0 { None } else { Some(s.skip(k + word.len())) }
}

/// The number that the digits at the beginning of a text denote.
pub open spec fn leading_number(s: Seq<char>) -> Option<nat> {
    text::unsigned_value(s.take(text::digits_end(s, 0)), 10, u64::MAX as nat)
}

/// The number that is assigned to a key, with blanks around the sign.
pub open spec fn assigned_number(s: Seq<char>, key: Seq<char>) -> Option<nat> {
    match behind(s, seq!['"'] + key + "\" = "@) {
        Some(rest) => leading_number(rest),
        None => None,
    }
}

/// The number that is assigned to a key inside a dictionary.
pub open spec fn dictionary_number(s: Seq<char>, key: Seq<char>) -> Option<nat> {
    match behind(s, seq!['"'] + key + "\"="@) {
        Some(rest) => leading_number(rest),
        None => None,
    }
}

/// The quoted text that is assigned to a key.
pub open spec fn assigned_text(s: Seq<char>, key: Seq<char>) -> Option<Seq<char>> {
    match behind(s, seq!['"'] + key + "\" = \""@) {
        Some(rest) => {
            let k = text::first_of(rest, '"');
            if k < rest.len() { Some(rest.take(k)) } else { None }
        },
        None => None,
    }
}

/// The first block that reports how busy the processor is.
pub open spec fn busy_block(s: Seq<char>) -> Option<Seq<char>>
    decreases s.len(),
{
    let k = first_at(s, "+-o "@);
    if k < 0 {
        if first_at(s, "Device Utilization %"@) >= 0 { Some(s) } else { None }
    } else if first_at(s.take(k), "Device Utilization %"@) >= 0 {
        Some(s.take(k))
    } else if k + 4 <= s.len() {
        busy_block(s.skip(k + 4))
    } else {
        None
    }
}

/// A number, or 0 where there is none.
pub open spec fn or_zero(n: Option<nat>) -> nat {
    match n {
        Some(v) => v,
        None => 0,
    }
}

/// What a block tells of the processor, where it tells how busy that is.
pub open spec fn sample_of(node: Seq<char>) -> Option<GpuView> {
    match dictionary_number(node, "Device Utilization %"@) {
        Some(util) => Some(
            GpuView {
                model: match assigned_text(node, "model"@) {
                    Some(m) => m,
                    None => "Apple GPU"@,
                },
                core_count: or_zero(assigned_number(node, "gpu-core-count"@)),
                util_pct: util,
                mem_in_use_bytes: or_zero(dictionary_number(node, "In use system memory"@)),
                mem_alloc_bytes: or_zero(dictionary_number(node, "Alloc system memory"@)),
            },
        ),
        None => None,
    }
}

/// What the registry tells of the processor: everything out of the one block
/// that reports how busy it is.
pub open spec fn registry_sample(output: Seq<char>) -> Option<GpuView> {
    match busy_block(output) {
        Some(node) => sample_of(node),
        None => None,
    }
}

fn stands_at(s: &[char], word: &[char], i: usize) -> (r: bool)
    requires
        i + word@.len() <= s@.len(),
    ensures
        r == occurs_at(s@, word@, i as int),
{
    let n: usize = s.len();
    for k in 0..word.len()
        invariant
            n == s@.len(),
            i + word@.len() <= n,
            forall|j: int| 0 <= j < k ==> s@[i + j] == #[trigger] word@[j],
    {
        if s[i + k] != word[k] {
            assert(s@.subrange(i as int, i + word@.len())[k as int] != word@[k as int]);
            return false;
        }
    }
    assert(s@.subrange(i as int, i + word@.len()) =~= word@);
    true
}

proof fn lemma_occurrence(s: Seq<char>, word: Seq<char>, i: int)
    requires
        0 <= i,
    ensures
        occurrence(s, word, i) == -1 || (i <= occurrence(s, word, i) && occurs_at(
            s,
            word,
            occurrence(s, word, i),
        )),
    decreases s.len() + 1 - i,
{
    if i + word.len() <= s.len() && !occurs_at(s, word, i) {
        lemma_occurrence(s, word, i + 1);
    }
}

fn find_word(s: &[char], word: &str) -> (r: Option<usize>)
    ensures
        match r {
            Some(k) => k == first_at(s@, word@) && k + word@.len() <= s@.len(),
            None => first_at(s@, word@) == -1,
        },
{
    let w = chars_of(word);
    let n: usize = s.len();
    let m: usize = w.len();
    if m > n {
        return None;
    }
    let last: usize = n - m;
    for i in 0..last
        invariant
            w@ == word@,
            m == w@.len(),
            n == s@.len(),
            last == n - m,
            first_at(s@, word@) == occurrence(s@, word@, i as int),
    {
        if stands_at(s, w.as_slice(), i) {
            return Some(i);
        }
    }
    if stands_at(s, w.as_slice(), last) {
        return Some(last);
    }
    assert(occurrence(s@, word@, last as int + 1) == -1);
    None
}

/// A key in quotes with what follows it.
fn quoted(key: &str, tail: &str) -> (s: String)
    ensures
        s@ == seq!['"'] + key@ + tail@,
{
    let mut s = String::new();
    s.push('"');
    s.append(key);
    s.append(tail);
    assert(s@ =~= seq!['"'] + key@ + tail@);
    s
}

fn rest_behind(s: &[char], word: &str) -> (r: Option<Vec<char>>)
    ensures
        match r {
            Some(v) => behind(s@, word@) == Some(v@),
            None => behind(s@, word@) is None,
        },
{
    match find_word(s, word) {
        Some(k) => {
            let w = chars_of(word);
            let n: usize = s.len();
            let v = slice_of(s, k + w.len(), n);
            assert(v@ =~= s@.skip(k + word@.len()));
            Some(v)
        },
        None => None,
    }
}

fn read_number(s: &[char]) -> (r: Option<u64>)
    ensures
        text::opt_nat(r) == leading_number(s@),
{
    let end: usize = scan_digits(s, 0);
    let d = slice_of(s, 0, end);
    assert(d@ =~= s@.take(end as int));
    parse_unsigned(d.as_slice(), 10, u64::MAX)
}

/// The number that is assigned to a key.
pub fn find_int_assign(s: &[char], key: &str) -> (r: Option<u64>)
    ensures
        text::opt_nat(r) == assigned_number(s@, key@),
{
    match rest_behind(s, quoted(key, "\" = ").as_str()) {
        Some(rest) => read_number(rest.as_slice()),
        None => None,
    }
}

/// The number that is assigned to a key inside a dictionary.
pub fn find_dict_int(s: &[char], key: &str) -> (r: Option<u64>)
    ensures
        text::opt_nat(r) == dictionary_number(s@, key@),
{
    match rest_behind(s, quoted(key, "\"=").as_str()) {
        Some(rest) => read_number(rest.as_slice()),
        None => None,
    }
}

/// The quoted text that is assigned to a key.
pub fn find_quoted(s: &[char], key: &str) -> (r: Option<String>)
    ensures
        text::opt_text(r) == assigned_text(s@, key@),
{
    match rest_behind(s, quoted(key, "\" = \"").as_str()) {
        Some(rest) => match text::find_first(rest.as_slice(), '"') {
            Some(k) => {
                let v = slice_of(rest.as_slice(), 0, k);
                assert(v@ =~= rest@.take(k as int));
                Some(string_of(v.as_slice()))
            },
            None => None,
        },
        None => None,
    }
}

/// The first block that reports how busy the processor is.
pub fn node_with_utilization(s: &[char]) -> (r: Option<Vec<char>>)
    ensures
        match r {
            Some(v) => busy_block(s@) == Some(v@),
            None => busy_block(s@) is None,
        },
    decreases s@.len(),
{
    let n: usize = s.len();
    proof {
        reveal_strlit("+-o ");
    }
    match find_word(s, "+-o ") {
        None => {
            if find_word(s, "Device Utilization %").is_some() {
                let v = slice_of(s, 0, n);
                assert(v@ =~= s@);
                Some(v)
            } else {
                None
            }
        },
        Some(k) => {
            let block = slice_of(s, 0, k);
            assert(block@ =~= s@.take(k as int));
            if find_word(block.as_slice(), "Device Utilization %").is_some() {
                Some(block)
            } else {
                let rest = slice_of(s, k + 4, n);
                assert(rest@ =~= s@.skip(k as int + 4));
                node_with_utilization(rest.as_slice())
            }
        },
    }
}

/// What the registry tells of the processor, or nothing where no block reports
/// how busy it is.
pub fn parse_ioreg(output: &str) -> (r: Option<GpuSample>)
    ensures
        match r {
            Some(g) => registry_sample(output@) == Some(g@),
            None => registry_sample(output@) is None,
        },
{
    let s = chars_of(output);
    let node = match node_with_utilization(s.as_slice()) {
        Some(v) => v,
        None => return None,
    };
    let util_pct: u64 = match find_dict_int(node.as_slice(), "Device Utilization %") {
        Some(n) => n,
        None => return None,
    };
    Some(
        GpuSample {
            model: match find_quoted(node.as_slice(), "model") {
                Some(m) => m,
                None => "Apple GPU".to_owned(),
            },
            core_count: match find_int_assign(node.as_slice(), "gpu-core-count") {
                Some(n) => n,
                None => 0,
            },
            util_pct,
            mem_in_use_bytes: match find_dict_int(node.as_slice(), "In use system memory") {
                Some(n) => n,
                None => 0,
            },
            mem_alloc_bytes: match find_dict_int(node.as_slice(), "Alloc system memory") {
                Some(n) => n,
                None => 0,
            },
        },
    )
}

/// The block that is read reports how busy the processor is, and holds no part
/// of another block.
pub proof fn law_fields_come_from_one_block(s: Seq<char>)
    requires
        busy_block(s) is Some,
    ensures
        first_at(busy_block(s)->0, "Device Utilization %"@) >= 0,
        first_at(busy_block(s)->0, "+-o "@) == -1,
    decreases s.len(),
{
    reveal_strlit("+-o ");
    let k = first_at(s, "+-o "@);
    lemma_occurrence(s, "+-o "@, 0);
    if k >= 0 {
        if first_at(s.take(k), "Device Utilization %"@) >= 0 {
            lemma_no_occurrence_before(s, "+-o "@, 0, k);
        } else {
            law_fields_come_from_one_block(s.skip(k + 4));
        }
    }
}

proof fn lemma_no_occurrence_before(s: Seq<char>, word: Seq<char>, i: int, k: int)
    requires
        0 <= i <= k <= s.len(),
        occurrence(s, word, i) == k,
        word.len() > 0,
    ensures
        occurrence(s.take(k), word, i) == -1,
    decreases k - i,
{
    let t = s.take(k);
    if i + word.len() <= k {
        assert(s.subrange(i, i + word.len()) =~= t.subrange(i, i + word.len()));
        assert(!occurs_at(s, word, i));
        lemma_no_occurrence_before(s, word, i + 1, k);
    }
}

proof fn lemma_first_occurrence(s: Seq<char>, word: Seq<char>, i: int, k: int)
    requires
        0 <= i <= k,
        occurs_at(s, word, k),
        forall|l: int| i <= l < k ==> !#[trigger] occurs_at(s, word, l),
    ensures
        occurrence(s, word, i) == k,
    decreases k - i,
{
    if i < k {
        assert(!occurs_at(s, word, i));
        lemma_first_occurrence(s, word, i + 1, k);
    }
}

proof fn lemma_behind(before: Seq<char>, word: Seq<char>, rest: Seq<char>)
    requires
        forall|l: int|
            0 <= l < before.len() ==> !#[trigger] occurs_at(before + word + rest, word, l),
    ensures
        behind(before + word + rest, word) == Some(rest),
{
    let s = before + word + rest;
    let k = before.len() as int;
    assert(s.subrange(k, k + word.len()) =~= word);
    lemma_first_occurrence(s, word, 0, k);
    assert(s.skip(k + word.len()) =~= rest);
}

proof fn lemma_leading_number(n: nat, rest: Seq<char>)
    requires
        n <= u64::MAX,
        rest.len() > 0 ==> !text::is_digit(rest[0]),
    ensures
        leading_number(text::decimal(n) + rest) == Some(n),
{
    let d = text::decimal(n);
    let s = d + rest;
    text::lemma_decimal_is_digits(n);
    text::law_decimal_reads_back(n);
    lemma_digits_stop(s, 0, d.len() as int);
    assert(s.take(d.len() as int) =~= d);
    assert(text::digit_value(d[0], 10) is Some);
}

proof fn lemma_digits_stop(s: Seq<char>, i: int, k: int)
    requires
        0 <= i <= k <= s.len(),
        forall|l: int| i <= l < k ==> text::is_digit(#[trigger] s[l]),
        k < s.len() ==> !text::is_digit(s[k]),
    ensures
        text::digits_end(s, i) == k,
    decreases k - i,
{
    if i < k {
        lemma_digits_stop(s, i + 1, k);
    }
}

/// A value is read from behind its key, up to where it ends: a number behind the
/// key in quotes and a sign, which stands close inside a dictionary and between
/// blanks outside of one, and a text between quotes.
pub proof fn law_values_are_read_behind_their_keys(
    before: Seq<char>,
    key: Seq<char>,
    n: nat,
    value: Seq<char>,
    rest: Seq<char>,
)
    requires
        n <= u64::MAX,
        rest.len() > 0 ==> !text::is_digit(rest[0]),
        !value.contains('"'),
    ensures
        ({
            let word = "\""@ + key + "\"="@;
            let s = before + word + (text::decimal(n) + rest);
            (forall|l: int| 0 <= l < before.len() ==> !#[trigger] occurs_at(s, word, l))
                ==> dictionary_number(s, key) == Some(n)
        }),
        ({
            let word = "\""@ + key + "\" = "@;
            let s = before + word + (text::decimal(n) + rest);
            (forall|l: int| 0 <= l < before.len() ==> !#[trigger] occurs_at(s, word, l))
                ==> assigned_number(s, key) == Some(n)
        }),
        ({
            let word = "\""@ + key + "\" = \""@;
            let s = before + word + (value + "\""@ + rest);
            (forall|l: int| 0 <= l < before.len() ==> !#[trigger] occurs_at(s, word, l))
                ==> assigned_text(s, key) == Some(value)
        }),
{
    reveal_strlit("\"");
    assert("\""@ =~= seq!['"']);
    lemma_leading_number(n, rest);
    let number = text::decimal(n) + rest;
    let quoted = value + "\""@ + rest;
    let w1 = "\""@ + key + "\"="@;
    if forall|l: int| 0 <= l < before.len() ==> !#[trigger] occurs_at(before + w1 + number, w1, l) {
        lemma_behind(before, w1, number);
    }
    let w2 = "\""@ + key + "\" = "@;
    if forall|l: int| 0 <= l < before.len() ==> !#[trigger] occurs_at(before + w2 + number, w2, l) {
        lemma_behind(before, w2, number);
    }
    let w3 = "\""@ + key + "\" = \""@;
    if forall|l: int| 0 <= l < before.len() ==> !#[trigger] occurs_at(before + w3 + quoted, w3, l) {
        lemma_behind(before, w3, quoted);
        text::lemma_first_of_join(value, '"', rest);
        assert(quoted =~= value + seq!['"'] + rest);
        assert(quoted.take(value.len() as int) =~= value);
    }
}

/// What is told of the processor is what its block assigns to these keys; a block
/// that does not say how busy it is tells nothing.
pub proof fn law_samples_are_read_by_key(node: Seq<char>)
    ensures
        sample_of(node) is Some <==> dictionary_number(node, "Device Utilization %"@) is Some,
        sample_of(node) matches Some(g) ==> {
            &&& dictionary_number(node, "Device Utilization %"@) == Some(g.util_pct)
            &&& assigned_text(node, "model"@) is Some ==> assigned_text(node, "model"@) == Some(
                g.model,
            )
            &&& assigned_text(node, "model"@) is None ==> g.model == "Apple GPU"@
            &&& assigned_number(node, "gpu-core-count"@) is Some ==> assigned_number(
                node,
                "gpu-core-count"@,
            ) == Some(g.core_count)
            &&& assigned_number(node, "gpu-core-count"@) is None ==> g.core_count == 0
            &&& dictionary_number(node, "In use system memory"@) is Some ==> dictionary_number(
                node,
                "In use system memory"@,
            ) == Some(g.mem_in_use_bytes)
            &&& dictionary_number(node, "In use system memory"@) is None ==> g.mem_in_use_bytes == 0
            &&& dictionary_number(node, "Alloc system memory"@) is Some ==> dictionary_number(
                node,
                "Alloc system memory"@,
            ) == Some(g.mem_alloc_bytes)
            &&& dictionary_number(node, "Alloc system memory"@) is None ==> g.mem_alloc_bytes == 0
        },
{
}

} // verus!
